//! What the statements of an upload and of a replacement find out about the stored GIFs, and what a
//! replacement leaves of them. A replacement does its accounting under the lock that uploads take.

use vstd::prelude::*;

use crate::models::Gif;
use super::db::{
    after_replace, exceeds, insert_statements_of, replace_fits, replace_statements_of, total_size,
    InsertEvent, InsertOrder, InsertStep, ReplaceEvent, ReplaceOrder, ReplaceOutcome, ReplaceStep,
    GIF_COLS,
};
use super::ledger::{held_by, held_total, holds, insert_answer, Held};
use super::sql::{ParamView, StatementView};

verus! {

/// A stored GIF with its id, as far as the accounting looks at it.
#[verifier::ext_equal]
pub struct Kept {
    pub id: Seq<char>,
    pub uploader: Seq<char>,
    pub hash: Seq<char>,
    /// The bytes of its renditions.
    pub bytes: int,
}

/// The bytes of the GIFs that are picked.
pub open spec fn bytes_of(kept: Seq<Kept>, pick: spec_fn(Kept) -> bool) -> int
    decreases kept.len(),
{
    if kept.len() == 0 {
        0
    } else {
        bytes_of(kept.drop_last(), pick) + if pick(kept.last()) {
            kept.last().bytes
        } else {
            0
        }
    }
}

/// Any GIF.
pub open spec fn any() -> spec_fn(Kept) -> bool {
    |k: Kept| true
}

/// A GIF of this uploader.
pub open spec fn uploaded_by(uploader: Seq<char>) -> spec_fn(Kept) -> bool {
    |k: Kept| k.uploader == uploader
}

/// The GIF with this id.
pub open spec fn with_id(id: Seq<char>) -> spec_fn(Kept) -> bool {
    |k: Kept| k.id == id
}

/// The sum that a statement gives.
pub open spec fn read_total(kept: Seq<Kept>, s: StatementView) -> int {
    if s.text == "SELECT COALESCE(SUM(size_bytes), 0)::BIGINT FROM gif_renditions"@ {
        bytes_of(kept, any())
    } else if s.text
        == "SELECT COALESCE(SUM(r.size_bytes),0)::BIGINT FROM gif_renditions r JOIN gifs g ON g.id = r.gif_id WHERE g.uploader_id = $1"@ {
        bytes_of(kept, uploaded_by(s.params[0]->Text_0))
    } else if s.text
        == "SELECT COALESCE(SUM(size_bytes),0)::BIGINT FROM gif_renditions WHERE gif_id = $1"@ {
        bytes_of(kept, with_id(s.params[0]->Text_0))
    } else {
        0
    }
}

/// The uploader has a GIF with this content.
pub open spec fn has_content(kept: Seq<Kept>, uploader: Seq<char>, hash: Seq<char>) -> bool {
    exists|i: int|
        0 <= i < kept.len() && (#[trigger] kept[i]).uploader == uploader && kept[i].hash == hash
}

/// The uploader has another GIF with this content.
pub open spec fn has_other(
    kept: Seq<Kept>,
    uploader: Seq<char>,
    hash: Seq<char>,
    id: Seq<char>,
) -> bool {
    exists|i: int|
        0 <= i < kept.len() && (#[trigger] kept[i]).uploader == uploader && kept[i].hash == hash
            && kept[i].id != id
}

/// Whether a statement that looks for a GIF finds one.
pub open spec fn read_found(kept: Seq<Kept>, s: StatementView) -> bool {
    let p = s.params;
    if s.text == "SELECT "@ + GIF_COLS@ + " FROM gifs WHERE uploader_id = $1 AND hash = $2"@ {
        has_content(kept, p[0]->Text_0, p[1]->Text_0)
    } else if s.text == "SELECT "@ + GIF_COLS@
        + " FROM gifs WHERE uploader_id = $1 AND hash = $2 AND id <> $3"@ {
        has_other(kept, p[0]->Text_0, p[1]->Text_0, p[2]->Text_0)
    } else {
        false
    }
}

/// No two of the texts are of one length, so that no two are the same.
proof fn lemma_read_texts()
    ensures
        "SELECT COALESCE(SUM(size_bytes), 0)::BIGINT FROM gif_renditions"@.len() == 63,
        "SELECT COALESCE(SUM(r.size_bytes),0)::BIGINT FROM gif_renditions r JOIN gifs g ON g.id = r.gif_id WHERE g.uploader_id = $1"@.len()
            == 122,
        "SELECT COALESCE(SUM(size_bytes),0)::BIGINT FROM gif_renditions WHERE gif_id = $1"@.len()
            == 80,
        ("SELECT "@ + GIF_COLS@ + " FROM gifs WHERE uploader_id = $1 AND hash = $2"@).len() == 151,
        ("SELECT "@ + GIF_COLS@
            + " FROM gifs WHERE uploader_id = $1 AND hash = $2 AND id <> $3"@).len() == 164,
{
    reveal_strlit("SELECT COALESCE(SUM(size_bytes), 0)::BIGINT FROM gif_renditions");
    reveal_strlit(
        "SELECT COALESCE(SUM(r.size_bytes),0)::BIGINT FROM gif_renditions r JOIN gifs g ON g.id = r.gif_id WHERE g.uploader_id = $1",
    );
    reveal_strlit(
        "SELECT COALESCE(SUM(size_bytes),0)::BIGINT FROM gif_renditions WHERE gif_id = $1",
    );
    reveal_strlit("SELECT ");
    reveal_strlit(
        "id, filename, hash, uploader_id, visibility, is_nsfw, frame_count, duration_ms, uses, uploaded_at",
    );
    reveal_strlit(" FROM gifs WHERE uploader_id = $1 AND hash = $2");
    reveal_strlit(" FROM gifs WHERE uploader_id = $1 AND hash = $2 AND id <> $3");
}

/// The stored GIFs without their ids.
pub open spec fn held_of(kept: Seq<Kept>) -> Seq<Held> {
    kept.map_values(|k: Kept| Held { uploader: k.uploader, hash: k.hash, bytes: k.bytes })
}

proof fn lemma_held_of(kept: Seq<Kept>, uploader: Seq<char>, hash: Seq<char>)
    ensures
        held_total(held_of(kept)) == bytes_of(kept, any()),
        held_by(held_of(kept), uploader) == bytes_of(kept, uploaded_by(uploader)),
        holds(held_of(kept), uploader, hash) == has_content(kept, uploader, hash),
    decreases kept.len(),
{
    let held = held_of(kept);
    if kept.len() > 0 {
        lemma_held_of(kept.drop_last(), uploader, hash);
        assert(held.drop_last() =~= held_of(kept.drop_last()));
    }
    if holds(held, uploader, hash) {
        let i = choose|i: int|
            0 <= i < held.len() && (#[trigger] held[i]).uploader == uploader && held[i].hash
                == hash;
        assert(kept[i].uploader == uploader);
    }
    if has_content(kept, uploader, hash) {
        let i = choose|i: int|
            0 <= i < kept.len() && (#[trigger] kept[i]).uploader == uploader && kept[i].hash
                == hash;
        assert(held[i].uploader == uploader);
    }
}

/// Both an upload and a replacement first take one and the same lock, and look for the content among
/// the GIFs of the uploader alone; a replacement leaves out the GIF that it replaces.
pub proof fn law_accounting_is_under_the_lock(
    order: InsertOrder,
    new: ReplaceOrder,
    kept: Seq<Kept>,
)
    ensures
        ({
            let first = insert_statements_of(order, InsertStep::Lookup);
            let other = replace_statements_of(new, ReplaceStep::Lookup);
            &&& first.len() == 2
            &&& other.len() == 2
            &&& first[0].text == "SELECT pg_advisory_xact_lock($1)"@
            &&& first[0].params == seq![ParamView::BigInt(0x6749_4653)]
            &&& other[0] == first[0]
            &&& read_found(kept, first[1]) == has_content(kept, order.uploader_id@, order.hash@)
            &&& read_found(kept, other[1]) == has_other(
                kept,
                new.uploader_id@,
                new.hash@,
                new.id@,
            )
        }),
{
    lemma_read_texts();
}

/// What the steps of an upload find is what their statements read.
pub proof fn law_uploads_find_what_they_read(order: InsertOrder, kept: Seq<Kept>, gif: Gif)
    ensures
        ({
            let held = held_of(kept);
            let all = insert_statements_of(order, InsertStep::SumAll);
            let own = insert_statements_of(order, InsertStep::SumUploader);
            let find = insert_statements_of(order, InsertStep::Lookup);
            &&& all.len() == 1 && own.len() == 1
            &&& insert_answer(order, held, InsertStep::SumAll, gif) == InsertEvent::GlobalTotal(
                read_total(kept, all[0]) as i64,
            )
            &&& insert_answer(order, held, InsertStep::SumUploader, gif) == InsertEvent::UserTotal(
                read_total(kept, own[0]) as i64,
            )
            &&& insert_answer(order, held, InsertStep::Lookup, gif) == InsertEvent::Found(
                if read_found(kept, find[1]) {
                    Some(gif)
                } else {
                    None
                },
            )
        }),
{
    lemma_read_texts();
    lemma_held_of(kept, order.uploader_id@, order.hash@);
}

/// What each step of a replacement finds: what its last statement reads. `gif` stands for the row
/// that is found, or given back.
pub open spec fn replace_answer(
    order: ReplaceOrder,
    kept: Seq<Kept>,
    step: ReplaceStep,
    gif: Gif,
) -> ReplaceEvent {
    let s = replace_statements_of(order, step).last();
    match step {
        ReplaceStep::Lookup => ReplaceEvent::Found(
            if read_found(kept, s) {
                Some(gif)
            } else {
                None
            },
        ),
        ReplaceStep::SumOld => ReplaceEvent::OldTotal(read_total(kept, s) as i64),
        ReplaceStep::SumAll { .. } => ReplaceEvent::GlobalTotal(read_total(kept, s) as i64),
        ReplaceStep::SumUploader { .. } => ReplaceEvent::UserTotal(read_total(kept, s) as i64),
        _ => ReplaceEvent::Stored(gif),
    }
}

/// How many steps there are from this one to the end, at most.
pub open spec fn replacing_left(step: ReplaceStep) -> nat {
    match step {
        ReplaceStep::Lookup => 5,
        ReplaceStep::SumOld => 4,
        ReplaceStep::SumAll { .. } => 3,
        ReplaceStep::SumUploader { .. } => 2,
        ReplaceStep::Write => 1,
        ReplaceStep::Finished(_) => 0,
    }
}

/// How a replacement ends that has reached this step.
pub open spec fn replace_end(
    order: ReplaceOrder,
    kept: Seq<Kept>,
    step: ReplaceStep,
    gif: Gif,
) -> ReplaceStep
    decreases replacing_left(step),
{
    if step is Finished {
        step
    } else {
        replace_end(
            order,
            kept,
            after_replace(order, step, replace_answer(order, kept, step, gif)),
            gif,
        )
    }
}

/// What came of a replacement.
pub open spec fn replace_outcome(order: ReplaceOrder, kept: Seq<Kept>, gif: Gif) -> ReplaceOutcome {
    replace_end(order, kept, ReplaceStep::Lookup, gif)->Finished_0
}

/// The sums that the accounting makes fit in 64 bits.
pub open spec fn countable_replacement(order: ReplaceOrder, kept: Seq<Kept>) -> bool {
    let size = total_size(order.renditions@);
    let old = bytes_of(kept, with_id(order.id@));
    let all = bytes_of(kept, any());
    let own = bytes_of(kept, uploaded_by(order.uploader_id@));
    &&& i64::MIN <= old <= i64::MAX
    &&& i64::MIN <= all <= i64::MAX
    &&& i64::MIN <= own <= i64::MAX
    &&& i64::MIN <= all - old <= i64::MAX
    &&& i64::MIN <= own - old <= i64::MAX
    &&& i64::MIN <= all - old + size <= i64::MAX
    &&& i64::MIN <= own - old + size <= i64::MAX
}

/// What comes of a replacement: it is a duplicate exactly where the uploader has the content in
/// another GIF, and done exactly where they do not and both caps leave room, once the bytes of the
/// GIF that is replaced are set off.
#[verifier::rlimit(30)]
pub proof fn law_outcome_of_a_replacement(order: ReplaceOrder, kept: Seq<Kept>, gif: Gif)
    requires
        countable_replacement(order, kept),
    ensures
        ({
            let outcome = replace_outcome(order, kept, gif);
            let change = total_size(order.renditions@) - bytes_of(kept, with_id(order.id@));
            let room = !exceeds(bytes_of(kept, any()) + change, order.global_max) && !exceeds(
                bytes_of(kept, uploaded_by(order.uploader_id@)) + change,
                order.per_user_max,
            );
            if has_other(kept, order.uploader_id@, order.hash@, order.id@) {
                outcome == ReplaceOutcome::Duplicate
            } else if room {
                outcome == ReplaceOutcome::Updated(gif)
            } else {
                outcome == ReplaceOutcome::QuotaExceeded
            }
        }),
{
    lemma_read_texts();
    reveal_with_fuel(replace_end, 6);
    let old_total = bytes_of(kept, with_id(order.id@)) as i64;
    let steps = (
        ReplaceStep::Lookup,
        ReplaceStep::SumOld,
        ReplaceStep::SumAll { old_total },
        ReplaceStep::SumUploader { old_total },
    );
    assert(read_found(kept, replace_statements_of(order, steps.0).last()) == has_other(
        kept,
        order.uploader_id@,
        order.hash@,
        order.id@,
    ));
    assert(read_total(kept, replace_statements_of(order, steps.1).last()) == old_total);
    assert(read_total(kept, replace_statements_of(order, steps.2).last()) == bytes_of(kept, any()));
    assert(read_total(kept, replace_statements_of(order, steps.3).last()) == bytes_of(
        kept,
        uploaded_by(order.uploader_id@),
    ));
    assert(replace_fits(order, steps.2, replace_answer(order, kept, steps.2, gif)));
}

/// What is stored once a replacement is done: only one that ends with `Updated` is committed, and it
/// changes the GIF that it replaces.
pub open spec fn kept_after(order: ReplaceOrder, kept: Seq<Kept>, gif: Gif) -> Seq<Kept> {
    if replace_outcome(order, kept, gif) is Updated {
        kept.map_values(
            |k: Kept|
                if k.id == order.id@ {
                    Kept { hash: order.hash@, bytes: total_size(order.renditions@), ..k }
                } else {
                    k
                },
        )
    } else {
        kept
    }
}

/// No two GIFs have one id.
pub open spec fn ids_once(kept: Seq<Kept>) -> bool {
    forall|i: int, j: int|
        0 <= i < j < kept.len() ==> (#[trigger] kept[i]).id != (#[trigger] kept[j]).id
}

proof fn lemma_bytes_updated(kept: Seq<Kept>, i: int, new: Kept, pick: spec_fn(Kept) -> bool)
    requires
        0 <= i < kept.len(),
        pick(new) == pick(kept[i]),
    ensures
        bytes_of(kept.update(i, new), pick) == bytes_of(kept, pick) + (if pick(new) {
            new.bytes - kept[i].bytes
        } else {
            0
        }),
    decreases kept.len(),
{
    let after = kept.update(i, new);
    if i < kept.len() - 1 {
        assert(after.drop_last() =~= kept.drop_last().update(i, new));
        lemma_bytes_updated(kept.drop_last(), i, new, pick);
    } else {
        assert(after.drop_last() =~= kept.drop_last());
    }
}

proof fn lemma_bytes_of_one(kept: Seq<Kept>, i: int)
    requires
        0 <= i < kept.len(),
        ids_once(kept),
    ensures
        bytes_of(kept, with_id(kept[i].id)) == kept[i].bytes,
    decreases kept.len(),
{
    let front = kept.drop_last();
    assert forall|a: int, b: int| 0 <= a < b < front.len() implies (#[trigger] front[a]).id != (
    #[trigger] front[b]).id by {
        assert(front[a] == kept[a] && front[b] == kept[b]);
    }
    if i < kept.len() - 1 {
        assert(kept[i].id != kept[kept.len() - 1].id);
        lemma_bytes_of_one(front, i);
        assert(front[i] == kept[i]);
    } else {
        lemma_no_bytes(front, kept[i].id);
    }
}

proof fn lemma_no_bytes(kept: Seq<Kept>, id: Seq<char>)
    requires
        forall|i: int| 0 <= i < kept.len() ==> (#[trigger] kept[i]).id != id,
    ensures
        bytes_of(kept, with_id(id)) == 0,
    decreases kept.len(),
{
    if kept.len() > 0 {
        let front = kept.drop_last();
        assert forall|i: int| 0 <= i < front.len() implies (#[trigger] front[i]).id != id by {
            assert(front[i] == kept[i]);
        }
        lemma_no_bytes(front, id);
        assert(kept[kept.len() - 1].id != id);
    }
}

/// A replacement keeps what holds: the stored bytes stay within the caps, and no uploader comes to
/// have one content twice. One that is refused changes nothing; one that is done changes the content
/// of its GIF, and no other GIF.
pub proof fn law_a_replacement_keeps_the_caps(
    order: ReplaceOrder,
    kept: Seq<Kept>,
    gif: Gif,
    at: int,
)
    requires
        countable_replacement(order, kept),
        ids_once(kept),
        0 <= at < kept.len(),
        kept[at].id == order.id@,
        kept[at].uploader == order.uploader_id@,
        bytes_of(kept, any()) <= order.global_max,
        forall|u: Seq<char>| #[trigger] bytes_of(kept, uploaded_by(u)) <= order.per_user_max,
        forall|i: int, j: int|
            0 <= i < j < kept.len() ==> (#[trigger] kept[i]).uploader != (
            #[trigger] kept[j]).uploader || kept[i].hash != kept[j].hash,
    ensures
        ({
            let after = kept_after(order, kept, gif);
            &&& bytes_of(after, any()) <= order.global_max
            &&& forall|u: Seq<char>| #[trigger]
                bytes_of(after, uploaded_by(u)) <= order.per_user_max
            &&& forall|i: int, j: int|
                0 <= i < j < after.len() ==> (#[trigger] after[i]).uploader != (
                #[trigger] after[j]).uploader || after[i].hash != after[j].hash
            &&& replace_outcome(order, kept, gif) is Updated ==> after == kept.update(
                at,
                Kept { hash: order.hash@, bytes: total_size(order.renditions@), ..kept[at] },
            )
            &&& !(replace_outcome(order, kept, gif) is Updated) ==> after == kept
        }),
{
    law_outcome_of_a_replacement(order, kept, gif);
    let after = kept_after(order, kept, gif);
    if replace_outcome(order, kept, gif) is Updated {
        let new = Kept { hash: order.hash@, bytes: total_size(order.renditions@), ..kept[at] };
        assert(after =~= kept.update(at, new)) by {
            assert forall|i: int| 0 <= i < kept.len() && i != at implies (#[trigger] kept[i]).id
                != order.id@ by {
                if i < at {
                    assert(kept[i].id != kept[at].id);
                } else {
                    assert(kept[at].id != kept[i].id);
                }
            }
        }
        lemma_bytes_of_one(kept, at);
        lemma_bytes_updated(kept, at, new, any());
        assert forall|u: Seq<char>| #[trigger]
            bytes_of(after, uploaded_by(u)) <= order.per_user_max by {
            lemma_bytes_updated(kept, at, new, uploaded_by(u));
            assert(bytes_of(kept, uploaded_by(u)) <= order.per_user_max);
        }
        assert forall|i: int, j: int| 0 <= i < j < after.len() implies (#[trigger] after[i]).uploader
            != (#[trigger] after[j]).uploader || after[i].hash != after[j].hash by {
            if i != at && j != at {
                assert(after[i] == kept[i] && after[j] == kept[j]);
            } else if i == at {
                assert(after[j] == kept[j]);
                assert(kept[at].id != kept[j].id);
                if kept[j].uploader == order.uploader_id@ && kept[j].hash == order.hash@ {
                    assert(has_other(kept, order.uploader_id@, order.hash@, order.id@));
                }
            } else {
                assert(after[i] == kept[i]);
                assert(kept[i].id != kept[at].id);
                if kept[i].uploader == order.uploader_id@ && kept[i].hash == order.hash@ {
                    assert(has_other(kept, order.uploader_id@, order.hash@, order.id@));
                }
            }
        }
    }
}

} // verus!
