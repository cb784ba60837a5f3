//! What the database holds, upload after upload. An upload does its accounting under a lock, in one
//! transaction, so uploads that come at the same time are accounted one after the other.

use vstd::prelude::*;

use crate::models::Gif;
use super::db::{
    after_insert, exceeds, insert_fits, total_size, InsertEvent, InsertOrder, InsertStep,
    UploadOutcome,
};

verus! {

/// A stored GIF, as far as the accounting looks at it.
#[verifier::ext_equal]
pub struct Held {
    pub uploader: Seq<char>,
    pub hash: Seq<char>,
    /// The bytes of its renditions.
    pub bytes: int,
}

/// The bytes of all stored GIFs.
pub open spec fn held_total(held: Seq<Held>) -> int
    decreases held.len(),
{
    if held.len() == 0 {
        0
    } else {
        held_total(held.drop_last()) + held.last().bytes
    }
}

/// The bytes of one uploader's stored GIFs.
pub open spec fn held_by(held: Seq<Held>, uploader: Seq<char>) -> int
    decreases held.len(),
{
    if held.len() == 0 {
        0
    } else {
        let before = held_by(held.drop_last(), uploader);
        if held.last().uploader == uploader {
            before + held.last().bytes
        } else {
            before
        }
    }
}

/// The uploader has a GIF with this content.
pub open spec fn holds(held: Seq<Held>, uploader: Seq<char>, hash: Seq<char>) -> bool {
    exists|i: int|
        0 <= i < held.len() && (#[trigger] held[i]).uploader == uploader && held[i].hash == hash
}

/// What an order stores.
pub open spec fn entry(order: InsertOrder) -> Held {
    Held {
        uploader: order.uploader_id@,
        hash: order.hash@,
        bytes: total_size(order.renditions@),
    }
}

/// What each step of storing a GIF finds. `gif` stands for the row that is found, or given back.
pub open spec fn insert_answer(order: InsertOrder, held: Seq<Held>, step: InsertStep, gif: Gif) -> InsertEvent {
    match step {
        InsertStep::Lookup => InsertEvent::Found(
            if holds(held, order.uploader_id@, order.hash@) {
                Some(gif)
            } else {
                None
            },
        ),
        InsertStep::SumAll => InsertEvent::GlobalTotal(held_total(held) as i64),
        InsertStep::SumUploader => InsertEvent::UserTotal(
            held_by(held, order.uploader_id@) as i64,
        ),
        _ => InsertEvent::Stored(gif),
    }
}

/// How many steps there are from this one to the end, at most.
pub open spec fn steps_left(step: InsertStep) -> nat {
    match step {
        InsertStep::Lookup => 4,
        InsertStep::SumAll => 3,
        InsertStep::SumUploader => 2,
        InsertStep::Write => 1,
        InsertStep::Finished(_) => 0,
    }
}

/// How the storing of a GIF ends that has reached this step.
pub open spec fn insert_end(order: InsertOrder, held: Seq<Held>, step: InsertStep, gif: Gif) -> InsertStep
    decreases steps_left(step),
{
    if step is Finished {
        step
    } else {
        insert_end(order, held, after_insert(order, insert_answer(order, held, step, gif)), gif)
    }
}

/// What came of an order.
pub open spec fn insert_outcome(order: InsertOrder, held: Seq<Held>, gif: Gif) -> UploadOutcome {
    insert_end(order, held, InsertStep::Lookup, gif)->Finished_0
}

/// What is stored once an order is done: only a transaction that ends with `Inserted` is committed.
pub open spec fn held_after(order: InsertOrder, held: Seq<Held>, gif: Gif) -> Seq<Held> {
    if insert_outcome(order, held, gif) is Inserted {
        held.push(entry(order))
    } else {
        held
    }
}

/// Neither all GIFs nor those of any uploader pass their cap.
pub open spec fn within_caps(held: Seq<Held>, global_max: u64, per_user_max: u64) -> bool {
    &&& held_total(held) <= global_max
    &&& forall|uploader: Seq<char>| #[trigger] held_by(held, uploader) <= per_user_max
}

/// No uploader has two GIFs with one content.
pub open spec fn contents_once(held: Seq<Held>) -> bool {
    forall|i: int, j: int|
        0 <= i < j < held.len() ==> (#[trigger] held[i]).uploader != (#[trigger] held[j]).uploader
            || held[i].hash != held[j].hash
}

/// The sums that the accounting makes fit in 64 bits.
pub open spec fn countable_order(order: InsertOrder, held: Seq<Held>) -> bool {
    &&& i64::MIN <= held_total(held) <= i64::MAX
    &&& i64::MIN <= held_by(held, order.uploader_id@) <= i64::MAX
    &&& i64::MIN <= held_total(held) + total_size(order.renditions@) <= i64::MAX
    &&& i64::MIN <= held_by(held, order.uploader_id@) + total_size(order.renditions@) <= i64::MAX
}

/// Every step's finding is one that the step takes.
proof fn lemma_answers_fit(order: InsertOrder, held: Seq<Held>, step: InsertStep, gif: Gif)
    requires
        countable_order(order, held),
        !(step is Finished),
    ensures
        insert_fits(order, step, insert_answer(order, held, step, gif)),
{
}

/// What comes of an order: it is a duplicate exactly where the uploader has the content, and stored
/// exactly where they do not and both caps leave room.
pub proof fn law_outcome_of_an_order(order: InsertOrder, held: Seq<Held>, gif: Gif)
    requires
        countable_order(order, held),
    ensures
        ({
            let outcome = insert_outcome(order, held, gif);
            let size = total_size(order.renditions@);
            let room = !exceeds(held_total(held) + size, order.global_max) && !exceeds(
                held_by(held, order.uploader_id@) + size,
                order.per_user_max,
            );
            if holds(held, order.uploader_id@, order.hash@) {
                outcome == UploadOutcome::Duplicate(gif)
            } else if room {
                outcome == UploadOutcome::Inserted(gif)
            } else {
                outcome == UploadOutcome::QuotaExceeded
            }
        }),
{
    reveal_with_fuel(insert_end, 5);
    lemma_answers_fit(order, held, InsertStep::Lookup, gif);
}

/// Storing keeps what holds: the caps, and that no uploader has one content twice. An order that is
/// refused, or a duplicate, changes nothing; one that is stored adds one GIF.
pub proof fn law_an_upload_keeps_the_caps(order: InsertOrder, held: Seq<Held>, gif: Gif)
    requires
        countable_order(order, held),
        within_caps(held, order.global_max, order.per_user_max),
        contents_once(held),
    ensures
        within_caps(held_after(order, held, gif), order.global_max, order.per_user_max),
        contents_once(held_after(order, held, gif)),
        insert_outcome(order, held, gif) is Inserted ==> held_after(order, held, gif) == held.push(
            entry(order),
        ),
        !(insert_outcome(order, held, gif) is Inserted) ==> held_after(order, held, gif) == held,
{
    law_outcome_of_an_order(order, held, gif);
    if insert_outcome(order, held, gif) is Inserted {
        let after = held.push(entry(order));
        assert(after.drop_last() == held);
        assert forall|uploader: Seq<char>| #[trigger]
            held_by(after, uploader) <= order.per_user_max by {
            assert(held_by(held, uploader) <= order.per_user_max);
        }
        assert forall|i: int, j: int| 0 <= i < j < after.len() implies (#[trigger] after[i]).uploader
            != (#[trigger] after[j]).uploader || after[i].hash != after[j].hash by {
            assert(after[i] == held[i]);
            if j < held.len() {
                assert(after[j] == held[j]);
            }
        }
    }
}

/// What is stored once all orders are done, one after the other.
pub open spec fn held_after_all(orders: Seq<InsertOrder>, held: Seq<Held>, gif: Gif) -> Seq<Held>
    decreases orders.len(),
{
    if orders.len() == 0 {
        held
    } else {
        held_after(orders.last(), held_after_all(orders.drop_last(), held, gif), gif)
    }
}

/// All orders have the same caps, and the sums that each makes fit in 64 bits.
pub open spec fn countable_orders(
    orders: Seq<InsertOrder>,
    held: Seq<Held>,
    gif: Gif,
    global_max: u64,
    per_user_max: u64,
) -> bool
    decreases orders.len(),
{
    orders.len() > 0 ==> {
        &&& countable_orders(orders.drop_last(), held, gif, global_max, per_user_max)
        &&& countable_order(orders.last(), held_after_all(orders.drop_last(), held, gif))
        &&& orders.last().global_max == global_max
        &&& orders.last().per_user_max == per_user_max
    }
}

/// However many uploads there are, in whatever order they get the lock: the stored bytes stay within
/// the caps, and no uploader has one content twice.
pub proof fn law_uploads_keep_the_caps(
    orders: Seq<InsertOrder>,
    held: Seq<Held>,
    gif: Gif,
    global_max: u64,
    per_user_max: u64,
)
    requires
        countable_orders(orders, held, gif, global_max, per_user_max),
        within_caps(held, global_max, per_user_max),
        contents_once(held),
    ensures
        within_caps(held_after_all(orders, held, gif), global_max, per_user_max),
        contents_once(held_after_all(orders, held, gif)),
    decreases orders.len(),
{
    if orders.len() > 0 {
        law_uploads_keep_the_caps(orders.drop_last(), held, gif, global_max, per_user_max);
        law_an_upload_keeps_the_caps(
            orders.last(),
            held_after_all(orders.drop_last(), held, gif),
            gif,
        );
    }
}

} // verus!
