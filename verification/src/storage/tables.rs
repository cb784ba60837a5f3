//! What the statements that write do to the tables, and what the tables hold after them.

use vstd::prelude::*;

use crate::models::Gif;
use crate::text::texts;
use super::db::{
    after_insert, find_own, gif_insert, global_total, insert_statements_of, insert_writes,
    lock_statement, per_tag, rendition_insert, rendition_inserts, set_tags_of, total_size, txt,
    user_total, InsertOrder, InsertStep, RenditionSpec, GIF_COLS,
};
use super::ledger::{
    contents_once, countable_order, countable_orders, entry, held_after, held_after_all,
    held_total, insert_answer, insert_end, insert_outcome, law_outcome_of_an_order,
    law_uploads_keep_the_caps, steps_left, within_caps, Held,
};
use super::sql::{admits, list_filter, sql, ParamView, Row, StatementView};

verus! {

/// The tables, as far as the statements below write them.
#[verifier::ext_equal]
pub struct Tables {
    /// The values that each GIF was inserted with.
    pub gifs: Seq<Seq<ParamView>>,
    /// The values that each rendition was inserted with.
    pub renditions: Seq<Seq<ParamView>>,
    /// The tags, each with its GIF. No GIF has a tag twice.
    pub tags: Set<(Seq<char>, Seq<char>)>,
    /// The favorites, each with its user, the oldest first.
    pub favorites: Seq<(Seq<char>, Seq<char>)>,
    /// The hidden GIFs, each with the user who hid it, the oldest first.
    pub hidden: Seq<(Seq<char>, Seq<char>)>,
}

/// The two texts that a statement is run with.
pub open spec fn pair(s: StatementView) -> (Seq<char>, Seq<char>) {
    (s.params[0]->Text_0, s.params[1]->Text_0)
}

/// The marks with one more; one that is there already changes nothing.
pub open spec fn marked(
    marks: Seq<(Seq<char>, Seq<char>)>,
    key: (Seq<char>, Seq<char>),
) -> Seq<(Seq<char>, Seq<char>)> {
    if marks.contains(key) {
        marks
    } else {
        marks.push(key)
    }
}

/// Holds of every mark but this one.
pub open spec fn other_mark(key: (Seq<char>, Seq<char>)) -> spec_fn((Seq<char>, Seq<char>)) -> bool {
    |k: (Seq<char>, Seq<char>)| k != key
}

/// The tags without those of a GIF.
pub open spec fn untagged(tags: Set<(Seq<char>, Seq<char>)>, gif_id: Seq<char>) -> Set<
    (Seq<char>, Seq<char>),
> {
    tags.filter(|p: (Seq<char>, Seq<char>)| p.0 != gif_id)
}

/// What a statement does to the tables; nothing comes of one that breaks a key.
pub open spec fn effect(t: Tables, s: StatementView) -> Option<Tables> {
    if s.text
        == "INSERT INTO gifs (id, filename, hash, uploader_id, visibility, is_nsfw, frame_count, duration_ms) VALUES ($1, $2, $3, $4, $5, $6, $7, $8) RETURNING "@
        + GIF_COLS@ {
        Some(Tables { gifs: t.gifs.push(s.params), ..t })
    } else if s.text
        == "INSERT INTO gif_renditions (gif_id, rendition, filename, width, height, size_bytes) VALUES ($1, $2, $3, $4, $5, $6)"@ {
        Some(Tables { renditions: t.renditions.push(s.params), ..t })
    } else if s.text == "INSERT INTO tags (gif_id, tag) VALUES ($1, $2)"@ {
        if t.tags.contains(pair(s)) {
            None
        } else {
            Some(Tables { tags: t.tags.insert(pair(s)), ..t })
        }
    } else if s.text == "INSERT INTO tags (gif_id, tag) VALUES ($1, $2) ON CONFLICT DO NOTHING"@ {
        Some(Tables { tags: t.tags.insert(pair(s)), ..t })
    } else if s.text == "DELETE FROM tags WHERE gif_id = $1"@ {
        Some(Tables { tags: untagged(t.tags, s.params[0]->Text_0), ..t })
    } else if s.text == "DELETE FROM tags WHERE gif_id = $1 AND tag = $2"@ {
        Some(Tables { tags: t.tags.remove(pair(s)), ..t })
    } else if s.text
        == "INSERT INTO favorites (mxid, gif_id) VALUES ($1, $2) ON CONFLICT DO NOTHING"@ {
        Some(Tables { favorites: marked(t.favorites, pair(s)), ..t })
    } else if s.text == "DELETE FROM favorites WHERE mxid = $1 AND gif_id = $2"@ {
        Some(Tables { favorites: t.favorites.filter(other_mark(pair(s))), ..t })
    } else if s.text
        == "INSERT INTO hidden (mxid, gif_id) VALUES ($1, $2) ON CONFLICT DO NOTHING"@ {
        Some(Tables { hidden: marked(t.hidden, pair(s)), ..t })
    } else if s.text == "DELETE FROM hidden WHERE mxid = $1 AND gif_id = $2"@ {
        Some(Tables { hidden: t.hidden.filter(other_mark(pair(s))), ..t })
    } else {
        Some(t)
    }
}

/// What statements do one after the other; nothing comes of them where one breaks a key.
pub open spec fn run(t: Tables, all: Seq<StatementView>) -> Option<Tables>
    decreases all.len(),
{
    if all.len() == 0 {
        Some(t)
    } else {
        match run(t, all.drop_last()) {
            Some(u) => effect(u, all.last()),
            None => None,
        }
    }
}

/// What the tables hold after a transaction: one that breaks a key leaves them as they were.
pub open spec fn transacted(t: Tables, all: Seq<StatementView>) -> Tables {
    match run(t, all) {
        Some(u) => u,
        None => t,
    }
}

/// No two of the texts are of one length, so that no two are the same.
proof fn lemma_lengths()
    ensures
        ("INSERT INTO gifs (id, filename, hash, uploader_id, visibility, is_nsfw, frame_count, duration_ms) VALUES ($1, $2, $3, $4, $5, $6, $7, $8) RETURNING "@
            + GIF_COLS@).len() == 245,
        "INSERT INTO gif_renditions (gif_id, rendition, filename, width, height, size_bytes) VALUES ($1, $2, $3, $4, $5, $6)"@.len()
            == 115,
        "INSERT INTO tags (gif_id, tag) VALUES ($1, $2)"@.len() == 46,
        "INSERT INTO tags (gif_id, tag) VALUES ($1, $2) ON CONFLICT DO NOTHING"@.len() == 69,
        "DELETE FROM tags WHERE gif_id = $1"@.len() == 34,
        "DELETE FROM tags WHERE gif_id = $1 AND tag = $2"@.len() == 47,
        "INSERT INTO favorites (mxid, gif_id) VALUES ($1, $2) ON CONFLICT DO NOTHING"@.len() == 75,
        "DELETE FROM favorites WHERE mxid = $1 AND gif_id = $2"@.len() == 53,
        "INSERT INTO hidden (mxid, gif_id) VALUES ($1, $2) ON CONFLICT DO NOTHING"@.len() == 72,
        "DELETE FROM hidden WHERE mxid = $1 AND gif_id = $2"@.len() == 50,
        lock_statement().text.len() == 32,
        global_total().text.len() == 63,
        forall|u: Seq<char>| (#[trigger] user_total(u)).text.len() == 122,
        forall|u: Seq<char>, h: Seq<char>| (#[trigger] find_own(u, h)).text.len() == 151,
{
    reveal_strlit(
        "INSERT INTO gifs (id, filename, hash, uploader_id, visibility, is_nsfw, frame_count, duration_ms) VALUES ($1, $2, $3, $4, $5, $6, $7, $8) RETURNING ",
    );
    reveal_strlit(
        "id, filename, hash, uploader_id, visibility, is_nsfw, frame_count, duration_ms, uses, uploaded_at",
    );
    reveal_strlit(
        "INSERT INTO gif_renditions (gif_id, rendition, filename, width, height, size_bytes) VALUES ($1, $2, $3, $4, $5, $6)",
    );
    reveal_strlit("INSERT INTO tags (gif_id, tag) VALUES ($1, $2)");
    reveal_strlit("INSERT INTO tags (gif_id, tag) VALUES ($1, $2) ON CONFLICT DO NOTHING");
    reveal_strlit("DELETE FROM tags WHERE gif_id = $1");
    reveal_strlit("DELETE FROM tags WHERE gif_id = $1 AND tag = $2");
    reveal_strlit("INSERT INTO favorites (mxid, gif_id) VALUES ($1, $2) ON CONFLICT DO NOTHING");
    reveal_strlit("DELETE FROM favorites WHERE mxid = $1 AND gif_id = $2");
    reveal_strlit("INSERT INTO hidden (mxid, gif_id) VALUES ($1, $2) ON CONFLICT DO NOTHING");
    reveal_strlit("DELETE FROM hidden WHERE mxid = $1 AND gif_id = $2");
    reveal_strlit("SELECT pg_advisory_xact_lock($1)");
    reveal_strlit("SELECT COALESCE(SUM(size_bytes), 0)::BIGINT FROM gif_renditions");
    reveal_strlit(
        "SELECT COALESCE(SUM(r.size_bytes),0)::BIGINT FROM gif_renditions r JOIN gifs g ON g.id = r.gif_id WHERE g.uploader_id = $1",
    );
    reveal_strlit("SELECT ");
    reveal_strlit(" FROM gifs WHERE uploader_id = $1 AND hash = $2");
}

/// Statements run on from where others ended.
proof fn lemma_run_on(t: Tables, a: Seq<StatementView>, b: Seq<StatementView>)
    ensures
        run(t, a + b) == (match run(t, a) {
            Some(u) => run(u, b),
            None => None,
        }),
    decreases b.len(),
{
    if b.len() == 0 {
        assert(a + b =~= a);
    } else {
        assert((a + b).drop_last() =~= a + b.drop_last());
        assert((a + b).last() == b.last());
        lemma_run_on(t, a, b.drop_last());
    }
}

/// One statement.
proof fn lemma_run_one(t: Tables, s: StatementView)
    ensures
        run(t, seq![s]) == effect(t, s),
{
    assert(seq![s].drop_last() =~= Seq::<StatementView>::empty());
    assert(run(t, seq![s].drop_last()) == Some(t));
}

/// The tags with more tags of a GIF.
pub open spec fn tagged(
    tags: Set<(Seq<char>, Seq<char>)>,
    gif_id: Seq<char>,
    more: Seq<Seq<char>>,
) -> Set<(Seq<char>, Seq<char>)>
    decreases more.len(),
{
    if more.len() == 0 {
        tags
    } else {
        tagged(tags, gif_id, more.drop_last()).insert((gif_id, more.last()))
    }
}

/// What the tags hold once a GIF got more: what was there, and the new ones.
proof fn lemma_tagged(
    tags: Set<(Seq<char>, Seq<char>)>,
    gif_id: Seq<char>,
    more: Seq<Seq<char>>,
    p: (Seq<char>, Seq<char>),
)
    ensures
        tagged(tags, gif_id, more).contains(p) <==> tags.contains(p) || (p.0 == gif_id
            && more.contains(p.1)),
    decreases more.len(),
{
    if more.len() > 0 {
        let front = more.drop_last();
        lemma_tagged(tags, gif_id, front, p);
        assert(more.contains(p.1) <==> front.contains(p.1) || p.1 == more.last()) by {
            if front.contains(p.1) {
                let i = choose|i: int| 0 <= i < front.len() && front[i] == p.1;
                assert(more[i] == p.1);
            }
            if more.contains(p.1) {
                let i = choose|i: int| 0 <= i < more.len() && more[i] == p.1;
                if i < front.len() {
                    assert(front[i] == p.1);
                }
            }
            assert(more[more.len() - 1] == more.last());
        }
    }
}

proof fn lemma_per_tag(text: Seq<char>, gif_id: Seq<char>, tags: Seq<Seq<char>>)
    requires
        tags.len() > 0,
    ensures
        per_tag(text, gif_id, tags).len() == tags.len(),
        per_tag(text, gif_id, tags).drop_last() == per_tag(text, gif_id, tags.drop_last()),
        per_tag(text, gif_id, tags).last() == sql(text, seq![txt(gif_id), txt(tags.last())]),
{
    assert(per_tag(text, gif_id, tags).drop_last() =~= per_tag(text, gif_id, tags.drop_last()));
}

/// Adding tags, each of which may be there, adds them.
proof fn lemma_add(t: Tables, gif_id: Seq<char>, tags: Seq<Seq<char>>)
    ensures
        run(
            t,
            per_tag(
                "INSERT INTO tags (gif_id, tag) VALUES ($1, $2) ON CONFLICT DO NOTHING"@,
                gif_id,
                tags,
            ),
        ) == Some(Tables { tags: tagged(t.tags, gif_id, tags), ..t }),
    decreases tags.len(),
{
    let text = "INSERT INTO tags (gif_id, tag) VALUES ($1, $2) ON CONFLICT DO NOTHING"@;
    if tags.len() == 0 {
        assert(per_tag(text, gif_id, tags) =~= Seq::empty());
    } else {
        lemma_lengths();
        lemma_per_tag(text, gif_id, tags);
        lemma_add(t, gif_id, tags.drop_last());
    }
}

/// Inserting tags, none of which is there, adds them; where one is there, nothing comes of it.
proof fn lemma_insert(t: Tables, gif_id: Seq<char>, tags: Seq<Seq<char>>)
    requires
        forall|tag: Seq<char>| !t.tags.contains((gif_id, tag)),
    ensures
        run(t, per_tag("INSERT INTO tags (gif_id, tag) VALUES ($1, $2)"@, gif_id, tags)) == (
        if tags.no_duplicates() {
            Some(Tables { tags: tagged(t.tags, gif_id, tags), ..t })
        } else {
            None
        }),
    decreases tags.len(),
{
    let text = "INSERT INTO tags (gif_id, tag) VALUES ($1, $2)"@;
    if tags.len() == 0 {
        assert(per_tag(text, gif_id, tags) =~= Seq::empty());
    } else {
        let front = tags.drop_last();
        lemma_lengths();
        lemma_per_tag(text, gif_id, tags);
        lemma_insert(t, gif_id, front);
        lemma_tagged(t.tags, gif_id, front, (gif_id, tags.last()));
        assert(tags.no_duplicates() <==> front.no_duplicates() && !front.contains(tags.last())) by {
            if tags.no_duplicates() {
                assert forall|i: int, j: int|
                    0 <= i < front.len() && 0 <= j < front.len() && i != j implies front[i]
                    != front[j] by {
                    assert(tags[i] != tags[j]);
                }
                if front.contains(tags.last()) {
                    let i = choose|i: int| 0 <= i < front.len() && front[i] == tags.last();
                    assert(tags[i] != tags[tags.len() - 1]);
                }
            }
            if front.no_duplicates() && !front.contains(tags.last()) {
                assert forall|i: int, j: int|
                    0 <= i < tags.len() && 0 <= j < tags.len() && i != j implies tags[i]
                    != tags[j] by {
                    if i < front.len() && j < front.len() {
                        assert(front[i] != front[j]);
                    } else if i < front.len() {
                        assert(front[i] == tags[i]);
                    } else {
                        assert(front[j] == tags[j]);
                    }
                }
            }
        }
    }
}

/// Setting tags that repeat none leaves a GIF with exactly these tags, whatever it had; other GIFs
/// keep theirs, and nothing else changes.
pub proof fn law_set_tags_are_the_tags(t: Tables, gif_id: Seq<char>, tags: Seq<Seq<char>>)
    requires
        tags.no_duplicates(),
    ensures
        run(t, set_tags_of(gif_id, tags)) is Some,
        ({
            let u = transacted(t, set_tags_of(gif_id, tags));
            &&& forall|tag: Seq<char>| #[trigger] u.tags.contains((gif_id, tag)) <==> tags.contains(tag)
            &&& forall|other: Seq<char>, tag: Seq<char>|
                other != gif_id ==> (#[trigger] u.tags.contains((other, tag)) <==> t.tags.contains(
                    (other, tag),
                ))
            &&& u == Tables { tags: u.tags, ..t }
        }),
{
    lemma_set_tags(t, gif_id, tags);
    let bare = untagged(t.tags, gif_id);
    let u = transacted(t, set_tags_of(gif_id, tags));
    assert forall|tag: Seq<char>| #[trigger] u.tags.contains((gif_id, tag)) <==> tags.contains(
        tag,
    ) by {
        lemma_tagged(bare, gif_id, tags, (gif_id, tag));
    }
    assert forall|other: Seq<char>, tag: Seq<char>| other != gif_id implies (
    #[trigger] u.tags.contains((other, tag)) <==> t.tags.contains((other, tag))) by {
        lemma_tagged(bare, gif_id, tags, (other, tag));
    }
}

proof fn lemma_set_tags(t: Tables, gif_id: Seq<char>, tags: Seq<Seq<char>>)
    ensures
        run(t, set_tags_of(gif_id, tags)) == (if tags.no_duplicates() {
            Some(Tables { tags: tagged(untagged(t.tags, gif_id), gif_id, tags), ..t })
        } else {
            None
        }),
{
    lemma_lengths();
    let clear = sql("DELETE FROM tags WHERE gif_id = $1"@, seq![txt(gif_id)]);
    let bare = Tables { tags: untagged(t.tags, gif_id), ..t };
    lemma_run_one(t, clear);
    assert(effect(t, clear) == Some(bare));
    lemma_run_on(
        t,
        seq![clear],
        per_tag("INSERT INTO tags (gif_id, tag) VALUES ($1, $2)"@, gif_id, tags),
    );
    lemma_insert(bare, gif_id, tags);
}

/// Setting the same tags again changes nothing.
pub proof fn law_setting_tags_again_changes_nothing(
    t: Tables,
    gif_id: Seq<char>,
    tags: Seq<Seq<char>>,
)
    requires
        tags.no_duplicates(),
    ensures
        ({
            let u = transacted(t, set_tags_of(gif_id, tags));
            transacted(u, set_tags_of(gif_id, tags)) == u
        }),
{
    let u = transacted(t, set_tags_of(gif_id, tags));
    let v = transacted(u, set_tags_of(gif_id, tags));
    law_set_tags_are_the_tags(t, gif_id, tags);
    law_set_tags_are_the_tags(u, gif_id, tags);
    assert forall|p: (Seq<char>, Seq<char>)| v.tags.contains(p) <==> u.tags.contains(p) by {
        assert(p == (p.0, p.1));
        assert(v.tags.contains((p.0, p.1)) <==> u.tags.contains((p.0, p.1)));
    }
    assert(v.tags =~= u.tags);
}

/// Tags that repeat one are not set: the GIF keeps all its old tags.
pub proof fn law_repeated_tags_are_not_set(t: Tables, gif_id: Seq<char>, tags: Seq<Seq<char>>)
    requires
        !tags.no_duplicates(),
    ensures
        transacted(t, set_tags_of(gif_id, tags)) == t,
{
    lemma_set_tags(t, gif_id, tags);
}

/// Adding tags keeps those that are there, of every GIF.
pub proof fn law_added_tags_join_the_others(
    t: Tables,
    gif_id: Seq<char>,
    tags: Seq<Seq<char>>,
    p: (Seq<char>, Seq<char>),
)
    ensures
        ({
            let all = per_tag(
                "INSERT INTO tags (gif_id, tag) VALUES ($1, $2) ON CONFLICT DO NOTHING"@,
                gif_id,
                tags,
            );
            &&& run(t, all) matches Some(u)
            &&& u.tags.contains(p) <==> t.tags.contains(p) || (p.0 == gif_id && tags.contains(p.1))
            &&& u == Tables { tags: u.tags, ..t }
        }),
{
    lemma_add(t, gif_id, tags);
    lemma_tagged(t.tags, gif_id, tags, p);
}

/// Taking tags from a GIF takes these and no others.
pub proof fn law_removed_tags_are_gone(
    t: Tables,
    gif_id: Seq<char>,
    tags: Seq<Seq<char>>,
    p: (Seq<char>, Seq<char>),
)
    ensures
        ({
            let all = per_tag("DELETE FROM tags WHERE gif_id = $1 AND tag = $2"@, gif_id, tags);
            &&& run(t, all) matches Some(u)
            &&& u.tags.contains(p) <==> t.tags.contains(p) && !(p.0 == gif_id && tags.contains(p.1))
            &&& u == Tables { tags: u.tags, ..t }
        }),
    decreases tags.len(),
{
    let text = "DELETE FROM tags WHERE gif_id = $1 AND tag = $2"@;
    if tags.len() == 0 {
        assert(per_tag(text, gif_id, tags) =~= Seq::empty());
    } else {
        let front = tags.drop_last();
        lemma_lengths();
        lemma_per_tag(text, gif_id, tags);
        law_removed_tags_are_gone(t, gif_id, front, p);
        assert(tags.contains(p.1) <==> front.contains(p.1) || p.1 == tags.last()) by {
            if front.contains(p.1) {
                let i = choose|i: int| 0 <= i < front.len() && front[i] == p.1;
                assert(tags[i] == p.1);
            }
            if tags.contains(p.1) {
                let i = choose|i: int| 0 <= i < tags.len() && tags[i] == p.1;
                if i < front.len() {
                    assert(front[i] == p.1);
                }
            }
            assert(tags[tags.len() - 1] == tags.last());
        }
    }
}

/// A mark that its user's listing shows: the GIF is there, the user may see it and, unless asked for,
/// it is not NSFW.
pub open spec fn shows(rows: Map<Seq<char>, Row>, viewer: Seq<char>, grab_nsfw: bool) -> spec_fn(
    (Seq<char>, Seq<char>),
) -> bool {
    |k: (Seq<char>, Seq<char>)|
        k.0 == viewer && rows.contains_key(k.1) && admits(
            list_filter(false, grab_nsfw),
            rows[k.1],
            viewer,
        )
}

/// The GIFs of some marks.
pub open spec fn marked_gifs(marks: Seq<(Seq<char>, Seq<char>)>) -> Seq<Seq<char>> {
    marks.map_values(|k: (Seq<char>, Seq<char>)| k.1)
}

/// What a user's listing of their marks shows, the newest first.
pub open spec fn mark_list(
    marks: Seq<(Seq<char>, Seq<char>)>,
    rows: Map<Seq<char>, Row>,
    viewer: Seq<char>,
    grab_nsfw: bool,
) -> Seq<Seq<char>> {
    marked_gifs(marks.filter(shows(rows, viewer, grab_nsfw))).reverse()
}

/// Marks that a condition picks: they are marks, in order, and none twice.
proof fn lemma_picked(
    marks: Seq<(Seq<char>, Seq<char>)>,
    pick: spec_fn((Seq<char>, Seq<char>)) -> bool,
)
    requires
        marks.no_duplicates(),
    ensures
        marks.filter(pick).no_duplicates(),
        forall|k: (Seq<char>, Seq<char>)| #[trigger]
            marks.filter(pick).contains(k) <==> marks.contains(k) && pick(k),
    decreases marks.len(),
{
    reveal(Seq::filter);
    if marks.len() > 0 {
        let front = marks.drop_last();
        let last = marks.last();
        assert forall|i: int, j: int|
            0 <= i < front.len() && 0 <= j < front.len() && i != j implies front[i] != front[j] by {
            assert(marks[i] != marks[j]);
        }
        lemma_picked(front, pick);
        let picked = front.filter(pick);
        let all = marks.filter(pick);
        assert(!front.contains(last)) by {
            if front.contains(last) {
                let i = choose|i: int| 0 <= i < front.len() && front[i] == last;
                assert(marks[i] != marks[marks.len() - 1]);
            }
        }
        assert forall|k: (Seq<char>, Seq<char>)| #[trigger]
            all.contains(k) <==> marks.contains(k) && pick(k) by {
            assert(marks.contains(k) <==> front.contains(k) || k == last) by {
                if front.contains(k) {
                    let i = choose|i: int| 0 <= i < front.len() && front[i] == k;
                    assert(marks[i] == k);
                }
                assert(marks[marks.len() - 1] == last);
                if marks.contains(k) {
                    let i = choose|i: int| 0 <= i < marks.len() && marks[i] == k;
                    if i < front.len() {
                        assert(front[i] == k);
                    }
                }
            }
            assert(picked.contains(k) <==> front.contains(k) && pick(k));
            if pick(last) {
                assert(all == picked.push(last));
                if picked.contains(k) {
                    let i = choose|i: int| 0 <= i < picked.len() && picked[i] == k;
                    assert(all[i] == k);
                }
                assert(all[all.len() - 1] == last);
                if all.contains(k) {
                    let i = choose|i: int| 0 <= i < all.len() && all[i] == k;
                    if i < picked.len() {
                        assert(picked[i] == k);
                    }
                }
            } else {
                assert(all == picked);
            }
        }
        if pick(last) {
            assert(!picked.contains(last));
            assert forall|i: int, j: int|
                0 <= i < all.len() && 0 <= j < all.len() && i != j implies all[i] != all[j] by {
                if i < picked.len() && j < picked.len() {
                    assert(picked[i] != picked[j]);
                } else if i < picked.len() {
                    assert(picked.contains(picked[i]));
                } else {
                    assert(picked.contains(picked[j]));
                }
            }
        }
    }
}

/// A user's listing shows a GIF once where the user marked it and may be shown it, else not at all.
proof fn lemma_listed(
    marks: Seq<(Seq<char>, Seq<char>)>,
    rows: Map<Seq<char>, Row>,
    viewer: Seq<char>,
    grab_nsfw: bool,
    id: Seq<char>,
)
    requires
        marks.no_duplicates(),
    ensures
        mark_list(marks, rows, viewer, grab_nsfw).no_duplicates(),
        mark_list(marks, rows, viewer, grab_nsfw).contains(id) <==> marks.contains((viewer, id))
            && shows(rows, viewer, grab_nsfw)((viewer, id)),
{
    let pick = shows(rows, viewer, grab_nsfw);
    let picked = marks.filter(pick);
    let ids = marked_gifs(picked);
    let list = mark_list(marks, rows, viewer, grab_nsfw);
    lemma_picked(marks, pick);
    assert forall|i: int| 0 <= i < picked.len() implies #[trigger] picked[i] == (viewer, ids[i]) by {
        assert(picked.contains(picked[i]));
        assert(picked[i] == (picked[i].0, picked[i].1));
    }
    assert forall|i: int, j: int|
        0 <= i < list.len() && 0 <= j < list.len() && i != j implies list[i] != list[j] by {
        let n = list.len() as int;
        assert(list[i] == ids[n - 1 - i] && list[j] == ids[n - 1 - j]);
        assert(picked[n - 1 - i] != picked[n - 1 - j]);
    }
    if list.contains(id) {
        let i = choose|i: int| 0 <= i < list.len() && list[i] == id;
        assert(list[i] == ids[list.len() - 1 - i]);
        assert(picked[list.len() - 1 - i] == (viewer, id));
        assert(picked.contains((viewer, id)));
    }
    if picked.contains((viewer, id)) {
        let i = choose|i: int| 0 <= i < picked.len() && picked[i] == (viewer, id);
        assert(list[list.len() - 1 - i] == ids[i]);
    }
}

/// Marking keeps marks from repeating.
proof fn lemma_marked(marks: Seq<(Seq<char>, Seq<char>)>, key: (Seq<char>, Seq<char>))
    requires
        marks.no_duplicates(),
    ensures
        marked(marks, key).no_duplicates(),
        forall|k: (Seq<char>, Seq<char>)| #[trigger]
            marked(marks, key).contains(k) <==> marks.contains(k) || k == key,
        marked(marked(marks, key), key) == marked(marks, key),
{
    let all = marked(marks, key);
    if !marks.contains(key) {
        assert(all[all.len() - 1] == key);
        assert forall|k: (Seq<char>, Seq<char>)| #[trigger]
            all.contains(k) <==> marks.contains(k) || k == key by {
            if marks.contains(k) {
                let i = choose|i: int| 0 <= i < marks.len() && marks[i] == k;
                assert(all[i] == k);
            }
            if all.contains(k) {
                let i = choose|i: int| 0 <= i < all.len() && all[i] == k;
                if i < marks.len() {
                    assert(marks[i] == k);
                }
            }
        }
        assert forall|i: int, j: int|
            0 <= i < all.len() && 0 <= j < all.len() && i != j implies all[i] != all[j] by {
            if i < marks.len() {
                assert(marks.contains(marks[i]));
            }
            if j < marks.len() {
                assert(marks.contains(marks[j]));
            }
        }
    }
}

/// What a new mark does to the listings: it comes first in its user's where it is shown at all, and
/// other users' stay as they are.
proof fn lemma_mark_lists(
    marks: Seq<(Seq<char>, Seq<char>)>,
    rows: Map<Seq<char>, Row>,
    mxid: Seq<char>,
    id: Seq<char>,
    viewer: Seq<char>,
    grab_nsfw: bool,
)
    ensures
        viewer != mxid ==> mark_list(marked(marks, (mxid, id)), rows, viewer, grab_nsfw)
            == mark_list(marks, rows, viewer, grab_nsfw),
        !marks.contains((mxid, id)) && shows(rows, mxid, grab_nsfw)((mxid, id)) ==> mark_list(
            marked(marks, (mxid, id)),
            rows,
            mxid,
            grab_nsfw,
        ) == seq![id] + mark_list(marks, rows, mxid, grab_nsfw),
{
    let key = (mxid, id);
    if !marks.contains(key) {
        marks.lemma_filter_push(key, shows(rows, viewer, grab_nsfw));
        let pick = shows(rows, mxid, grab_nsfw);
        marks.lemma_filter_push(key, pick);
        if pick(key) {
            let old = marks.filter(pick);
            assert(marked_gifs(old.push(key)) =~= marked_gifs(old).push(id));
            assert(marked_gifs(old).push(id).reverse() =~= seq![id] + marked_gifs(old).reverse());
        }
    }
}

/// What is left of the listings once a mark is taken away: its user's no longer shows the GIF, and
/// other users' stay as they are.
proof fn lemma_unmark_lists(
    marks: Seq<(Seq<char>, Seq<char>)>,
    rows: Map<Seq<char>, Row>,
    mxid: Seq<char>,
    id: Seq<char>,
    viewer: Seq<char>,
    grab_nsfw: bool,
)
    requires
        marks.no_duplicates(),
    ensures
        marks.filter(other_mark((mxid, id))).no_duplicates(),
        !mark_list(marks.filter(other_mark((mxid, id))), rows, mxid, grab_nsfw).contains(id),
        viewer != mxid ==> mark_list(
            marks.filter(other_mark((mxid, id))),
            rows,
            viewer,
            grab_nsfw,
        ) == mark_list(marks, rows, viewer, grab_nsfw),
{
    let rest = marks.filter(other_mark((mxid, id)));
    lemma_picked(marks, other_mark((mxid, id)));
    lemma_listed(rest, rows, mxid, grab_nsfw, id);
    if viewer != mxid {
        lemma_filter_twice(marks, (mxid, id), shows(rows, viewer, grab_nsfw));
    }
}

/// A mark that is not picked can be taken away first.
proof fn lemma_filter_twice(
    marks: Seq<(Seq<char>, Seq<char>)>,
    key: (Seq<char>, Seq<char>),
    pick: spec_fn((Seq<char>, Seq<char>)) -> bool,
)
    requires
        !pick(key),
    ensures
        marks.filter(other_mark(key)).filter(pick) == marks.filter(pick),
    decreases marks.len(),
{
    reveal(Seq::filter);
    if marks.len() > 0 {
        let front = marks.drop_last();
        lemma_filter_twice(front, key, pick);
        if marks.last() != key {
            let rest = front.filter(other_mark(key));
            rest.lemma_filter_push(marks.last(), pick);
        }
    }
}

/// The statement that hides a GIF from a user's browsing.
pub open spec fn hiding(mxid: Seq<char>, id: Seq<char>) -> StatementView {
    sql(
        "INSERT INTO hidden (mxid, gif_id) VALUES ($1, $2) ON CONFLICT DO NOTHING"@,
        seq![txt(mxid), txt(id)],
    )
}

/// The statement that shows a hidden GIF again.
pub open spec fn unhiding(mxid: Seq<char>, id: Seq<char>) -> StatementView {
    sql("DELETE FROM hidden WHERE mxid = $1 AND gif_id = $2"@, seq![txt(mxid), txt(id)])
}

/// The statement that puts a GIF among a user's favorites.
pub open spec fn favoring(mxid: Seq<char>, id: Seq<char>) -> StatementView {
    sql(
        "INSERT INTO favorites (mxid, gif_id) VALUES ($1, $2) ON CONFLICT DO NOTHING"@,
        seq![txt(mxid), txt(id)],
    )
}

/// The statement that takes a GIF from a user's favorites.
pub open spec fn disfavoring(mxid: Seq<char>, id: Seq<char>) -> StatementView {
    sql("DELETE FROM favorites WHERE mxid = $1 AND gif_id = $2"@, seq![txt(mxid), txt(id)])
}

/// A statement, `n` times.
pub open spec fn times(s: StatementView, n: nat) -> Seq<StatementView> {
    Seq::new(n, |i: int| s)
}

/// Hiding a GIF once or several times, with nothing else in between, is hiding it once.
proof fn lemma_hide_times(t: Tables, mxid: Seq<char>, id: Seq<char>, n: nat)
    requires
        n > 0,
        t.hidden.no_duplicates(),
    ensures
        run(t, times(hiding(mxid, id), n)) == Some(
            Tables { hidden: marked(t.hidden, (mxid, id)), ..t },
        ),
    decreases n,
{
    lemma_lengths();
    lemma_marked(t.hidden, (mxid, id));
    let all = times(hiding(mxid, id), n);
    assert(all.drop_last() =~= times(hiding(mxid, id), (n - 1) as nat));
    assert(all.last() == hiding(mxid, id));
    if n > 1 {
        lemma_hide_times(t, mxid, id, (n - 1) as nat);
    } else {
        assert(all.drop_last() =~= Seq::empty());
        assert(run(t, all.drop_last()) == Some(t));
    }
}

/// Favoring a GIF once or several times, with nothing else in between, is favoring it once.
proof fn lemma_favor_times(t: Tables, mxid: Seq<char>, id: Seq<char>, n: nat)
    requires
        n > 0,
        t.favorites.no_duplicates(),
    ensures
        run(t, times(favoring(mxid, id), n)) == Some(
            Tables { favorites: marked(t.favorites, (mxid, id)), ..t },
        ),
    decreases n,
{
    lemma_lengths();
    lemma_marked(t.favorites, (mxid, id));
    let all = times(favoring(mxid, id), n);
    assert(all.drop_last() =~= times(favoring(mxid, id), (n - 1) as nat));
    assert(all.last() == favoring(mxid, id));
    if n > 1 {
        lemma_favor_times(t, mxid, id, (n - 1) as nat);
    } else {
        assert(all.drop_last() =~= Seq::empty());
        assert(run(t, all.drop_last()) == Some(t));
    }
}

/// A GIF that a user hides, once or several times, is listed among what they have hidden exactly
/// once, where they may see it and it is not NSFW or that is asked for, else not at all. Newly hidden
/// it comes first. What other users have hidden is listed as before.
pub proof fn law_hidden_gifs_are_listed(
    t: Tables,
    rows: Map<Seq<char>, Row>,
    mxid: Seq<char>,
    id: Seq<char>,
    n: nat,
    viewer: Seq<char>,
    grab_nsfw: bool,
)
    requires
        n > 0,
        t.hidden.no_duplicates(),
    ensures
        ({
            let u = transacted(t, times(hiding(mxid, id), n));
            let list = mark_list(u.hidden, rows, mxid, grab_nsfw);
            &&& u.hidden.no_duplicates()
            &&& u == Tables { hidden: u.hidden, ..t }
            &&& list.no_duplicates()
            &&& list.contains(id) <==> shows(rows, mxid, grab_nsfw)((mxid, id))
            &&& !t.hidden.contains((mxid, id)) && list.contains(id) ==> list == seq![id] + mark_list(
                t.hidden,
                rows,
                mxid,
                grab_nsfw,
            )
            &&& viewer != mxid ==> mark_list(u.hidden, rows, viewer, grab_nsfw) == mark_list(
                t.hidden,
                rows,
                viewer,
                grab_nsfw,
            )
        }),
{
    lemma_hide_times(t, mxid, id, n);
    lemma_marked(t.hidden, (mxid, id));
    lemma_listed(marked(t.hidden, (mxid, id)), rows, mxid, grab_nsfw, id);
    lemma_mark_lists(t.hidden, rows, mxid, id, viewer, grab_nsfw);
    assert(marked(t.hidden, (mxid, id)).contains((mxid, id)));
}

/// A GIF that a user shows again is no longer listed among what they have hidden. What other users
/// have hidden is listed as before.
pub proof fn law_shown_gifs_are_not_listed(
    t: Tables,
    rows: Map<Seq<char>, Row>,
    mxid: Seq<char>,
    id: Seq<char>,
    viewer: Seq<char>,
    grab_nsfw: bool,
)
    requires
        t.hidden.no_duplicates(),
    ensures
        ({
            let u = transacted(t, seq![unhiding(mxid, id)]);
            &&& u.hidden.no_duplicates()
            &&& u == Tables { hidden: u.hidden, ..t }
            &&& !mark_list(u.hidden, rows, mxid, grab_nsfw).contains(id)
            &&& viewer != mxid ==> mark_list(u.hidden, rows, viewer, grab_nsfw) == mark_list(
                t.hidden,
                rows,
                viewer,
                grab_nsfw,
            )
        }),
{
    lemma_lengths();
    lemma_run_one(t, unhiding(mxid, id));
    lemma_unmark_lists(t.hidden, rows, mxid, id, viewer, grab_nsfw);
}

/// A GIF that a user favors, once or several times, is listed among their favorites exactly once,
/// where they may see it and it is not NSFW or that is asked for, else not at all. Newly favored it
/// comes first. Other users' favorites are listed as before.
pub proof fn law_favorites_are_listed(
    t: Tables,
    rows: Map<Seq<char>, Row>,
    mxid: Seq<char>,
    id: Seq<char>,
    n: nat,
    viewer: Seq<char>,
    grab_nsfw: bool,
)
    requires
        n > 0,
        t.favorites.no_duplicates(),
    ensures
        ({
            let u = transacted(t, times(favoring(mxid, id), n));
            let list = mark_list(u.favorites, rows, mxid, grab_nsfw);
            &&& u.favorites.no_duplicates()
            &&& u == Tables { favorites: u.favorites, ..t }
            &&& list.no_duplicates()
            &&& list.contains(id) <==> shows(rows, mxid, grab_nsfw)((mxid, id))
            &&& !t.favorites.contains((mxid, id)) && list.contains(id) ==> list == seq![id]
                + mark_list(t.favorites, rows, mxid, grab_nsfw)
            &&& viewer != mxid ==> mark_list(u.favorites, rows, viewer, grab_nsfw) == mark_list(
                t.favorites,
                rows,
                viewer,
                grab_nsfw,
            )
        }),
{
    lemma_favor_times(t, mxid, id, n);
    lemma_marked(t.favorites, (mxid, id));
    lemma_listed(marked(t.favorites, (mxid, id)), rows, mxid, grab_nsfw, id);
    lemma_mark_lists(t.favorites, rows, mxid, id, viewer, grab_nsfw);
    assert(marked(t.favorites, (mxid, id)).contains((mxid, id)));
}

/// A GIF that a user takes from their favorites is no longer listed there. Other users' favorites
/// are listed as before.
pub proof fn law_disfavored_gifs_are_not_listed(
    t: Tables,
    rows: Map<Seq<char>, Row>,
    mxid: Seq<char>,
    id: Seq<char>,
    viewer: Seq<char>,
    grab_nsfw: bool,
)
    requires
        t.favorites.no_duplicates(),
    ensures
        ({
            let u = transacted(t, seq![disfavoring(mxid, id)]);
            &&& u.favorites.no_duplicates()
            &&& u == Tables { favorites: u.favorites, ..t }
            &&& !mark_list(u.favorites, rows, mxid, grab_nsfw).contains(id)
            &&& viewer != mxid ==> mark_list(u.favorites, rows, viewer, grab_nsfw) == mark_list(
                t.favorites,
                rows,
                viewer,
                grab_nsfw,
            )
        }),
{
    lemma_lengths();
    lemma_run_one(t, disfavoring(mxid, id));
    lemma_unmark_lists(t.favorites, rows, mxid, id, viewer, grab_nsfw);
}

/// The values of new renditions, in order.
pub open spec fn rendition_rows(id: Seq<char>, renditions: Seq<RenditionSpec>) -> Seq<Seq<ParamView>> {
    renditions.map_values(|r: RenditionSpec| rendition_insert(id, r).params)
}

/// Inserting renditions adds them, in order.
proof fn lemma_renditions(t: Tables, id: Seq<char>, renditions: Seq<RenditionSpec>)
    ensures
        run(t, rendition_inserts(id, renditions)) == Some(
            Tables { renditions: t.renditions + rendition_rows(id, renditions), ..t },
        ),
    decreases renditions.len(),
{
    let all = rendition_inserts(id, renditions);
    if renditions.len() == 0 {
        assert(all =~= Seq::empty());
        assert(t.renditions + rendition_rows(id, renditions) =~= t.renditions);
    } else {
        let front = renditions.drop_last();
        lemma_lengths();
        assert(all.drop_last() =~= rendition_inserts(id, front));
        assert(all.last() == rendition_insert(id, renditions.last()));
        lemma_renditions(t, id, front);
        assert((t.renditions + rendition_rows(id, front)).push(
            rendition_insert(id, renditions.last()).params,
        ) =~= t.renditions + rendition_rows(id, renditions));
    }
}

/// What the tables hold with an order stored: its row, its renditions, and each of its tags once.
pub open spec fn with_order(t: Tables, order: InsertOrder) -> Tables {
    Tables {
        gifs: t.gifs.push(gif_insert(order).params),
        renditions: t.renditions + rendition_rows(order.id@, order.renditions@),
        tags: tagged(t.tags, order.id@, texts(order.tags@)),
        ..t
    }
}

/// The last step writes the order whole.
proof fn lemma_writes(t: Tables, order: InsertOrder)
    ensures
        run(t, insert_writes(order)) == Some(with_order(t, order)),
{
    lemma_lengths();
    let row = gif_insert(order);
    let second = rendition_inserts(order.id@, order.renditions@);
    let third = per_tag(
        "INSERT INTO tags (gif_id, tag) VALUES ($1, $2) ON CONFLICT DO NOTHING"@,
        order.id@,
        texts(order.tags@),
    );
    let a = Tables { gifs: t.gifs.push(row.params), ..t };
    lemma_run_one(t, row);
    assert(effect(t, row) == Some(a));
    lemma_run_on(t, seq![row], second);
    lemma_renditions(a, order.id@, order.renditions@);
    let b = Tables { renditions: t.renditions + rendition_rows(order.id@, order.renditions@), ..a };
    lemma_run_on(t, seq![row] + second, third);
    lemma_add(b, order.id@, texts(order.tags@));
}

/// The statements that the storing of a GIF runs from this step on, on what is stored.
pub open spec fn statements_from(order: InsertOrder, held: Seq<Held>, step: InsertStep, gif: Gif) -> Seq<
    StatementView,
>
    decreases steps_left(step),
{
    if step is Finished {
        Seq::empty()
    } else {
        insert_statements_of(order, step) + statements_from(
            order,
            held,
            after_insert(order, insert_answer(order, held, step, gif)),
            gif,
        )
    }
}

/// What the tables hold once an order is done. Only a transaction that ends with `Inserted` is
/// committed.
pub open spec fn tables_after(order: InsertOrder, held: Seq<Held>, t: Tables, gif: Gif) -> Tables {
    if insert_outcome(order, held, gif) is Inserted {
        transacted(t, statements_from(order, held, InsertStep::Lookup, gif))
    } else {
        t
    }
}

/// The steps before the last one write nothing.
proof fn lemma_reading_writes_nothing(t: Tables, order: InsertOrder, step: InsertStep)
    requires
        !(step is Write),
    ensures
        run(t, insert_statements_of(order, step)) == Some(t),
{
    lemma_lengths();
    match step {
        InsertStep::Lookup => {
            let find = find_own(order.uploader_id@, order.hash@);
            let all = seq![lock_statement(), find];
            assert(all.drop_last() =~= seq![lock_statement()]);
            lemma_run_one(t, lock_statement());
            assert(effect(t, lock_statement()) == Some(t));
            assert(effect(t, find) == Some(t));
        },
        InsertStep::SumAll => {
            lemma_run_one(t, global_total());
        },
        InsertStep::SumUploader => {
            lemma_run_one(t, user_total(order.uploader_id@));
        },
        _ => {},
    }
}

/// From a step on, a storing that is completed writes the order whole.
proof fn lemma_statements_from(order: InsertOrder, held: Seq<Held>, step: InsertStep, t: Tables, gif: Gif)
    requires
        !(step is Finished),
        insert_end(order, held, step, gif) is Finished,
        insert_end(order, held, step, gif)->Finished_0 is Inserted,
    ensures
        run(t, statements_from(order, held, step, gif)) == Some(with_order(t, order)),
    decreases steps_left(step),
{
    let next = after_insert(order, insert_answer(order, held, step, gif));
    lemma_run_on(
        t,
        insert_statements_of(order, step),
        statements_from(order, held, next, gif),
    );
    if step is Write {
        lemma_writes(t, order);
    } else {
        lemma_reading_writes_nothing(t, order, step);
        reveal_with_fuel(insert_end, 2);
        assert(!(next is Finished));
        lemma_statements_from(order, held, next, t, gif);
    }
}

/// An upload is written whole or not at all: one that is stored adds its row, its renditions and each
/// of its tags once, and keeps everything else; one that is a duplicate, or over a cap, leaves every
/// table as it was.
pub proof fn law_an_upload_is_written_whole(
    order: InsertOrder,
    held: Seq<Held>,
    t: Tables,
    gif: Gif,
)
    requires
        countable_order(order, held),
    ensures
        insert_outcome(order, held, gif) is Inserted ==> tables_after(order, held, t, gif)
            == with_order(t, order),
        !(insert_outcome(order, held, gif) is Inserted) ==> tables_after(order, held, t, gif) == t,
        with_order(t, order).renditions.len() == t.renditions.len() + order.renditions@.len(),
        forall|p: (Seq<char>, Seq<char>)| #[trigger]
            with_order(t, order).tags.contains(p) <==> t.tags.contains(p) || (p.0 == order.id@
                && texts(order.tags@).contains(p.1)),
{
    law_outcome_of_an_order(order, held, gif);
    if insert_outcome(order, held, gif) is Inserted {
        reveal_with_fuel(insert_end, 5);
        lemma_statements_from(order, held, InsertStep::Lookup, t, gif);
    }
    assert forall|p: (Seq<char>, Seq<char>)| #[trigger]
        with_order(t, order).tags.contains(p) <==> t.tags.contains(p) || (p.0 == order.id@ && texts(
            order.tags@,
        ).contains(p.1)) by {
        lemma_tagged(t.tags, order.id@, texts(order.tags@), p);
    }
}

/// The bytes that the table of renditions gives.
pub open spec fn stored_bytes(renditions: Seq<Seq<ParamView>>) -> int
    decreases renditions.len(),
{
    if renditions.len() == 0 {
        0
    } else {
        stored_bytes(renditions.drop_last()) + renditions.last()[5]->Int_0
    }
}

/// The tables hold the GIFs of the accounting, with its uploaders and contents, and all its bytes
/// together.
pub open spec fn accounted(t: Tables, held: Seq<Held>) -> bool {
    &&& t.gifs.len() == held.len()
    &&& forall|i: int|
        0 <= i < held.len() ==> (#[trigger] t.gifs[i])[3] == txt(held[i].uploader) && t.gifs[i][2]
            == txt(held[i].hash)
    &&& stored_bytes(t.renditions) == held_total(held)
}

proof fn lemma_stored_bytes(before: Seq<Seq<ParamView>>, id: Seq<char>, renditions: Seq<RenditionSpec>)
    ensures
        stored_bytes(before + rendition_rows(id, renditions)) == stored_bytes(before) + total_size(
            renditions,
        ),
    decreases renditions.len(),
{
    let all = before + rendition_rows(id, renditions);
    if renditions.len() == 0 {
        assert(all =~= before);
    } else {
        let front = renditions.drop_last();
        assert(all.drop_last() =~= before + rendition_rows(id, front));
        assert(all.last() == rendition_insert(id, renditions.last()).params);
        lemma_stored_bytes(before, id, front);
    }
}

/// The tables and the accounting agree, upload after upload.
pub proof fn law_tables_agree_with_the_accounting(
    order: InsertOrder,
    held: Seq<Held>,
    t: Tables,
    gif: Gif,
)
    requires
        countable_order(order, held),
        accounted(t, held),
    ensures
        accounted(tables_after(order, held, t, gif), held_after(order, held, gif)),
{
    law_an_upload_is_written_whole(order, held, t, gif);
    if insert_outcome(order, held, gif) is Inserted {
        let u = with_order(t, order);
        let after = held.push(entry(order));
        lemma_stored_bytes(t.renditions, order.id@, order.renditions@);
        assert(after.drop_last() =~= held);
        assert forall|i: int| 0 <= i < after.len() implies (#[trigger] u.gifs[i])[3] == txt(
            after[i].uploader,
        ) && u.gifs[i][2] == txt(after[i].hash) by {
            if i < held.len() {
                assert(u.gifs[i] == t.gifs[i]);
            } else {
                assert(u.gifs[i] == gif_insert(order).params);
            }
        }
    }
}

/// What the tables hold once all orders are done, one after the other.
pub open spec fn tables_after_all(
    orders: Seq<InsertOrder>,
    held: Seq<Held>,
    t: Tables,
    gif: Gif,
) -> Tables
    decreases orders.len(),
{
    if orders.len() == 0 {
        t
    } else {
        let front = orders.drop_last();
        tables_after(
            orders.last(),
            held_after_all(front, held, gif),
            tables_after_all(front, held, t, gif),
            gif,
        )
    }
}

/// However many uploads there are, in whatever order they get the lock, the tables and the accounting
/// agree in the end, and all stored bytes are within the cap.
pub proof fn law_uploads_agree_with_the_accounting(
    orders: Seq<InsertOrder>,
    held: Seq<Held>,
    t: Tables,
    gif: Gif,
    global_max: u64,
    per_user_max: u64,
)
    requires
        countable_orders(orders, held, gif, global_max, per_user_max),
        within_caps(held, global_max, per_user_max),
        contents_once(held),
        accounted(t, held),
    ensures
        accounted(tables_after_all(orders, held, t, gif), held_after_all(orders, held, gif)),
        stored_bytes(tables_after_all(orders, held, t, gif).renditions) <= global_max,
    decreases orders.len(),
{
    law_uploads_keep_the_caps(orders, held, gif, global_max, per_user_max);
    if orders.len() > 0 {
        let front = orders.drop_last();
        law_uploads_agree_with_the_accounting(front, held, t, gif, global_max, per_user_max);
        law_tables_agree_with_the_accounting(
            orders.last(),
            held_after_all(front, held, gif),
            tables_after_all(front, held, t, gif),
            gif,
        );
    }
}

/// An upload that is stored is stored as it was ordered, value by value: the row of the GIF, and a
/// row for each of its renditions.
pub proof fn law_an_upload_is_written_as_ordered(t: Tables, order: InsertOrder)
    ensures
        with_order(t, order).gifs == t.gifs.push(
            seq![
                ParamView::Text(order.id@),
                ParamView::Text(order.filename@),
                ParamView::Text(order.hash@),
                ParamView::Text(order.uploader_id@),
                ParamView::Text(order.visibility@),
                ParamView::Bool(order.is_nsfw),
                ParamView::Int(order.frame_count),
                ParamView::Int(order.duration_ms),
            ],
        ),
        with_order(t, order).renditions.len() == t.renditions.len() + order.renditions@.len(),
        t.renditions.is_prefix_of(with_order(t, order).renditions),
        forall|i: int|
            0 <= i < order.renditions@.len() ==> {
                let r = #[trigger] order.renditions@[i];
                with_order(t, order).renditions[t.renditions.len() + i] == seq![
                    ParamView::Text(order.id@),
                    ParamView::Text(r.rendition@),
                    ParamView::Text(r.filename@),
                    ParamView::Int(r.width),
                    ParamView::Int(r.height),
                    ParamView::Int(r.size_bytes),
                ]
            },
{
    assert(t.renditions =~= with_order(t, order).renditions.subrange(
        0,
        t.renditions.len() as int,
    ));
}

} // verus!
