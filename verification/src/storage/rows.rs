//! What the statements that change stored GIFs do to their rows.

use vstd::prelude::*;

use super::db::{
    gif_update, rendition_update, rendition_updates, replace_writes, txt, RenditionSpec,
    ReplaceOrder, GIF_COLS,
};
use super::sql::{sql, ParamView, StatementView};

verus! {

/// The row of a GIF.
#[verifier::ext_equal]
pub struct GifRow {
    pub filename: Seq<char>,
    pub hash: Seq<char>,
    pub uploader: Seq<char>,
    pub visibility: Seq<char>,
    pub is_nsfw: bool,
    pub frame_count: i32,
    pub duration_ms: i32,
    pub uses: int,
}

/// The row of a rendition.
#[verifier::ext_equal]
pub struct SizeRow {
    pub width: i32,
    pub height: i32,
    pub size_bytes: i32,
}

/// The stored GIFs by id, and their renditions by id and name.
#[verifier::ext_equal]
pub struct Stored {
    pub gifs: Map<Seq<char>, GifRow>,
    pub renditions: Map<(Seq<char>, Seq<char>), SizeRow>,
}

/// The GIFs with another row for one that is there; where it is not there, nothing changes.
pub open spec fn with_row(t: Stored, id: Seq<char>, row: GifRow) -> Stored {
    if t.gifs.contains_key(id) {
        Stored { gifs: t.gifs.insert(id, row), ..t }
    } else {
        t
    }
}

/// The renditions with another row for one that is there.
pub open spec fn with_size(t: Stored, key: (Seq<char>, Seq<char>), row: SizeRow) -> Stored {
    if t.renditions.contains_key(key) {
        Stored { renditions: t.renditions.insert(key, row), ..t }
    } else {
        t
    }
}

/// What a statement does to the rows that it names.
pub open spec fn row_effect(t: Stored, s: StatementView) -> Stored {
    let p = s.params;
    if s.text == "UPDATE gifs SET visibility = $1 WHERE id = $2"@ {
        let id = p[1]->Text_0;
        with_row(t, id, GifRow { visibility: p[0]->Text_0, ..t.gifs[id] })
    } else if s.text == "UPDATE gifs SET is_nsfw = $1 WHERE id = $2"@ {
        let id = p[1]->Text_0;
        with_row(t, id, GifRow { is_nsfw: p[0]->Bool_0, ..t.gifs[id] })
    } else if s.text == "UPDATE gifs SET uses = uses + 1 WHERE id = $1"@ {
        let id = p[0]->Text_0;
        with_row(t, id, GifRow { uses: t.gifs[id].uses + 1, ..t.gifs[id] })
    } else if s.text
        == "UPDATE gifs SET filename = $1, hash = $2, frame_count = $3, duration_ms = $4 WHERE id = $5 RETURNING "@
        + GIF_COLS@ {
        let id = p[4]->Text_0;
        with_row(
            t,
            id,
            GifRow {
                filename: p[0]->Text_0,
                hash: p[1]->Text_0,
                frame_count: p[2]->Int_0,
                duration_ms: p[3]->Int_0,
                ..t.gifs[id]
            },
        )
    } else if s.text
        == "UPDATE gif_renditions SET width = $1, height = $2, size_bytes = $3 WHERE gif_id = $4 AND rendition = $5"@ {
        with_size(
            t,
            (p[3]->Text_0, p[4]->Text_0),
            SizeRow { width: p[0]->Int_0, height: p[1]->Int_0, size_bytes: p[2]->Int_0 },
        )
    } else {
        t
    }
}

/// What statements do one after the other.
pub open spec fn rows_after(t: Stored, all: Seq<StatementView>) -> Stored
    decreases all.len(),
{
    if all.len() == 0 {
        t
    } else {
        row_effect(rows_after(t, all.drop_last()), all.last())
    }
}

/// No two of the texts are the same: they differ in length, or at a place.
pub proof fn lemma_row_texts()
    ensures
        "UPDATE gifs SET visibility = $1 WHERE id = $2"@.len() == 45,
        "UPDATE gifs SET is_nsfw = $1 WHERE id = $2"@.len() == 42,
        "UPDATE gifs SET uses = uses + 1 WHERE id = $1"@.len() == 45,
        "UPDATE gifs SET visibility = $1 WHERE id = $2"@[16] == 'v',
        "UPDATE gifs SET uses = uses + 1 WHERE id = $1"@[16] == 'u',
        ("UPDATE gifs SET filename = $1, hash = $2, frame_count = $3, duration_ms = $4 WHERE id = $5 RETURNING "@
            + GIF_COLS@).len() == 198,
        "UPDATE gif_renditions SET width = $1, height = $2, size_bytes = $3 WHERE gif_id = $4 AND rendition = $5"@.len()
            == 103,
{
    reveal_strlit("UPDATE gifs SET visibility = $1 WHERE id = $2");
    reveal_strlit("UPDATE gifs SET is_nsfw = $1 WHERE id = $2");
    reveal_strlit("UPDATE gifs SET uses = uses + 1 WHERE id = $1");
    reveal_strlit(
        "UPDATE gifs SET filename = $1, hash = $2, frame_count = $3, duration_ms = $4 WHERE id = $5 RETURNING ",
    );
    reveal_strlit(
        "id, filename, hash, uploader_id, visibility, is_nsfw, frame_count, duration_ms, uses, uploaded_at",
    );
    reveal_strlit(
        "UPDATE gif_renditions SET width = $1, height = $2, size_bytes = $3 WHERE gif_id = $4 AND rendition = $5",
    );
}

/// Statements go on from where others ended.
pub proof fn lemma_rows_on(t: Stored, a: Seq<StatementView>, b: Seq<StatementView>)
    ensures
        rows_after(t, a + b) == rows_after(rows_after(t, a), b),
    decreases b.len(),
{
    if b.len() == 0 {
        assert(a + b =~= a);
    } else {
        assert((a + b).drop_last() =~= a + b.drop_last());
        lemma_rows_on(t, a, b.drop_last());
    }
}

/// One statement.
pub proof fn lemma_rows_one(t: Stored, s: StatementView)
    ensures
        rows_after(t, seq![s]) == row_effect(t, s),
        rows_after(t, Seq::empty()) == t,
{
    assert(seq![s].drop_last() =~= Seq::<StatementView>::empty());
    assert(rows_after(t, seq![s].drop_last()) == t);
}

/// A counted selection is one more use of its GIF, and changes nothing else.
pub proof fn law_one_more_use(t: Stored, id: Seq<char>)
    requires
        t.gifs.contains_key(id),
    ensures
        row_effect(t, sql("UPDATE gifs SET uses = uses + 1 WHERE id = $1"@, seq![txt(id)])) == (
        Stored {
            gifs: t.gifs.insert(id, GifRow { uses: t.gifs[id].uses + 1, ..t.gifs[id] }),
            ..t
        }),
{
    lemma_row_texts();
}

/// The size that a rendition of this name gets: that of the last one described, or its old one.
pub open spec fn new_size(renditions: Seq<RenditionSpec>, name: Seq<char>, old: SizeRow) -> SizeRow
    decreases renditions.len(),
{
    if renditions.len() == 0 {
        old
    } else if renditions.last().rendition@ == name {
        SizeRow {
            width: renditions.last().width,
            height: renditions.last().height,
            size_bytes: renditions.last().size_bytes,
        }
    } else {
        new_size(renditions.drop_last(), name, old)
    }
}

proof fn lemma_sizes(t: Stored, id: Seq<char>, renditions: Seq<RenditionSpec>)
    ensures
        ({
            let after = rows_after(t, rendition_updates(id, renditions));
            &&& after.gifs == t.gifs
            &&& after.renditions.dom() =~= t.renditions.dom()
            &&& forall|key: (Seq<char>, Seq<char>)| #[trigger]
                t.renditions.contains_key(key) ==> after.renditions[key] == if key.0 == id {
                    new_size(renditions, key.1, t.renditions[key])
                } else {
                    t.renditions[key]
                }
        }),
    decreases renditions.len(),
{
    let all = rendition_updates(id, renditions);
    if renditions.len() > 0 {
        let front = renditions.drop_last();
        lemma_sizes(t, id, front);
        lemma_row_texts();
        assert(all.drop_last() =~= rendition_updates(id, front));
        assert(all.last() == rendition_update(id, renditions.last()));
    }
}

/// Replacing a GIF's content changes what the content decides, and nothing else: the GIF keeps its
/// uploader, its visibility, its NSFW flag and its uses; its renditions get the sizes described for
/// their names; other GIFs, and their renditions, keep everything.
pub proof fn law_replacing_changes_the_content_alone(t: Stored, order: ReplaceOrder)
    requires
        t.gifs.contains_key(order.id@),
    ensures
        ({
            let after = rows_after(t, replace_writes(order));
            &&& after.gifs == t.gifs.insert(
                order.id@,
                GifRow {
                    filename: order.filename@,
                    hash: order.hash@,
                    frame_count: order.frame_count,
                    duration_ms: order.duration_ms,
                    ..t.gifs[order.id@]
                },
            )
            &&& after.renditions.dom() == t.renditions.dom()
            &&& forall|key: (Seq<char>, Seq<char>)| #[trigger]
                t.renditions.contains_key(key) ==> after.renditions[key] == if key.0 == order.id@ {
                    new_size(order.renditions@, key.1, t.renditions[key])
                } else {
                    t.renditions[key]
                }
        }),
{
    lemma_row_texts();
    let first = gif_update(order);
    lemma_rows_one(t, first);
    lemma_rows_on(t, seq![first], rendition_updates(order.id@, order.renditions@));
    lemma_sizes(row_effect(t, first), order.id@, order.renditions@);
}

/// Where no two renditions of an order have one name, each stored one gets the size described for
/// it.
pub proof fn law_replaced_renditions_get_their_sizes(
    renditions: Seq<RenditionSpec>,
    i: int,
    old: SizeRow,
)
    requires
        0 <= i < renditions.len(),
        forall|j: int|
            i < j < renditions.len() ==> (#[trigger] renditions[j]).rendition@
                != renditions[i].rendition@,
    ensures
        new_size(renditions, renditions[i].rendition@, old) == (SizeRow {
            width: renditions[i].width,
            height: renditions[i].height,
            size_bytes: renditions[i].size_bytes,
        }),
    decreases renditions.len(),
{
    if i < renditions.len() - 1 {
        let front = renditions.drop_last();
        assert(renditions[renditions.len() - 1].rendition@ != renditions[i].rendition@);
        assert forall|j: int| i < j < front.len() implies (#[trigger] front[j]).rendition@
            != front[i].rendition@ by {
            assert(front[j] == renditions[j]);
        }
        law_replaced_renditions_get_their_sizes(front, i, old);
    }
}

} // verus!
