//! Changing the tags of a GIF.

use vstd::prelude::*;

use crate::models::TagsBody;
use crate::routes::fetch::Mutable;
use crate::storage::db::{self, per_tag, set_tags_of};
use crate::storage::sql::{statements, Statement};
use crate::text::{lowercase, texts};

verus! {

/// The tags of a request, in lowercase.
pub open spec fn lowered(tags: Seq<Seq<char>>) -> Seq<Seq<char>> {
    tags.map_values(|t: Seq<char>| lowercase(t))
}

fn lower_all(tags: &Vec<String>) -> (r: Vec<String>)
    ensures
        texts(r@) == lowered(texts(tags@)),
{
    let mut r: Vec<String> = Vec::new();
    let mut i: usize = 0;
    let ghost all = lowered(texts(tags@));
    assert(texts(r@) == all.take(0));
    while i < tags.len()
        invariant
            i <= tags@.len(),
            all == lowered(texts(tags@)),
            texts(r@) == all.take(i as int),
        decreases tags@.len() - i,
    {
        let ghost before = r@;
        let t = tags[i].as_str().to_lowercase();
        proof {
            assert(t@ == all[i as int]);
            assert(all.take(i + 1) == all.take(i as int).push(t@));
        }
        r.push(t);
        assert(texts(r@) == texts(before).push(t@));
        i = i + 1;
    }
    assert(all.take(all.len() as int) == all);
    r
}

/// Replaces all tags of a GIF.
pub fn put_tags(target: &Mutable, body: &TagsBody) -> (r: Vec<Statement>)
    ensures
        statements(r@) == set_tags_of(target.spec_gif().id@, lowered(texts(body.tags@))),
{
    db::set_tags(target.gif().id.as_str(), &lower_all(&body.tags))
}

/// Adds tags to a GIF.
pub fn patch_tags(target: &Mutable, body: &TagsBody) -> (r: Vec<Statement>)
    ensures
        statements(r@) == per_tag(
            "INSERT INTO tags (gif_id, tag) VALUES ($1, $2) ON CONFLICT DO NOTHING"@,
            target.spec_gif().id@,
            lowered(texts(body.tags@)),
        ),
{
    db::add_tags(target.gif().id.as_str(), &lower_all(&body.tags))
}

/// Takes tags from a GIF.
pub fn delete_tags(target: &Mutable, body: &TagsBody) -> (r: Vec<Statement>)
    ensures
        statements(r@) == per_tag(
            "DELETE FROM tags WHERE gif_id = $1 AND tag = $2"@,
            target.spec_gif().id@,
            lowered(texts(body.tags@)),
        ),
{
    db::remove_tags(target.gif().id.as_str(), &lower_all(&body.tags))
}

/// Every tag of a request is taken, in lowercase, in order.
pub proof fn law_every_tag_is_taken(tags: Seq<Seq<char>>)
    ensures
        lowered(tags).len() == tags.len(),
        forall|i: int| 0 <= i < tags.len() ==> #[trigger] lowered(tags)[i] == lowercase(tags[i]),
{
}

} // verus!
