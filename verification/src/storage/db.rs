//! The statements that the server runs on its database, and the decisions between them.

use vstd::prelude::*;

use crate::models::Gif;
use crate::text::texts;
use super::sql::{
    browse_filter, browse_filters, like_prefix, list_filter, list_filters, prefix_pattern, sql,
    statements, suggest_filter, written, Param, ParamView, Statement, StatementView,
};

verus! {

/// The columns of a GIF.
pub const GIF_COLS: &'static str =
    "id, filename, hash, uploader_id, visibility, is_nsfw, frame_count, duration_ms, uses, uploaded_at";

/// The columns of a GIF, where its table is called `g`.
pub const G_COLS: &'static str =
    "g.id, g.filename, g.hash, g.uploader_id, g.visibility, g.is_nsfw, g.frame_count, g.duration_ms, g.uses, g.uploaded_at";

/// A text value.
pub open spec fn txt(s: Seq<char>) -> ParamView {
    ParamView::Text(s)
}

/// A rendition to be stored.
pub struct RenditionSpec {
    pub rendition: &'static str,
    pub filename: String,
    pub width: i32,
    pub height: i32,
    pub size_bytes: i32,
}

/// What came of an upload.
pub enum UploadOutcome {
    Inserted(Gif),
    /// The uploader has this very file already.
    Duplicate(Gif),
    QuotaExceeded,
}

/// What came of replacing a GIF's file.
pub enum ReplaceOutcome {
    Updated(Gif),
    /// The uploader has the new content already, in another GIF.
    Duplicate,
    QuotaExceeded,
}

/// The advisory lock that serializes the accounting of all uploads.
pub const UPLOAD_LOCK_ID: i64 = 0x6749_4653;

/// Finds a GIF by its id.
pub fn get_gif(id: &str) -> (r: Statement)
    ensures
        r@ == sql("SELECT "@ + GIF_COLS@ + " FROM gifs WHERE id = $1"@, seq![txt(id@)]),
{
    let mut t = "SELECT ".to_owned();
    t.append(GIF_COLS);
    t.append(" FROM gifs WHERE id = $1");
    Statement::new(t).text(id)
}

/// The GIF with this content among those of one uploader.
pub open spec fn find_own(uploader: Seq<char>, hash: Seq<char>) -> StatementView {
    sql(
        "SELECT "@ + GIF_COLS@ + " FROM gifs WHERE uploader_id = $1 AND hash = $2"@,
        seq![txt(uploader), txt(hash)],
    )
}

/// Finds the GIF with this content among those of one uploader, so that nobody can find out
/// about another user's uploads.
pub fn get_gif_by_hash_for_uploader(hash: &str, uploader_id: &str) -> (r: Statement)
    ensures
        r@ == find_own(uploader_id@, hash@),
{
    let mut t = "SELECT ".to_owned();
    t.append(GIF_COLS);
    t.append(" FROM gifs WHERE uploader_id = $1 AND hash = $2");
    Statement::new(t).text(uploader_id).text(hash)
}

/// Sets a GIF's visibility.
pub fn set_visibility(id: &str, visibility: &str) -> (r: Statement)
    ensures
        r@ == sql(
            "UPDATE gifs SET visibility = $1 WHERE id = $2"@,
            seq![txt(visibility@), txt(id@)],
        ),
{
    Statement::new("UPDATE gifs SET visibility = $1 WHERE id = $2".to_owned()).text(visibility).text(
        id,
    )
}

/// Sets a GIF's NSFW flag.
pub fn set_nsfw(id: &str, is_nsfw: bool) -> (r: Statement)
    ensures
        r@ == sql(
            "UPDATE gifs SET is_nsfw = $1 WHERE id = $2"@,
            seq![ParamView::Bool(is_nsfw), txt(id@)],
        ),
{
    Statement::new("UPDATE gifs SET is_nsfw = $1 WHERE id = $2".to_owned()).flag(is_nsfw).text(id)
}

/// Deletes a GIF.
pub fn delete_gif(id: &str) -> (r: Statement)
    ensures
        r@ == sql("DELETE FROM gifs WHERE id = $1"@, seq![txt(id@)]),
{
    Statement::new("DELETE FROM gifs WHERE id = $1".to_owned()).text(id)
}

/// Finds the renditions of a GIF.
pub fn get_renditions(gif_id: &str) -> (r: Statement)
    ensures
        r@ == sql(
            "SELECT gif_id, rendition, filename, width, height, size_bytes FROM gif_renditions WHERE gif_id = $1"@,
            seq![txt(gif_id@)],
        ),
{
    Statement::new(
        "SELECT gif_id, rendition, filename, width, height, size_bytes FROM gif_renditions WHERE gif_id = $1".to_owned(),
    ).text(gif_id)
}

/// Sums the bytes of all stored renditions.
pub fn total_storage_bytes() -> (r: Statement)
    ensures
        r@ == sql("SELECT COALESCE(SUM(size_bytes), 0)::BIGINT FROM gif_renditions"@, Seq::empty()),
{
    Statement::new("SELECT COALESCE(SUM(size_bytes), 0)::BIGINT FROM gif_renditions".to_owned())
}

/// Finds the tags of a GIF, in alphabetical order.
pub fn get_tags(gif_id: &str) -> (r: Statement)
    ensures
        r@ == sql("SELECT tag FROM tags WHERE gif_id = $1 ORDER BY tag"@, seq![txt(gif_id@)]),
{
    Statement::new("SELECT tag FROM tags WHERE gif_id = $1 ORDER BY tag".to_owned()).text(gif_id)
}

/// One statement for each tag, in order.
pub open spec fn per_tag(text: Seq<char>, gif_id: Seq<char>, tags: Seq<Seq<char>>) -> Seq<
    StatementView,
> {
    tags.map_values(|tag: Seq<char>| sql(text, seq![txt(gif_id), txt(tag)]))
}

fn for_each_tag(text: &str, gif_id: &str, tags: &Vec<String>) -> (r: Vec<Statement>)
    ensures
        statements(r@) == per_tag(text@, gif_id@, texts(tags@)),
{
    let mut r: Vec<Statement> = Vec::new();
    let mut i: usize = 0;
    let ghost all = per_tag(text@, gif_id@, texts(tags@));
    assert(statements(r@) == all.take(0));
    while i < tags.len()
        invariant
            i <= tags@.len(),
            all == per_tag(text@, gif_id@, texts(tags@)),
            statements(r@) == all.take(i as int),
        decreases tags@.len() - i,
    {
        let ghost before = r@;
        let s = Statement::new(text.to_owned()).text(gif_id).text(tags[i].as_str());
        proof {
            assert(s@ == all[i as int]);
            assert(all.take(i + 1) == all.take(i as int).push(s@));
        }
        r.push(s);
        assert(statements(r@) == statements(before).push(s@));
        i = i + 1;
    }
    assert(all.take(all.len() as int) == all);
    r
}

/// The statements that replace all tags of a GIF.
pub open spec fn set_tags_of(gif_id: Seq<char>, tags: Seq<Seq<char>>) -> Seq<StatementView> {
    seq![sql("DELETE FROM tags WHERE gif_id = $1"@, seq![txt(gif_id)])] + per_tag(
        "INSERT INTO tags (gif_id, tag) VALUES ($1, $2)"@,
        gif_id,
        tags,
    )
}

/// Replaces all tags of a GIF; to be run as one transaction.
pub fn set_tags(gif_id: &str, tags: &Vec<String>) -> (r: Vec<Statement>)
    ensures
        statements(r@) == set_tags_of(gif_id@, texts(tags@)),
{
    let mut r: Vec<Statement> = Vec::new();
    let first = Statement::new("DELETE FROM tags WHERE gif_id = $1".to_owned()).text(gif_id);
    r.push(first);
    let mut rest = for_each_tag(
        "INSERT INTO tags (gif_id, tag) VALUES ($1, $2)",
        gif_id,
        tags,
    );
    let ghost tail = rest@;
    r.append(&mut rest);
    assert(statements(r@) == seq![first@] + statements(tail));
    r
}

/// Adds tags to a GIF; those it has already stay.
pub fn add_tags(gif_id: &str, tags: &Vec<String>) -> (r: Vec<Statement>)
    ensures
        statements(r@) == per_tag(
            "INSERT INTO tags (gif_id, tag) VALUES ($1, $2) ON CONFLICT DO NOTHING"@,
            gif_id@,
            texts(tags@),
        ),
{
    for_each_tag(
        "INSERT INTO tags (gif_id, tag) VALUES ($1, $2) ON CONFLICT DO NOTHING",
        gif_id,
        tags,
    )
}

/// Takes tags from a GIF.
pub fn remove_tags(gif_id: &str, tags: &Vec<String>) -> (r: Vec<Statement>)
    ensures
        statements(r@) == per_tag(
            "DELETE FROM tags WHERE gif_id = $1 AND tag = $2"@,
            gif_id@,
            texts(tags@),
        ),
{
    for_each_tag("DELETE FROM tags WHERE gif_id = $1 AND tag = $2", gif_id, tags)
}

/// Counts one more use of a GIF.
pub fn increment_uses(gif_id: &str) -> (r: Statement)
    ensures
        r@ == sql("UPDATE gifs SET uses = uses + 1 WHERE id = $1"@, seq![txt(gif_id@)]),
{
    Statement::new("UPDATE gifs SET uses = uses + 1 WHERE id = $1".to_owned()).text(gif_id)
}

/// The patterns of search terms.
pub open spec fn term_patterns(terms: Seq<Seq<char>>) -> Seq<Seq<char>> {
    terms.map_values(|t: Seq<char>| prefix_pattern(t))
}

fn patterns_of(terms: &Vec<String>) -> (r: Vec<String>)
    ensures
        texts(r@) == term_patterns(texts(terms@)),
{
    let mut r: Vec<String> = Vec::new();
    let mut i: usize = 0;
    let ghost all = term_patterns(texts(terms@));
    assert(texts(r@) == all.take(0));
    while i < terms.len()
        invariant
            i <= terms@.len(),
            all == term_patterns(texts(terms@)),
            texts(r@) == all.take(i as int),
        decreases terms@.len() - i,
    {
        let ghost before = r@;
        let p = like_prefix(terms[i].as_str());
        proof {
            assert(p@ == all[i as int]);
            assert(all.take(i + 1) == all.take(i as int).push(p@));
        }
        r.push(p);
        assert(texts(r@) == texts(before).push(p@));
        i = i + 1;
    }
    assert(all.take(all.len() as int) == all);
    r
}

/// Finds GIFs with a tag that begins with one of the terms; those with more such tags first.
pub fn search_by_tags(
    terms: &Vec<String>,
    viewer: &str,
    mine: bool,
    grab_nsfw: bool,
    grab_hidden: bool,
    limit: i64,
    offset: i64,
) -> (r: Statement)
    ensures
        r@ == sql(
            "SELECT "@ + G_COLS@
                + " FROM gifs g JOIN tags t ON t.gif_id = g.id WHERE t.tag LIKE ANY($1) AND "@
                + written(browse_filter(mine, grab_nsfw, grab_hidden), "g"@, "$4"@)
                + " GROUP BY g.id ORDER BY COUNT(t.tag) DESC, g.uses DESC, g.uploaded_at DESC LIMIT $2 OFFSET $3"@,
            seq![
                ParamView::Texts(term_patterns(texts(terms@))),
                ParamView::BigInt(limit),
                ParamView::BigInt(offset),
                txt(viewer@),
            ],
        ),
{
    let mut t = "SELECT ".to_owned();
    t.append(G_COLS);
    t.append(" FROM gifs g JOIN tags t ON t.gif_id = g.id WHERE t.tag LIKE ANY($1) AND ");
    t.append(browse_filters(mine, grab_nsfw, grab_hidden, "g", "$4").as_str());
    t.append(
        " GROUP BY g.id ORDER BY COUNT(t.tag) DESC, g.uses DESC, g.uploaded_at DESC LIMIT $2 OFFSET $3",
    );
    Statement::new(t).bind(Param::Texts(patterns_of(terms))).big(limit).big(offset).text(viewer)
}

/// Finds GIFs whose file name matches a query; better matches first.
pub fn search_by_filename(
    query: &str,
    viewer: &str,
    mine: bool,
    grab_nsfw: bool,
    grab_hidden: bool,
    limit: i64,
    offset: i64,
) -> (r: Statement)
    ensures
        r@ == sql(
            "SELECT "@ + GIF_COLS@
                + " FROM gifs WHERE to_tsvector('english', filename) @@ plainto_tsquery('english', $1) AND "@
                + written(browse_filter(mine, grab_nsfw, grab_hidden), "gifs"@, "$4"@)
                + " ORDER BY ts_rank(to_tsvector('english', filename), plainto_tsquery('english', $1)) DESC, uses DESC LIMIT $2 OFFSET $3"@,
            seq![
                txt(query@),
                ParamView::BigInt(limit),
                ParamView::BigInt(offset),
                txt(viewer@),
            ],
        ),
{
    let mut t = "SELECT ".to_owned();
    t.append(GIF_COLS);
    t.append(
        " FROM gifs WHERE to_tsvector('english', filename) @@ plainto_tsquery('english', $1) AND ",
    );
    t.append(browse_filters(mine, grab_nsfw, grab_hidden, "gifs", "$4").as_str());
    t.append(
        " ORDER BY ts_rank(to_tsvector('english', filename), plainto_tsquery('english', $1)) DESC, uses DESC LIMIT $2 OFFSET $3",
    );
    Statement::new(t).text(query).big(limit).big(offset).text(viewer)
}

/// A page of the GIFs that a viewer browses, in the given order.
pub open spec fn browsing(
    viewer: Seq<char>,
    mine: bool,
    grab_nsfw: bool,
    grab_hidden: bool,
    order: Seq<char>,
    limit: i64,
    offset: i64,
) -> StatementView {
    sql(
        "SELECT "@ + GIF_COLS@ + " FROM gifs WHERE "@ + written(
            browse_filter(mine, grab_nsfw, grab_hidden),
            "gifs"@,
            "$3"@,
        ) + " ORDER BY "@ + order + " LIMIT $1 OFFSET $2"@,
        seq![ParamView::BigInt(limit), ParamView::BigInt(offset), txt(viewer)],
    )
}

/// Two listings of what a viewer browses differ in their order alone.
pub proof fn law_listings_differ_in_order_alone(
    viewer: Seq<char>,
    mine: bool,
    grab_nsfw: bool,
    grab_hidden: bool,
    order: Seq<char>,
    other: Seq<char>,
    limit: i64,
    offset: i64,
)
    ensures
        ({
            let a = browsing(viewer, mine, grab_nsfw, grab_hidden, order, limit, offset);
            let b = browsing(viewer, mine, grab_nsfw, grab_hidden, other, limit, offset);
            let chosen = "SELECT "@ + GIF_COLS@ + " FROM gifs WHERE "@ + written(
                browse_filter(mine, grab_nsfw, grab_hidden),
                "gifs"@,
                "$3"@,
            ) + " ORDER BY "@;
            &&& a.text == chosen + order + " LIMIT $1 OFFSET $2"@
            &&& b.text == chosen + other + " LIMIT $1 OFFSET $2"@
            &&& a.params == b.params
        }),
{
}

fn browse(
    viewer: &str,
    mine: bool,
    grab_nsfw: bool,
    grab_hidden: bool,
    order: &str,
    limit: i64,
    offset: i64,
) -> (r: Statement)
    ensures
        r@ == browsing(viewer@, mine, grab_nsfw, grab_hidden, order@, limit, offset),
{
    let mut t = "SELECT ".to_owned();
    t.append(GIF_COLS);
    t.append(" FROM gifs WHERE ");
    t.append(browse_filters(mine, grab_nsfw, grab_hidden, "gifs", "$3").as_str());
    t.append(" ORDER BY ");
    t.append(order);
    t.append(" LIMIT $1 OFFSET $2");
    Statement::new(t).big(limit).big(offset).text(viewer)
}

/// Lists GIFs, the most used first.
pub fn list_featured(
    viewer: &str,
    mine: bool,
    grab_nsfw: bool,
    grab_hidden: bool,
    limit: i64,
    offset: i64,
) -> (r: Statement)
    ensures
        r@ == browsing(
            viewer@,
            mine,
            grab_nsfw,
            grab_hidden,
            "uses DESC, uploaded_at DESC"@,
            limit,
            offset,
        ),
{
    browse(viewer, mine, grab_nsfw, grab_hidden, "uses DESC, uploaded_at DESC", limit, offset)
}

/// Lists the same GIFs as [`list_featured`], shuffled: ordered by a hash of the seed and each
/// GIF's id, so that one seed gives one order, page after page.
pub fn list_featured_random(
    viewer: &str,
    mine: bool,
    grab_nsfw: bool,
    grab_hidden: bool,
    limit: i64,
    offset: i64,
    seed: i64,
) -> (r: Statement)
    ensures
        ({
            let page = browsing(
                viewer@,
                mine,
                grab_nsfw,
                grab_hidden,
                "md5($4::text || id)"@,
                limit,
                offset,
            );
            r@ == sql(page.text, page.params.push(ParamView::BigInt(seed)))
        }),
{
    browse(viewer, mine, grab_nsfw, grab_hidden, "md5($4::text || id)", limit, offset).big(seed)
}

/// Lists GIFs, the newest first.
pub fn list_recent(
    viewer: &str,
    mine: bool,
    grab_nsfw: bool,
    grab_hidden: bool,
    limit: i64,
    offset: i64,
) -> (r: Statement)
    ensures
        r@ == browsing(
            viewer@,
            mine,
            grab_nsfw,
            grab_hidden,
            "uploaded_at DESC"@,
            limit,
            offset,
        ),
{
    browse(viewer, mine, grab_nsfw, grab_hidden, "uploaded_at DESC", limit, offset)
}

/// Completes a tag: finds tags that begin with `prefix`, the most frequent first. Only tags of
/// shared GIFs count, and unless `grab_nsfw` only those of GIFs that are not NSFW.
pub fn suggest_tags(prefix: &str, grab_nsfw: bool, limit: i64) -> (r: Statement)
    ensures
        r@ == sql(
            "SELECT t.tag FROM tags t JOIN gifs g ON g.id = t.gif_id WHERE t.tag LIKE $1 AND "@
                + written(suggest_filter(grab_nsfw), "g"@, "$3"@)
                + " GROUP BY t.tag ORDER BY COUNT(*) DESC LIMIT $2"@,
            seq![txt(prefix_pattern(prefix@)), ParamView::BigInt(limit)],
        ),
{
    let mut f = "g".to_owned();
    f.append(".visibility = 'shared'");
    if !grab_nsfw {
        let mut nsfw = "g".to_owned();
        nsfw.append(".is_nsfw");
        let mut not_nsfw = "NOT ".to_owned();
        not_nsfw.append(nsfw.as_str());
        f.append(" AND ");
        f.append(not_nsfw.as_str());
    }
    proof {
        reveal_with_fuel(written, 3);
    }
    let mut t =
        "SELECT t.tag FROM tags t JOIN gifs g ON g.id = t.gif_id WHERE t.tag LIKE $1 AND ".to_owned();
    t.append(f.as_str());
    t.append(" GROUP BY t.tag ORDER BY COUNT(*) DESC LIMIT $2");
    let pattern = like_prefix(prefix);
    Statement::new(t).text(pattern.as_str()).big(limit)
}

/// Puts a GIF among a user's favorites; once it is there, nothing changes.
pub fn add_favorite(mxid: &str, gif_id: &str) -> (r: Statement)
    ensures
        r@ == sql(
            "INSERT INTO favorites (mxid, gif_id) VALUES ($1, $2) ON CONFLICT DO NOTHING"@,
            seq![txt(mxid@), txt(gif_id@)],
        ),
{
    Statement::new(
        "INSERT INTO favorites (mxid, gif_id) VALUES ($1, $2) ON CONFLICT DO NOTHING".to_owned(),
    ).text(mxid).text(gif_id)
}

/// Takes a GIF from a user's favorites.
pub fn remove_favorite(mxid: &str, gif_id: &str) -> (r: Statement)
    ensures
        r@ == sql(
            "DELETE FROM favorites WHERE mxid = $1 AND gif_id = $2"@,
            seq![txt(mxid@), txt(gif_id@)],
        ),
{
    Statement::new("DELETE FROM favorites WHERE mxid = $1 AND gif_id = $2".to_owned()).text(
        mxid,
    ).text(gif_id)
}

/// Hides a GIF from a user's browsing; once it is hidden, nothing changes.
pub fn add_hidden(mxid: &str, gif_id: &str) -> (r: Statement)
    ensures
        r@ == sql(
            "INSERT INTO hidden (mxid, gif_id) VALUES ($1, $2) ON CONFLICT DO NOTHING"@,
            seq![txt(mxid@), txt(gif_id@)],
        ),
{
    Statement::new(
        "INSERT INTO hidden (mxid, gif_id) VALUES ($1, $2) ON CONFLICT DO NOTHING".to_owned(),
    ).text(mxid).text(gif_id)
}

/// Shows a hidden GIF again.
pub fn remove_hidden(mxid: &str, gif_id: &str) -> (r: Statement)
    ensures
        r@ == sql(
            "DELETE FROM hidden WHERE mxid = $1 AND gif_id = $2"@,
            seq![txt(mxid@), txt(gif_id@)],
        ),
{
    Statement::new("DELETE FROM hidden WHERE mxid = $1 AND gif_id = $2".to_owned()).text(mxid).text(
        gif_id,
    )
}

/// A page of the GIFs that a user has put into a list of their own.
pub open spec fn listing(
    table: Seq<char>,
    owner: Seq<char>,
    order: Seq<char>,
    viewer: Seq<char>,
    grab_nsfw: bool,
    limit: i64,
    offset: i64,
) -> StatementView {
    sql(
        "SELECT "@ + G_COLS@ + " FROM gifs g JOIN "@ + table + " WHERE "@ + owner + " = $3 AND "@
            + written(list_filter(false, grab_nsfw), "g"@, "$3"@) + " ORDER BY "@ + order
            + " DESC LIMIT $1 OFFSET $2"@,
        seq![ParamView::BigInt(limit), ParamView::BigInt(offset), txt(viewer)],
    )
}

fn list_own(
    table: &str,
    owner: &str,
    order: &str,
    viewer: &str,
    grab_nsfw: bool,
    limit: i64,
    offset: i64,
) -> (r: Statement)
    ensures
        r@ == listing(table@, owner@, order@, viewer@, grab_nsfw, limit, offset),
{
    let mut t = "SELECT ".to_owned();
    t.append(G_COLS);
    t.append(" FROM gifs g JOIN ");
    t.append(table);
    t.append(" WHERE ");
    t.append(owner);
    t.append(" = $3 AND ");
    t.append(list_filters(false, grab_nsfw, "g", "$3").as_str());
    t.append(" ORDER BY ");
    t.append(order);
    t.append(" DESC LIMIT $1 OFFSET $2");
    Statement::new(t).big(limit).big(offset).text(viewer)
}

/// Lists a user's favorites, the newest first.
pub fn list_favorites(viewer: &str, grab_nsfw: bool, limit: i64, offset: i64) -> (r: Statement)
    ensures
        r@ == listing(
            "favorites f ON f.gif_id = g.id"@,
            "f.mxid"@,
            "f.created_at"@,
            viewer@,
            grab_nsfw,
            limit,
            offset,
        ),
{
    list_own(
        "favorites f ON f.gif_id = g.id",
        "f.mxid",
        "f.created_at",
        viewer,
        grab_nsfw,
        limit,
        offset,
    )
}

/// Lists what a user has hidden, the newest first. This is where hidden GIFs are shown again, so
/// hiding does not count here; visibility does.
pub fn list_hidden(viewer: &str, grab_nsfw: bool, limit: i64, offset: i64) -> (r: Statement)
    ensures
        r@ == listing(
            "hidden hd ON hd.gif_id = g.id"@,
            "hd.mxid"@,
            "hd.created_at"@,
            viewer@,
            grab_nsfw,
            limit,
            offset,
        ),
{
    list_own(
        "hidden hd ON hd.gif_id = g.id",
        "hd.mxid",
        "hd.created_at",
        viewer,
        grab_nsfw,
        limit,
        offset,
    )
}

/// Lists what a user has selected, the most recently used first.
pub fn list_history(viewer: &str, grab_nsfw: bool, limit: i64, offset: i64) -> (r: Statement)
    ensures
        r@ == listing(
            "selections s ON s.gif_id = g.id"@,
            "s.mxid"@,
            "s.used_at"@,
            viewer@,
            grab_nsfw,
            limit,
            offset,
        ),
{
    list_own(
        "selections s ON s.gif_id = g.id",
        "s.mxid",
        "s.used_at",
        viewer,
        grab_nsfw,
        limit,
        offset,
    )
}

/// A GIF to be stored, and the caps that it must keep to.
pub struct InsertOrder {
    pub id: String,
    pub filename: String,
    pub hash: String,
    pub uploader_id: String,
    pub visibility: String,
    pub is_nsfw: bool,
    pub frame_count: i32,
    pub duration_ms: i32,
    pub renditions: Vec<RenditionSpec>,
    pub tags: Vec<String>,
    pub global_max: u64,
    pub per_user_max: u64,
}

/// The bytes that renditions take together.
pub open spec fn total_size(renditions: Seq<RenditionSpec>) -> int
    decreases renditions.len(),
{
    if renditions.len() == 0 {
        0
    } else {
        total_size(renditions.drop_last()) + renditions.last().size_bytes
    }
}

fn sum_sizes(renditions: &Vec<RenditionSpec>) -> (r: i64)
    requires
        renditions@.len() <= u32::MAX,
    ensures
        r == total_size(renditions@),
{
    let mut sum: i64 = 0;
    let mut i: usize = 0;
    while i < renditions.len()
        invariant
            i <= renditions@.len() <= u32::MAX,
            sum == total_size(renditions@.take(i as int)),
            -0x8000_0000 * i <= sum <= 0x7fff_ffff * i,
        decreases renditions@.len() - i,
    {
        assert(renditions@.take(i + 1).drop_last() == renditions@.take(i as int));
        sum = sum + renditions[i].size_bytes as i64;
        i = i + 1;
    }
    assert(renditions@.take(renditions@.len() as int) == renditions@);
    sum
}

/// A signed total read as unsigned: a negative one is larger than any count of bytes.
pub open spec fn unsigned(total: int) -> int {
    if total >= 0 {
        total
    } else {
        total + 0x1_0000_0000_0000_0000
    }
}

/// The total is over the cap.
pub open spec fn exceeds(total: int, cap: u64) -> bool {
    unsigned(total) > cap
}

fn over_cap(total: i64, cap: u64) -> (r: bool)
    ensures
        r == exceeds(total as int, cap),
{
    if total >= 0 {
        total as u64 > cap
    } else {
        (total as i128 + 0x1_0000_0000_0000_0000) as u64 > cap
    }
}

/// Whether the bytes on disk differ from those that the database knows of.
pub fn storage_differs(on_disk: u64, in_db: i64) -> (r: bool)
    ensures
        r == (on_disk != unsigned(in_db as int)),
{
    if in_db >= 0 {
        on_disk != in_db as u64
    } else {
        on_disk != (in_db as i128 + 0x1_0000_0000_0000_0000) as u64
    }
}

/// Where the storing of a GIF stands: what is to be found out or done next.
pub enum InsertStep {
    /// Take the lock, and see whether the uploader has the file already.
    Lookup,
    /// Sum the bytes of all renditions.
    SumAll,
    /// Sum the bytes of the uploader's renditions.
    SumUploader,
    /// Insert the GIF with its renditions and tags, and commit.
    Write,
    Finished(UploadOutcome),
}

/// What came of a step.
pub enum InsertEvent {
    Found(Option<Gif>),
    GlobalTotal(i64),
    UserTotal(i64),
    Stored(Gif),
}

/// The event is the outcome of the step, and a total can be added to.
pub open spec fn insert_fits(order: InsertOrder, step: InsertStep, event: InsertEvent) -> bool {
    match (step, event) {
        (InsertStep::Lookup, InsertEvent::Found(_)) => true,
        (InsertStep::SumAll, InsertEvent::GlobalTotal(total)) => i64::MIN <= total + total_size(
            order.renditions@,
        ) <= i64::MAX,
        (InsertStep::SumUploader, InsertEvent::UserTotal(total)) => i64::MIN <= total + total_size(
            order.renditions@,
        ) <= i64::MAX,
        (InsertStep::Write, InsertEvent::Stored(_)) => true,
        _ => false,
    }
}

/// The step that follows.
pub open spec fn after_insert(order: InsertOrder, event: InsertEvent) -> InsertStep {
    match event {
        InsertEvent::Found(Some(existing)) => InsertStep::Finished(
            UploadOutcome::Duplicate(existing),
        ),
        InsertEvent::Found(None) => InsertStep::SumAll,
        InsertEvent::GlobalTotal(total) => if exceeds(
            total + total_size(order.renditions@),
            order.global_max,
        ) {
            InsertStep::Finished(UploadOutcome::QuotaExceeded)
        } else {
            InsertStep::SumUploader
        },
        InsertEvent::UserTotal(total) => if exceeds(
            total + total_size(order.renditions@),
            order.per_user_max,
        ) {
            InsertStep::Finished(UploadOutcome::QuotaExceeded)
        } else {
            InsertStep::Write
        },
        InsertEvent::Stored(gif) => InsertStep::Finished(UploadOutcome::Inserted(gif)),
    }
}

/// Goes on with storing a GIF: from a step and what came of it to the next step. All steps run in
/// one transaction under one lock, so that concurrent uploads cannot pass a cap together; only a
/// transaction that reaches `Inserted` is committed.
pub fn insert_gif_quota(order: &InsertOrder, step: InsertStep, event: InsertEvent) -> (r: InsertStep)
    requires
        order.renditions@.len() <= u32::MAX,
        insert_fits(*order, step, event),
    ensures
        r == after_insert(*order, event),
{
    match event {
        InsertEvent::Found(Some(existing)) => InsertStep::Finished(
            UploadOutcome::Duplicate(existing),
        ),
        InsertEvent::Found(None) => InsertStep::SumAll,
        InsertEvent::GlobalTotal(total) => {
            if over_cap(total + sum_sizes(&order.renditions), order.global_max) {
                InsertStep::Finished(UploadOutcome::QuotaExceeded)
            } else {
                InsertStep::SumUploader
            }
        },
        InsertEvent::UserTotal(total) => {
            if over_cap(total + sum_sizes(&order.renditions), order.per_user_max) {
                InsertStep::Finished(UploadOutcome::QuotaExceeded)
            } else {
                InsertStep::Write
            }
        },
        InsertEvent::Stored(gif) => InsertStep::Finished(UploadOutcome::Inserted(gif)),
    }
}

/// The lock that serializes the accounting.
pub open spec fn lock_statement() -> StatementView {
    sql("SELECT pg_advisory_xact_lock($1)"@, seq![ParamView::BigInt(UPLOAD_LOCK_ID)])
}

/// The sum of all renditions' bytes.
pub open spec fn global_total() -> StatementView {
    sql("SELECT COALESCE(SUM(size_bytes), 0)::BIGINT FROM gif_renditions"@, Seq::empty())
}

/// The sum of one uploader's bytes.
pub open spec fn user_total(uploader: Seq<char>) -> StatementView {
    sql(
        "SELECT COALESCE(SUM(r.size_bytes),0)::BIGINT FROM gif_renditions r JOIN gifs g ON g.id = r.gif_id WHERE g.uploader_id = $1"@,
        seq![txt(uploader)],
    )
}

fn lock() -> (r: Statement)
    ensures
        r@ == lock_statement(),
{
    Statement::new("SELECT pg_advisory_xact_lock($1)".to_owned()).big(UPLOAD_LOCK_ID)
}

fn sum_of_uploader(uploader: &str) -> (r: Statement)
    ensures
        r@ == user_total(uploader@),
{
    Statement::new(
        "SELECT COALESCE(SUM(r.size_bytes),0)::BIGINT FROM gif_renditions r JOIN gifs g ON g.id = r.gif_id WHERE g.uploader_id = $1".to_owned(),
    ).text(uploader)
}

/// The row of a new rendition.
pub open spec fn rendition_insert(id: Seq<char>, r: RenditionSpec) -> StatementView {
    sql(
        "INSERT INTO gif_renditions (gif_id, rendition, filename, width, height, size_bytes) VALUES ($1, $2, $3, $4, $5, $6)"@,
        seq![
            txt(id),
            txt(r.rendition@),
            txt(r.filename@),
            ParamView::Int(r.width),
            ParamView::Int(r.height),
            ParamView::Int(r.size_bytes),
        ],
    )
}

/// The rows of new renditions, in order.
pub open spec fn rendition_inserts(id: Seq<char>, renditions: Seq<RenditionSpec>) -> Seq<
    StatementView,
> {
    renditions.map_values(|r: RenditionSpec| rendition_insert(id, r))
}

/// The row of a new GIF, which is given back.
pub open spec fn gif_insert(order: InsertOrder) -> StatementView {
    sql(
        "INSERT INTO gifs (id, filename, hash, uploader_id, visibility, is_nsfw, frame_count, duration_ms) VALUES ($1, $2, $3, $4, $5, $6, $7, $8) RETURNING "@
            + GIF_COLS@,
        seq![
            txt(order.id@),
            txt(order.filename@),
            txt(order.hash@),
            txt(order.uploader_id@),
            txt(order.visibility@),
            ParamView::Bool(order.is_nsfw),
            ParamView::Int(order.frame_count),
            ParamView::Int(order.duration_ms),
        ],
    )
}

/// What storing a GIF writes: its row, then its renditions and its tags.
pub open spec fn insert_writes(order: InsertOrder) -> Seq<StatementView> {
    seq![gif_insert(order)] + rendition_inserts(order.id@, order.renditions@) + per_tag(
        "INSERT INTO tags (gif_id, tag) VALUES ($1, $2) ON CONFLICT DO NOTHING"@,
        order.id@,
        texts(order.tags@),
    )
}

/// The statements of a step.
pub open spec fn insert_statements_of(order: InsertOrder, step: InsertStep) -> Seq<StatementView> {
    match step {
        InsertStep::Lookup => seq![
            lock_statement(),
            find_own(order.uploader_id@, order.hash@),
        ],
        InsertStep::SumAll => seq![global_total()],
        InsertStep::SumUploader => seq![user_total(order.uploader_id@)],
        InsertStep::Write => insert_writes(order),
        InsertStep::Finished(_) => Seq::empty(),
    }
}

fn store_renditions(id: &str, renditions: &Vec<RenditionSpec>) -> (r: Vec<Statement>)
    ensures
        statements(r@) == rendition_inserts(id@, renditions@),
{
    let mut r: Vec<Statement> = Vec::new();
    let mut i: usize = 0;
    let ghost all = rendition_inserts(id@, renditions@);
    assert(statements(r@) == all.take(0));
    while i < renditions.len()
        invariant
            i <= renditions@.len(),
            all == rendition_inserts(id@, renditions@),
            statements(r@) == all.take(i as int),
        decreases renditions@.len() - i,
    {
        let ghost before = r@;
        let one = &renditions[i];
        let s = Statement::new(
            "INSERT INTO gif_renditions (gif_id, rendition, filename, width, height, size_bytes) VALUES ($1, $2, $3, $4, $5, $6)".to_owned(),
        ).text(id).text(one.rendition).text(one.filename.as_str()).small(one.width).small(
            one.height,
        ).small(one.size_bytes);
        proof {
            assert(s@ == all[i as int]);
            assert(all.take(i + 1) == all.take(i as int).push(s@));
        }
        r.push(s);
        assert(statements(r@) == statements(before).push(s@));
        i = i + 1;
    }
    assert(all.take(all.len() as int) == all);
    r
}

/// The statements that a step of [`insert_gif_quota`] runs, in order.
pub fn insert_statements(order: &InsertOrder, step: &InsertStep) -> (r: Vec<Statement>)
    ensures
        statements(r@) == insert_statements_of(*order, *step),
{
    match step {
        InsertStep::Lookup => {
            let find = get_gif_by_hash_for_uploader(
                order.hash.as_str(),
                order.uploader_id.as_str(),
            );
            let r = vec![lock(), find];
            assert(statements(r@) == seq![lock_statement(), find@]);
            r
        },
        InsertStep::SumAll => {
            let r = vec![total_storage_bytes()];
            assert(statements(r@) == seq![global_total()]);
            r
        },
        InsertStep::SumUploader => {
            let r = vec![sum_of_uploader(order.uploader_id.as_str())];
            assert(statements(r@) == seq![user_total(order.uploader_id@)]);
            r
        },
        InsertStep::Write => {
            let id = order.id.as_str();
            let mut t =
                "INSERT INTO gifs (id, filename, hash, uploader_id, visibility, is_nsfw, frame_count, duration_ms) VALUES ($1, $2, $3, $4, $5, $6, $7, $8) RETURNING ".to_owned();
            t.append(GIF_COLS);
            let row = Statement::new(t).text(id).text(order.filename.as_str()).text(
                order.hash.as_str(),
            ).text(order.uploader_id.as_str()).text(order.visibility.as_str()).flag(
                order.is_nsfw,
            ).small(order.frame_count).small(order.duration_ms);
            assert(row@ == gif_insert(*order));
            let mut renditions = store_renditions(id, &order.renditions);
            let mut tags = add_tags(id, &order.tags);
            let ghost second = renditions@;
            let ghost third = tags@;
            let mut r = vec![row];
            r.append(&mut renditions);
            r.append(&mut tags);
            assert(statements(r@) == seq![row@] + statements(second) + statements(third));
            r
        },
        InsertStep::Finished(_) => {
            let r: Vec<Statement> = Vec::new();
            assert(statements(r@) == Seq::<StatementView>::empty());
            r
        },
    }
}

/// New content for a stored GIF, and the caps that it must keep to.
pub struct ReplaceOrder {
    pub id: String,
    pub uploader_id: String,
    pub filename: String,
    pub hash: String,
    pub frame_count: i32,
    pub duration_ms: i32,
    pub renditions: Vec<RenditionSpec>,
    pub global_max: u64,
    pub per_user_max: u64,
}

/// Where the replacing of a GIF's content stands.
pub enum ReplaceStep {
    /// Take the lock, and see whether the uploader has the content in another GIF.
    Lookup,
    /// Sum the bytes that the GIF occupies so far.
    SumOld,
    /// Sum the bytes of all renditions.
    SumAll { old_total: i64 },
    /// Sum the bytes of the uploader's renditions.
    SumUploader { old_total: i64 },
    /// Update the GIF and its renditions, and commit.
    Write,
    Finished(ReplaceOutcome),
}

/// What came of a step.
pub enum ReplaceEvent {
    Found(Option<Gif>),
    OldTotal(i64),
    GlobalTotal(i64),
    UserTotal(i64),
    Stored(Gif),
}

/// The total once the old bytes are gone and the new ones are there.
pub open spec fn net_total(order: ReplaceOrder, old_total: i64, total: i64) -> int {
    total - old_total + total_size(order.renditions@)
}

/// The event is the outcome of the step, and totals can be set off against each other.
pub open spec fn replace_fits(order: ReplaceOrder, step: ReplaceStep, event: ReplaceEvent) -> bool {
    match (step, event) {
        (ReplaceStep::Lookup, ReplaceEvent::Found(_)) => true,
        (ReplaceStep::SumOld, ReplaceEvent::OldTotal(_)) => true,
        (ReplaceStep::SumAll { old_total }, ReplaceEvent::GlobalTotal(total)) => {
            &&& i64::MIN <= total - old_total <= i64::MAX
            &&& i64::MIN <= net_total(order, old_total, total) <= i64::MAX
        },
        (ReplaceStep::SumUploader { old_total }, ReplaceEvent::UserTotal(total)) => {
            &&& i64::MIN <= total - old_total <= i64::MAX
            &&& i64::MIN <= net_total(order, old_total, total) <= i64::MAX
        },
        (ReplaceStep::Write, ReplaceEvent::Stored(_)) => true,
        _ => false,
    }
}

/// The step that follows.
pub open spec fn after_replace(
    order: ReplaceOrder,
    step: ReplaceStep,
    event: ReplaceEvent,
) -> ReplaceStep {
    match (step, event) {
        (_, ReplaceEvent::Found(existing)) => if existing is Some {
            ReplaceStep::Finished(ReplaceOutcome::Duplicate)
        } else {
            ReplaceStep::SumOld
        },
        (_, ReplaceEvent::OldTotal(old_total)) => ReplaceStep::SumAll { old_total },
        (ReplaceStep::SumAll { old_total }, ReplaceEvent::GlobalTotal(total)) => if exceeds(
            net_total(order, old_total, total),
            order.global_max,
        ) {
            ReplaceStep::Finished(ReplaceOutcome::QuotaExceeded)
        } else {
            ReplaceStep::SumUploader { old_total }
        },
        (ReplaceStep::SumUploader { old_total }, ReplaceEvent::UserTotal(total)) => if exceeds(
            net_total(order, old_total, total),
            order.per_user_max,
        ) {
            ReplaceStep::Finished(ReplaceOutcome::QuotaExceeded)
        } else {
            ReplaceStep::Write
        },
        (_, ReplaceEvent::Stored(gif)) => ReplaceStep::Finished(ReplaceOutcome::Updated(gif)),
        _ => step,
    }
}

/// Goes on with replacing a GIF's content: from a step and what came of it to the next step. The
/// caps are held against the difference that the replacement makes, under the lock that uploads
/// take too.
pub fn replace_gif_quota(order: &ReplaceOrder, step: ReplaceStep, event: ReplaceEvent) -> (r:
    ReplaceStep)
    requires
        order.renditions@.len() <= u32::MAX,
        replace_fits(*order, step, event),
    ensures
        r == after_replace(*order, step, event),
{
    match (step, event) {
        (_, ReplaceEvent::Found(existing)) => {
            if existing.is_some() {
                ReplaceStep::Finished(ReplaceOutcome::Duplicate)
            } else {
                ReplaceStep::SumOld
            }
        },
        (_, ReplaceEvent::OldTotal(old_total)) => ReplaceStep::SumAll { old_total },
        (ReplaceStep::SumAll { old_total }, ReplaceEvent::GlobalTotal(total)) => {
            if over_cap(total - old_total + sum_sizes(&order.renditions), order.global_max) {
                ReplaceStep::Finished(ReplaceOutcome::QuotaExceeded)
            } else {
                ReplaceStep::SumUploader { old_total }
            }
        },
        (ReplaceStep::SumUploader { old_total }, ReplaceEvent::UserTotal(total)) => {
            if over_cap(total - old_total + sum_sizes(&order.renditions), order.per_user_max) {
                ReplaceStep::Finished(ReplaceOutcome::QuotaExceeded)
            } else {
                ReplaceStep::Write
            }
        },
        (_, ReplaceEvent::Stored(gif)) => ReplaceStep::Finished(ReplaceOutcome::Updated(gif)),
        (step, _) => step,
    }
}

/// The new sizes of a rendition.
pub open spec fn rendition_update(id: Seq<char>, r: RenditionSpec) -> StatementView {
    sql(
        "UPDATE gif_renditions SET width = $1, height = $2, size_bytes = $3 WHERE gif_id = $4 AND rendition = $5"@,
        seq![
            ParamView::Int(r.width),
            ParamView::Int(r.height),
            ParamView::Int(r.size_bytes),
            txt(id),
            txt(r.rendition@),
        ],
    )
}

/// The new sizes of renditions, in order.
pub open spec fn rendition_updates(id: Seq<char>, renditions: Seq<RenditionSpec>) -> Seq<
    StatementView,
> {
    renditions.map_values(|r: RenditionSpec| rendition_update(id, r))
}

/// Another GIF of the uploader with the new content.
pub open spec fn find_other(order: ReplaceOrder) -> StatementView {
    sql(
        "SELECT "@ + GIF_COLS@ + " FROM gifs WHERE uploader_id = $1 AND hash = $2 AND id <> $3"@,
        seq![txt(order.uploader_id@), txt(order.hash@), txt(order.id@)],
    )
}

/// The new row of a GIF, which is given back.
pub open spec fn gif_update(order: ReplaceOrder) -> StatementView {
    sql(
        "UPDATE gifs SET filename = $1, hash = $2, frame_count = $3, duration_ms = $4 WHERE id = $5 RETURNING "@
            + GIF_COLS@,
        seq![
            txt(order.filename@),
            txt(order.hash@),
            ParamView::Int(order.frame_count),
            ParamView::Int(order.duration_ms),
            txt(order.id@),
        ],
    )
}

/// What replacing a GIF's content writes: its row, then its renditions.
pub open spec fn replace_writes(order: ReplaceOrder) -> Seq<StatementView> {
    seq![gif_update(order)] + rendition_updates(order.id@, order.renditions@)
}

/// The statements of a step.
pub open spec fn replace_statements_of(order: ReplaceOrder, step: ReplaceStep) -> Seq<
    StatementView,
> {
    match step {
        ReplaceStep::Lookup => seq![lock_statement(), find_other(order)],
        ReplaceStep::SumOld => seq![
            sql(
                "SELECT COALESCE(SUM(size_bytes),0)::BIGINT FROM gif_renditions WHERE gif_id = $1"@,
                seq![txt(order.id@)],
            ),
        ],
        ReplaceStep::SumAll { .. } => seq![global_total()],
        ReplaceStep::SumUploader { .. } => seq![user_total(order.uploader_id@)],
        ReplaceStep::Write => replace_writes(order),
        ReplaceStep::Finished(_) => Seq::empty(),
    }
}

fn update_renditions(id: &str, renditions: &Vec<RenditionSpec>) -> (r: Vec<Statement>)
    ensures
        statements(r@) == rendition_updates(id@, renditions@),
{
    let mut r: Vec<Statement> = Vec::new();
    let mut i: usize = 0;
    let ghost all = rendition_updates(id@, renditions@);
    assert(statements(r@) == all.take(0));
    while i < renditions.len()
        invariant
            i <= renditions@.len(),
            all == rendition_updates(id@, renditions@),
            statements(r@) == all.take(i as int),
        decreases renditions@.len() - i,
    {
        let ghost before = r@;
        let one = &renditions[i];
        let s = Statement::new(
            "UPDATE gif_renditions SET width = $1, height = $2, size_bytes = $3 WHERE gif_id = $4 AND rendition = $5".to_owned(),
        ).small(one.width).small(one.height).small(one.size_bytes).text(id).text(one.rendition);
        proof {
            assert(s@ == all[i as int]);
            assert(all.take(i + 1) == all.take(i as int).push(s@));
        }
        r.push(s);
        assert(statements(r@) == statements(before).push(s@));
        i = i + 1;
    }
    assert(all.take(all.len() as int) == all);
    r
}

/// The statements that a step of [`replace_gif_quota`] runs, in order.
pub fn replace_statements(order: &ReplaceOrder, step: &ReplaceStep) -> (r: Vec<Statement>)
    ensures
        statements(r@) == replace_statements_of(*order, *step),
{
    match step {
        ReplaceStep::Lookup => {
            let mut t = "SELECT ".to_owned();
            t.append(GIF_COLS);
            t.append(" FROM gifs WHERE uploader_id = $1 AND hash = $2 AND id <> $3");
            let find = Statement::new(t).text(order.uploader_id.as_str()).text(
                order.hash.as_str(),
            ).text(order.id.as_str());
            assert(find@ == find_other(*order));
            let r = vec![lock(), find];
            assert(statements(r@) == seq![lock_statement(), find@]);
            r
        },
        ReplaceStep::SumOld => {
            let sum = Statement::new(
                "SELECT COALESCE(SUM(size_bytes),0)::BIGINT FROM gif_renditions WHERE gif_id = $1".to_owned(),
            ).text(order.id.as_str());
            let r = vec![sum];
            assert(statements(r@) == seq![sum@]);
            r
        },
        ReplaceStep::SumAll { .. } => {
            let r = vec![total_storage_bytes()];
            assert(statements(r@) == seq![global_total()]);
            r
        },
        ReplaceStep::SumUploader { .. } => {
            let r = vec![sum_of_uploader(order.uploader_id.as_str())];
            assert(statements(r@) == seq![user_total(order.uploader_id@)]);
            r
        },
        ReplaceStep::Write => {
            let id = order.id.as_str();
            let mut t =
                "UPDATE gifs SET filename = $1, hash = $2, frame_count = $3, duration_ms = $4 WHERE id = $5 RETURNING ".to_owned();
            t.append(GIF_COLS);
            let row = Statement::new(t).text(order.filename.as_str()).text(
                order.hash.as_str(),
            ).small(order.frame_count).small(order.duration_ms).text(id);
            assert(row@ == gif_update(*order));
            let mut renditions = update_renditions(id, &order.renditions);
            let ghost second = renditions@;
            let mut r = vec![row];
            r.append(&mut renditions);
            assert(statements(r@) == seq![row@] + statements(second));
            r
        },
        ReplaceStep::Finished(_) => {
            let r: Vec<Statement> = Vec::new();
            assert(statements(r@) == Seq::<StatementView>::empty());
            r
        },
    }
}

/// Where the recording of a selection stands.
pub enum SelectionStep {
    /// Record the user's first selection of the GIF, unless there is one already.
    Insert,
    /// Refresh the time of the recorded selection, and say whether a day had passed since it.
    Refresh,
    /// Whether the selection counts as a use of the GIF.
    Finished(bool),
}

/// What came of a step.
pub enum SelectionEvent {
    /// How many rows were inserted.
    Created(u64),
    /// Whether the recorded selection was at least a day old.
    Stale(bool),
}

/// The event is the outcome of the step.
pub open spec fn selection_fits(step: SelectionStep, event: SelectionEvent) -> bool {
    (step is Insert && event is Created) || (step is Refresh && event is Stale)
}

/// The step that follows.
pub open spec fn after_selection(event: SelectionEvent) -> SelectionStep {
    match event {
        SelectionEvent::Created(rows) => if rows == 1 {
            SelectionStep::Finished(true)
        } else {
            SelectionStep::Refresh
        },
        SelectionEvent::Stale(stale) => SelectionStep::Finished(stale),
    }
}

/// Goes on with recording that a user selected a GIF. A selection counts as a use where it is the
/// user's first of this GIF, or a day after the one recorded, so that selecting again and again
/// does not raise a GIF's rank.
pub fn record_selection(step: SelectionStep, event: SelectionEvent) -> (r: SelectionStep)
    requires
        selection_fits(step, event),
    ensures
        r == after_selection(event),
{
    match event {
        SelectionEvent::Created(rows) => {
            if rows == 1 {
                SelectionStep::Finished(true)
            } else {
                SelectionStep::Refresh
            }
        },
        SelectionEvent::Stale(stale) => SelectionStep::Finished(stale),
    }
}

/// The statement of a step.
pub open spec fn selection_statement_of(
    step: SelectionStep,
    mxid: Seq<char>,
    gif_id: Seq<char>,
) -> Option<StatementView> {
    match step {
        SelectionStep::Insert => Some(
            sql(
                "INSERT INTO selections (mxid, gif_id, used_at) VALUES ($1, $2, now()) ON CONFLICT (mxid, gif_id) DO NOTHING"@,
                seq![txt(mxid), txt(gif_id)],
            ),
        ),
        SelectionStep::Refresh => Some(
            sql(
                "WITH cur AS (SELECT used_at <= now() - interval '1 day' AS stale FROM selections WHERE mxid = $1 AND gif_id = $2 FOR UPDATE), upd AS (UPDATE selections SET used_at = now() WHERE mxid = $1 AND gif_id = $2) SELECT stale FROM cur"@,
                seq![txt(mxid), txt(gif_id)],
            ),
        ),
        SelectionStep::Finished(_) => None,
    }
}

/// The statement that a step of [`record_selection`] runs.
pub fn selection_statement(step: &SelectionStep, mxid: &str, gif_id: &str) -> (r: Option<Statement>)
    ensures
        match r {
            Some(s) => selection_statement_of(*step, mxid@, gif_id@) == Some(s@),
            None => selection_statement_of(*step, mxid@, gif_id@) is None,
        },
        step is Insert ==> r is Some && r->0@.text
            == "INSERT INTO selections (mxid, gif_id, used_at) VALUES ($1, $2, now()) ON CONFLICT (mxid, gif_id) DO NOTHING"@,
        step is Refresh ==> r is Some && r->0@.text
            == "WITH cur AS (SELECT used_at <= now() - interval '1 day' AS stale FROM selections WHERE mxid = $1 AND gif_id = $2 FOR UPDATE), upd AS (UPDATE selections SET used_at = now() WHERE mxid = $1 AND gif_id = $2) SELECT stale FROM cur"@,
        r matches Some(s) ==> s@.params == seq![ParamView::Text(mxid@), ParamView::Text(gif_id@)],
        r is None <==> step is Finished,
{
    match step {
        SelectionStep::Insert => Some(
            Statement::new(
                "INSERT INTO selections (mxid, gif_id, used_at) VALUES ($1, $2, now()) ON CONFLICT (mxid, gif_id) DO NOTHING".to_owned(),
            ).text(mxid).text(gif_id),
        ),
        SelectionStep::Refresh => Some(
            Statement::new(
                "WITH cur AS (SELECT used_at <= now() - interval '1 day' AS stale FROM selections WHERE mxid = $1 AND gif_id = $2 FOR UPDATE), upd AS (UPDATE selections SET used_at = now() WHERE mxid = $1 AND gif_id = $2) SELECT stale FROM cur".to_owned(),
            ).text(mxid).text(gif_id),
        ),
        SelectionStep::Finished(_) => None,
    }
}

/// A cap of `u64::MAX` is no cap.
pub proof fn law_largest_cap_is_none(total: int)
    requires
        i64::MIN <= total <= i64::MAX,
    ensures
        !exceeds(total, u64::MAX),
{
}

/// A GIF is stored only where the uploader does not have it already and, with it, neither the
/// total nor the uploader's total passes its cap.
pub proof fn law_storing_keeps_the_caps(
    order: InsertOrder,
    existing: Option<Gif>,
    global: i64,
    user: i64,
)
    requires
        after_insert(order, InsertEvent::Found(existing)) is SumAll,
        after_insert(order, InsertEvent::GlobalTotal(global)) is SumUploader,
        after_insert(order, InsertEvent::UserTotal(user)) is Write,
    ensures
        existing is None,
        global + total_size(order.renditions@) <= order.global_max,
        user + total_size(order.renditions@) <= order.per_user_max,
{
}

/// Only the last step writes, and it is reached through all the others.
pub proof fn law_only_the_last_step_writes(order: InsertOrder, step: InsertStep, event: InsertEvent)
    requires
        insert_fits(order, step, event),
    ensures
        after_insert(order, event) is Write ==> step is SumUploader,
        after_insert(order, event) is SumUploader ==> step is SumAll,
        after_insert(order, event) is SumAll ==> step is Lookup,
        after_insert(order, event) matches InsertStep::Finished(UploadOutcome::Inserted(_))
            ==> step is Write,
        !(after_insert(order, event) is Lookup),
{
}

/// A GIF's content is replaced only where no other GIF of the uploader has it and, once the old
/// bytes are set off, neither the total nor the uploader's total passes its cap.
pub proof fn law_replacing_keeps_the_caps(
    order: ReplaceOrder,
    existing: Option<Gif>,
    old_total: i64,
    global: i64,
    user: i64,
)
    requires
        after_replace(order, ReplaceStep::Lookup, ReplaceEvent::Found(existing)) is SumOld,
        after_replace(
            order,
            ReplaceStep::SumAll { old_total },
            ReplaceEvent::GlobalTotal(global),
        ) is SumUploader,
        after_replace(
            order,
            ReplaceStep::SumUploader { old_total },
            ReplaceEvent::UserTotal(user),
        ) is Write,
    ensures
        existing is None,
        net_total(order, old_total, global) <= order.global_max,
        net_total(order, old_total, user) <= order.per_user_max,
{
}

/// A selection that is neither the first nor a day old does not count.
pub proof fn law_repeated_selection_does_not_count(rows: u64)
    requires
        rows != 1,
    ensures
        after_selection(SelectionEvent::Created(rows)) is Refresh,
        after_selection(SelectionEvent::Stale(false)) == SelectionStep::Finished(false),
        after_selection(SelectionEvent::Stale(true)) == SelectionStep::Finished(true),
{
}

/// A day, in seconds.
pub open spec fn day() -> int {
    86_400
}

/// What a step finds at `now`, where the user's selection of the GIF was last recorded at `prior`:
/// a row is inserted only where there is none, and one is stale a day after its time.
pub open spec fn selection_answer(step: SelectionStep, prior: Option<int>, now: int) -> SelectionEvent {
    match step {
        SelectionStep::Insert => SelectionEvent::Created(
            if prior is None {
                1
            } else {
                0
            },
        ),
        _ => SelectionEvent::Stale(prior is Some && prior->0 <= now - day()),
    }
}

/// Whether a selection at `now` counts as a use.
pub open spec fn selection_counts(prior: Option<int>, now: int) -> bool {
    match after_selection(selection_answer(SelectionStep::Insert, prior, now)) {
        SelectionStep::Finished(counts) => counts,
        step => after_selection(selection_answer(step, prior, now)) == SelectionStep::Finished(true),
    }
}

/// A selection counts where it is the user's first of this GIF, or comes a day after the one
/// recorded.
pub proof fn law_selections_count_once_a_day(prior: Option<int>, now: int)
    ensures
        selection_counts(prior, now) <==> (prior is None || prior->0 <= now - day()),
{
}

/// How many of a user's selections of a GIF count. Each one is recorded in place of the one before,
/// whether it counts or not.
pub open spec fn uses_counted(prior: Option<int>, times: Seq<int>) -> nat
    decreases times.len(),
{
    if times.len() == 0 {
        0
    } else {
        let rest = uses_counted(Some(times[0]), times.drop_first());
        if selection_counts(prior, times[0]) {
            rest + 1
        } else {
            rest
        }
    }
}

/// Times in order, the last less than a day after the first.
pub open spec fn within_a_day(times: Seq<int>) -> bool {
    forall|i: int, j: int|
        0 <= i <= j < times.len() ==> #[trigger] times[i] <= #[trigger] times[j] && times[j]
            < times[i] + day()
}

/// Of a user's selections of a GIF within a day, at most one counts.
pub proof fn law_one_use_within_a_day(prior: Option<int>, times: Seq<int>)
    requires
        within_a_day(times),
    ensures
        uses_counted(prior, times) <= 1,
{
    if times.len() > 0 {
        lemma_no_use_within_a_day(times);
    }
}

/// Of selections within a day only the first can count, and it does unless one was recorded less than
/// a day before it.
pub proof fn lemma_uses_step(prior: Option<int>, times: Seq<int>)
    requires
        times.len() > 0,
        within_a_day(times),
    ensures
        uses_counted(prior, times) == (if prior is None || prior->0 <= times[0] - day() {
            1nat
        } else {
            0nat
        }),
{
    lemma_no_use_within_a_day(times);
}

/// Behind a recorded selection, none within a day counts.
proof fn lemma_no_use_within_a_day(times: Seq<int>)
    requires
        times.len() > 0,
        within_a_day(times),
    ensures
        uses_counted(Some(times[0]), times.drop_first()) == 0,
    decreases times.len(),
{
    let rest = times.drop_first();
    if rest.len() > 0 {
        assert(rest[0] == times[1]);
        assert forall|i: int, j: int| 0 <= i <= j < rest.len() implies #[trigger] rest[i]
            <= #[trigger] rest[j] && rest[j] < rest[i] + day() by {
            assert(rest[i] == times[i + 1] && rest[j] == times[j + 1]);
        }
        lemma_no_use_within_a_day(rest);
        assert(!selection_counts(Some(times[0]), rest[0]));
    }
}

/// A total of bytes is over a cap exactly where it is larger; a negative one counts as its unsigned
/// reading.
pub proof fn law_caps_are_held_against_totals(total: int, cap: u64)
    ensures
        0 <= total ==> (exceeds(total, cap) <==> total > cap),
        total < 0 ==> (exceeds(total, cap) <==> total + 0x1_0000_0000_0000_0000 > cap),
{
}

/// Every rendition counts with its own size.
pub proof fn law_every_rendition_counts(renditions: Seq<RenditionSpec>, r: RenditionSpec)
    ensures
        total_size(Seq::empty()) == 0,
        total_size(renditions.push(r)) == total_size(renditions) + r.size_bytes,
{
    assert(renditions.push(r).drop_last() =~= renditions);
}

} // verus!
