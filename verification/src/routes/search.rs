//! Listing GIFs: search, featured, recent, and the completion of tags.

use vstd::prelude::*;

use crate::auth::AuthUser;
use crate::models::{
    Gif, GifRendition, GifResponse, ListResponse, PaginationParams, SearchParams, SuggestParams,
};
use crate::routes::cursor::{
    cursor_offset, cursor_seed, decode_offset, decode_seeded_offset, encode_offset,
    encode_seeded_offset, fresh_seed, law_plain_cursor_has_no_seed, offset_cursor, seeded_cursor,
};
use crate::routes::upload::{build_renditions_pub, nonempty, renditions_of, tells, to_response};
use crate::storage::db::{self, browsing, term_patterns, txt, GIF_COLS, G_COLS};
use crate::storage::sql::{
    browse_filter, law_conditions_follow_the_flags, lets_through, prefix_pattern, sql,
    suggest_filter, written, Filter, ParamView, Statement, StatementView,
};
use crate::text::{
    contains_text, law_separators_part_pieces, lowercase, pieces, split, texts, white_space,
    Separator,
};

verus! {

/// How many GIFs a page holds where the client does not say.
pub const DEFAULT_LIMIT: i64 = 20;

/// How many GIFs a page holds at most.
pub const MAX_LIMIT: i64 = 50;

/// How many suggestions there are where the client does not say.
pub const DEFAULT_SUGGESTIONS: i64 = 10;

/// How many suggestions there are at most.
pub const MAX_SUGGESTIONS: i64 = 20;

/// What is asked for, or the default, but never more than the maximum.
pub open spec fn limited(asked: Option<i64>, default: i64, max: i64) -> i64 {
    let n = match asked {
        Some(n) => n,
        None => default,
    };
    if n < max {
        n
    } else {
        max
    }
}

fn limit_of(asked: Option<i64>, default: i64, max: i64) -> (r: i64)
    ensures
        r == limited(asked, default, max),
{
    let n: i64 = match asked {
        Some(n) => n,
        None => default,
    };
    if n < max {
        n
    } else {
        max
    }
}

/// The size of a page: as asked for, 20 by default, 50 at most.
pub fn page_limit(asked: Option<i64>) -> (r: i64)
    ensures
        r == limited(asked, DEFAULT_LIMIT, MAX_LIMIT),
{
    limit_of(asked, DEFAULT_LIMIT, MAX_LIMIT)
}

/// No page is larger than the maximum, and a size that is allowed is kept.
pub proof fn law_pages_are_limited(asked: Option<i64>)
    ensures
        limited(asked, DEFAULT_LIMIT, MAX_LIMIT) <= MAX_LIMIT,
        asked matches Some(n) ==> n <= MAX_LIMIT ==> limited(asked, DEFAULT_LIMIT, MAX_LIMIT) == n,
        asked is None ==> limited(asked, DEFAULT_LIMIT, MAX_LIMIT) == DEFAULT_LIMIT,
{
}

/// A GIF as it is told to a client, with its tags and renditions.
pub fn gif_to_response(
    gif: Gif,
    tags: Vec<String>,
    rows: &Vec<GifRendition>,
    base_url: &str,
) -> (r: GifResponse)
    ensures
        tells(r, gif),
        r.id == gif.id,
        r.filename == gif.filename,
        r.uploader_id == gif.uploader_id,
        r.visibility == gif.visibility,
        r.is_nsfw == gif.is_nsfw,
        r.frame_count == gif.frame_count,
        r.duration_ms == gif.duration_ms,
        r.uses == gif.uses,
        r.uploaded_at == gif.uploaded_at,
        r.tags == tags,
        r.renditions.wf(),
        r.renditions@ == renditions_of(base_url@, gif.id@, rows@),
{
    let renditions = build_renditions_pub(base_url, gif.id.as_str(), rows);
    to_response(gif, tags, renditions, base_url)
}

/// A text given, by its characters.
pub open spec fn text_given(s: Option<String>) -> Option<Seq<char>> {
    match s {
        Some(t) => Some(t@),
        None => None,
    }
}

fn as_given(s: &Option<String>) -> (r: Option<&str>)
    ensures
        crate::routes::cursor::given(r) == text_given(*s),
{
    match s {
        Some(t) => Some(t.as_str()),
        None => None,
    }
}

/// A page that is to be fetched.
pub struct PageRequest {
    pub statement: Statement,
    pub limit: i64,
    pub offset: i64,
    /// The seed, where the page is part of a shuffle.
    pub seed: Option<i64>,
}

/// The cursor behind a page of `count` GIFs: there is one where the page is full.
pub open spec fn next_cursor(count: nat, limit: i64, offset: i64, seed: Option<i64>) -> Option<
    Seq<char>,
> {
    if count == limit {
        match seed {
            Some(s) => Some(seeded_cursor(s, (offset + limit) as i64)),
            None => Some(offset_cursor((offset + limit) as i64)),
        }
    } else {
        None
    }
}

/// The next page can be counted to.
pub open spec fn countable(count: nat, limit: i64, offset: i64) -> bool {
    count == limit ==> offset + limit <= i64::MAX
}

/// The cursor of the next page: there is one where this page is full.
pub fn next_page(count: usize, limit: i64, offset: i64, seed: Option<i64>) -> (r: Option<String>)
    requires
        countable(count as nat, limit, offset),
    ensures
        text_given(r) == next_cursor(count as nat, limit, offset, seed),
{
    if limit >= 0 && count as u64 == limit as u64 {
        let next: i64 = offset + limit;
        match seed {
            Some(s) => Some(encode_seeded_offset(s, next)),
            None => Some(encode_offset(next)),
        }
    } else {
        None
    }
}

impl PageRequest {
    /// The answer to the request: the GIFs of the page, and the cursor of the next page.
    pub fn respond(&self, results: Vec<GifResponse>) -> (r: ListResponse)
        requires
            countable(results@.len(), self.limit, self.offset),
        ensures
            r.results == results,
            text_given(r.next) == next_cursor(
                results@.len(),
                self.limit,
                self.offset,
                self.seed,
            ),
    {
        let next = next_page(results.len(), self.limit, self.offset, self.seed);
        ListResponse { results, next }
    }
}

/// Following the cursor of a full page leads to the page right behind it, in the same order.
pub proof fn law_next_page_follows(limit: i64, offset: i64, seed: Option<i64>)
    requires
        0 <= limit,
        offset + limit <= i64::MAX,
    ensures
        next_cursor(limit as nat, limit, offset, seed) is Some,
        seed is None ==> cursor_offset(next_cursor(limit as nat, limit, offset, seed)) == offset
            + limit,
        seed is Some ==> cursor_seed(next_cursor(limit as nat, limit, offset, seed)) == Some(
            (seed->0, (offset + limit) as i64),
        ),
{
    crate::routes::cursor::law_cursor_leads_back((offset + limit) as i64);
    if seed is Some {
        crate::routes::cursor::law_seeded_cursor_leads_back(seed->0, (offset + limit) as i64);
    }
}

/// What `LIMIT` and `OFFSET` give of an ordered list.
pub open spec fn page_of<T>(all: Seq<T>, limit: int, offset: int) -> Seq<T> {
    if offset + limit <= all.len() {
        all.subrange(offset, offset + limit)
    } else if offset <= all.len() {
        all.skip(offset)
    } else {
        Seq::empty()
    }
}

/// The seed and the offset that a cursor leads to: in a shuffle, which has a fresh seed at hand,
/// the cursor's own, or the fresh seed and the beginning; else the offset alone.
pub open spec fn place_of(pos: Option<Seq<char>>, fresh: Option<i64>) -> (Option<i64>, i64) {
    match fresh {
        Some(f) => match cursor_seed(pos) {
            Some((seed, offset)) => (Some(seed), offset),
            None => (Some(f), 0),
        },
        None => (None, cursor_offset(pos)),
    }
}

/// A cursor from which the pages of a list can be counted. `lists` gives the list in the order of
/// each seed.
pub open spec fn walkable<T>(
    lists: spec_fn(Option<i64>) -> Seq<T>,
    limit: i64,
    pos: Option<Seq<char>>,
    fresh: Option<i64>,
) -> bool {
    let (seed, offset) = place_of(pos, fresh);
    1 <= limit && 0 <= offset && lists(seed).len() <= i64::MAX
}

/// The pages that a client gets, joined, who starts with this cursor and goes on with the next one
/// until there is none.
pub open spec fn walked<T>(
    lists: spec_fn(Option<i64>) -> Seq<T>,
    limit: i64,
    pos: Option<Seq<char>>,
    fresh: Option<i64>,
) -> Seq<T>
    decreases lists(place_of(pos, fresh).0).len() - place_of(pos, fresh).1,
    when walkable(lists, limit, pos, fresh)
{
    let (seed, offset) = place_of(pos, fresh);
    let page = page_of(lists(seed), limit as int, offset as int);
    proof {
        if page.len() == limit {
            law_next_page_follows(limit, offset, seed);
        }
    }
    match next_cursor(page.len(), limit, offset, seed) {
        Some(next) => page + walked(lists, limit, Some(next), fresh),
        None => page,
    }
}

/// From a cursor on, the pages joined are the rest of the list.
proof fn lemma_pages_make_the_rest<T>(
    lists: spec_fn(Option<i64>) -> Seq<T>,
    limit: i64,
    pos: Option<Seq<char>>,
    fresh: Option<i64>,
)
    requires
        walkable(lists, limit, pos, fresh),
        place_of(pos, fresh).1 <= lists(place_of(pos, fresh).0).len(),
    ensures
        walked(lists, limit, pos, fresh) == lists(place_of(pos, fresh).0).skip(
            place_of(pos, fresh).1 as int,
        ),
    decreases lists(place_of(pos, fresh).0).len() - place_of(pos, fresh).1,
{
    let (seed, offset) = place_of(pos, fresh);
    let all = lists(seed);
    let page = page_of(all, limit as int, offset as int);
    if page.len() == limit {
        law_next_page_follows(limit, offset, seed);
        let next = next_cursor(page.len(), limit, offset, seed);
        assert(place_of(next, fresh) == (seed, (offset + limit) as i64));
        lemma_pages_make_the_rest(lists, limit, next, fresh);
        assert(page + all.skip(offset + limit) =~= all.skip(offset as int));
    } else {
        assert(page =~= all.skip(offset as int));
    }
}

/// While a list does not change, its pages joined are the list: everything once, in order. A shuffle
/// keeps to the seed of its first page. `lists` gives the list in the order of each seed, of which
/// every page is what `LIMIT` and `OFFSET` give.
pub proof fn law_pages_make_the_list<T>(
    lists: spec_fn(Option<i64>) -> Seq<T>,
    limit: i64,
    fresh: Option<i64>,
)
    requires
        1 <= limit,
        lists(fresh).len() <= i64::MAX,
    ensures
        walked(lists, limit, None, fresh) == lists(fresh),
{
    law_plain_cursor_has_no_seed(0);
    lemma_pages_make_the_rest(lists, limit, None, fresh);
    assert(lists(fresh).skip(0) =~= lists(fresh));
}

/// A page holds no more than its size, and there is no next page exactly where it holds less.
pub proof fn law_last_page_is_short<T>(all: Seq<T>, limit: i64, offset: i64, seed: Option<i64>)
    requires
        1 <= limit,
        0 <= offset,
    ensures
        page_of(all, limit as int, offset as int).len() <= limit,
        next_cursor(page_of(all, limit as int, offset as int).len(), limit, offset, seed) is None
            <==> page_of(all, limit as int, offset as int).len() < limit,
{
}

/// A listing is shown in full: whatever page size is asked for, the pages are of that size, at most
/// [`MAX_LIMIT`], and joined they are the list, everything once and in order.
pub proof fn law_listings_are_shown_in_full<T>(all: Seq<T>, asked: Option<i64>)
    requires
        asked matches Some(n) ==> n >= 1,
        all.len() <= i64::MAX,
    ensures
        1 <= limited(asked, DEFAULT_LIMIT, MAX_LIMIT) <= MAX_LIMIT,
        walked(|seed: Option<i64>| all, limited(asked, DEFAULT_LIMIT, MAX_LIMIT), None, None) == all,
{
    law_pages_make_the_list(
        |seed: Option<i64>| all,
        limited(asked, DEFAULT_LIMIT, MAX_LIMIT),
        None,
    );
}

/// A shuffle shows what the plain list shows, everything as often as there, without gaps. `shuffles`
/// gives the list in the order of each seed: another order of the same rows.
pub proof fn law_shuffles_are_shown_in_full<T>(
    plain: Seq<T>,
    shuffles: spec_fn(i64) -> Seq<T>,
    asked: Option<i64>,
    fresh: i64,
)
    requires
        asked matches Some(n) ==> n >= 1,
        plain.len() <= i64::MAX,
        forall|seed: i64| (#[trigger] shuffles(seed)).to_multiset() == plain.to_multiset(),
    ensures
        ({
            let limit = limited(asked, DEFAULT_LIMIT, MAX_LIMIT);
            let lists = |seed: Option<i64>|
                match seed {
                    Some(s) => shuffles(s),
                    None => plain,
                };
            &&& walked(lists, limit, None, Some(fresh)) == shuffles(fresh)
            &&& walked(lists, limit, None, Some(fresh)).to_multiset() == plain.to_multiset()
        }),
{
    let limit = limited(asked, DEFAULT_LIMIT, MAX_LIMIT);
    let lists = |seed: Option<i64>|
        match seed {
            Some(s) => shuffles(s),
            None => plain,
        };
    assert(shuffles(fresh).to_multiset() == plain.to_multiset());
    plain.to_multiset_ensures();
    shuffles(fresh).to_multiset_ensures();
    law_pages_make_the_list(lists, limit, Some(fresh));
}

/// The search terms of a query: its words, in lowercase.
pub open spec fn terms_of(q: Seq<char>) -> Seq<Seq<char>> {
    pieces(q, Separator::Space).filter(nonempty()).map_values(|t: Seq<char>| lowercase(t))
}

/// The search terms of a query.
pub fn search_terms(q: &str) -> (r: Vec<String>)
    ensures
        texts(r@) == terms_of(q@),
{
    let parts = split(q, Separator::Space);
    let mut r: Vec<String> = Vec::new();
    let mut i: usize = 0;
    let ghost all = texts(parts@);
    let ghost low = |t: Seq<char>| lowercase(t);
    proof {
        reveal(Seq::filter);
        assert(texts(r@) == all.take(0).filter(nonempty()).map_values(low));
    }
    while i < parts.len()
        invariant
            i <= parts@.len(),
            all == texts(parts@),
            low == (|t: Seq<char>| lowercase(t)),
            texts(r@) == all.take(i as int).filter(nonempty()).map_values(low),
        decreases parts@.len() - i,
    {
        let ghost so_far = all.take(i as int).filter(nonempty());
        proof {
            assert(all.take(i + 1) == all.take(i as int).push(all[i as int]));
            all.take(i as int).lemma_filter_push(all[i as int], nonempty());
            assert(all[i as int] == parts@[i as int]@);
        }
        let ghost before = r@;
        if !parts[i].as_str().is_empty() {
            let t = parts[i].as_str().to_lowercase();
            r.push(t);
            proof {
                assert(texts(r@) == texts(before).push(t@));
                assert(so_far.push(all[i as int]).map_values(low) == so_far.map_values(low).push(
                    t@,
                ));
            }
        }
        i = i + 1;
    }
    assert(all.take(all.len() as int) == all);
    r
}

/// Where a search stands: what is to be looked for next.
pub enum SearchStep {
    /// GIFs with tags that begin with the terms.
    ByTags(Statement),
    /// GIFs whose file names match, to follow those found by tags.
    ByFilename(Statement, Vec<Gif>),
    /// The newest GIFs, where there is no query.
    Recent(Statement),
    /// The GIFs of the page.
    Finished(Vec<Gif>),
}

/// The query, where there is one that is not empty.
pub open spec fn query_of(params: SearchParams) -> Option<Seq<char>> {
    match params.q {
        Some(q) => if q@.len() > 0 {
            Some(q@)
        } else {
            None
        },
        None => None,
    }
}

/// The page size of a search.
pub open spec fn search_limit(params: SearchParams) -> i64 {
    limited(params.limit, DEFAULT_LIMIT, MAX_LIMIT)
}

/// The offset of a search.
pub open spec fn search_offset(params: SearchParams) -> i64 {
    cursor_offset(text_given(params.pos))
}

/// The statement that searches by tags.
pub open spec fn tags_statement(
    terms: Seq<Seq<char>>,
    viewer: Seq<char>,
    params: SearchParams,
) -> StatementView {
    sql(
        "SELECT "@ + G_COLS@
            + " FROM gifs g JOIN tags t ON t.gif_id = g.id WHERE t.tag LIKE ANY($1) AND "@
            + written(
            browse_filter(params.mine, params.grab_nsfw, params.grab_hidden),
            "g"@,
            "$4"@,
        )
            + " GROUP BY g.id ORDER BY COUNT(t.tag) DESC, g.uses DESC, g.uploaded_at DESC LIMIT $2 OFFSET $3"@,
        seq![
            ParamView::Texts(term_patterns(terms)),
            ParamView::BigInt(search_limit(params)),
            ParamView::BigInt(search_offset(params)),
            txt(viewer),
        ],
    )
}

/// The statement that searches by file name.
pub open spec fn filename_statement(
    q: Seq<char>,
    viewer: Seq<char>,
    params: SearchParams,
) -> StatementView {
    sql(
        "SELECT "@ + GIF_COLS@
            + " FROM gifs WHERE to_tsvector('english', filename) @@ plainto_tsquery('english', $1) AND "@
            + written(
            browse_filter(params.mine, params.grab_nsfw, params.grab_hidden),
            "gifs"@,
            "$4"@,
        )
            + " ORDER BY ts_rank(to_tsvector('english', filename), plainto_tsquery('english', $1)) DESC, uses DESC LIMIT $2 OFFSET $3"@,
        seq![
            txt(q),
            ParamView::BigInt(search_limit(params)),
            ParamView::BigInt(search_offset(params)),
            txt(viewer),
        ],
    )
}

/// A request stands at the offset `n`: it brings the cursor of `n`, or none, for the beginning.
pub open spec fn stands_at(pos: Option<String>, n: i64) -> bool {
    match pos {
        Some(p) => p@ == offset_cursor(n),
        None => n == 0,
    }
}

/// Where a request stands, its cursor leads.
proof fn lemma_stands_at(pos: Option<String>)
    ensures
        forall|n: i64| #[trigger] stands_at(pos, n) ==> cursor_offset(text_given(pos)) == n,
{
    assert forall|n: i64| #[trigger] stands_at(pos, n) implies cursor_offset(text_given(pos))
        == n by {
        crate::routes::cursor::law_cursor_leads_back(n);
    }
}

/// Begins a search: by tags where there is a query, else with the newest GIFs.
pub fn search(params: &SearchParams, user: &AuthUser) -> (r: SearchStep)
    ensures
        match query_of(*params) {
            Some(q) => r matches SearchStep::ByTags(s) && s@ == tags_statement(
                terms_of(q),
                user.mxid@,
                *params,
            ),
            None => r matches SearchStep::Recent(s) && s@ == browsing(
                user.mxid@,
                params.mine,
                params.grab_nsfw,
                params.grab_hidden,
                "uploaded_at DESC"@,
                search_limit(*params),
                search_offset(*params),
            ),
        },
        forall|n: i64|
            #[trigger] stands_at(params.pos, n) ==> {
                &&& r matches SearchStep::ByTags(s) ==> s@.params[2] == ParamView::BigInt(n)
                &&& r matches SearchStep::Recent(s) ==> s@.params[1] == ParamView::BigInt(n)
            },
{
    let limit: i64 = page_limit(params.limit);
    let offset: i64 = decode_offset(as_given(&params.pos));
    proof {
        lemma_stands_at(params.pos);
    }
    let viewer = user.mxid.as_str();
    if let Some(q) = &params.q {
        if !q.as_str().is_empty() {
            let terms = search_terms(q.as_str());
            let s = db::search_by_tags(
                &terms,
                viewer,
                params.mine,
                params.grab_nsfw,
                params.grab_hidden,
                limit,
                offset,
            );
            assert(s@ == tags_statement(terms_of(q@), user.mxid@, *params));
            return SearchStep::ByTags(s);
        }
    }
    SearchStep::Recent(
        db::list_recent(
            viewer,
            params.mine,
            params.grab_nsfw,
            params.grab_hidden,
            limit,
            offset,
        ),
    )
}

/// The ids of some GIFs.
pub open spec fn ids_of(gifs: Seq<Gif>) -> Seq<Seq<char>> {
    gifs.map_values(|g: Gif| g.id@)
}

/// A GIF that is not among those found.
pub open spec fn not_among(found: Seq<Gif>) -> spec_fn(Gif) -> bool {
    |g: Gif| !ids_of(found).contains(g.id@)
}

/// The GIFs found by tags, then those found by file name that are not among them.
pub open spec fn merged(by_tags: Seq<Gif>, by_filename: Seq<Gif>) -> Seq<Gif> {
    by_tags + by_filename.filter(not_among(by_tags))
}

/// The page that both searches make together.
pub open spec fn merged_page(by_tags: Seq<Gif>, by_filename: Seq<Gif>, limit: int) -> Seq<Gif> {
    let all = merged(by_tags, by_filename);
    if all.len() <= limit {
        all
    } else {
        all.take(limit)
    }
}

fn collect_ids(gifs: &Vec<Gif>) -> (r: Vec<String>)
    ensures
        texts(r@) == ids_of(gifs@),
{
    let mut r: Vec<String> = Vec::new();
    let mut i: usize = 0;
    let ghost all = ids_of(gifs@);
    assert(texts(r@) == all.take(0));
    while i < gifs.len()
        invariant
            i <= gifs@.len(),
            all == ids_of(gifs@),
            texts(r@) == all.take(i as int),
        decreases gifs@.len() - i,
    {
        let ghost before = r@;
        r.push(gifs[i].id.clone());
        proof {
            assert(texts(r@) == texts(before).push(gifs@[i as int].id@));
            assert(all.take(i + 1) == all.take(i as int).push(all[i as int]));
        }
        i = i + 1;
    }
    assert(all.take(all.len() as int) == all);
    r
}

/// Puts the GIFs found by file name behind those found by tags, each GIF once, and cuts the page to
/// its size.
pub fn merge(by_tags: Vec<Gif>, by_filename: Vec<Gif>, limit: usize) -> (r: Vec<Gif>)
    requires
        by_tags@.len() <= limit,
    ensures
        r@ == merged_page(by_tags@, by_filename@, limit as int),
        by_tags@.is_prefix_of(r@),
        r@.len() == (if by_tags@.len() + new_count(by_tags@, by_filename@) < limit {
            by_tags@.len() + new_count(by_tags@, by_filename@)
        } else {
            limit as nat
        }),
        r@.len() < limit ==> forall|j: int|
            0 <= j < by_filename@.len() ==> exists|i: int|
                0 <= i < r@.len() && (#[trigger] r@[i]).id@ == (#[trigger] by_filename@[j]).id@,
{
    let seen = collect_ids(&by_tags);
    let ghost first = by_tags@;
    let ghost rest = by_filename@;
    let ghost fresh = not_among(first);
    let mut r = by_tags;
    let mut source = by_filename;
    let ghost mut done: int = 0;
    proof {
        reveal(Seq::filter);
        assert(rest.take(0).filter(fresh) == Seq::<Gif>::empty());
        assert(first + Seq::<Gif>::empty() == first);
        assert(rest.skip(0) == rest);
    }
    while source.len() > 0
        invariant
            texts(seen@) == ids_of(first),
            fresh == not_among(first),
            0 <= done <= rest.len(),
            source@ == rest.skip(done),
            r@ == first + rest.take(done).filter(fresh),
        decreases source@.len(),
    {
        let gif = source.remove(0);
        proof {
            assert(gif == rest[done]);
            assert(source@ == rest.skip(done + 1));
            assert(rest.take(done + 1) == rest.take(done).push(gif));
            rest.take(done).lemma_filter_push(gif, fresh);
        }
        let ghost before = r@;
        if !contains_text(&seen, gif.id.as_str()) {
            r.push(gif);
            proof {
                assert(fresh(gif));
                assert(first + rest.take(done).filter(fresh).push(gif) == before.push(gif));
            }
        }
        proof {
            done = done + 1;
        }
    }
    proof {
        assert(done == rest.len());
        assert(rest.take(done) == rest);
    }
    r.truncate(limit);
    proof {
        law_merge_keeps_tag_results(first, rest, limit as int);
        law_merge_leaves_nothing_out(first, rest, limit as int);
    }
    r
}

/// A merged page keeps every GIF found by tags, in place; behind them stand GIFs found by file
/// name that are not among them; it holds no more than the page.
pub proof fn law_merge_keeps_tag_results(by_tags: Seq<Gif>, by_filename: Seq<Gif>, limit: int)
    requires
        by_tags.len() <= limit,
    ensures
        by_tags.is_prefix_of(merged_page(by_tags, by_filename, limit)),
        merged_page(by_tags, by_filename, limit).len() <= limit,
        forall|i: int|
            by_tags.len() <= i < merged_page(by_tags, by_filename, limit).len() ==> {
                &&& by_filename.contains(#[trigger] merged_page(by_tags, by_filename, limit)[i])
                &&& !ids_of(by_tags).contains(merged_page(by_tags, by_filename, limit)[i].id@)
            },
{
    broadcast use vstd::seq_lib::group_filter_ensures;

    let fresh = not_among(by_tags);
    let tail = by_filename.filter(fresh);
    let page = merged_page(by_tags, by_filename, limit);
    assert(by_tags =~= page.subrange(0, by_tags.len() as int));
    assert forall|i: int| by_tags.len() <= i < page.len() implies {
        &&& by_filename.contains(#[trigger] page[i])
        &&& !ids_of(by_tags).contains(page[i].id@)
    } by {
        let g = tail[i - by_tags.len()];
        assert(page[i] == g);
        assert(fresh(g));
        assert(tail.contains(g));
        by_filename.lemma_filter_contains_rev(fresh, g);
    }
}

/// Of GIFs without a repeated id, those that a condition picks have none either.
proof fn lemma_picked_ids_once(gifs: Seq<Gif>, pick: spec_fn(Gif) -> bool)
    requires
        ids_of(gifs).no_duplicates(),
    ensures
        ids_of(gifs.filter(pick)).no_duplicates(),
        forall|i: int|
            0 <= i < gifs.filter(pick).len() ==> ids_of(gifs).contains(
                (#[trigger] gifs.filter(pick)[i]).id@,
            ),
    decreases gifs.len(),
{
    reveal(Seq::filter);
    if gifs.len() > 0 {
        let front = gifs.drop_last();
        let last = gifs.last();
        assert forall|i: int, j: int| 0 <= i < front.len() && 0 <= j < front.len() && i != j implies
            ids_of(front)[i] != ids_of(front)[j] by {
            assert(ids_of(front)[i] == ids_of(gifs)[i] && ids_of(front)[j] == ids_of(gifs)[j]);
        }
        lemma_picked_ids_once(front, pick);
        let picked = front.filter(pick);
        let all = gifs.filter(pick);
        assert forall|i: int| 0 <= i < picked.len() implies (#[trigger] picked[i]).id@ != last.id@
            && ids_of(gifs).contains(picked[i].id@) by {
            let k = choose|k: int| 0 <= k < front.len() && ids_of(front)[k] == picked[i].id@;
            assert(ids_of(front)[k] == ids_of(gifs)[k]);
            assert(ids_of(gifs)[gifs.len() - 1] == last.id@);
        }
        assert(ids_of(gifs)[gifs.len() - 1] == last.id@);
        assert forall|i: int| 0 <= i < all.len() implies ids_of(gifs).contains(
            (#[trigger] all[i]).id@,
        ) by {
            if i < picked.len() {
                assert(all[i] == picked[i]);
            }
        }
        assert forall|i: int, j: int| 0 <= i < all.len() && 0 <= j < all.len() && i != j implies
            ids_of(all)[i] != ids_of(all)[j] by {
            if i < picked.len() {
                assert(all[i] == picked[i] && ids_of(picked)[i] == picked[i].id@);
            }
            if j < picked.len() {
                assert(all[j] == picked[j] && ids_of(picked)[j] == picked[j].id@);
            }
        }
    }
}

/// A merged page shows no GIF twice, where neither search finds one twice.
pub proof fn law_merge_shows_each_once(by_tags: Seq<Gif>, by_filename: Seq<Gif>, limit: int)
    requires
        0 <= limit,
        ids_of(by_tags).no_duplicates(),
        ids_of(by_filename).no_duplicates(),
    ensures
        ids_of(merged_page(by_tags, by_filename, limit)).no_duplicates(),
{
    broadcast use vstd::seq_lib::group_filter_ensures;

    let fresh = not_among(by_tags);
    let tail = by_filename.filter(fresh);
    let all = merged(by_tags, by_filename);
    let page = merged_page(by_tags, by_filename, limit);
    lemma_picked_ids_once(by_filename, fresh);
    assert forall|i: int, j: int| 0 <= i < j < page.len() implies ids_of(page)[i]
        != ids_of(page)[j] by {
        let n = by_tags.len();
        assert(page[i] == all[i] && page[j] == all[j]);
        if j < n {
            assert(ids_of(by_tags)[i] == all[i].id@ && ids_of(by_tags)[j] == all[j].id@);
        } else {
            assert(all[j] == tail[j - n]);
            assert(fresh(tail[j - n]));
            if i < n {
                assert(ids_of(by_tags)[i] == all[i].id@);
            } else {
                assert(all[i] == tail[i - n]);
                assert(ids_of(tail)[i - n] == all[i].id@ && ids_of(tail)[j - n] == all[j].id@);
            }
        }
    }
}

/// Where tags alone do not fill the page, file names are searched too.
pub open spec fn needs_filenames(count: nat, limit: i64) -> bool {
    count < limit
}

/// Goes on with a search: from a step and the GIFs that it found to the next step. Where the tags
/// do not fill the page, file names are searched too.
pub fn searched(params: &SearchParams, user: &AuthUser, step: SearchStep, found: Vec<Gif>) -> (r:
    SearchStep)
    requires
        step is ByFilename ==> step->ByFilename_1@.len() <= search_limit(*params),
        step is ByTags ==> query_of(*params) is Some,
    ensures
        match step {
            SearchStep::ByTags(_) => if needs_filenames(found@.len(), search_limit(*params)) {
                r matches SearchStep::ByFilename(s, gifs) && gifs == found && s@
                    == filename_statement(query_of(*params)->0, user.mxid@, *params)
            } else {
                r == SearchStep::Finished(found)
            },
            SearchStep::ByFilename(_, by_tags) => r matches SearchStep::Finished(gifs) && gifs@
                == merged_page(by_tags@, found@, search_limit(*params) as int),
            SearchStep::Recent(_) => r == SearchStep::Finished(found),
            SearchStep::Finished(gifs) => r == step,
        },
        forall|n: i64|
            #[trigger] stands_at(params.pos, n) ==> step is ByTags ==> (r matches SearchStep::ByFilename(
                s,
                _,
            ) ==> s@.params[2] == ParamView::BigInt(n)),
        step is ByTags ==> (r is ByFilename <==> found@.len() < search_limit(*params)),
{
    let limit: i64 = page_limit(params.limit);
    proof {
        lemma_stands_at(params.pos);
    }
    match step {
        SearchStep::ByTags(_) => {
            if limit > 0 && (found.len() as u64) < limit as u64 {
                let offset: i64 = decode_offset(as_given(&params.pos));
                match &params.q {
                    Some(q) => {
                        let s = db::search_by_filename(
                            q.as_str(),
                            user.mxid.as_str(),
                            params.mine,
                            params.grab_nsfw,
                            params.grab_hidden,
                            limit,
                            offset,
                        );
                        assert(s@ == filename_statement(
                            query_of(*params)->0,
                            user.mxid@,
                            *params,
                        ));
                        SearchStep::ByFilename(s, found)
                    },
                    None => SearchStep::Finished(found),
                }
            } else {
                SearchStep::Finished(found)
            }
        },
        SearchStep::ByFilename(_, by_tags) => {
            SearchStep::Finished(merge(by_tags, found, limit as usize))
        },
        SearchStep::Recent(_) => SearchStep::Finished(found),
        SearchStep::Finished(gifs) => SearchStep::Finished(gifs),
    }
}

/// The answer to a search: the GIFs of the page, and the cursor of the next page.
pub fn search_response(params: &SearchParams, results: Vec<GifResponse>) -> (r: ListResponse)
    requires
        countable(results@.len(), search_limit(*params), search_offset(*params)),
    ensures
        r.results == results,
        text_given(r.next) == next_cursor(
            results@.len(),
            search_limit(*params),
            search_offset(*params),
            None,
        ),
        forall|n: i64|
            #[trigger] stands_at(params.pos, n) ==> text_given(r.next) == if results@.len()
                == search_limit(*params) {
                Some(offset_cursor((n + search_limit(*params)) as i64))
            } else {
                None
            },
{
    let limit: i64 = page_limit(params.limit);
    let offset: i64 = decode_offset(as_given(&params.pos));
    proof {
        lemma_stands_at(params.pos);
    }
    let next = next_page(results.len(), limit, offset, None);
    ListResponse { results, next }
}

/// The page size of a listing.
pub open spec fn list_limit(params: PaginationParams) -> i64 {
    limited(params.limit, DEFAULT_LIMIT, MAX_LIMIT)
}

/// The offset of a listing.
pub open spec fn list_offset(params: PaginationParams) -> i64 {
    cursor_offset(text_given(params.pos))
}

/// A page of featured GIFs, with a fresh seed at hand: in a shuffle, the seed and offset are the
/// cursor's, or the fresh seed and the beginning.
pub open spec fn is_featured(
    params: PaginationParams,
    viewer: Seq<char>,
    fresh: i64,
    page: PageRequest,
) -> bool {
    &&& page.limit == list_limit(params)
    &&& if params.random == Some(true) {
        let (seed, offset) = match cursor_seed(text_given(params.pos)) {
            Some(both) => both,
            None => (fresh, 0i64),
        };
        let listing = browsing(
            viewer,
            params.mine,
            params.grab_nsfw,
            params.grab_hidden,
            "md5($4::text || id)"@,
            list_limit(params),
            offset,
        );
        &&& page.offset == offset
        &&& page.seed == Some(seed)
        &&& page.statement@ == sql(listing.text, listing.params.push(ParamView::BigInt(seed)))
    } else {
        &&& page.offset == list_offset(params)
        &&& page.seed is None
        &&& page.statement@ == browsing(
            viewer,
            params.mine,
            params.grab_nsfw,
            params.grab_hidden,
            "uses DESC, uploaded_at DESC"@,
            list_limit(params),
            list_offset(params),
        )
    }
}

/// A page of featured GIFs stands where its cursor leads.
pub proof fn law_featured_follows_the_cursor(
    params: PaginationParams,
    viewer: Seq<char>,
    fresh: i64,
    page: PageRequest,
)
    requires
        is_featured(params, viewer, fresh, page),
    ensures
        (page.seed, page.offset) == place_of(
            text_given(params.pos),
            if params.random == Some(true) {
                Some(fresh)
            } else {
                None
            },
        ),
{
}

/// The page of featured GIFs that is asked for, where a shuffle that begins takes the given seed.
pub fn featured_with(params: &PaginationParams, user: &AuthUser, fresh: i64) -> (r: PageRequest)
    ensures
        is_featured(*params, user.mxid@, fresh, r),
{
    let limit: i64 = page_limit(params.limit);
    let viewer = user.mxid.as_str();
    let shuffle = match params.random {
        Some(b) => b,
        None => false,
    };
    if shuffle {
        let (seed, offset): (i64, i64) = match decode_seeded_offset(as_given(&params.pos)) {
            Some(both) => both,
            None => (fresh, 0),
        };
        PageRequest {
            statement: db::list_featured_random(
                viewer,
                params.mine,
                params.grab_nsfw,
                params.grab_hidden,
                limit,
                offset,
                seed,
            ),
            limit,
            offset,
            seed: Some(seed),
        }
    } else {
        let offset: i64 = decode_offset(as_given(&params.pos));
        PageRequest {
            statement: db::list_featured(
                viewer,
                params.mine,
                params.grab_nsfw,
                params.grab_hidden,
                limit,
                offset,
            ),
            limit,
            offset,
            seed: None,
        }
    }
}

/// The page of featured GIFs that is asked for. A shuffle that begins takes a random seed.
pub fn featured(params: &PaginationParams, user: &AuthUser) -> (r: PageRequest)
    ensures
        exists|fresh: i64| is_featured(*params, user.mxid@, fresh, r),
{
    let shuffle = match params.random {
        Some(b) => b,
        None => false,
    };
    let fresh: i64 = if shuffle && decode_seeded_offset(as_given(&params.pos)).is_none() {
        fresh_seed()
    } else {
        0
    };
    featured_with(params, user, fresh)
}

/// The page of the newest GIFs that is asked for.
pub fn recent(params: &PaginationParams, user: &AuthUser) -> (r: PageRequest)
    ensures
        r.limit == list_limit(*params),
        r.offset == list_offset(*params),
        r.seed is None,
        r.statement@ == browsing(
            user.mxid@,
            params.mine,
            params.grab_nsfw,
            params.grab_hidden,
            "uploaded_at DESC"@,
            list_limit(*params),
            list_offset(*params),
        ),
        forall|n: i64|
            #[trigger] stands_at(params.pos, n) ==> r.offset == n && r.statement@.params[1]
                == ParamView::BigInt(n),
{
    let limit: i64 = page_limit(params.limit);
    let offset: i64 = decode_offset(as_given(&params.pos));
    proof {
        lemma_stands_at(params.pos);
    }
    PageRequest {
        statement: db::list_recent(
            user.mxid.as_str(),
            params.mine,
            params.grab_nsfw,
            params.grab_hidden,
            limit,
            offset,
        ),
        limit,
        offset,
        seed: None,
    }
}

/// The statement that completes a tag.
pub fn suggest(params: &SuggestParams) -> (r: Statement)
    ensures
        r@ == sql(
            "SELECT t.tag FROM tags t JOIN gifs g ON g.id = t.gif_id WHERE t.tag LIKE $1 AND "@
                + written(suggest_filter(params.grab_nsfw), "g"@, "$3"@)
                + " GROUP BY t.tag ORDER BY COUNT(*) DESC LIMIT $2"@,
            seq![
                txt(prefix_pattern(lowercase(params.q@))),
                ParamView::BigInt(limited(params.limit, DEFAULT_SUGGESTIONS, MAX_SUGGESTIONS)),
            ],
        ),
{
    let limit: i64 = limit_of(params.limit, DEFAULT_SUGGESTIONS, MAX_SUGGESTIONS);
    db::suggest_tags(params.q.as_str().to_lowercase().as_str(), params.grab_nsfw, limit)
}

/// One more GIF found by file name goes to the end of the page, unless it is among those found by
/// tags or the page is full; without any, the page is what was found by tags.
pub proof fn law_merge_takes_one_more(by_tags: Seq<Gif>, by_filename: Seq<Gif>, g: Gif, limit: int)
    requires
        by_tags.len() <= limit,
    ensures
        merged_page(by_tags, Seq::empty(), limit) == by_tags,
        ({
            let page = merged_page(by_tags, by_filename, limit);
            let next = merged_page(by_tags, by_filename.push(g), limit);
            let known = exists|i: int| 0 <= i < by_tags.len() && (#[trigger] by_tags[i]).id@ == g.id@;
            if known || page.len() >= limit {
                next == page
            } else {
                next == page.push(g)
            }
        }),
{
    let fresh = not_among(by_tags);
    reveal(Seq::filter);
    assert(by_tags + Seq::<Gif>::empty().filter(fresh) =~= by_tags);
    by_filename.lemma_filter_push(g, fresh);
    let all = merged(by_tags, by_filename);
    let more = merged(by_tags, by_filename.push(g));
    if exists|i: int| 0 <= i < by_tags.len() && (#[trigger] by_tags[i]).id@ == g.id@ {
        let i = choose|i: int| 0 <= i < by_tags.len() && (#[trigger] by_tags[i]).id@ == g.id@;
        assert(ids_of(by_tags)[i] == g.id@);
        assert(more == all);
    } else {
        assert(fresh(g)) by {
            if ids_of(by_tags).contains(g.id@) {
                let i = choose|i: int| 0 <= i < ids_of(by_tags).len() && ids_of(by_tags)[i] == g.id@;
                assert(by_tags[i].id@ == g.id@);
            }
        }
        assert(more =~= all.push(g));
        if all.len() >= limit {
            assert(more.take(limit) =~= all.take(limit));
            assert(all.take(all.len() as int) =~= all);
        }
    }
}

/// How many GIFs found by file name are not among those found by tags.
pub open spec fn new_count(by_tags: Seq<Gif>, by_filename: Seq<Gif>) -> nat
    decreases by_filename.len(),
{
    if by_filename.len() == 0 {
        0
    } else {
        let before = new_count(by_tags, by_filename.drop_last());
        if exists|i: int|
            0 <= i < by_tags.len() && (#[trigger] by_tags[i]).id@ == by_filename.last().id@ {
            before
        } else {
            before + 1
        }
    }
}

/// A merged page leaves nothing out: where it is not full, every GIF found by file name is on it; it
/// is as long as its size and what was found allow.
pub proof fn law_merge_leaves_nothing_out(by_tags: Seq<Gif>, by_filename: Seq<Gif>, limit: int)
    requires
        by_tags.len() <= limit,
    ensures
        ({
            let page = merged_page(by_tags, by_filename, limit);
            let found = by_tags.len() + new_count(by_tags, by_filename);
            &&& page.len() == (if found < limit {
                found as int
            } else {
                limit
            })
            &&& page.len() < limit ==> forall|j: int|
                0 <= j < by_filename.len() ==> exists|i: int|
                    0 <= i < page.len() && (#[trigger] page[i]).id@ == (
                    #[trigger] by_filename[j]).id@
        }),
    decreases by_filename.len(),
{
    let page = merged_page(by_tags, by_filename, limit);
    if by_filename.len() == 0 {
        law_merge_takes_one_more(by_tags, by_filename, arbitrary(), limit);
        assert(by_filename =~= Seq::empty());
    } else {
        let front = by_filename.drop_last();
        let g = by_filename.last();
        assert(front.push(g) =~= by_filename);
        law_merge_leaves_nothing_out(by_tags, front, limit);
        law_merge_takes_one_more(by_tags, front, g, limit);
        law_merge_keeps_tag_results(by_tags, front, limit);
        let before = merged_page(by_tags, front, limit);
        assert(before.len() <= page.len());
        assert forall|j: int| 0 <= j < by_filename.len() && page.len() < limit implies exists|i: int|
            0 <= i < page.len() && (#[trigger] page[i]).id@ == (#[trigger] by_filename[j]).id@ by {
            if j < front.len() {
                assert(front[j] == by_filename[j]);
                let i = choose|i: int|
                    0 <= i < before.len() && (#[trigger] before[i]).id@ == front[j].id@;
                assert(page[i] == before[i]);
            } else if exists|i: int|
                0 <= i < by_tags.len() && (#[trigger] by_tags[i]).id@ == g.id@ {
                let i = choose|i: int|
                    0 <= i < by_tags.len() && (#[trigger] by_tags[i]).id@ == g.id@;
                assert(before.subrange(0, by_tags.len() as int)[i] == by_tags[i]);
                assert(page[i].id@ == g.id@);
            } else {
                assert(page[page.len() - 1] == g);
            }
        }
    }
}

/// What a search by tags or by file name, or the newest GIFs without a query, is bound to: the size
/// of the page and the offset where it begins.
#[verifier::opaque]
pub open spec fn search_bounds(params: SearchParams, viewer: Seq<char>) -> (ParamView, ParamView) {
    match query_of(params) {
        Some(q) => {
            let s = tags_statement(terms_of(q), viewer, params);
            (s.params[1], s.params[2])
        },
        None => {
            let s = browsing(
                viewer,
                params.mine,
                params.grab_nsfw,
                params.grab_hidden,
                "uploaded_at DESC"@,
                search_limit(params),
                search_offset(params),
            );
            (s.params[0], s.params[1])
        },
    }
}

proof fn lemma_search_bounds(params: SearchParams, viewer: Seq<char>)
    ensures
        search_bounds(params, viewer) == (
            ParamView::BigInt(search_limit(params)),
            ParamView::BigInt(search_offset(params)),
        ),
{
    reveal(search_bounds);
}

/// A search stands where its cursor leads: with the cursor of the offset `n`, every statement of it
/// is bound to `n`, and behind a full page stands the cursor of `n` and the page's size. Without a
/// cursor it begins at the beginning. The page is of the size asked for, 20 by default, 50 at most.
pub proof fn law_search_follows_the_cursor(params: SearchParams, viewer: Seq<char>, n: i64)
    requires
        stands_at(params.pos, n),
    ensures
        ({
            let limit: i64 = match params.limit {
                Some(l) => if l <= 50 {
                    l
                } else {
                    50
                },
                None => 20,
            };
            &&& search_bounds(params, viewer) == (ParamView::BigInt(limit), ParamView::BigInt(n))
            &&& forall|q: Seq<char>| #[trigger]
                filename_statement(q, viewer, params).params == seq![
                    ParamView::Text(q),
                    ParamView::BigInt(limit),
                    ParamView::BigInt(n),
                    ParamView::Text(viewer),
                ]
            &&& forall|count: nat| #[trigger]
                next_cursor(count, search_limit(params), search_offset(params), None) == if count
                    == limit {
                    Some(offset_cursor((n + limit) as i64))
                } else {
                    None
                }
        }),
{
    crate::routes::cursor::law_cursor_leads_back(n);
    lemma_search_bounds(params, viewer);
}

/// What a database answers to a search, of an ordered list of all that the search finds.
pub open spec fn search_page<T>(all: Seq<T>, params: SearchParams, viewer: Seq<char>) -> Seq<T> {
    match search_bounds(params, viewer) {
        (ParamView::BigInt(limit), ParamView::BigInt(offset)) => page_of(
            all,
            limit as int,
            offset as int,
        ),
        _ => Seq::empty(),
    }
}

/// The cursor that the answer to a search ends with.
pub open spec fn search_next<T>(all: Seq<T>, params: SearchParams, viewer: Seq<char>) -> Option<
    Seq<char>,
> {
    next_cursor(
        search_page(all, params, viewer).len(),
        search_limit(params),
        search_offset(params),
        None,
    )
}

/// A client that asks for one page after the other: first without a cursor, then each time with the
/// one that the last answer ended with, until there is none.
pub open spec fn searches_through<T>(
    all: Seq<T>,
    requests: Seq<SearchParams>,
    viewer: Seq<char>,
) -> bool {
    &&& requests.len() > 0
    &&& requests[0].pos is None
    &&& forall|i: int, j: int|
        0 <= i && j == i + 1 && j < requests.len() ==> {
            &&& (#[trigger] requests[j]).pos is Some
            &&& search_next(all, #[trigger] requests[i], viewer) == Some(requests[j].pos->0@)
            &&& requests[j].limit == requests[i].limit
        }
    &&& search_next(all, requests.last(), viewer) is None
}

/// The pages that the requests get, joined.
pub open spec fn pages_found<T>(
    all: Seq<T>,
    requests: Seq<SearchParams>,
    viewer: Seq<char>,
) -> Seq<T>
    decreases requests.len(),
{
    if requests.len() == 0 {
        Seq::empty()
    } else {
        pages_found(all, requests.drop_last(), viewer) + search_page(all, requests.last(), viewer)
    }
}

/// Request `k` begins where the pages before it end.
proof fn lemma_search_goes_on<T>(
    all: Seq<T>,
    requests: Seq<SearchParams>,
    viewer: Seq<char>,
    k: int,
)
    requires
        searches_through(all, requests, viewer),
        requests[0].limit matches Some(n) ==> n >= 1,
        all.len() <= i64::MAX,
        0 <= k < requests.len(),
    ensures
        0 <= search_offset(requests[k]) <= all.len(),
        requests[k].limit == requests[0].limit,
        search_bounds(requests[k], viewer) == (
            ParamView::BigInt(search_limit(requests[k])),
            ParamView::BigInt(search_offset(requests[k])),
        ),
        pages_found(all, requests.take(k), viewer) == all.take(search_offset(requests[k]) as int),
    decreases k,
{
    lemma_search_bounds(requests[k], viewer);
    lemma_stands_at(requests[k].pos);
    if k == 0 {
        assert(stands_at(requests[0].pos, 0));
        assert(all.take(0) =~= Seq::empty());
        assert(requests.take(0) =~= Seq::empty());
    } else {
        lemma_search_goes_on(all, requests, viewer, k - 1);
        let before = requests[k - 1];
        let now = requests[k];
        let limit = search_limit(before);
        let offset = search_offset(before);
        let page = search_page(all, before, viewer);
        assert(search_next(all, before, viewer) == Some(now.pos->0@));
        assert(page.len() == limit);
        let n: i64 = (offset + limit) as i64;
        assert(stands_at(now.pos, n));
        assert(requests.take(k).drop_last() =~= requests.take(k - 1));
        assert(requests.take(k).last() == before);
        assert(all.take(offset as int) + page =~= all.take(offset + limit));
    }
}

/// The pages of a search, each asked for with the cursor that the one before ended with, make the
/// list of all that it finds, everything once and in order.
pub proof fn law_search_pages_make_the_list<T>(
    all: Seq<T>,
    requests: Seq<SearchParams>,
    viewer: Seq<char>,
)
    requires
        searches_through(all, requests, viewer),
        requests[0].limit matches Some(n) ==> n >= 1,
        all.len() <= i64::MAX,
    ensures
        pages_found(all, requests, viewer) == all,
{
    let k = requests.len() - 1;
    lemma_search_goes_on(all, requests, viewer, k);
    let last = requests.last();
    let offset = search_offset(last) as int;
    let page = search_page(all, last, viewer);
    assert(requests.drop_last() =~= requests.take(k));
    assert(page.len() < search_limit(last));
    assert(all.take(offset) + page =~= all);
}

/// A search finds what the flags of its request let through, by tags and by file name alike.
pub proof fn law_search_finds_what_is_visible(
    terms: Seq<Seq<char>>,
    q: Seq<char>,
    viewer: Seq<char>,
    params: SearchParams,
)
    ensures
        exists|f: Filter|
            {
                &&& #[trigger] lets_through(
                    f,
                    viewer,
                    params.mine,
                    params.grab_nsfw,
                    params.grab_hidden,
                )
                &&& tags_statement(terms, viewer, params).text == "SELECT "@ + G_COLS@
                    + " FROM gifs g JOIN tags t ON t.gif_id = g.id WHERE t.tag LIKE ANY($1) AND "@
                    + written(f, "g"@, "$4"@)
                    + " GROUP BY g.id ORDER BY COUNT(t.tag) DESC, g.uses DESC, g.uploaded_at DESC LIMIT $2 OFFSET $3"@
                &&& filename_statement(q, viewer, params).text == "SELECT "@ + GIF_COLS@
                    + " FROM gifs WHERE to_tsvector('english', filename) @@ plainto_tsquery('english', $1) AND "@
                    + written(f, "gifs"@, "$4"@)
                    + " ORDER BY ts_rank(to_tsvector('english', filename), plainto_tsquery('english', $1)) DESC, uses DESC LIMIT $2 OFFSET $3"@
            },
        tags_statement(terms, viewer, params).params[3] == ParamView::Text(viewer),
        filename_statement(q, viewer, params).params[3] == ParamView::Text(viewer),
{
    law_conditions_follow_the_flags(viewer, params.mine, params.grab_nsfw, params.grab_hidden);
}

/// Every term of a query is searched for, as what a tag may begin with.
pub proof fn law_every_term_is_searched_for(
    terms: Seq<Seq<char>>,
    viewer: Seq<char>,
    params: SearchParams,
)
    ensures
        tags_statement(terms, viewer, params).params[0] matches ParamView::Texts(patterns)
            && patterns.len() == terms.len() && forall|i: int|
            0 <= i < terms.len() ==> #[trigger] patterns[i] == prefix_pattern(terms[i]),
{
}

/// What a viewer browses is what the flags of the request let through, in the order asked for.
pub proof fn law_browsing_shows_what_is_visible(
    viewer: Seq<char>,
    mine: bool,
    nsfw: bool,
    hidden: bool,
    order: Seq<char>,
    limit: i64,
    offset: i64,
)
    ensures
        exists|f: Filter|
            {
                &&& #[trigger] lets_through(f, viewer, mine, nsfw, hidden)
                &&& browsing(viewer, mine, nsfw, hidden, order, limit, offset).text == "SELECT "@
                    + GIF_COLS@ + " FROM gifs WHERE "@ + written(f, "gifs"@, "$3"@) + " ORDER BY "@
                    + order + " LIMIT $1 OFFSET $2"@
            },
        browsing(viewer, mine, nsfw, hidden, order, limit, offset).params == seq![
            ParamView::BigInt(limit),
            ParamView::BigInt(offset),
            ParamView::Text(viewer),
        ],
{
    law_conditions_follow_the_flags(viewer, mine, nsfw, hidden);
}

/// The featured GIFs are what the flags of the request let through: the most used first, or in a
/// shuffle by a hash of the seed and each id. The page is bound to its size and to its offset.
pub proof fn law_featured_shows_what_is_visible(
    params: PaginationParams,
    viewer: Seq<char>,
    fresh: i64,
    page: PageRequest,
)
    requires
        is_featured(params, viewer, fresh, page),
    ensures
        exists|f: Filter|
            {
                &&& #[trigger] lets_through(
                    f,
                    viewer,
                    params.mine,
                    params.grab_nsfw,
                    params.grab_hidden,
                )
                &&& page.statement@.text == "SELECT "@ + GIF_COLS@ + " FROM gifs WHERE "@ + written(
                    f,
                    "gifs"@,
                    "$3"@,
                ) + " ORDER BY "@ + (if page.seed is Some {
                    "md5($4::text || id)"@
                } else {
                    "uses DESC, uploaded_at DESC"@
                }) + " LIMIT $1 OFFSET $2"@
            },
        ({
            let bound = seq![
                ParamView::BigInt(page.limit),
                ParamView::BigInt(page.offset),
                ParamView::Text(viewer),
            ];
            match page.seed {
                Some(seed) => page.statement@.params == bound.push(ParamView::BigInt(seed)),
                None => page.statement@.params == bound,
            }
        }),
        page.seed is Some <==> params.random == Some(true),
        page.limit == (match params.limit {
            Some(l) => if l <= 50 {
                l
            } else {
                50
            },
            None => 20i64,
        }),
{
    law_conditions_follow_the_flags(viewer, params.mine, params.grab_nsfw, params.grab_hidden);
}

/// A listing stands where its cursor leads: at the offset of the cursor, or at the beginning. Its
/// page is of the size asked for, 20 by default, 50 at most.
pub proof fn law_listing_follows_the_cursor(params: PaginationParams, n: i64)
    requires
        stands_at(params.pos, n),
    ensures
        list_offset(params) == n,
        list_limit(params) == (match params.limit {
            Some(l) => if l <= 50 {
                l
            } else {
                50
            },
            None => 20i64,
        }),
{
    crate::routes::cursor::law_cursor_leads_back(n);
}

/// Every word of a query is a term, in lowercase: one more word is one more term.
pub proof fn law_every_word_is_a_term(q: Seq<char>, c: char, word: Seq<char>)
    requires
        white_space(c),
        forall|i: int| 0 <= i < word.len() ==> !white_space(#[trigger] word[i]),
    ensures
        terms_of(q.push(c) + word) == if word.len() > 0 {
            terms_of(q).push(lowercase(word))
        } else {
            terms_of(q)
        },
        word.len() > 0 ==> terms_of(word) == seq![lowercase(word)],
        terms_of(Seq::empty()) == Seq::<Seq<char>>::empty(),
{
    let none = Seq::<Seq<char>>::empty();
    let low = |t: Seq<char>| lowercase(t);
    let empty = Seq::<char>::empty();
    law_separators_part_pieces(q, c, word, Separator::Space);
    law_separators_part_pieces(q, c, empty, Separator::Space);
    let before = pieces(q, Separator::Space);
    before.lemma_filter_push(word, nonempty());
    none.lemma_filter_push(word, nonempty());
    none.lemma_filter_push(empty, nonempty());
    reveal(Seq::filter);
    assert(none.filter(nonempty()) =~= none);
    assert(none.push(word) =~= seq![word]);
    assert(none.push(empty) =~= seq![empty]);
    assert(before.filter(nonempty()).push(word).map_values(low) =~= before.filter(
        nonempty(),
    ).map_values(low).push(lowercase(word)));
    assert(none.push(word).map_values(low) =~= seq![lowercase(word)]);
    assert(none.map_values(low) =~= none);
}

/// Suggestions are as many as asked for, 10 by default, 20 at most.
pub proof fn law_suggestions_are_limited(asked: Option<i64>)
    ensures
        limited(asked, DEFAULT_SUGGESTIONS, MAX_SUGGESTIONS) == (match asked {
            Some(n) => if n <= 20 {
                n
            } else {
                20
            },
            None => 10i64,
        }),
{
}

/// There is a query exactly where one is given that is not empty, and it is the one given.
pub proof fn law_any_text_is_a_query(params: SearchParams)
    ensures
        query_of(params) is Some <==> params.q is Some && params.q->0@.len() > 0,
        query_of(params) matches Some(q) ==> q == params.q->0@,
{
}

/// File names are searched wherever the tags leave room on the page, and only there.
pub proof fn law_room_is_filled_by_file_names(count: nat, limit: i64)
    ensures
        needs_filenames(count, limit) <==> count < limit,
{
}

} // verus!
