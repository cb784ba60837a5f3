//! A user's own lists: favorites, hidden GIFs and history.

use vstd::prelude::*;

use crate::auth::AuthUser;
use crate::error::{AppError, ErrorView};
use crate::models::{Gif, PaginationParams};
use crate::routes::cursor::{decode_offset, given};
use crate::routes::fetch::{for_viewing, load_viewable, Viewable};
use crate::routes::search::{
    law_listing_follows_the_cursor, list_limit, list_offset, page_limit, stands_at, text_given,
    PageRequest,
};
use crate::storage::db::{self, listing, txt};
use crate::storage::sql::{
    law_conditions_follow_the_flags, lets_through, sql, written, Filter, ParamView, Statement,
    StatementView,
};

verus! {

/// Confirms that a GIF was found and that the user may see it.
pub fn require_viewable(found: Option<Gif>, user: &AuthUser) -> (r: Result<Viewable, AppError>)
    ensures
        match r {
            Ok(v) => for_viewing(found, *user) == Ok::<Gif, ErrorView>(v.spec_gif())
                && v.spec_user().mxid@ == user.mxid@ && v.spec_user().is_admin == user.is_admin,
            Err(e) => for_viewing(found, *user) == Err::<Gif, ErrorView>(e@),
        },
{
    load_viewable(found, user)
}

/// Puts a GIF among the user's favorites.
pub fn add_favorite(target: &Viewable) -> (r: Statement)
    ensures
        r@ == sql(
            "INSERT INTO favorites (mxid, gif_id) VALUES ($1, $2) ON CONFLICT DO NOTHING"@,
            seq![txt(target.spec_user().mxid@), txt(target.spec_gif().id@)],
        ),
{
    db::add_favorite(target.user().mxid.as_str(), target.gif().id.as_str())
}

/// Takes a GIF from the user's favorites. The GIF need not be visible any more.
pub fn remove_favorite(user: &AuthUser, id: &str) -> (r: Statement)
    ensures
        r@ == sql(
            "DELETE FROM favorites WHERE mxid = $1 AND gif_id = $2"@,
            seq![txt(user.mxid@), txt(id@)],
        ),
{
    db::remove_favorite(user.mxid.as_str(), id)
}

/// Hides a GIF from the user's browsing.
pub fn add_hidden(target: &Viewable) -> (r: Statement)
    ensures
        r@ == sql(
            "INSERT INTO hidden (mxid, gif_id) VALUES ($1, $2) ON CONFLICT DO NOTHING"@,
            seq![txt(target.spec_user().mxid@), txt(target.spec_gif().id@)],
        ),
{
    db::add_hidden(target.user().mxid.as_str(), target.gif().id.as_str())
}

/// Shows a hidden GIF again. The GIF need not be visible any more.
pub fn remove_hidden(user: &AuthUser, id: &str) -> (r: Statement)
    ensures
        r@ == sql(
            "DELETE FROM hidden WHERE mxid = $1 AND gif_id = $2"@,
            seq![txt(user.mxid@), txt(id@)],
        ),
{
    db::remove_hidden(user.mxid.as_str(), id)
}

/// The lists that a user has.
#[derive(Clone, Copy, PartialEq, Eq, Debug, Structural)]
pub enum ListKind {
    Favorites,
    Hidden,
    History,
}

/// The statement that lists a page.
pub open spec fn list_statement(
    kind: ListKind,
    viewer: Seq<char>,
    grab_nsfw: bool,
    limit: i64,
    offset: i64,
) -> StatementView {
    match kind {
        ListKind::Favorites => listing(
            "favorites f ON f.gif_id = g.id"@,
            "f.mxid"@,
            "f.created_at"@,
            viewer,
            grab_nsfw,
            limit,
            offset,
        ),
        ListKind::Hidden => listing(
            "hidden hd ON hd.gif_id = g.id"@,
            "hd.mxid"@,
            "hd.created_at"@,
            viewer,
            grab_nsfw,
            limit,
            offset,
        ),
        ListKind::History => listing(
            "selections s ON s.gif_id = g.id"@,
            "s.mxid"@,
            "s.used_at"@,
            viewer,
            grab_nsfw,
            limit,
            offset,
        ),
    }
}

/// `r` is the page of the user's list that is asked for.
pub open spec fn is_list_page(
    r: PageRequest,
    user: AuthUser,
    params: PaginationParams,
    kind: ListKind,
) -> bool {
    &&& r.limit == list_limit(params)
    &&& r.offset == list_offset(params)
    &&& r.seed is None
    &&& r.statement@ == list_statement(
        kind,
        user.mxid@,
        params.grab_nsfw,
        list_limit(params),
        list_offset(params),
    )
}

/// The page of one of the user's lists that is asked for.
pub fn list(user: &AuthUser, params: &PaginationParams, kind: ListKind) -> (r: PageRequest)
    ensures
        is_list_page(r, *user, *params, kind),
{
    let limit: i64 = page_limit(params.limit);
    let pos = match &params.pos {
        Some(p) => Some(p.as_str()),
        None => None,
    };
    assert(given(pos) == text_given(params.pos));
    let offset: i64 = decode_offset(pos);
    let viewer = user.mxid.as_str();
    let statement = match kind {
        ListKind::Favorites => db::list_favorites(viewer, params.grab_nsfw, limit, offset),
        ListKind::Hidden => db::list_hidden(viewer, params.grab_nsfw, limit, offset),
        ListKind::History => db::list_history(viewer, params.grab_nsfw, limit, offset),
    };
    PageRequest { statement, limit, offset, seed: None }
}

/// The page of the user's favorites that is asked for, the newest first.
pub fn list_favorites(user: &AuthUser, params: &PaginationParams) -> (r: PageRequest)
    ensures
        is_list_page(r, *user, *params, ListKind::Favorites),
{
    list(user, params, ListKind::Favorites)
}

/// The page of what the user has hidden that is asked for, the newest first.
pub fn list_hidden(user: &AuthUser, params: &PaginationParams) -> (r: PageRequest)
    ensures
        is_list_page(r, *user, *params, ListKind::Hidden),
{
    list(user, params, ListKind::Hidden)
}

/// The page of the user's history that is asked for, the most recently used first.
pub fn list_history(user: &AuthUser, params: &PaginationParams) -> (r: PageRequest)
    ensures
        is_list_page(r, *user, *params, ListKind::History),
{
    list(user, params, ListKind::History)
}

/// A page of one of the user's lists shows what the user has put there, of that what they may see,
/// NSFW GIFs only where asked for, hidden ones too; the latest first. It stands where its cursor
/// leads, and is of the size asked for, 20 by default, 50 at most.
pub proof fn law_own_lists_show_what_is_visible(
    r: PageRequest,
    user: AuthUser,
    params: PaginationParams,
    kind: ListKind,
    n: i64,
)
    requires
        is_list_page(r, user, params, kind),
        stands_at(params.pos, n),
    ensures
        r.offset == n,
        r.seed is None,
        r.limit == (match params.limit {
            Some(l) => if l <= 50 {
                l
            } else {
                50
            },
            None => 20i64,
        }),
        r.statement@.params == seq![
            ParamView::BigInt(r.limit),
            ParamView::BigInt(n),
            ParamView::Text(user.mxid@),
        ],
        ({
            let (table, owner, order) = match kind {
                ListKind::Favorites => (
                    "favorites f ON f.gif_id = g.id"@,
                    "f.mxid"@,
                    "f.created_at"@,
                ),
                ListKind::Hidden => (
                    "hidden hd ON hd.gif_id = g.id"@,
                    "hd.mxid"@,
                    "hd.created_at"@,
                ),
                ListKind::History => ("selections s ON s.gif_id = g.id"@, "s.mxid"@, "s.used_at"@),
            };
            exists|f: Filter|
                {
                    &&& #[trigger] lets_through(f, user.mxid@, false, params.grab_nsfw, true)
                    &&& r.statement@.text == "SELECT "@ + db::G_COLS@ + " FROM gifs g JOIN "@ + table
                        + " WHERE "@ + owner + " = $3 AND "@ + written(f, "g"@, "$3"@)
                        + " ORDER BY "@ + order + " DESC LIMIT $1 OFFSET $2"@
                }
        }),
{
    law_listing_follows_the_cursor(params, n);
    law_conditions_follow_the_flags(user.mxid@, false, params.grab_nsfw, true);
}

} // verus!
