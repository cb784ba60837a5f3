//! Which request goes to which handler, who may make it, and how often.

use vstd::prelude::*;

verus! {

/// The methods that requests are made with.
#[derive(Clone, Copy, PartialEq, Eq, Debug, Structural)]
pub enum Method {
    Get,
    Post,
    Put,
    Patch,
    Delete,
}

/// What handles a request.
#[derive(Clone, Copy, PartialEq, Eq, Debug, Structural)]
pub enum Handler {
    Upload,
    GetGif,
    PatchGif,
    DeleteGif,
    SelectGif,
    AddFavorite,
    RemoveFavorite,
    AddHidden,
    RemoveHidden,
    PutTags,
    PatchTags,
    DeleteTags,
    Search,
    Featured,
    Recent,
    ListFavorites,
    ListHidden,
    ListHistory,
    ServeFile,
    Suggest,
    MatrixLogin,
    Health,
}

/// The groups of routes. All routes of a group share its limits.
#[derive(Clone, Copy, PartialEq, Eq, Debug, Structural)]
pub enum Group {
    /// What signed-in users do.
    Protected,
    /// Serving files to signed-in users. One page of GIFs makes a client fetch dozens of them.
    Files,
    /// Completing tags for signed-in users, with every keystroke.
    Suggest,
    /// Signing in.
    Auth,
    /// The probe.
    Public,
}

/// A request, its handler and its group.
pub struct Route {
    pub method: Method,
    pub path: &'static str,
    pub handler: Handler,
    pub group: Group,
}

/// The mathematical content of a [`Route`].
#[verifier::ext_equal]
pub struct RouteView {
    pub method: Method,
    pub path: Seq<char>,
    pub handler: Handler,
    pub group: Group,
}

impl View for Route {
    type V = RouteView;

    open spec fn view(&self) -> RouteView {
        RouteView {
            method: self.method,
            path: self.path@,
            handler: self.handler,
            group: self.group,
        }
    }
}

/// A request, its handler and its group.
pub open spec fn route_of(
    method: Method,
    path: Seq<char>,
    handler: Handler,
    group: Group,
) -> RouteView {
    RouteView { method, path, handler, group }
}

/// The routes that need a session and share the limit of ordinary requests.
pub open spec fn protected_routes() -> Seq<RouteView> {
    let g = Group::Protected;
    seq![
        route_of(Method::Post, "/gifs"@, Handler::Upload, g),
        route_of(Method::Get, "/gifs/{id}"@, Handler::GetGif, g),
        route_of(Method::Patch, "/gifs/{id}"@, Handler::PatchGif, g),
        route_of(Method::Delete, "/gifs/{id}"@, Handler::DeleteGif, g),
        route_of(Method::Post, "/gifs/{id}/select"@, Handler::SelectGif, g),
        route_of(Method::Put, "/gifs/{id}/favorite"@, Handler::AddFavorite, g),
        route_of(Method::Delete, "/gifs/{id}/favorite"@, Handler::RemoveFavorite, g),
        route_of(Method::Put, "/gifs/{id}/hide"@, Handler::AddHidden, g),
        route_of(Method::Delete, "/gifs/{id}/hide"@, Handler::RemoveHidden, g),
        route_of(Method::Put, "/gifs/{id}/tags"@, Handler::PutTags, g),
        route_of(Method::Patch, "/gifs/{id}/tags"@, Handler::PatchTags, g),
        route_of(Method::Delete, "/gifs/{id}/tags"@, Handler::DeleteTags, g),
        route_of(Method::Get, "/gifs/search"@, Handler::Search, g),
        route_of(Method::Get, "/gifs/featured"@, Handler::Featured, g),
        route_of(Method::Get, "/gifs/recent"@, Handler::Recent, g),
        route_of(Method::Get, "/gifs/favorites"@, Handler::ListFavorites, g),
        route_of(Method::Get, "/gifs/hidden"@, Handler::ListHidden, g),
        route_of(Method::Get, "/gifs/history"@, Handler::ListHistory, g),
    ]
}

/// All routes.
pub open spec fn all_routes() -> Seq<RouteView> {
    protected_routes() + seq![
        route_of(Method::Get, "/gifs/{id}/file"@, Handler::ServeFile, Group::Files),
        route_of(Method::Get, "/gifs/tags/suggest"@, Handler::Suggest, Group::Suggest),
        route_of(Method::Post, "/auth/matrix"@, Handler::MatrixLogin, Group::Auth),
        route_of(Method::Get, "/health"@, Handler::Health, Group::Public),
    ]
}

fn route(method: Method, path: &'static str, handler: Handler, group: Group) -> (r: Route)
    ensures
        r@ == route_of(method, path@, handler, group),
{
    Route { method, path, handler, group }
}

/// What a list of routes holds.
pub open spec fn views(routes: Seq<Route>) -> Seq<RouteView> {
    routes.map_values(|r: Route| r@)
}

fn push_route(
    routes: &mut Vec<Route>,
    method: Method,
    path: &'static str,
    handler: Handler,
    group: Group,
)
    ensures
        views(final(routes)@) == views(old(routes)@).push(
            route_of(method, path@, handler, group),
        ),
{
    let ghost before = routes@;
    let one = route(method, path, handler, group);
    routes.push(one);
    assert(views(routes@) == views(before).push(one@));
}

/// The routes of the server.
pub fn create_router() -> (r: Vec<Route>)
    ensures
        views(r@) == all_routes(),
{
    let mut r: Vec<Route> = Vec::new();
    let g = Group::Protected;
    assert(views(r@) == Seq::<RouteView>::empty());
    push_route(&mut r, Method::Post, "/gifs", Handler::Upload, g);
    push_route(&mut r, Method::Get, "/gifs/{id}", Handler::GetGif, g);
    push_route(&mut r, Method::Patch, "/gifs/{id}", Handler::PatchGif, g);
    push_route(&mut r, Method::Delete, "/gifs/{id}", Handler::DeleteGif, g);
    push_route(&mut r, Method::Post, "/gifs/{id}/select", Handler::SelectGif, g);
    push_route(&mut r, Method::Put, "/gifs/{id}/favorite", Handler::AddFavorite, g);
    push_route(&mut r, Method::Delete, "/gifs/{id}/favorite", Handler::RemoveFavorite, g);
    push_route(&mut r, Method::Put, "/gifs/{id}/hide", Handler::AddHidden, g);
    push_route(&mut r, Method::Delete, "/gifs/{id}/hide", Handler::RemoveHidden, g);
    push_route(&mut r, Method::Put, "/gifs/{id}/tags", Handler::PutTags, g);
    push_route(&mut r, Method::Patch, "/gifs/{id}/tags", Handler::PatchTags, g);
    push_route(&mut r, Method::Delete, "/gifs/{id}/tags", Handler::DeleteTags, g);
    push_route(&mut r, Method::Get, "/gifs/search", Handler::Search, g);
    push_route(&mut r, Method::Get, "/gifs/featured", Handler::Featured, g);
    push_route(&mut r, Method::Get, "/gifs/recent", Handler::Recent, g);
    push_route(&mut r, Method::Get, "/gifs/favorites", Handler::ListFavorites, g);
    push_route(&mut r, Method::Get, "/gifs/hidden", Handler::ListHidden, g);
    push_route(&mut r, Method::Get, "/gifs/history", Handler::ListHistory, g);
    assert(views(r@) == protected_routes());
    push_route(&mut r, Method::Get, "/gifs/{id}/file", Handler::ServeFile, Group::Files);
    push_route(&mut r, Method::Get, "/gifs/tags/suggest", Handler::Suggest, Group::Suggest);
    push_route(&mut r, Method::Post, "/auth/matrix", Handler::MatrixLogin, Group::Auth);
    push_route(&mut r, Method::Get, "/health", Handler::Health, Group::Public);
    assert(views(r@) == all_routes());
    r
}

/// The largest body of a request, in bytes.
pub const MAX_BODY_BYTES: usize = 52_428_800;

/// Whom a limit counts by.
#[derive(Clone, Copy, PartialEq, Eq, Debug, Structural)]
pub enum RateKey {
    /// Each signed-in user.
    User,
    /// Each client address.
    Address,
    /// Everybody together.
    Everybody,
}

/// A limit on how often requests are made: so many at once, and one more for every interval.
#[derive(Clone, Copy, PartialEq, Eq, Debug, Structural)]
pub struct RateLimit {
    pub key: RateKey,
    pub interval_ms: u64,
    pub burst: u32,
}

/// The limits of a group, the innermost first: a request passes the last one first, and counts at
/// a limit only where it has passed those outside of it.
pub open spec fn limits(group: Group) -> Seq<RateLimit> {
    match group {
        Group::Protected => seq![RateLimit { key: RateKey::User, interval_ms: 33, burst: 60 }],
        Group::Files => seq![RateLimit { key: RateKey::User, interval_ms: 5, burst: 1000 }],
        Group::Suggest => seq![RateLimit { key: RateKey::User, interval_ms: 20, burst: 200 }],
        Group::Auth => seq![
            RateLimit { key: RateKey::Everybody, interval_ms: 200, burst: 20 },
            RateLimit { key: RateKey::Address, interval_ms: 1000, burst: 5 },
        ],
        Group::Public => Seq::empty(),
    }
}

impl Group {
    /// A request of the group needs a session.
    pub open spec fn protected(self) -> bool {
        self is Protected || self is Files || self is Suggest
    }

    /// Whether a request of the group needs a session.
    pub fn needs_session(&self) -> (r: bool)
        ensures
            r == self.protected(),
    {
        match self {
            Group::Protected | Group::Files | Group::Suggest => true,
            Group::Auth | Group::Public => false,
        }
    }

    /// The limits of the group, the innermost first.
    pub fn rate_limits(&self) -> (r: Vec<RateLimit>)
        ensures
            r@ == limits(*self),
    {
        match self {
            Group::Protected => vec![RateLimit { key: RateKey::User, interval_ms: 33, burst: 60 }],
            Group::Files => vec![RateLimit { key: RateKey::User, interval_ms: 5, burst: 1000 }],
            Group::Suggest => vec![RateLimit { key: RateKey::User, interval_ms: 20, burst: 200 }],
            Group::Auth => vec![
                RateLimit { key: RateKey::Everybody, interval_ms: 200, burst: 20 },
                RateLimit { key: RateKey::Address, interval_ms: 1000, burst: 5 },
            ],
            Group::Public => Vec::new(),
        }
    }
}

/// Every request but signing in and the probe needs a session.
pub proof fn law_all_but_two_need_a_session(i: int)
    requires
        0 <= i < all_routes().len(),
    ensures
        ({
            let r = all_routes()[i];
            r.group.protected() || (r.method == Method::Post && r.path == "/auth/matrix"@) || (
            r.method == Method::Get && r.path == "/health"@)
        }),
{
}

/// Limits that count by user stand only where there is a user to count by.
pub proof fn law_user_limits_need_a_session(group: Group, i: int)
    requires
        0 <= i < limits(group).len(),
    ensures
        limits(group)[i].key == RateKey::User <==> group.protected(),
{
}

/// One address alone cannot use up what all have together for signing in. Its own limit stands
/// outside the limit of all, so that a request refused for its address does not count there; and
/// what its own limit lets through is less than all have, at once and over time.
pub proof fn law_one_address_leaves_room(i: int, j: int)
    requires
        0 <= i < limits(Group::Auth).len(),
        0 <= j < limits(Group::Auth).len(),
        limits(Group::Auth)[i].key == RateKey::Address,
        limits(Group::Auth)[j].key == RateKey::Everybody,
    ensures
        j < i,
        limits(Group::Auth)[i].burst < limits(Group::Auth)[j].burst,
        limits(Group::Auth)[i].interval_ms > limits(Group::Auth)[j].interval_ms,
{
}

/// Signing in has a limit of either kind.
pub proof fn law_signing_in_is_limited()
    ensures
        exists|i: int|
            0 <= i < limits(Group::Auth).len() && (#[trigger] limits(Group::Auth)[i]).key
                == RateKey::Address,
        exists|i: int|
            0 <= i < limits(Group::Auth).len() && (#[trigger] limits(Group::Auth)[i]).key
                == RateKey::Everybody,
{
    assert(limits(Group::Auth)[0].key == RateKey::Everybody);
    assert(limits(Group::Auth)[1].key == RateKey::Address);
}

/// Every handler is reached by one method on one path, in its group.
pub proof fn law_requests_reach_their_handlers(i: int)
    requires
        0 <= i < all_routes().len(),
    ensures
        ({
            let r = all_routes()[i];
            let (method, path, group) = match r.handler {
                Handler::Upload => (Method::Post, "/gifs"@, Group::Protected),
                Handler::GetGif => (Method::Get, "/gifs/{id}"@, Group::Protected),
                Handler::PatchGif => (Method::Patch, "/gifs/{id}"@, Group::Protected),
                Handler::DeleteGif => (Method::Delete, "/gifs/{id}"@, Group::Protected),
                Handler::SelectGif => (Method::Post, "/gifs/{id}/select"@, Group::Protected),
                Handler::AddFavorite => (Method::Put, "/gifs/{id}/favorite"@, Group::Protected),
                Handler::RemoveFavorite => (
                    Method::Delete,
                    "/gifs/{id}/favorite"@,
                    Group::Protected,
                ),
                Handler::AddHidden => (Method::Put, "/gifs/{id}/hide"@, Group::Protected),
                Handler::RemoveHidden => (Method::Delete, "/gifs/{id}/hide"@, Group::Protected),
                Handler::PutTags => (Method::Put, "/gifs/{id}/tags"@, Group::Protected),
                Handler::PatchTags => (Method::Patch, "/gifs/{id}/tags"@, Group::Protected),
                Handler::DeleteTags => (Method::Delete, "/gifs/{id}/tags"@, Group::Protected),
                Handler::Search => (Method::Get, "/gifs/search"@, Group::Protected),
                Handler::Featured => (Method::Get, "/gifs/featured"@, Group::Protected),
                Handler::Recent => (Method::Get, "/gifs/recent"@, Group::Protected),
                Handler::ListFavorites => (Method::Get, "/gifs/favorites"@, Group::Protected),
                Handler::ListHidden => (Method::Get, "/gifs/hidden"@, Group::Protected),
                Handler::ListHistory => (Method::Get, "/gifs/history"@, Group::Protected),
                Handler::ServeFile => (Method::Get, "/gifs/{id}/file"@, Group::Files),
                Handler::Suggest => (Method::Get, "/gifs/tags/suggest"@, Group::Suggest),
                Handler::MatrixLogin => (Method::Post, "/auth/matrix"@, Group::Auth),
                Handler::Health => (Method::Get, "/health"@, Group::Public),
            };
            r.method == method && r.path == path && r.group == group
        }),
{
}

/// No handler is without a route.
pub proof fn law_every_handler_has_a_route(h: Handler)
    ensures
        exists|i: int| 0 <= i < all_routes().len() && (#[trigger] all_routes()[i]).handler == h,
{
    let i: int = match h {
        Handler::Upload => 0,
        Handler::GetGif => 1,
        Handler::PatchGif => 2,
        Handler::DeleteGif => 3,
        Handler::SelectGif => 4,
        Handler::AddFavorite => 5,
        Handler::RemoveFavorite => 6,
        Handler::AddHidden => 7,
        Handler::RemoveHidden => 8,
        Handler::PutTags => 9,
        Handler::PatchTags => 10,
        Handler::DeleteTags => 11,
        Handler::Search => 12,
        Handler::Featured => 13,
        Handler::Recent => 14,
        Handler::ListFavorites => 15,
        Handler::ListHidden => 16,
        Handler::ListHistory => 17,
        Handler::ServeFile => 18,
        Handler::Suggest => 19,
        Handler::MatrixLogin => 20,
        Handler::Health => 21,
    };
    assert(all_routes()[i].handler == h);
}

} // verus!
