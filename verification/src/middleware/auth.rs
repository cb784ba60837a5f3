//! The check that every protected request passes first.

use vstd::prelude::*;

use crate::auth::{clock_time, session_at, unix_now, user_content, verify_session_at, AuthUser};
use crate::config::Config;
use crate::error::ErrorResponse;
use crate::routes::cursor::given;
use crate::text::strip_prefix;

verus! {

/// The scheme that a session token is sent under.
pub const BEARER: &'static str = "Bearer ";

/// The session token of an `Authorization` header.
pub open spec fn bearer_of(header: Option<Seq<char>>) -> Option<Seq<char>> {
    match header {
        Some(h) => if BEARER@.is_prefix_of(h) {
            Some(h.skip(BEARER@.len() as int))
        } else {
            None
        },
        None => None,
    }
}

/// The session token of an `Authorization` header.
pub fn bearer_token(header: Option<&str>) -> (r: Option<String>)
    ensures
        match (r, bearer_of(given(header))) {
            (Some(token), Some(t)) => token@ == t,
            (None, None) => true,
            _ => false,
        },
{
    match header {
        Some(h) => {
            let r = strip_prefix(h, BEARER);
            proof {
                if r is Some {
                    assert(h@.skip(BEARER@.len() as int) == r->0@);
                }
            }
            r
        },
        None => None,
    }
}

/// The answer to a request without a valid session.
pub open spec fn is_unauthorized(r: ErrorResponse, message: Seq<char>) -> bool {
    r.status == 401 && r.error@ == "unauthorized"@ && r.message@ == message
}

/// The answer to a request without a valid session.
fn unauthorized(message: &str) -> (r: ErrorResponse)
    ensures
        is_unauthorized(r, message@),
{
    ErrorResponse { status: 401, error: "unauthorized".to_owned(), message: message.to_owned() }
}

/// What becomes of a request with this `Authorization` header at `now`.
pub open spec fn session_checked(
    config: Config,
    header: Option<Seq<char>>,
    now: int,
    r: Result<AuthUser, ErrorResponse>,
) -> bool {
    match bearer_of(header) {
        None => r matches Err(e) && is_unauthorized(e, "missing Authorization: Bearer token"@),
        Some(token) => match session_at(config, token, now) {
            Some(user) => r matches Ok(u) && user_content(Some(u)) == Some(user),
            None => r matches Err(e) && is_unauthorized(e, "invalid or expired session token"@),
        },
    }
}

/// Requires a session token in the `Authorization: Bearer` header that is valid at `now`, and gives
/// the user it stands for.
pub fn require_session_at(config: &Config, header: Option<&str>, now: i64) -> (r: Result<
    AuthUser,
    ErrorResponse,
>)
    ensures
        session_checked(*config, given(header), now as int, r),
{
    let token = match bearer_token(header) {
        Some(token) => token,
        None => return Err(unauthorized("missing Authorization: Bearer token")),
    };
    match verify_session_at(config, token.as_str(), now) {
        Some(user) => Ok(user),
        None => Err(unauthorized("invalid or expired session token")),
    }
}

/// Requires a valid session token in the `Authorization: Bearer` header, and gives the user it
/// stands for. Whether the token has expired is for the clock to say.
pub fn require_session(config: &Config, header: Option<&str>) -> (r: Result<
    AuthUser,
    ErrorResponse,
>)
    ensures
        exists|now: int|
            clock_time(now) && #[trigger] session_checked(*config, given(header), now, r),
{
    let now: i64 = unix_now();
    require_session_at(config, header, now)
}

/// The token of a header is all that stands behind the scheme, which is written exactly so.
pub proof fn law_token_stands_behind_the_scheme(header: Seq<char>, token: Seq<char>)
    ensures
        bearer_of(Some("Bearer "@ + token)) == Some(token),
        bearer_of(Some(header)) == Some(token) ==> header == "Bearer "@ + token,
        bearer_of(None) is None,
{
    let h = "Bearer "@ + token;
    let n = "Bearer "@.len() as int;
    assert("Bearer "@ =~= h.subrange(0, n));
    assert(h.skip(n) =~= token);
    if bearer_of(Some(header)) == Some(token) {
        assert("Bearer "@ == header.subrange(0, n));
        assert(header =~= "Bearer "@ + token);
    }
}

/// A request passes exactly where its header brings a token that stands for a user at the time, and
/// then as that user; every other one is answered 401.
pub proof fn law_only_a_session_passes(
    config: Config,
    header: Option<Seq<char>>,
    now: int,
    r: Result<AuthUser, ErrorResponse>,
)
    requires
        session_checked(config, header, now, r),
    ensures
        r is Ok <==> header is Some && bearer_of(header) is Some && session_at(
            config,
            bearer_of(header)->0,
            now,
        ) is Some,
        r matches Ok(u) ==> Some((u.mxid@, u.is_admin)) == session_at(
            config,
            bearer_of(header)->0,
            now,
        ),
        r matches Err(e) ==> e.status == 401 && e.error@ == "unauthorized"@,
        bearer_of(header) is None ==> (r matches Err(e) && e.message@
            == "missing Authorization: Bearer token"@),
{
}

} // verus!
