//! Who makes a request: Matrix OpenID tokens, session tokens, and what their holders may do.

use vstd::prelude::*;

use crate::config::Config;
use crate::error::{joined, AppError, ErrorView};
use crate::models::Gif;
use crate::text::{ends_with, same, starts_with, texts};

verus! {

/// How long a session token is valid, in seconds. The client then exchanges a fresh OpenID token.
pub const SESSION_TTL_SECS: i64 = 3600;

/// What a client gets from its homeserver and posts to `/auth/matrix`.
pub struct OpenIdToken {
    pub access_token: String,
    pub matrix_server_name: String,
}

/// An authenticated user.
#[derive(Debug, Clone)]
pub struct AuthUser {
    pub mxid: String,
    pub is_admin: bool,
}

/// A GIF that everybody sees.
pub open spec fn is_shared(gif: Gif) -> bool {
    gif.visibility@ == "shared"@
}

impl AuthUser {
    /// The user uploaded the GIF.
    pub open spec fn owns(&self, gif: Gif) -> bool {
        gif.uploader_id@ == self.mxid@
    }

    /// The GIF is shared, or the user's own.
    pub open spec fn sees(&self, gif: Gif) -> bool {
        is_shared(gif) || self.owns(gif)
    }

    /// The GIF is the user's own, or the user is an admin and it is shared.
    pub open spec fn changes(&self, gif: Gif) -> bool {
        self.owns(gif) || (self.is_admin && is_shared(gif))
    }

    /// Whether the user may see the GIF: it is shared, or their own.
    pub fn can_view(&self, gif: &Gif) -> (r: bool)
        ensures
            r == self.sees(*gif),
    {
        same(gif.visibility.as_str(), "shared") || same(
            gif.uploader_id.as_str(),
            self.mxid.as_str(),
        )
    }

    /// Whether the user may change the GIF: it is their own, or they are an admin and it is
    /// shared. Admins never reach other users' private GIFs.
    pub fn can_mutate(&self, gif: &Gif) -> (r: bool)
        ensures
            r == self.changes(*gif),
    {
        same(gif.uploader_id.as_str(), self.mxid.as_str()) || (self.is_admin && same(
            gif.visibility.as_str(),
            "shared",
        ))
    }
}

/// Whoever may change a GIF may see it.
pub proof fn law_change_implies_view(user: AuthUser, gif: Gif)
    requires
        user.changes(gif),
    ensures
        user.sees(gif),
{
}

/// A private GIF is seen and changed by its uploader alone; admin rights do not count there.
pub proof fn law_private_is_the_uploaders(user: AuthUser, gif: Gif)
    requires
        !is_shared(gif),
    ensures
        user.sees(gif) == user.owns(gif),
        user.changes(gif) == user.owns(gif),
{
}

/// Of a shared GIF, everybody sees it, and its uploader and admins change it.
pub proof fn law_shared_is_everybodys(user: AuthUser, gif: Gif)
    requires
        is_shared(gif),
    ensures
        user.sees(gif),
        user.changes(gif) == (user.owns(gif) || user.is_admin),
{
}

/// A question to the homeserver: whose token this is.
pub struct OpenIdRequest {
    /// Where to ask.
    pub url: String,
    /// The token asked about, sent as the query parameter `access_token`.
    pub access_token: String,
    /// The server that the user must live on.
    pub server_name: String,
}

/// The homeserver's endpoint for OpenID tokens.
pub const USERINFO_PATH: &'static str = "/_matrix/federation/v1/openid/userinfo";

/// Starts the verification of a Matrix OpenID token: says what to ask the trusted homeserver.
/// A token of another homeserver is refused without asking.
pub fn verify_openid_token(config: &Config, token: &OpenIdToken) -> (r: Result<
    OpenIdRequest,
    AppError,
>)
    ensures
        match r {
            Ok(ask) => {
                &&& token.matrix_server_name@ == config.matrix_server_name@
                &&& ask.url@ == config.matrix_federation_url@ + USERINFO_PATH@
                &&& ask.access_token@ == token.access_token@
                &&& ask.server_name@ == config.matrix_server_name@
            },
            Err(e) => {
                &&& token.matrix_server_name@ != config.matrix_server_name@
                &&& e@ == ErrorView::Unauthorized
            },
        },
{
    if !same(token.matrix_server_name.as_str(), config.matrix_server_name.as_str()) {
        return Err(AppError::Unauthorized);
    }
    Ok(
        OpenIdRequest {
            url: joined(config.matrix_federation_url.as_str(), USERINFO_PATH),
            access_token: token.access_token.clone(),
            server_name: config.matrix_server_name.clone(),
        },
    )
}

/// What came of asking the homeserver.
pub enum OpenIdReply {
    /// It could not be asked.
    Failed(String),
    /// It answered with this status.
    Status(u16),
    /// It answered with success and a body that could not be read.
    Unreadable(String),
    /// It answered with success and named the user.
    UserInfo(String),
}

/// A Matrix user ID of a user who lives on the server.
pub open spec fn lives_on(mxid: Seq<char>, server: Seq<char>) -> bool {
    "@"@.is_prefix_of(mxid) && (":"@ + server).is_suffix_of(mxid)
}

/// What an answer of the homeserver means.
pub open spec fn openid_verdict(server: Seq<char>, reply: OpenIdReply) -> Result<
    Seq<char>,
    ErrorView,
> {
    match reply {
        OpenIdReply::Failed(m) => Err(
            ErrorView::Internal("openid verification request failed: "@ + m@),
        ),
        OpenIdReply::Status(_) => Err(ErrorView::Unauthorized),
        OpenIdReply::Unreadable(m) => Err(
            ErrorView::Internal("openid userinfo decode failed: "@ + m@),
        ),
        OpenIdReply::UserInfo(mxid) => if lives_on(mxid@, server) {
            Ok(mxid@)
        } else {
            Err(ErrorView::Unauthorized)
        },
    }
}

impl OpenIdRequest {
    /// Whether a body is worth reading: the status is one of success.
    pub fn is_success(&self, status: u16) -> (r: bool)
        ensures
            r == (200 <= status <= 299),
    {
        200 <= status && status <= 299
    }

    /// Completes the verification: the verified Matrix user ID.
    pub fn answered(&self, reply: OpenIdReply) -> (r: Result<String, AppError>)
        ensures
            match r {
                Ok(mxid) => openid_verdict(self.server_name@, reply) == Ok::<Seq<char>, ErrorView>(
                    mxid@,
                ),
                Err(e) => openid_verdict(self.server_name@, reply) == Err::<Seq<char>, ErrorView>(
                    e@,
                ),
            },
    {
        match reply {
            OpenIdReply::Failed(m) => Err(
                AppError::Internal(joined("openid verification request failed: ", m.as_str())),
            ),
            OpenIdReply::Status(_) => Err(AppError::Unauthorized),
            OpenIdReply::Unreadable(m) => Err(
                AppError::Internal(joined("openid userinfo decode failed: ", m.as_str())),
            ),
            OpenIdReply::UserInfo(mxid) => {
                let suffix = joined(":", self.server_name.as_str());
                if !starts_with(mxid.as_str(), "@") || !ends_with(mxid.as_str(), suffix.as_str()) {
                    return Err(AppError::Unauthorized);
                }
                Ok(mxid)
            },
        }
    }
}

/// What a session token says.
pub struct Claims {
    /// The Matrix user.
    pub sub: String,
    pub admin: bool,
    /// When the token expires, in seconds since 1970.
    pub exp: u64,
}

/// The mathematical content of [`Claims`].
#[verifier::ext_equal]
pub struct ClaimsView {
    pub sub: Seq<char>,
    pub admin: bool,
    pub exp: u64,
}

impl View for Claims {
    type V = ClaimsView;

    open spec fn view(&self) -> ClaimsView {
        ClaimsView { sub: self.sub@, admin: self.admin, exp: self.exp }
    }
}

/// The token that holds these claims, signed with this secret.
pub uninterp spec fn session_token(claims: ClaimsView, secret: Seq<char>) -> Seq<char>;

/// The claims of a token that is signed with this secret.
pub uninterp spec fn signed_claims(token: Seq<char>, secret: Seq<char>) -> Option<ClaimsView>;

/// `jsonwebtoken::encode` signs the claims with HMAC-SHA256. Such claims can always be encoded,
/// and the token carries them. The token itself is a standard's matter; the contract names it.
#[verifier::external_body]
pub(crate) fn sign_claims(claims: &Claims, secret: &str) -> (r: Result<String, String>)
    ensures
        r is Ok,
        r matches Ok(t) ==> t@ == session_token(claims@, secret@),
        r matches Ok(t) ==> signed_claims(t@, secret@) == Some(claims@),
{
    let mut body = serde_json::Map::new();
    body.insert("sub".into(), claims.sub.as_str().into());
    body.insert("admin".into(), claims.admin.into());
    body.insert("exp".into(), claims.exp.into());
    let key = jsonwebtoken::EncodingKey::from_secret(secret.as_bytes());
    jsonwebtoken::encode(&jsonwebtoken::Header::default(), &body, &key).map_err(|e| e.to_string())
}

/// The claims of a token's body, one by one, where they are there and of the right type.
pub struct RawClaims {
    pub sub: Option<String>,
    pub admin: Option<bool>,
    pub exp: Option<u64>,
}

/// The claims, where all of them are there.
pub open spec fn complete(raw: RawClaims) -> Option<ClaimsView> {
    match (raw.sub, raw.admin, raw.exp) {
        (Some(sub), Some(admin), Some(exp)) => Some(ClaimsView { sub: sub@, admin, exp }),
        _ => None,
    }
}

/// `jsonwebtoken::decode` checks that a token is signed with the secret, names no audience and has
/// an expiry. Where it accepts a token, the body is the one that was signed. It is asked not to
/// compare the expiry with the clock, so the outcome rests on the token and the secret alone. Which
/// tokens are signed is a standard's matter; the contract names the claims. The body is read as a
/// JSON object; of a claim that it gives twice, the last one counts.
#[verifier::external_body]
pub(crate) fn decode_token(token: &str, secret: &str) -> (r: Option<RawClaims>)
    ensures
        match r {
            Some(raw) => signed_claims(token@, secret@) == complete(raw),
            None => signed_claims(token@, secret@) is None,
        },
{
    let key = jsonwebtoken::DecodingKey::from_secret(secret.as_bytes());
    let mut rules = jsonwebtoken::Validation::default();
    rules.validate_exp = false;
    let body: serde_json::Map<String, serde_json::Value> =
        jsonwebtoken::decode(token, &key, &rules).ok()?.claims;
    Some(RawClaims {
        sub: body.get("sub").and_then(|v| v.as_str()).map(|s| s.to_string()),
        admin: body.get("admin").and_then(|v| v.as_bool()),
        exp: body.get("exp").and_then(|v| v.as_u64()),
    })
}

/// The times that the clock can give.
pub open spec fn clock_time(now: int) -> bool {
    -377_705_116_800 <= now <= 253_402_300_799
}

/// `time::OffsetDateTime::now_utc` reads the clock, and `unix_timestamp` counts its seconds since
/// 1970. The crate's dates end with the year 9999, on either side of the year 0.
#[verifier::external_body]
pub(crate) fn unix_now() -> (r: i64)
    ensures
        clock_time(r as int),
{
    time::OffsetDateTime::now_utc().unix_timestamp()
}

/// Seconds as a session token holds them; a time before 1970 wraps around.
pub open spec fn wrapped(seconds: int) -> u64 {
    if seconds >= 0 {
        seconds as u64
    } else {
        (seconds + 0x1_0000_0000_0000_0000) as u64
    }
}

/// What a session token that is minted at `now` says.
pub open spec fn claims_at(config: Config, mxid: Seq<char>, now: int) -> ClaimsView {
    ClaimsView {
        sub: mxid,
        admin: config.admins().contains(mxid),
        exp: wrapped(now + SESSION_TTL_SECS),
    }
}

/// What a session token that is minted at `now` says: the user, whether they are an admin, and
/// that it expires after [`SESSION_TTL_SECS`].
pub fn session_claims(config: &Config, mxid: &str, now: i64) -> (r: Claims)
    requires
        now + SESSION_TTL_SECS <= i64::MAX,
    ensures
        r@ == claims_at(*config, mxid@, now as int),
{
    let expires: i64 = now + SESSION_TTL_SECS;
    let exp: u64 = if expires >= 0 {
        expires as u64
    } else {
        (expires as i128 + 0x1_0000_0000_0000_0000) as u64
    };
    Claims { sub: mxid.to_owned(), admin: config.is_admin(mxid), exp }
}

/// A token that was minted for the user at `now`.
pub open spec fn minted_at(config: Config, mxid: Seq<char>, now: int, token: Seq<char>) -> bool {
    &&& token == session_token(claims_at(config, mxid, now), config.session_secret@)
    &&& signed_claims(token, config.session_secret@) == Some(claims_at(config, mxid, now))
}

/// A token that was minted for the user.
pub open spec fn minted(config: Config, mxid: Seq<char>, token: Seq<char>) -> bool {
    exists|now: int| clock_time(now) && #[trigger] minted_at(config, mxid, now, token)
}

/// Mints a session token for a verified user at `now`. Gives the token and how long it is valid.
pub fn mint_session_at(config: &Config, mxid: &str, now: i64) -> (r: Result<
    (String, i64),
    AppError,
>)
    requires
        now + SESSION_TTL_SECS <= i64::MAX,
    ensures
        r is Ok,
        r matches Ok((token, ttl)) ==> ttl == SESSION_TTL_SECS && minted_at(
            *config,
            mxid@,
            now as int,
            token@,
        ),
{
    let claims = session_claims(config, mxid, now);
    match sign_claims(&claims, config.session_secret.as_str()) {
        Ok(token) => Ok((token, SESSION_TTL_SECS)),
        Err(e) => Err(AppError::Internal(joined("failed to sign session: ", e.as_str()))),
    }
}

/// Mints a session token for a verified user. Gives the token and how long it is valid.
pub fn mint_session(config: &Config, mxid: &str) -> (r: Result<(String, i64), AppError>)
    ensures
        r is Ok,
        r matches Ok((token, ttl)) ==> ttl == SESSION_TTL_SECS && minted(*config, mxid@, token@),
{
    let now: i64 = unix_now();
    assert(clock_time(now as int));
    mint_session_at(config, mxid, now)
}

/// The mathematical content of an [`AuthUser`]: the Matrix user, and whether they are an admin.
pub open spec fn user_content(user: Option<AuthUser>) -> Option<(Seq<char>, bool)> {
    match user {
        Some(u) => Some((u.mxid@, u.is_admin)),
        None => None,
    }
}

/// Whom claims stand for at `now`: nobody where they have expired.
pub open spec fn claimed_at(claims: Option<ClaimsView>, now: int) -> Option<(Seq<char>, bool)> {
    match claims {
        Some(c) => if c.exp < now {
            None
        } else {
            Some((c.sub, c.admin))
        },
        None => None,
    }
}

/// Whom a session token stands for at `now`: nobody where it is not signed with the secret, where a
/// claim is missing, or where it has expired.
pub open spec fn session_at(config: Config, token: Seq<char>, now: int) -> Option<(Seq<char>, bool)> {
    claimed_at(signed_claims(token, config.session_secret@), now)
}

/// The user that a decoded session token stands for at `now`.
pub fn session_user(decoded: Option<RawClaims>, now: i64) -> (r: Option<AuthUser>)
    ensures
        user_content(r) == claimed_at(
            match decoded {
                Some(raw) => complete(raw),
                None => None,
            },
            now as int,
        ),
{
    match decoded {
        Some(raw) => match (raw.sub, raw.admin, raw.exp) {
            (Some(sub), Some(admin), Some(exp)) => {
                if now > 0 && exp < now as u64 {
                    return None;
                }
                Some(AuthUser { mxid: sub, is_admin: admin })
            },
            _ => None,
        },
        None => None,
    }
}

/// Checks the signature of a session token, and its expiry at `now`, and gives the user it stands
/// for. From the second behind its expiry on, a token is refused.
pub fn verify_session_at(config: &Config, token: &str, now: i64) -> (r: Option<AuthUser>)
    ensures
        user_content(r) == session_at(*config, token@, now as int),
{
    session_user(decode_token(token, config.session_secret.as_str()), now)
}

/// Checks the signature of a session token, and its expiry by the clock, and gives the user it
/// stands for.
pub fn verify_session(config: &Config, token: &str) -> (r: Option<AuthUser>)
    ensures
        exists|now: int|
            clock_time(now) && user_content(r) == #[trigger] session_at(*config, token@, now),
{
    let now: i64 = unix_now();
    assert(clock_time(now as int));
    verify_session_at(config, token, now)
}

/// Until it expires, a session token stands for the user it was minted for, wherever the secret is
/// the same, with the admin rights that the configuration gave them when it was minted. From the
/// second behind its lifetime on, it stands for nobody. It is stated of tokens that expire after
/// 1970.
pub proof fn law_session_gives_back_the_user(
    minting: Config,
    checking: Config,
    mxid: Seq<char>,
    token: Seq<char>,
    start: int,
    now: int,
)
    requires
        minted_at(minting, mxid, start, token),
        checking.session_secret@ == minting.session_secret@,
        0 <= start + SESSION_TTL_SECS <= i64::MAX,
    ensures
        now <= start + SESSION_TTL_SECS ==> session_at(checking, token, now) == Some(
            (mxid, minting.admins().contains(mxid)),
        ),
        now > start + SESSION_TTL_SECS ==> session_at(checking, token, now) is None,
{
}

/// A session token that has been refused for its age stays refused.
pub proof fn law_expired_stays_expired(config: Config, token: Seq<char>, now: int, later: int)
    requires
        session_at(config, token, now) is None,
        now <= later,
    ensures
        session_at(config, token, later) is None,
{
}

/// A verified OpenID token names a user of the trusted homeserver, whatever the homeserver says.
pub proof fn law_only_local_users(server: Seq<char>, reply: OpenIdReply)
    ensures
        openid_verdict(server, reply) matches Ok(mxid) ==> lives_on(mxid, server),
{
}

/// A user lives on the server exactly where their id is an at sign, a name, a colon and the server's
/// name.
pub proof fn law_local_ids_name_the_server(mxid: Seq<char>, server: Seq<char>)
    ensures
        lives_on(mxid, server) <==> exists|name: Seq<char>|
            mxid == seq!['@'] + #[trigger] (name + (seq![':'] + server)),
{
    reveal_strlit("@");
    reveal_strlit(":");
    let tail = seq![':'] + server;
    assert(":"@ + server =~= tail);
    if lives_on(mxid, server) {
        let n = mxid.len() - tail.len();
        assert(mxid[0] == "@"@[0]) by {
            assert("@"@ == mxid.subrange(0, 1));
            assert(mxid.subrange(0, 1)[0] == mxid[0]);
        }
        assert(tail == mxid.subrange(n, mxid.len() as int));
        assert(mxid[n] == tail[0]);
        assert(n > 0);
        let name = mxid.subrange(1, n);
        assert(mxid =~= seq!['@'] + (name + tail));
    }
    if exists|name: Seq<char>| mxid == seq!['@'] + #[trigger] (name + (seq![':'] + server)) {
        let name = choose|name: Seq<char>|
            mxid == seq!['@'] + #[trigger] (name + (seq![':'] + server));
        assert("@"@ =~= mxid.subrange(0, 1));
        assert(tail =~= mxid.subrange(mxid.len() - tail.len(), mxid.len() as int));
    }
}

/// Somebody is signed in exactly where the homeserver named them and they live on it; they are then
/// signed in under the id that it named.
pub proof fn law_only_a_named_user_signs_in(server: Seq<char>, reply: OpenIdReply)
    ensures
        openid_verdict(server, reply) is Ok <==> (reply matches OpenIdReply::UserInfo(mxid)
            && lives_on(mxid@, server)),
        reply matches OpenIdReply::UserInfo(mxid) ==> lives_on(mxid@, server) ==> openid_verdict(
            server,
            reply,
        ) == Ok::<Seq<char>, ErrorView>(mxid@),
        reply is Status ==> openid_verdict(server, reply) == Err::<Seq<char>, ErrorView>(
            ErrorView::Unauthorized,
        ),
        reply is Failed || reply is Unreadable ==> openid_verdict(server, reply)->Err_0 is Internal,
{
}

/// Claims stand for the user they name, with the admin rights they name, up to the second in which
/// they expire; where one is missing, they stand for nobody.
pub proof fn law_claims_stand_for_their_user(raw: RawClaims, now: int)
    ensures
        complete(raw) is Some <==> raw.sub is Some && raw.admin is Some && raw.exp is Some,
        complete(raw) is Some ==> claimed_at(complete(raw), now) == if now <= raw.exp->0 {
            Some((raw.sub->0@, raw.admin->0))
        } else {
            None
        },
        claimed_at(None, now) is None,
{
}

/// A session is minted for the user, with the admin rights of the configuration, and ends an hour
/// later.
pub proof fn law_sessions_last_an_hour(config: Config, mxid: Seq<char>, now: int)
    requires
        0 <= now + 3600 <= u64::MAX,
    ensures
        claims_at(config, mxid, now).sub == mxid,
        claims_at(config, mxid, now).admin == texts(config.admin_mxids@).contains(mxid),
        claims_at(config, mxid, now).exp == now + 3600,
{
}

} // verus!
