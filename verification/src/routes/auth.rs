//! Signing in.

use vstd::prelude::*;

use crate::auth::{mint_session, minted, openid_verdict, OpenIdReply, OpenIdRequest, SESSION_TTL_SECS};
use crate::config::Config;
use crate::error::AppError;

verus! {

/// The answer to a client that signed in.
pub struct SessionResponse {
    pub token: String,
    pub mxid: String,
    /// How long the token is valid, in seconds.
    pub expires_in: i64,
    pub is_admin: bool,
}

/// Exchanges what the homeserver said of an OpenID token for a session token: the verified user
/// gets one, with the admin rights that the configuration gives them.
pub fn matrix_login(config: &Config, asked: &OpenIdRequest, reply: OpenIdReply) -> (r: Result<
    SessionResponse,
    AppError,
>)
    ensures
        match openid_verdict(asked.server_name@, reply) {
            Ok(mxid) => {
                &&& r matches Ok(session)
                &&& session.mxid@ == mxid
                &&& session.is_admin == config.admins().contains(mxid)
                &&& session.expires_in == SESSION_TTL_SECS
                &&& minted(*config, mxid, session.token@)
            },
            Err(refused) => r matches Err(e) && e@ == refused,
        },
{
    let mxid = asked.answered(reply)?;
    let is_admin = config.is_admin(mxid.as_str());
    let (token, expires_in) = mint_session(config, mxid.as_str())?;
    Ok(SessionResponse { token, mxid, expires_in, is_admin })
}

} // verus!
