use gif_server::auth::{
    mint_session, mint_session_at, session_claims, session_user, verify_openid_token,
    verify_session, verify_session_at, AuthUser, OpenIdReply, OpenIdToken, RawClaims,
    SESSION_TTL_SECS,
};
use gif_server::config::Config;
use gif_server::error::AppError;
use gif_server::middleware::auth::{bearer_token, require_session, require_session_at};
use gif_server::models::Gif;
use gif_server::routes::auth::matrix_login;

fn config() -> Config {
    Config {
        database_url: String::new(),
        storage_path: "storage".to_string(),
        host: "0.0.0.0".to_string(),
        port: 8847,
        base_url: "http://localhost:8847".to_string(),
        matrix_server_name: "example.com".to_string(),
        matrix_federation_url: "https://example.com:8448".to_string(),
        admin_mxids: vec!["@admin:example.com".to_string()],
        session_secret: "0123456789abcdef0123456789abcdef".to_string(),
        storage_max_bytes: u64::MAX,
        per_user_storage_bytes: u64::MAX,
        cors_allowed_origins: Vec::new(),
    }
}

fn user(mxid: &str, is_admin: bool) -> AuthUser {
    AuthUser { mxid: mxid.to_string(), is_admin }
}

fn gif(uploader: &str, visibility: &str) -> Gif {
    Gif {
        id: "g".to_string(),
        filename: "f.gif".to_string(),
        hash: "h".to_string(),
        uploader_id: uploader.to_string(),
        visibility: visibility.to_string(),
        is_nsfw: false,
        frame_count: 1,
        duration_ms: 10,
        uses: 0,
        uploaded_at: time::OffsetDateTime::UNIX_EPOCH,
    }
}

#[test]
fn who_sees_and_changes() {
    let shared = gif("@a:x", "shared");
    let private = gif("@a:x", "private");
    let a = user("@a:x", false);
    let b = user("@b:x", false);
    let admin = user("@c:x", true);
    assert!(a.can_view(&shared) && b.can_view(&shared) && admin.can_view(&shared));
    assert!(a.can_view(&private) && !b.can_view(&private) && !admin.can_view(&private));
    assert!(a.can_mutate(&shared) && !b.can_mutate(&shared) && admin.can_mutate(&shared));
    assert!(a.can_mutate(&private) && !b.can_mutate(&private) && !admin.can_mutate(&private));
}

#[test]
fn sessions_give_back_the_user() {
    let c = config();
    for (mxid, admin) in [("@u:example.com", false), ("@admin:example.com", true)] {
        let (token, ttl) = mint_session(&c, mxid).unwrap();
        assert_eq!(ttl, 3600);
        let u = verify_session(&c, &token).unwrap();
        assert_eq!(u.mxid, mxid);
        assert_eq!(u.is_admin, admin);
    }
}

#[test]
fn foreign_and_broken_tokens_are_refused() {
    let c = config();
    let (token, _) = mint_session(&c, "@u:example.com").unwrap();
    let mut other = config();
    other.session_secret = "another secret, another secret!!".to_string();
    assert!(verify_session(&other, &token).is_none());
    assert!(verify_session(&c, "").is_none());
    assert!(verify_session(&c, "a.b.c").is_none());
    let mut tampered = token.clone();
    tampered.push('A');
    assert!(verify_session(&c, &tampered).is_none());
}

fn signed(c: &Config, claims: &serde_json::Map<String, serde_json::Value>) -> String {
    let key = jsonwebtoken::EncodingKey::from_secret(c.session_secret.as_bytes());
    jsonwebtoken::encode(&jsonwebtoken::Header::default(), claims, &key).unwrap()
}

fn claims(exp: u64) -> serde_json::Map<String, serde_json::Value> {
    let mut m = serde_json::Map::new();
    m.insert("sub".to_string(), serde_json::Value::from("@u:example.com"));
    m.insert("admin".to_string(), serde_json::Value::from(true));
    m.insert("exp".to_string(), serde_json::Value::from(exp));
    m
}

#[test]
fn expired_and_incomplete_tokens_are_refused() {
    let c = config();
    assert!(verify_session(&c, &signed(&c, &claims(4_000_000_000))).is_some());
    assert!(verify_session(&c, &signed(&c, &claims(u64::MAX))).is_some());
    assert!(verify_session(&c, &signed(&c, &claims(1_000_000_000))).is_none());
    let mut no_admin = claims(4_000_000_000);
    no_admin.remove("admin");
    assert!(verify_session(&c, &signed(&c, &no_admin)).is_none());
    let mut no_exp = claims(4_000_000_000);
    no_exp.remove("exp");
    assert!(verify_session(&c, &signed(&c, &no_exp)).is_none());
    let mut aud = claims(4_000_000_000);
    aud.insert("aud".to_string(), serde_json::Value::from("x"));
    assert!(verify_session(&c, &signed(&c, &aud)).is_none());
}

#[test]
fn minted_tokens_hold_the_claims() {
    let c = config();
    let (token, _) = mint_session(&c, "@admin:example.com").unwrap();
    let key = jsonwebtoken::DecodingKey::from_secret(c.session_secret.as_bytes());
    let data = jsonwebtoken::decode::<serde_json::Map<String, serde_json::Value>>(
        &token,
        &key,
        &jsonwebtoken::Validation::default(),
    )
    .unwrap();
    assert_eq!(data.claims["sub"], "@admin:example.com");
    assert_eq!(data.claims["admin"], true);
    let exp = data.claims["exp"].as_i64().unwrap();
    let now = time::OffsetDateTime::now_utc().unix_timestamp();
    assert!(exp >= now + SESSION_TTL_SECS - 10 && exp <= now + SESSION_TTL_SECS);
    assert_eq!(data.claims.len(), 3);
}

#[test]
fn claims_at_a_time() {
    let c = config();
    let now = session_claims(&c, "@u:example.com", 1_000_000);
    assert_eq!((now.sub.as_str(), now.admin, now.exp), ("@u:example.com", false, 1_003_600));
    assert!(session_claims(&c, "@admin:example.com", 0).admin);
    assert_eq!(session_claims(&c, "@u:example.com", -3601).exp, u64::MAX);
    assert_eq!(session_claims(&c, "@u:example.com", -3600).exp, 0);
}

#[test]
fn decoded_tokens_stand_for_users() {
    let raw = |sub: Option<&str>, admin, exp| RawClaims { sub: sub.map(str::to_string), admin, exp };
    for now in [-5, 0, 1] {
        let u = session_user(Some(raw(Some("@u:x"), Some(true), Some(1))), now).unwrap();
        assert_eq!((u.mxid.as_str(), u.is_admin), ("@u:x", true));
    }
    assert!(session_user(Some(raw(Some("@u:x"), Some(true), Some(1))), 2).is_none());
    assert!(session_user(Some(raw(None, Some(true), Some(1))), 0).is_none());
    assert!(session_user(Some(raw(Some("@u:x"), None, Some(1))), 0).is_none());
    assert!(session_user(Some(raw(Some("@u:x"), Some(true), None)), 0).is_none());
    assert!(session_user(None, 0).is_none());
}

#[test]
fn sessions_last_their_lifetime() {
    let start = 1_700_000_000;
    let minting = config();
    let mut checking = config();
    checking.admin_mxids = Vec::new();
    let (token, ttl) = mint_session_at(&minting, "@admin:example.com", start).unwrap();
    assert_eq!(ttl, 3600);
    for now in [start, start + 3599, start + 3600] {
        let u = verify_session_at(&checking, &token, now).unwrap();
        assert_eq!((u.mxid.as_str(), u.is_admin), ("@admin:example.com", true));
    }
    for now in [start + 3601, start + 3660, i64::MAX] {
        assert!(verify_session_at(&checking, &token, now).is_none());
    }
    assert!(verify_session(&checking, &token).is_none());
    let header = format!("Bearer {token}");
    assert!(require_session_at(&checking, Some(&header), start).is_ok());
    let e = require_session_at(&checking, Some(&header), start + 3601).err().unwrap();
    assert_eq!(e.message, "invalid or expired session token");
    assert!(verify_session_at(&checking, "not-a-real-jwt", 0).is_none());
}

fn openid(server: &str) -> OpenIdToken {
    OpenIdToken { access_token: "t".to_string(), matrix_server_name: server.to_string() }
}

#[test]
fn only_the_trusted_homeserver_is_asked() {
    let c = config();
    assert!(matches!(verify_openid_token(&c, &openid("evil.com")), Err(AppError::Unauthorized)));
    let ask = verify_openid_token(&c, &openid("example.com")).ok().unwrap();
    assert_eq!(ask.url, "https://example.com:8448/_matrix/federation/v1/openid/userinfo");
    assert_eq!(ask.access_token, "t");
    assert!(ask.is_success(200) && ask.is_success(299));
    assert!(!ask.is_success(199) && !ask.is_success(300) && !ask.is_success(401));
}

#[test]
fn answers_of_the_homeserver() {
    let c = config();
    let ask = verify_openid_token(&c, &openid("example.com")).ok().unwrap();
    let info = |s: &str| OpenIdReply::UserInfo(s.to_string());
    assert_eq!(ask.answered(info("@u:example.com")).ok().unwrap(), "@u:example.com");
    for sub in ["u:example.com", "@u:example.org", "@u:notexample.com", "@u", "", "@uexample.com"] {
        assert!(matches!(ask.answered(info(sub)), Err(AppError::Unauthorized)), "{sub}");
    }
    assert!(matches!(ask.answered(OpenIdReply::Status(401)), Err(AppError::Unauthorized)));
    match ask.answered(OpenIdReply::Failed("down".to_string())) {
        Err(AppError::Internal(m)) => assert_eq!(m, "openid verification request failed: down"),
        _ => panic!("expected an internal error"),
    }
    match ask.answered(OpenIdReply::Unreadable("eof".to_string())) {
        Err(AppError::Internal(m)) => assert_eq!(m, "openid userinfo decode failed: eof"),
        _ => panic!("expected an internal error"),
    }
}

#[test]
fn signing_in() {
    let c = config();
    let ask = verify_openid_token(&c, &openid("example.com")).ok().unwrap();
    let reply = OpenIdReply::UserInfo("@admin:example.com".to_string());
    let s = matrix_login(&c, &ask, reply).ok().unwrap();
    assert_eq!(s.mxid, "@admin:example.com");
    assert_eq!(s.expires_in, 3600);
    assert!(s.is_admin);
    assert_eq!(verify_session(&c, &s.token).unwrap().mxid, "@admin:example.com");
    assert!(matches!(
        matrix_login(&c, &ask, OpenIdReply::Status(403)),
        Err(AppError::Unauthorized)
    ));
}

#[test]
fn sessions_are_required() {
    let c = config();
    let (token, _) = mint_session(&c, "@u:example.com").unwrap();
    let header = format!("Bearer {token}");
    assert_eq!(require_session(&c, Some(&header)).ok().unwrap().mxid, "@u:example.com");
    for header in [None, Some("Basic x"), Some("bearer x"), Some(token.as_str())] {
        let e = require_session(&c, header).err().unwrap();
        assert_eq!((e.status, e.error.as_str()), (401, "unauthorized"));
        assert_eq!(e.message, "missing Authorization: Bearer token");
    }
    let e = require_session(&c, Some("Bearer nonsense")).err().unwrap();
    assert_eq!((e.status, e.error.as_str()), (401, "unauthorized"));
    assert_eq!(e.message, "invalid or expired session token");
    assert_eq!(bearer_token(Some("Bearer ")), Some(String::new()));
    assert_eq!(bearer_token(None), None);
}
