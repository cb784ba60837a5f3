use gif_server::error::AppError;
use gif_server::number::{parse_i64, parse_u16, parse_u64, write_i64, write_u64};
use gif_server::text::{
    contains_text, ends_with, is_white_space, remove_char, same, split, split_list, split_once,
    starts_with, strip_prefix, strip_suffix, trim, trim_end_matches, Separator,
};

#[test]
fn white_space_is_unicodes() {
    for n in 0..=0x10ffffu32 {
        if let Some(c) = char::from_u32(n) {
            assert_eq!(is_white_space(c), c.is_whitespace(), "{n:x}");
        }
    }
}

#[test]
fn trims_like_std() {
    for s in ["", " ", "a", " a ", "\u{3000}é \n", "a b", "\u{200b}x\u{200b}", "\t\r\n"] {
        assert_eq!(trim(s), s.trim());
    }
    assert_eq!(trim_end_matches("a//", '/'), "a");
    assert_eq!(trim_end_matches("//", '/'), "");
    assert_eq!(trim_end_matches("/a", '/'), "/a");
}

#[test]
fn splits_like_std() {
    for s in ["", ",", "a", "a,b", ",a,,b,", "a b  c", " é\u{2003}x "] {
        assert_eq!(split(s, Separator::Char(',')), s.split(',').collect::<Vec<_>>());
        let words: Vec<String> =
            split(s, Separator::Space).into_iter().filter(|w| !w.is_empty()).collect();
        assert_eq!(words, s.split_whitespace().collect::<Vec<_>>());
        let listed = split_list(s, Separator::Char(','));
        let expected: Vec<&str> = s.split(',').map(|t| t.trim()).filter(|t| !t.is_empty()).collect();
        assert_eq!(listed, expected);
        let once = split_once(s, ',');
        let expected = s.split_once(',').map(|(a, b)| (a.to_string(), b.to_string()));
        assert_eq!(once, expected);
    }
}

#[test]
fn prefixes_and_suffixes() {
    assert!(starts_with("@a:b", "@"));
    assert!(!starts_with("", "@"));
    assert!(ends_with("@a:b", ":b"));
    assert!(!ends_with("b", ":b"));
    assert!(ends_with("b", ""));
    assert_eq!(strip_prefix("Bearer x", "Bearer "), Some("x".to_string()));
    assert_eq!(strip_prefix("bearer x", "Bearer "), None);
    assert_eq!(strip_suffix("3GB", "GB"), Some("3".to_string()));
    assert_eq!(strip_suffix("B", "GB"), None);
    assert_eq!(remove_char("50%_a%", '%'), "50_a");
    assert!(same("a", "a"));
    assert!(!same("a", "A"));
    assert!(contains_text(&vec!["x".to_string(), "y".to_string()], "y"));
    assert!(!contains_text(&vec!["x".to_string()], ""));
}

#[test]
fn numerals_read_back() {
    for n in [0u64, 9, 10, 99, 1000, u64::MAX] {
        assert_eq!(write_u64(n), n.to_string());
        assert_eq!(parse_u64(&write_u64(n)), Some(n));
    }
    for n in [i64::MIN, -10, -1, 0, 7, i64::MAX] {
        assert_eq!(write_i64(n), n.to_string());
        assert_eq!(parse_i64(&write_i64(n)), Some(n));
    }
}

#[test]
fn numerals_parse_like_std() {
    for s in [
        "", "+", "-", "+5", "-5", "--5", "+-5", "007", "1a", " 1", "٣", "65535", "65536",
        "18446744073709551615", "18446744073709551616", "9223372036854775807",
        "9223372036854775808", "-9223372036854775808", "-9223372036854775809",
        "99999999999999999999999", "99999999999999999999x",
    ] {
        assert_eq!(parse_u64(s), s.parse::<u64>().ok(), "{s}");
        assert_eq!(parse_u16(s), s.parse::<u16>().ok(), "{s}");
        assert_eq!(parse_i64(s), s.parse::<i64>().ok(), "{s}");
    }
}

fn answer(e: AppError) -> (u16, String, String) {
    let r = e.into_response();
    (r.status, r.error, r.message)
}

fn told(status: u16, error: &str, message: &str) -> (u16, String, String) {
    (status, error.to_string(), message.to_string())
}

#[test]
fn errors_are_answered() {
    assert_eq!(answer(AppError::NotFound), told(404, "not_found", "not found"));
    assert_eq!(answer(AppError::Unauthorized), told(401, "unauthorized", "unauthorized"));
    assert_eq!(answer(AppError::Forbidden), told(403, "forbidden", "forbidden"));
    assert_eq!(
        answer(AppError::BadRequest("x".to_string())),
        told(400, "bad_request", "bad request: x")
    );
    assert_eq!(answer(AppError::Conflict("x".to_string())), told(409, "conflict", "conflict: x"));
    assert_eq!(
        answer(AppError::InsufficientStorage),
        told(507, "insufficient_storage", "insufficient storage")
    );
    for e in [
        AppError::Database("secret".to_string()),
        AppError::Io("secret".to_string()),
        AppError::Internal("secret".to_string()),
    ] {
        assert_eq!(answer(e), told(500, "internal_error", "an internal error occurred"));
    }
    assert_eq!(AppError::Database("x".to_string()).text(), "database error: x");
    assert_eq!(AppError::Io("x".to_string()).text(), "io error: x");
    assert_eq!(AppError::Internal("x".to_string()).text(), "internal error: x");
}
