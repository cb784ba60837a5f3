use gif_server::routes::cursor::{
    decode_offset, decode_seeded_offset, encode_offset, encode_seeded_offset, seed_from,
};

#[test]
fn cursor_roundtrip() {
    let offset = 42i64;
    let encoded = encode_offset(offset);
    let decoded = decode_offset(Some(&encoded));
    assert_eq!(decoded, offset);
}

#[test]
fn cursor_none_decodes_to_zero() {
    assert_eq!(decode_offset(None), 0);
}

#[test]
fn cursor_garbage_decodes_to_zero() {
    assert_eq!(decode_offset(Some("not_valid_base64!!!")), 0);
}

#[test]
fn seeded_cursor_roundtrip() {
    let encoded = encode_seeded_offset(-987654321, 40);
    assert_eq!(decode_seeded_offset(Some(&encoded)), Some((-987654321, 40)));
}

#[test]
fn seeded_cursor_rejects_bare_offset() {
    // A cursor of a plain offset must not parse as seeded, so that the first page of a shuffle
    // takes a fresh seed.
    let bare = encode_offset(20);
    assert_eq!(decode_seeded_offset(Some(&bare)), None);
    assert_eq!(decode_seeded_offset(None), None);
}

#[test]
fn bare_decode_tolerates_seeded_cursor() {
    // The plain path stays robust if handed a seeded cursor.
    let seeded = encode_seeded_offset(123, 60);
    assert_eq!(decode_offset(Some(&seeded)), 0);
}

#[test]
fn exact_cursors() {
    assert_eq!(encode_offset(42), "NDI");
    assert_eq!(encode_offset(0), "MA");
    assert_eq!(encode_offset(100), "MTAw");
    assert_eq!(encode_offset(-1), "LTE");
    assert_eq!(encode_seeded_offset(7, 20), "NzoyMA");
    assert_eq!(decode_offset(Some("NDI")), 42);
    assert_eq!(decode_seeded_offset(Some("NzoyMA")), Some((7, 20)));
}

#[test]
fn cursors_at_the_edge() {
    for n in [i64::MIN, i64::MIN + 1, -1, 0, 9, 10, i64::MAX] {
        assert_eq!(decode_offset(Some(&encode_offset(n))), n);
        for m in [i64::MIN, 0, i64::MAX] {
            assert_eq!(decode_seeded_offset(Some(&encode_seeded_offset(n, m))), Some((n, m)));
        }
    }
}

#[test]
fn odd_cursors() {
    // padding, stray bits, a sign, a number too large, bytes that are no text
    assert_eq!(decode_offset(Some("NDI=")), 0);
    assert_eq!(decode_offset(Some("NDJ")), 0);
    assert_eq!(decode_offset(Some("KzU")), 5);
    assert_eq!(decode_offset(Some("OTIyMzM3MjAzNjg1NDc3NTgwOA")), 0);
    assert_eq!(decode_offset(Some("_w")), 0);
    assert_eq!(decode_offset(Some("")), 0);
    // "1:2:3"
    assert_eq!(decode_seeded_offset(Some("MToyOjM")), None);
}

#[test]
fn seed_is_little_endian() {
    assert_eq!(seed_from(&[1, 0, 0, 0, 0, 0, 0, 0]), 1);
    assert_eq!(seed_from(&[0, 1, 0, 0, 0, 0, 0, 0, 9, 9]), 256);
    assert_eq!(seed_from(&[255, 255, 255, 255, 255, 255, 255, 255]), -1);
    assert_eq!(seed_from(&[0, 0, 0, 0, 0, 0, 0, 128]), i64::MIN);
    let bytes = [0x12, 0x34, 0x56, 0x78, 0x9a, 0xbc, 0xde, 0xf0];
    assert_eq!(seed_from(&bytes), i64::from_le_bytes(bytes));
}
