//! Page cursors: opaque texts that a client hands back to get the next page.

use vstd::prelude::*;
use vstd::utf8::*;

use crate::base64url::{base64url, decode, encode, is_base64url, law_text_gives_bytes_back};
use crate::number::{
    is_digit, law_signed_decimal_reads_back, lemma_numeral_short, lemma_signed_decimal_chars,
    parse_i64, signed_decimal, signed_value, write_i64,
};
use crate::text::{cut_once, from_utf8, lemma_cut_once, split_once};

verus! {

/// The text that a cursor stands for, where it stands for one.
pub open spec fn cursor_text(pos: Seq<char>) -> Option<Seq<char>> {
    if is_base64url(pos) {
        let bytes = choose|bytes: Seq<u8>| #[trigger] base64url(bytes) == pos;
        if valid_utf8(bytes) {
            Some(decode_utf8(bytes))
        } else {
            None
        }
    } else {
        None
    }
}

/// The integer that a text stands for, where it fits in 64 bits.
pub open spec fn i64_value(s: Seq<char>) -> Option<i64> {
    match signed_value(s) {
        Some(n) => if i64::MIN <= n <= i64::MAX {
            Some(n as i64)
        } else {
            None
        },
        None => None,
    }
}

/// The offset that a cursor stands for; any other text stands for the beginning.
pub open spec fn cursor_offset(pos: Option<Seq<char>>) -> i64 {
    match pos {
        Some(p) => match cursor_text(p) {
            Some(t) => match i64_value(t) {
                Some(n) => n,
                None => 0,
            },
            None => 0,
        },
        None => 0,
    }
}

/// The cursor of an offset.
pub open spec fn offset_cursor(offset: i64) -> Seq<char> {
    base64url(encode_utf8(signed_decimal(offset as int)))
}

/// The text of a seeded cursor.
pub open spec fn seeded_text(seed: i64, offset: i64) -> Seq<char> {
    signed_decimal(seed as int) + ":"@ + signed_decimal(offset as int)
}

/// The cursor of an offset in a shuffle.
pub open spec fn seeded_cursor(seed: i64, offset: i64) -> Seq<char> {
    base64url(encode_utf8(seeded_text(seed, offset)))
}

/// The seed and the offset that a seeded cursor stands for.
pub open spec fn cursor_seed(pos: Option<Seq<char>>) -> Option<(i64, i64)> {
    match pos {
        Some(p) => match cursor_text(p) {
            Some(t) => match cut_once(t, ':') {
                Some((seed, offset)) => match (i64_value(seed), i64_value(offset)) {
                    (Some(s), Some(o)) => Some((s, o)),
                    _ => None,
                },
                None => None,
            },
            None => None,
        },
        None => None,
    }
}

/// A text given, by its characters.
pub open spec fn given(pos: Option<&str>) -> Option<Seq<char>> {
    match pos {
        Some(p) => Some(p@),
        None => None,
    }
}

/// The text that a cursor stands for.
fn read_cursor(pos: &str) -> (r: Option<String>)
    ensures
        match r {
            Some(t) => cursor_text(pos@) == Some(t@),
            None => cursor_text(pos@) is None,
        },
{
    match decode(pos) {
        Some(bytes) => {
            proof {
                let chosen = choose|bytes: Seq<u8>| #[trigger] base64url(bytes) == pos@;
                law_text_gives_bytes_back(bytes@, chosen);
            }
            from_utf8(bytes)
        },
        None => None,
    }
}

/// The offset that a cursor stands for. No cursor, or a text that is none, stands for the
/// beginning.
pub fn decode_offset(pos: Option<&str>) -> (r: i64)
    ensures
        r == cursor_offset(given(pos)),
{
    match pos {
        Some(p) => match read_cursor(p) {
            Some(t) => match parse_i64(t.as_str()) {
                Some(n) => n,
                None => 0,
            },
            None => 0,
        },
        None => 0,
    }
}

/// The cursor of an offset.
pub fn encode_offset(offset: i64) -> (r: String)
    ensures
        r@ == offset_cursor(offset),
{
    let numeral = write_i64(offset);
    proof {
        lemma_numeral_short(offset);
        is_ascii_chars_encode_utf8(numeral@);
    }
    encode(numeral.as_str().as_bytes())
}

/// The text of a seeded cursor is short and ASCII.
proof fn lemma_seeded_text(seed: i64, offset: i64)
    ensures
        seeded_text(seed, offset).len() <= 41,
        is_ascii_chars(seeded_text(seed, offset)),
{
    reveal_strlit(":");
    lemma_numeral_short(seed);
    lemma_numeral_short(offset);
    let a = signed_decimal(seed as int);
    let b = signed_decimal(offset as int);
    let t = seeded_text(seed, offset);
    assert forall|i: int| 0 <= i < t.len() implies '\0' <= #[trigger] t[i] <= '\u{7f}' by {
        if i < a.len() {
            assert(t[i] == a[i]);
        } else if i > a.len() {
            assert(t[i] == b[i - a.len() - 1]);
        }
    }
}

/// The cursor of an offset in a shuffle. It carries the shuffle's seed, so that the order stays the
/// same from page to page.
pub fn encode_seeded_offset(seed: i64, offset: i64) -> (r: String)
    ensures
        r@ == seeded_cursor(seed, offset),
{
    let mut t = write_i64(seed);
    t.append(":");
    t.append(write_i64(offset).as_str());
    proof {
        lemma_seeded_text(seed, offset);
        is_ascii_chars_encode_utf8(t@);
    }
    encode(t.as_str().as_bytes())
}

/// The seed and offset of a seeded cursor. There are none where there is no cursor, or where it is
/// the cursor of a plain offset: the first page of a shuffle then takes a fresh seed.
pub fn decode_seeded_offset(pos: Option<&str>) -> (r: Option<(i64, i64)>)
    ensures
        r == cursor_seed(given(pos)),
{
    let text = match pos {
        Some(p) => match read_cursor(p) {
            Some(t) => t,
            None => return None,
        },
        None => return None,
    };
    let (seed, offset) = match split_once(text.as_str(), ':') {
        Some(parts) => parts,
        None => return None,
    };
    match (parse_i64(seed.as_str()), parse_i64(offset.as_str())) {
        (Some(s), Some(o)) => Some((s, o)),
        _ => None,
    }
}

/// `uuid::Uuid::new_v4` gives sixteen bytes, all of them random but for the version and the
/// variant; `as_bytes` shows them. The contract states what holds of every outcome.
#[verifier::external_body]
pub(crate) fn random_bytes() -> (r: Vec<u8>)
    ensures
        r@.len() == 16,
        r@[6] / 16 == 4,
        r@[8] / 64 == 2,
{
    uuid::Uuid::new_v4().as_bytes().to_vec()
}

/// The first `n` bytes as one number, the least significant first.
pub open spec fn little_endian(bytes: Seq<u8>, n: nat) -> nat
    decreases n,
{
    if n == 0 {
        0
    } else {
        little_endian(bytes, (n - 1) as nat) + bytes[n - 1] as nat * byte_weight((n - 1) as nat)
    }
}

/// The weight of the byte at place `n`.
pub open spec fn byte_weight(n: nat) -> nat
    decreases n,
{
    if n == 0 {
        1
    } else {
        256 * byte_weight((n - 1) as nat)
    }
}

/// The first eight bytes as a signed number, the least significant first.
pub open spec fn seed_of(bytes: Seq<u8>) -> int {
    let n = little_endian(bytes, 8) as int;
    if n < 0x8000_0000_0000_0000 {
        n
    } else {
        n - 0x1_0000_0000_0000_0000
    }
}

/// The seed made of the first eight bytes.
pub fn seed_from(bytes: &[u8]) -> (r: i64)
    requires
        bytes@.len() >= 8,
    ensures
        r == seed_of(bytes@),
{
    let mut n: u128 = 0;
    let mut weight: u128 = 1;
    let mut i: usize = 0;
    proof {
        reveal_with_fuel(byte_weight, 9);
    }
    while i < 8
        invariant
            i <= 8 <= bytes@.len(),
            n == little_endian(bytes@, i as nat),
            weight == byte_weight(i as nat),
            n < weight,
            weight <= byte_weight(8),
            byte_weight(8) == 0x1_0000_0000_0000_0000,
        decreases 8 - i,
    {
        proof {
            reveal_with_fuel(byte_weight, 9);
            let b = bytes@[i as int] as int;
            let w = weight as int;
            assert(b * w <= 255 * w) by (nonlinear_arith)
                requires
                    b <= 255,
                    w >= 0,
            ;
        }
        n = n + bytes[i] as u128 * weight;
        weight = weight * 256;
        i = i + 1;
    }
    if n < 0x8000_0000_0000_0000 {
        n as i64
    } else {
        (n as i128 - 0x1_0000_0000_0000_0000) as i64
    }
}

/// A fresh seed for the first page of a shuffle: any number may come out.
pub(crate) fn fresh_seed() -> (r: i64)
    ensures
        exists|bytes: Seq<u8>| bytes.len() == 16 && r == #[trigger] seed_of(bytes),
{
    let bytes = random_bytes();
    seed_from(bytes.as_slice())
}

/// A cursor gives back the text it was made from.
proof fn lemma_cursor_text(t: Seq<char>)
    ensures
        cursor_text(base64url(encode_utf8(t))) == Some(t),
{
    let pos = base64url(encode_utf8(t));
    let chosen = choose|bytes: Seq<u8>| #[trigger] base64url(bytes) == pos;
    law_text_gives_bytes_back(chosen, encode_utf8(t));
    encode_utf8_valid_utf8(t);
    encode_utf8_decode_utf8(t);
}

/// The cursor of an offset leads to that offset.
pub proof fn law_cursor_leads_back(offset: i64)
    ensures
        cursor_offset(Some(offset_cursor(offset))) == offset,
{
    lemma_cursor_text(signed_decimal(offset as int));
    law_signed_decimal_reads_back(offset as int);
}

/// The first colon of a seeded cursor's text stands behind the seed.
proof fn lemma_seeded_cut(seed: i64, offset: i64)
    ensures
        cut_once(seeded_text(seed, offset), ':') == Some(
            (signed_decimal(seed as int), signed_decimal(offset as int)),
        ),
{
    reveal_strlit(":");
    let a = signed_decimal(seed as int);
    let b = signed_decimal(offset as int);
    let t = seeded_text(seed, offset);
    lemma_signed_decimal_chars(seed as int);
    assert forall|k: int| 0 <= k < a.len() implies #[trigger] t[k] != ':' by {
        assert(t[k] == a[k]);
        assert(is_digit(a[k]) || a[k] == '-');
    }
    assert(t[a.len() as int] == ':');
    lemma_cut_once(t, a.len() as int, ':');
    assert(t.take(a.len() as int) =~= a);
    assert(t.skip(a.len() as int + 1) =~= b);
}

/// A seeded cursor leads to its seed and offset.
pub proof fn law_seeded_cursor_leads_back(seed: i64, offset: i64)
    ensures
        cursor_seed(Some(seeded_cursor(seed, offset))) == Some((seed, offset)),
{
    lemma_cursor_text(seeded_text(seed, offset));
    lemma_seeded_cut(seed, offset);
    law_signed_decimal_reads_back(seed as int);
    law_signed_decimal_reads_back(offset as int);
}

/// The cursor of a plain offset carries no seed.
pub proof fn law_plain_cursor_has_no_seed(offset: i64)
    ensures
        cursor_seed(Some(offset_cursor(offset))) is None,
        cursor_seed(None) is None,
{
    let t = signed_decimal(offset as int);
    lemma_cursor_text(t);
    lemma_signed_decimal_chars(offset as int);
    assert forall|k: int| 0 <= k < t.len() implies #[trigger] t[k] != ':' by {
        assert(is_digit(t[k]) || t[k] == '-');
    }
    lemma_cut_once(t, t.len() as int, ':');
}

/// Where a plain offset is expected, a seeded cursor leads to the beginning.
pub proof fn law_seeded_cursor_is_no_offset(seed: i64, offset: i64)
    ensures
        cursor_offset(Some(seeded_cursor(seed, offset))) == 0,
{
    reveal_strlit(":");
    let a = signed_decimal(seed as int);
    let t = seeded_text(seed, offset);
    lemma_cursor_text(t);
    lemma_signed_decimal_chars(seed as int);
    let i = a.len() as int;
    assert(t[i] == ':');
    assert(i > 0);
    assert(t[0] == a[0]);
    assert(!is_digit(':'));
    assert(t.skip(1)[i - 1] == ':');
    assert(signed_value(t) is None);
}

/// A cursor that leads anywhere but to the beginning is the encoding of a numeral of that offset, and
/// one that carries a seed the encoding of two numerals with a colon between them. Every other text
/// leads to the beginning, without a seed.
pub proof fn law_other_texts_lead_to_the_beginning(pos: Seq<char>)
    ensures
        cursor_offset(Some(pos)) != 0 ==> exists|t: Seq<char>|
            pos == base64url(#[trigger] encode_utf8(t)) && signed_value(t) == Some(
                cursor_offset(Some(pos)) as int,
            ),
        cursor_seed(Some(pos)) matches Some((seed, offset)) ==> exists|t: Seq<char>|
            {
                &&& pos == base64url(#[trigger] encode_utf8(t))
                &&& cut_once(t, ':') matches Some((a, b))
                &&& signed_value(a) == Some(seed as int)
                &&& signed_value(b) == Some(offset as int)
            },
        cursor_offset(None) == 0,
        cursor_seed(None) is None,
{
    if is_base64url(pos) {
        let bytes = choose|bytes: Seq<u8>| #[trigger] base64url(bytes) == pos;
        if valid_utf8(bytes) {
            let t = decode_utf8(bytes);
            decode_utf8_encode_utf8(bytes);
            assert(encode_utf8(t) == bytes);
        }
    }
}

} // verus!
