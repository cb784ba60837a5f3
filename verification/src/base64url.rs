//! Bytes as text that can stand in a URL: Base64 with the URL-safe alphabet, without padding
//! (RFC 4648, section 5).

use vstd::prelude::*;

verus! {

/// The symbol for six bits.
pub open spec fn symbol(v: int) -> char {
    if v < 26 {
        (65 + v) as char
    } else if v < 52 {
        (71 + v) as char
    } else if v < 62 {
        (v - 4) as char
    } else if v == 62 {
        '-'
    } else {
        '_'
    }
}

/// The text for a sequence of bytes: four symbols for every three bytes; two bytes at the end
/// take three symbols, one byte takes two.
pub open spec fn base64url(bytes: Seq<u8>) -> Seq<char>
    decreases bytes.len(),
{
    if bytes.len() == 0 {
        Seq::empty()
    } else if bytes.len() == 1 {
        let n = bytes[0] * 16;
        seq![symbol(n / 64), symbol(n % 64)]
    } else if bytes.len() == 2 {
        let n = (bytes[0] * 256 + bytes[1]) * 4;
        seq![symbol(n / 4096), symbol(n / 64 % 64), symbol(n % 64)]
    } else {
        let n = bytes[0] * 65536 + bytes[1] * 256 + bytes[2];
        seq![symbol(n / 262144), symbol(n / 4096 % 64), symbol(n / 64 % 64), symbol(n % 64)]
            + base64url(bytes.skip(3))
    }
}

/// The text stands for some bytes.
pub open spec fn is_base64url(s: Seq<char>) -> bool {
    exists|bytes: Seq<u8>| #[trigger] base64url(bytes) == s
}

/// `Engine::encode` of the `base64` crate's `URL_SAFE_NO_PAD` gives the text for the bytes. It
/// panics only where the text would be too long to be held.
#[verifier::external_body]
pub(crate) fn encode(bytes: &[u8]) -> (r: String)
    requires
        2 * bytes@.len() <= usize::MAX,
    ensures
        r@ == base64url(bytes@),
{
    base64::Engine::encode(&base64::engine::general_purpose::URL_SAFE_NO_PAD, bytes)
}

/// `Engine::decode` of the `base64` crate's `URL_SAFE_NO_PAD` undoes that. It accepts no padding
/// and no stray bits behind the last byte, so a text is accepted exactly where it is the text for
/// some bytes.
#[verifier::external_body]
pub(crate) fn decode(s: &str) -> (r: Option<Vec<u8>>)
    ensures
        r is Some <==> is_base64url(s@),
        r matches Some(bytes) ==> base64url(bytes@) == s@,
{
    base64::Engine::decode(&base64::engine::general_purpose::URL_SAFE_NO_PAD, s).ok()
}

proof fn lemma_symbol_injective(v: int, w: int)
    requires
        0 <= v < 64,
        0 <= w < 64,
        symbol(v) == symbol(w),
    ensures
        v == w,
{
}

/// The length of the text tells how many bytes are left over behind whole groups of three.
proof fn lemma_length(bytes: Seq<u8>)
    ensures
        base64url(bytes).len() == bytes.len() / 3 * 4 + (if bytes.len() % 3 == 0 {
            0nat
        } else {
            bytes.len() % 3 + 1
        }),
    decreases bytes.len(),
{
    if bytes.len() > 2 {
        lemma_length(bytes.skip(3));
    }
}

/// A number under `2^24` is made of four groups of six bits.
proof fn lemma_groups(n: int, m: int)
    requires
        0 <= n < 0x100_0000,
        0 <= m < 0x100_0000,
        symbol(n / 262144) == symbol(m / 262144),
        symbol(n / 4096 % 64) == symbol(m / 4096 % 64),
        symbol(n / 64 % 64) == symbol(m / 64 % 64),
        symbol(n % 64) == symbol(m % 64),
    ensures
        n == m,
{
    lemma_symbol_injective(n / 262144, m / 262144);
    lemma_symbol_injective(n / 4096 % 64, m / 4096 % 64);
    lemma_symbol_injective(n / 64 % 64, m / 64 % 64);
    lemma_symbol_injective(n % 64, m % 64);
}

/// The first group of three bytes can be told from its four symbols.
proof fn lemma_first_group(a: Seq<u8>, b: Seq<u8>)
    requires
        a.len() >= 3,
        b.len() >= 3,
        base64url(a) == base64url(b),
    ensures
        a.take(3) == b.take(3),
        base64url(a.skip(3)) == base64url(b.skip(3)),
{
    let s = base64url(a);
    let t = base64url(b);
    let n = a[0] * 65536 + a[1] * 256 + a[2];
    let m = b[0] * 65536 + b[1] * 256 + b[2];
    assert(s[0] == symbol(n / 262144) && s[1] == symbol(n / 4096 % 64) && s[2] == symbol(
        n / 64 % 64,
    ) && s[3] == symbol(n % 64));
    assert(t[0] == symbol(m / 262144) && t[1] == symbol(m / 4096 % 64) && t[2] == symbol(
        m / 64 % 64,
    ) && t[3] == symbol(m % 64));
    lemma_groups(n, m);
    assert(a[0] == b[0] && a[1] == b[1] && a[2] == b[2]);
    assert(a.take(3) =~= b.take(3));
    assert(s.skip(4) =~= base64url(a.skip(3)));
    assert(t.skip(4) =~= base64url(b.skip(3)));
}

/// Two bytes can be told from their three symbols.
proof fn lemma_two_bytes(a: Seq<u8>, b: Seq<u8>)
    requires
        a.len() == 2,
        b.len() == 2,
        base64url(a) == base64url(b),
    ensures
        a == b,
{
    let s = base64url(a);
    let t = base64url(b);
    let n = (a[0] * 256 + a[1]) * 4;
    let m = (b[0] * 256 + b[1]) * 4;
    assert(s[0] == symbol(n / 4096) && s[1] == symbol(n / 64 % 64) && s[2] == symbol(n % 64));
    assert(t[0] == symbol(m / 4096) && t[1] == symbol(m / 64 % 64) && t[2] == symbol(m % 64));
    assert(n / 262144 == 0 && m / 262144 == 0);
    assert(n / 4096 % 64 == n / 4096 && m / 4096 % 64 == m / 4096);
    lemma_groups(n, m);
    assert(a[0] == b[0] && a[1] == b[1]);
    assert(a =~= b);
}

/// Different bytes have different texts: a text gives its bytes back.
pub proof fn law_text_gives_bytes_back(a: Seq<u8>, b: Seq<u8>)
    requires
        base64url(a) == base64url(b),
    ensures
        a == b,
    decreases a.len(),
{
    lemma_length(a);
    lemma_length(b);
    assert(a.len() == b.len());
    if a.len() == 0 {
        assert(a =~= b);
    } else if a.len() == 1 {
        let n = a[0] * 16;
        let m = b[0] * 16;
        let s = base64url(a);
        let t = base64url(b);
        assert(s[0] == symbol(n / 64) && s[1] == symbol(n % 64));
        assert(t[0] == symbol(m / 64) && t[1] == symbol(m % 64));
        lemma_symbol_injective(n / 64, m / 64);
        lemma_symbol_injective(n % 64, m % 64);
        assert(a =~= b);
    } else if a.len() == 2 {
        lemma_two_bytes(a, b);
    } else {
        lemma_first_group(a, b);
        law_text_gives_bytes_back(a.skip(3), b.skip(3));
        assert(a =~= a.take(3) + a.skip(3));
        assert(b =~= b.take(3) + b.skip(3));
    }
}

} // verus!
