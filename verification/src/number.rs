//! Decimal numerals: what an integer looks like in text, and which integer a text stands for.

use vstd::prelude::*;

use crate::text::chars_of;

verus! {

/// The character of a decimal digit.
pub open spec fn digit(d: int) -> char
    recommends
        0 <= d < 10,
{
    (48 + d) as char
}

/// The decimal numeral of `n`, without leading zeros.
pub open spec fn decimal(n: nat) -> Seq<char>
    decreases n,
{
    if n < 10 {
        seq![digit(n as int)]
    } else {
        decimal(n / 10).push(digit((n % 10) as int))
    }
}

/// The decimal numeral of `n`, with a minus sign where it is negative.
pub open spec fn signed_decimal(n: int) -> Seq<char> {
    if n < 0 {
        seq!['-'] + decimal((-n) as nat)
    } else {
        decimal(n as nat)
    }
}

/// A decimal digit.
pub open spec fn is_digit(c: char) -> bool {
    '0' <= c <= '9'
}

/// A nonempty run of decimal digits.
pub open spec fn all_digits(s: Seq<char>) -> bool {
    s.len() > 0 && forall|i: int| 0 <= i < s.len() ==> is_digit(#[trigger] s[i])
}

/// The number that a run of digits stands for.
pub open spec fn digits_value(s: Seq<char>) -> nat
    decreases s.len(),
{
    if s.len() == 0 {
        0
    } else {
        digits_value(s.drop_last()) * 10 + (s.last() as u32 - 48) as nat
    }
}

/// The number that `s` stands for: digits, which one plus sign may precede.
pub open spec fn unsigned_value(s: Seq<char>) -> Option<nat> {
    let t = if s.len() > 0 && s[0] == '+' {
        s.skip(1)
    } else {
        s
    };
    if all_digits(t) {
        Some(digits_value(t))
    } else {
        None
    }
}

/// The integer that `s` stands for: digits, which one sign may precede.
pub open spec fn signed_value(s: Seq<char>) -> Option<int> {
    if s.len() > 0 && s[0] == '-' {
        if all_digits(s.skip(1)) {
            Some(-(digits_value(s.skip(1)) as int))
        } else {
            None
        }
    } else {
        match unsigned_value(s) {
            Some(n) => Some(n as int),
            None => None,
        }
    }
}

/// The character of a decimal digit.
fn digit_char(d: u64) -> (c: char)
    requires
        d < 10,
    ensures
        c == digit(d as int),
{
    (48 + d as u8) as char
}

/// The decimal numeral of `n`.
pub fn write_u64(n: u64) -> (r: String)
    ensures
        r@ == decimal(n as nat),
    decreases n,
{
    if n < 10 {
        let mut r = String::new();
        r.push(digit_char(n));
        assert(r@ == seq![digit(n as int)]);
        r
    } else {
        let mut r = write_u64(n / 10);
        r.push(digit_char(n % 10));
        r
    }
}

/// The decimal numeral of `n`, with its sign.
pub fn write_i64(n: i64) -> (r: String)
    ensures
        r@ == signed_decimal(n as int),
{
    if n < 0 {
        let m: i128 = -(n as i128);
        let digits = write_u64(m as u64);
        let mut r = String::new();
        r.push('-');
        r.append(digits.as_str());
        assert(r@ == seq!['-'] + digits@);
        r
    } else {
        write_u64(n as u64)
    }
}

/// The value of a longer run of digits is no smaller.
proof fn lemma_value_grows(s: Seq<char>, k: int)
    requires
        forall|i: int| 0 <= i < s.len() ==> is_digit(#[trigger] s[i]),
        0 <= k <= s.len(),
    ensures
        digits_value(s.take(k)) <= digits_value(s),
    decreases s.len(),
{
    if k == s.len() {
        assert(s.take(k) == s);
    } else {
        lemma_value_grows(s.drop_last(), k);
        assert(s.drop_last().take(k) == s.take(k));
    }
}

/// The value of the digits `cs[from..]`, where they are digits and their value fits.
fn read_digits(cs: &Vec<char>, from: usize) -> (r: Option<u64>)
    requires
        from <= cs@.len(),
    ensures
        ({
            let t = cs@.skip(from as int);
            if all_digits(t) && digits_value(t) <= u64::MAX {
                r == Some(digits_value(t) as u64)
            } else {
                r is None
            }
        }),
{
    let ghost t = cs@.skip(from as int);
    if from == cs.len() {
        return None;
    }
    let mut value: u64 = 0;
    let mut i: usize = from;
    proof {
        assert(t.take(0) == Seq::<char>::empty());
    }
    while i < cs.len()
        invariant
            from <= i <= cs@.len(),
            t == cs@.skip(from as int),
            forall|k: int| 0 <= k < i - from ==> is_digit(#[trigger] t[k]),
            value == digits_value(t.take(i - from)),
        decreases cs@.len() - i,
    {
        let c = cs[i];
        assert(t[i - from] == c);
        if !('0' <= c && c <= '9') {
            return None;
        }
        let d: u64 = (c as u32 - 48) as u64;
        proof {
            assert(t.take(i - from + 1).drop_last() == t.take(i - from));
            assert(t.take(i - from + 1).last() == c);
        }
        if value > (u64::MAX - d) / 10 {
            proof {
                if all_digits(t) {
                    lemma_value_grows(t, i - from + 1);
                }
            }
            return None;
        }
        value = value * 10 + d;
        i = i + 1;
    }
    assert(t.take(t.len() as int) == t);
    Some(value)
}

/// The number that `s` stands for, where it fits.
pub fn parse_u64(s: &str) -> (r: Option<u64>)
    ensures
        match unsigned_value(s@) {
            Some(n) => if n <= u64::MAX {
                r == Some(n as u64)
            } else {
                r is None
            },
            None => r is None,
        },
{
    let cs = chars_of(s);
    assert(cs@.skip(0) == cs@);
    if cs.len() > 0 && cs[0] == '+' {
        read_digits(&cs, 1)
    } else {
        read_digits(&cs, 0)
    }
}

/// The number that `s` stands for, where it fits.
pub fn parse_u16(s: &str) -> (r: Option<u16>)
    ensures
        match unsigned_value(s@) {
            Some(n) => if n <= u16::MAX {
                r == Some(n as u16)
            } else {
                r is None
            },
            None => r is None,
        },
{
    match parse_u64(s) {
        Some(n) => if n <= 65535 {
            Some(n as u16)
        } else {
            None
        },
        None => None,
    }
}

/// The integer that `s` stands for, where it fits.
pub fn parse_i64(s: &str) -> (r: Option<i64>)
    ensures
        match signed_value(s@) {
            Some(n) => if i64::MIN <= n <= i64::MAX {
                r == Some(n as i64)
            } else {
                r is None
            },
            None => r is None,
        },
{
    let cs = chars_of(s);
    if cs.len() > 0 && cs[0] == '-' {
        match read_digits(&cs, 1) {
            Some(m) => if m <= 0x8000_0000_0000_0000 {
                let n: i128 = -(m as i128);
                Some(n as i64)
            } else {
                None
            },
            None => None,
        }
    } else {
        match parse_u64(s) {
            Some(m) => if m <= 0x7fff_ffff_ffff_ffff {
                Some(m as i64)
            } else {
                None
            },
            None => None,
        }
    }
}

/// A numeral is made of digits and stands for the number it was written for.
pub proof fn law_decimal_reads_back(n: nat)
    ensures
        all_digits(decimal(n)),
        digits_value(decimal(n)) == n,
        unsigned_value(decimal(n)) == Some(n),
    decreases n,
{
    let s = decimal(n);
    if n < 10 {
        assert(digits_value(s.drop_last()) == 0);
        assert(s.last() == digit(n as int));
    } else {
        law_decimal_reads_back(n / 10);
        assert(s.drop_last() == decimal(n / 10));
        assert(s.last() == digit((n % 10) as int));
    }
    assert(is_digit(s[0]));
}

/// Reading the numeral of an integer gives the integer back.
pub proof fn law_signed_decimal_reads_back(n: int)
    ensures
        signed_value(signed_decimal(n)) == Some(n),
{
    let s = signed_decimal(n);
    if n < 0 {
        law_decimal_reads_back((-n) as nat);
        assert(s.skip(1) == decimal((-n) as nat));
    } else {
        law_decimal_reads_back(n as nat);
        assert(is_digit(s[0]));
    }
}

/// A numeral holds nothing but digits and a leading minus sign.
pub proof fn lemma_signed_decimal_chars(n: int)
    ensures
        signed_decimal(n).len() > 0,
        forall|i: int|
            0 <= i < signed_decimal(n).len() ==> is_digit(#[trigger] signed_decimal(n)[i])
                || signed_decimal(n)[i] == '-',
{
    if n < 0 {
        law_decimal_reads_back((-n) as nat);
        let t = decimal((-n) as nat);
        assert forall|i: int| 0 <= i < signed_decimal(n).len() implies is_digit(
            #[trigger] signed_decimal(n)[i],
        ) || signed_decimal(n)[i] == '-' by {
            if i > 0 {
                assert(signed_decimal(n)[i] == t[i - 1]);
            }
        }
    } else {
        law_decimal_reads_back(n as nat);
    }
}

/// Ten to the power of `k`.
pub open spec fn ten_to(k: nat) -> nat
    decreases k,
{
    if k == 0 {
        1
    } else {
        10 * ten_to((k - 1) as nat)
    }
}

/// A number under ten to the power of `k` has at most `k` digits.
proof fn lemma_decimal_len(n: nat, k: nat)
    requires
        0 < k,
        n < ten_to(k),
    ensures
        decimal(n).len() <= k,
    decreases k,
{
    if n >= 10 {
        assert(k > 1) by {
            if k == 1 {
                assert(ten_to(0) == 1);
                assert(ten_to(1) == 10);
            }
        }
        lemma_decimal_len(n / 10, (k - 1) as nat);
    }
}

/// The numeral of a 64-bit integer takes at most 20 characters, all of them ASCII.
pub proof fn lemma_numeral_short(n: i64)
    ensures
        0 < signed_decimal(n as int).len() <= 20,
        vstd::utf8::is_ascii_chars(signed_decimal(n as int)),
{
    lemma_signed_decimal_chars(n as int);
    assert(n < ten_to(19) && -n < ten_to(19)) by {
        reveal_with_fuel(ten_to, 20);
    }
    if n < 0 {
        lemma_decimal_len((-n) as nat, 19);
    } else {
        lemma_decimal_len(n as nat, 19);
    }
}

/// A run of digits is read as a decimal number: one more digit makes it ten times as large and adds
/// its value. A plus sign in front changes nothing.
pub proof fn law_digits_are_read_in_tens(s: Seq<char>, d: int)
    requires
        all_digits(s),
        0 <= d < 10,
    ensures
        unsigned_value(s) is Some,
        unsigned_value(s.push(digit(d))) == Some((10 * unsigned_value(s)->0 + d) as nat),
        unsigned_value(seq!['+'] + s) == unsigned_value(s),
        signed_value(seq!['-'] + s) == Some(-(unsigned_value(s)->0 as int)),
        unsigned_value(seq![digit(d)]) == Some(d as nat),
{
    let t = s.push(digit(d));
    assert(is_digit(s[0]));
    assert(t[0] == s[0]);
    assert(t.drop_last() =~= s);
    assert(all_digits(t)) by {
        assert forall|i: int| 0 <= i < t.len() implies is_digit(#[trigger] t[i]) by {
            if i < s.len() {
                assert(t[i] == s[i]);
            }
        }
    }
    assert((seq!['+'] + s).skip(1) =~= s);
    assert((seq!['-'] + s).skip(1) =~= s);
    let one = seq![digit(d)];
    assert(all_digits(one)) by {
        assert forall|i: int| 0 <= i < one.len() implies is_digit(#[trigger] one[i]) by {}
    }
    assert(one.drop_last() =~= Seq::empty());
    assert(digits_value(Seq::empty()) == 0);
}

} // verus!
