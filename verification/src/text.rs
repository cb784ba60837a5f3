//! Texts as sequences of characters: building, comparing, trimming and cutting.

use vstd::prelude::*;
use vstd::utf8::*;

verus! {

/// `String::push` puts one character behind the text.
pub assume_specification[ String::push ](s: &mut String, c: char)
    ensures
        final(s)@ == old(s)@.push(c),
;

/// `==` on `str` holds exactly when both sides have the same characters.
pub assume_specification[ <str as PartialEq>::eq ](s: &str, other: &str) -> (res: bool)
    ensures
        res == (s@ == other@),
;

/// A character with 'A' to 'Z' mapped to 'a' to 'z'.
pub open spec fn ascii_lower(c: char) -> char {
    if 'A' <= c <= 'Z' {
        (c as int + 32) as char
    } else {
        c
    }
}

/// A character with 'a' to 'z' mapped to 'A' to 'Z'.
pub open spec fn ascii_upper(c: char) -> char {
    if 'a' <= c <= 'z' {
        (c as int - 32) as char
    } else {
        c
    }
}

/// A text with its ASCII letters in lowercase.
pub open spec fn ascii_lowercase(s: Seq<char>) -> Seq<char> {
    s.map_values(|c: char| ascii_lower(c))
}

/// A text with its ASCII letters in uppercase.
pub open spec fn ascii_uppercase(s: Seq<char>) -> Seq<char> {
    s.map_values(|c: char| ascii_upper(c))
}

/// The lowercase form of a text, as `str::to_lowercase` gives it.
pub uninterp spec fn unicode_lowercase(s: Seq<char>) -> Seq<char>;

/// `str::to_lowercase` maps every character by Unicode's lowercase property; of ASCII text that is
/// the letters 'A' to 'Z'. Beyond ASCII the mapping is a table of its own; the contract only gives
/// its result a name.
pub assume_specification[ str::to_lowercase ](s: &str) -> (r: String)
    ensures
        r@ == unicode_lowercase(s@),
        is_ascii_chars(s@) ==> r@ == ascii_lowercase(s@),
;

/// The uppercase form of a text, as `str::to_uppercase` gives it.
pub uninterp spec fn unicode_uppercase(s: Seq<char>) -> Seq<char>;

/// `str::to_uppercase` maps every character by Unicode's uppercase property; of ASCII text that is
/// the letters 'a' to 'z'. Beyond ASCII the mapping is a table of its own; the contract only gives
/// its result a name.
pub assume_specification[ str::to_uppercase ](s: &str) -> (r: String)
    ensures
        r@ == unicode_uppercase(s@),
        is_ascii_chars(s@) ==> r@ == ascii_uppercase(s@),
;

/// A text in lowercase.
pub open spec fn lowercase(s: Seq<char>) -> Seq<char> {
    if is_ascii_chars(s) {
        ascii_lowercase(s)
    } else {
        unicode_lowercase(s)
    }
}

/// A text in uppercase.
pub open spec fn uppercase(s: Seq<char>) -> Seq<char> {
    if is_ascii_chars(s) {
        ascii_uppercase(s)
    } else {
        unicode_uppercase(s)
    }
}

/// `String::from_utf8` succeeds exactly on valid UTF-8 and then holds the characters that the
/// bytes encode.
#[verifier::external_body]
pub(crate) fn from_utf8(bytes: Vec<u8>) -> (r: Option<String>)
    ensures
        r is Some <==> valid_utf8(bytes@),
        r matches Some(s) ==> s@ == decode_utf8(bytes@),
{
    String::from_utf8(bytes).ok()
}

/// The texts that a list of strings holds.
pub open spec fn texts(v: Seq<String>) -> Seq<Seq<char>> {
    v.map_values(|s: String| s@)
}

/// The characters of a text, in order.
pub fn chars_of(s: &str) -> (r: Vec<char>)
    ensures
        r@ == s@,
{
    let mut r: Vec<char> = Vec::new();
    for c in it: s.chars()
        invariant
            r@ == it.seq().take(it.index()),
            it.seq() == s@,
    {
        r.push(c);
    }
    assert(s@.take(s@.len() as int) == s@);
    r
}

/// The text made of the characters `from..to` of `cs`.
pub fn text_of(cs: &Vec<char>, from: usize, to: usize) -> (r: String)
    requires
        from <= to <= cs@.len(),
    ensures
        r@ == cs@.subrange(from as int, to as int),
{
    let mut r = String::new();
    let mut i: usize = from;
    while i < to
        invariant
            from <= i <= to <= cs@.len(),
            r@ == cs@.subrange(from as int, i as int),
        decreases to - i,
    {
        r.push(cs[i]);
        proof {
            assert(cs@.subrange(from as int, i + 1) == cs@.subrange(from as int, i as int).push(
                cs@[i as int],
            ));
        }
        i = i + 1;
    }
    r
}

/// Whether two texts hold the same characters.
pub fn same(a: &str, b: &str) -> (r: bool)
    ensures
        r == (a@ == b@),
{
    *a == *b
}

/// Whether `v` holds a string equal to `s`.
pub fn contains_text(v: &Vec<String>, s: &str) -> (r: bool)
    ensures
        r == texts(v@).contains(s@),
{
    let mut i: usize = 0;
    while i < v.len()
        invariant
            i <= v@.len(),
            forall|k: int| 0 <= k < i ==> (#[trigger] v@[k])@ != s@,
        decreases v@.len() - i,
    {
        if same(v[i].as_str(), s) {
            proof {
                assert(texts(v@)[i as int] == s@);
            }
            return true;
        }
        i = i + 1;
    }
    proof {
        assert forall|k: int| 0 <= k < texts(v@).len() implies texts(v@)[k] != s@ by {
            assert(texts(v@)[k] == v@[k]@);
        }
    }
    false
}

/// Whether `s` begins with `prefix`.
pub fn starts_with(s: &str, prefix: &str) -> (r: bool)
    ensures
        r == prefix@.is_prefix_of(s@),
{
    let cs = chars_of(s);
    let ps = chars_of(prefix);
    if ps.len() > cs.len() {
        return false;
    }
    let mut i: usize = 0;
    while i < ps.len()
        invariant
            i <= ps@.len() <= cs@.len(),
            cs@ == s@,
            ps@ == prefix@,
            forall|k: int| 0 <= k < i ==> ps@[k] == cs@[k],
        decreases ps@.len() - i,
    {
        if ps[i] != cs[i] {
            return false;
        }
        i = i + 1;
    }
    assert(ps@ == cs@.subrange(0, ps@.len() as int));
    true
}

/// Whether `s` ends with `suffix`.
pub fn ends_with(s: &str, suffix: &str) -> (r: bool)
    ensures
        r == suffix@.is_suffix_of(s@),
{
    let cs = chars_of(s);
    let ps = chars_of(suffix);
    if ps.len() > cs.len() {
        return false;
    }
    let d: usize = cs.len() - ps.len();
    let mut i: usize = 0;
    while i < ps.len()
        invariant
            i <= ps@.len() <= cs@.len(),
            d == cs@.len() - ps@.len(),
            cs@.len() <= usize::MAX,
            cs@ == s@,
            ps@ == suffix@,
            forall|k: int| 0 <= k < i ==> ps@[k] == cs@[d + k],
        decreases ps@.len() - i,
    {
        if ps[i] != cs[d + i] {
            proof {
                assert(cs@.subrange(d as int, cs@.len() as int)[i as int] != ps@[i as int]);
            }
            return false;
        }
        i = i + 1;
    }
    assert(ps@ == cs@.subrange(d as int, cs@.len() as int));
    true
}

/// What is left of `s` behind `prefix`, where `s` begins with it.
pub fn strip_prefix(s: &str, prefix: &str) -> (r: Option<String>)
    ensures
        r is Some <==> prefix@.is_prefix_of(s@),
        r matches Some(t) ==> s@ == prefix@ + t@,
{
    if starts_with(s, prefix) {
        let cs = chars_of(s);
        let n: usize = chars_of(prefix).len();
        let t = text_of(&cs, n, cs.len());
        assert(s@ == prefix@ + t@);
        Some(t)
    } else {
        None
    }
}

/// What is left of `s` before `suffix`, where `s` ends with it.
pub fn strip_suffix(s: &str, suffix: &str) -> (r: Option<String>)
    ensures
        r is Some <==> suffix@.is_suffix_of(s@),
        r matches Some(t) ==> s@ == t@ + suffix@,
{
    if ends_with(s, suffix) {
        let cs = chars_of(s);
        let n: usize = chars_of(suffix).len();
        let t = text_of(&cs, 0, cs.len() - n);
        assert(s@ == t@ + suffix@);
        Some(t)
    } else {
        None
    }
}

/// The characters with Unicode's White_Space property.
pub open spec fn white_space(c: char) -> bool {
    ||| 0x9 <= c as u32 <= 0xd
    ||| c as u32 == 0x20
    ||| c as u32 == 0x85
    ||| c as u32 == 0xa0
    ||| c as u32 == 0x1680
    ||| 0x2000 <= c as u32 <= 0x200a
    ||| c as u32 == 0x2028
    ||| c as u32 == 0x2029
    ||| c as u32 == 0x202f
    ||| c as u32 == 0x205f
    ||| c as u32 == 0x3000
}

/// Whether `c` is white space.
pub fn is_white_space(c: char) -> (r: bool)
    ensures
        r == white_space(c),
{
    let n: u32 = c as u32;
    (0x9 <= n && n <= 0xd) || n == 0x20 || n == 0x85 || n == 0xa0 || n == 0x1680 || (0x2000 <= n
        && n <= 0x200a) || n == 0x2028 || n == 0x2029 || n == 0x202f || n == 0x205f || n == 0x3000
}

/// `s` without the white space it begins with.
pub open spec fn trimmed_start(s: Seq<char>) -> Seq<char>
    decreases s.len(),
{
    if s.len() > 0 && white_space(s[0]) {
        trimmed_start(s.drop_first())
    } else {
        s
    }
}

/// `s` without the white space it ends with.
pub open spec fn trimmed_end(s: Seq<char>) -> Seq<char>
    decreases s.len(),
{
    if s.len() > 0 && white_space(s.last()) {
        trimmed_end(s.drop_last())
    } else {
        s
    }
}

/// `s` without white space at either end.
pub open spec fn trimmed(s: Seq<char>) -> Seq<char> {
    trimmed_end(trimmed_start(s))
}

/// `s` without white space at either end.
pub fn trim(s: &str) -> (r: String)
    ensures
        r@ == trimmed(s@),
{
    let cs = chars_of(s);
    let mut from: usize = 0;
    proof {
        assert(cs@.subrange(0, cs@.len() as int) == cs@);
    }
    while from < cs.len() && is_white_space(cs[from])
        invariant
            from <= cs@.len(),
            trimmed_start(cs@.subrange(from as int, cs@.len() as int)) == trimmed_start(cs@),
        decreases cs@.len() - from,
    {
        proof {
            assert(cs@.subrange(from as int, cs@.len() as int).drop_first() == cs@.subrange(
                from + 1,
                cs@.len() as int,
            ));
        }
        from = from + 1;
    }
    let ghost rest = cs@.subrange(from as int, cs@.len() as int);
    assert(trimmed_start(cs@) == rest);
    let mut to: usize = cs.len();
    while to > from && is_white_space(cs[to - 1])
        invariant
            from <= to <= cs@.len(),
            trimmed_end(cs@.subrange(from as int, to as int)) == trimmed_end(rest),
        decreases to - from,
    {
        proof {
            assert(cs@.subrange(from as int, to as int).drop_last() == cs@.subrange(
                from as int,
                to - 1,
            ));
        }
        to = to - 1;
    }
    text_of(&cs, from, to)
}

/// Nothing but white space.
pub open spec fn blank(s: Seq<char>) -> bool {
    forall|i: int| 0 <= i < s.len() ==> white_space(#[trigger] s[i])
}

/// White space before a text is taken off with the text's own.
proof fn lemma_trim_before(a: Seq<char>, t: Seq<char>)
    requires
        blank(a),
    ensures
        trimmed_start(a + t) == trimmed_start(t),
    decreases a.len(),
{
    if a.len() == 0 {
        assert(a + t == t);
    } else {
        assert((a + t)[0] == a[0]);
        assert((a + t).drop_first() == a.drop_first() + t);
        assert forall|i: int| 0 <= i < a.drop_first().len() implies white_space(
            #[trigger] a.drop_first()[i],
        ) by {
            assert(a.drop_first()[i] == a[i + 1]);
        }
        lemma_trim_before(a.drop_first(), t);
    }
}

/// White space behind a text is taken off with the text's own.
proof fn lemma_trim_behind(t: Seq<char>, b: Seq<char>)
    requires
        blank(b),
    ensures
        trimmed_end(t + b) == trimmed_end(t),
    decreases b.len(),
{
    if b.len() == 0 {
        assert(t + b == t);
    } else {
        assert((t + b).last() == b[b.len() - 1]);
        assert((t + b).drop_last() == t + b.drop_last());
        lemma_trim_behind(t, b.drop_last());
    }
}

/// What stands behind a text that is not blank does not change where it begins.
proof fn lemma_start_kept(t: Seq<char>, b: Seq<char>)
    requires
        !blank(t),
    ensures
        trimmed_start(t + b) == trimmed_start(t) + b,
    decreases t.len(),
{
    assert((t + b)[0] == t[0]);
    if white_space(t[0]) {
        assert((t + b).drop_first() == t.drop_first() + b);
        let i = choose|i: int| 0 <= i < t.len() && !white_space(#[trigger] t[i]);
        assert(t.drop_first()[i - 1] == t[i]);
        lemma_start_kept(t.drop_first(), b);
    }
}

/// White space around a text does not matter once it is trimmed.
pub proof fn law_outer_blanks_do_not_matter(before: Seq<char>, t: Seq<char>, behind: Seq<char>)
    requires
        blank(before),
        blank(behind),
    ensures
        trimmed(before + t + behind) == trimmed(t),
{
    assert(before + t + behind == before + (t + behind));
    lemma_trim_before(before, t + behind);
    if blank(t) {
        let none = Seq::<char>::empty();
        lemma_trim_before(t, behind);
        assert(behind + none == behind);
        lemma_trim_before(behind, none);
        assert(t + none == t);
        lemma_trim_before(t, none);
    } else {
        lemma_start_kept(t, behind);
        lemma_trim_behind(trimmed_start(t), behind);
    }
}

/// Trimming gives a part of the text, at this place.
proof fn lemma_trimmed_part(s: Seq<char>) -> (from: int)
    ensures
        0 <= from <= from + trimmed(s).len() <= s.len(),
        trimmed(s) == s.subrange(from, from + trimmed(s).len()),
{
    let from = lemma_start_part(s);
    lemma_end_part(trimmed_start(s));
    assert(trimmed(s) =~= s.subrange(from, from + trimmed(s).len()));
    from
}

proof fn lemma_start_part(s: Seq<char>) -> (from: int)
    ensures
        0 <= from <= s.len(),
        trimmed_start(s) == s.skip(from),
    decreases s.len(),
{
    if s.len() > 0 && white_space(s[0]) {
        let n = lemma_start_part(s.drop_first());
        assert(s.drop_first().skip(n) =~= s.skip(n + 1));
        n + 1
    } else {
        assert(s.skip(0) =~= s);
        0
    }
}

proof fn lemma_end_part(s: Seq<char>)
    ensures
        trimmed_end(s).len() <= s.len(),
        trimmed_end(s) == s.take(trimmed_end(s).len() as int),
    decreases s.len(),
{
    if s.len() > 0 && white_space(s.last()) {
        lemma_end_part(s.drop_last());
        let n = trimmed_end(s).len() as int;
        assert(s.drop_last().take(n) =~= s.take(n));
    } else {
        assert(s.take(s.len() as int) =~= s);
    }
}

/// Trimmed ASCII text is ASCII text.
proof fn lemma_trimmed_ascii(s: Seq<char>)
    requires
        is_ascii_chars(s),
    ensures
        is_ascii_chars(trimmed(s)),
{
    let from = lemma_trimmed_part(s);
    let t = trimmed(s);
    assert forall|i: int| 0 <= i < t.len() implies '\0' <= #[trigger] t[i] <= '\u{7f}' by {
        assert(t[i] == s[from + i]);
    }
}

/// Trimming looks at white space alone, so it does not matter whether letters are mapped before or
/// after it.
proof fn lemma_trim_mapped(s: Seq<char>, f: spec_fn(char) -> char)
    requires
        forall|c: char| white_space(#[trigger] f(c)) == white_space(c),
    ensures
        trimmed(s.map_values(f)) == trimmed(s).map_values(f),
{
    lemma_trim_start_mapped(s, f);
    lemma_trim_end_mapped(trimmed_start(s), f);
}

proof fn lemma_trim_start_mapped(s: Seq<char>, f: spec_fn(char) -> char)
    requires
        forall|c: char| white_space(#[trigger] f(c)) == white_space(c),
    ensures
        trimmed_start(s.map_values(f)) == trimmed_start(s).map_values(f),
    decreases s.len(),
{
    if s.len() > 0 {
        assert(s.map_values(f)[0] == f(s[0]));
        assert(s.map_values(f).drop_first() =~= s.drop_first().map_values(f));
        lemma_trim_start_mapped(s.drop_first(), f);
    }
}

proof fn lemma_trim_end_mapped(s: Seq<char>, f: spec_fn(char) -> char)
    requires
        forall|c: char| white_space(#[trigger] f(c)) == white_space(c),
    ensures
        trimmed_end(s.map_values(f)) == trimmed_end(s).map_values(f),
    decreases s.len(),
{
    if s.len() > 0 {
        assert(s.map_values(f).last() == f(s.last()));
        assert(s.map_values(f).drop_last() =~= s.drop_last().map_values(f));
        lemma_trim_end_mapped(s.drop_last(), f);
    }
}

/// The case of ASCII letters does not matter once a text is trimmed and in uppercase.
pub proof fn law_case_does_not_matter(s: Seq<char>)
    requires
        is_ascii_chars(s),
    ensures
        uppercase(trimmed(ascii_lowercase(s))) == uppercase(trimmed(s)),
        uppercase(trimmed(ascii_uppercase(s))) == uppercase(trimmed(s)),
{
    let t = trimmed(s);
    lemma_trimmed_ascii(s);
    lemma_trim_mapped(s, |c: char| ascii_lower(c));
    lemma_trim_mapped(s, |c: char| ascii_upper(c));
    assert(is_ascii_chars(ascii_lowercase(t))) by {
        assert forall|i: int| 0 <= i < t.len() implies '\0' <= #[trigger] ascii_lowercase(t)[i]
            <= '\u{7f}' by {
            assert(ascii_lowercase(t)[i] == ascii_lower(t[i]));
        }
    }
    assert(is_ascii_chars(ascii_uppercase(t))) by {
        assert forall|i: int| 0 <= i < t.len() implies '\0' <= #[trigger] ascii_uppercase(t)[i]
            <= '\u{7f}' by {
            assert(ascii_uppercase(t)[i] == ascii_upper(t[i]));
        }
    }
    assert(ascii_uppercase(ascii_lowercase(t)) =~= ascii_uppercase(t));
    assert(ascii_uppercase(ascii_uppercase(t)) =~= ascii_uppercase(t));
}

/// `s` without the characters `c` that it ends with.
pub open spec fn without_trailing(s: Seq<char>, c: char) -> Seq<char>
    decreases s.len(),
{
    if s.len() > 0 && s.last() == c {
        without_trailing(s.drop_last(), c)
    } else {
        s
    }
}

/// `s` without the characters `c` that it ends with.
pub fn trim_end_matches(s: &str, c: char) -> (r: String)
    ensures
        r@ == without_trailing(s@, c),
{
    let cs = chars_of(s);
    let mut to: usize = cs.len();
    proof {
        assert(cs@.subrange(0, cs@.len() as int) == cs@);
    }
    while to > 0 && cs[to - 1] == c
        invariant
            to <= cs@.len(),
            without_trailing(cs@.subrange(0, to as int), c) == without_trailing(cs@, c),
        decreases to,
    {
        proof {
            assert(cs@.subrange(0, to as int).drop_last() == cs@.subrange(0, to - 1));
        }
        to = to - 1;
    }
    text_of(&cs, 0, to)
}

/// Holds of every character but `c`.
pub open spec fn other_than(c: char) -> spec_fn(char) -> bool {
    |d: char| d != c
}

/// `s` without any character `c`.
pub open spec fn without_char(s: Seq<char>, c: char) -> Seq<char> {
    s.filter(other_than(c))
}

/// `s` without any character `c`.
pub fn remove_char(s: &str, c: char) -> (r: String)
    ensures
        r@ == without_char(s@, c),
{
    let cs = chars_of(s);
    let mut r = String::new();
    let mut i: usize = 0;
    let ghost keep = other_than(c);
    proof {
        reveal(Seq::filter);
        assert(r@ == cs@.take(0).filter(keep));
    }
    while i < cs.len()
        invariant
            i <= cs@.len(),
            keep == other_than(c),
            r@ == cs@.take(i as int).filter(keep),
        decreases cs@.len() - i,
    {
        proof {
            assert(cs@.take(i + 1) == cs@.take(i as int).push(cs@[i as int]));
            cs@.take(i as int).lemma_filter_push(cs@[i as int], keep);
        }
        if cs[i] != c {
            r.push(cs[i]);
        }
        i = i + 1;
    }
    assert(cs@.take(cs@.len() as int) == cs@);
    r
}

/// What separates the pieces of a text.
#[derive(Clone, Copy, PartialEq, Eq, Debug, Structural)]
pub enum Separator {
    /// One given character.
    Char(char),
    /// Any white space character.
    Space,
}

impl Separator {
    /// Whether `c` separates pieces.
    pub open spec fn cuts(self, c: char) -> bool {
        match self {
            Separator::Char(d) => c == d,
            Separator::Space => white_space(c),
        }
    }

    /// Whether `c` separates pieces.
    pub fn is_cut(&self, c: char) -> (r: bool)
        ensures
            r == self.cuts(c),
    {
        match self {
            Separator::Char(d) => c == *d,
            Separator::Space => is_white_space(c),
        }
    }
}

/// The pieces of `s` between its separators, empty ones too: one more piece than separators.
pub open spec fn pieces(s: Seq<char>, sep: Separator) -> Seq<Seq<char>>
    decreases s.len(),
{
    if s.len() == 0 {
        seq![Seq::<char>::empty()]
    } else {
        let before = pieces(s.drop_last(), sep);
        if sep.cuts(s.last()) {
            before.push(Seq::<char>::empty())
        } else {
            before.update(before.len() - 1, before.last().push(s.last()))
        }
    }
}

/// The pieces of `s` between its separators.
pub fn split(s: &str, sep: Separator) -> (r: Vec<String>)
    ensures
        texts(r@) == pieces(s@, sep),
{
    let cs = chars_of(s);
    let mut done: Vec<String> = Vec::new();
    let mut current = String::new();
    let mut i: usize = 0;
    proof {
        assert(cs@.take(0) == Seq::<char>::empty());
        assert(texts(done@).push(current@) == pieces(cs@.take(0), sep));
    }
    while i < cs.len()
        invariant
            i <= cs@.len(),
            texts(done@).push(current@) == pieces(cs@.take(i as int), sep),
        decreases cs@.len() - i,
    {
        let ghost upto = cs@.take(i + 1);
        proof {
            assert(upto.drop_last() == cs@.take(i as int));
            assert(upto.last() == cs@[i as int]);
        }
        let ghost old_done = done@;
        let ghost old_current = current@;
        if sep.is_cut(cs[i]) {
            done.push(current);
            current = String::new();
            proof {
                assert(texts(done@) == texts(old_done).push(old_current));
            }
        } else {
            current.push(cs[i]);
            proof {
                let before = texts(old_done).push(old_current);
                assert(before.update(before.len() - 1, before.last().push(cs@[i as int]))
                    == texts(old_done).push(current@));
            }
        }
        i = i + 1;
    }
    let ghost old_done = done@;
    let ghost old_current = current@;
    done.push(current);
    proof {
        assert(cs@.take(cs@.len() as int) == cs@);
        assert(texts(done@) == texts(old_done).push(old_current));
    }
    done
}

/// The pieces of `s`, trimmed, without the empty ones.
pub open spec fn listed(s: Seq<char>, sep: Separator) -> Seq<Seq<char>> {
    pieces(s, sep).map_values(|t: Seq<char>| trimmed(t)).filter(|t: Seq<char>| t.len() > 0)
}

/// The pieces of `s`, trimmed, without the empty ones.
pub fn split_list(s: &str, sep: Separator) -> (r: Vec<String>)
    ensures
        texts(r@) == listed(s@, sep),
{
    let parts = split(s, sep);
    let mut r: Vec<String> = Vec::new();
    let mut i: usize = 0;
    let ghost cut = texts(parts@).map_values(|t: Seq<char>| trimmed(t));
    let ghost keep = |t: Seq<char>| t.len() > 0;
    proof {
        reveal(Seq::filter);
        assert(texts(r@) == cut.take(0).filter(keep));
    }
    while i < parts.len()
        invariant
            i <= parts@.len(),
            cut == texts(parts@).map_values(|t: Seq<char>| trimmed(t)),
            keep == (|t: Seq<char>| t.len() > 0),
            texts(r@) == cut.take(i as int).filter(keep),
        decreases parts@.len() - i,
    {
        let t = trim(parts[i].as_str());
        proof {
            assert(cut.take(i + 1) == cut.take(i as int).push(cut[i as int]));
            cut.take(i as int).lemma_filter_push(cut[i as int], keep);
            assert(cut[i as int] == t@);
        }
        let ghost before = r@;
        if !t.as_str().is_empty() {
            r.push(t);
            proof {
                assert(texts(r@) == texts(before).push(t@));
            }
        }
        i = i + 1;
    }
    proof {
        assert(cut.take(cut.len() as int) == cut);
    }
    r
}

/// An empty text lists nothing.
pub proof fn law_nothing_listed_in_nothing(sep: Separator)
    ensures
        listed(Seq::empty(), sep) == Seq::<Seq<char>>::empty(),
{
    reveal_with_fuel(Seq::filter, 2);
    let parts = pieces(Seq::empty(), sep);
    let cut = parts.map_values(|t: Seq<char>| trimmed(t));
    assert(cut.len() == 1);
    assert(cut[0] == Seq::<char>::empty());
    assert(cut.drop_last() == Seq::<Seq<char>>::empty());
}

/// What is listed is never empty.
pub proof fn law_listed_is_not_empty(s: Seq<char>, sep: Separator, i: int)
    requires
        0 <= i < listed(s, sep).len(),
    ensures
        listed(s, sep)[i].len() > 0,
{
    broadcast use vstd::seq_lib::group_filter_ensures;

    let keep = |t: Seq<char>| t.len() > 0;
    assert(keep(listed(s, sep)[i]));
}

/// What stands before and behind the first character `c` of `s`.
pub open spec fn cut_once(s: Seq<char>, c: char) -> Option<(Seq<char>, Seq<char>)>
    decreases s.len(),
{
    if s.len() == 0 {
        None
    } else if s[0] == c {
        Some((Seq::empty(), s.drop_first()))
    } else {
        match cut_once(s.drop_first(), c) {
            Some((before, behind)) => Some((seq![s[0]] + before, behind)),
            None => None,
        }
    }
}

/// The first character `c` divides `s`.
pub proof fn lemma_cut_once(s: Seq<char>, i: int, c: char)
    requires
        0 <= i <= s.len(),
        forall|k: int| 0 <= k < i ==> #[trigger] s[k] != c,
        i < s.len() ==> s[i] == c,
    ensures
        cut_once(s, c) == (if i < s.len() {
            Some((s.take(i), s.skip(i + 1)))
        } else {
            None
        }),
    decreases s.len(),
{
    if s.len() > 0 {
        if i == 0 {
            assert(s.take(0) =~= Seq::<char>::empty());
            assert(s.skip(1) =~= s.drop_first());
        } else {
            let rest = s.drop_first();
            assert forall|k: int| 0 <= k < i - 1 implies #[trigger] rest[k] != c by {
                assert(rest[k] == s[k + 1]);
            }
            lemma_cut_once(rest, i - 1, c);
            if i < s.len() {
                assert(seq![s[0]] + rest.take(i - 1) =~= s.take(i));
                assert(rest.skip(i) =~= s.skip(i + 1));
            }
        }
    }
}

/// What stands before and behind the first character `c` of `s`.
pub fn split_once(s: &str, c: char) -> (r: Option<(String, String)>)
    ensures
        match r {
            Some((before, behind)) => cut_once(s@, c) == Some((before@, behind@)),
            None => cut_once(s@, c) is None,
        },
{
    let cs = chars_of(s);
    let mut i: usize = 0;
    while i < cs.len() && cs[i] != c
        invariant
            i <= cs@.len(),
            forall|k: int| 0 <= k < i ==> #[trigger] cs@[k] != c,
        decreases cs@.len() - i,
    {
        i = i + 1;
    }
    proof {
        lemma_cut_once(cs@, i as int, c);
    }
    if i < cs.len() {
        Some((text_of(&cs, 0, i), text_of(&cs, i + 1, cs.len())))
    } else {
        None
    }
}

/// A text without separators is one piece; a separator ends a piece, and what stands behind the last
/// separator is the last piece.
pub proof fn law_separators_part_pieces(s: Seq<char>, c: char, t: Seq<char>, sep: Separator)
    requires
        sep.cuts(c),
        forall|i: int| 0 <= i < t.len() ==> !sep.cuts(#[trigger] t[i]),
    ensures
        pieces(t, sep) == seq![t],
        pieces(s.push(c) + t, sep) == pieces(s, sep).push(t),
    decreases t.len(),
{
    let whole = s.push(c) + t;
    if t.len() == 0 {
        assert(whole =~= s.push(c));
        assert(s.push(c).drop_last() =~= s);
        assert(t =~= Seq::empty());
    } else {
        let front = t.drop_last();
        assert forall|i: int| 0 <= i < front.len() implies !sep.cuts(#[trigger] front[i]) by {
            assert(front[i] == t[i]);
        }
        law_separators_part_pieces(s, c, front, sep);
        assert(!sep.cuts(t[t.len() - 1]));
        assert(whole.drop_last() =~= s.push(c) + front);
        assert(front.push(t.last()) =~= t);
        assert(pieces(whole, sep) =~= pieces(s, sep).push(t));
        assert(pieces(t, sep) =~= seq![t]);
    }
}

/// Trimming takes away white space alone, all of it at both ends.
pub proof fn law_trimming_takes_the_outer_blanks(s: Seq<char>)
    ensures
        exists|before: Seq<char>, behind: Seq<char>|
            #[trigger] blank(before) && #[trigger] blank(behind) && s == before + trimmed(s)
                + behind,
        trimmed(s).len() > 0 ==> !white_space(trimmed(s)[0]) && !white_space(trimmed(s).last()),
{
    lemma_blank_start(s);
    lemma_blank_end(trimmed_start(s));
    let a = trimmed_start(s);
    let before = s.take(s.len() - a.len());
    let behind = a.skip(trimmed(s).len() as int);
    assert(s =~= before + trimmed(s) + behind);
    assert(blank(before) && blank(behind));
}

proof fn lemma_blank_start(s: Seq<char>)
    ensures
        trimmed_start(s).len() <= s.len(),
        blank(s.take(s.len() - trimmed_start(s).len())),
        s == s.take(s.len() - trimmed_start(s).len()) + trimmed_start(s),
        trimmed_start(s).len() > 0 ==> !white_space(trimmed_start(s)[0]),
    decreases s.len(),
{
    if s.len() > 0 && white_space(s[0]) {
        let rest = s.drop_first();
        lemma_blank_start(rest);
        let n = rest.len() - trimmed_start(rest).len();
        let core = trimmed_start(rest);
        assert(s.take(n + 1) =~= seq![s[0]] + rest.take(n));
        assert(s =~= seq![s[0]] + (rest.take(n) + core));
        assert(s =~= s.take(n + 1) + core);
    } else {
        assert(s.take(0) =~= Seq::empty());
        assert(s =~= s.take(0) + s);
    }
}

proof fn lemma_blank_end(s: Seq<char>)
    ensures
        trimmed_end(s).len() <= s.len(),
        blank(s.skip(trimmed_end(s).len() as int)),
        s == trimmed_end(s) + s.skip(trimmed_end(s).len() as int),
        trimmed_end(s).len() > 0 ==> trimmed_end(s)[0] == s[0] && !white_space(
            trimmed_end(s).last(),
        ),
    decreases s.len(),
{
    if s.len() > 0 && white_space(s.last()) {
        let rest = s.drop_last();
        lemma_blank_end(rest);
        let n = trimmed_end(rest).len() as int;
        let core = trimmed_end(rest);
        assert(s.skip(n) =~= rest.skip(n).push(s.last()));
        assert(s =~= (core + rest.skip(n)).push(s.last()));
        assert(s =~= core + s.skip(n));
    } else {
        assert(s.skip(s.len() as int) =~= Seq::empty());
        assert(s =~= s + s.skip(s.len() as int));
    }
}

/// One more piece behind a separator is listed last, trimmed, where there is anything to it.
pub proof fn law_listing_takes_one_more(s: Seq<char>, c: char, t: Seq<char>, sep: Separator)
    requires
        sep.cuts(c),
        forall|i: int| 0 <= i < t.len() ==> !sep.cuts(#[trigger] t[i]),
    ensures
        listed(s.push(c) + t, sep) == if trimmed(t).len() > 0 {
            listed(s, sep).push(trimmed(t))
        } else {
            listed(s, sep)
        },
        listed(t, sep) == if trimmed(t).len() > 0 {
            seq![trimmed(t)]
        } else {
            Seq::empty()
        },
{
    law_separators_part_pieces(s, c, t, sep);
    let cut = |t: Seq<char>| trimmed(t);
    let keep = |t: Seq<char>| t.len() > 0;
    let before = pieces(s, sep);
    assert(before.push(t).map_values(cut) =~= before.map_values(cut).push(trimmed(t)));
    before.map_values(cut).lemma_filter_push(trimmed(t), keep);
    let none = Seq::<Seq<char>>::empty();
    assert(seq![t].map_values(cut) =~= none.push(trimmed(t)));
    none.lemma_filter_push(trimmed(t), keep);
    reveal(Seq::filter);
    assert(none.filter(keep) =~= none);
    assert(none.push(trimmed(t)) =~= seq![trimmed(t)]);
}

/// Taking a character out of a text takes out every one of it, and keeps all others in order.
pub proof fn law_one_character_is_taken_out(s: Seq<char>, d: char, c: char)
    ensures
        without_char(Seq::empty(), c) == Seq::<char>::empty(),
        without_char(s.push(d), c) == if d == c {
            without_char(s, c)
        } else {
            without_char(s, c).push(d)
        },
{
    s.lemma_filter_push(d, other_than(c));
    reveal(Seq::filter);
    assert(without_char(Seq::empty(), c) =~= Seq::<char>::empty());
}

/// What is taken from the end of a text is this character alone, as often as it stands there.
pub proof fn law_trailing_characters_are_taken(s: Seq<char>, c: char)
    ensures
        without_trailing(s, c).is_prefix_of(s),
        forall|i: int| without_trailing(s, c).len() <= i < s.len() ==> #[trigger] s[i] == c,
        without_trailing(s, c).len() > 0 ==> without_trailing(s, c).last() != c,
    decreases s.len(),
{
    let r = without_trailing(s, c);
    if s.len() > 0 && s.last() == c {
        let front = s.drop_last();
        law_trailing_characters_are_taken(front, c);
        assert forall|i: int| r.len() <= i < s.len() implies #[trigger] s[i] == c by {
            if i < front.len() {
                assert(front[i] == c);
            }
        }
        assert(r =~= s.subrange(0, r.len() as int)) by {
            assert(r == front.subrange(0, r.len() as int));
        }
    } else {
        assert(r =~= s.subrange(0, r.len() as int));
    }
}

} // verus!
