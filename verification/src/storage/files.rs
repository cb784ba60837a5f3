//! Where files are stored.

use vstd::prelude::*;
use vstd::utf8::*;

use crate::text::chars_of;

verus! {

/// The part of a text between two places, counted in bytes, where both are inside the text and
/// between characters.
pub open spec fn slice_of(s: Seq<char>, from: int, to: int) -> Option<Seq<char>> {
    let bytes = encode_utf8(s);
    if from <= to && is_char_boundary(bytes, from) && is_char_boundary(bytes, to) {
        Some(decode_utf8(bytes.subrange(from, to)))
    } else {
        None
    }
}

/// A boundary before another one is a boundary of what comes before that one.
proof fn lemma_boundary_before(bytes: Seq<u8>, from: int, to: int)
    requires
        valid_utf8(bytes),
        0 <= from <= to <= bytes.len(),
        is_char_boundary(bytes, from),
        is_char_boundary(bytes, to),
    ensures
        valid_utf8(bytes.subrange(0, to)),
        is_char_boundary(bytes.subrange(0, to), from),
{
    let head = bytes.subrange(0, to);
    valid_utf8_split(bytes, to);
    if from < to {
        is_char_boundary_iff_not_is_continuation_byte(bytes, from);
        is_char_boundary_iff_not_is_continuation_byte(head, from);
        assert(head[from] == bytes[from]);
    } else {
        is_char_boundary_start_end_of_seq(head);
        assert(head.len() == from);
    }
}

/// A boundary lies inside the text.
proof fn lemma_boundary_inside(bytes: Seq<u8>, index: int)
    requires
        valid_utf8(bytes),
        is_char_boundary(bytes, index),
    ensures
        0 <= index <= bytes.len(),
{
}

/// The part of a text between two places, counted in bytes.
pub fn slice(s: &str, from: usize, to: usize) -> (r: Option<String>)
    ensures
        match r {
            Some(t) => slice_of(s@, from as int, to as int) == Some(t@),
            None => slice_of(s@, from as int, to as int) is None,
        },
{
    proof {
        encode_utf8_valid_utf8(s@);
    }
    if from <= to && s.is_char_boundary(from) && s.is_char_boundary(to) {
        proof {
            lemma_boundary_inside(encode_utf8(s@), to as int);
            lemma_boundary_before(encode_utf8(s@), from as int, to as int);
        }
        let (head, _) = s.split_at(to);
        let (_, middle) = head.split_at(from);
        proof {
            assert(encode_utf8(middle@) == encode_utf8(s@).subrange(from as int, to as int));
            encode_utf8_decode_utf8(middle@);
        }
        Some(middle.to_owned())
    } else {
        None
    }
}

/// The directory for a part of a name; names without that part share one.
pub open spec fn bucket(name: Seq<char>, from: int, to: int) -> Seq<char> {
    match slice_of(name, from, to) {
        Some(part) => part,
        None => "__"@,
    }
}

fn bucket_of(name: &str, from: usize, to: usize) -> (r: String)
    ensures
        r@ == bucket(name@, from as int, to as int),
{
    match slice(name, from, to) {
        Some(part) => part,
        None => "__".to_owned(),
    }
}

/// A path that takes the place of the one it is joined to.
pub open spec fn absolute(path: Seq<char>) -> bool {
    path.len() > 0 && path[0] == '/'
}

/// A path with one more component. An absolute one takes the path's place.
pub open spec fn path_join(base: Seq<char>, part: Seq<char>) -> Seq<char> {
    if absolute(part) {
        part
    } else if base.len() == 0 || base.last() == '/' {
        base + part
    } else {
        base + "/"@ + part
    }
}

fn join(base: String, part: &str) -> (r: String)
    ensures
        r@ == path_join(base@, part@),
{
    let cs = chars_of(part);
    if cs.len() > 0 && cs[0] == '/' {
        return part.to_owned();
    }
    let bs = chars_of(base.as_str());
    let mut r = base;
    if bs.len() > 0 && bs[bs.len() - 1] != '/' {
        r.append("/");
    }
    r.append(part);
    r
}

/// The path of a stored file: the name below two directories, its first two bytes and its next
/// two.
pub open spec fn path_of(storage: Seq<char>, filename: Seq<char>) -> Seq<char> {
    path_join(
        path_join(path_join(storage, bucket(filename, 0, 2)), bucket(filename, 2, 4)),
        filename,
    )
}

/// The path of a stored file, bucketed by the first four bytes of its name: "abcdef.gif" is stored
/// as "<storage>/ab/cd/abcdef.gif". A name too short for a bucket, or with a character across the
/// bucket's end, goes to the bucket "__".
pub fn file_path(storage: &str, filename: &str) -> (r: String)
    ensures
        r@ == path_of(storage@, filename@),
{
    let first = bucket_of(filename, 0, 2);
    let second = bucket_of(filename, 2, 4);
    join(join(join(storage.to_owned(), first.as_str()), second.as_str()), filename)
}

/// The slice of an ASCII text has the characters at these places.
proof fn lemma_ascii_slice(s: Seq<char>, from: int, to: int)
    requires
        is_ascii_chars(s),
        0 <= from <= to <= s.len(),
    ensures
        slice_of(s, from, to) == Some(s.subrange(from, to)),
{
    let bytes = encode_utf8(s);
    encode_utf8_valid_utf8(s);
    is_ascii_chars_encode_utf8(s);
    lemma_ascii_boundary(s, from);
    lemma_ascii_boundary(s, to);
    let part = s.subrange(from, to);
    assert(is_ascii_chars(part)) by {
        assert forall|i: int| 0 <= i < part.len() implies '\0' <= #[trigger] part[i]
            <= '\u{7f}' by {
            assert(part[i] == s[from + i]);
        }
    }
    is_ascii_chars_encode_utf8(part);
    assert(encode_utf8(part) =~= bytes.subrange(from, to)) by {
        assert forall|i: int| 0 <= i < part.len() implies encode_utf8(part)[i] == bytes.subrange(
            from,
            to,
        )[i] by {
            assert(part[i] == s[from + i]);
            assert(bytes[from + i] == s[from + i] as u8);
        }
    }
    encode_utf8_decode_utf8(part);
}

proof fn lemma_ascii_boundary(s: Seq<char>, index: int)
    requires
        is_ascii_chars(s),
        0 <= index <= s.len(),
    ensures
        is_char_boundary(encode_utf8(s), index),
{
    let bytes = encode_utf8(s);
    encode_utf8_valid_utf8(s);
    is_ascii_chars_encode_utf8(s);
    if index == s.len() {
        is_char_boundary_start_end_of_seq(bytes);
    } else {
        is_char_boundary_iff_is_leading_byte(bytes, index);
        let b = bytes[index];
        assert(s[index] as u8 == b);
        assert(b <= 0x7f);
        assert(is_leading_byte_width_1(b));
    }
}

/// The path of a stored file begins with the storage directory, unless the file's name, or one of
/// its buckets, begins with a slash.
pub proof fn law_paths_begin_with_storage(storage: Seq<char>, filename: Seq<char>)
    requires
        !absolute(filename),
        !absolute(bucket(filename, 0, 2)),
        !absolute(bucket(filename, 2, 4)),
    ensures
        storage.is_prefix_of(path_of(storage, filename)),
{
    let first = path_join(storage, bucket(filename, 0, 2));
    let second = path_join(first, bucket(filename, 2, 4));
    assert(storage =~= first.subrange(0, storage.len() as int));
    assert(first =~= second.subrange(0, first.len() as int));
    assert(storage =~= path_of(storage, filename).subrange(0, storage.len() as int));
}

/// What stands before the names in a directory: its path and, where it does not end with one, a
/// slash.
pub open spec fn directory(storage: Seq<char>) -> Seq<char> {
    if storage.len() == 0 || storage.last() == '/' {
        storage
    } else {
        storage + "/"@
    }
}

/// A name of at least four ASCII characters with no slash among the first four, such as the
/// server gives its files, is stored in buckets of its first two and next two characters.
pub proof fn law_names_are_bucketed(storage: Seq<char>, filename: Seq<char>)
    requires
        is_ascii_chars(filename),
        filename.len() >= 4,
        forall|i: int| 0 <= i < 4 ==> #[trigger] filename[i] != '/',
    ensures
        path_of(storage, filename) == directory(storage) + filename.take(2) + "/"@
            + filename.subrange(2, 4) + "/"@ + filename,
        storage.is_prefix_of(path_of(storage, filename)),
{
    lemma_ascii_slice(filename, 0, 2);
    lemma_ascii_slice(filename, 2, 4);
    assert(filename.subrange(0, 2) =~= filename.take(2));
    let a = filename.take(2);
    let b = filename.subrange(2, 4);
    assert(a[0] == filename[0] && b[0] == filename[2] && a.last() == filename[1] && b.last()
        == filename[3]);
    let first = directory(storage) + a;
    assert(path_join(storage, a) == first);
    assert(first.last() == a.last());
    let second = first + "/"@ + b;
    assert(path_join(first, b) == second);
    assert(second.last() == b.last());
    law_paths_begin_with_storage(storage, filename);
}

} // verus!
