//! Uploading a GIF.

use vstd::prelude::*;

use crate::auth::AuthUser;
use crate::config::Config;
use crate::error::{joined, AppError, ErrorView};
use crate::models::{
    Gif, GifRendition, GifResponse, RenditionInfo, RenditionInfoView, RenditionMap,
};
use crate::storage::db::{self, InsertOrder, RenditionSpec, UploadOutcome};
use crate::storage::files::{directory, law_names_are_bucketed, path_of};
use crate::storage::scale::{fit, fitted};
use crate::storage::sql::{sql, Statement};
use crate::storage::{Renditions, PREVIEW_WIDTH};
use crate::text::{
    chars_of, law_separators_part_pieces, lowercase, pieces, same, split, text_of, texts, trim,
    trimmed, Separator,
};

verus! {

/// The URL of a rendition.
pub open spec fn url_of(base_url: Seq<char>, gif_id: Seq<char>, rendition: Seq<char>) -> Seq<char> {
    if rendition == "original"@ {
        base_url + "/gifs/"@ + gif_id + "/file"@
    } else {
        base_url + "/gifs/"@ + gif_id + "/file?rendition="@ + rendition
    }
}

/// The URL of a rendition.
pub fn rendition_url(base_url: &str, gif_id: &str, rendition: &str) -> (r: String)
    ensures
        r@ == url_of(base_url@, gif_id@, rendition@),
{
    let mut r = base_url.to_owned();
    r.append("/gifs/");
    r.append(gif_id);
    if same(rendition, "original") {
        r.append("/file");
    } else {
        r.append("/file?rendition=");
        r.append(rendition);
    }
    r
}

/// A stored rendition as it is told to a client.
pub open spec fn told(base_url: Seq<char>, gif_id: Seq<char>, row: GifRendition) -> RenditionInfoView {
    RenditionInfoView {
        url: url_of(base_url, gif_id, row.rendition@),
        width: row.width,
        height: row.height,
        size_bytes: row.size_bytes,
    }
}

/// The stored renditions by name; of two of one name, the later one counts.
pub open spec fn renditions_of(
    base_url: Seq<char>,
    gif_id: Seq<char>,
    rows: Seq<GifRendition>,
) -> Map<Seq<char>, RenditionInfoView>
    decreases rows.len(),
{
    if rows.len() == 0 {
        Map::empty()
    } else {
        renditions_of(base_url, gif_id, rows.drop_last()).insert(
            rows.last().rendition@,
            told(base_url, gif_id, rows.last()),
        )
    }
}

/// The stored renditions of a GIF, by name, as they are told to a client.
pub fn build_renditions_pub(base_url: &str, gif_id: &str, rows: &Vec<GifRendition>) -> (r:
    RenditionMap)
    ensures
        r.wf(),
        r@ == renditions_of(base_url@, gif_id@, rows@),
{
    let mut r = RenditionMap::new();
    let mut i: usize = 0;
    assert(rows@.take(0) == Seq::<GifRendition>::empty());
    while i < rows.len()
        invariant
            i <= rows@.len(),
            r.wf(),
            r@ == renditions_of(base_url@, gif_id@, rows@.take(i as int)),
        decreases rows@.len() - i,
    {
        let row = &rows[i];
        let info = RenditionInfo {
            url: rendition_url(base_url, gif_id, row.rendition.as_str()),
            width: row.width,
            height: row.height,
            size_bytes: row.size_bytes,
        };
        proof {
            assert(rows@.take(i + 1).drop_last() == rows@.take(i as int));
            assert(info@ == told(base_url@, gif_id@, rows@[i as int]));
        }
        r.insert(row.rendition.clone(), info);
        i = i + 1;
    }
    assert(rows@.take(rows@.len() as int) == rows@);
    r
}

/// The answer tells of the GIF what is stored of it.
pub open spec fn tells(r: GifResponse, gif: Gif) -> bool {
    &&& r.id == gif.id
    &&& r.filename == gif.filename
    &&& r.uploader_id == gif.uploader_id
    &&& r.visibility == gif.visibility
    &&& r.is_nsfw == gif.is_nsfw
    &&& r.frame_count == gif.frame_count
    &&& r.duration_ms == gif.duration_ms
    &&& r.uses == gif.uses
    &&& r.uploaded_at == gif.uploaded_at
}

/// A GIF as it is told to a client.
pub fn to_response(gif: Gif, tags: Vec<String>, renditions: RenditionMap, _host: &str) -> (r:
    GifResponse)
    ensures
        tells(r, gif),
        r.id == gif.id,
        r.filename == gif.filename,
        r.uploader_id == gif.uploader_id,
        r.visibility == gif.visibility,
        r.is_nsfw == gif.is_nsfw,
        r.frame_count == gif.frame_count,
        r.duration_ms == gif.duration_ms,
        r.uses == gif.uses,
        r.uploaded_at == gif.uploaded_at,
        r.tags == tags,
        r.renditions == renditions,
{
    GifResponse {
        id: gif.id,
        filename: gif.filename,
        uploader_id: gif.uploader_id,
        visibility: gif.visibility,
        is_nsfw: gif.is_nsfw,
        tags,
        frame_count: gif.frame_count,
        duration_ms: gif.duration_ms,
        uses: gif.uses,
        uploaded_at: gif.uploaded_at,
        renditions,
    }
}

/// The SHA-256 digest of some bytes.
pub uninterp spec fn sha256(data: Seq<u8>) -> Seq<u8>;

/// `Sha256::digest` of the `sha2` crate gives the 32 bytes of the digest. The digest is a
/// standard's matter; the contract names it.
#[verifier::external_body]
pub(crate) fn digest(data: &[u8]) -> (r: Vec<u8>)
    ensures
        r@ == sha256(data@),
        r@.len() == 32,
{
    <sha2::Sha256 as sha2::Digest>::digest(data).to_vec()
}

/// The hexadecimal digit for four bits.
pub open spec fn hex_digit(v: int) -> char {
    if v < 10 {
        (48 + v) as char
    } else {
        (87 + v) as char
    }
}

/// Two lowercase hexadecimal digits for each byte.
pub open spec fn lower_hex(bytes: Seq<u8>) -> Seq<char> {
    Seq::new(
        2 * bytes.len(),
        |i: int|
            hex_digit(
                if i % 2 == 0 {
                    bytes[i / 2] as int / 16
                } else {
                    bytes[i / 2] as int % 16
                },
            ),
    )
}

/// `hex::encode` writes two lowercase hexadecimal digits for each byte.
#[verifier::external_body]
pub(crate) fn hex_encode(bytes: &Vec<u8>) -> (r: String)
    requires
        2 * bytes@.len() <= usize::MAX,
    ensures
        r@ == lower_hex(bytes@),
{
    hex::encode(bytes)
}

/// The hash by which content is recognized.
pub open spec fn hash_of(data: Seq<u8>) -> Seq<char> {
    lower_hex(sha256(data))
}

/// The hash by which content is recognized: its SHA-256 digest in hexadecimal.
pub fn content_hash(data: &[u8]) -> (r: String)
    ensures
        r@ == hash_of(data@),
        r@ == lower_hex(sha256(data@)),
        r@.len() == 64,
{
    hex_encode(&digest(data))
}

/// The most tags that an upload can bring.
pub const MAX_TAGS: usize = 20;

/// The most characters of a tag.
pub const MAX_TAG_CHARS: usize = 100;

/// At most the first `n` of a sequence.
pub open spec fn at_most<T>(s: Seq<T>, n: int) -> Seq<T> {
    if s.len() <= n {
        s
    } else {
        s.take(n)
    }
}

/// A text that is not empty.
pub open spec fn nonempty() -> spec_fn(Seq<char>) -> bool {
    |t: Seq<char>| t.len() > 0
}

/// A tag cut to its greatest length.
pub open spec fn shortened() -> spec_fn(Seq<char>) -> Seq<char> {
    |t: Seq<char>| at_most(t, MAX_TAG_CHARS as int)
}

/// The tags among some texts: the first ones that are not empty, each cut to its greatest length.
pub open spec fn tags_among(parts: Seq<Seq<char>>) -> Seq<Seq<char>> {
    at_most(parts.filter(nonempty()), MAX_TAGS as int).map_values(shortened())
}

/// A text in lowercase, without white space at its ends.
pub open spec fn normalized(s: Seq<char>) -> Seq<char> {
    lowercase(trimmed(s))
}

/// The tags of a comma-separated list.
pub open spec fn tags_of(text: Seq<char>) -> Seq<Seq<char>> {
    tags_among(pieces(text, Separator::Char(',')).map_values(|t: Seq<char>| normalized(t)))
}

/// The first characters of a text, at most `n`.
fn first_chars(s: &str, n: usize) -> (r: String)
    ensures
        r@ == at_most(s@, n as int),
{
    let cs = chars_of(s);
    assert(cs@.subrange(0, cs@.len() as int) == cs@);
    if cs.len() <= n {
        text_of(&cs, 0, cs.len())
    } else {
        let r = text_of(&cs, 0, n);
        assert(cs@.subrange(0, n as int) == cs@.take(n as int));
        r
    }
}

/// Picks the tags among some texts.
pub fn cap_tags(parts: &Vec<String>) -> (r: Vec<String>)
    ensures
        texts(r@) == tags_among(texts(parts@)),
{
    let mut r: Vec<String> = Vec::new();
    let mut i: usize = 0;
    let ghost all = texts(parts@);
    let ghost kept = all.filter(nonempty());
    proof {
        reveal(Seq::filter);
        assert(all.take(0).filter(nonempty()) == Seq::<Seq<char>>::empty());
        assert(texts(r@) == all.take(0).filter(nonempty()).map_values(shortened()));
    }
    while i < parts.len() && r.len() < MAX_TAGS
        invariant
            i <= parts@.len(),
            all == texts(parts@),
            r@.len() <= MAX_TAGS,
            r@.len() == all.take(i as int).filter(nonempty()).len(),
            texts(r@) == all.take(i as int).filter(nonempty()).map_values(shortened()),
        decreases parts@.len() - i,
    {
        let ghost so_far = all.take(i as int).filter(nonempty());
        proof {
            assert(all.take(i + 1) == all.take(i as int).push(all[i as int]));
            all.take(i as int).lemma_filter_push(all[i as int], nonempty());
            assert(all[i as int] == parts@[i as int]@);
        }
        let ghost before = r@;
        if !parts[i].as_str().is_empty() {
            let tag = first_chars(parts[i].as_str(), MAX_TAG_CHARS);
            r.push(tag);
            proof {
                assert(texts(r@) == texts(before).push(tag@));
                assert(so_far.push(all[i as int]).map_values(shortened()) == so_far.map_values(
                    shortened(),
                ).push(tag@));
            }
        }
        i = i + 1;
    }
    proof {
        assert(all == all.take(i as int) + all.skip(i as int));
        Seq::filter_distributes_over_add(all.take(i as int), all.skip(i as int), nonempty());
        let first = all.take(i as int).filter(nonempty());
        if i == parts@.len() {
            assert(all.take(i as int) == all);
        } else {
            assert(kept.take(MAX_TAGS as int) == first);
        }
        assert(at_most(kept, MAX_TAGS as int) == first);
    }
    r
}

/// The tags of a comma-separated list: trimmed, in lowercase, without empty ones, at most
/// [`MAX_TAGS`] of at most [`MAX_TAG_CHARS`] characters each.
pub fn parse_tags(text: &str) -> (r: Vec<String>)
    ensures
        texts(r@) == tags_of(text@),
{
    let parts = split(text, Separator::Char(','));
    let mut lowered: Vec<String> = Vec::new();
    let mut i: usize = 0;
    let ghost all = texts(parts@).map_values(|t: Seq<char>| normalized(t));
    assert(texts(lowered@) == all.take(0));
    while i < parts.len()
        invariant
            i <= parts@.len(),
            all == texts(parts@).map_values(|t: Seq<char>| normalized(t)),
            texts(lowered@) == all.take(i as int),
        decreases parts@.len() - i,
    {
        let ghost before = lowered@;
        let t = trim(parts[i].as_str()).as_str().to_lowercase();
        proof {
            assert(t@ == all[i as int]);
            assert(all.take(i + 1) == all.take(i as int).push(t@));
        }
        lowered.push(t);
        assert(texts(lowered@) == texts(before).push(t@));
        i = i + 1;
    }
    assert(all.take(all.len() as int) == all);
    cap_tags(&lowered)
}

/// An upload never brings more tags than allowed, nor longer ones, nor empty ones.
pub proof fn law_tags_are_capped(parts: Seq<Seq<char>>)
    ensures
        tags_among(parts).len() <= MAX_TAGS,
        forall|i: int|
            0 <= i < tags_among(parts).len() ==> 0 < (#[trigger] tags_among(parts)[i]).len()
                <= MAX_TAG_CHARS,
{
    broadcast use vstd::seq_lib::group_filter_ensures;

    let kept = parts.filter(nonempty());
    let first = at_most(kept, MAX_TAGS as int);
    assert forall|i: int| 0 <= i < tags_among(parts).len() implies 0 < (#[trigger] tags_among(
        parts,
    )[i]).len() <= MAX_TAG_CHARS by {
        assert(nonempty()(kept[i]));
        assert(first[i] == kept[i]);
    }
}

/// The fields of the upload form.
#[derive(Clone, Copy, PartialEq, Eq, Debug, Structural)]
pub enum FieldKind {
    File,
    Tags,
    Visibility,
    Nsfw,
    Other,
}

/// Which field a name stands for.
pub open spec fn kind_of(name: Option<Seq<char>>) -> FieldKind {
    if name == Some("file"@) {
        FieldKind::File
    } else if name == Some("tags"@) {
        FieldKind::Tags
    } else if name == Some("visibility"@) {
        FieldKind::Visibility
    } else if name == Some("nsfw"@) {
        FieldKind::Nsfw
    } else {
        FieldKind::Other
    }
}

/// Which field a name stands for.
pub fn field_kind(name: Option<&str>) -> (r: FieldKind)
    ensures
        r == kind_of(
            match name {
                Some(n) => Some(n@),
                None => None,
            },
        ),
{
    match name {
        Some(n) => {
            if same(n, "file") {
                FieldKind::File
            } else if same(n, "tags") {
                FieldKind::Tags
            } else if same(n, "visibility") {
                FieldKind::Visibility
            } else if same(n, "nsfw") {
                FieldKind::Nsfw
            } else {
                FieldKind::Other
            }
        },
        None => FieldKind::Other,
    }
}

/// An upload form as far as it has been read. A field that comes again replaces the earlier one.
pub struct UploadForm {
    pub file: Option<(String, Vec<u8>)>,
    pub tags: Vec<String>,
    pub visibility: String,
    pub is_nsfw: bool,
}

/// "shared" or "private".
pub open spec fn is_visibility(v: Seq<char>) -> bool {
    v == "shared"@ || v == "private"@
}

/// Whether a text is "shared" or "private".
pub fn valid_visibility(v: &str) -> (r: bool)
    ensures
        r == is_visibility(v@),
{
    same(v, "shared") || same(v, "private")
}

/// "true", "1" or "yes".
pub open spec fn means_yes(v: Seq<char>) -> bool {
    v == "true"@ || v == "1"@ || v == "yes"@
}

/// Whether a text is "true", "1" or "yes".
pub fn is_yes(v: &str) -> (r: bool)
    ensures
        r == means_yes(v@),
{
    same(v, "true") || same(v, "1") || same(v, "yes")
}

/// The name of an uploaded file, or the one that stands for it.
pub open spec fn file_name_of(name: Option<Seq<char>>) -> Seq<char> {
    match name {
        Some(n) => n,
        None => "upload.gif"@,
    }
}

/// The name of an uploaded file: "upload.gif" where the client gives none.
pub fn upload_name(name: Option<&str>) -> (r: String)
    ensures
        r@ == file_name_of(
            match name {
                Some(n) => Some(n@),
                None => None,
            },
        ),
{
    match name {
        Some(n) => n.to_owned(),
        None => "upload.gif".to_owned(),
    }
}

/// What a form asks for, once it is complete.
pub struct UploadRequest {
    pub filename: String,
    pub data: Vec<u8>,
    /// The hash of the data.
    pub hash: String,
    pub tags: Vec<String>,
    pub visibility: String,
    pub is_nsfw: bool,
}

impl UploadForm {
    /// The form before any field: shared, not NSFW, without tags.
    pub fn new() -> (r: UploadForm)
        ensures
            r.file is None,
            r.tags@.len() == 0,
            r.visibility@ == "shared"@,
            !r.is_nsfw,
    {
        UploadForm {
            file: None,
            tags: Vec::new(),
            visibility: "shared".to_owned(),
            is_nsfw: false,
        }
    }

    /// Takes the file.
    pub fn put_file(&mut self, name: Option<&str>, data: Vec<u8>)
        ensures
            final(self).file matches Some((n, d)) && d == data && n@ == file_name_of(
                match name {
                    Some(n) => Some(n@),
                    None => None,
                },
            ),
            final(self).tags == old(self).tags,
            final(self).visibility == old(self).visibility,
            final(self).is_nsfw == old(self).is_nsfw,
    {
        self.file = Some((upload_name(name), data));
    }

    /// Takes a field of text. Fields without text of their own are passed over.
    pub fn put_text(&mut self, kind: FieldKind, text: &str)
        ensures
            final(self).file == old(self).file,
            kind is Tags ==> texts(final(self).tags@) == tags_of(text@),
            kind is Visibility ==> final(self).visibility@ == normalized(text@),
            kind is Nsfw ==> final(self).is_nsfw == means_yes(normalized(text@)),
            kind !is Tags ==> final(self).tags == old(self).tags,
            kind !is Visibility ==> final(self).visibility == old(self).visibility,
            kind !is Nsfw ==> final(self).is_nsfw == old(self).is_nsfw,
    {
        match kind {
            FieldKind::Tags => {
                self.tags = parse_tags(text);
            },
            FieldKind::Visibility => {
                self.visibility = trim(text).as_str().to_lowercase();
            },
            FieldKind::Nsfw => {
                self.is_nsfw = is_yes(trim(text).as_str().to_lowercase().as_str());
            },
            _ => {},
        }
    }

    /// The request that the form makes: its visibility must be a known one, and its file must be
    /// there.
    pub fn finish(self) -> (r: Result<UploadRequest, AppError>)
        ensures
            match r {
                Ok(request) => {
                    &&& is_visibility(self.visibility@)
                    &&& self.file == Some((request.filename, request.data))
                    &&& request.hash@ == hash_of(request.data@)
                    &&& request.tags == self.tags
                    &&& request.visibility == self.visibility
                    &&& request.is_nsfw == self.is_nsfw
                },
                Err(e) => if !is_visibility(self.visibility@) {
                    e@ == ErrorView::BadRequest("visibility must be 'shared' or 'private'"@)
                } else {
                    self.file is None && e@ == ErrorView::BadRequest("missing file field"@)
                },
            },
    {
        if !valid_visibility(self.visibility.as_str()) {
            return Err(
                AppError::BadRequest("visibility must be 'shared' or 'private'".to_owned()),
            );
        }
        match self.file {
            Some((filename, data)) => Ok(
                UploadRequest {
                    hash: content_hash(data.as_slice()),
                    filename,
                    data,
                    tags: self.tags,
                    visibility: self.visibility,
                    is_nsfw: self.is_nsfw,
                },
            ),
            None => Err(AppError::BadRequest("missing file field".to_owned())),
        }
    }
}

/// A place in a UUID that holds a hyphen.
pub open spec fn is_hyphen_place(i: int) -> bool {
    i == 8 || i == 13 || i == 18 || i == 23
}

/// A random UUID in its usual text: 32 lowercase hexadecimal digits in groups, with the version 4
/// and the standard's variant.
pub open spec fn is_uuid(s: Seq<char>) -> bool {
    &&& s.len() == 36
    &&& forall|i: int|
        0 <= i < 36 ==> if is_hyphen_place(i) {
            #[trigger] s[i] == '-'
        } else {
            '0' <= s[i] <= '9' || 'a' <= s[i] <= 'f'
        }
    &&& s[14] == '4'
    &&& s[19] == '8' || s[19] == '9' || s[19] == 'a' || s[19] == 'b'
}

/// `uuid::Uuid::new_v4` and its `to_string` give the text of a random UUID. The contract states
/// what holds of every outcome.
#[verifier::external_body]
pub(crate) fn random_uuid() -> (r: String)
    ensures
        is_uuid(r@),
{
    uuid::Uuid::new_v4().to_string()
}

/// A fresh id for a GIF.
pub fn new_id() -> (r: String)
    ensures
        is_uuid(r@),
{
    random_uuid()
}

/// A length as a signed 32-bit number; one that does not fit wraps around.
pub open spec fn wrapped_i32(n: nat) -> i32 {
    let low = n % 0x1_0000_0000;
    if low < 0x8000_0000 {
        low as i32
    } else {
        (low - 0x1_0000_0000) as i32
    }
}

fn length_i32(n: usize) -> (r: i32)
    ensures
        r == wrapped_i32(n as nat),
{
    let low: u64 = n as u64 % 0x1_0000_0000;
    if low < 0x8000_0000 {
        low as i32
    } else {
        (low as i64 - 0x1_0000_0000) as i32
    }
}

/// The rendition to be stored is the one described.
pub open spec fn describes(
    s: RenditionSpec,
    rendition: Seq<char>,
    filename: Seq<char>,
    width: int,
    height: int,
    bytes: nat,
) -> bool {
    &&& s.rendition@ == rendition
    &&& s.filename@ == filename
    &&& s.width == width
    &&& s.height == height
    &&& s.size_bytes == wrapped_i32(bytes)
}

/// The three renditions of a GIF, under these file names: the original, the preview and the
/// thumbnail.
pub open spec fn three_renditions(
    specs: Seq<RenditionSpec>,
    original: Seq<char>,
    preview: Seq<char>,
    thumbnail: Seq<char>,
    data: Seq<u8>,
    made: Renditions,
) -> bool {
    let size = fitted(made.info.width as nat, made.info.height as nat, PREVIEW_WIDTH as nat);
    &&& specs.len() == 3
    &&& describes(
        specs[0],
        "original"@,
        original,
        made.info.width as int,
        made.info.height as int,
        data.len(),
    )
    &&& describes(
        specs[1],
        "preview"@,
        preview,
        size.0 as int,
        size.1 as int,
        made.preview@.len(),
    )
    &&& describes(
        specs[2],
        "thumbnail"@,
        thumbnail,
        made.thumbnail_width as int,
        made.thumbnail_height as int,
        made.thumbnail@.len(),
    )
}

/// The three renditions of a GIF, under these file names.
pub fn rendition_specs(
    original: &str,
    preview: &str,
    thumbnail: &str,
    data: &Vec<u8>,
    made: &Renditions,
) -> (r: Vec<RenditionSpec>)
    requires
        made.wf(),
    ensures
        three_renditions(r@, original@, preview@, thumbnail@, data@, *made),
{
    let (preview_width, preview_height) = fit(made.info.width, made.info.height, PREVIEW_WIDTH);
    let first = RenditionSpec {
        rendition: "original",
        filename: original.to_owned(),
        width: made.info.width as i32,
        height: made.info.height as i32,
        size_bytes: length_i32(data.len()),
    };
    let second = RenditionSpec {
        rendition: "preview",
        filename: preview.to_owned(),
        width: preview_width as i32,
        height: preview_height as i32,
        size_bytes: length_i32(made.preview.len()),
    };
    let third = RenditionSpec {
        rendition: "thumbnail",
        filename: thumbnail.to_owned(),
        width: made.thumbnail_width as i32,
        height: made.thumbnail_height as i32,
        size_bytes: length_i32(made.thumbnail.len()),
    };
    vec![first, second, third]
}

/// The content of a rendition.
pub open spec fn content_of(rendition: Seq<char>, data: Seq<u8>, made: Renditions) -> Seq<u8> {
    if rendition == "preview"@ {
        made.preview@
    } else if rendition == "thumbnail"@ {
        made.thumbnail@
    } else {
        data
    }
}

/// The files of some renditions, each with its name and its content, in order.
pub fn files_to_write<'a>(
    specs: &'a Vec<RenditionSpec>,
    data: &'a Vec<u8>,
    made: &'a Renditions,
) -> (r: Vec<(&'a str, &'a [u8])>)
    ensures
        r@.len() == specs@.len(),
        forall|i: int|
            0 <= i < r@.len() ==> (#[trigger] r@[i]).0@ == specs@[i].filename@ && r@[i].1@
                == content_of(specs@[i].rendition@, data@, *made),
{
    let mut r: Vec<(&'a str, &'a [u8])> = Vec::new();
    let mut i: usize = 0;
    while i < specs.len()
        invariant
            i <= specs@.len(),
            r@.len() == i,
            forall|k: int|
                0 <= k < i ==> (#[trigger] r@[k]).0@ == specs@[k].filename@ && r@[k].1@
                    == content_of(specs@[k].rendition@, data@, *made),
        decreases specs@.len() - i,
    {
        let one = &specs[i];
        let content = if same(one.rendition, "preview") {
            made.preview.as_slice()
        } else if same(one.rendition, "thumbnail") {
            made.thumbnail.as_slice()
        } else {
            data.as_slice()
        };
        r.push((one.filename.as_str(), content));
        i = i + 1;
    }
    r
}

/// Whether the uploader has the content already.
pub fn find_duplicate(request: &UploadRequest, user: &AuthUser) -> (r: Statement)
    ensures
        r@ == sql(
            "SELECT "@ + db::GIF_COLS@ + " FROM gifs WHERE uploader_id = $1 AND hash = $2"@,
            seq![db::txt(user.mxid@), db::txt(request.hash@)],
        ),
{
    db::get_gif_by_hash_for_uploader(request.hash.as_str(), user.mxid.as_str())
}

/// What is to be stored for an upload: the GIF under its id, for its uploader, with its three
/// renditions and its tags, within the configured caps.
pub fn upload(
    request: &UploadRequest,
    user: &AuthUser,
    config: &Config,
    id: &str,
    made: &Renditions,
) -> (r: InsertOrder)
    requires
        made.wf(),
    ensures
        r.id@ == id@,
        r.filename@ == request.filename@,
        r.hash@ == request.hash@,
        r.uploader_id@ == user.mxid@,
        r.visibility@ == request.visibility@,
        r.is_nsfw == request.is_nsfw,
        r.frame_count == made.info.frame_count,
        r.duration_ms == made.info.duration_ms,
        three_renditions(
            r.renditions@,
            id@ + ".gif"@,
            id@ + "_preview.gif"@,
            id@ + "_thumb.png"@,
            request.data@,
            *made,
        ),
        texts(r.tags@) == texts(request.tags@),
        r.global_max == config.storage_max_bytes,
        r.per_user_max == config.per_user_storage_bytes,
{
    InsertOrder {
        id: id.to_owned(),
        filename: request.filename.clone(),
        hash: request.hash.clone(),
        uploader_id: user.mxid.clone(),
        visibility: request.visibility.clone(),
        is_nsfw: request.is_nsfw,
        frame_count: made.info.frame_count,
        duration_ms: made.info.duration_ms,
        renditions: rendition_specs(
            joined(id, ".gif").as_str(),
            joined(id, "_preview.gif").as_str(),
            joined(id, "_thumb.png").as_str(),
            &request.data,
            made,
        ),
        tags: copy_texts(&request.tags),
        global_max: config.storage_max_bytes,
        per_user_max: config.per_user_storage_bytes,
    }
}

fn copy_texts(v: &Vec<String>) -> (r: Vec<String>)
    ensures
        texts(r@) == texts(v@),
{
    let mut r: Vec<String> = Vec::new();
    let mut i: usize = 0;
    assert(texts(r@) == texts(v@).take(0));
    while i < v.len()
        invariant
            i <= v@.len(),
            texts(r@) == texts(v@).take(i as int),
        decreases v@.len() - i,
    {
        let ghost before = r@;
        r.push(v[i].clone());
        proof {
            assert(texts(r@) == texts(before).push(v@[i as int]@));
            assert(texts(v@).take(i + 1) == texts(v@).take(i as int).push(texts(v@)[i as int]));
        }
        i = i + 1;
    }
    assert(texts(v@).take(texts(v@).len() as int) == texts(v@));
    r
}

/// How an upload goes on once its storing is decided.
pub enum UploadNext {
    /// Answer with a GIF that was there already; the status is 200.
    Existing(Gif),
    /// Write the files of the new GIF, then answer with it; the status is 201.
    Store(Gif),
}

/// How an upload goes on once its storing is decided.
pub fn decided(outcome: UploadOutcome) -> (r: Result<UploadNext, AppError>)
    ensures
        match outcome {
            UploadOutcome::QuotaExceeded => r matches Err(e) && e@
                == ErrorView::InsufficientStorage,
            UploadOutcome::Duplicate(gif) => r == Ok::<UploadNext, AppError>(
                UploadNext::Existing(gif),
            ),
            UploadOutcome::Inserted(gif) => r == Ok::<UploadNext, AppError>(
                UploadNext::Store(gif),
            ),
        },
{
    match outcome {
        UploadOutcome::QuotaExceeded => Err(AppError::InsufficientStorage),
        UploadOutcome::Duplicate(gif) => Ok(UploadNext::Existing(gif)),
        UploadOutcome::Inserted(gif) => Ok(UploadNext::Store(gif)),
    }
}

/// How an upload goes on once the uploader's GIFs have been searched for its content: with the GIF
/// found, or with the processing of the new one.
pub fn looked_up(existing: Option<Gif>) -> (r: Option<UploadNext>)
    ensures
        match existing {
            Some(gif) => r == Some(UploadNext::Existing(gif)),
            None => r is None,
        },
{
    match existing {
        Some(gif) => Some(UploadNext::Existing(gif)),
        None => None,
    }
}

impl UploadNext {
    /// The status of the answer.
    pub fn status(&self) -> (r: u16)
        ensures
            r == (if self is Existing {
                200u16
            } else {
                201u16
            }),
    {
        match self {
            UploadNext::Existing(_) => 200,
            UploadNext::Store(_) => 201,
        }
    }
}

/// What undoes a stored GIF whose files could not all be written.
pub struct Rollback {
    /// Deletes the GIF's row.
    pub statement: Statement,
    /// The files to be deleted, where they are there.
    pub files: Vec<String>,
}

/// The names of the files of some renditions.
pub open spec fn file_names(specs: Seq<RenditionSpec>) -> Seq<Seq<char>> {
    specs.map_values(|s: RenditionSpec| s.filename@)
}

/// What undoes a stored GIF: its row and all its files are deleted, so that no half of it stays.
pub fn rollback(order: &InsertOrder) -> (r: Rollback)
    ensures
        r.statement@ == sql("DELETE FROM gifs WHERE id = $1"@, seq![db::txt(order.id@)]),
        texts(r.files@) == file_names(order.renditions@),
{
    let mut files: Vec<String> = Vec::new();
    let mut i: usize = 0;
    let ghost all = file_names(order.renditions@);
    assert(texts(files@) == all.take(0));
    while i < order.renditions.len()
        invariant
            i <= order.renditions@.len(),
            all == file_names(order.renditions@),
            texts(files@) == all.take(i as int),
        decreases order.renditions@.len() - i,
    {
        let ghost before = files@;
        files.push(order.renditions[i].filename.clone());
        proof {
            assert(texts(files@) == texts(before).push(order.renditions@[i as int].filename@));
            assert(all.take(i + 1) == all.take(i as int).push(all[i as int]));
        }
        i = i + 1;
    }
    assert(all.take(all.len() as int) == all);
    Rollback { statement: db::delete_gif(order.id.as_str()), files }
}

/// The files of an upload are stored inside the storage directory.
pub proof fn law_upload_stays_in_storage(storage: Seq<char>, id: Seq<char>, suffix: Seq<char>)
    requires
        is_uuid(id),
        suffix == ".gif"@ || suffix == "_preview.gif"@ || suffix == "_thumb.png"@,
    ensures
        storage.is_prefix_of(path_of(storage, id + suffix)),
        path_of(storage, id + suffix) == directory(storage) + id.take(2) + "/"@ + id.subrange(2, 4)
            + "/"@ + (id + suffix),
{
    reveal_strlit(".gif");
    reveal_strlit("_preview.gif");
    reveal_strlit("_thumb.png");
    let name = id + suffix;
    assert forall|i: int| 0 <= i < name.len() implies '\0' <= #[trigger] name[i] <= '\u{7f}' by {
        if i < 36 {
            assert(name[i] == id[i]);
        } else {
            assert(name[i] == suffix[i - 36]);
        }
    }
    assert forall|i: int| 0 <= i < 4 implies #[trigger] name[i] != '/' by {
        assert(name[i] == id[i]);
    }
    law_names_are_bucketed(storage, name);
    assert(name.take(2) =~= id.take(2));
    assert(name.subrange(2, 4) =~= id.subrange(2, 4));
}

/// The tags among some texts are all those that are not empty, in order, until there are as many as
/// allowed: one more text becomes one more tag, in full or its first characters.
pub proof fn law_tags_take_one_more(parts: Seq<Seq<char>>, t: Seq<char>)
    ensures
        tags_among(Seq::empty()) == Seq::<Seq<char>>::empty(),
        ({
            let before = tags_among(parts);
            let after = tags_among(parts.push(t));
            if t.len() == 0 || before.len() >= 20 {
                after == before
            } else {
                after == before.push(
                    if t.len() <= 100 {
                        t
                    } else {
                        t.take(100)
                    },
                )
            }
        }),
{
    reveal(Seq::filter);
    assert(tags_among(Seq::empty()) =~= Seq::<Seq<char>>::empty());
    parts.lemma_filter_push(t, nonempty());
    let kept = parts.filter(nonempty());
    let more = parts.push(t).filter(nonempty());
    let before = tags_among(parts);
    let after = tags_among(parts.push(t));
    if t.len() > 0 {
        assert(more == kept.push(t));
        if kept.len() >= 20 {
            assert(more.take(20) =~= kept.take(20));
            assert(kept.take(kept.len() as int) =~= kept);
            assert(after =~= before);
        } else {
            assert(after =~= before.push(shortened()(t)));
        }
    }
}

/// The tags of a list are the tags among its pieces, each in lowercase and without white space at
/// its ends: one more piece behind a comma is looked at last.
pub proof fn law_tag_lists_take_one_more(text: Seq<char>, piece: Seq<char>)
    requires
        !piece.contains(','),
    ensures
        ({
            let tag = lowercase(trimmed(piece));
            let before = tags_of(text);
            let after = tags_of(text.push(',') + piece);
            if tag.len() == 0 || before.len() >= 20 {
                after == before
            } else {
                after == before.push(
                    if tag.len() <= 100 {
                        tag
                    } else {
                        tag.take(100)
                    },
                )
            }
        }),
{
    let comma = Separator::Char(',');
    assert forall|i: int| 0 <= i < piece.len() implies !comma.cuts(#[trigger] piece[i]) by {
        assert(piece.contains(piece[i]));
    }
    law_separators_part_pieces(text, ',', piece, comma);
    let tidy = |t: Seq<char>| normalized(t);
    let before = pieces(text, comma);
    assert(before.push(piece).map_values(tidy) =~= before.map_values(tidy).push(
        normalized(piece),
    ));
    law_tags_take_one_more(before.map_values(tidy), normalized(piece));
}

/// Every stored rendition is told of under its name, with its own URL and sizes, unless a later row
/// has the name; and nothing else is told of.
pub proof fn law_every_rendition_is_told_of(
    base_url: Seq<char>,
    gif_id: Seq<char>,
    rows: Seq<GifRendition>,
    row: GifRendition,
)
    ensures
        renditions_of(base_url, gif_id, Seq::empty()) == Map::<
            Seq<char>,
            RenditionInfoView,
        >::empty(),
        ({
            let before = renditions_of(base_url, gif_id, rows);
            let after = renditions_of(base_url, gif_id, rows.push(row));
            &&& after.dom() == before.dom().insert(row.rendition@)
            &&& after[row.rendition@].width == row.width
            &&& after[row.rendition@].height == row.height
            &&& after[row.rendition@].size_bytes == row.size_bytes
            &&& after[row.rendition@].url == base_url + "/gifs/"@ + gif_id + (if row.rendition@
                == "original"@ {
                "/file"@
            } else {
                "/file?rendition="@ + row.rendition@
            })
            &&& forall|name: Seq<char>| name != row.rendition@ ==> #[trigger] after[name]
                == before[name]
        }),
{
    assert(rows.push(row).drop_last() =~= rows);
    let url = told(base_url, gif_id, row).url;
    let parts = base_url + "/gifs/"@ + gif_id + (if row.rendition@ == "original"@ {
        "/file"@
    } else {
        "/file?rendition="@ + row.rendition@
    });
    assert(url =~= parts);
}

/// The three renditions to be stored: the content itself at its own size, the preview at its size
/// fitted to the width of previews, and the thumbnail at the size it was made at. What is stored of
/// the size of a file is its length, where it fits.
pub proof fn law_renditions_are_described(
    specs: Seq<RenditionSpec>,
    original: Seq<char>,
    preview: Seq<char>,
    thumbnail: Seq<char>,
    data: Seq<u8>,
    made: Renditions,
)
    requires
        three_renditions(specs, original, preview, thumbnail, data, made),
    ensures
        specs.len() == 3,
        specs[0].rendition@ == "original"@,
        specs[0].filename@ == original,
        specs[0].width == made.info.width,
        specs[0].height == made.info.height,
        data.len() < 0x8000_0000 ==> specs[0].size_bytes == data.len(),
        content_of(specs[0].rendition@, data, made) == data,
        specs[1].rendition@ == "preview"@,
        specs[1].filename@ == preview,
        (specs[1].width as int, specs[1].height as int) == (
            fitted(made.info.width as nat, made.info.height as nat, 220).0 as int,
            fitted(made.info.width as nat, made.info.height as nat, 220).1 as int,
        ),
        made.preview@.len() < 0x8000_0000 ==> specs[1].size_bytes == made.preview@.len(),
        content_of(specs[1].rendition@, data, made) == made.preview@,
        specs[2].rendition@ == "thumbnail"@,
        specs[2].filename@ == thumbnail,
        specs[2].width == made.thumbnail_width,
        specs[2].height == made.thumbnail_height,
        made.thumbnail@.len() < 0x8000_0000 ==> specs[2].size_bytes == made.thumbnail@.len(),
        content_of(specs[2].rendition@, data, made) == made.thumbnail@,
{
    reveal_strlit("original");
    reveal_strlit("preview");
    reveal_strlit("thumbnail");
    assert("original"@[0] != "preview"@[0]);
    assert("original"@[0] != "thumbnail"@[0]);
    assert("preview"@[0] != "thumbnail"@[0]);
}

/// An upload that cannot be finished leaves none of its files: each one is among those deleted.
pub proof fn law_rollback_names_every_file(specs: Seq<RenditionSpec>)
    ensures
        file_names(specs).len() == specs.len(),
        forall|i: int| 0 <= i < specs.len() ==> #[trigger] file_names(specs)[i] == specs[i].filename@,
{
}

/// A field of the form is known by its name alone, and no two kinds share one.
pub proof fn law_fields_are_known_by_name(name: Option<Seq<char>>)
    ensures
        kind_of(name) is File <==> name == Some("file"@),
        kind_of(name) is Tags <==> name == Some("tags"@),
        kind_of(name) is Visibility <==> name == Some("visibility"@),
        kind_of(name) is Nsfw <==> name == Some("nsfw"@),
{
    reveal_strlit("file");
    reveal_strlit("tags");
    reveal_strlit("visibility");
    reveal_strlit("nsfw");
    assert("file"@[0] != "tags"@[0]);
    assert("file"@[0] != "visibility"@[0]);
    assert("file"@[0] != "nsfw"@[0]);
    assert("tags"@[0] != "visibility"@[0]);
    assert("tags"@[0] != "nsfw"@[0]);
    assert("visibility"@[0] != "nsfw"@[0]);
}

/// A flag is set by "true", "1" and "yes" alone, and what everybody sees is "shared", what nobody else
/// sees "private".
pub proof fn law_words_of_the_form(v: Seq<char>, name: Option<Seq<char>>)
    ensures
        means_yes(v) <==> v == "true"@ || v == "1"@ || v == "yes"@,
        is_visibility(v) <==> v == "shared"@ || v == "private"@,
        normalized(v) == lowercase(trimmed(v)),
        name matches Some(n) ==> file_name_of(name) == n,
        name is None ==> file_name_of(name) == "upload.gif"@,
{
}

/// Content is recognized by the digest of all of it.
pub proof fn law_hash_is_of_all_the_content(data: Seq<u8>)
    ensures
        hash_of(data) == lower_hex(sha256(data)),
{
}

/// What is stored of a length is the length itself, up to a multiple of 2 to the 32nd.
pub proof fn law_lengths_wrap_around(n: nat)
    ensures
        n < 0x8000_0000 ==> wrapped_i32(n) == n,
        (n - wrapped_i32(n)) % 0x1_0000_0000 == 0,
{
}

} // verus!
