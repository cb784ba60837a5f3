//! What is stored of a GIF, what is asked for and what is answered.

use vstd::prelude::*;

use crate::text::same;

verus! {

/// `time::OffsetDateTime`, carried as it is.
#[verifier::external_type_specification]
#[verifier::external_body]
pub struct ExOffsetDateTime(time::OffsetDateTime);

/// A stored GIF.
pub struct Gif {
    pub id: String,
    /// The name of the file that was uploaded.
    pub filename: String,
    /// The hash of its bytes.
    pub hash: String,
    /// The Matrix user who uploaded it.
    pub uploader_id: String,
    /// "shared" or "private".
    pub visibility: String,
    pub is_nsfw: bool,
    pub frame_count: i32,
    pub duration_ms: i32,
    /// How often it was selected.
    pub uses: i64,
    pub uploaded_at: time::OffsetDateTime,
}

/// A file that is stored for a GIF.
pub struct GifRendition {
    pub gif_id: String,
    /// "original", "preview" or "thumbnail".
    pub rendition: String,
    pub filename: String,
    pub width: i32,
    pub height: i32,
    pub size_bytes: i32,
}

/// A rendition as it is told to a client.
pub struct RenditionInfo {
    pub url: String,
    pub width: i32,
    pub height: i32,
    pub size_bytes: i32,
}

/// The mathematical content of a [`RenditionInfo`].
#[verifier::ext_equal]
pub struct RenditionInfoView {
    pub url: Seq<char>,
    pub width: i32,
    pub height: i32,
    pub size_bytes: i32,
}

impl View for RenditionInfo {
    type V = RenditionInfoView;

    open spec fn view(&self) -> RenditionInfoView {
        RenditionInfoView {
            url: self.url@,
            width: self.width,
            height: self.height,
            size_bytes: self.size_bytes,
        }
    }
}

/// The renditions of a GIF, by name. No name occurs twice.
pub struct RenditionMap {
    pub entries: Vec<(String, RenditionInfo)>,
}

/// The map that a list of named renditions stands for; of two of one name, the later one counts.
pub open spec fn named(entries: Seq<(String, RenditionInfo)>) -> Map<
    Seq<char>,
    RenditionInfoView,
>
    decreases entries.len(),
{
    if entries.len() == 0 {
        Map::empty()
    } else {
        named(entries.drop_last()).insert(entries.last().0@, entries.last().1@)
    }
}

impl View for RenditionMap {
    type V = Map<Seq<char>, RenditionInfoView>;

    open spec fn view(&self) -> Map<Seq<char>, RenditionInfoView> {
        named(self.entries@)
    }
}

/// An entry stays in the map unless a later one has its name.
proof fn lemma_named_entry(entries: Seq<(String, RenditionInfo)>, i: int)
    requires
        0 <= i < entries.len(),
        forall|j: int| i < j < entries.len() ==> (#[trigger] entries[j]).0@ != entries[i].0@,
    ensures
        named(entries).dom().contains(entries[i].0@),
        named(entries)[entries[i].0@] == entries[i].1@,
    decreases entries.len(),
{
    if i < entries.len() - 1 {
        assert(entries.drop_last()[i] == entries[i]);
        assert forall|j: int| i < j < entries.drop_last().len() implies (
        #[trigger] entries.drop_last()[j]).0@ != entries[i].0@ by {
            assert(entries.drop_last()[j] == entries[j]);
        }
        lemma_named_entry(entries.drop_last(), i);
        assert(entries[entries.len() - 1].0@ != entries[i].0@);
    }
}

/// A name that no entry has is not in the map.
proof fn lemma_named_absent(entries: Seq<(String, RenditionInfo)>, name: Seq<char>)
    requires
        forall|j: int| 0 <= j < entries.len() ==> (#[trigger] entries[j]).0@ != name,
    ensures
        !named(entries).dom().contains(name),
    decreases entries.len(),
{
    if entries.len() > 0 {
        assert forall|j: int| 0 <= j < entries.drop_last().len() implies (
        #[trigger] entries.drop_last()[j]).0@ != name by {
            assert(entries.drop_last()[j] == entries[j]);
        }
        lemma_named_absent(entries.drop_last(), name);
        assert(entries[entries.len() - 1].0@ != name);
    }
}

/// Taking an entry out of a list without repeated names takes its name out of the map.
proof fn lemma_named_remove(entries: Seq<(String, RenditionInfo)>, i: int)
    requires
        0 <= i < entries.len(),
        distinct_names(entries),
    ensures
        named(entries.remove(i)) == named(entries).remove(entries[i].0@),
        distinct_names(entries.remove(i)),
    decreases entries.len(),
{
    let rest = entries.remove(i);
    assert forall|j: int, k: int| 0 <= j < k < rest.len() implies (#[trigger] rest[j]).0@ != (
    #[trigger] rest[k]).0@ by {
        let a = if j < i {
            j
        } else {
            j + 1
        };
        let b = if k < i {
            k
        } else {
            k + 1
        };
        assert(rest[j] == entries[a] && rest[k] == entries[b]);
    }
    if i == entries.len() - 1 {
        assert(rest == entries.drop_last());
        assert forall|j: int| 0 <= j < rest.len() implies (#[trigger] rest[j]).0@
            != entries[i].0@ by {
            assert(rest[j] == entries[j]);
        }
        lemma_named_absent(rest, entries[i].0@);
        assert(named(rest) =~= named(entries).remove(entries[i].0@));
    } else {
        let front = entries.drop_last();
        assert(front[i] == entries[i]);
        assert forall|j: int, k: int| 0 <= j < k < front.len() implies (#[trigger] front[j]).0@ != (
        #[trigger] front[k]).0@ by {
            assert(front[j] == entries[j] && front[k] == entries[k]);
        }
        lemma_named_remove(front, i);
        assert(rest.drop_last() == front.remove(i));
        assert(rest.last() == entries.last());
        assert(entries[entries.len() - 1].0@ != entries[i].0@);
        assert(named(rest) =~= named(entries).remove(entries[i].0@));
    }
}

/// No name occurs twice.
pub open spec fn distinct_names(entries: Seq<(String, RenditionInfo)>) -> bool {
    forall|i: int, j: int|
        0 <= i < j < entries.len() ==> (#[trigger] entries[i]).0@ != (#[trigger] entries[j]).0@
}

impl RenditionMap {
    /// No name occurs twice.
    pub open spec fn wf(&self) -> bool {
        distinct_names(self.entries@)
    }

    /// The empty map.
    pub fn new() -> (r: RenditionMap)
        ensures
            r.wf(),
            r@ == Map::<Seq<char>, RenditionInfoView>::empty(),
    {
        RenditionMap { entries: Vec::new() }
    }

    /// The place of a name.
    fn find(&self, name: &str) -> (r: Option<usize>)
        ensures
            match r {
                Some(i) => i < self.entries@.len() && self.entries@[i as int].0@ == name@,
                None => forall|j: int|
                    0 <= j < self.entries@.len() ==> (#[trigger] self.entries@[j]).0@ != name@,
            },
    {
        let mut i: usize = 0;
        while i < self.entries.len()
            invariant
                i <= self.entries@.len(),
                forall|j: int| 0 <= j < i ==> (#[trigger] self.entries@[j]).0@ != name@,
            decreases self.entries@.len() - i,
        {
            if same(self.entries[i].0.as_str(), name) {
                return Some(i);
            }
            i = i + 1;
        }
        None
    }

    /// The rendition of this name.
    pub fn get(&self, name: &str) -> (r: Option<&RenditionInfo>)
        requires
            self.wf(),
        ensures
            match r {
                Some(info) => self@.dom().contains(name@) && info@ == self@[name@],
                None => !self@.dom().contains(name@),
            },
    {
        match self.find(name) {
            Some(i) => {
                proof {
                    lemma_named_entry(self.entries@, i as int);
                }
                Some(&self.entries[i].1)
            },
            None => {
                proof {
                    lemma_named_absent(self.entries@, name@);
                }
                None
            },
        }
    }

    /// Puts a rendition under this name, in place of the one that was there.
    pub fn insert(&mut self, name: String, info: RenditionInfo)
        requires
            old(self).wf(),
        ensures
            final(self).wf(),
            final(self)@ == old(self)@.insert(name@, info@),
    {
        let ghost before = self.entries@;
        match self.find(name.as_str()) {
            Some(i) => {
                proof {
                    lemma_named_remove(before, i as int);
                }
                let ghost rest = before.remove(i as int);
                proof {
                    assert forall|j: int| 0 <= j < rest.len() implies (#[trigger] rest[j]).0@
                        != name@ by {
                        let a = if j < i {
                            j
                        } else {
                            j + 1
                        };
                        assert(rest[j] == before[a]);
                        assert(before[i as int].0@ == name@);
                    }
                }
                self.entries.remove(i);
                assert(self.entries@ == rest);
                self.entries.push((name, info));
                proof {
                    assert(self.entries@.drop_last() == rest);
                    assert(named(self.entries@) =~= named(before).insert(name@, info@));
                }
            },
            None => {
                self.entries.push((name, info));
                proof {
                    assert(self.entries@.drop_last() == before);
                }
            },
        }
    }
}

/// A GIF as it is told to a client.
pub struct GifResponse {
    pub id: String,
    pub filename: String,
    pub uploader_id: String,
    pub visibility: String,
    pub is_nsfw: bool,
    pub tags: Vec<String>,
    pub frame_count: i32,
    pub duration_ms: i32,
    pub uses: i64,
    pub uploaded_at: time::OffsetDateTime,
    pub renditions: RenditionMap,
}

/// A page of GIFs, and the cursor of the next page where there may be one.
pub struct ListResponse {
    pub results: Vec<GifResponse>,
    pub next: Option<String>,
}

/// What `/gifs/search` is asked for.
pub struct SearchParams {
    pub q: Option<String>,
    pub limit: Option<i64>,
    pub pos: Option<String>,
    pub mine: bool,
    pub grab_nsfw: bool,
    pub grab_hidden: bool,
}

/// What the other listings are asked for.
pub struct PaginationParams {
    pub limit: Option<i64>,
    pub pos: Option<String>,
    pub mine: bool,
    pub grab_nsfw: bool,
    pub grab_hidden: bool,
    pub random: Option<bool>,
}

/// What `/gifs/tags/suggest` is asked for.
pub struct SuggestParams {
    pub q: String,
    pub limit: Option<i64>,
    pub grab_nsfw: bool,
}

/// The body of a request that changes tags.
pub struct TagsBody {
    pub tags: Vec<String>,
}

/// The body of a request that changes what is known of a GIF.
pub struct GifPatch {
    pub visibility: Option<String>,
    pub is_nsfw: Option<bool>,
}

/// The tags that complete what was typed.
pub struct SuggestResponse {
    pub suggestions: Vec<String>,
}

} // verus!
