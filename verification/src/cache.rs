//! The image cache.
//!
//! Decoding an image is the presentation layer's business; the layout only
//! needs each image's pixel size. The cache maps a path to the size of the
//! decoded image. It is filled from outside (on the first sight of a path)
//! and consulted here; a path with no entry measures and renders as nothing,
//! which is also how a failed decode degrades. Entries are never evicted;
//! failures are not recorded, so a bad path is retried on every fill pass.

use vstd::prelude::*;

verus! {

/// Compares two string slices character by character.
pub fn str_eq(a: &str, b: &str) -> (r: bool)
    ensures
        r == (a@ == b@),
{
    let a_len = a.unicode_len();
    let b_len = b.unicode_len();
    if a_len != b_len {
        assert(a@ != b@) by {
            assert(a@.len() != b@.len());
        }
        return false;
    }
    let mut i: usize = 0;
    while i < a_len
        invariant
            i <= a_len,
            a_len == a@.len() && a_len == b@.len(),
            forall|j: int| 0 <= j < i ==> a@[j] == b@[j],
        decreases a_len - i,
    {
        if a.get_char(i) != b.get_char(i) {
            return false;
        }
        i += 1;
    }
    proof {
        assert(a@ =~= b@);
    }
    true
}

/// Width and height of a decoded image, in pixels.
#[derive(Clone, Copy, Debug, PartialEq, Eq, Structural)]
pub struct ImageDims {
    pub width: u32,
    pub height: u32,
}

/// A process-wide cache of decoded image sizes, keyed by path.
pub struct ImageCache {
    entries: Vec<(String, ImageDims)>,
}

/// The first entry of `entries` whose path reads `path`, searched from the
/// front.
pub open spec fn spec_lookup(entries: Seq<(String, ImageDims)>, path: Seq<char>) -> Option<
    ImageDims,
>
    decreases entries.len(),
{
    if entries.len() == 0 {
        None
    } else if entries[0].0@ == path {
        Some(entries[0].1)
    } else {
        spec_lookup(entries.drop_first(), path)
    }
}

impl ImageCache {
    /// What the cache knows about `path`.
    pub closed spec fn spec_get(&self, path: Seq<char>) -> Option<ImageDims> {
        spec_lookup(self.entries@, path)
    }

    /// An empty cache.
    pub fn new() -> (c: ImageCache)
        ensures
            forall|p: Seq<char>| c.spec_get(p) == None::<ImageDims>,
    {
        ImageCache { entries: Vec::new() }
    }

    /// Looks `path` up.
    pub fn get(&self, path: &str) -> (r: Option<ImageDims>)
        ensures
            r == self.spec_get(path@),
    {
        let mut i: usize = 0;
        assert(self.entries@.skip(0) =~= self.entries@);
        while i < self.entries.len()
            invariant
                i <= self.entries@.len(),
                spec_lookup(self.entries@, path@) == spec_lookup(
                    self.entries@.skip(i as int),
                    path@,
                ),
            decreases self.entries@.len() - i,
        {
            let ghost rest = self.entries@.skip(i as int);
            assert(rest[0] == self.entries@[i as int]);
            if str_eq(self.entries[i].0.as_str(), path) {
                return Some(self.entries[i].1);
            }
            assert(rest.drop_first() =~= self.entries@.skip(i + 1));
            i += 1;
        }
        assert(self.entries@.skip(i as int) =~= Seq::<(String, ImageDims)>::empty());
        None
    }

    /// Records the size of the image at `path`, unless the path is already
    /// known; an existing entry wins, as in a load-once cache.
    pub fn insert(&mut self, path: String, dims: ImageDims)
        ensures
            final(self).spec_get(path@) == match old(self).spec_get(path@) {
                Some(d) => Some(d),
                None => Some(dims),
            },
            forall|p: Seq<char>|
                p != path@ ==> final(self).spec_get(p) == old(self).spec_get(p),
    {
        if self.get(path.as_str()).is_none() {
            let ghost before = self.entries@;
            self.entries.push((path, dims));
            proof {
                assert forall|p: Seq<char>| #[trigger]
                    spec_lookup(self.entries@, p) == (if p == before.push(
                        (path, dims),
                    ).last().0@ && spec_lookup(before, p) is None {
                        Some(dims)
                    } else {
                        spec_lookup(before, p)
                    }) by {
                    lemma_lookup_push(before, path, dims, p);
                }
            }
        }
    }
}

/// Appending an entry changes a lookup only for its own path, and only when
/// that path was absent.
proof fn lemma_lookup_push(
    entries: Seq<(String, ImageDims)>,
    path: String,
    dims: ImageDims,
    p: Seq<char>,
)
    ensures
        spec_lookup(entries.push((path, dims)), p) == (if p == path@ && spec_lookup(
            entries,
            p,
        ) is None {
            Some(dims)
        } else {
            spec_lookup(entries, p)
        }),
    decreases entries.len(),
{
    let pushed = entries.push((path, dims));
    if entries.len() == 0 {
        assert(pushed.len() == 1);
        assert(pushed[0] == (path, dims));
        assert(pushed.drop_first() =~= Seq::<(String, ImageDims)>::empty());
    } else {
        assert(pushed[0] == entries[0]);
        if entries[0].0@ == p {
        } else {
            assert(pushed.drop_first() =~= entries.drop_first().push((path, dims)));
            lemma_lookup_push(entries.drop_first(), path, dims, p);
        }
    }
}

} // verus!
