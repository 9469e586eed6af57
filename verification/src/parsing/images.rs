//! Image metadata handed to the parser: natural pixel dimensions by image
//! path. The host resolves and probes the files; the parser only looks
//! dimensions up to pre-compute display heights.

use vstd::prelude::*;

verus! {

/// Natural dimensions of one image, keyed by the path as it appears in
/// the markdown source.
pub struct ImageEntry {
    pub path: String,
    pub width: u32,
    pub height: u32,
}

/// Dimension table for the images of a document. An image missing here
/// simply gets no pre-computed height.
pub struct ImageMeta {
    pub entries: Vec<ImageEntry>,
}

/// The dimensions recorded for `path`: the first matching entry wins.
pub open spec fn spec_lookup(entries: Seq<ImageEntry>, path: Seq<char>) -> Option<(u32, u32)>
    decreases entries.len(),
{
    if entries.len() == 0 {
        None
    } else if entries[0].path@ == path {
        Some((entries[0].width, entries[0].height))
    } else {
        spec_lookup(entries.drop_first(), path)
    }
}

impl ImageMeta {
    /// An empty table: no image gets a pre-computed height.
    pub fn new() -> (r: Self)
        ensures
            r.entries@ == Seq::<ImageEntry>::empty(),
    {
        let r = ImageMeta { entries: Vec::new() };
        proof {
            assert(r.entries@ =~= Seq::<ImageEntry>::empty());
        }
        r
    }

    /// Record the natural dimensions of an image.
    pub fn insert(&mut self, path: String, width: u32, height: u32)
        ensures
            final(self).entries@ == old(self).entries@.push(ImageEntry { path, width, height }),
    {
        self.entries.push(ImageEntry { path, width, height });
    }

    /// The recorded dimensions of `path`, if any.
    pub fn lookup(&self, path: &String) -> (r: Option<(u32, u32)>)
        ensures
            r == spec_lookup(self.entries@, path@),
    {
        let n = self.entries.len();
        let mut i: usize = 0;
        proof {
            assert(self.entries@.skip(0) =~= self.entries@);
        }
        while i < n
            invariant
                0 <= i <= n,
                n == self.entries@.len(),
                spec_lookup(self.entries@.skip(i as int), path@) == spec_lookup(self.entries@, path@),
            decreases n - i,
        {
            let e = &self.entries[i];
            proof {
                assert(self.entries@.skip(i as int)[0] == self.entries@[i as int]);
                assert(self.entries@.skip(i as int).drop_first() =~= self.entries@.skip(i as int + 1));
            }
            if e.path == *path {
                return Some((e.width, e.height));
            }
            i += 1;
        }
        proof {
            assert(self.entries@.skip(n as int) =~= Seq::<ImageEntry>::empty());
        }
        None
    }
}

} // verus!
