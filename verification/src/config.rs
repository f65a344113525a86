//! The run configuration handed in by whoever drives the library.

use vstd::prelude::*;

verus! {

/// Everything one run needs: where the source lives, which server to
/// stream to, the canvas offset added to all coordinates, the similarity
/// threshold (0 requires an exact match; larger values suppress more
/// near-duplicates), whether to randomize emission order, and the
/// time-scale multiplier applied to frame delays.
#[derive(Debug)]
pub struct CliOptions {
    pub file: String,
    pub url: String,
    pub offset: (u32, u32),
    pub similarity: u32,
    pub shuffle: bool,
    pub time_factor: u32,
}

impl Clone for CliOptions {
    fn clone(&self) -> (r: Self)
        ensures
            r.file@ == self.file@,
            r.url@ == self.url@,
            r.offset == self.offset,
            r.similarity == self.similarity,
            r.shuffle == self.shuffle,
            r.time_factor == self.time_factor,
    {
        CliOptions {
            file: self.file.clone(),
            url: self.url.clone(),
            offset: (self.offset.0, self.offset.1),
            similarity: self.similarity,
            shuffle: self.shuffle,
            time_factor: self.time_factor,
        }
    }
}

} // verus!
