//! The layout a dump is drawn with.

use vstd::prelude::*;

verus! {

/// What to dump and how to lay it out.
pub struct Options {
    /// Name of the file
    pub file: String,
    /// Length of each individual sequence of bytes
    pub section_length: usize,
    /// Number of byte sections on each line
    pub sections_per_line: usize,
    /// Number of bytes written without a space between them
    pub chunk_size: usize,
}

impl Options {
    /// A layout can be drawn when its three sizes are positive and a
    /// line's length fits the machine word.
    pub open spec fn valid(&self) -> bool {
        &&& self.section_length > 0
        &&& self.sections_per_line > 0
        &&& self.chunk_size > 0
        &&& self.section_length * self.sections_per_line <= usize::MAX
    }

    /// Tells whether the layout can be drawn.
    pub fn is_valid(&self) -> (ok: bool)
        ensures
            ok == self.valid(),
    {
        self.section_length > 0 && self.sections_per_line > 0 && self.chunk_size > 0
            && self.section_length.checked_mul(self.sections_per_line).is_some()
    }
}

impl Default for Options {
    /// An empty file name and all sizes zero: a value to fill in, which
    /// is not yet a layout that can be drawn.
    fn default() -> (options: Options)
        ensures
            options.file@ == Seq::<char>::empty(),
            options.section_length == 0,
            options.sections_per_line == 0,
            options.chunk_size == 0,
    {
        Options { file: String::new(), section_length: 0, sections_per_line: 0, chunk_size: 0 }
    }
}

} // verus!
