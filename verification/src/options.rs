use vstd::prelude::*;

verus! {

/// Which counts the user asked for, and whether any source token was seen.
///
/// All four count selections start out false; if they are all still false
/// when a report line is produced, the reporter falls back to its default
/// display of lines, words and bytes.
#[derive(Debug, Clone, Copy)]
pub struct Options {
    pub bytes: bool,
    pub chars: bool,
    pub words: bool,
    pub lines: bool,
    /// True while no source token (a file path or `-`) has been consumed.
    pub nofiles: bool,
}

impl Options {
    /// The starting configuration: no count selected, no source seen.
    pub fn init() -> (r: Options)
        ensures
            !r.bytes,
            !r.chars,
            !r.words,
            !r.lines,
            r.nofiles,
    {
        Options { bytes: false, chars: false, words: false, lines: false, nofiles: true }
    }

    /// No count flag is set: report lines render in the default mode.
    pub open spec fn default_mode(self) -> bool {
        !self.bytes && !self.chars && !self.words && !self.lines
    }
}

} // verus!
