use vstd::prelude::*;

verus! {

/// A position in a source text: both numbers start at one, and the column
/// counts characters, not bytes.
#[derive(Clone, Copy, Debug, PartialEq, Eq, PartialOrd, Ord, Structural)]
pub struct Location {
    pub line: u32,
    /// UTF-8 column
    pub column: u32,
}

impl Location {
    /// The first place of a text, for values that were not read anywhere.
    pub fn new_mocked() -> (res: Self)
        ensures
            res == (Location { line: 1, column: 1 }),
    {
        Location { line: 1, column: 1 }
    }
}

} // verus!
