//! Where in a source text a piece of data was declared.

use vstd::prelude::*;

verus! {

/// The line and the columns at which a piece of data was declared in a source.
#[derive(Clone, Copy, Debug, PartialEq, Eq, Structural)]
pub struct SourceLocation {
    ln: usize,
    col_start: usize,
    col_end: usize,
}

impl SourceLocation {
    /// The line number.
    pub closed spec fn ln(&self) -> usize {
        self.ln
    }

    /// The column at which the data starts.
    pub closed spec fn col_start(&self) -> usize {
        self.col_start
    }

    /// The column at which the data ends.
    pub closed spec fn col_end(&self) -> usize {
        self.col_end
    }

    /// Get the line number of the source that this piece of data was declared on.
    pub fn get_ln(&self) -> (ln: usize)
        ensures
            ln == self.ln(),
    {
        self.ln
    }

    /// Get the column start of the line that this piece of data was declared on.
    pub fn get_col_start(&self) -> (col_start: usize)
        ensures
            col_start == self.col_start(),
    {
        self.col_start
    }

    /// Get the column end of the line that this piece of data was declared on.
    pub fn get_col_end(&self) -> (col_end: usize)
        ensures
            col_end == self.col_end(),
    {
        self.col_end
    }

    /// Create a new SourceLocation.
    pub fn new(ln: usize, col_start: usize, col_end: usize) -> (location: SourceLocation)
        ensures
            location.ln() == ln,
            location.col_start() == col_start,
            location.col_end() == col_end,
    {
        SourceLocation { ln, col_start, col_end }
    }
}

} // verus!
