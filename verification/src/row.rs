//! A pre-rendered list item of fixed height.
use crate::style::Style;
use vstd::prelude::*;

verus! {

/// One list item: an ordered sequence of text lines plus a base style.
/// Its height — the number of character rows it occupies — is the number
/// of lines, fixed when the row is built and never recomputed mid-render.
#[derive(Clone, Debug)]
pub struct Row {
    pub lines: Vec<String>,
    pub style: Style,
}

/// The height of a row, in character rows.
pub open spec fn row_height(r: Row) -> int {
    r.lines@.len() as int
}

impl Row {
    pub fn new(lines: Vec<String>, style: Style) -> (r: Row)
        ensures
            r.lines == lines,
            r.style == style,
            row_height(r) == lines@.len(),
    {
        Row { lines, style }
    }

    pub fn height(&self) -> (h: usize)
        ensures
            h as int == row_height(*self),
    {
        self.lines.len()
    }
}

} // verus!
