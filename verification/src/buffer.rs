//! A rectangular buffer of character cells with per-cell styles.
//!
//! Each cell holds exactly one character; cell `(x, y)` of a buffer of
//! width `w` lives at index `y * w + x` of the flat cell vector. All
//! painting goes through the methods here, whose contracts say exactly
//! which cells change.
use crate::style::Style;
use vstd::prelude::*;

verus! {

/// A rectangle of cells, in buffer coordinates.
#[derive(Clone, Copy, Debug)]
pub struct Rect {
    pub x: usize,
    pub y: usize,
    pub width: usize,
    pub height: usize,
}

impl Rect {
    pub open spec fn spec_contains(self, x: int, y: int) -> bool {
        &&& self.x <= x < self.x + self.width
        &&& self.y <= y < self.y + self.height
    }

    pub fn new(x: usize, y: usize, width: usize, height: usize) -> (r: Rect)
        ensures
            r == (Rect { x, y, width, height }),
    {
        Rect { x, y, width, height }
    }
}

/// One character cell.
#[derive(Clone, Copy, Debug)]
pub struct Cell {
    pub symbol: char,
    pub style: Style,
}

/// A `width` by `height` grid of cells.
#[derive(Clone, Debug)]
pub struct Buffer {
    pub width: usize,
    pub height: usize,
    pub cells: Vec<Cell>,
}

/// The flat index of cell (x, y) in a buffer of width `w` is inside a grid
/// of `w * h` cells.
proof fn lemma_cell_index_bounds(w: int, h: int, x: int, y: int)
    by (nonlinear_arith)
    requires
        0 <= x < w,
        0 <= y < h,
    ensures
        0 <= y * w + x < w * h,
{
}

/// Distinct in-bounds coordinates have distinct flat indices.
proof fn lemma_cell_index_injective(w: int, x1: int, y1: int, x2: int, y2: int)
    by (nonlinear_arith)
    requires
        0 <= x1 < w,
        0 <= x2 < w,
        0 <= y1,
        0 <= y2,
    ensures
        y1 * w + x1 == y2 * w + x2 ==> x1 == x2 && y1 == y2,
{
}

impl Buffer {
    /// The cell vector matches the advertised dimensions.
    pub open spec fn wf(self) -> bool {
        self.cells@.len() == self.width * self.height
    }

    pub open spec fn in_bounds(self, x: int, y: int) -> bool {
        0 <= x < self.width && 0 <= y < self.height
    }

    /// The cell at (x, y).
    pub open spec fn cell_at(self, x: int, y: int) -> Cell {
        self.cells@[y * self.width + x]
    }

    /// `b` has the same dimensions as `self` and agrees with it on every
    /// cell outside `area`.
    pub open spec fn same_outside(self, b: Buffer, area: Rect) -> bool {
        &&& b.width == self.width
        &&& b.height == self.height
        &&& forall|x: int, y: int|
            #![trigger b.cell_at(x, y)]
            #![trigger self.cell_at(x, y)]
            self.in_bounds(x, y) && !area.spec_contains(x, y) ==> b.cell_at(x, y) == self.cell_at(
                x,
                y,
            )
    }

    /// A buffer of blank cells.
    pub fn new(width: usize, height: usize) -> (b: Buffer)
        requires
            width * height <= usize::MAX,
        ensures
            b.wf(),
            b.width == width,
            b.height == height,
            forall|x: int, y: int| b.in_bounds(x, y) ==> b.cell_at(x, y) == blank_cell(),
    {
        let n = width * height;
        let mut cells: Vec<Cell> = Vec::new();
        let mut i: usize = 0;
        while i < n
            invariant
                i <= n,
                cells@.len() == i,
                forall|k: int| 0 <= k < i ==> cells@[k] == blank_cell(),
            decreases n - i,
        {
            cells.push(Cell { symbol: ' ', style: Style::plain() });
            i = i + 1;
        }
        let b = Buffer { width, height, cells };
        proof {
            assert forall|x: int, y: int| b.in_bounds(x, y) implies b.cell_at(x, y)
                == blank_cell() by {
                lemma_cell_index_bounds(width as int, height as int, x, y);
            }
        }
        b
    }

    /// Read the cell at (x, y).
    pub fn get(&self, x: usize, y: usize) -> (c: Cell)
        requires
            self.wf(),
            self.in_bounds(x as int, y as int),
        ensures
            c == self.cell_at(x as int, y as int),
    {
        let n = self.cells.len();
        proof {
            lemma_cell_index_bounds(self.width as int, self.height as int, x as int, y as int);
            assert(y * self.width + x < n);
        }
        self.cells[y * self.width + x]
    }

    /// Write one cell; every other cell is untouched.
    pub fn put(&mut self, x: usize, y: usize, symbol: char, style: Style)
        requires
            old(self).wf(),
            old(self).in_bounds(x as int, y as int),
        ensures
            final(self).wf(),
            final(self).width == old(self).width,
            final(self).height == old(self).height,
            final(self).cell_at(x as int, y as int) == (Cell { symbol, style }),
            forall|x2: int, y2: int|
                #![trigger final(self).cell_at(x2, y2)]
                #![trigger old(self).cell_at(x2, y2)]
                old(self).in_bounds(x2, y2) && (x2 != x || y2 != y) ==> final(self).cell_at(x2, y2)
                    == old(self).cell_at(x2, y2),
    {
        let n = self.cells.len();
        proof {
            lemma_cell_index_bounds(self.width as int, self.height as int, x as int, y as int);
            assert(y * self.width + x < n);
        }
        let idx = y * self.width + x;
        self.cells[idx] = Cell { symbol, style };
        proof {
            assert forall|x2: int, y2: int|
                old(self).in_bounds(x2, y2) && (x2 != x || y2 != y) implies final(self).cell_at(
                x2,
                y2,
            ) == old(self).cell_at(x2, y2) by {
                lemma_cell_index_bounds(
                    old(self).width as int,
                    old(self).height as int,
                    x2,
                    y2,
                );
                lemma_cell_index_injective(old(self).width as int, x as int, y as int, x2, y2);
            }
        }
    }

    /// Overlay `style` on every cell inside `area`, clipped to the buffer;
    /// symbols are kept, and nothing outside `area` changes.
    pub fn set_style_in(&mut self, area: Rect, style: Style)
        requires
            old(self).wf(),
        ensures
            final(self).wf(),
            old(self).same_outside(*final(self), area),
            forall|x2: int, y2: int|
                old(self).in_bounds(x2, y2) && area.spec_contains(x2, y2)
                    ==> final(self).cell_at(x2, y2) == (Cell {
                    symbol: old(self).cell_at(x2, y2).symbol,
                    style: old(self).cell_at(x2, y2).style.spec_patch(style),
                }),
    {
        let y_hi = min_usize(area.y.saturating_add(area.height), self.height);
        let x_hi = min_usize(area.x.saturating_add(area.width), self.width);
        let mut y = area.y;
        while y < y_hi
            invariant
                self.wf(),
                self.width == old(self).width,
                self.height == old(self).height,
                area.y <= y,
                y_hi <= self.height,
                x_hi <= self.width,
                y_hi as int <= area.y + area.height,
                x_hi as int <= area.x + area.width,
                x_hi as int >= if area.x + area.width <= self.width {
                    area.x + area.width
                } else {
                    self.width as int
                },
                y_hi as int >= if area.y + area.height <= self.height {
                    area.y + area.height
                } else {
                    self.height as int
                },
                forall|x2: int, y2: int|
                    old(self).in_bounds(x2, y2) && area.spec_contains(x2, y2) && y2 < y
                        ==> self.cell_at(x2, y2) == (Cell {
                        symbol: old(self).cell_at(x2, y2).symbol,
                        style: old(self).cell_at(x2, y2).style.spec_patch(style),
                    }),
                forall|x2: int, y2: int|
                    old(self).in_bounds(x2, y2) && !(area.spec_contains(x2, y2) && y2 < y)
                        ==> self.cell_at(x2, y2) == #[trigger] old(self).cell_at(x2, y2),
            decreases y_hi - y,
        {
            let mut x = area.x;
            while x < x_hi
                invariant
                    self.wf(),
                    self.width == old(self).width,
                    self.height == old(self).height,
                    area.x <= x,
                    area.y <= y < y_hi <= self.height,
                    x_hi <= self.width,
                    y_hi as int <= area.y + area.height,
                    x_hi as int <= area.x + area.width,
                    x_hi as int >= if area.x + area.width <= self.width {
                        area.x + area.width
                    } else {
                        self.width as int
                    },
                    forall|x2: int, y2: int|
                        old(self).in_bounds(x2, y2) && area.spec_contains(x2, y2) && (y2 < y || (
                        y2 == y && x2 < x)) ==> self.cell_at(x2, y2) == (Cell {
                            symbol: old(self).cell_at(x2, y2).symbol,
                            style: old(self).cell_at(x2, y2).style.spec_patch(style),
                        }),
                    forall|x2: int, y2: int|
                        old(self).in_bounds(x2, y2) && !(area.spec_contains(x2, y2) && (y2 < y
                            || (y2 == y && x2 < x))) ==> self.cell_at(x2, y2) == #[trigger] old(
                            self,
                        ).cell_at(x2, y2),
                decreases x_hi - x,
            {
                let c = self.get(x, y);
                self.put(x, y, c.symbol, c.style.patch(style));
                x = x + 1;
            }
            y = y + 1;
        }
    }

    /// Paint `chars` left to right starting at (x, y), stopping at
    /// `max_width` characters or at the buffer's right edge; yields the
    /// column just after the last painted cell. Only the painted cells of
    /// row `y` change.
    pub fn set_chars(&mut self, x: usize, y: usize, chars: &Vec<char>, max_width: usize, style: Style) -> (next_x: usize)
        requires
            old(self).wf(),
            x <= old(self).width,
            y < old(self).height,
        ensures
            final(self).wf(),
            final(self).width == old(self).width,
            final(self).height == old(self).height,
            x <= next_x <= old(self).width,
            next_x - x == min3(chars@.len() as int, max_width as int, old(self).width - x),
            forall|x2: int|
                x <= x2 < next_x ==> #[trigger] final(self).cell_at(x2, y as int) == (Cell {
                    symbol: chars@[x2 - x],
                    style,
                }),
            forall|x2: int, y2: int|
                #![trigger final(self).cell_at(x2, y2)]
                #![trigger old(self).cell_at(x2, y2)]
                old(self).in_bounds(x2, y2) && !(y2 == y && x <= x2 < next_x)
                    ==> final(self).cell_at(x2, y2) == old(self).cell_at(x2, y2),
    {
        let budget = min_usize(max_width, self.width - x);
        let count = min_usize(chars.len(), budget);
        let mut k: usize = 0;
        while k < count
            invariant
                self.wf(),
                self.width == old(self).width,
                self.height == old(self).height,
                k <= count,
                x + count <= self.width,
                count <= chars@.len(),
                y < self.height,
                forall|x2: int|
                    x <= x2 < x + k ==> #[trigger] self.cell_at(x2, y as int) == (Cell {
                        symbol: chars@[x2 - x],
                        style,
                    }),
                forall|x2: int, y2: int|
                    #![trigger self.cell_at(x2, y2)]
                    #![trigger old(self).cell_at(x2, y2)]
                    old(self).in_bounds(x2, y2) && !(y2 == y && x <= x2 < x + k)
                        ==> self.cell_at(x2, y2) == old(self).cell_at(x2, y2),
            decreases count - k,
        {
            self.put(x + k, y, chars[k], style);
            k = k + 1;
        }
        x + count
    }
}

/// The cell a fresh buffer is filled with.
pub open spec fn blank_cell() -> Cell {
    Cell { symbol: ' ', style: Style { fg: None, bg: None } }
}

/// The least of three quantities.
pub open spec fn min3(a: int, b: int, c: int) -> int {
    if a <= b && a <= c {
        a
    } else if b <= c {
        b
    } else {
        c
    }
}

fn min_usize(a: usize, b: usize) -> (r: usize)
    ensures
        r == if a <= b {
            a as int
        } else {
            b as int
        },
{
    if a <= b {
        a
    } else {
        b
    }
}

} // verus!
