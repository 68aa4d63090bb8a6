//! Painting a windowed list of rows into a character buffer.
use crate::buffer::{min3, Buffer, Cell, Rect};
use crate::row::{row_height, Row};
use crate::style::Style;
use crate::viewport::{compute, computed_window, heights_sum, ViewportState};
use crate::width::{display_width, display_width_of};
use vstd::prelude::*;

verus! {

/// From which corner of the rectangle the rows are laid out: top-down from
/// the top-left corner, or bottom-up from the bottom-left one.
#[derive(Clone, Copy, Debug)]
pub enum Corner {
    TopLeft,
    BottomLeft,
}

/// An optional one-cell frame around the list: when bordered, the list is
/// inset by one cell on each side. Drawing the frame's chrome is the
/// embedding layer's concern; here the block only reserves the cells.
#[derive(Clone, Copy, Debug)]
pub struct Block {
    pub bordered: bool,
}

impl Block {
    pub fn new(bordered: bool) -> (b: Block)
        ensures
            b.bordered == bordered,
    {
        Block { bordered }
    }

    /// The rectangle left for content inside this block.
    pub open spec fn spec_inner(self, area: Rect) -> Rect {
        if !self.bordered {
            area
        } else if area.width >= 2 && area.height >= 2 {
            Rect {
                x: (area.x + 1) as usize,
                y: (area.y + 1) as usize,
                width: (area.width - 2) as usize,
                height: (area.height - 2) as usize,
            }
        } else {
            Rect { x: area.x, y: area.y, width: 0, height: 0 }
        }
    }

    pub fn inner(&self, area: Rect) -> (r: Rect)
        requires
            area.x + area.width <= usize::MAX,
            area.y + area.height <= usize::MAX,
        ensures
            r == self.spec_inner(area),
    {
        if !self.bordered {
            area
        } else if area.width >= 2 && area.height >= 2 {
            Rect::new(area.x + 1, area.y + 1, area.width - 2, area.height - 2)
        } else {
            Rect::new(area.x, area.y, 0, 0)
        }
    }
}

/// The rectangle the rows land in: the area itself, or its inside when a
/// block frames it. Always nested in `area`.
pub open spec fn spec_list_area(block: Option<Block>, area: Rect) -> Rect {
    match block {
        Some(b) => b.spec_inner(area),
        None => area,
    }
}

/// The buffer row where the first line of visible row `i` lands, for a
/// window starting at `start` laid out from the given corner.
pub open spec fn spec_row_top(items: Seq<Row>, corner: Corner, la: Rect, start: int, i: int) -> int {
    match corner {
        Corner::TopLeft => la.y + heights_sum(items, start, i),
        Corner::BottomLeft => la.y + la.height - heights_sum(items, start, i) - row_height(
            items[i],
        ),
    }
}

/// Row `i` of the window starting at `start` paints at least its first
/// line inside the list rectangle.
pub open spec fn spec_row_visible(
    items: Seq<Row>,
    corner: Corner,
    la: Rect,
    start: int,
    i: int,
) -> bool {
    row_height(items[i]) > 0 && match corner {
        Corner::TopLeft => heights_sum(items, start, i) < la.height,
        Corner::BottomLeft => heights_sum(items, start, i) + row_height(items[i]) <= la.height,
    }
}

/// How many of row `i`'s lines land inside the list rectangle: laid out
/// top-down a row may lose its lower lines at the bottom edge; laid out
/// bottom-up a row is only shown when it fits whole.
pub open spec fn spec_clipped_lines(
    items: Seq<Row>,
    corner: Corner,
    la: Rect,
    start: int,
    i: int,
) -> int {
    match corner {
        Corner::TopLeft => if row_height(items[i]) <= la.height - heights_sum(
            items,
            start,
            i,
        ) {
            row_height(items[i])
        } else {
            la.height - heights_sum(items, start, i)
        },
        Corner::BottomLeft => row_height(items[i]),
    }
}

/// What a row's marker column carries: the highlight symbol itself on the
/// selected row, blanks of the symbol's display width on every other row
/// (so text columns line up), nothing when no symbol is set.
pub open spec fn spec_marker_chars(symbol: Option<String>, is_selected: bool) -> Seq<char> {
    match symbol {
        Some(s) => if is_selected {
            s@
        } else {
            Seq::new(display_width_of(s@), |k: int| ' ')
        },
        None => Seq::<char>::empty(),
    }
}

/// How many characters of line `j` of `row` fit between the marker column
/// (of width `mlen`) and the rectangle's right edge.
pub open spec fn spec_line_cells(row: Row, j: int, la: Rect, mlen: int) -> int {
    let len = row.lines@[j]@.len() as int;
    if len <= la.width - mlen {
        len
    } else {
        la.width - mlen
    }
}

/// What `render` leaves in the cells of one visible row `i` of the window
/// starting at `start`: the marker column on its first line holds the
/// highlight symbol (selected) or its blank placeholder, each clipped line
/// follows the marker up to the right edge, and those cells carry the base
/// style patched with the row's style — with the highlight style patched
/// on top, last, on the selected row.
pub open spec fn spec_row_painted(
    items: Seq<Row>,
    corner: Corner,
    la: Rect,
    start: int,
    i: int,
    selected: Option<usize>,
    symbol: Option<String>,
    base: Style,
    highlight: Style,
    buf: Buffer,
) -> bool {
    let top = spec_row_top(items, corner, la, start, i);
    let is_sel = selected matches Some(s) && s as int == i;
    let marker = spec_marker_chars(symbol, is_sel);
    let style0 = base.spec_patch(items[i].style);
    let style = if is_sel {
        style0.spec_patch(highlight)
    } else {
        style0
    };
    let mlen = min3(marker.len() as int, la.width as int, buf.width - la.x);
    let nlines = spec_clipped_lines(items, corner, la, start, i);
    spec_row_visible(items, corner, la, start, i) ==> {
        &&& forall|x: int|
            la.x <= x < la.x + mlen ==> #[trigger] buf.cell_at(x, top) == (Cell {
                symbol: marker[x - la.x],
                style,
            })
        &&& forall|j: int, x: int|
            0 <= j < nlines && la.x + mlen <= x < la.x + mlen + spec_line_cells(
                items[i],
                j,
                la,
                mlen,
            ) ==> #[trigger] buf.cell_at(x, top + j) == (Cell {
                symbol: items[i].lines@[j]@[x - la.x - mlen],
                style,
            })
    }
}

/// The characters of `s`, in order.
fn chars_of(s: &String) -> (r: Vec<char>)
    ensures
        r@ == s@,
{
    let st: &str = s.as_str();
    let n = st.unicode_len();
    let mut r: Vec<char> = Vec::new();
    let mut i: usize = 0;
    while i < n
        invariant
            i <= n,
            n == st@.len(),
            st@ == s@,
            r@ == s@.subrange(0, i as int),
        decreases n - i,
    {
        r.push(st.get_char(i));
        proof {
            assert(r@ =~= s@.subrange(0, i + 1));
        }
        i = i + 1;
    }
    proof {
        assert(r@ =~= s@);
    }
    r
}

/// `n` blank characters.
fn spaces(n: usize) -> (r: Vec<char>)
    ensures
        r@.len() == n,
        forall|k: int| 0 <= k < n ==> r@[k] == ' ',
{
    let mut r: Vec<char> = Vec::new();
    let mut i: usize = 0;
    while i < n
        invariant
            i <= n,
            r@.len() == i,
            forall|k: int| 0 <= k < i ==> r@[k] == ' ',
        decreases n - i,
    {
        r.push(' ');
        i = i + 1;
    }
    r
}

/// Paint one visible row's band: the row style over the band, the marker
/// column on the first line, the text lines after it clipped at the right
/// edge, and — for the selected row — the highlight style over the whole
/// band, last. Writes stay inside the band.
#[verifier::loop_isolation(false)]
fn paint_row(
    buf: &mut Buffer,
    la: Rect,
    ry: usize,
    max_lines: usize,
    row: &Row,
    item_style: Style,
    sym: &Vec<char>,
    is_selected: bool,
    highlight_style: Style,
)
    requires
        old(buf).wf(),
        la.x + la.width <= old(buf).width,
        la.y + la.height <= old(buf).height,
        la.y <= ry,
        1 <= max_lines,
        ry + max_lines <= la.y + la.height,
        max_lines <= row.lines@.len(),
    ensures
        final(buf).wf(),
        final(buf).width == old(buf).width,
        final(buf).height == old(buf).height,
        forall|x2: int, y2: int|
            #![trigger final(buf).cell_at(x2, y2)]
            #![trigger old(buf).cell_at(x2, y2)]
            old(buf).in_bounds(x2, y2) && !(la.x <= x2 < la.x + la.width && ry <= y2 < ry
                + max_lines) ==> final(buf).cell_at(x2, y2) == old(buf).cell_at(x2, y2),
        ({
            let style = if is_selected {
                item_style.spec_patch(highlight_style)
            } else {
                item_style
            };
            let mlen = min3(sym@.len() as int, la.width as int, old(buf).width - la.x);
            &&& forall|x2: int|
                la.x <= x2 < la.x + mlen ==> #[trigger] final(buf).cell_at(x2, ry as int) == (Cell {
                    symbol: sym@[x2 - la.x],
                    style,
                })
            &&& forall|j: int, x2: int|
                0 <= j < max_lines && la.x + mlen <= x2 < la.x + mlen + spec_line_cells(
                    *row,
                    j,
                    la,
                    mlen,
                ) ==> #[trigger] final(buf).cell_at(x2, ry + j) == (Cell {
                    symbol: row.lines@[j]@[x2 - la.x - mlen],
                    style,
                })
        }),
{
    let band = Rect::new(la.x, ry, la.width, max_lines);
    buf.set_style_in(band, item_style);

    // The marker column on the row's first line.
    let elem_x = buf.set_chars(la.x, ry, sym, la.width, item_style);

    // The text lines, just after the marker, clipped at the right edge.
    let mut j: usize = 0;
    while j < max_lines
        invariant
            buf.wf(),
            buf.width == old(buf).width,
            buf.height == old(buf).height,
            j <= max_lines,
            la.x <= elem_x <= la.x + la.width,
            elem_x - la.x == min3(sym@.len() as int, la.width as int, old(buf).width - la.x),
            forall|x2: int, y2: int|
                #![trigger buf.cell_at(x2, y2)]
                #![trigger old(buf).cell_at(x2, y2)]
                old(buf).in_bounds(x2, y2) && !(la.x <= x2 < la.x + la.width && ry <= y2 < ry
                    + max_lines) ==> buf.cell_at(x2, y2) == old(buf).cell_at(x2, y2),
            forall|x2: int|
                la.x <= x2 < elem_x ==> #[trigger] buf.cell_at(x2, ry as int) == (Cell {
                    symbol: sym@[x2 - la.x],
                    style: item_style,
                }),
            forall|j2: int, x2: int|
                0 <= j2 < j && elem_x <= x2 < elem_x + spec_line_cells(
                    *row,
                    j2,
                    la,
                    elem_x - la.x,
                ) ==> #[trigger] buf.cell_at(x2, ry + j2) == (Cell {
                    symbol: row.lines@[j2]@[x2 - la.x - (elem_x - la.x)],
                    style: item_style,
                }),
        decreases max_lines - j,
    {
        let line: &String = &row.lines[j];
        let line_chars = chars_of(line);
        let _ = buf.set_chars(elem_x, ry + j, &line_chars, la.x + la.width - elem_x, item_style);
        j = j + 1;
    }

    // The highlight overlay goes on last, over the whole band.
    let ghost pre_overlay = *buf;
    if is_selected {
        buf.set_style_in(band, highlight_style);
    }
    proof {
        let mlen = min3(sym@.len() as int, la.width as int, old(buf).width - la.x);
        let style = if is_selected {
            item_style.spec_patch(highlight_style)
        } else {
            item_style
        };
        assert(elem_x as int == la.x + mlen);
        assert forall|x2: int| la.x <= x2 < la.x + mlen implies buf.cell_at(x2, ry as int) == (Cell {
            symbol: sym@[x2 - la.x],
            style,
        }) by {
            assert(pre_overlay.cell_at(x2, ry as int) == (Cell {
                symbol: sym@[x2 - la.x],
                style: item_style,
            }));
            assert(pre_overlay.in_bounds(x2, ry as int));
            assert(band.spec_contains(x2, ry as int));
        }
        assert forall|j: int, x2: int|
            #![trigger buf.cell_at(x2, ry + j)]
            0 <= j < max_lines && la.x + mlen <= x2 < la.x + mlen + spec_line_cells(
                *row,
                j,
                la,
                mlen,
            ) implies buf.cell_at(x2, ry + j) == (Cell {
            symbol: row.lines@[j]@[x2 - la.x - mlen],
            style,
        }) by {
            assert(pre_overlay.cell_at(x2, ry + j) == (Cell {
                symbol: row.lines@[j]@[x2 - la.x - mlen],
                style: item_style,
            }));
            assert(pre_overlay.in_bounds(x2, ry + j));
            assert(band.spec_contains(x2, ry + j));
        }
    }
}

/// A windowed list widget: the rows to show, how to mark the selected one,
/// and how to lay the window out inside its rectangle.
#[derive(Clone, Debug)]
pub struct FileList {
    pub block: Option<Block>,
    pub items: Vec<Row>,
    pub style: Style,
    pub start_corner: Corner,
    pub highlight_style: Style,
    pub highlight_symbol: Option<String>,
}

impl FileList {
    pub fn new(items: Vec<Row>) -> (l: FileList)
        ensures
            l.items == items,
            l.block is None,
            l.style == (Style { fg: None, bg: None }),
            l.start_corner is TopLeft,
            l.highlight_style == (Style { fg: None, bg: None }),
            l.highlight_symbol is None,
    {
        FileList {
            block: None,
            items,
            style: Style::plain(),
            start_corner: Corner::TopLeft,
            highlight_style: Style::plain(),
            highlight_symbol: None,
        }
    }

    pub fn block(self, block: Block) -> (l: FileList)
        ensures
            l == (FileList { block: Some(block), ..self }),
    {
        FileList { block: Some(block), ..self }
    }

    pub fn style(self, style: Style) -> (l: FileList)
        ensures
            l == (FileList { style, ..self }),
    {
        FileList { style, ..self }
    }

    pub fn highlight_symbol(self, highlight_symbol: String) -> (l: FileList)
        ensures
            l == (FileList { highlight_symbol: Some(highlight_symbol), ..self }),
    {
        FileList { highlight_symbol: Some(highlight_symbol), ..self }
    }

    pub fn highlight_style(self, style: Style) -> (l: FileList)
        ensures
            l == (FileList { highlight_style: style, ..self }),
    {
        FileList { highlight_style: style, ..self }
    }

    pub fn start_corner(self, corner: Corner) -> (l: FileList)
        ensures
            l == (FileList { start_corner: corner, ..self }),
    {
        FileList { start_corner: corner, ..self }
    }

    /// Paint the visible window of rows into `buf`, inside `area`.
    ///
    /// The base style is overlaid on the whole area first. The window is
    /// picked by [`compute`] over the inner list rectangle's height, and its
    /// top is stored in `state.offset`. Each visible row gets the highlight
    /// symbol (selected) or a blank placeholder of the same display width
    /// (unselected) at its left edge, its text lines after that clipped at
    /// the right edge, and — for the selected row — the highlight style
    /// overlaid last ([`spec_row_painted`]). Writes stay inside `area`.
    /// With no rows or no room, only the base style pass happens and the
    /// cursor state is left untouched.
    #[verifier::loop_isolation(false)]
    #[verifier::rlimit(100)]
    pub fn render(self, area: Rect, buf: &mut Buffer, state: &mut ViewportState)
        requires
            old(buf).wf(),
            area.x + area.width <= old(buf).width,
            area.y + area.height <= old(buf).height,
            heights_sum(self.items@, 0, self.items@.len() as int) <= usize::MAX,
        ensures
            final(buf).wf(),
            old(buf).same_outside(*final(buf), area),
            final(state).selected == old(state).selected,
            ({
                let la = spec_list_area(self.block, area);
                if self.items@.len() > 0 && la.width >= 1 && la.height >= 1 {
                    final(state).offset as int == computed_window(
                        self.items@,
                        la.height as int,
                        old(state).offset as int,
                        old(state).selected,
                    ).0
                } else {
                    *final(state) == *old(state)
                }
            }),
            ({
                let la = spec_list_area(self.block, area);
                let w = computed_window(
                    self.items@,
                    la.height as int,
                    old(state).offset as int,
                    old(state).selected,
                );
                self.items@.len() > 0 && la.width >= 1 && la.height >= 1 ==> forall|i: int|
                    w.0 <= i < w.1 ==> spec_row_painted(
                        self.items@,
                        self.start_corner,
                        la,
                        w.0,
                        i,
                        old(state).selected,
                        self.highlight_symbol,
                        self.style,
                        self.highlight_style,
                        *final(buf),
                    )
            }),
            ({
                let la = spec_list_area(self.block, area);
                !(self.items@.len() > 0 && la.width >= 1 && la.height >= 1) ==> forall|
                    x: int,
                    y: int,
                |
                    old(buf).in_bounds(x, y) && area.spec_contains(x, y)
                        ==> #[trigger] final(buf).cell_at(x, y) == (Cell {
                        symbol: old(buf).cell_at(x, y).symbol,
                        style: old(buf).cell_at(x, y).style.spec_patch(self.style),
                    })
            }),
            ({
                let la = spec_list_area(self.block, area);
                self.items@.len() > 0 && la.width >= 1 && la.height >= 1 ==> forall|
                    x: int,
                    y: int,
                |
                    old(buf).in_bounds(x, y) && area.spec_contains(x, y) && !la.spec_contains(
                        x,
                        y,
                    ) ==> #[trigger] final(buf).cell_at(x, y) == (Cell {
                        symbol: old(buf).cell_at(x, y).symbol,
                        style: old(buf).cell_at(x, y).style.spec_patch(self.style),
                    })
            }),
    {
        buf.set_style_in(area, self.style);
        let list_area = match &self.block {
            Some(b) => b.inner(area),
            None => area,
        };
        if list_area.width < 1 || list_area.height < 1 {
            return ;
        }
        if self.items.len() == 0 {
            return ;
        }

        let window = compute(&self.items, list_area.height, state);
        let start = window.0;
        let end = window.1;
        let ghost state_now = *state;

        let hw: usize = match &self.highlight_symbol {
            Some(s) => display_width(s.as_str()),
            None => 0,
        };
        let highlight_symbol: Vec<char> = match &self.highlight_symbol {
            Some(s) => chars_of(s),
            None => Vec::new(),
        };
        let blank_symbol: Vec<char> = spaces(hw);
        proof {
            assert(highlight_symbol@ =~= spec_marker_chars(self.highlight_symbol, true));
            assert(blank_symbol@ =~= spec_marker_chars(self.highlight_symbol, false));
        }

        let la_right = list_area.x + list_area.width;
        let la_bottom = list_area.y + list_area.height;

        let mut current_height: usize = 0;
        let mut i = start;
        while i < end
            invariant
                buf.wf(),
                buf.width == old(buf).width,
                buf.height == old(buf).height,
                old(buf).same_outside(*buf, area),
                *state == state_now,
                start <= i <= end <= self.items@.len(),
                area.x <= list_area.x,
                area.y <= list_area.y,
                current_height as int == heights_sum(self.items@, start as int, i as int),
                la_right == list_area.x + list_area.width,
                la_bottom == list_area.y + list_area.height,
                list_area == spec_list_area(self.block, area),
                list_area.x + list_area.width <= area.x + area.width <= buf.width,
                list_area.y + list_area.height <= area.y + area.height <= buf.height,
                heights_sum(self.items@, 0, self.items@.len() as int) <= usize::MAX,
                highlight_symbol@ == spec_marker_chars(self.highlight_symbol, true),
                blank_symbol@ == spec_marker_chars(self.highlight_symbol, false),
                forall|x: int, y: int|
                    old(buf).in_bounds(x, y) && area.spec_contains(x, y)
                        && !list_area.spec_contains(x, y) ==> #[trigger] buf.cell_at(x, y)
                        == (Cell {
                        symbol: old(buf).cell_at(x, y).symbol,
                        style: old(buf).cell_at(x, y).style.spec_patch(self.style),
                    }),
                forall|r: int|
                    start <= r < i ==> spec_row_painted(
                        self.items@,
                        self.start_corner,
                        list_area,
                        start as int,
                        r,
                        old(state).selected,
                        self.highlight_symbol,
                        self.style,
                        self.highlight_style,
                        *buf,
                    ),
            decreases end - i,
        {
            proof {
                crate::viewport::lemma_heights_sum_unfold_right(
                    self.items@,
                    start as int,
                    i as int,
                );
                crate::viewport::lemma_heights_sum_in_total(
                    self.items@,
                    start as int,
                    i as int + 1,
                );
                crate::viewport::lemma_heights_sum_nonneg(self.items@, start as int, i as int);
                // Every row already painted sits strictly on the other side
                // of this row's band, so this row's writes miss it.
                assert forall|r: int| start <= r && r < i as int implies 0 <= heights_sum(
                    self.items@,
                    start as int,
                    r,
                ) && #[trigger] heights_sum(self.items@, start as int, r) + row_height(
                    self.items@[r],
                ) <= heights_sum(self.items@, start as int, i as int) by {
                    crate::viewport::lemma_heights_sum_nonneg(self.items@, start as int, r);
                    crate::viewport::lemma_heights_sum_split(
                        self.items@,
                        start as int,
                        r + 1,
                        i as int,
                    );
                    crate::viewport::lemma_heights_sum_nonneg(self.items@, r + 1, i as int);
                    crate::viewport::lemma_heights_sum_unfold_right(
                        self.items@,
                        start as int,
                        r,
                    );
                }
            }
            let item_h = self.items[i].height();
            let ghost ch0 = current_height as int;

            // The row's top line, in buffer coordinates; rows that fall
            // outside the list rectangle are clipped away entirely, and a
            // zero-height row takes its window slot but paints nothing.
            let row_y: Option<usize> = if item_h == 0 {
                None
            } else {
                match self.start_corner {
                    Corner::BottomLeft => {
                        if current_height + item_h <= list_area.height {
                            Some(la_bottom - current_height - item_h)
                        } else {
                            None
                        }
                    },
                    Corner::TopLeft => {
                        if current_height < list_area.height {
                            Some(list_area.y + current_height)
                        } else {
                            None
                        }
                    },
                }
            };
            current_height = current_height + item_h;

            if let Some(ry) = row_y {
                let is_selected: bool = match state.selected() {
                    Some(s) => s == i,
                    None => false,
                };
                let item_style = self.style.patch(self.items[i].style);

                // How many of the row's lines still fit below its top.
                let max_lines: usize = if item_h <= list_area.height - (ry - list_area.y) {
                    item_h
                } else {
                    list_area.height - (ry - list_area.y)
                };

                let sym: &Vec<char> = if is_selected {
                    &highlight_symbol
                } else {
                    &blank_symbol
                };
                let ghost buf0 = *buf;
                paint_row(
                    buf,
                    list_area,
                    ry,
                    max_lines,
                    &self.items[i],
                    item_style,
                    sym,
                    is_selected,
                    self.highlight_style,
                );

                proof {
                    assert(spec_row_painted(
                        self.items@,
                        self.start_corner,
                        list_area,
                        start as int,
                        i as int,
                        old(state).selected,
                        self.highlight_symbol,
                        self.style,
                        self.highlight_style,
                        *buf,
                    )) by {
                        assert(ry as int == spec_row_top(
                            self.items@,
                            self.start_corner,
                            list_area,
                            start as int,
                            i as int,
                        ));
                        assert(max_lines as int == spec_clipped_lines(
                            self.items@,
                            self.start_corner,
                            list_area,
                            start as int,
                            i as int,
                        ));
                    }
                    // Rows painted earlier sit strictly outside this row's
                    // band, so they are untouched.
                    assert forall|r: int| start <= r && r < i as int implies spec_row_painted(
                        self.items@,
                        self.start_corner,
                        list_area,
                        start as int,
                        r,
                        old(state).selected,
                        self.highlight_symbol,
                        self.style,
                        self.highlight_style,
                        *buf,
                    ) by {
                        assert(spec_row_painted(
                            self.items@,
                            self.start_corner,
                            list_area,
                            start as int,
                            r,
                            old(state).selected,
                            self.highlight_symbol,
                            self.style,
                            self.highlight_style,
                            buf0,
                        ));
                        if spec_row_visible(
                            self.items@,
                            self.start_corner,
                            list_area,
                            start as int,
                            r,
                        ) {
                            assert(match self.start_corner {
                                Corner::TopLeft => spec_row_top(
                                    self.items@,
                                    self.start_corner,
                                    list_area,
                                    start as int,
                                    r,
                                ) + spec_clipped_lines(
                                    self.items@,
                                    self.start_corner,
                                    list_area,
                                    start as int,
                                    r,
                                ) <= ry as int,
                                Corner::BottomLeft => ry + max_lines <= spec_row_top(
                                    self.items@,
                                    self.start_corner,
                                    list_area,
                                    start as int,
                                    r,
                                ),
                            });
                        }
                    }
                }
            }
            i = i + 1;
        }
    }

    /// Paint with a fresh cursor — anchored at the top, nothing selected —
    /// and discard it afterwards.
    pub fn render_stateless(self, area: Rect, buf: &mut Buffer)
        requires
            old(buf).wf(),
            area.x + area.width <= old(buf).width,
            area.y + area.height <= old(buf).height,
            heights_sum(self.items@, 0, self.items@.len() as int) <= usize::MAX,
        ensures
            final(buf).wf(),
            old(buf).same_outside(*final(buf), area),
            ({
                let la = spec_list_area(self.block, area);
                let w = computed_window(self.items@, la.height as int, 0, None);
                self.items@.len() > 0 && la.width >= 1 && la.height >= 1 ==> forall|i: int|
                    w.0 <= i < w.1 ==> spec_row_painted(
                        self.items@,
                        self.start_corner,
                        la,
                        w.0,
                        i,
                        None,
                        self.highlight_symbol,
                        self.style,
                        self.highlight_style,
                        *final(buf),
                    )
            }),
            ({
                let la = spec_list_area(self.block, area);
                !(self.items@.len() > 0 && la.width >= 1 && la.height >= 1) ==> forall|
                    x: int,
                    y: int,
                |
                    old(buf).in_bounds(x, y) && area.spec_contains(x, y)
                        ==> #[trigger] final(buf).cell_at(x, y) == (Cell {
                        symbol: old(buf).cell_at(x, y).symbol,
                        style: old(buf).cell_at(x, y).style.spec_patch(self.style),
                    })
            }),
    {
        let mut state = ViewportState::new();
        self.render(area, buf, &mut state);
    }
}

} // verus!
