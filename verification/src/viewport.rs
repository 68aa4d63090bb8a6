//! The windowed-list calculator: which contiguous range of rows is visible.
//!
//! [`compute`] maps (rows, available height, previous cursor state) to the
//! window `[start, end)` that the renderer paints. It keeps the selected row
//! inside the window, keeps the window's total height within the available
//! height (except for a single row that is taller than the rectangle, which
//! is shown alone), and scrolls by the least amount that restores those two
//! facts, preferring the window anchored at the previous offset.
use crate::row::{row_height, Row};
use vstd::prelude::*;

verus! {

/// Cursor state owned by the caller across frames: the index of the first
/// visible row as of the previous frame, and the highlighted row, if any.
#[derive(Clone, Copy, Debug)]
pub struct ViewportState {
    pub offset: usize,
    pub selected: Option<usize>,
}

impl ViewportState {
    /// A fresh state: anchored at the top, nothing selected.
    pub fn new() -> (s: ViewportState)
        ensures
            s.offset == 0,
            s.selected is None,
    {
        ViewportState { offset: 0, selected: None }
    }

    /// Change which row is highlighted; the remembered offset is kept.
    pub fn select(&mut self, selected: Option<usize>)
        ensures
            final(self).selected == selected,
            final(self).offset == old(self).offset,
    {
        self.selected = selected;
    }

    pub fn selected(&self) -> (s: Option<usize>)
        ensures
            s == self.selected,
    {
        self.selected
    }
}

/// Total height of the rows with indices in `[i, j)`.
pub open spec fn heights_sum(rows: Seq<Row>, i: int, j: int) -> int
    decreases j - i,
{
    if i >= j {
        0
    } else {
        row_height(rows[i]) + heights_sum(rows, i + 1, j)
    }
}

/// `i` clamped into `[0, len)` from above: a remembered index that went
/// stale after the rows shrank falls back to the last valid index.
pub open spec fn clamp_index(i: int, len: int) -> int {
    if i >= len {
        len - 1
    } else {
        i
    }
}

/// The row index the calculator keeps visible: the selected index clamped
/// into range, or the first row when nothing is selected.
pub open spec fn effective_selected(selected: Option<usize>, len: int) -> int {
    match selected {
        Some(i) => clamp_index(i as int, len),
        None => 0,
    }
}

/// Greedy extension of a window: starting from `[start, end)`, grow `end`
/// while the next row still fits into `avail`.
pub open spec fn grown_end(rows: Seq<Row>, avail: int, start: int, end: int) -> int
    decreases rows.len() - end,
{
    if end < rows.len() && heights_sum(rows, start, end + 1) <= avail {
        grown_end(rows, avail, start, end + 1)
    } else {
        end
    }
}

/// Where the window top lands after scrolling down to reveal `sel`: the
/// first top at or below `st` from which `[top, sel]` fits into `avail`,
/// or `sel` itself if no such top exists.
pub open spec fn scrolled_start(rows: Seq<Row>, avail: int, st: int, sel: int) -> int
    decreases sel - st,
{
    if st >= sel {
        sel
    } else if heights_sum(rows, st, sel + 1) <= avail {
        st
    } else {
        scrolled_start(rows, avail, st + 1, sel)
    }
}

/// Where the window bottom lands after scrolling up to reveal `sel`: the
/// largest end at or below `e` for which `[sel, end)` fits into `avail`,
/// but never below `sel + 1`.
pub open spec fn pulled_end(rows: Seq<Row>, avail: int, sel: int, e: int) -> int
    decreases e - sel,
{
    if e <= sel + 1 {
        sel + 1
    } else if heights_sum(rows, sel, e) <= avail {
        e
    } else {
        pulled_end(rows, avail, sel, e - 1)
    }
}

/// The window `compute` yields on non-empty rows and a positive height:
/// the window anchored at the previous offset if it already shows the
/// selected row, else the window shifted down or up by the least amount
/// that reveals it.
pub open spec fn computed_window(
    rows: Seq<Row>,
    avail: int,
    offset: int,
    selected: Option<usize>,
) -> (int, int) {
    let len = rows.len() as int;
    let start0 = clamp_index(offset, len);
    let end0 = grown_end(rows, avail, start0, start0);
    let sel = effective_selected(selected, len);
    if sel >= end0 {
        (scrolled_start(rows, avail, start0, sel), sel + 1)
    } else if sel < start0 {
        (sel, pulled_end(rows, avail, sel, end0))
    } else {
        (start0, end0)
    }
}

pub proof fn lemma_heights_sum_nonneg(rows: Seq<Row>, i: int, j: int)
    ensures
        heights_sum(rows, i, j) >= 0,
    decreases j - i,
{
    if i < j {
        lemma_heights_sum_nonneg(rows, i + 1, j);
    }
}

pub proof fn lemma_heights_sum_unfold_right(rows: Seq<Row>, i: int, j: int)
    requires
        i <= j,
    ensures
        heights_sum(rows, i, j + 1) == heights_sum(rows, i, j) + row_height(rows[j]),
    decreases j - i,
{
    if i < j {
        lemma_heights_sum_unfold_right(rows, i + 1, j);
    } else {
        assert(heights_sum(rows, j + 1, j + 1) == 0);
    }
}

pub proof fn lemma_heights_sum_split(rows: Seq<Row>, i: int, k: int, j: int)
    requires
        i <= k <= j,
    ensures
        heights_sum(rows, i, j) == heights_sum(rows, i, k) + heights_sum(rows, k, j),
    decreases k - i,
{
    if i < k {
        lemma_heights_sum_split(rows, i + 1, k, j);
    }
}

/// A window that starts lower sums to no more.
pub proof fn lemma_heights_sum_mono_left(rows: Seq<Row>, i: int, i2: int, j: int)
    requires
        i <= i2 <= j,
    ensures
        heights_sum(rows, i2, j) <= heights_sum(rows, i, j),
{
    lemma_heights_sum_split(rows, i, i2, j);
    lemma_heights_sum_nonneg(rows, i, i2);
}

/// A window that ends sooner sums to no more.
pub proof fn lemma_heights_sum_mono_right(rows: Seq<Row>, i: int, j: int, j2: int)
    requires
        i <= j <= j2,
    ensures
        heights_sum(rows, i, j) <= heights_sum(rows, i, j2),
{
    lemma_heights_sum_split(rows, i, j, j2);
    lemma_heights_sum_nonneg(rows, j, j2);
}

/// Any window's height is bounded by the height of all rows together.
pub proof fn lemma_heights_sum_in_total(rows: Seq<Row>, i: int, j: int)
    requires
        0 <= i <= j <= rows.len(),
    ensures
        heights_sum(rows, i, j) <= heights_sum(rows, 0, rows.len() as int),
{
    lemma_heights_sum_mono_left(rows, 0, i, rows.len() as int);
    lemma_heights_sum_mono_right(rows, i, j, rows.len() as int);
}

pub proof fn lemma_grown_end_bounds(rows: Seq<Row>, avail: int, start: int, end: int)
    requires
        end <= rows.len(),
    ensures
        end <= grown_end(rows, avail, start, end) <= rows.len(),
    decreases rows.len() - end,
{
    if end < rows.len() && heights_sum(rows, start, end + 1) <= avail {
        lemma_grown_end_bounds(rows, avail, start, end + 1);
    }
}

pub proof fn lemma_grown_end_fits(rows: Seq<Row>, avail: int, start: int, end: int)
    requires
        heights_sum(rows, start, end) <= avail,
    ensures
        heights_sum(rows, start, grown_end(rows, avail, start, end)) <= avail,
    decreases rows.len() - end,
{
    if end < rows.len() && heights_sum(rows, start, end + 1) <= avail {
        lemma_grown_end_fits(rows, avail, start, end + 1);
    }
}

/// The greedy window is maximal: either it reaches the last row, or the
/// next row would not fit.
pub proof fn lemma_grown_end_max(rows: Seq<Row>, avail: int, start: int, end: int)
    requires
        end <= rows.len(),
    ensures
        grown_end(rows, avail, start, end) == rows.len() || heights_sum(
            rows,
            start,
            grown_end(rows, avail, start, end) + 1,
        ) > avail,
    decreases rows.len() - end,
{
    if end < rows.len() && heights_sum(rows, start, end + 1) <= avail {
        lemma_grown_end_max(rows, avail, start, end + 1);
    }
}

/// The greedy window reaches any end whose rows all fit.
pub proof fn lemma_grown_end_reaches(rows: Seq<Row>, avail: int, start: int, end: int, e2: int)
    requires
        start <= end <= e2 <= rows.len(),
        heights_sum(rows, start, e2) <= avail,
    ensures
        grown_end(rows, avail, start, end) >= e2,
    decreases rows.len() - end,
{
    if end < e2 {
        lemma_heights_sum_mono_right(rows, start, end + 1, e2);
        lemma_grown_end_reaches(rows, avail, start, end + 1, e2);
    } else {
        lemma_grown_end_bounds(rows, avail, start, end);
    }
}

/// What `scrolled_start` yields: a top between `st` and `sel` from which
/// the window down to `sel` fits (unless even `[sel, sel]` alone does not),
/// and the least such top — every top skipped would still overflow.
pub proof fn lemma_scrolled_start_props(rows: Seq<Row>, avail: int, st: int, sel: int)
    requires
        st <= sel,
    ensures
        st <= scrolled_start(rows, avail, st, sel) <= sel,
        heights_sum(rows, scrolled_start(rows, avail, st, sel), sel + 1) <= avail
            || scrolled_start(rows, avail, st, sel) == sel,
        forall|st2: int|
            st <= st2 < scrolled_start(rows, avail, st, sel) ==> #[trigger] heights_sum(
                rows,
                st2,
                sel + 1,
            ) > avail,
    decreases sel - st,
{
    if st < sel && heights_sum(rows, st, sel + 1) > avail {
        lemma_scrolled_start_props(rows, avail, st + 1, sel);
    }
}

/// What `pulled_end` yields: a bottom between `sel + 1` and `e` for which
/// the window from `sel` fits (unless even the row `sel` alone does not),
/// and the greatest such bottom — every bottom skipped would overflow.
pub proof fn lemma_pulled_end_props(rows: Seq<Row>, avail: int, sel: int, e: int)
    requires
        sel + 1 <= e,
    ensures
        sel + 1 <= pulled_end(rows, avail, sel, e) <= e,
        heights_sum(rows, sel, pulled_end(rows, avail, sel, e)) <= avail
            || pulled_end(rows, avail, sel, e) == sel + 1,
        forall|e2: int|
            pulled_end(rows, avail, sel, e) < e2 <= e ==> #[trigger] heights_sum(rows, sel, e2)
                > avail,
    decreases e - sel,
{
    if e > sel + 1 && heights_sum(rows, sel, e) > avail {
        lemma_pulled_end_props(rows, avail, sel, e - 1);
    }
}

/// Law: when the selection moves one step below the window's bottom
/// boundary, the window shifts down by the least amount that restores
/// containment. The bottom grows by exactly one row, and the top passes
/// only rows that had to leave for the window to fit again — from any
/// higher top the window down to the selection would still overflow.
///
/// The boundary here is the greedy window anchored at the offset. After a
/// downward scroll the remembered window can end earlier than the greedy
/// one; the calculator then re-grows the bottom past it first, so for a
/// selection one past such a window's end the bottom moves by more than
/// one row, and this law does not cover those inputs.
pub proof fn lemma_monotonic_recovery_below(rows: Seq<Row>, avail: int, offset: int, sel: usize)
    requires
        0 <= offset,
        (sel as int) < rows.len(),
        sel as int == grown_end(
            rows,
            avail,
            clamp_index(offset, rows.len() as int),
            clamp_index(offset, rows.len() as int),
        ),
    ensures
        ({
            let start0 = clamp_index(offset, rows.len() as int);
            let w = computed_window(rows, avail, offset, Some(sel));
            &&& w.1 == sel + 1
            &&& start0 <= w.0 <= sel as int
            &&& (heights_sum(rows, w.0, w.1) <= avail || w.0 == sel as int)
            &&& forall|st: int|
                start0 <= st < w.0 ==> #[trigger] heights_sum(rows, st, w.1) > avail
        }),
{
    let len = rows.len() as int;
    let start0 = clamp_index(offset, len);
    lemma_grown_end_bounds(rows, avail, start0, start0);
    lemma_scrolled_start_props(rows, avail, start0, sel as int);
}

/// Law: when the selection moves one step above the window's top boundary,
/// the window shifts up by the least amount that restores containment. The
/// top moves up by exactly one row, and the bottom sheds only rows that
/// had to leave — any bottom it passed would still overflow from the new
/// top.
pub proof fn lemma_monotonic_recovery_above(rows: Seq<Row>, avail: int, offset: int, sel: usize)
    requires
        0 <= offset,
        clamp_index(offset, rows.len() as int) < rows.len(),
        sel as int == clamp_index(offset, rows.len() as int) - 1,
    ensures
        ({
            let start0 = clamp_index(offset, rows.len() as int);
            let end0 = grown_end(rows, avail, start0, start0);
            let w = computed_window(rows, avail, offset, Some(sel));
            &&& w.0 == sel as int
            &&& sel + 1 <= w.1 <= end0
            &&& (heights_sum(rows, w.0, w.1) <= avail || w.1 == sel + 1)
            &&& forall|e: int| w.1 < e <= end0 ==> #[trigger] heights_sum(rows, sel as int, e) > avail
        }),
{
    let len = rows.len() as int;
    let start0 = clamp_index(offset, len);
    lemma_grown_end_bounds(rows, avail, start0, start0);
    lemma_pulled_end_props(rows, avail, sel as int, grown_end(rows, avail, start0, start0));
}

/// Law (offset stability): running the calculator a second time with
/// unchanged rows, height and selection — feeding it the offset the first
/// run stored — keeps the window top, and so the stored offset, in place.
pub proof fn lemma_compute_offset_stable(
    rows: Seq<Row>,
    avail: int,
    offset: int,
    selected: Option<usize>,
)
    requires
        rows.len() > 0,
        avail > 0,
        0 <= offset,
    ensures
        ({
            let w = computed_window(rows, avail, offset, selected);
            computed_window(rows, avail, w.0, selected).0 == w.0
        }),
{
    let len = rows.len() as int;
    let start0 = clamp_index(offset, len);
    let end0 = grown_end(rows, avail, start0, start0);
    let sel = effective_selected(selected, len);
    lemma_grown_end_bounds(rows, avail, start0, start0);
    if sel >= end0 {
        lemma_scrolled_start_props(rows, avail, start0, sel);
        let ss = scrolled_start(rows, avail, start0, sel);
        if heights_sum(rows, ss, sel + 1) <= avail {
            lemma_grown_end_reaches(rows, avail, ss, ss, sel + 1);
        }
    } else if sel < start0 {
        lemma_pulled_end_props(rows, avail, sel, end0);
        let pe = pulled_end(rows, avail, sel, end0);
        if heights_sum(rows, sel, pe) <= avail {
            lemma_grown_end_reaches(rows, avail, sel, sel, pe);
        }
    }
}

/// Law (idempotence): when the window the first run produced is greedy
/// maximal — its bottom could not grow without overflowing, or it is a
/// single row taller than the rectangle — a second run with unchanged
/// inputs yields the very same window and leaves the offset alone. (After
/// a downward scroll the window can sit strictly inside the height budget;
/// the second run then grows its bottom, so the condition is needed.)
pub proof fn lemma_compute_idempotent(
    rows: Seq<Row>,
    avail: int,
    offset: int,
    selected: Option<usize>,
)
    requires
        rows.len() > 0,
        avail > 0,
        0 <= offset,
        ({
            let w = computed_window(rows, avail, offset, selected);
            grown_end(rows, avail, w.0, w.0) == w.1 || (w.1 == w.0 + 1 && heights_sum(
                rows,
                w.0,
                w.1,
            ) > avail)
        }),
    ensures
        ({
            let w = computed_window(rows, avail, offset, selected);
            computed_window(rows, avail, w.0, selected) == w
        }),
{
    let len = rows.len() as int;
    let start0 = clamp_index(offset, len);
    let end0 = grown_end(rows, avail, start0, start0);
    let sel = effective_selected(selected, len);
    lemma_grown_end_bounds(rows, avail, start0, start0);
    lemma_grown_end_max(rows, avail, start0, start0);
    if sel >= end0 {
        lemma_scrolled_start_props(rows, avail, start0, sel);
        let ss = scrolled_start(rows, avail, start0, sel);
        if heights_sum(rows, ss, sel + 1) <= avail {
            lemma_grown_end_reaches(rows, avail, ss, ss, sel + 1);
        }
    } else if sel < start0 {
        lemma_pulled_end_props(rows, avail, sel, end0);
        let pe = pulled_end(rows, avail, sel, end0);
        if heights_sum(rows, sel, pe) <= avail {
            lemma_grown_end_reaches(rows, avail, sel, sel, pe);
            lemma_grown_end_fits(rows, avail, sel, sel);
            lemma_grown_end_max(rows, avail, sel, sel);
            let e2 = grown_end(rows, avail, sel, sel);
            if e2 > pe {
                if e2 <= end0 {
                    assert(heights_sum(rows, sel, e2) > avail);
                } else {
                    lemma_heights_sum_mono_right(rows, sel, end0 + 1, e2);
                    lemma_heights_sum_mono_left(rows, sel, start0, end0 + 1);
                }
            }
        }
    }
}

/// Pick the window of rows to show inside `available_height` character
/// rows, and remember its top in `state.offset` for the next frame.
///
/// On empty rows or zero height this is a no-op yielding an empty window.
/// Otherwise the window anchored at the previous offset is kept whenever it
/// already shows the (clamped) selected row; else it is shifted just far
/// enough to reveal it. The window's rows always fit into the available
/// height, except that a single row taller than the rectangle is shown
/// alone. The selection itself is never modified here.
///
/// The bound on the total height is a machine limit: the running window
/// height is kept in a `usize`.
#[verifier::loop_isolation(false)]
pub fn compute(rows: &Vec<Row>, available_height: usize, state: &mut ViewportState) -> (window: (
    usize,
    usize,
))
    requires
        heights_sum(rows@, 0, rows@.len() as int) <= usize::MAX,
    ensures
        final(state).selected == old(state).selected,
        rows@.len() == 0 || available_height == 0 ==> window == (0usize, 0usize) && *final(state)
            == *old(state),
        rows@.len() > 0 && available_height > 0 ==> {
            let w = computed_window(
                rows@,
                available_height as int,
                old(state).offset as int,
                old(state).selected,
            );
            let sel = effective_selected(old(state).selected, rows@.len() as int);
            let start0 = clamp_index(old(state).offset as int, rows@.len() as int);
            let end0 = grown_end(rows@, available_height as int, start0, start0);
            &&& window.0 as int == w.0
            &&& window.1 as int == w.1
            &&& final(state).offset == window.0
            &&& window.0 <= sel < window.1 <= rows@.len()
            &&& (heights_sum(rows@, window.0 as int, window.1 as int) <= available_height || (
            window.1 == window.0 + 1 && row_height(rows@[window.0 as int]) > available_height))
            &&& (start0 <= sel < end0 ==> window.0 as int == start0 && window.1 as int == end0)
        },
{
    let len = rows.len();
    if len == 0 || available_height == 0 {
        return (0, 0);
    }
    let ah = available_height;
    let ghost g_ah = ah as int;
    let mut start: usize = if state.offset < len {
        state.offset
    } else {
        len - 1
    };
    let ghost start0 = start as int;
    let ghost end0 = grown_end(rows@, g_ah, start0, start0);
    let mut end: usize = start;
    let mut height: usize = 0;

    proof {
        lemma_grown_end_bounds(rows@, g_ah, start0, start0);
    }

    // The window anchored at the previous offset: grow downward while the
    // next row still fits.
    while end < len && rows[end].height() <= ah - height
        invariant
            start as int == start0,
            start <= end <= len,
            height as int == heights_sum(rows@, start as int, end as int),
            height <= ah,
            grown_end(rows@, g_ah, start0, end as int) == end0,
        decreases len - end,
    {
        proof {
            lemma_heights_sum_unfold_right(rows@, start as int, end as int);
        }
        height = height + rows[end].height();
        end = end + 1;
    }

    proof {
        if end < len {
            lemma_heights_sum_unfold_right(rows@, start as int, end as int);
        }
        assert(end as int == end0);
    }

    let sel: usize = match state.selected {
        Some(i) => if i < len {
            i
        } else {
            len - 1
        },
        None => 0,
    };
    let ghost g_sel = sel as int;
    assert(g_sel == effective_selected(old(state).selected, len as int));

    // The selection fell below the window: grow downward one row at a time,
    // shedding rows from the top while the window overflows (but never the
    // row just added).
    while sel >= end
        invariant
            start0 <= start as int,
            start <= end <= len,
            end0 <= end as int,
            sel < len,
            g_sel < end0 ==> start as int == start0 && end as int == end0,
            g_sel >= end0 ==> end as int <= g_sel + 1 && start as int <= g_sel,
            height as int == heights_sum(rows@, start as int, end as int),
            height <= ah || start + 1 == end,
            scrolled_start(rows@, g_ah, start as int, g_sel) == scrolled_start(
                rows@,
                g_ah,
                start0,
                g_sel,
            ),
        decreases g_sel + 1 - end,
    {
        proof {
            lemma_heights_sum_unfold_right(rows@, start as int, end as int);
            lemma_heights_sum_in_total(rows@, start as int, end as int + 1);
        }
        height = height + rows[end].height();
        end = end + 1;
        while height > ah && start + 1 < end
            invariant
                start0 <= start as int <= g_sel,
                start < end <= len,
                end as int <= g_sel + 1,
                height as int == heights_sum(rows@, start as int, end as int),
                scrolled_start(rows@, g_ah, start as int, g_sel) == scrolled_start(
                    rows@,
                    g_ah,
                    start0,
                    g_sel,
                ),
            decreases end - start,
        {
            proof {
                lemma_heights_sum_nonneg(rows@, start as int + 1, end as int);
                lemma_heights_sum_split(rows@, start as int, end as int, g_sel + 1);
                lemma_heights_sum_nonneg(rows@, end as int, g_sel + 1);
            }
            height = height - rows[start].height();
            start = start + 1;
        }
    }

    let ghost start1 = start as int;
    let ghost end1 = end as int;

    // The selection fell above the window: step the top up to it, shedding
    // rows from the bottom while the window overflows (but never the row
    // the top just reached).
    while sel < start
        invariant
            g_sel <= start as int || (start as int == start1 && end as int == end1),
            g_sel >= start1 ==> start as int == start1 && end as int == end1,
            g_sel < start1 ==> g_sel + 1 <= end as int,
            start <= end <= len,
            start as int <= start1,
            height as int == heights_sum(rows@, start as int, end as int),
            height <= ah || start + 1 == end,
            pulled_end(rows@, g_ah, g_sel, end as int) == pulled_end(rows@, g_ah, g_sel, end1),
        decreases start,
    {
        proof {
            lemma_heights_sum_in_total(rows@, start as int - 1, end as int);
        }
        start = start - 1;
        height = height + rows[start].height();
        while height > ah && start + 1 < end
            invariant
                g_sel <= start as int,
                start < end <= len,
                height as int == heights_sum(rows@, start as int, end as int),
                pulled_end(rows@, g_ah, g_sel, end as int) == pulled_end(
                    rows@,
                    g_ah,
                    g_sel,
                    end1,
                ),
            decreases end,
        {
            proof {
                lemma_heights_sum_unfold_right(rows@, start as int, end as int - 1);
                lemma_heights_sum_nonneg(rows@, start as int, end as int - 1);
                lemma_heights_sum_mono_left(rows@, g_sel, start as int, end as int);
            }
            end = end - 1;
            height = height - rows[end].height();
        }
    }

    proof {
        lemma_heights_sum_unfold_right(rows@, start as int, start as int);
        if g_sel >= end0 {
            assert(end as int == g_sel + 1);
            assert(start as int == scrolled_start(rows@, g_ah, start0, g_sel)) by {
                if start as int == g_sel {
                } else {
                    assert(heights_sum(rows@, start as int, end as int) <= g_ah);
                }
            }
        } else if g_sel < start0 {
            assert(start as int == g_sel);
            assert(end as int == pulled_end(rows@, g_ah, g_sel, end0)) by {
                assert(pulled_end(rows@, g_ah, g_sel, end as int) == end as int);
            }
        } else {
            assert(start as int == start0 && end as int == end0);
        }
    }

    state.offset = start;
    (start, end)
}

} // verus!
