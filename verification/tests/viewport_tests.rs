use listpane::row::Row;
use listpane::style::Style;
use listpane::viewport::{compute, ViewportState};

fn rows_of_heights(heights: &[usize]) -> Vec<Row> {
    heights
        .iter()
        .map(|h| {
            let mut lines = Vec::new();
            for k in 0..*h {
                lines.push(format!("line {}", k));
            }
            Row::new(lines, Style::plain())
        })
        .collect()
}

#[test]
fn five_unit_rows_selection_jumps_to_the_end() {
    let rows = rows_of_heights(&[1, 1, 1, 1, 1]);
    let mut state = ViewportState { offset: 0, selected: Some(0) };
    let w = compute(&rows, 3, &mut state);
    assert_eq!(w, (0, 3));
    assert_eq!(state.offset, 0);

    state.select(Some(4));
    let w = compute(&rows, 3, &mut state);
    assert_eq!(w, (2, 5));
    assert_eq!(state.offset, 2);
}

#[test]
fn empty_rows_yield_an_empty_window() {
    let rows: Vec<Row> = Vec::new();
    let mut state = ViewportState { offset: 0, selected: None };
    let w = compute(&rows, 3, &mut state);
    assert_eq!(w, (0, 0));
    assert_eq!(state.selected, None);
    assert_eq!(state.offset, 0);
}

#[test]
fn zero_height_yields_an_empty_window() {
    let rows = rows_of_heights(&[1, 1]);
    let mut state = ViewportState { offset: 1, selected: Some(1) };
    let w = compute(&rows, 0, &mut state);
    assert_eq!(w, (0, 0));
    assert_eq!(state.offset, 1);
    assert_eq!(state.selected, Some(1));
}

#[test]
fn oversized_row_is_shown_alone() {
    let rows = rows_of_heights(&[10]);
    let mut state = ViewportState { offset: 0, selected: Some(0) };
    let w = compute(&rows, 3, &mut state);
    assert_eq!(w, (0, 1));
    assert_eq!(state.offset, 0);
}

#[test]
fn oversized_row_among_others_is_shown_alone() {
    let rows = rows_of_heights(&[1, 10, 1]);
    let mut state = ViewportState { offset: 0, selected: Some(1) };
    let w = compute(&rows, 3, &mut state);
    assert_eq!(w, (1, 2));
    assert_eq!(state.offset, 1);
}

#[test]
fn window_stays_put_while_selection_is_inside() {
    let rows = rows_of_heights(&[1, 1, 1, 1, 1]);
    let mut state = ViewportState { offset: 1, selected: Some(2) };
    let w = compute(&rows, 3, &mut state);
    assert_eq!(w, (1, 4));
    assert_eq!(state.offset, 1);
}

#[test]
fn one_step_below_scrolls_by_one() {
    let rows = rows_of_heights(&[1, 1, 1, 1, 1]);
    let mut state = ViewportState { offset: 0, selected: Some(3) };
    let w = compute(&rows, 3, &mut state);
    assert_eq!(w, (1, 4));
    assert_eq!(state.offset, 1);
}

#[test]
fn one_step_above_scrolls_by_one() {
    let rows = rows_of_heights(&[1, 1, 1, 1, 1]);
    let mut state = ViewportState { offset: 2, selected: Some(1) };
    let w = compute(&rows, 3, &mut state);
    assert_eq!(w, (1, 4));
    assert_eq!(state.offset, 1);
}

#[test]
fn varying_heights_fit_within_the_budget() {
    let rows = rows_of_heights(&[2, 1, 1, 3]);
    let mut state = ViewportState { offset: 0, selected: Some(2) };
    let w = compute(&rows, 3, &mut state);
    assert_eq!(w, (1, 3));
    assert_eq!(state.offset, 1);
    let total: usize = (w.0..w.1).map(|i| rows[i].height()).sum();
    assert!(total <= 3);
}

#[test]
fn repeated_compute_is_stable_when_nothing_scrolled() {
    let rows = rows_of_heights(&[1, 1, 1, 1, 1]);
    let mut state = ViewportState { offset: 1, selected: Some(2) };
    let first = compute(&rows, 3, &mut state);
    let second = compute(&rows, 3, &mut state);
    assert_eq!(first, second);
    assert_eq!(state.offset, 1);
}

#[test]
fn repeated_compute_keeps_the_offset_after_a_scroll() {
    // After scrolling down past a tall top row the first window stops right
    // at the selection; the second call grows the bottom but keeps the top.
    let rows = rows_of_heights(&[3, 1, 1, 1]);
    let mut state = ViewportState { offset: 0, selected: Some(1) };
    let first = compute(&rows, 3, &mut state);
    assert_eq!(first, (1, 2));
    assert_eq!(state.offset, 1);
    let second = compute(&rows, 3, &mut state);
    assert_eq!(second, (1, 4));
    assert_eq!(state.offset, 1);
}

#[test]
fn stale_selection_is_clamped_to_the_last_row() {
    let rows = rows_of_heights(&[1, 1, 1]);
    let mut state = ViewportState { offset: 0, selected: Some(9) };
    let w = compute(&rows, 2, &mut state);
    assert_eq!(w, (1, 3));
    assert_eq!(state.offset, 1);
    assert_eq!(state.selected, Some(9));
}

#[test]
fn no_selection_anchors_at_the_first_row() {
    let rows = rows_of_heights(&[1, 1, 1, 1, 1]);
    let mut state = ViewportState { offset: 3, selected: None };
    let w = compute(&rows, 3, &mut state);
    assert_eq!(w, (0, 3));
    assert_eq!(state.offset, 0);
    assert_eq!(state.selected, None);
}

#[test]
fn stale_offset_is_clamped_into_range() {
    let rows = rows_of_heights(&[1, 1, 1]);
    let mut state = ViewportState { offset: 50, selected: Some(2) };
    let w = compute(&rows, 2, &mut state);
    assert_eq!(w, (2, 3));
    assert_eq!(state.offset, 2);
}

#[test]
fn zero_height_rows_take_a_slot_for_free() {
    let rows = rows_of_heights(&[0, 0, 1, 1, 1]);
    let mut state = ViewportState { offset: 0, selected: None };
    let w = compute(&rows, 2, &mut state);
    assert_eq!(w, (0, 4));
    assert_eq!(state.offset, 0);
}

#[test]
fn repeated_compute_is_stable_after_scrolling_up() {
    let rows = rows_of_heights(&[1, 1, 1, 1, 1]);
    let mut state = ViewportState { offset: 2, selected: Some(0) };
    let first = compute(&rows, 3, &mut state);
    assert_eq!(first, (0, 3));
    assert_eq!(state.offset, 0);
    let second = compute(&rows, 3, &mut state);
    assert_eq!(second, (0, 3));
    assert_eq!(state.offset, 0);
}
