use listpane::buffer::{Buffer, Rect};
use listpane::render::{Block, Corner, FileList};
use listpane::row::Row;
use listpane::style::Style;
use listpane::viewport::ViewportState;

fn styled(fg: u8) -> Style {
    Style { fg: Some(fg), bg: None }
}

fn row(text: &str) -> Row {
    Row::new(vec![text.to_string()], Style::plain())
}

fn row_text(buf: &Buffer, y: usize) -> String {
    let mut line = String::new();
    for x in 0..buf.width {
        line.push(buf.get(x, y).symbol);
    }
    line
}

#[test]
fn fresh_buffer_is_blank() {
    let buf = Buffer::new(4, 3);
    assert_eq!(buf.width, 4);
    assert_eq!(buf.height, 3);
    for y in 0..3 {
        for x in 0..4 {
            let c = buf.get(x, y);
            assert_eq!(c.symbol, ' ');
            assert_eq!(c.style.fg, None);
            assert_eq!(c.style.bg, None);
        }
    }
}

#[test]
fn put_changes_one_cell_only() {
    let mut buf = Buffer::new(3, 2);
    buf.put(1, 1, 'q', styled(4));
    assert_eq!(buf.get(1, 1).symbol, 'q');
    assert_eq!(buf.get(1, 1).style.fg, Some(4));
    assert_eq!(buf.get(0, 0).symbol, ' ');
    assert_eq!(buf.get(2, 1).symbol, ' ');
}

#[test]
fn patch_keeps_unset_fields() {
    let base = Style { fg: Some(1), bg: Some(2) };
    let over = Style { fg: Some(7), bg: None };
    let merged = base.patch(over);
    assert_eq!(merged.fg, Some(7));
    assert_eq!(merged.bg, Some(2));
}

#[test]
fn selected_row_carries_the_symbol_and_others_its_blank() {
    let rows = vec![row("aa"), row("bb"), row("cc")];
    let list = FileList::new(rows).highlight_symbol(String::from("> "));
    let mut buf = Buffer::new(6, 3);
    let mut state = ViewportState { offset: 0, selected: Some(1) };
    list.render(Rect::new(0, 0, 6, 3), &mut buf, &mut state);
    // The blank placeholder is as wide as the symbol, so text columns line up.
    assert_eq!(row_text(&buf, 0), "  aa  ");
    assert_eq!(row_text(&buf, 1), "> bb  ");
    assert_eq!(row_text(&buf, 2), "  cc  ");
    assert_eq!(state.offset, 0);
    assert_eq!(state.selected, Some(1));
}

#[test]
fn highlight_style_overlays_the_selected_row() {
    let rows = vec![row("aa"), row("bb")];
    let list = FileList::new(rows)
        .highlight_symbol(String::from(">"))
        .highlight_style(styled(5));
    let mut buf = Buffer::new(4, 2);
    let mut state = ViewportState { offset: 0, selected: Some(1) };
    list.render(Rect::new(0, 0, 4, 2), &mut buf, &mut state);
    assert_eq!(buf.get(0, 0).style.fg, None);
    assert_eq!(buf.get(0, 1).style.fg, Some(5));
    assert_eq!(buf.get(3, 1).style.fg, Some(5));
}

#[test]
fn nothing_is_painted_outside_the_area() {
    let mut buf = Buffer::new(6, 4);
    buf.put(0, 3, 'Z', styled(9));
    buf.put(5, 2, 'Q', styled(9));
    let rows = vec![row("xxxxxxxxxx"), row("yyyyyyyyyy"), row("zzzzzzzzzz")];
    let list = FileList::new(rows).highlight_symbol(String::from("> "));
    let mut state = ViewportState { offset: 0, selected: Some(2) };
    list.render(Rect::new(0, 0, 5, 3), &mut buf, &mut state);
    assert_eq!(buf.get(0, 3).symbol, 'Z');
    assert_eq!(buf.get(5, 2).symbol, 'Q');
    // Inside the area the text was clipped at the right edge.
    assert_eq!(row_text(&buf, 0), "  xxx ");
    assert_eq!(row_text(&buf, 2), "> zzzQ");
}

#[test]
fn bottom_corner_lays_rows_out_upward() {
    let rows = vec![row("first"), row("second")];
    let list = FileList::new(rows).start_corner(Corner::BottomLeft);
    let mut buf = Buffer::new(6, 3);
    let mut state = ViewportState { offset: 0, selected: None };
    list.render(Rect::new(0, 0, 6, 3), &mut buf, &mut state);
    assert_eq!(row_text(&buf, 2), "first ");
    assert_eq!(row_text(&buf, 1), "second");
    assert_eq!(row_text(&buf, 0), "      ");
}

#[test]
fn a_block_insets_the_list_by_one_cell() {
    let rows = vec![row("ab"), row("cd")];
    let list = FileList::new(rows).block(Block::new(true));
    let mut buf = Buffer::new(6, 4);
    let mut state = ViewportState { offset: 0, selected: None };
    list.render(Rect::new(0, 0, 6, 4), &mut buf, &mut state);
    assert_eq!(buf.get(1, 1).symbol, 'a');
    assert_eq!(buf.get(2, 1).symbol, 'b');
    assert_eq!(buf.get(1, 2).symbol, 'c');
    assert_eq!(buf.get(0, 0).symbol, ' ');
}

#[test]
fn a_multi_line_row_paints_every_line() {
    let tall = Row::new(vec![String::from("one"), String::from("two")], Style::plain());
    let rows = vec![tall, row("three")];
    let list = FileList::new(rows).highlight_symbol(String::from("*"));
    let mut buf = Buffer::new(6, 3);
    let mut state = ViewportState { offset: 0, selected: Some(0) };
    list.render(Rect::new(0, 0, 6, 3), &mut buf, &mut state);
    assert_eq!(row_text(&buf, 0), "*one  ");
    assert_eq!(row_text(&buf, 1), " two  ");
    assert_eq!(row_text(&buf, 2), " three");
}

#[test]
fn base_style_covers_the_whole_area() {
    let rows = vec![row("x")];
    let list = FileList::new(rows).style(Style { fg: None, bg: Some(3) });
    let mut buf = Buffer::new(3, 2);
    let mut state = ViewportState { offset: 0, selected: None };
    list.render(Rect::new(0, 0, 3, 2), &mut buf, &mut state);
    assert_eq!(buf.get(2, 1).style.bg, Some(3));
    assert_eq!(buf.get(0, 0).style.bg, Some(3));
}

#[test]
fn degenerate_area_paints_nothing_and_keeps_the_state() {
    let rows = vec![row("x")];
    let list = FileList::new(rows);
    let mut buf = Buffer::new(3, 2);
    let mut state = ViewportState { offset: 7, selected: Some(0) };
    list.render(Rect::new(0, 0, 0, 0), &mut buf, &mut state);
    assert_eq!(state.offset, 7);
    assert_eq!(row_text(&buf, 0), "   ");
}

#[test]
fn oversized_row_is_clipped_at_the_bottom_edge() {
    let tall = Row::new(
        vec![
            String::from("l0"),
            String::from("l1"),
            String::from("l2"),
            String::from("l3"),
        ],
        Style::plain(),
    );
    let list = FileList::new(vec![tall]);
    let mut buf = Buffer::new(3, 3);
    let mut state = ViewportState { offset: 0, selected: Some(0) };
    list.render(Rect::new(0, 0, 3, 3), &mut buf, &mut state);
    assert_eq!(row_text(&buf, 0), "l0 ");
    assert_eq!(row_text(&buf, 1), "l1 ");
    assert_eq!(row_text(&buf, 2), "l2 ");
    assert_eq!(state.offset, 0);
}

#[test]
fn stateless_render_starts_at_the_top_with_no_highlight() {
    let rows = vec![row("aa"), row("bb"), row("cc")];
    let list = FileList::new(rows).highlight_symbol(String::from("> "));
    let mut buf = Buffer::new(6, 2);
    list.render_stateless(Rect::new(0, 0, 6, 2), &mut buf);
    assert_eq!(row_text(&buf, 0), "  aa  ");
    assert_eq!(row_text(&buf, 1), "  bb  ");
}
