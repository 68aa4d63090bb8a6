use listpane::dialog::FileDialog;

fn names(items: &[&str]) -> Vec<String> {
    items.iter().map(|s| s.to_string()).collect()
}

fn dialog_at(location: &[&str], dirs: &[&str]) -> FileDialog {
    let mut d = FileDialog::new(String::from("Open"), names(location), false);
    let r = d.selection_changed(Ok(names(dirs)), None);
    assert!(r.is_ok());
    d
}

#[test]
fn new_dialog_is_empty() {
    let d = FileDialog::new(String::from("Open"), names(&["home", "me"]), true);
    assert_eq!(d.title, "Open");
    assert_eq!(d.location, names(&["home", "me"]));
    assert!(d.selection.is_none());
    assert!(d.dirs.is_empty());
    assert!(d.error_message.is_none());
    assert!(d.color);
    assert_eq!(d.state.offset, 0);
    assert_eq!(d.state.selected, None);
}

#[test]
fn listing_selects_the_first_entry() {
    let d = dialog_at(&["a"], &["x", "y", "z"]);
    assert_eq!(d.dirs, names(&["x", "y", "z"]));
    assert_eq!(d.state.selected, Some(0));
    assert!(d.error_message.is_none());
}

#[test]
fn empty_listing_clears_the_selection() {
    let mut d = dialog_at(&["a"], &["x"]);
    let r = d.selection_changed(Ok(Vec::new()), None);
    assert!(r.is_ok());
    assert!(d.dirs.is_empty());
    assert_eq!(d.state.selected, None);
}

#[test]
fn failed_listing_stores_the_message_and_empties_the_list() {
    let mut d = dialog_at(&["a"], &["x", "y"]);
    let r = d.selection_changed(Err(String::from("permission denied")), None);
    assert_eq!(r, Err(String::from("permission denied")));
    assert_eq!(d.error_message, Some(String::from("permission denied")));
    assert!(d.dirs.is_empty());
    assert_eq!(d.state.selected, None);
    assert_eq!(d.location, names(&["a"]));
}

#[test]
fn dismiss_error_forgets_the_message() {
    let mut d = dialog_at(&["a"], &["x"]);
    let _ = d.selection_changed(Err(String::from("gone")), None);
    d.dismiss_error();
    assert!(d.error_message.is_none());
}

#[test]
fn fwd_saturates_at_the_last_entry() {
    let mut d = dialog_at(&["a"], &["x", "y", "z"]);
    d.fwd(1);
    assert_eq!(d.state.selected, Some(1));
    d.fwd(10);
    assert_eq!(d.state.selected, Some(2));
}

#[test]
fn bwd_saturates_at_the_first_entry() {
    let mut d = dialog_at(&["a"], &["x", "y", "z"]);
    d.fwd(2);
    d.bwd(1);
    assert_eq!(d.state.selected, Some(1));
    d.bwd(10);
    assert_eq!(d.state.selected, Some(0));
}

#[test]
fn moves_are_no_ops_on_an_empty_listing() {
    let mut d = dialog_at(&["a"], &[]);
    d.fwd(1);
    assert_eq!(d.state.selected, None);
    d.bwd(1);
    assert_eq!(d.state.selected, None);
}

#[test]
fn shift_steps_by_ten() {
    let mut d = dialog_at(&["a"], &["a", "b", "c", "d", "e", "f", "g", "h", "i", "j", "k", "l"]);
    d.on_down(true);
    assert_eq!(d.state.selected, Some(10));
    d.on_up(false);
    assert_eq!(d.state.selected, Some(9));
    d.on_up(true);
    assert_eq!(d.state.selected, Some(0));
    d.on_down(false);
    assert_eq!(d.state.selected, Some(1));
}

#[test]
fn go_parent_restores_the_child_just_left() {
    let mut d = dialog_at(&["a", "b"], &[]);
    let r = d.on_left(Ok(names(&["x", "b", "c"])));
    assert!(r.is_ok());
    assert_eq!(d.location, names(&["a"]));
    assert_eq!(d.dirs, names(&["x", "b", "c"]));
    assert_eq!(d.state.selected, Some(1));
}

#[test]
fn go_parent_falls_back_to_the_first_entry() {
    let mut d = dialog_at(&["a", "gone"], &[]);
    let r = d.on_left(Ok(names(&["x", "y"])));
    assert!(r.is_ok());
    assert_eq!(d.location, names(&["a"]));
    assert_eq!(d.state.selected, Some(0));
}

#[test]
fn go_parent_at_the_root_is_a_no_op() {
    let mut d = dialog_at(&[], &["x"]);
    let r = d.on_left(Ok(names(&["ignored"])));
    assert!(r.is_ok());
    assert!(d.location.is_empty());
    assert_eq!(d.dirs, names(&["x"]));
}

#[test]
fn enter_child_extends_the_location_even_when_listing_fails() {
    let mut d = dialog_at(&["a"], &["sub", "other"]);
    d.fwd(1);
    let r = d.on_right(Err(String::from("not found")));
    assert_eq!(r, Err(String::from("not found")));
    assert_eq!(d.location, names(&["a", "other"]));
    assert!(d.dirs.is_empty());
    assert_eq!(d.state.selected, None);
    assert_eq!(d.error_message, Some(String::from("not found")));
}

#[test]
fn enter_child_adopts_the_new_listing() {
    let mut d = dialog_at(&["a"], &["sub"]);
    let r = d.on_right(Ok(names(&["inner1", "inner2"])));
    assert!(r.is_ok());
    assert_eq!(d.location, names(&["a", "sub"]));
    assert_eq!(d.dirs, names(&["inner1", "inner2"]));
    assert_eq!(d.state.selected, Some(0));
}

#[test]
fn enter_child_without_a_selection_is_a_no_op() {
    let mut d = dialog_at(&["a"], &[]);
    let r = d.on_right(Ok(names(&["ignored"])));
    assert!(r.is_ok());
    assert_eq!(d.location, names(&["a"]));
    assert!(d.dirs.is_empty());
}

#[test]
fn confirm_records_the_chosen_path_without_moving() {
    let mut d = dialog_at(&["a"], &["x", "y"]);
    d.fwd(1);
    d.on_enter();
    assert_eq!(d.selection, Some(names(&["a", "y"])));
    assert_eq!(d.location, names(&["a"]));
    assert_eq!(d.dirs, names(&["x", "y"]));
}

#[test]
fn confirm_without_a_selection_is_a_no_op() {
    let mut d = dialog_at(&["a"], &[]);
    d.on_enter();
    assert!(d.selection.is_none());
}
