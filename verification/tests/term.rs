use diraloguer::TrackedTerm;

#[test]
fn it_works() {}

#[test]
fn write_line_splits_multi_line_strings() {
    let mut term = TrackedTerm::new();
    let out = term.write_line("one\ntwo\r\nthree");
    assert_eq!(out, vec!["one".to_string(), "two".to_string(), "three".to_string()]);
    assert_eq!(term.lines_written(), 3);
    assert_eq!(term.net_up_displacement(), 0);
}

#[test]
fn write_line_of_empty_string_emits_nothing() {
    let mut term = TrackedTerm::new();
    let out = term.write_line("");
    assert!(out.is_empty());
    assert_eq!(term.lines_written(), 0);
}

#[test]
fn write_line_keeps_lone_carriage_return() {
    let mut term = TrackedTerm::new();
    let out = term.write_line("a\rb\nc");
    assert_eq!(out, vec!["a\rb".to_string(), "c".to_string()]);
    assert_eq!(term.lines_written(), 2);
}

#[test]
fn write_line_with_trailing_newline_opens_no_extra_line() {
    let mut term = TrackedTerm::new();
    let out = term.write_line("alpha\nbeta\n");
    assert_eq!(out, vec!["alpha".to_string(), "beta".to_string()]);
    assert_eq!(term.lines_written(), 2);
}

#[test]
fn line_break_emits_one_empty_line() {
    let mut term = TrackedTerm::new();
    let out = term.line_break();
    assert_eq!(out, vec![String::new()]);
    assert_eq!(term.lines_written(), 1);
}

#[test]
fn writes_then_reset_erase_count_plus_one() {
    let mut term = TrackedTerm::new();
    term.write_line("one\ntwo");
    term.line_break();
    term.write_line("four");
    assert_eq!(term.lines_written(), 4);
    let act = term.reset();
    assert_eq!(act.move_down, 0);
    assert_eq!(act.erase, 5);
    assert_eq!(term.lines_written(), 0);
    assert_eq!(term.net_up_displacement(), 0);
}

#[test]
fn reset_consumes_displacement_first() {
    let mut term = TrackedTerm::new();
    term.write_line("a\nb\nc");
    term.move_cursor_up(2);
    let act = term.reset();
    assert_eq!(act.move_down, 2);
    assert_eq!(act.erase, 4);
    assert_eq!(term.lines_written(), 0);
    assert_eq!(term.net_up_displacement(), 0);
}

#[test]
fn clear_last_lines_clamps_to_visible_remainder() {
    let mut term = TrackedTerm::new();
    term.write_line("a\nb\nc");
    term.move_cursor_up(2);
    let erased = term.clear_last_lines(5);
    assert_eq!(erased, 1);
    assert_eq!(term.lines_written(), 3);
    assert_eq!(term.net_up_displacement(), 3);
}

#[test]
fn clear_last_lines_within_visible_region() {
    let mut term = TrackedTerm::new();
    term.write_line("a\nb\nc\nd");
    let erased = term.clear_last_lines(2);
    assert_eq!(erased, 2);
    assert_eq!(term.lines_written(), 4);
    assert_eq!(term.net_up_displacement(), 2);
}

#[test]
fn clear_on_fresh_tracker_erases_nothing() {
    let mut term = TrackedTerm::new();
    let erased = term.clear_last_lines(7);
    assert_eq!(erased, 0);
    assert_eq!(term.lines_written(), 0);
    assert_eq!(term.net_up_displacement(), 0);
}

#[test]
fn cursor_up_then_down_restores_displacement() {
    let mut term = TrackedTerm::new();
    term.write_line("a\nb\nc\nd\ne");
    term.move_cursor_up(1);
    let before = term.net_up_displacement();
    let moved = term.move_cursor_up(3);
    assert_eq!(moved, 3);
    term.move_cursor_down(3);
    assert_eq!(term.net_up_displacement(), before);
    assert_eq!(term.lines_written(), 5);
}

#[test]
fn cursor_up_clamps_at_top_of_page() {
    let mut term = TrackedTerm::new();
    term.write_line("a\nb");
    let moved = term.move_cursor_up(9);
    assert_eq!(moved, 2);
    assert_eq!(term.net_up_displacement(), 2);
    assert_eq!(term.lines_written(), 2);
}

#[test]
fn cursor_down_past_page_counts_new_lines() {
    let mut term = TrackedTerm::new();
    term.write_line("a");
    term.move_cursor_down(3);
    assert_eq!(term.lines_written(), 4);
    assert_eq!(term.net_up_displacement(), 0);
}
