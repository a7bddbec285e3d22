use moveline::Direction;
use moveline::FoldRange;
use moveline::calc_fold;
use moveline::cursor_after;
use moveline::foldclosed;
use moveline::foldclosedend;
use moveline::make_indent;
use moveline::move_line;
use moveline::parser_missing_message;
use moveline::reindent_line;
use moveline::relocate;
use moveline::resolve_target;

fn buf(lines: &[&str]) -> Vec<Vec<u8>> {
    lines.iter().map(|l| l.as_bytes().to_vec()).collect()
}

fn texts(buffer: &[Vec<u8>]) -> Vec<String> {
    buffer
        .iter()
        .map(|l| String::from_utf8(l.clone()).unwrap())
        .collect()
}

#[test]
fn first_line_up_is_no_op() {
    let mut b = buf(&["a", "b", "c"]);
    let orig = b.clone();
    let r = move_line(Direction::Up, &mut b, 1, 5, 1, &vec![], -1, -1, false, 4);
    assert!(!r.moved);
    assert!(!r.parser_missing);
    assert_eq!(b, orig);
    assert_eq!(r.cursor_line, 1);
    assert_eq!(r.cursor_col, 5);
}

#[test]
fn last_line_down_is_no_op() {
    let mut b = buf(&["a", "b", "c"]);
    let orig = b.clone();
    let r = move_line(Direction::Down, &mut b, 3, 0, 1, &vec![], -1, -1, false, 4);
    assert!(!r.moved);
    assert_eq!(b, orig);
    assert_eq!(r.cursor_line, 3);
}

#[test]
fn down_then_up_restores_buffer() {
    let mut b = buf(&["alpha", "beta", "gamma", "delta"]);
    let orig = b.clone();
    let r1 = move_line(Direction::Down, &mut b, 2, 3, 1, &vec![], -1, -1, false, 4);
    assert!(r1.moved);
    assert_ne!(b, orig);
    let r2 = move_line(
        Direction::Up,
        &mut b,
        r1.cursor_line,
        r1.cursor_col,
        1,
        &vec![],
        -1,
        -1,
        false,
        4,
    );
    assert!(r2.moved);
    assert_eq!(b, orig);
    assert_eq!(r2.cursor_line, 2);
}

#[test]
fn count_moves_exactly_n_lines() {
    let mut b = buf(&["1", "2", "3", "4", "5"]);
    let r = move_line(Direction::Down, &mut b, 1, 0, 3, &vec![], -1, -1, false, 4);
    assert_eq!(r.cursor_line, 4);
    assert_eq!(texts(&b), vec!["2", "3", "4", "1", "5"]);
}

#[test]
fn count_past_end_clamps_to_last_line() {
    let mut b = buf(&["1", "2", "3"]);
    let r = move_line(Direction::Down, &mut b, 2, 0, 99, &vec![], -1, -1, false, 4);
    assert_eq!(r.cursor_line, 3);
    assert_eq!(texts(&b), vec!["1", "3", "2"]);
}

#[test]
fn count_past_start_clamps_to_first_line() {
    let mut b = buf(&["1", "2", "3"]);
    let r = move_line(Direction::Up, &mut b, 3, 0, 99, &vec![], -1, -1, false, 4);
    assert_eq!(r.cursor_line, 1);
    assert_eq!(texts(&b), vec!["3", "1", "2"]);
}

#[test]
fn count_zero_means_one() {
    let mut b = buf(&["a", "b", "c"]);
    let r = move_line(Direction::Down, &mut b, 1, 0, 0, &vec![], -1, -1, false, 4);
    assert_eq!(r.cursor_line, 2);
    assert_eq!(texts(&b), vec!["b", "a", "c"]);
}

#[test]
fn move_down_into_fold_lands_on_fold_end() {
    // Lines 3..=5 are a closed fold; moving line 2 down one step jumps past it.
    let mut b = buf(&["a", "b", "f1", "f2", "f3", "c"]);
    let folds = vec![FoldRange { start: 3, end: 5 }];
    let r = move_line(Direction::Down, &mut b, 2, 0, 1, &folds, -1, -1, false, 4);
    assert_eq!(r.cursor_line, 5);
    assert_eq!(texts(&b), vec!["a", "f1", "f2", "f3", "b", "c"]);
}

#[test]
fn move_up_into_fold_lands_on_fold_start() {
    let mut b = buf(&["f1", "f2", "f3", "a", "b"]);
    let folds = vec![FoldRange { start: 1, end: 3 }];
    let r = move_line(Direction::Up, &mut b, 4, 0, 1, &folds, -1, -1, false, 4);
    assert_eq!(r.cursor_line, 1);
    assert_eq!(texts(&b), vec!["a", "f1", "f2", "f3", "b"]);
}

#[test]
fn no_fold_at_target_uses_naive_target() {
    let mut b = buf(&["a", "b", "f1", "f2", "c"]);
    // The fold does not cover the target line 2.
    let folds = vec![FoldRange { start: 3, end: 4 }];
    let r = move_line(Direction::Down, &mut b, 1, 0, 1, &folds, -1, -1, false, 4);
    assert_eq!(r.cursor_line, 2);
    assert_eq!(texts(&b), vec!["b", "a", "f1", "f2", "c"]);
}

#[test]
fn reindent_never_pads_blank_line() {
    let blank = b"   \t  ".to_vec();
    let indent = b"        ".to_vec();
    let r = reindent_line(&blank, &indent);
    assert!(r.is_empty());
}

#[test]
fn reindent_replaces_leading_whitespace() {
    let line = b"\t  code();".to_vec();
    let indent = b"    ".to_vec();
    let r = reindent_line(&line, &indent);
    assert_eq!(r, b"    code();".to_vec());
}

#[test]
fn indent_six_with_tabstop_four_is_tab_plus_two_spaces() {
    let r = make_indent(6, false, 4);
    assert_eq!(r, b"\t  ".to_vec());
}

#[test]
fn indent_with_expandtab_is_all_spaces() {
    let r = make_indent(6, true, 4);
    assert_eq!(r, b"      ".to_vec());
}

#[test]
fn indent_zero_is_empty() {
    assert!(make_indent(0, false, 4).is_empty());
    assert!(make_indent(0, true, 4).is_empty());
}

#[test]
fn indent_exact_tab_multiple_has_no_space_remainder() {
    let r = make_indent(8, false, 4);
    assert_eq!(r, b"\t\t".to_vec());
}

#[test]
fn example_down_moves_line_and_cursor() {
    let mut b = buf(&["a", "b", "c"]);
    let r = move_line(Direction::Down, &mut b, 2, 0, 1, &vec![], -1, -1, false, 4);
    assert!(r.moved);
    assert_eq!(texts(&b), vec!["a", "c", "b"]);
    assert_eq!(r.cursor_line, 3);
}

#[test]
fn example_single_line_up_is_no_op() {
    let mut b = buf(&["x"]);
    let orig = b.clone();
    let r = move_line(Direction::Up, &mut b, 1, 0, 1, &vec![], -1, -1, false, 4);
    assert!(!r.moved);
    assert_eq!(b, orig);
}

#[test]
fn missing_parser_still_moves_but_keeps_whitespace() {
    let mut b = buf(&["fn f() {", "    body();", "}"]);
    let r = move_line(Direction::Down, &mut b, 2, 4, 1, &vec![], -1, -1, true, 4);
    assert!(r.moved);
    assert!(r.parser_missing);
    // The line moved, its leading whitespace untouched.
    assert_eq!(texts(&b), vec!["fn f() {", "}", "    body();"]);
    assert_eq!(r.cursor_line, 3);
    assert_eq!(r.cursor_col, 4);
}

#[test]
fn missing_parser_message_names_filetype() {
    let msg = parser_missing_message("haskell");
    assert_eq!(msg, "treesitter parser for haskell not installed");
}

#[test]
fn reindent_applies_suggested_width() {
    let mut b = buf(&["if x:", "pass", "done"]);
    // Moving "pass" down one line with a suggested indent of 4 columns,
    // spaces only.
    let r = move_line(Direction::Down, &mut b, 2, 0, 1, &vec![], 0, 4, true, 8);
    assert!(r.moved);
    assert!(!r.parser_missing);
    assert_eq!(texts(&b), vec!["if x:", "done", "    pass"]);
    assert_eq!(r.cursor_line, 3);
    assert_eq!(r.cursor_col, 4);
}

#[test]
fn reindent_renders_tabs_when_expandtab_off() {
    let mut b = buf(&["a", "  code", "b"]);
    let r = move_line(Direction::Down, &mut b, 2, 2, 1, &vec![], 2, 6, false, 4);
    assert_eq!(texts(&b), vec!["a", "b", "\t  code"]);
    assert_eq!(r.cursor_col, 6);
}

#[test]
fn cursor_column_clamps_at_zero() {
    // The new indent is narrower than the old one by more than the column.
    assert_eq!(cursor_after(2, 8, 0), 0);
    assert_eq!(cursor_after(10, 8, 0), 2);
    assert_eq!(cursor_after(3, -1, 2), 6);
}

#[test]
fn foldclosed_reports_fold_bounds() {
    let folds = vec![FoldRange { start: 2, end: 4 }, FoldRange { start: 7, end: 9 }];
    assert_eq!(foldclosed(&folds, 3), Some(2));
    assert_eq!(foldclosedend(&folds, 3), Some(4));
    assert_eq!(foldclosed(&folds, 7), Some(7));
    assert_eq!(foldclosedend(&folds, 9), Some(9));
    assert_eq!(foldclosed(&folds, 5), None);
    assert_eq!(foldclosedend(&folds, 1), None);
}

#[test]
fn calc_fold_picks_far_boundary_by_offset_sign() {
    let folds = vec![FoldRange { start: 4, end: 6 }];
    // Moving down (positive offset) onto the fold: its end.
    assert_eq!(calc_fold(&folds, 3, 2), Some(6));
    // Moving up (negative offset) onto the fold: its start.
    assert_eq!(calc_fold(&folds, 7, -2), Some(4));
    // No fold at the arrival line.
    assert_eq!(calc_fold(&folds, 1, 1), None);
}

#[test]
fn resolve_target_clamps_and_respects_folds() {
    let no_folds: Vec<FoldRange> = vec![];
    assert_eq!(resolve_target(Direction::Down, 2, 1, 5, &no_folds), 3);
    assert_eq!(resolve_target(Direction::Down, 2, 100, 5, &no_folds), 5);
    assert_eq!(resolve_target(Direction::Up, 4, 100, 5, &no_folds), 1);
    assert_eq!(resolve_target(Direction::Up, 4, 0, 5, &no_folds), 3);
    let folds = vec![FoldRange { start: 3, end: 5 }];
    assert_eq!(resolve_target(Direction::Down, 2, 1, 6, &folds), 5);
    assert_eq!(resolve_target(Direction::Up, 6, 1, 6, &folds), 3);
}

#[test]
fn relocate_shifts_lines_between() {
    let mut b = buf(&["1", "2", "3", "4"]);
    relocate(&mut b, 1, 4);
    assert_eq!(texts(&b), vec!["2", "3", "4", "1"]);
    relocate(&mut b, 4, 1);
    assert_eq!(texts(&b), vec!["1", "2", "3", "4"]);
}
