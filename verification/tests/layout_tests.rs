use memebot::layout::layout_positions;
use memebot::layout::split_lines;

#[test]
fn lines_split_on_newlines_only() {
    assert_eq!(split_lines("a\nb"), vec!["a", "b"]);
    assert_eq!(split_lines("one line"), vec!["one line"]);
}

#[test]
fn a_carriage_return_before_the_newline_is_dropped() {
    assert_eq!(split_lines("a\r\nb"), vec!["a", "b"]);
    assert_eq!(split_lines("a\r"), vec!["a\r"]);
}

#[test]
fn a_trailing_newline_adds_no_empty_line() {
    assert_eq!(split_lines("a\n"), vec!["a"]);
    assert_eq!(split_lines("\n"), vec![""]);
    assert_eq!(split_lines(""), Vec::<String>::new());
}

#[test]
fn empty_interior_lines_are_kept() {
    assert_eq!(split_lines("a\n\nb"), vec!["a", "", "b"]);
}

#[test]
fn a_line_is_centered_by_half_its_width() {
    let pos = layout_positions(&vec![100], 20, 400, 200);
    assert_eq!(pos[0].0, 350);
    let pos = layout_positions(&vec![101], 20, 400, 200);
    assert_eq!(pos[0].0, 350);
}

#[test]
fn a_two_line_block_starts_one_line_height_above_the_center() {
    let pos = layout_positions(&vec![60, 80], 20, 400, 200);
    assert_eq!(pos.len(), 2);
    assert_eq!(pos[0].1, 180);
    assert_eq!(pos[1].1, 200);
}

#[test]
fn an_empty_block_has_no_positions() {
    assert!(layout_positions(&vec![], 20, 400, 200).is_empty());
}

#[test]
fn an_odd_line_count_centers_by_floor_division() {
    let pos = layout_positions(&vec![10, 10, 10], 21, 100, 100);
    assert_eq!(pos[0].1, 100 - (21 * 3) / 2);
    assert_eq!(pos[1].1, pos[0].1 + 21);
    assert_eq!(pos[2].1, pos[1].1 + 21);
}
