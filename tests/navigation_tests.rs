use gli_editor::error::GliError;
use gli_editor::file_reader::FileContext;
use gli_editor::view_state::{JumpOutcome, PreviewContent, ViewState};

fn numbered(n: usize) -> FileContext {
    let mut text = String::new();
    for i in 1..=n {
        text.push_str(&format!("file{}.rs:rule:{}\n", i, i));
    }
    FileContext::load("f".to_string(), &text, 0)
}

fn window(v: &ViewState) -> (usize, usize) {
    (v.visible_range.start_line, v.visible_range.end_line)
}

fn window_numbers(v: &ViewState) -> Vec<usize> {
    v.visible_range.entries.iter().map(|l| l.line_number).collect()
}

#[test]
fn new_view_starts_at_window_start() {
    let v = ViewState::new(numbered(20), 5, 9).unwrap();
    assert_eq!(v.current_line, 5);
    assert_eq!(window_numbers(&v), vec![5, 6, 7, 8, 9]);
    assert_eq!(v.scroll_offset, 0);
    assert_eq!(ViewState::new(numbered(20), 5, 30).err(), Some(GliError::LineOutOfBounds(30, 20)));
    assert_eq!(
        ViewState::new(numbered(20), 9, 5).err(),
        Some(GliError::InvalidArguments("Start line 9 cannot be greater than end line 5".to_string()))
    );
    assert_eq!(
        ViewState::new(numbered(20), 0, 5).err(),
        Some(GliError::InvalidArguments("Line numbers must be >= 1".to_string()))
    );
    let empty = ViewState::new(numbered(0), 0, 0).unwrap();
    assert_eq!(empty.current_line, 0);
}

#[test]
fn scroll_up_three_times_stays_clamped_at_top() {
    let mut v = ViewState::new(numbered(100), 1, 11).unwrap();
    v.current_line = 5;
    v.scroll_up();
    v.scroll_up();
    v.scroll_up();
    assert_eq!(v.current_line, 2);
    assert_eq!(window(&v), (1, 11));
}

#[test]
fn scroll_up_shifts_window_near_its_top() {
    let mut v = ViewState::new(numbered(100), 20, 30).unwrap();
    v.current_line = 22;
    v.scroll_up();
    assert_eq!(v.current_line, 21);
    assert_eq!(window(&v), (19, 29));
    assert_eq!(v.scroll_offset, 18);
}

#[test]
fn scroll_down_shifts_window_near_its_bottom() {
    let mut v = ViewState::new(numbered(100), 1, 11).unwrap();
    v.current_line = 8;
    v.scroll_down();
    assert_eq!(v.current_line, 9);
    assert_eq!(window(&v), (2, 12));
    assert_eq!(window_numbers(&v).len(), 11);
}

#[test]
fn scroll_down_stops_at_last_line() {
    let mut v = ViewState::new(numbered(5), 1, 5).unwrap();
    v.current_line = 5;
    v.scroll_down();
    assert_eq!(v.current_line, 5);
    assert_eq!(window(&v), (1, 5));
}

#[test]
fn page_down_and_up() {
    let mut v = ViewState::new(numbered(100), 1, 11).unwrap();
    v.page_down();
    assert_eq!(window(&v), (11, 21));
    assert_eq!(v.current_line, 11);
    v.page_up();
    assert_eq!(window(&v), (1, 11));
    assert_eq!(v.current_line, 1);
    let mut w = ViewState::new(numbered(100), 85, 95).unwrap();
    w.page_down();
    assert_eq!(window(&w), (90, 100));
}

#[test]
fn jump_to_top_and_bottom() {
    let mut v = ViewState::new(numbered(100), 40, 50).unwrap();
    v.jump_to_bottom();
    assert_eq!(window(&v), (91, 100));
    assert_eq!(v.current_line, 100);
    v.jump_to_top();
    assert_eq!(window(&v), (1, 10));
    assert_eq!(v.current_line, 1);
}

#[test]
fn jump_to_bottom_with_single_line_window() {
    let mut v = ViewState::new(numbered(10), 3, 3).unwrap();
    v.jump_to_bottom();
    assert_eq!(window(&v), (10, 10));
}

#[test]
fn jump_to_line_centres_the_window() {
    let mut v = ViewState::new(numbered(100), 1, 11).unwrap();
    assert_eq!(v.jump_to_line(50), JumpOutcome::Jumped(50));
    assert_eq!(window(&v), (45, 55));
    assert_eq!(v.current_line, 50);
    assert_eq!(v.jump_to_line(98), JumpOutcome::Jumped(98));
    assert_eq!(window(&v), (93, 100));
}

#[test]
fn jump_to_line_zero_only_reports() {
    let mut v = ViewState::new(numbered(100), 20, 30).unwrap();
    v.current_line = 25;
    assert_eq!(v.jump_to_line(0), JumpOutcome::InvalidLine(0));
    assert_eq!(v.jump_to_line(101), JumpOutcome::InvalidLine(101));
    assert_eq!(window(&v), (20, 30));
    assert_eq!(v.current_line, 25);
}

#[test]
fn empty_file_navigation_moves_nothing() {
    let mut v = ViewState::new(numbered(0), 0, 0).unwrap();
    v.scroll_up();
    v.scroll_down();
    v.page_up();
    v.page_down();
    v.jump_to_top();
    v.jump_to_bottom();
    v.adjust_viewport_to_screen(40);
    assert_eq!(window(&v), (0, 0));
    assert_eq!(v.current_line, 0);
}

#[test]
fn viewport_fits_the_screen() {
    let mut v = ViewState::new(numbered(100), 1, 11).unwrap();
    v.current_line = 50;
    v.adjust_viewport_to_screen(23);
    assert_eq!(window(&v), (40, 59));
    v.adjust_viewport_to_screen(3);
    assert_eq!(window(&v), (40, 59));
}

#[test]
fn preview_follows_fingerprint_line() {
    let mut v = ViewState::new(numbered(30), 1, 10).unwrap();
    v.current_line = 25;
    assert_eq!(v.preview_target(), Some(("file25.rs".to_string(), 25)));
    let lines: Vec<String> = (1..=40).map(|i| format!("line {}", i)).collect();
    v.update_preview(Some(lines));
    let p = v.preview_content.clone().unwrap();
    assert_eq!(p.file_path, "file25.rs");
    assert_eq!(p.target_line, 25);
    assert_eq!(p.start_line, 15);
    assert_eq!(p.lines.len(), 21);
    assert_eq!(p.lines[0], "line 15");
    v.update_preview(None);
    assert!(v.preview_content.is_none());
    v.preview_enabled = false;
    assert_eq!(v.preview_target(), None);
}

#[test]
fn preview_clamps_target_to_file() {
    let p = PreviewContent::from_lines("x".to_string(), 50, vec!["a".to_string(), "b".to_string(), "c".to_string()]).unwrap();
    assert_eq!(p.target_line, 3);
    assert_eq!(p.start_line, 1);
    assert_eq!(p.lines, vec!["a", "b", "c"]);
    assert!(PreviewContent::from_lines("x".to_string(), 1, Vec::new()).is_none());
}

#[test]
fn commit_line_edit_refreshes_the_window() {
    let mut v = ViewState::new(numbered(10), 2, 4).unwrap();
    v.commit_line_edit(3, "# edited".to_string()).unwrap();
    assert_eq!(v.visible_range.entries[1].content, "# edited");
    assert_eq!(v.file_context.lines[2].content, "# edited");
    assert_eq!(window(&v), (2, 4));
    assert!(v.commit_line_edit(11, "x".to_string()).is_err());
}

#[test]
fn scroll_offset_follows_window_moves() {
    let mut v = ViewState::new(numbered(100), 5, 15).unwrap();
    assert_eq!(v.scroll_offset, 0);
    v.page_down();
    assert_eq!(v.scroll_offset, 14);
    v.commit_line_edit(16, "# x".to_string()).unwrap();
    assert_eq!(v.scroll_offset, 14);
    v.jump_to_top();
    assert_eq!(v.scroll_offset, 0);
    v.jump_to_line(50);
    assert_eq!(v.scroll_offset, 44);
}
