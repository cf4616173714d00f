use gli_editor::error::GliError;
use gli_editor::file_reader::{FileContext, FileReader, FileSnapshot, LineEnding};
use gli_editor::line::{Line, LineRange};
use gli_editor::pattern::PatternType;

fn buffer(text: &str) -> FileContext {
    FileContext::load("/tmp/.gitleaksignore".to_string(), text, 1_000)
}

fn contents(fc: &FileContext) -> Vec<String> {
    fc.lines.iter().map(|l| l.content.clone()).collect()
}

fn numbers(fc: &FileContext) -> Vec<usize> {
    fc.lines.iter().map(|l| l.line_number).collect()
}

#[test]
fn load_splits_and_classifies() {
    let fc = buffer("# header\n\nsrc/a.rs:rule:3\ngarbage\n");
    assert_eq!(fc.total_lines, 4);
    assert_eq!(contents(&fc), vec!["# header", "", "src/a.rs:rule:3", "garbage"]);
    assert_eq!(numbers(&fc), vec![1, 2, 3, 4]);
    assert_eq!(fc.lines[0].pattern_type, PatternType::Comment);
    assert_eq!(fc.lines[1].pattern_type, PatternType::BlankLine);
    assert_eq!(fc.lines[3].pattern_type, PatternType::Invalid);
    assert_eq!(fc.line_ending_format, LineEnding::LF);
    assert_eq!(fc.last_modified_time, 1_000);
}

#[test]
fn load_keeps_last_line_without_terminator() {
    let fc = buffer("a\nb");
    assert_eq!(contents(&fc), vec!["a", "b"]);
}

#[test]
fn load_crlf_text() {
    let fc = buffer("a\r\nb\r\n");
    assert_eq!(contents(&fc), vec!["a", "b"]);
    assert_eq!(fc.line_ending_format, LineEnding::CRLF);
}

#[test]
fn load_cr_text_splits_at_cr() {
    let fc = buffer("a\rb\r");
    assert_eq!(contents(&fc), vec!["a", "b"]);
    assert_eq!(fc.line_ending_format, LineEnding::CR);
    let unterminated = buffer("a\rb");
    assert_eq!(contents(&unterminated), vec!["a", "b"]);
    assert_eq!(numbers(&unterminated), vec![1, 2]);
}

#[test]
fn load_empty_text() {
    let fc = buffer("");
    assert_eq!(fc.total_lines, 0);
    assert_eq!(fc.line_ending_format, LineEnding::LF);
    assert_eq!(fc.get_range(0, 0).unwrap().len(), 0);
}

#[test]
fn detect_prefers_crlf_then_lf_then_cr() {
    assert_eq!(LineEnding::detect("a\nb\r\n"), LineEnding::CRLF);
    assert_eq!(LineEnding::detect("a\rb\n"), LineEnding::LF);
    assert_eq!(LineEnding::detect("a\rb"), LineEnding::CR);
    assert_eq!(LineEnding::detect("ab"), LineEnding::LF);
    assert_eq!(LineEnding::LF.as_str(), "\n");
    assert_eq!(LineEnding::CRLF.as_str(), "\r\n");
    assert_eq!(LineEnding::CR.as_str(), "\r");
}

#[test]
fn get_line_is_numbered_by_position() {
    let fc = buffer("a\nb\nc\n");
    for n in 1..=3 {
        assert_eq!(fc.get_line(n).unwrap().line_number, n);
    }
    assert!(fc.get_line(0).is_none());
    assert!(fc.get_line(4).is_none());
}

#[test]
fn get_range_returns_inclusive_slice() {
    let fc = buffer("a\nb\nc\nd\n");
    let r = fc.get_range(2, 3).unwrap();
    assert_eq!(r.iter().map(|l| l.content.as_str()).collect::<Vec<_>>(), vec!["b", "c"]);
}

#[test]
fn get_range_errors() {
    let fc = buffer("a\nb\nc\nd\n");
    assert_eq!(
        fc.get_range(0, 2).unwrap_err(),
        GliError::InvalidArguments("Line numbers must be >= 1".to_string())
    );
    assert_eq!(
        fc.get_range(2, 0).unwrap_err(),
        GliError::InvalidArguments("Line numbers must be >= 1".to_string())
    );
    assert_eq!(fc.get_range(5, 6).unwrap_err(), GliError::LineOutOfBounds(5, 4));
    assert_eq!(fc.get_range(2, 9).unwrap_err(), GliError::LineOutOfBounds(9, 4));
    assert_eq!(
        fc.get_range(3, 2).unwrap_err(),
        GliError::InvalidArguments("Start line 3 cannot be greater than end line 2".to_string())
    );
    assert_eq!(fc.get_range(0, 0).unwrap().len(), 0);
}

#[test]
fn update_line_reclassifies() {
    let mut fc = buffer("a\nb\n");
    fc.update_line(2, "# now a comment".to_string()).unwrap();
    assert_eq!(contents(&fc), vec!["a", "# now a comment"]);
    assert_eq!(fc.lines[1].pattern_type, PatternType::Comment);
    assert_eq!(fc.lines[1].line_number, 2);
    assert_eq!(fc.update_line(3, "x".to_string()), Err(GliError::LineOutOfBounds(3, 2)));
    assert_eq!(fc.update_line(0, "x".to_string()), Err(GliError::LineOutOfBounds(0, 2)));
}

#[test]
fn delete_line_renumbers_following_lines() {
    let mut fc = buffer("a\nb\nc\nd\n");
    fc.delete_line(2).unwrap();
    assert_eq!(contents(&fc), vec!["a", "c", "d"]);
    assert_eq!(numbers(&fc), vec![1, 2, 3]);
    assert_eq!(fc.total_lines, 3);
    assert_eq!(fc.delete_line(4), Err(GliError::LineOutOfBounds(4, 3)));
    assert_eq!(fc.delete_line(0), Err(GliError::LineOutOfBounds(0, 3)));
    fc.delete_line(3).unwrap();
    fc.delete_line(1).unwrap();
    assert_eq!(contents(&fc), vec!["c"]);
    assert_eq!(numbers(&fc), vec![1]);
}

#[test]
fn text_uses_the_detected_terminator() {
    let mut fc = buffer("a\r\nb\r\n");
    fc.update_line(1, "z".to_string()).unwrap();
    assert_eq!(fc.to_text(), "z\r\nb\r\n");
}

#[test]
fn save_then_load_round_trip() {
    for text in ["x:y:1\n# c\n\n", "a\r\nb\r\n", "", "only\n", "a\rb\r", "x:y:2\r\r"] {
        let fc = buffer(text);
        let again = buffer(&fc.to_text());
        assert_eq!(contents(&again), contents(&fc));
        assert_eq!(again.line_ending_format, fc.line_ending_format);
    }
}

#[test]
fn external_modification_checks() {
    let mut fc = buffer("a\n");
    assert!(fc.check_for_external_modifications(1_001));
    assert!(!fc.check_for_external_modifications(1_000));
    fc.refresh_metadata(2_000);
    assert_eq!(fc.last_modified_time, 2_000);
    let snap = FileSnapshot::capture("f".to_string(), 50);
    assert!(snap.has_changed(51));
    assert!(!snap.has_changed(50));
}

#[test]
fn file_reader_builds_the_buffer() {
    let _reader = FileReader::new();
    let fc = FileReader::read_file("p".to_string(), "a\nb\n", 7);
    assert_eq!(fc.total_lines, 2);
    assert_eq!(fc.file_path, "p");
}

#[test]
fn line_and_range_helpers() {
    let line = Line::new(4, "# x".to_string());
    assert_eq!(line.line_number, 4);
    assert_eq!(line.pattern_type, PatternType::Comment);
    let fc = buffer("a\nb\nc\nd\n");
    let range = LineRange::new(2, 3, fc.get_range(2, 3).unwrap());
    assert_eq!(range.total_lines(), 2);
    assert!(!range.is_empty());
    assert!(range.contains_line(2));
    assert!(!range.contains_line(4));
    assert_eq!(range.get_line(3).unwrap().content, "c");
    assert!(range.get_line(1).is_none());
    assert!(LineRange::new(0, 0, Vec::new()).is_empty());
}

#[test]
fn cr_file_does_not_grow_on_save() {
    let fc = buffer("a\rb\r");
    assert_eq!(fc.to_text(), "a\rb\r");
    let again = buffer(&fc.to_text());
    assert_eq!(again.to_text(), "a\rb\r");
}

#[test]
fn error_descriptions() {
    assert_eq!(
        GliError::LineOutOfBounds(12, 10).describe(),
        "Error: Line 12 is out of bounds (file has 10 lines)\n\nValid range: 1-10"
    );
    assert_eq!(
        GliError::FileNotFound("x".to_string()).describe(),
        "Error: File not found: x\n\nSuggestion: Create the file with:\n  touch .gitleaksignore"
    );
    assert_eq!(
        GliError::PermissionDenied("p".to_string()).describe(),
        "Error: Permission denied: p\n\nSuggestion: Check file permissions with:\n  ls -l p"
    );
    assert_eq!(GliError::InvalidEncoding("p".to_string()).describe(), "Error: File contains invalid UTF-8: p");
    assert_eq!(
        GliError::ConcurrentModification("p".to_string()).describe(),
        "Warning: File was modified by another process: p"
    );
    assert_eq!(GliError::WriteFailure("m".to_string()).describe(), "Error: Unable to save changes: m");
    assert_eq!(GliError::InvalidArguments("m".to_string()).describe(), "Error: Invalid arguments: m");
    assert_eq!(GliError::IoError("m".to_string()).describe(), "I/O Error: m");
}
