use gli_editor::error::GliError;
use gli_editor::line_spec::LineSpec;

#[test]
fn single_line_with_default_context() {
    assert_eq!(LineSpec::parse("42", 3), Ok(LineSpec::Single { line: 42, context: 3 }));
    assert_eq!(LineSpec::parse("  7 ", 0), Ok(LineSpec::Single { line: 7, context: 0 }));
}

#[test]
fn single_line_with_context() {
    assert_eq!(LineSpec::parse("42+5", 3), Ok(LineSpec::Single { line: 42, context: 5 }));
}

#[test]
fn line_range() {
    assert_eq!(LineSpec::parse("10-50", 3), Ok(LineSpec::Range { start: 10, end: 50 }));
}

#[test]
fn parse_errors_name_the_offending_text() {
    assert_eq!(
        LineSpec::parse("x-50", 3),
        Err(GliError::InvalidArguments("Invalid start line: x".to_string()))
    );
    assert_eq!(
        LineSpec::parse("10-y", 3),
        Err(GliError::InvalidArguments("Invalid end line: y".to_string()))
    );
    assert_eq!(
        LineSpec::parse("50-10", 3),
        Err(GliError::InvalidArguments("Start line 50 cannot be greater than end line 10".to_string()))
    );
    assert_eq!(
        LineSpec::parse("a+1", 3),
        Err(GliError::InvalidArguments("Invalid line number: a".to_string()))
    );
    assert_eq!(
        LineSpec::parse("4+b", 3),
        Err(GliError::InvalidArguments("Invalid context: b".to_string()))
    );
    assert_eq!(
        LineSpec::parse("abc", 3),
        Err(GliError::InvalidArguments("Invalid line specification: abc".to_string()))
    );
}

#[test]
fn calculate_range_of_each_spec() {
    assert_eq!(LineSpec::All.calculate_range(100), Ok((1, 100)));
    assert_eq!(LineSpec::Single { line: 42, context: 5 }.calculate_range(100), Ok((37, 47)));
    assert_eq!(LineSpec::Single { line: 2, context: 5 }.calculate_range(100), Ok((1, 7)));
    assert_eq!(LineSpec::Single { line: 98, context: 5 }.calculate_range(100), Ok((93, 100)));
    assert_eq!(LineSpec::Single { line: 5, context: usize::MAX }.calculate_range(9), Ok((1, 9)));
    assert_eq!(LineSpec::Range { start: 10, end: 50 }.calculate_range(100), Ok((10, 50)));
}

#[test]
fn calculate_range_errors() {
    assert_eq!(
        LineSpec::Single { line: 0, context: 1 }.calculate_range(10),
        Err(GliError::LineOutOfBounds(0, 10))
    );
    assert_eq!(
        LineSpec::Single { line: 11, context: 1 }.calculate_range(10),
        Err(GliError::LineOutOfBounds(11, 10))
    );
    assert_eq!(
        LineSpec::Range { start: 0, end: 5 }.calculate_range(10),
        Err(GliError::LineOutOfBounds(0, 10))
    );
    assert_eq!(
        LineSpec::Range { start: 3, end: 12 }.calculate_range(10),
        Err(GliError::LineOutOfBounds(12, 10))
    );
}

#[test]
fn empty_file_always_gives_the_empty_window() {
    assert_eq!(LineSpec::All.calculate_range(0), Ok((0, 0)));
    assert_eq!(LineSpec::Single { line: 99, context: 1 }.calculate_range(0), Ok((0, 0)));
    assert_eq!(LineSpec::Range { start: 5, end: 9 }.calculate_range(0), Ok((0, 0)));
}
