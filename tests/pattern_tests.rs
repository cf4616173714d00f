use gli_editor::line_parser::LineParser;
use gli_editor::pattern::PatternType;

const HASH: &str = "a1b2c3d4e5f6a7b8c9d0a1b2c3d4e5f6a7b8c9d0";

fn fingerprint(hash: Option<&str>, path: &str, rule: &str, line: u32) -> PatternType {
    PatternType::Fingerprint {
        commit_hash: hash.map(|h| h.to_string()),
        file_path: path.to_string(),
        rule_id: rule.to_string(),
        line_number: line,
    }
}

#[test]
fn fingerprint_with_commit_hash() {
    let line = format!("{}:src/app.py:aws-key:12", HASH);
    assert_eq!(PatternType::parse(&line), fingerprint(Some(HASH), "src/app.py", "aws-key", 12));
}

#[test]
fn archive_path_keeps_its_colons() {
    assert_eq!(
        PatternType::parse("archive.tar.gz:inner.tar:secret.env:3"),
        fingerprint(None, "archive.tar.gz:inner.tar", "secret.env", 3)
    );
}

#[test]
fn hash_then_path_with_colons() {
    let line = format!("{}:a.zip:b.txt:rule:7", HASH);
    assert_eq!(PatternType::parse(&line), fingerprint(Some(HASH), "a.zip:b.txt", "rule", 7));
}

#[test]
fn comment_line() {
    assert_eq!(PatternType::parse("# ignore this"), PatternType::Comment);
    assert_eq!(PatternType::parse("   #indented"), PatternType::Comment);
}

#[test]
fn blank_lines() {
    assert_eq!(PatternType::parse("   "), PatternType::BlankLine);
    assert_eq!(PatternType::parse(""), PatternType::BlankLine);
    assert_eq!(PatternType::parse("\t \u{3000}"), PatternType::BlankLine);
}

#[test]
fn surrounding_whitespace_is_trimmed() {
    assert_eq!(PatternType::parse("  path/x.rs:rule:4  "), fingerprint(None, "path/x.rs", "rule", 4));
}

#[test]
fn invalid_lines() {
    assert_eq!(PatternType::parse("no delimiters here"), PatternType::Invalid);
    assert_eq!(PatternType::parse("file:rule:abc"), PatternType::Invalid);
    assert_eq!(PatternType::parse("rule:12"), PatternType::Invalid);
    assert_eq!(PatternType::parse("file::12"), PatternType::Invalid);
    assert_eq!(PatternType::parse(":rule:12"), PatternType::Invalid);
    assert_eq!(PatternType::parse("file:rule:-1"), PatternType::Invalid);
    assert_eq!(PatternType::parse("file:rule:"), PatternType::Invalid);
    assert_eq!(PatternType::parse("file:rule:4294967296"), PatternType::Invalid);
}

#[test]
fn line_number_limits() {
    assert_eq!(PatternType::parse("file:rule:4294967295"), fingerprint(None, "file", "rule", u32::MAX));
    assert_eq!(PatternType::parse("file:rule:+8"), fingerprint(None, "file", "rule", 8));
    assert_eq!(PatternType::parse("file:rule:007"), fingerprint(None, "file", "rule", 7));
}

#[test]
fn hash_with_empty_path_is_invalid() {
    let line = format!("{}::rule:1", HASH);
    assert_eq!(PatternType::parse(&line), PatternType::Invalid);
}

#[test]
fn short_hash_is_part_of_the_path() {
    assert_eq!(
        PatternType::parse("abc123:src/a.rs:rule:2"),
        fingerprint(None, "abc123:src/a.rs", "rule", 2)
    );
}

#[test]
fn non_ascii_content() {
    assert_eq!(PatternType::parse("dossier/é.txt:règle:5"), fingerprint(None, "dossier/é.txt", "règle", 5));
}

#[test]
fn classification_is_deterministic() {
    for line in ["# c", "", "x:y:1", "bad", "  a:b:c:9 "] {
        assert_eq!(PatternType::parse(line), PatternType::parse(line));
        assert_eq!(LineParser::parse(line), PatternType::parse(line));
    }
}

#[test]
fn clone_keeps_the_value() {
    let p = fingerprint(Some(HASH), "p", "r", 1);
    assert_eq!(p.clone(), p);
}
