//! Lines of the buffer and windows of consecutive lines.

use vstd::prelude::*;
use crate::pattern::{classify, PatternType};

verus! {

/// One physical line of the file.
#[derive(Debug)]
pub struct Line {
    /// 1-based position in the file.
    pub line_number: usize,
    /// The text of the line, without its terminator.
    pub content: String,
    /// The classification of `content`.
    pub pattern_type: PatternType,
}

impl Clone for Line {
    fn clone(&self) -> (r: Self)
        ensures
            r == *self,
    {
        Line {
            line_number: self.line_number,
            content: self.content.clone(),
            pattern_type: self.pattern_type.clone(),
        }
    }
}

impl Line {
    /// The classification agrees with the content.
    pub open spec fn wf(&self) -> bool {
        self.pattern_type@ == classify(self.content@)
    }

    /// A line at position `line_number` holding `content`, classified.
    pub fn new(line_number: usize, content: String) -> (r: Self)
        ensures
            r.line_number == line_number,
            r.content == content,
            r.wf(),
    {
        let pattern_type = PatternType::parse(content.as_str());
        Line { line_number, content, pattern_type }
    }
}

/// A run of consecutive lines, `start_line..=end_line`, with the lines it holds.
#[derive(Debug, Clone)]
pub struct LineRange {
    /// First line number (1-based, inclusive).
    pub start_line: usize,
    /// Last line number (1-based, inclusive).
    pub end_line: usize,
    /// The lines of the range.
    pub entries: Vec<Line>,
}

impl LineRange {
    pub fn new(start_line: usize, end_line: usize, entries: Vec<Line>) -> (r: Self)
        ensures
            r.start_line == start_line,
            r.end_line == end_line,
            r.entries == entries,
    {
        LineRange { start_line, end_line, entries }
    }

    /// The number of line positions that the range spans.
    pub fn total_lines(&self) -> (r: usize)
        requires
            self.start_line <= self.end_line,
            self.end_line - self.start_line < usize::MAX,
        ensures
            r == self.end_line - self.start_line + 1,
    {
        self.end_line - self.start_line + 1
    }

    /// Whether the range holds no lines.
    pub fn is_empty(&self) -> (r: bool)
        ensures
            r == (self.entries.len() == 0),
    {
        self.entries.len() == 0
    }

    /// Whether `line_number` lies within the range's bounds.
    pub fn contains_line(&self, line_number: usize) -> (r: bool)
        ensures
            r == (self.start_line <= line_number <= self.end_line),
    {
        line_number >= self.start_line && line_number <= self.end_line
    }

    /// The line numbered `line_number`, if the range holds it.
    pub fn get_line(&self, line_number: usize) -> (r: Option<&Line>)
        ensures
            r == (if self.start_line <= line_number <= self.end_line && line_number
                - self.start_line < self.entries.len() {
                Some(&self.entries@[line_number - self.start_line])
            } else {
                None
            }),
    {
        if !self.contains_line(line_number) {
            return None;
        }
        let index = line_number - self.start_line;
        if index < self.entries.len() {
            Some(&self.entries[index])
        } else {
            None
        }
    }
}

} // verus!
