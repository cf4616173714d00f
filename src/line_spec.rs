//! Line specifications (`42`, `42+5`, `10-50`) and the window they ask for.

use vstd::prelude::*;
use crate::error::GliError;
use crate::file_reader::{inverted_range_message, inverted_range_text};
use crate::text::{
    find_first, first_index_of, parse_unsigned, slice_string, trimmed,
    trimmed_chars, unsigned_value,
};

verus! {

/// Which lines to show.
#[derive(Debug, Clone, Copy, PartialEq, Eq, Structural)]
pub enum LineSpec {
    /// The whole file.
    All,
    /// One line with `context` lines on each side.
    Single { line: usize, context: usize },
    /// The lines `start..=end`.
    Range { start: usize, end: usize },
}

/// What a specification string means, or the message of its failure.
pub open spec fn parse_line_spec(s: Seq<char>, default_context: usize) -> Result<
    LineSpec,
    Seq<char>,
> {
    let t = trimmed(s);
    let max = usize::MAX as nat;
    match first_index_of(t, '-') {
        Some(d) => {
            let a = t.subrange(0, d);
            let b = t.subrange(d + 1, t.len() as int);
            match unsigned_value(a, max) {
                None => Err("Invalid start line: "@ + a),
                Some(x) => match unsigned_value(b, max) {
                    None => Err("Invalid end line: "@ + b),
                    Some(y) => if x > y {
                        Err(inverted_range_message(x, y))
                    } else {
                        Ok(LineSpec::Range { start: x as usize, end: y as usize })
                    },
                },
            }
        },
        None => match first_index_of(t, '+') {
            Some(p) => {
                let a = t.subrange(0, p);
                let b = t.subrange(p + 1, t.len() as int);
                match unsigned_value(a, max) {
                    None => Err("Invalid line number: "@ + a),
                    Some(x) => match unsigned_value(b, max) {
                        None => Err("Invalid context: "@ + b),
                        Some(y) => Ok(LineSpec::Single { line: x as usize, context: y as usize }),
                    },
                }
            },
            None => match unsigned_value(t, max) {
                None => Err("Invalid line specification: "@ + t),
                Some(x) => Ok(LineSpec::Single { line: x as usize, context: default_context }),
            },
        },
    }
}

/// `prefix` followed by the characters `from..to` of `s`.
fn message(prefix: &str, s: &str, from: usize, to: usize) -> (r: String)
    requires
        from <= to <= s@.len(),
    ensures
        r@ == prefix@ + s@.subrange(from as int, to as int),
{
    let mut m = String::from_str(prefix);
    let part = slice_string(s, from, to);
    m.append(part.as_str());
    m
}

impl LineSpec {
    /// Reads a line specification: `N` is line `N` with `default_context`
    /// lines around it, `N+C` is line `N` with `C` lines around it, `A-B`
    /// is the lines `A..=B`.
    pub fn parse(spec: &str, default_context: usize) -> (r: Result<LineSpec, GliError>)
        ensures
            match parse_line_spec(spec@, default_context) {
                Ok(v) => r == Ok::<LineSpec, GliError>(v),
                Err(m) => r is Err && r->Err_0 is InvalidArguments
                    && r->Err_0->InvalidArguments_0@ == m,
            },
    {
        let (t, off) = trimmed_chars(spec);
        let n = t.len();
        let max = usize::MAX as u64;
        let ghost tv = t@;
        match find_first(&t, '-') {
            Some(d) => {
                assert(spec@.subrange(off as int, off + d) =~= tv.subrange(0, d as int));
                assert(spec@.subrange(off + d + 1, off + n) =~= tv.subrange(d + 1, n as int));
                let x = match parse_unsigned(&t, 0, d, max) {
                    None => {
                        return Err(
                            GliError::InvalidArguments(
                                message("Invalid start line: ", spec, off, off + d),
                            ),
                        );
                    },
                    Some(x) => x,
                };
                let y = match parse_unsigned(&t, d + 1, n, max) {
                    None => {
                        return Err(
                            GliError::InvalidArguments(
                                message("Invalid end line: ", spec, off + d + 1, off + n),
                            ),
                        );
                    },
                    Some(y) => y,
                };
                if x > y {
                    return Err(GliError::InvalidArguments(inverted_range_text(x as usize, y as usize)));
                }
                Ok(LineSpec::Range { start: x as usize, end: y as usize })
            },
            None => match find_first(&t, '+') {
                Some(p) => {
                    assert(spec@.subrange(off as int, off + p) =~= tv.subrange(0, p as int));
                    assert(spec@.subrange(off + p + 1, off + n) =~= tv.subrange(p + 1, n as int));
                    let x = match parse_unsigned(&t, 0, p, max) {
                        None => {
                            return Err(
                                GliError::InvalidArguments(
                                    message("Invalid line number: ", spec, off, off + p),
                                ),
                            );
                        },
                        Some(x) => x,
                    };
                    let y = match parse_unsigned(&t, p + 1, n, max) {
                        None => {
                            return Err(
                                GliError::InvalidArguments(
                                    message("Invalid context: ", spec, off + p + 1, off + n),
                                ),
                            );
                        },
                        Some(y) => y,
                    };
                    Ok(LineSpec::Single { line: x as usize, context: y as usize })
                },
                None => {
                    assert(tv.subrange(0, n as int) =~= tv);
                    assert(spec@.subrange(off as int, off + n) =~= tv);
                    match parse_unsigned(&t, 0, n, max) {
                        None => Err(
                            GliError::InvalidArguments(
                                message("Invalid line specification: ", spec, off, off + n),
                            ),
                        ),
                        Some(x) => Ok(LineSpec::Single { line: x as usize, context: default_context }),
                    }
                },
            },
        }
    }

    /// The window `(start, end)` to show of a file of `total_lines` lines.
    /// An empty file always gives `(0, 0)`.
    pub fn calculate_range(&self, total_lines: usize) -> (r: Result<(usize, usize), GliError>)
        ensures
            total_lines == 0 ==> r == Ok::<(usize, usize), GliError>((0, 0)),
            total_lines > 0 ==> match *self {
                LineSpec::All => r == Ok::<(usize, usize), GliError>((1, total_lines)),
                LineSpec::Single { line, context } => if line == 0 || line > total_lines {
                    r == Err::<(usize, usize), GliError>(
                        GliError::LineOutOfBounds(line, total_lines),
                    )
                } else {
                    r is Ok && r->Ok_0.0 == (if line - context >= 1 {
                        line - context
                    } else {
                        1
                    }) && r->Ok_0.1 == (if line + context <= total_lines {
                        line + context
                    } else {
                        total_lines as int
                    })
                },
                LineSpec::Range { start, end } => if start == 0 || start > total_lines {
                    r == Err::<(usize, usize), GliError>(
                        GliError::LineOutOfBounds(start, total_lines),
                    )
                } else if end > total_lines {
                    r == Err::<(usize, usize), GliError>(
                        GliError::LineOutOfBounds(end, total_lines),
                    )
                } else {
                    r == Ok::<(usize, usize), GliError>((start, end))
                },
            },
    {
        if total_lines == 0 {
            return Ok((0, 0));
        }
        match self {
            LineSpec::All => Ok((1, total_lines)),
            LineSpec::Single { line, context } => {
                let line = *line;
                let context = *context;
                if line == 0 || line > total_lines {
                    return Err(GliError::LineOutOfBounds(line, total_lines));
                }
                let start = if line > context && line - context >= 1 {
                    line - context
                } else {
                    1
                };
                let end = if context <= total_lines - line {
                    line + context
                } else {
                    total_lines
                };
                Ok((start, end))
            },
            LineSpec::Range { start, end } => {
                if *start == 0 || *start > total_lines {
                    return Err(GliError::LineOutOfBounds(*start, total_lines));
                }
                if *end > total_lines {
                    return Err(GliError::LineOutOfBounds(*end, total_lines));
                }
                Ok((*start, *end))
            },
        }
    }
}

} // verus!
