//! Classification of one line of an ignore file.
//!
//! A line is blank, a comment, a fingerprint record
//! `[<40 hex digits>:]<file path>:<rule id>:<line number>`, or invalid.
//! The record is read from the right: the line number follows the last `:`,
//! the rule id the one before it, and the file path (which may itself hold
//! `:`) is what is left, after an optional leading commit hash.

use vstd::prelude::*;
use crate::text::{
    find_last, hex_digit, is_hex_digit, last_index_of, parse_unsigned, slice_string, trimmed,
    trimmed_chars, unsigned_value,
};

verus! {

/// What a line of the file holds.
#[derive(Debug, PartialEq, Eq)]
pub enum PatternType {
    /// The trimmed line starts with `#`.
    Comment,
    /// A fingerprint record.
    Fingerprint {
        commit_hash: Option<String>,
        file_path: String,
        rule_id: String,
        line_number: u32,
    },
    /// The line is empty or whitespace only.
    BlankLine,
    /// Anything else.
    Invalid,
}

/// The mathematical value of a [`PatternType`], with text as character sequences.
pub enum PatternView {
    Comment,
    Fingerprint {
        commit_hash: Option<Seq<char>>,
        file_path: Seq<char>,
        rule_id: Seq<char>,
        line_number: u32,
    },
    BlankLine,
    Invalid,
}

impl View for PatternType {
    type V = PatternView;

    open spec fn view(&self) -> PatternView {
        match self {
            PatternType::Comment => PatternView::Comment,
            PatternType::Fingerprint { commit_hash, file_path, rule_id, line_number } => {
                PatternView::Fingerprint {
                    commit_hash: match commit_hash {
                        Some(h) => Some(h@),
                        None => None,
                    },
                    file_path: file_path@,
                    rule_id: rule_id@,
                    line_number: *line_number,
                }
            },
            PatternType::BlankLine => PatternView::BlankLine,
            PatternType::Invalid => PatternView::Invalid,
        }
    }
}

impl Clone for PatternType {
    fn clone(&self) -> (r: Self)
        ensures
            r == *self,
    {
        match self {
            PatternType::Comment => PatternType::Comment,
            PatternType::Fingerprint { commit_hash, file_path, rule_id, line_number } => {
                let h = match commit_hash {
                    Some(h) => Some(h.clone()),
                    None => None,
                };
                PatternType::Fingerprint {
                    commit_hash: h,
                    file_path: file_path.clone(),
                    rule_id: rule_id.clone(),
                    line_number: *line_number,
                }
            },
            PatternType::BlankLine => PatternType::BlankLine,
            PatternType::Invalid => PatternType::Invalid,
        }
    }
}

/// Length of a commit hash.
pub const HASH_LEN: usize = 40;

/// Whether `rest` starts with a commit hash and its `:` delimiter.
pub open spec fn has_hash_prefix(rest: Seq<char>) -> bool {
    &&& rest.len() > HASH_LEN
    &&& rest[HASH_LEN as int] == ':'
    &&& forall|k: int| 0 <= k < HASH_LEN ==> is_hex_digit(#[trigger] rest[k])
}

/// The record that a trimmed, non-blank, non-comment line `t` spells.
pub open spec fn fingerprint_of(t: Seq<char>) -> PatternView {
    match last_index_of(t, ':') {
        None => PatternView::Invalid,
        Some(p) => match unsigned_value(t.subrange(p + 1, t.len() as int), u32::MAX as nat) {
            None => PatternView::Invalid,
            Some(n) => match last_index_of(t.subrange(0, p), ':') {
                None => PatternView::Invalid,
                Some(q) => {
                    let rule = t.subrange(q + 1, p);
                    let rest = t.subrange(0, q);
                    if rule.len() == 0 {
                        PatternView::Invalid
                    } else if has_hash_prefix(rest) {
                        if rest.len() == HASH_LEN + 1 {
                            PatternView::Invalid
                        } else {
                            PatternView::Fingerprint {
                                commit_hash: Some(rest.subrange(0, HASH_LEN as int)),
                                file_path: rest.subrange(HASH_LEN + 1, rest.len() as int),
                                rule_id: rule,
                                line_number: n as u32,
                            }
                        }
                    } else if rest.len() == 0 {
                        PatternView::Invalid
                    } else {
                        PatternView::Fingerprint {
                            commit_hash: None,
                            file_path: rest,
                            rule_id: rule,
                            line_number: n as u32,
                        }
                    }
                },
            },
        },
    }
}

/// The classification of a line's content.
pub open spec fn classify(s: Seq<char>) -> PatternView {
    let t = trimmed(s);
    if t.len() == 0 {
        PatternView::BlankLine
    } else if t[0] == '#' {
        PatternView::Comment
    } else {
        fingerprint_of(t)
    }
}

/// Whether `t[..n]` is all hexadecimal digits.
fn all_hex(t: &Vec<char>, n: usize) -> (r: bool)
    requires
        n <= t.len(),
    ensures
        r == forall|k: int| 0 <= k < n ==> is_hex_digit(#[trigger] t@[k]),
{
    let mut i: usize = 0;
    while i < n
        invariant
            i <= n <= t.len(),
            forall|k: int| 0 <= k < i ==> is_hex_digit(#[trigger] t@[k]),
        decreases n - i,
    {
        if !hex_digit(t[i]) {
            return false;
        }
        i = i + 1;
    }
    true
}

impl PatternType {
    /// Classifies a line of the file.
    pub fn parse(line: &str) -> (r: Self)
        ensures
            r@ == classify(line@),
    {
        let (t, a) = trimmed_chars(line);
        let ghost tv = t@;
        assert(tv == trimmed(line@));
        let n = t.len();
        if n == 0 {
            return PatternType::BlankLine;
        }
        if t[0] == '#' {
            return PatternType::Comment;
        }
        assert(tv.subrange(0, n as int) =~= tv);
        let p = match find_last(&t, n, ':') {
            None => {
                return PatternType::Invalid;
            },
            Some(p) => p,
        };
        let number = match parse_unsigned(&t, p + 1, n, u32::MAX as u64) {
            None => {
                return PatternType::Invalid;
            },
            Some(number) => number,
        };
        let q = match find_last(&t, p, ':') {
            None => {
                return PatternType::Invalid;
            },
            Some(q) => q,
        };
        assert(tv.subrange(0, p as int).subrange(0, q as int) =~= tv.subrange(0, q as int));
        assert(line@.subrange(a + q + 1, a + p) =~= tv.subrange(q + 1, p as int));
        if q + 1 == p {
            return PatternType::Invalid;
        }
        let rule_id = slice_string(line, a + q + 1, a + p);
        if q > HASH_LEN && t[HASH_LEN] == ':' && all_hex(&t, HASH_LEN) {
            if q == HASH_LEN + 1 {
                return PatternType::Invalid;
            }
            assert(line@.subrange(a as int, a + HASH_LEN) =~= tv.subrange(0, q as int).subrange(
                0,
                HASH_LEN as int,
            ));
            assert(line@.subrange(a + HASH_LEN + 1, a + q) =~= tv.subrange(0, q as int).subrange(
                HASH_LEN + 1,
                q as int,
            ));
            let commit_hash = slice_string(line, a, a + HASH_LEN);
            let file_path = slice_string(line, a + HASH_LEN + 1, a + q);
            PatternType::Fingerprint {
                commit_hash: Some(commit_hash),
                file_path,
                rule_id,
                line_number: number as u32,
            }
        } else {
            assert(!has_hash_prefix(tv.subrange(0, q as int)));
            if q == 0 {
                return PatternType::Invalid;
            }
            assert(line@.subrange(a as int, a + q) =~= tv.subrange(0, q as int));
            let file_path = slice_string(line, a, a + q);
            PatternType::Fingerprint {
                commit_hash: None,
                file_path,
                rule_id,
                line_number: number as u32,
            }
        }
    }
}

/// Classification is a function of the content: two classifications of the
/// same text are the same, and each is exactly one of the four kinds, blank
/// exactly when the trimmed text is empty.
pub proof fn lemma_classification_deterministic(s: Seq<char>, first: PatternType, second: PatternType)
    requires
        first@ == classify(s),
        second@ == classify(s),
    ensures
        first@ == second@,
        (first is Comment) as int + (first is BlankLine) as int + (first is Fingerprint) as int + (first is Invalid) as int == 1,
        first is BlankLine <==> trimmed(s).len() == 0,
        first is Comment <==> trimmed(s).len() > 0 && trimmed(s)[0] == '#',
{
}

} // verus!
