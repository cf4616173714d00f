//! The in-memory line buffer of one file: splitting text into lines,
//! detecting and keeping the line-ending style, bounded reads, updates and
//! deletes, and the text written back.

use vstd::prelude::*;
use crate::error::GliError;
use crate::line::Line;
use crate::text::{chars_of, decimal, decimal_text, slice_string};

verus! {

/// Line terminator style of a file.
#[derive(Debug, Clone, Copy, PartialEq, Eq, Structural)]
pub enum LineEnding {
    /// `\n`
    LF,
    /// `\r\n`
    CRLF,
    /// `\r`
    CR,
}

/// The characters of a terminator.
pub open spec fn ending_chars(e: LineEnding) -> Seq<char> {
    match e {
        LineEnding::LF => seq!['\n'],
        LineEnding::CRLF => seq!['\r', '\n'],
        LineEnding::CR => seq!['\r'],
    }
}

/// Whether `s` holds `\r` immediately followed by `\n`.
pub open spec fn has_crlf(s: Seq<char>) -> bool {
    exists|i: int| 0 <= i < s.len() - 1 && #[trigger] s[i] == '\r' && s[i + 1] == '\n'
}

/// The style of a file's text: `\r\n` wins over `\n`, which wins over `\r`;
/// text with no terminator counts as `\n`.
pub open spec fn detect_ending(s: Seq<char>) -> LineEnding {
    if has_crlf(s) {
        LineEnding::CRLF
    } else if s.contains('\n') {
        LineEnding::LF
    } else if s.contains('\r') {
        LineEnding::CR
    } else {
        LineEnding::LF
    }
}

/// Position of the first `t` in `s`, or its length.
pub open spec fn terminator_index(s: Seq<char>, t: char) -> int
    decreases s.len(),
{
    if s.len() == 0 || s[0] == t {
        0
    } else {
        1 + terminator_index(s.drop_first(), t)
    }
}

/// A line read up to `\n` loses one `\r` before it.
pub open spec fn strip_cr(l: Seq<char>) -> Seq<char> {
    if l.len() > 0 && l.last() == '\r' {
        l.drop_last()
    } else {
        l
    }
}

/// A line ended by `t`, without its terminator: before a `\n` one `\r`
/// goes too.
pub open spec fn line_before(l: Seq<char>, t: char) -> Seq<char> {
    if t == '\n' {
        strip_cr(l)
    } else {
        l
    }
}

/// The lines of a text whose lines end at `t`; a last line without
/// terminator counts when it is not empty.
pub open spec fn split_lines(s: Seq<char>, t: char) -> Seq<Seq<char>>
    decreases s.len(),
{
    if s.len() == 0 {
        seq![]
    } else {
        let k = terminator_index(s, t);
        if 0 <= k < s.len() {
            seq![line_before(s.subrange(0, k), t)] + split_lines(
                s.subrange(k + 1, s.len() as int),
                t,
            )
        } else {
            seq![s]
        }
    }
}

/// The character that ends lines in style `e`: `\r` for `\r` files, `\n`
/// otherwise (a `\r\n` pair ends at its `\n`).
pub open spec fn terminator_of(e: LineEnding) -> char {
    if e == LineEnding::CR {
        '\r'
    } else {
        '\n'
    }
}

/// The lines of a file's text, split by its detected style.
pub open spec fn text_lines(s: Seq<char>) -> Seq<Seq<char>> {
    split_lines(s, terminator_of(detect_ending(s)))
}

/// Each line followed by the terminator.
pub open spec fn serialize(ls: Seq<Seq<char>>, e: LineEnding) -> Seq<char>
    decreases ls.len(),
{
    if ls.len() == 0 {
        seq![]
    } else {
        serialize(ls.drop_last(), e) + ls.last() + ending_chars(e)
    }
}

/// The contents of a sequence of lines.
pub open spec fn contents(lines: Seq<Line>) -> Seq<Seq<char>> {
    lines.map_values(|l: Line| l.content@)
}

proof fn lemma_terminator_index(s: Seq<char>, t: char, j: int)
    requires
        0 <= j <= s.len(),
        forall|k: int| 0 <= k < j ==> s[k] != t,
        j == s.len() || s[j] == t,
    ensures
        terminator_index(s, t) == j,
    decreases j,
{
    if j > 0 {
        lemma_terminator_index(s.drop_first(), t, j - 1);
    }
}

impl LineEnding {
    /// The terminator as text.
    pub fn as_str(&self) -> (r: &'static str)
        ensures
            r@ == ending_chars(*self),
    {
        proof {
            reveal_strlit("\n");
            reveal_strlit("\r\n");
            reveal_strlit("\r");
        }
        match self {
            LineEnding::LF => "\n",
            LineEnding::CRLF => "\r\n",
            LineEnding::CR => "\r",
        }
    }

    /// The style of a file whose whole text is `content`.
    pub fn detect(content: &str) -> (r: LineEnding)
        ensures
            r == detect_ending(content@),
    {
        let cs = chars_of(content);
        let n = cs.len();
        let mut seen_lf = false;
        let mut seen_cr = false;
        let mut i: usize = 0;
        while i < n
            invariant
                i <= n == cs.len(),
                cs@ == content@,
                seen_lf == cs@.subrange(0, i as int).contains('\n'),
                seen_cr == cs@.subrange(0, i as int).contains('\r'),
                forall|k: int| 0 <= k < i as int - 1 ==> !(#[trigger] cs@[k] == '\r' && cs@[k + 1]
                    == '\n'),
            decreases n - i,
        {
            let c = cs[i];
            if c == '\n' && i > 0 && cs[i - 1] == '\r' {
                assert(has_crlf(content@)) by {
                    assert(content@[i - 1] == '\r');
                }
                return LineEnding::CRLF;
            }
            proof {
                let p = cs@.subrange(0, i as int);
                let q = cs@.subrange(0, i + 1);
                assert(q =~= p.push(c));
                if p.contains('\n') {
                    let w = choose|w: int| 0 <= w < p.len() && p[w] == '\n';
                    assert(q[w] == '\n');
                }
                if p.contains('\r') {
                    let w = choose|w: int| 0 <= w < p.len() && p[w] == '\r';
                    assert(q[w] == '\r');
                }
                if q.contains('\n') && c != '\n' {
                    let w = choose|w: int| 0 <= w < q.len() && q[w] == '\n';
                    assert(p[w] == '\n');
                }
                if q.contains('\r') && c != '\r' {
                    let w = choose|w: int| 0 <= w < q.len() && q[w] == '\r';
                    assert(p[w] == '\r');
                }
                if c == '\n' {
                    assert(q[i as int] == '\n');
                }
                if c == '\r' {
                    assert(q[i as int] == '\r');
                }
            }
            if c == '\n' {
                seen_lf = true;
            } else if c == '\r' {
                seen_cr = true;
            }
            i = i + 1;
        }
        assert(cs@.subrange(0, n as int) =~= cs@);
        if seen_lf {
            LineEnding::LF
        } else if seen_cr {
            LineEnding::CR
        } else {
            LineEnding::LF
        }
    }
}

/// The buffer of one file.
#[derive(Debug, Clone)]
pub struct FileContext {
    /// Path of the file.
    pub file_path: String,
    /// Number of lines in the buffer.
    pub total_lines: usize,
    /// Terminator style detected when the file was read.
    pub line_ending_format: LineEnding,
    /// Modification time of the file when last read or written, in
    /// nanoseconds since the Unix epoch.
    pub last_modified_time: u128,
    /// The lines, in order.
    pub lines: Vec<Line>,
}

impl FileContext {
    /// The count matches the lines, each line is numbered by its position
    /// and classified by its content.
    pub open spec fn wf(&self) -> bool {
        &&& self.total_lines == self.lines.len()
        &&& forall|i: int|
            0 <= i < self.lines.len() ==> (#[trigger] self.lines@[i]).line_number == i + 1
                && self.lines@[i].wf()
    }

    /// The text of each line, in order.
    pub open spec fn contents(&self) -> Seq<Seq<char>> {
        contents(self.lines@)
    }

    /// The buffer of the file at `file_path`, whose whole text is `text`
    /// and whose modification time is `last_modified_time`.
    pub fn load(file_path: String, text: &str, last_modified_time: u128) -> (r: Self)
        ensures
            r.wf(),
            r.contents() == text_lines(text@),
            r.line_ending_format == detect_ending(text@),
            r.file_path == file_path,
            r.last_modified_time == last_modified_time,
    {
        let line_ending_format = LineEnding::detect(text);
        let term = if line_ending_format == LineEnding::CR {
            '\r'
        } else {
            '\n'
        };
        assert(term == terminator_of(line_ending_format));
        let cs = chars_of(text);
        let n = cs.len();
        let mut lines: Vec<Line> = Vec::new();
        let mut start: usize = 0;
        let mut i: usize = 0;
        assert(cs@.subrange(0, n as int) =~= cs@);
        while i < n
            invariant
                start <= i <= n == cs.len(),
                cs@ == text@,
                term == terminator_of(line_ending_format),
                forall|k: int| start <= k < i ==> cs@[k] != term,
                contents(lines@) + split_lines(cs@.subrange(start as int, n as int), term)
                    == split_lines(cs@, term),
                forall|j: int|
                    0 <= j < lines.len() ==> (#[trigger] lines@[j]).line_number == j + 1
                        && lines@[j].wf(),
                lines.len() <= start,
            decreases n - i,
        {
            if cs[i] == term {
                let ghost t = cs@.subrange(start as int, n as int);
                proof {
                    lemma_terminator_index(t, term, i - start);
                    assert(t.subrange(0, i - start) =~= cs@.subrange(start as int, i as int));
                    assert(t.subrange(i - start + 1, t.len() as int) =~= cs@.subrange(
                        i + 1,
                        n as int,
                    ));
                }
                let end = if term == '\n' && i > start && cs[i - 1] == '\r' {
                    i - 1
                } else {
                    i
                };
                assert(cs@.subrange(start as int, end as int) == line_before(
                    cs@.subrange(start as int, i as int),
                    term,
                )) by {
                    if term == '\n' && i > start && cs@[i - 1] == '\r' {
                        assert(cs@.subrange(start as int, i as int).drop_last() =~= cs@.subrange(
                            start as int,
                            end as int,
                        ));
                    }
                }
                let content = slice_string(text, start, end);
                let line = Line::new(lines.len() + 1, content);
                let ghost before = lines@;
                lines.push(line);
                assert(contents(lines@) =~= contents(before).push(line.content@));
                assert(contents(lines@) + split_lines(cs@.subrange(i + 1, n as int), term)
                    =~= contents(before) + split_lines(t, term));
                start = i + 1;
            }
            i = i + 1;
        }
        if start < n {
            let ghost t = cs@.subrange(start as int, n as int);
            proof {
                lemma_terminator_index(t, term, t.len() as int);
            }
            let content = slice_string(text, start, n);
            let line = Line::new(lines.len() + 1, content);
            let ghost before = lines@;
            lines.push(line);
            assert(contents(lines@) =~= contents(before) + split_lines(t, term));
        } else {
            assert(contents(lines@) =~= contents(lines@) + split_lines(
                cs@.subrange(start as int, n as int),
                term,
            ));
        }
        let total_lines = lines.len();
        FileContext { file_path, total_lines, line_ending_format, last_modified_time, lines }
    }

    /// Records the file's modification time after it was read or written.
    pub fn refresh_metadata(&mut self, modified_time: u128)
        ensures
            final(self).last_modified_time == modified_time,
            final(self).file_path == old(self).file_path,
            final(self).total_lines == old(self).total_lines,
            final(self).line_ending_format == old(self).line_ending_format,
            final(self).lines == old(self).lines,
    {
        self.last_modified_time = modified_time;
    }

    /// Whether the file's current modification time is later than the one
    /// recorded, that is, whether another process changed it.
    pub fn check_for_external_modifications(&self, current_modified_time: u128) -> (r: bool)
        ensures
            r == (current_modified_time > self.last_modified_time),
    {
        current_modified_time > self.last_modified_time
    }

    /// The line at 1-based position `line_number`.
    pub fn get_line(&self, line_number: usize) -> (r: Option<&Line>)
        ensures
            r == (if 1 <= line_number <= self.total_lines && line_number <= self.lines.len() {
                Some(&self.lines@[line_number - 1])
            } else {
                None
            }),
            self.wf() && 1 <= line_number <= self.total_lines ==> r is Some && r->0.line_number
                == line_number,
    {
        if line_number == 0 || line_number > self.total_lines {
            return None;
        }
        if line_number <= self.lines.len() {
            Some(&self.lines[line_number - 1])
        } else {
            None
        }
    }

    /// The lines `start..=end`; `(0, 0)` is the empty range of an empty file.
    pub fn get_range(&self, start: usize, end: usize) -> (r: Result<Vec<Line>, GliError>)
        requires
            self.wf(),
        ensures
            start == 0 && end == 0 ==> r is Ok && r->Ok_0@.len() == 0,
            (start == 0) != (end == 0) ==> r == Err::<Vec<Line>, GliError>(
                GliError::InvalidArguments(r->Err_0->InvalidArguments_0),
            ) && r->Err_0->InvalidArguments_0@ == range_zero_message(),
            start != 0 && end != 0 && start > self.total_lines ==> r == Err::<Vec<Line>, GliError>(
                GliError::LineOutOfBounds(start, self.total_lines),
            ),
            start != 0 && end != 0 && start <= self.total_lines && end > self.total_lines ==> r
                == Err::<Vec<Line>, GliError>(GliError::LineOutOfBounds(end, self.total_lines)),
            1 <= end < start <= self.total_lines ==> r == Err::<Vec<Line>, GliError>(
                GliError::InvalidArguments(r->Err_0->InvalidArguments_0),
            ) && r->Err_0->InvalidArguments_0@ == inverted_range_message(start as nat, end as nat),
            1 <= start <= end <= self.total_lines ==> r is Ok && r->Ok_0@ == self.lines@.subrange(
                start - 1,
                end as int,
            ),
    {
        if start == 0 && end == 0 {
            return Ok(Vec::new());
        }
        if start == 0 || end == 0 {
            return Err(GliError::InvalidArguments(range_zero_text()));
        }
        if start > self.total_lines {
            return Err(GliError::LineOutOfBounds(start, self.total_lines));
        }
        if end > self.total_lines {
            return Err(GliError::LineOutOfBounds(end, self.total_lines));
        }
        if start > end {
            return Err(GliError::InvalidArguments(inverted_range_text(start, end)));
        }
        let mut out: Vec<Line> = Vec::new();
        let mut i: usize = start - 1;
        while i < end
            invariant
                1 <= start,
                start - 1 <= i <= end <= self.lines.len(),
                out@ == self.lines@.subrange(start - 1, i as int),
            decreases end - i,
        {
            let line = self.lines[i].clone();
            out.push(line);
            assert(out@ =~= self.lines@.subrange(start - 1, i + 1));
            i = i + 1;
        }
        Ok(out)
    }

    /// Replaces the content of line `line_number` and classifies it anew.
    pub fn update_line(&mut self, line_number: usize, new_content: String) -> (r: Result<
        (),
        GliError,
    >)
        requires
            old(self).wf(),
        ensures
            final(self).wf(),
            line_number == 0 || line_number > old(self).total_lines ==> r == Err::<(), GliError>(
                GliError::LineOutOfBounds(line_number, old(self).total_lines),
            ) && *final(self) == *old(self),
            1 <= line_number <= old(self).total_lines ==> r is Ok && final(self).contents()
                == old(self).contents().update(line_number - 1, new_content@)
                && final(self).total_lines == old(self).total_lines
                && final(self).file_path == old(self).file_path
                && final(self).line_ending_format == old(self).line_ending_format
                && final(self).last_modified_time == old(self).last_modified_time,
    {
        if line_number == 0 || line_number > self.total_lines {
            return Err(GliError::LineOutOfBounds(line_number, self.total_lines));
        }
        let ghost before = self.lines@;
        self.lines.set(line_number - 1, Line::new(line_number, new_content));
        assert(contents(self.lines@) =~= contents(before).update(
            line_number - 1,
            new_content@,
        ));
        Ok(())
    }

    /// Removes line `line_number`; the lines after it move up and are
    /// numbered by their new positions.
    pub fn delete_line(&mut self, line_number: usize) -> (r: Result<(), GliError>)
        requires
            old(self).wf(),
        ensures
            final(self).wf(),
            line_number == 0 || line_number > old(self).total_lines ==> r == Err::<(), GliError>(
                GliError::LineOutOfBounds(line_number, old(self).total_lines),
            ) && *final(self) == *old(self),
            1 <= line_number <= old(self).total_lines ==> r is Ok && final(self).contents()
                == old(self).contents().remove(line_number - 1) && final(self).total_lines
                == old(self).total_lines - 1 && final(self).file_path == old(self).file_path
                && final(self).line_ending_format == old(self).line_ending_format
                && final(self).last_modified_time == old(self).last_modified_time,
            forall|i: int|
                0 <= i < final(self).lines.len() && line_number <= i + 1
                    ==> (#[trigger] final(self).lines@[i]).line_number == i + 1,
    {
        if line_number == 0 || line_number > self.total_lines {
            return Err(GliError::LineOutOfBounds(line_number, self.total_lines));
        }
        let ghost prior = self.lines@;
        let ghost after = self.lines@.remove(line_number - 1);
        self.lines.remove(line_number - 1);
        self.total_lines = self.lines.len();
        let mut idx: usize = line_number - 1;
        while idx < self.lines.len()
            invariant
                line_number - 1 <= idx <= self.lines.len(),
                self.file_path == old(self).file_path,
                self.line_ending_format == old(self).line_ending_format,
                self.last_modified_time == old(self).last_modified_time,
                self.lines.len() == after.len(),
                self.total_lines == after.len(),
                forall|i: int|
                    0 <= i < after.len() ==> (#[trigger] self.lines@[i]).content
                        == after[i].content && self.lines@[i].pattern_type
                        == after[i].pattern_type,
                forall|i: int| 0 <= i < idx ==> (#[trigger] self.lines@[i]).line_number == i + 1,
                forall|i: int| idx <= i < after.len() ==> #[trigger] self.lines@[i] == after[i],
                forall|i: int| 0 <= i < line_number - 1 ==> (#[trigger] after[i]).line_number == i
                    + 1,
            decreases after.len() - idx,
        {
            self.lines[idx].line_number = idx + 1;
            idx = idx + 1;
        }
        assert(contents(self.lines@) =~= contents(after));
        assert(contents(after) =~= contents(prior).remove(line_number - 1));
        Ok(())
    }

    /// The text that the file holds when the buffer is saved: each line
    /// followed by the detected terminator.
    pub fn to_text(&self) -> (r: String)
        ensures
            r@ == serialize(self.contents(), self.line_ending_format),
    {
        let ending = self.line_ending_format.as_str();
        let mut out = String::new();
        let mut i: usize = 0;
        while i < self.lines.len()
            invariant
                i <= self.lines.len(),
                ending@ == ending_chars(self.line_ending_format),
                out@ == serialize(contents(self.lines@.subrange(0, i as int)), self.line_ending_format),
            decreases self.lines.len() - i,
        {
            let ghost before = out@;
            out.append(self.lines[i].content.as_str());
            out.append(ending);
            assert(contents(self.lines@.subrange(0, i + 1)).drop_last() =~= contents(
                self.lines@.subrange(0, i as int),
            ));
            i = i + 1;
        }
        assert(self.lines@.subrange(0, i as int) =~= self.lines@);
        out
    }
}

/// The message for a range with one bound zero.
pub open spec fn range_zero_message() -> Seq<char> {
    "Line numbers must be >= 1"@
}

/// The message for a range whose start follows its end.
pub open spec fn inverted_range_message(start: nat, end: nat) -> Seq<char> {
    "Start line "@ + decimal(start) + " cannot be greater than end line "@ + decimal(end)
}

fn range_zero_text() -> (r: String)
    ensures
        r@ == range_zero_message(),
{
    String::from_str("Line numbers must be >= 1")
}

pub(crate) fn inverted_range_text(start: usize, end: usize) -> (r: String)
    ensures
        r@ == inverted_range_message(start as nat, end as nat),
{
    let mut s = String::from_str("Start line ");
    s.append(decimal_text(start as u64).as_str());
    s.append(" cannot be greater than end line ");
    s.append(decimal_text(end as u64).as_str());
    s
}

proof fn lemma_serialize_front(ls: Seq<Seq<char>>, e: LineEnding)
    requires
        ls.len() > 0,
    ensures
        serialize(ls, e) == ls[0] + ending_chars(e) + serialize(ls.drop_first(), e),
    decreases ls.len(),
{
    if ls.len() == 1 {
        assert(ls.drop_last() =~= seq![]);
        assert(ls.drop_first() =~= seq![]);
        assert(serialize(ls, e) =~= ls[0] + ending_chars(e) + serialize(ls.drop_first(), e));
    } else {
        let dl = ls.drop_last();
        lemma_serialize_front(dl, e);
        assert(ls.drop_first().drop_last() =~= dl.drop_first());
        assert(ls.drop_first().last() == ls.last());
        assert(serialize(ls, e) =~= ls[0] + ending_chars(e) + serialize(ls.drop_first(), e));
    }
}

/// No line holds `\n`.
pub open spec fn no_newlines(ls: Seq<Seq<char>>) -> bool {
    forall|i: int| 0 <= i < ls.len() ==> !(#[trigger] ls[i]).contains('\n')
}

/// No line ends with `\r`.
pub open spec fn no_trailing_cr(ls: Seq<Seq<char>>) -> bool {
    forall|i: int| 0 <= i < ls.len() ==> !((#[trigger] ls[i]).len() > 0 && ls[i].last() == '\r')
}

/// No line holds `\r`.
pub open spec fn no_returns(ls: Seq<Seq<char>>) -> bool {
    forall|i: int| 0 <= i < ls.len() ==> !(#[trigger] ls[i]).contains('\r')
}

proof fn lemma_rest_keeps(ls: Seq<Seq<char>>)
    requires
        ls.len() > 0,
    ensures
        no_newlines(ls) ==> no_newlines(ls.drop_first()),
        no_trailing_cr(ls) ==> no_trailing_cr(ls.drop_first()),
        no_returns(ls) ==> no_returns(ls.drop_first()),
{
    let rest = ls.drop_first();
    assert forall|i: int| 0 <= i < rest.len() implies #[trigger] rest[i] == ls[i + 1] by {}
}

proof fn lemma_split_serialize(ls: Seq<Seq<char>>, e: LineEnding)
    requires
        no_newlines(ls),
        e == LineEnding::LF ==> no_trailing_cr(ls),
        e == LineEnding::CR ==> no_returns(ls),
    ensures
        split_lines(serialize(ls, e), terminator_of(e)) == ls,
    decreases ls.len(),
{
    let t = terminator_of(e);
    if ls.len() == 0 {
        assert(split_lines(serialize(ls, e), t) =~= ls);
    } else {
        lemma_serialize_front(ls, e);
        let l0 = ls[0];
        let rest = ls.drop_first();
        let r = serialize(rest, e);
        let s = serialize(ls, e);
        assert(!l0.contains('\n'));
        assert(e == LineEnding::CR ==> !l0.contains('\r'));
        let k: int = if e == LineEnding::CRLF {
            l0.len() as int + 1
        } else {
            l0.len() as int
        };
        assert forall|m: int| 0 <= m < k implies s[m] != t by {
            if m < l0.len() {
                assert(s[m] == l0[m]);
            }
        }
        lemma_terminator_index(s, t, k);
        assert(s.subrange(k + 1, s.len() as int) =~= r);
        if e == LineEnding::CRLF {
            assert(s.subrange(0, k).drop_last() =~= l0);
        } else {
            assert(s.subrange(0, k) =~= l0);
        }
        lemma_rest_keeps(ls);
        lemma_split_serialize(rest, e);
        assert(split_lines(s, t) =~= seq![l0] + rest);
        assert(seq![l0] + rest =~= ls);
    }
}

proof fn lemma_no_newline_serialize(ls: Seq<Seq<char>>)
    requires
        no_newlines(ls),
    ensures
        !serialize(ls, LineEnding::CR).contains('\n'),
    decreases ls.len(),
{
    if ls.len() > 0 {
        let e = LineEnding::CR;
        lemma_serialize_front(ls, e);
        let l0 = ls[0];
        let s = serialize(ls, e);
        let r = serialize(ls.drop_first(), e);
        lemma_rest_keeps(ls);
        lemma_no_newline_serialize(ls.drop_first());
        assert(!l0.contains('\n'));
        if s.contains('\n') {
            let i = choose|i: int| 0 <= i < s.len() && s[i] == '\n';
            if i < l0.len() {
                assert(l0[i] == '\n');
            } else if i > l0.len() {
                assert(r[i - l0.len() - 1] == '\n');
            }
        }
    }
}

proof fn lemma_no_crlf_serialize(ls: Seq<Seq<char>>)
    requires
        no_newlines(ls),
        no_trailing_cr(ls),
    ensures
        !has_crlf(serialize(ls, LineEnding::LF)),
    decreases ls.len(),
{
    if ls.len() > 0 {
        let e = LineEnding::LF;
        lemma_serialize_front(ls, e);
        let l0 = ls[0];
        let rest = ls.drop_first();
        let r = serialize(rest, e);
        let s = serialize(ls, e);
        let n0 = l0.len() as int;
        assert(!l0.contains('\n'));
        assert(no_newlines(rest)) by {
            assert forall|i: int| 0 <= i < rest.len() implies !(#[trigger] rest[i]).contains(
                '\n',
            ) by {
                assert(rest[i] == ls[i + 1]);
            }
        }
        assert(no_trailing_cr(rest)) by {
            assert forall|i: int| 0 <= i < rest.len() implies !((#[trigger] rest[i]).len() > 0
                && rest[i].last() == '\r') by {
                assert(rest[i] == ls[i + 1]);
            }
        }
        lemma_no_crlf_serialize(rest);
        if has_crlf(s) {
            let i = choose|i: int| 0 <= i < s.len() - 1 && #[trigger] s[i] == '\r' && s[i + 1] == '\n';
            if i + 1 < n0 {
                assert(l0[i + 1] == '\n');
            } else if i + 1 == n0 {
                assert(l0[i] == '\r');
                assert(l0.last() == '\r');
            } else if i == n0 {
                assert(s[i] == '\n');
            } else {
                assert(r[i - n0 - 1] == '\r' && r[i - n0] == '\n');
                assert(has_crlf(r));
            }
        }
    }
}

/// Saving lines and reading the saved text back gives the same lines and
/// the same terminator style. It fails only for texts it cannot hold: a line
/// with `\n`, a `\n` file with a line ending in `\r`, a `\r` file with a
/// line holding `\r`, and an empty `\r\n` or `\r` file (read back as `\n`).
pub proof fn lemma_save_then_load(ls: Seq<Seq<char>>, e: LineEnding)
    requires
        no_newlines(ls),
        e == LineEnding::LF ==> no_trailing_cr(ls),
        e == LineEnding::CR ==> no_returns(ls),
        e != LineEnding::LF ==> ls.len() > 0,
    ensures
        detect_ending(serialize(ls, e)) == e,
        text_lines(serialize(ls, e)) == ls,
{
    lemma_split_serialize(ls, e);
    let s = serialize(ls, e);
    if ls.len() == 0 {
        assert(s =~= seq![]);
        assert(!has_crlf(s));
        assert(!s.contains('\n'));
        assert(!s.contains('\r'));
    } else {
        lemma_serialize_front(ls, e);
        let n0 = ls[0].len() as int;
        if e == LineEnding::LF {
            lemma_no_crlf_serialize(ls);
            assert(s[n0] == '\n');
        } else if e == LineEnding::CRLF {
            assert(s[n0] == '\r' && s[n0 + 1] == '\n');
        } else {
            lemma_no_newline_serialize(ls);
            assert(!has_crlf(s)) by {
                if has_crlf(s) {
                    let i = choose|i: int|
                        0 <= i < s.len() - 1 && #[trigger] s[i] == '\r' && s[i + 1] == '\n';
                    assert(s.contains('\n')) by {
                        assert(s[i + 1] == '\n');
                    }
                }
            }
            assert(s[n0] == '\r');
        }
    }
}

/// The modification time of a file as it was at one moment, to tell
/// whether another process changed the file since.
#[derive(Debug, Clone)]
pub struct FileSnapshot {
    pub file_path: String,
    /// Nanoseconds since the Unix epoch.
    pub last_modified_time: u128,
}

impl FileSnapshot {
    /// The snapshot of `file_path`, whose modification time is `modified_time`.
    pub fn capture(file_path: String, modified_time: u128) -> (r: Self)
        ensures
            r.file_path == file_path,
            r.last_modified_time == modified_time,
    {
        FileSnapshot { file_path, last_modified_time: modified_time }
    }

    /// Whether the file's current modification time is later than the captured one.
    pub fn has_changed(&self, current_modified_time: u128) -> (r: bool)
        ensures
            r == (current_modified_time > self.last_modified_time),
    {
        current_modified_time > self.last_modified_time
    }
}

/// Builds buffers from files' text.
pub struct FileReader;

impl FileReader {
    pub fn new() -> Self {
        FileReader
    }

    /// The buffer of the file at `file_path`, whose whole text is `text`.
    pub fn read_file(file_path: String, text: &str, last_modified_time: u128) -> (r: FileContext)
        ensures
            r.wf(),
            r.contents() == text_lines(text@),
            r.line_ending_format == detect_ending(text@),
            r.file_path == file_path,
            r.last_modified_time == last_modified_time,
    {
        FileContext::load(file_path, text, last_modified_time)
    }
}

} // verus!
