//! The viewing session over a buffer: the window of lines on show, the
//! cursor line, the preview of the file a fingerprint points to, and the
//! navigation that moves them.
//!
//! Every move computes a new window from the current one and the line count,
//! clamps it to the file, and rebuilds the window's lines from the buffer.

use vstd::prelude::*;
use vstd::math::{max, min};
use crate::error::GliError;
use crate::file_reader::{inverted_range_message, range_zero_message, FileContext};
use crate::line::{Line, LineRange};
use crate::pattern::PatternType;

verus! {

/// Lines from the cursor to the window's edge at which scrolling shifts the window.
pub const SCROLL_MARGIN: usize = 3;

/// Lines shown on each side of a preview's target line.
pub const PREVIEW_CONTEXT: usize = 10;

/// Rows of the screen taken by the status line and borders.
pub const SCREEN_CHROME: u16 = 3;

/// Whether the interface is viewing or editing a line.
#[derive(Debug, Clone, Copy, PartialEq, Eq, Structural)]
pub enum AppMode {
    View,
    Edit,
}

/// Lines of another file around the line that a fingerprint names.
#[derive(Debug, Clone)]
pub struct PreviewContent {
    pub file_path: String,
    /// The line the fingerprint names, clamped to the file.
    pub target_line: usize,
    /// The lines shown, from `start_line` on.
    pub lines: Vec<String>,
    pub start_line: usize,
}

/// The window `(start, end)` is `(0, 0)`, or lies within `1..=total`.
pub open spec fn window_ok(start: int, end: int, total: int) -> bool {
    (start == 0 && end == 0) || (1 <= start <= end <= total)
}

/// The number of lines above a window starting at `start`.
pub open spec fn offset_of(start: int) -> int {
    if start > 0 {
        start - 1
    } else {
        0
    }
}

/// The lines of window `(start, end)`.
pub open spec fn window_lines(lines: Seq<Line>, start: int, end: int) -> Seq<Line> {
    if start == 0 {
        seq![]
    } else {
        lines.subrange(start - 1, end)
    }
}

/// The window `(start, start + height)`, cut at the last line.
pub open spec fn from_start(start: int, height: int, total: int) -> (int, int) {
    (start, min(start + height, total))
}

/// The window one page up from `(start, end)`, clamped to the file.
pub open spec fn page_up_window(start: int, end: int, total: int) -> (int, int) {
    from_start(max(start - (end - start), 1), end - start, total)
}

/// The window one page down from `(start, end)`, clamped to the file.
pub open spec fn page_down_window(start: int, end: int, total: int) -> (int, int) {
    from_start(min(end, max(total - (end - start), 1)), end - start, total)
}

/// The window of the same height at the top of the file.
pub open spec fn top_window(start: int, end: int, total: int) -> (int, int) {
    from_start(1, end - start, total)
}

/// The window `(total - height + 1, total)`, clamped to the file.
pub open spec fn bottom_window(start: int, end: int, total: int) -> (int, int) {
    (max(min(total - (end - start) + 1, total), 1), total)
}

/// The window of the same height that puts `line` in its middle, clamped to the file.
pub open spec fn centred_window(line: int, start: int, end: int, total: int) -> (int, int) {
    from_start(max(line - (end - start) / 2, 1), end - start, total)
}

/// The window of `rows` lines that puts `line` in its middle, clamped to the file.
pub open spec fn screen_window(line: int, rows: int, total: int) -> (int, int) {
    from_start(max(line - rows / 2, 1), rows - 1, total)
}

/// What a jump to a line did.
#[derive(Debug, Clone, Copy, PartialEq, Eq, Structural)]
pub enum JumpOutcome {
    /// The window now shows the line, which is the cursor line.
    Jumped(usize),
    /// The line is not in the file; nothing moved.
    InvalidLine(usize),
}

/// `min(start + height, total)` without overflow.
fn end_from(start: usize, height: usize, total: usize) -> (r: usize)
    requires
        start <= total,
    ensures
        r == min(start + height, total as int),
{
    if height <= total - start {
        start + height
    } else {
        total
    }
}

/// `p` shows the lines `all_lines` of `file_path` around line `target_line`,
/// clamped to the file, with `PREVIEW_CONTEXT` lines on each side.
pub open spec fn is_preview_of(
    p: PreviewContent,
    file_path: String,
    target_line: u32,
    all_lines: Seq<String>,
) -> bool {
    let n = all_lines.len() as int;
    let target = min(target_line as int, n);
    let start = max(target - PREVIEW_CONTEXT, 1);
    let end = min(target + PREVIEW_CONTEXT, n);
    &&& p.file_path == file_path
    &&& p.target_line == target
    &&& p.start_line == start
    &&& p.lines@ == all_lines.subrange(start - 1, end)
}

impl PreviewContent {
    /// The preview of a file whose lines are `all_lines`, around line
    /// `target_line` (clamped to the file); `None` for an empty file.
    pub fn from_lines(file_path: String, target_line: u32, all_lines: Vec<String>) -> (r: Option<
        PreviewContent,
    >)
        ensures
            all_lines.len() == 0 ==> r is None,
            all_lines.len() > 0 ==> r is Some && is_preview_of(
                r->0,
                file_path,
                target_line,
                all_lines@,
            ),
    {
        let n = all_lines.len();
        if n == 0 {
            return None;
        }
        let target: usize = if (target_line as usize) < n {
            target_line as usize
        } else {
            n
        };
        let start_line: usize = if target > PREVIEW_CONTEXT + 1 {
            target - PREVIEW_CONTEXT
        } else {
            1
        };
        let end_line: usize = end_from(target, PREVIEW_CONTEXT, n);
        let mut lines: Vec<String> = Vec::new();
        let mut i: usize = start_line - 1;
        while i < end_line
            invariant
                1 <= start_line,
                start_line - 1 <= i <= end_line <= n == all_lines.len(),
                lines@ == all_lines@.subrange(start_line - 1, i as int),
            decreases end_line - i,
        {
            lines.push(all_lines[i].clone());
            assert(lines@ =~= all_lines@.subrange(start_line - 1, i + 1));
            i = i + 1;
        }
        Some(PreviewContent { file_path, target_line: target, lines, start_line })
    }
}

/// The viewing state of one buffer.
pub struct ViewState {
    pub file_context: FileContext,
    /// The window on show.
    pub visible_range: LineRange,
    /// Lines above the window, set to `start_line - 1` by each move of the window.
    pub scroll_offset: usize,
    /// The cursor line; 0 when there is none.
    pub current_line: usize,
    pub preview_enabled: bool,
    pub preview_content: Option<PreviewContent>,
}

impl ViewState {
    /// The buffer is well formed, the window lies within it and holds its
    /// lines, and the cursor is within the file.
    pub open spec fn wf(&self) -> bool {
        &&& self.file_context.wf()
        &&& window_ok(
            self.visible_range.start_line as int,
            self.visible_range.end_line as int,
            self.file_context.total_lines as int,
        )
        &&& self.visible_range.entries@ == window_lines(
            self.file_context.lines@,
            self.visible_range.start_line as int,
            self.visible_range.end_line as int,
        )
        &&& self.current_line <= self.file_context.total_lines
    }

    /// The window on show.
    pub open spec fn window(&self) -> (int, int) {
        (self.visible_range.start_line as int, self.visible_range.end_line as int)
    }

    pub open spec fn total(&self) -> int {
        self.file_context.total_lines as int
    }

    /// Only the window (and the offset that follows it) and the cursor differ.
    pub open spec fn same_but_window(&self, other: &ViewState) -> bool {
        &&& self.file_context == other.file_context
        &&& self.preview_enabled == other.preview_enabled
        &&& self.preview_content == other.preview_content
    }

    /// The view of window `(start_line, end_line)` of `file_context`, with the
    /// cursor on its first line; the errors are those of `get_range`.
    pub fn new(file_context: FileContext, start_line: usize, end_line: usize) -> (r: Result<
        Self,
        GliError,
    >)
        requires
            file_context.wf(),
        ensures
            window_ok(start_line as int, end_line as int, file_context.total_lines as int) ==> r is Ok
                && r->Ok_0.wf() && r->Ok_0.file_context == file_context && r->Ok_0.window() == (
                start_line as int,
                end_line as int,
            ) && r->Ok_0.current_line == start_line && r->Ok_0.scroll_offset == 0
                && r->Ok_0.preview_enabled && r->Ok_0.preview_content is None,
            (start_line == 0) != (end_line == 0) ==> r is Err && r->Err_0 is InvalidArguments
                && r->Err_0->InvalidArguments_0@ == range_zero_message(),
            start_line != 0 && end_line != 0 && start_line > file_context.total_lines ==> r is Err
                && r->Err_0 == GliError::LineOutOfBounds(start_line, file_context.total_lines),
            start_line != 0 && end_line != 0 && start_line <= file_context.total_lines && end_line
                > file_context.total_lines ==> r is Err && r->Err_0 == GliError::LineOutOfBounds(
                end_line,
                file_context.total_lines,
            ),
            1 <= end_line < start_line <= file_context.total_lines ==> r is Err
                && r->Err_0 is InvalidArguments && r->Err_0->InvalidArguments_0@
                == inverted_range_message(start_line as nat, end_line as nat),
    {
        let lines = match file_context.get_range(start_line, end_line) {
            Ok(lines) => lines,
            Err(e) => {
                return Err(e);
            },
        };
        assert(lines@ =~= window_lines(file_context.lines@, start_line as int, end_line as int));
        let visible_range = LineRange::new(start_line, end_line, lines);
        let current_line = if start_line == 0 && end_line == 0 {
            0
        } else if start_line > 1 {
            start_line
        } else {
            1
        };
        Ok(ViewState {
            file_context,
            visible_range,
            scroll_offset: 0,
            current_line,
            preview_enabled: true,
            preview_content: None,
        })
    }

    /// Shows window `(start, end)`, rebuilt from the buffer.
    fn show_window(&mut self, start: usize, end: usize)
        requires
            old(self).file_context.wf(),
            old(self).current_line <= old(self).total(),
            window_ok(start as int, end as int, old(self).total()),
        ensures
            final(self).wf(),
            final(self).same_but_window(old(self)),
            final(self).current_line == old(self).current_line,
            final(self).scroll_offset == old(self).scroll_offset,
            final(self).window() == (start as int, end as int),
    {
        match self.file_context.get_range(start, end) {
            Ok(lines) => {
                assert(lines@ =~= window_lines(self.file_context.lines@, start as int, end as int));
                self.visible_range = LineRange::new(start, end, lines);
            },
            Err(_) => {},
        }
    }

    /// Moves to window `(start, end)`; the offset follows its start.
    fn update_visible_range(&mut self, start: usize, end: usize)
        requires
            old(self).wf(),
            window_ok(start as int, end as int, old(self).total()),
        ensures
            final(self).wf(),
            final(self).same_but_window(old(self)),
            final(self).current_line == old(self).current_line,
            final(self).scroll_offset == offset_of(start as int),
            final(self).window() == (start as int, end as int),
    {
        self.show_window(start, end);
        self.scroll_offset = if start > 0 {
            start - 1
        } else {
            0
        };
    }

    /// Moves the cursor one line up; the window follows one line when the
    /// cursor comes within the margin of its top and the file goes on above.
    pub fn scroll_up(&mut self)
        requires
            old(self).wf(),
        ensures
            final(self).wf(),
            final(self).same_but_window(old(self)),
            old(self).current_line <= 1 ==> final(self).current_line == old(self).current_line
                && final(self).window() == old(self).window(),
            old(self).current_line > 1 ==> final(self).current_line == old(self).current_line - 1
                && final(self).window() == (if old(self).current_line - 1 < old(self).window().0
                + SCROLL_MARGIN && old(self).window().0 > 1 {
                from_start(
                    old(self).window().0 - 1,
                    old(self).window().1 - old(self).window().0,
                    old(self).total(),
                )
            } else {
                old(self).window()
            }),
            final(self).scroll_offset == (if old(self).current_line > 1 && old(self).current_line
                - 1 < old(self).window().0 + SCROLL_MARGIN && old(self).window().0 > 1 {
                offset_of(final(self).window().0)
            } else {
                old(self).scroll_offset as int
            }),
    {
        if self.current_line > 1 {
            self.current_line = self.current_line - 1;
            let start = self.visible_range.start_line;
            let end = self.visible_range.end_line;
            let total = self.file_context.total_lines;
            let distance_from_top = if self.current_line > start {
                self.current_line - start
            } else {
                0
            };
            if distance_from_top < SCROLL_MARGIN && start > 1 {
                let new_start = start - 1;
                let new_end = end_from(new_start, end - start, total);
                self.update_visible_range(new_start, new_end);
            }
        }
    }

    /// Moves the cursor one line down; the window follows one line when the
    /// cursor comes within the margin of its bottom and the file goes on below.
    pub fn scroll_down(&mut self)
        requires
            old(self).wf(),
        ensures
            final(self).wf(),
            final(self).same_but_window(old(self)),
            old(self).current_line >= old(self).total() ==> final(self).current_line == old(self).current_line && final(self).window() == old(self).window(),
            old(self).current_line < old(self).total() ==> final(self).current_line == old(self).current_line + 1 && final(self).window() == (if old(self).window().1 < old(self).current_line + 1 + SCROLL_MARGIN && old(self).window().1 < old(self).total() {
                from_start(
                    old(self).window().0 + 1,
                    old(self).window().1 - old(self).window().0,
                    old(self).total(),
                )
            } else {
                old(self).window()
            }),
            final(self).scroll_offset == (if old(self).current_line < old(self).total() && old(self).window().1 < old(self).current_line + 1 + SCROLL_MARGIN && old(self).window().1
                < old(self).total() {
                offset_of(final(self).window().0)
            } else {
                old(self).scroll_offset as int
            }),
    {
        let total = self.file_context.total_lines;
        if self.current_line < total {
            self.current_line = self.current_line + 1;
            let start = self.visible_range.start_line;
            let end = self.visible_range.end_line;
            let distance_from_bottom = if end > self.current_line {
                end - self.current_line
            } else {
                0
            };
            if distance_from_bottom < SCROLL_MARGIN && end < total {
                let new_start = start + 1;
                let new_end = end_from(new_start, end - start, total);
                self.update_visible_range(new_start, new_end);
            }
        }
    }

    /// Moves the window up by its height, not above line 1; the cursor goes
    /// to its first line. An empty file has nothing to move over.
    pub fn page_up(&mut self)
        requires
            old(self).wf(),
        ensures
            final(self).wf(),
            final(self).same_but_window(old(self)),
            old(self).total() == 0 ==> *final(self) == *old(self),
            old(self).total() > 0 ==> final(self).window() == page_up_window(
                old(self).window().0,
                old(self).window().1,
                old(self).total(),
            ) && final(self).current_line == final(self).window().0,
            old(self).total() > 0 ==> final(self).scroll_offset == offset_of(final(self).window().0),
    {
        let total = self.file_context.total_lines;
        if total == 0 {
            return;
        }
        let start = self.visible_range.start_line;
        let height = self.visible_range.end_line - start;
        let new_start = if start > height && start - height > 1 {
            start - height
        } else {
            1
        };
        let new_end = end_from(new_start, height, total);
        self.update_visible_range(new_start, new_end);
        self.current_line = new_start;
    }

    /// Moves the window down by its height, not past the last line; the
    /// cursor goes to its first line. An empty file has nothing to move over.
    pub fn page_down(&mut self)
        requires
            old(self).wf(),
        ensures
            final(self).wf(),
            final(self).same_but_window(old(self)),
            old(self).total() == 0 ==> *final(self) == *old(self),
            old(self).total() > 0 ==> final(self).window() == page_down_window(
                old(self).window().0,
                old(self).window().1,
                old(self).total(),
            ) && final(self).current_line == final(self).window().0,
            old(self).total() > 0 ==> final(self).scroll_offset == offset_of(final(self).window().0),
    {
        let total = self.file_context.total_lines;
        if total == 0 {
            return;
        }
        let start = self.visible_range.start_line;
        let end = self.visible_range.end_line;
        let height = end - start;
        let limit = if total - height > 1 {
            total - height
        } else {
            1
        };
        let new_start = if end < limit {
            end
        } else {
            limit
        };
        let new_end = end_from(new_start, height, total);
        self.update_visible_range(new_start, new_end);
        self.current_line = new_start;
    }

    /// Puts the window, of the same height, at the top of the file and the
    /// cursor on line 1. An empty file has nothing to move over.
    pub fn jump_to_top(&mut self)
        requires
            old(self).wf(),
        ensures
            final(self).wf(),
            final(self).same_but_window(old(self)),
            old(self).total() == 0 ==> *final(self) == *old(self),
            old(self).total() > 0 ==> final(self).window() == top_window(
                old(self).window().0,
                old(self).window().1,
                old(self).total(),
            ) && final(self).current_line == 1,
            old(self).total() > 0 ==> final(self).scroll_offset == offset_of(final(self).window().0),
    {
        let total = self.file_context.total_lines;
        if total == 0 {
            return;
        }
        let height = self.visible_range.end_line - self.visible_range.start_line;
        let new_end = end_from(1, height, total);
        self.update_visible_range(1, new_end);
        self.current_line = 1;
    }

    /// Puts the window at the bottom of the file and the cursor on the last
    /// line. An empty file has nothing to move over.
    pub fn jump_to_bottom(&mut self)
        requires
            old(self).wf(),
        ensures
            final(self).wf(),
            final(self).same_but_window(old(self)),
            old(self).total() == 0 ==> *final(self) == *old(self),
            old(self).total() > 0 ==> final(self).window() == bottom_window(
                old(self).window().0,
                old(self).window().1,
                old(self).total(),
            ) && final(self).current_line == old(self).total(),
            old(self).total() > 0 ==> final(self).scroll_offset == offset_of(final(self).window().0),
    {
        let total = self.file_context.total_lines;
        if total == 0 {
            return;
        }
        let height = self.visible_range.end_line - self.visible_range.start_line;
        let new_start = if height == 0 {
            total
        } else if total - 1 > height - 1 {
            total - (height - 1)
        } else {
            1
        };
        self.update_visible_range(new_start, total);
        self.current_line = total;
    }

    /// Centres the window on `target_line` and puts the cursor there; a line
    /// outside the file moves nothing.
    pub fn jump_to_line(&mut self, target_line: usize) -> (r: JumpOutcome)
        requires
            old(self).wf(),
        ensures
            final(self).wf(),
            final(self).same_but_window(old(self)),
            target_line == 0 || target_line > old(self).total() ==> r == JumpOutcome::InvalidLine(
                target_line,
            ) && *final(self) == *old(self),
            1 <= target_line <= old(self).total() ==> r == JumpOutcome::Jumped(target_line)
                && final(self).window() == centred_window(
                target_line as int,
                old(self).window().0,
                old(self).window().1,
                old(self).total(),
            ) && final(self).current_line == target_line,
            1 <= target_line <= old(self).total() ==> final(self).scroll_offset == offset_of(
                final(self).window().0,
            ),
    {
        let total = self.file_context.total_lines;
        if target_line == 0 || target_line > total {
            return JumpOutcome::InvalidLine(target_line);
        }
        let height = self.visible_range.end_line - self.visible_range.start_line;
        let half = height / 2;
        let new_start = if target_line > half && target_line - half > 1 {
            target_line - half
        } else {
            1
        };
        let new_end = end_from(new_start, height, total);
        self.update_visible_range(new_start, new_end);
        self.current_line = target_line;
        JumpOutcome::Jumped(target_line)
    }

    /// Fits the window to a screen of `screen_height` rows, centred on the
    /// cursor line. Nothing changes when no row is left for lines, or the file
    /// is empty.
    pub fn adjust_viewport_to_screen(&mut self, screen_height: u16)
        requires
            old(self).wf(),
        ensures
            final(self).wf(),
            final(self).same_but_window(old(self)),
            final(self).current_line == old(self).current_line,
            screen_height <= SCREEN_CHROME || old(self).total() == 0 ==> *final(self) == *old(self),
            screen_height > SCREEN_CHROME && old(self).total() > 0 ==> final(self).window()
                == screen_window(
                old(self).current_line as int,
                screen_height - SCREEN_CHROME,
                old(self).total(),
            ),
            screen_height > SCREEN_CHROME && old(self).total() > 0 ==> final(self).scroll_offset
                == offset_of(final(self).window().0),
    {
        let total = self.file_context.total_lines;
        if screen_height <= SCREEN_CHROME || total == 0 {
            return;
        }
        let rows = (screen_height - SCREEN_CHROME) as usize;
        let half = rows / 2;
        let current = self.current_line;
        let new_start = if current > half && current - half > 1 {
            current - half
        } else {
            1
        };
        let new_end = end_from(new_start, rows - 1, total);
        self.update_visible_range(new_start, new_end);
    }

    /// The file and line that the cursor line's fingerprint names, when the
    /// preview is on.
    pub open spec fn preview_target_of(&self) -> Option<(String, u32)> {
        if self.preview_enabled && 1 <= self.current_line <= self.file_context.lines.len()
            && self.current_line <= self.file_context.total_lines {
            match self.file_context.lines@[self.current_line - 1].pattern_type {
                PatternType::Fingerprint { file_path, line_number, .. } => Some(
                    (file_path, line_number),
                ),
                _ => None,
            }
        } else {
            None
        }
    }

    /// The file to preview and the line in it, when the preview is on and the
    /// cursor is on a fingerprint.
    pub fn preview_target(&self) -> (r: Option<(String, u32)>)
        ensures
            r == self.preview_target_of(),
    {
        if !self.preview_enabled {
            return None;
        }
        match self.file_context.get_line(self.current_line) {
            Some(line) => match &line.pattern_type {
                PatternType::Fingerprint { file_path, line_number, .. } => Some(
                    (file_path.clone(), *line_number),
                ),
                _ => None,
            },
            None => None,
        }
    }

    /// Sets the preview from the lines of the file that `preview_target`
    /// names (`None` when it could not be read).
    pub fn update_preview(&mut self, preview_file: Option<Vec<String>>)
        requires
            old(self).wf(),
        ensures
            final(self).wf(),
            final(self).file_context == old(self).file_context,
            final(self).visible_range == old(self).visible_range,
            final(self).scroll_offset == old(self).scroll_offset,
            final(self).current_line == old(self).current_line,
            final(self).preview_enabled == old(self).preview_enabled,
            match (old(self).preview_target_of(), preview_file) {
                (Some((path, line)), Some(lines)) => if lines.len() > 0 {
                    final(self).preview_content is Some && is_preview_of(
                        final(self).preview_content->0,
                        path,
                        line,
                        lines@,
                    )
                } else {
                    final(self).preview_content is None
                },
                _ => final(self).preview_content is None,
            },
    {
        let target = self.preview_target();
        self.preview_content = match (target, preview_file) {
            (Some((path, line)), Some(lines)) => PreviewContent::from_lines(path, line, lines),
            _ => None,
        };
    }

    /// Replaces the content of line `line_number` in the buffer and shows
    /// the window anew; a line outside the file changes nothing.
    pub fn commit_line_edit(&mut self, line_number: usize, new_content: String) -> (r: Result<
        (),
        GliError,
    >)
        requires
            old(self).wf(),
        ensures
            final(self).wf(),
            final(self).window() == old(self).window(),
            final(self).current_line == old(self).current_line,
            final(self).scroll_offset == old(self).scroll_offset,
            final(self).preview_enabled == old(self).preview_enabled,
            final(self).preview_content == old(self).preview_content,
            line_number == 0 || line_number > old(self).total() ==> r == Err::<(), GliError>(
                GliError::LineOutOfBounds(line_number, old(self).file_context.total_lines),
            ) && *final(self) == *old(self),
            1 <= line_number <= old(self).total() ==> r is Ok && final(self).file_context.contents()
                == old(self).file_context.contents().update(line_number - 1, new_content@)
                && final(self).total() == old(self).total()
                && final(self).file_context.file_path == old(self).file_context.file_path
                && final(self).file_context.line_ending_format
                == old(self).file_context.line_ending_format,
    {
        match self.file_context.update_line(line_number, new_content) {
            Ok(()) => {},
            Err(e) => {
                return Err(e);
            },
        }
        let start = self.visible_range.start_line;
        let end = self.visible_range.end_line;
        self.show_window(start, end);
        Ok(())
    }
}

} // verus!
