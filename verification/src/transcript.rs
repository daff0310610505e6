//! The transcript: what the device sent and what the operator sent, newest
//! last, bounded in length and scrollable.

use vstd::prelude::*;
use vstd::slice::slice_subrange;
use crate::text::{chars_of, contains_chars, contains_text};

verus! {

/// The most lines that the transcript keeps.
pub const MAX_LINES: usize = 1000;

/// How many lines one scroll command moves the view.
pub const SCROLL_STEP: usize = 3;

/// Where a line came from, which decides how it is shown.
#[derive(Clone, Copy, Debug, PartialEq, Eq, Structural)]
pub enum Category {
    /// Sent by the device.
    Inbound,
    /// Sent by the device and marked as an error.
    InboundError,
    /// Sent by the operator.
    Outbound,
}

/// One line of the transcript as it is shown. A line stays as it was made.
#[derive(Clone, Debug)]
pub struct TranscriptLine {
    text: String,
    category: Category,
    timestamp: String,
}

/// A transcript line as plain values.
pub struct LineView {
    /// The text on the screen.
    pub text: Seq<char>,
    /// Where the line came from.
    pub category: Category,
    /// When the line was made, in RFC 3339 form.
    pub timestamp: Seq<char>,
}

impl View for TranscriptLine {
    type V = LineView;

    closed spec fn view(&self) -> LineView {
        LineView { text: self.text@, category: self.category, timestamp: self.timestamp@ }
    }
}

/// A line from the device counts as an error when it holds this marker.
pub open spec fn error_marker() -> Seq<char> {
    "ERROR"@
}

/// What stands in front of a line from the device.
pub open spec fn inbound_prefix() -> Seq<char> {
    "[Arduino] "@
}

/// What stands in front of a line from the operator.
pub open spec fn outbound_prefix() -> Seq<char> {
    "> "@
}

/// The category of a line from the device.
pub open spec fn inbound_category(text: Seq<char>) -> Category {
    if contains_text(text, error_marker()) {
        Category::InboundError
    } else {
        Category::Inbound
    }
}

/// The transcript line for a line from the device.
pub open spec fn inbound_line(text: Seq<char>, timestamp: Seq<char>) -> LineView {
    LineView { text: inbound_prefix() + text, category: inbound_category(text), timestamp }
}

/// The transcript line for a line from the operator.
pub open spec fn outbound_line(text: Seq<char>, timestamp: Seq<char>) -> LineView {
    LineView { text: outbound_prefix() + text, category: Category::Outbound, timestamp }
}

/// The entry that the log gets for a line.
pub open spec fn log_entry(line: LineView) -> Seq<char> {
    "["@ + line.timestamp + "] "@ + line.text + "\n"@
}

impl TranscriptLine {
    /// A line with the given text, category and time.
    pub fn new(text: &str, category: Category, timestamp: &str) -> (line: TranscriptLine)
        ensures
            line@ == (LineView { text: text@, category, timestamp: timestamp@ }),
    {
        TranscriptLine {
            text: String::from_str(text),
            category,
            timestamp: String::from_str(timestamp),
        }
    }

    /// The text on the screen.
    pub fn text(&self) -> (t: &str)
        ensures
            t@ == self@.text,
    {
        self.text.as_str()
    }

    /// Where the line came from.
    pub fn category(&self) -> (c: Category)
        ensures
            c == self@.category,
    {
        self.category
    }

    /// When the line was made, in RFC 3339 form.
    pub fn timestamp(&self) -> (t: &str)
        ensures
            t@ == self@.timestamp,
    {
        self.timestamp.as_str()
    }

    /// The line for `text` as the device sent it.
    pub fn inbound(text: &str, timestamp: &str) -> (line: TranscriptLine)
        ensures
            line@ == inbound_line(text@, timestamp@),
    {
        let hay = chars_of(text);
        let needle = chars_of("ERROR");
        let category = if contains_chars(hay.as_slice(), needle.as_slice()) {
            Category::InboundError
        } else {
            Category::Inbound
        };
        let mut shown = String::from_str("[Arduino] ");
        shown.append(text);
        TranscriptLine { text: shown, category, timestamp: String::from_str(timestamp) }
    }

    /// The line for `text` as the operator sent it.
    pub fn outbound(text: &str, timestamp: &str) -> (line: TranscriptLine)
        ensures
            line@ == outbound_line(text@, timestamp@),
    {
        let mut shown = String::from_str("> ");
        shown.append(text);
        TranscriptLine {
            text: shown,
            category: Category::Outbound,
            timestamp: String::from_str(timestamp),
        }
    }

    /// The entry that the log gets for this line: the time in square
    /// brackets, a space, the text, a line feed.
    pub fn log_entry(&self) -> (entry: String)
        ensures
            entry@ == log_entry(self@),
    {
        let mut entry = String::from_str("[");
        entry.append(self.timestamp.as_str());
        entry.append("] ");
        entry.append(self.text.as_str());
        entry.append("\n");
        entry
    }
}

/// How far the view is moved up from the newest line.
#[derive(Clone, Copy, Debug, PartialEq, Eq, Structural)]
pub struct ScrollState {
    pub offset: usize,
}

/// A transcript as plain values.
pub struct TranscriptView {
    /// The lines, oldest first.
    pub lines: Seq<LineView>,
    /// The number of lines by which the view is moved up from the end.
    pub scroll: nat,
}

/// The largest scroll offset for a transcript of `len` lines.
pub open spec fn max_scroll(len: nat) -> nat {
    if len == 0 {
        0
    } else {
        (len - 1) as nat
    }
}

impl TranscriptView {
    /// At most `MAX_LINES` lines, and a scroll offset that stays on them.
    pub open spec fn wf(self) -> bool {
        self.lines.len() <= MAX_LINES && self.scroll <= max_scroll(self.lines.len())
    }

    /// The transcript after one more line. While there is room the line is
    /// added and nothing else changes. At capacity the oldest line leaves as
    /// the new one comes, and a view that was moved up is moved up one line
    /// less.
    pub open spec fn append(self, line: LineView) -> TranscriptView {
        if self.lines.len() < MAX_LINES {
            TranscriptView { lines: self.lines.push(line), scroll: self.scroll }
        } else {
            TranscriptView {
                lines: self.lines.drop_first().push(line),
                scroll: if self.scroll > 0 {
                    (self.scroll - 1) as nat
                } else {
                    0
                },
            }
        }
    }

    /// The transcript after a run of lines, appended in order.
    pub open spec fn append_all(self, lines: Seq<LineView>) -> TranscriptView
        decreases lines.len(),
    {
        if lines.len() == 0 {
            self
        } else {
            self.append_all(lines.drop_last()).append(lines.last())
        }
    }

    /// The view moved up by one step, as far as the oldest line allows.
    pub open spec fn scroll_up(self) -> TranscriptView {
        TranscriptView {
            lines: self.lines,
            scroll: if self.scroll + SCROLL_STEP <= max_scroll(self.lines.len()) {
                (self.scroll + SCROLL_STEP) as nat
            } else {
                max_scroll(self.lines.len())
            },
        }
    }

    /// The view moved down by one step, as far as the newest line allows.
    pub open spec fn scroll_down(self) -> TranscriptView {
        TranscriptView {
            lines: self.lines,
            scroll: if self.scroll >= SCROLL_STEP {
                (self.scroll - SCROLL_STEP) as nat
            } else {
                0
            },
        }
    }
}

/// Where the window starts: `height + scroll` lines before the end, or at the
/// first line if there are fewer.
pub open spec fn window_start(len: nat, height: nat, scroll: nat) -> nat {
    if len >= height + scroll {
        (len - (height + scroll)) as nat
    } else {
        0
    }
}

/// The lines from the start of the window to the end of the transcript.
pub open spec fn window(lines: Seq<LineView>, height: nat, scroll: nat) -> Seq<LineView> {
    lines.skip(window_start(lines.len(), height, scroll) as int)
}

/// The lines as plain values.
pub open spec fn line_views(lines: Seq<TranscriptLine>) -> Seq<LineView> {
    lines.map_values(|l: TranscriptLine| l@)
}

/// The bounded list of lines, with the position of the view on it.
pub struct TranscriptBuffer {
    lines: Vec<TranscriptLine>,
    scroll: ScrollState,
}

impl View for TranscriptBuffer {
    type V = TranscriptView;

    closed spec fn view(&self) -> TranscriptView {
        TranscriptView { lines: line_views(self.lines@), scroll: self.scroll.offset as nat }
    }
}

impl TranscriptBuffer {
    /// The bound on the length and on the scroll offset hold.
    pub open spec fn wf(&self) -> bool {
        self@.wf()
    }

    /// An empty transcript that follows the newest line.
    pub fn new() -> (t: Self)
        ensures
            t.wf(),
            t@.lines == Seq::<LineView>::empty(),
            t@.scroll == 0,
    {
        let t = TranscriptBuffer { lines: Vec::new(), scroll: ScrollState { offset: 0 } };
        proof {
            assert(t@.lines =~= Seq::<LineView>::empty());
        }
        t
    }

    /// The number of lines held.
    pub fn len(&self) -> (n: usize)
        ensures
            n == self@.lines.len(),
    {
        self.lines.len()
    }

    /// The position of the view.
    pub fn scroll(&self) -> (s: ScrollState)
        ensures
            s.offset == self@.scroll,
    {
        self.scroll
    }

    /// All lines, oldest first.
    pub fn lines(&self) -> (all: &[TranscriptLine])
        ensures
            line_views(all@) == self@.lines,
    {
        self.lines.as_slice()
    }

    /// Adds a line at the end. At capacity the oldest line is dropped for
    /// it, and a view that was moved up moves down by one line.
    pub fn append(&mut self, line: TranscriptLine)
        requires
            old(self).wf(),
        ensures
            final(self).wf(),
            final(self)@ == old(self)@.append(line@),
    {
        let ghost before = self.lines@;
        self.lines.push(line);
        proof {
            assert(line_views(before.push(line)) =~= line_views(before).push(line@));
        }
        if self.lines.len() > MAX_LINES {
            self.lines.remove(0);
            proof {
                assert(line_views(before.push(line).remove(0)) =~= line_views(
                    before,
                ).drop_first().push(line@));
            }
            if self.scroll.offset > 0 {
                self.scroll.offset = self.scroll.offset - 1;
            }
        }
    }

    /// The lines from `height + scroll_offset` before the end up to the end.
    /// The caller shows the first `height` of them.
    pub fn visible_window(&self, height: usize, scroll_offset: usize) -> (shown: &[TranscriptLine])
        ensures
            line_views(shown@) == window(self@.lines, height as nat, scroll_offset as nat),
    {
        let back = height.saturating_add(scroll_offset);
        let start = self.lines.len().saturating_sub(back);
        let shown = slice_subrange(self.lines.as_slice(), start, self.lines.len());
        proof {
            assert(line_views(shown@) =~= line_views(self.lines@).skip(start as int));
        }
        shown
    }

    /// The window at the current position of the view.
    pub fn visible(&self, height: usize) -> (shown: &[TranscriptLine])
        ensures
            line_views(shown@) == window(self@.lines, height as nat, self@.scroll),
    {
        self.visible_window(height, self.scroll.offset)
    }

    /// Moves the view up by one step, at most to the oldest line.
    pub fn scroll_up(&mut self)
        requires
            old(self).wf(),
        ensures
            final(self).wf(),
            final(self)@ == old(self)@.scroll_up(),
    {
        let top = self.lines.len().saturating_sub(1);
        let wanted = self.scroll.offset.saturating_add(SCROLL_STEP);
        self.scroll.offset = if wanted < top {
            wanted
        } else {
            top
        };
    }

    /// Moves the view down by one step, at most to the newest line.
    pub fn scroll_down(&mut self)
        requires
            old(self).wf(),
        ensures
            final(self).wf(),
            final(self)@ == old(self)@.scroll_down(),
    {
        self.scroll.offset = self.scroll.offset.saturating_sub(SCROLL_STEP);
    }
}

/// The newest `MAX_LINES` of `lines`, or all of them if there are fewer.
pub open spec fn newest(lines: Seq<LineView>) -> Seq<LineView> {
    if lines.len() <= MAX_LINES {
        lines
    } else {
        lines.skip(lines.len() - MAX_LINES)
    }
}

/// Appending keeps the transcript within its bounds.
pub proof fn lemma_append_stays_bounded(t: TranscriptView, line: LineView)
    requires
        t.wf(),
    ensures
        t.append(line).wf(),
        t.append(line).lines.len() <= MAX_LINES,
{
}

/// Whatever is appended, and however much of it, the transcript stays within
/// its bounds.
pub proof fn lemma_appends_stay_bounded(t: TranscriptView, lines: Seq<LineView>)
    requires
        t.wf(),
    ensures
        t.append_all(lines).wf(),
        t.append_all(lines).lines.len() <= MAX_LINES,
    decreases lines.len(),
{
    if lines.len() > 0 {
        lemma_appends_stay_bounded(t, lines.drop_last());
    }
}

/// Appending to a full transcript removes the oldest line and no other, puts
/// the new line last, and lowers the scroll offset by one unless it is zero.
pub proof fn lemma_append_at_capacity(t: TranscriptView, line: LineView)
    requires
        t.wf(),
        t.lines.len() == MAX_LINES,
    ensures
        t.append(line).lines.len() == MAX_LINES,
        t.append(line).lines.last() == line,
        forall|i: int|
            0 <= i < MAX_LINES - 1 ==> #[trigger] t.append(line).lines[i] == t.lines[i + 1],
        t.scroll > 0 ==> t.append(line).scroll == t.scroll - 1,
        t.scroll == 0 ==> t.append(line).scroll == 0,
{
}

/// Appending to a transcript that has room changes nothing but its end.
pub proof fn lemma_append_below_capacity(t: TranscriptView, line: LineView)
    requires
        t.wf(),
        t.lines.len() < MAX_LINES,
    ensures
        t.append(line).lines == t.lines.push(line),
        t.append(line).scroll == t.scroll,
{
}

/// After any run of appends the transcript holds the newest lines of all that
/// it ever held, in their order.
pub proof fn lemma_appends_keep_newest(t: TranscriptView, lines: Seq<LineView>)
    requires
        t.wf(),
    ensures
        t.append_all(lines).lines == newest(t.lines + lines),
    decreases lines.len(),
{
    if lines.len() == 0 {
        assert(t.lines + lines =~= t.lines);
    } else {
        let before = lines.drop_last();
        lemma_appends_keep_newest(t, before);
        lemma_appends_stay_bounded(t, before);
        assert((t.lines + before).push(lines.last()) =~= t.lines + lines);
        assert(t.append_all(lines).lines =~= newest(t.lines + lines));
    }
}

} // verus!
