//! The session: the transcript and the editor, driven by the lines that
//! arrive from the device and by the operator's keys.

use vstd::prelude::*;
use vstd::utf8::encode_utf8;
use crate::editor::{EditorView, LineEditor};
use crate::text::is_blank;
use crate::transcript::{
    inbound_line,
    log_entry,
    outbound_line,
    Category,
    LineView,
    TranscriptBuffer,
    TranscriptLine,
    TranscriptView,
};

verus! {

/// The cursor changes between shown and hidden once in this many
/// milliseconds.
pub const BLINK_INTERVAL_MS: u64 = 500;

/// How long the session waits for a key in one round, in milliseconds.
pub const KEY_POLL_MS: u64 = 10;

/// How long the session rests at the end of one round, in milliseconds.
pub const TICK_SLEEP_MS: u64 = 10;

/// A key as the session sees it.
#[derive(Clone, Copy, Debug, PartialEq, Eq, Structural)]
pub enum Key {
    /// A character to put into the input line.
    Char(char),
    Backspace,
    Left,
    Right,
    /// Submits the input line.
    Enter,
    /// One step back in the history.
    Up,
    /// One step forward in the history.
    Down,
    /// Moves the view of the transcript up.
    PageUp,
    /// Moves the view of the transcript down.
    PageDown,
    /// Ends the session.
    Escape,
    /// Any key that the session does not use.
    Other,
}

/// Whether the session goes on.
#[derive(Clone, Copy, Debug, PartialEq, Eq, Structural)]
pub enum Phase {
    Running,
    /// The operator asked to quit. Nothing changes any more.
    Terminating,
}

/// What the caller has to do after an event.
#[derive(Debug)]
pub struct Effects {
    /// A command to send to the device.
    pub send: Option<String>,
    /// An entry to add to the log.
    pub log: Option<String>,
}

/// The effects as plain values.
pub struct EffectsView {
    pub send: Option<Seq<char>>,
    pub log: Option<Seq<char>>,
}

/// The contents of an optional string.
pub open spec fn option_text(s: Option<String>) -> Option<Seq<char>> {
    match s {
        Some(t) => Some(t@),
        None => None,
    }
}

impl View for Effects {
    type V = EffectsView;

    open spec fn view(&self) -> EffectsView {
        EffectsView { send: option_text(self.send), log: option_text(self.log) }
    }
}

impl EffectsView {
    /// Nothing to do.
    pub open spec fn none() -> EffectsView {
        EffectsView { send: None, log: None }
    }
}

/// The transcript line that makes a failure known to the operator.
pub open spec fn report_line(message: Seq<char>, timestamp: Seq<char>) -> LineView {
    LineView { text: message, category: Category::InboundError, timestamp }
}

/// The session as plain values.
pub struct SessionView {
    pub transcript: TranscriptView,
    pub editor: EditorView,
    pub phase: Phase,
    pub cursor_visible: bool,
    pub logging: bool,
}

impl SessionView {
    /// The transcript and the editor are well formed.
    pub open spec fn wf(self) -> bool {
        self.transcript.wf() && self.editor.wf()
    }

    /// The session with another transcript.
    pub open spec fn with_transcript(self, transcript: TranscriptView) -> SessionView {
        SessionView {
            transcript,
            editor: self.editor,
            phase: self.phase,
            cursor_visible: self.cursor_visible,
            logging: self.logging,
        }
    }

    /// The session with another editor.
    pub open spec fn with_editor(self, editor: EditorView) -> SessionView {
        SessionView {
            transcript: self.transcript,
            editor,
            phase: self.phase,
            cursor_visible: self.cursor_visible,
            logging: self.logging,
        }
    }

    /// The log entry for `line`, if the session keeps a log.
    pub open spec fn logged(self, line: LineView) -> Option<Seq<char>> {
        if self.logging {
            Some(log_entry(line))
        } else {
            None
        }
    }

    /// The session after `line` went into the transcript; a session that is
    /// terminating takes in nothing.
    pub open spec fn record(self, line: LineView) -> SessionView {
        if self.phase is Running {
            self.with_transcript(self.transcript.append(line))
        } else {
            self
        }
    }

    /// What the caller does after `line` went into the transcript.
    pub open spec fn record_effects(self, line: LineView) -> EffectsView {
        if self.phase is Running {
            EffectsView { send: None, log: self.logged(line) }
        } else {
            EffectsView::none()
        }
    }

    /// The session after a key, pressed at the time `timestamp`.
    pub open spec fn key(self, key: Key, timestamp: Seq<char>) -> SessionView {
        if self.phase is Terminating {
            self
        } else {
            match key {
                Key::Char(c) => self.with_editor(
                    self.editor.with_input(self.editor.input.insert(c)),
                ),
                Key::Backspace => self.with_editor(
                    self.editor.with_input(self.editor.input.backspace()),
                ),
                Key::Left => self.with_editor(self.editor.with_input(self.editor.input.left())),
                Key::Right => self.with_editor(self.editor.with_input(self.editor.input.right())),
                Key::Enter => match self.editor.submitted() {
                    Some(text) => SessionView {
                        transcript: self.transcript.append(outbound_line(text, timestamp)),
                        editor: self.editor.submit(),
                        phase: self.phase,
                        cursor_visible: self.cursor_visible,
                        logging: self.logging,
                    },
                    None => self,
                },
                Key::Up => self.with_editor(self.editor.up()),
                Key::Down => self.with_editor(self.editor.down()),
                Key::PageUp => self.with_transcript(self.transcript.scroll_up()),
                Key::PageDown => self.with_transcript(self.transcript.scroll_down()),
                Key::Escape => SessionView {
                    transcript: self.transcript,
                    editor: self.editor,
                    phase: Phase::Terminating,
                    cursor_visible: self.cursor_visible,
                    logging: self.logging,
                },
                Key::Other => self,
            }
        }
    }

    /// What the caller does after a key: a submitted line is sent to the
    /// device and, if the session keeps a log, logged as it stands in the
    /// transcript. No other key asks for anything.
    pub open spec fn key_effects(self, key: Key, timestamp: Seq<char>) -> EffectsView {
        if self.phase is Running && key == Key::Enter {
            match self.editor.submitted() {
                Some(text) => EffectsView {
                    send: Some(text),
                    log: self.logged(outbound_line(text, timestamp)),
                },
                None => EffectsView::none(),
            }
        } else {
            EffectsView::none()
        }
    }

    /// True when the key puts a line into the transcript: it submits an
    /// input line that is not blank, in a running session. Only then does
    /// the time of the key matter.
    pub open spec fn key_makes_line(self, key: Key) -> bool {
        self.phase is Running && key == Key::Enter && self.editor.submitted() is Some
    }

    /// The session after `elapsed_ms` milliseconds have passed since the
    /// cursor last changed: once the interval is over the cursor changes
    /// between shown and hidden.
    pub open spec fn blink(self, elapsed_ms: u64) -> SessionView {
        SessionView {
            transcript: self.transcript,
            editor: self.editor,
            phase: self.phase,
            cursor_visible: if self.blink_due(elapsed_ms) {
                !self.cursor_visible
            } else {
                self.cursor_visible
            },
            logging: self.logging,
        }
    }

    /// True when the cursor is to change.
    pub open spec fn blink_due(self, elapsed_ms: u64) -> bool {
        self.phase is Running && elapsed_ms >= BLINK_INTERVAL_MS
    }
}

/// The state of one interactive session.
pub struct Session {
    transcript: TranscriptBuffer,
    editor: LineEditor,
    phase: Phase,
    cursor_visible: bool,
    logging: bool,
}

impl View for Session {
    type V = SessionView;

    closed spec fn view(&self) -> SessionView {
        SessionView {
            transcript: self.transcript@,
            editor: self.editor@,
            phase: self.phase,
            cursor_visible: self.cursor_visible,
            logging: self.logging,
        }
    }
}

impl Session {
    /// The transcript and the editor are well formed.
    pub open spec fn wf(&self) -> bool {
        self@.wf()
    }

    /// A running session with nothing in it and the cursor shown.
    pub fn new(logging: bool) -> (s: Self)
        ensures
            s.wf(),
            s@.transcript.lines == Seq::<LineView>::empty(),
            s@.transcript.scroll == 0,
            s@.editor == EditorView::fresh(Seq::empty()),
            s@.phase is Running,
            s@.cursor_visible,
            s@.logging == logging,
    {
        Session {
            transcript: TranscriptBuffer::new(),
            editor: LineEditor::new(),
            phase: Phase::Running,
            cursor_visible: true,
            logging,
        }
    }

    /// The transcript.
    pub fn transcript(&self) -> (t: &TranscriptBuffer)
        ensures
            t@ == self@.transcript,
    {
        &self.transcript
    }

    /// The editor.
    pub fn editor(&self) -> (e: &LineEditor)
        ensures
            e@ == self@.editor,
    {
        &self.editor
    }

    /// Whether the session goes on.
    pub fn phase(&self) -> (p: Phase)
        ensures
            p == self@.phase,
    {
        self.phase
    }

    /// Tells whether the session goes on.
    pub fn is_running(&self) -> (b: bool)
        ensures
            b == (self@.phase is Running),
    {
        match self.phase {
            Phase::Running => true,
            Phase::Terminating => false,
        }
    }

    /// Tells whether the cursor is shown at the moment.
    pub fn cursor_visible(&self) -> (b: bool)
        ensures
            b == self@.cursor_visible,
    {
        self.cursor_visible
    }

    /// Tells whether the session keeps a log.
    pub fn logging(&self) -> (b: bool)
        ensures
            b == self@.logging,
    {
        self.logging
    }

    /// Puts `line` into the transcript and says what to log.
    fn record(&mut self, line: TranscriptLine) -> (effects: Effects)
        requires
            old(self).wf(),
        ensures
            final(self).wf(),
            final(self)@ == old(self)@.record(line@),
            effects@ == old(self)@.record_effects(line@),
    {
        if self.is_running() {
            let log = if self.logging {
                Some(line.log_entry())
            } else {
                None
            };
            self.transcript.append(line);
            Effects { send: None, log }
        } else {
            Effects { send: None, log: None }
        }
    }

    /// Takes in a line that the device sent at the time `timestamp`.
    pub fn receive_at(&mut self, line: &str, timestamp: &str) -> (effects: Effects)
        requires
            old(self).wf(),
        ensures
            final(self).wf(),
            final(self)@ == old(self)@.record(inbound_line(line@, timestamp@)),
            effects@ == old(self)@.record_effects(inbound_line(line@, timestamp@)),
    {
        self.record(TranscriptLine::inbound(line, timestamp))
    }

    /// Shows the operator a failure that happened at the time `timestamp`.
    pub fn report_at(&mut self, message: &str, timestamp: &str) -> (effects: Effects)
        requires
            old(self).wf(),
        ensures
            final(self).wf(),
            final(self)@ == old(self)@.record(report_line(message@, timestamp@)),
            effects@ == old(self)@.record_effects(report_line(message@, timestamp@)),
    {
        self.record(TranscriptLine::new(message, Category::InboundError, timestamp))
    }

    /// Shows the operator that an entry could not be written to the log. The
    /// failure stands in the transcript, but no log entry is asked for it:
    /// the log is what failed.
    pub fn report_log_failure_at(&mut self, description: &str, timestamp: &str)
        requires
            old(self).wf(),
        ensures
            final(self).wf(),
            final(self)@ == old(self)@.record(
                report_line(log_failure_text(description@), timestamp@),
            ),
    {
        let report = log_failure_report(description);
        let _ = self.report_at(report.as_str(), timestamp);
    }

    /// Tells whether the key puts a line into the transcript, so that the
    /// time at which it was pressed is needed. For every other key
    /// [`Session::handle_key_at`] does the same whatever time it is given.
    pub fn key_makes_line(&self, key: Key) -> (b: bool)
        requires
            self.wf(),
        ensures
            b == self@.key_makes_line(key),
    {
        match key {
            Key::Enter => self.is_running() && !self.editor.input().is_blank(),
            _ => false,
        }
    }

    /// Handles a key that was pressed at the time `timestamp`.
    pub fn handle_key_at(&mut self, key: Key, timestamp: &str) -> (effects: Effects)
        requires
            old(self).wf(),
        ensures
            final(self).wf(),
            final(self)@ == old(self)@.key(key, timestamp@),
            effects@ == old(self)@.key_effects(key, timestamp@),
    {
        let mut effects = Effects { send: None, log: None };
        if !self.is_running() {
            return effects;
        }
        match key {
            Key::Char(c) => {
                self.editor.insert(c);
            },
            Key::Backspace => {
                self.editor.backspace();
            },
            Key::Left => {
                self.editor.left();
            },
            Key::Right => {
                self.editor.right();
            },
            Key::Enter => {
                if let Some(text) = self.editor.submit() {
                    let logged = self.record(TranscriptLine::outbound(text.as_str(), timestamp));
                    effects = Effects { send: Some(text), log: logged.log };
                }
            },
            Key::Up => {
                self.editor.up();
            },
            Key::Down => {
                self.editor.down();
            },
            Key::PageUp => {
                self.transcript.scroll_up();
            },
            Key::PageDown => {
                self.transcript.scroll_down();
            },
            Key::Escape => {
                self.phase = Phase::Terminating;
            },
            Key::Other => {},
        }
        effects
    }

    /// Lets the cursor blink: given the milliseconds since it last changed,
    /// changes it if the interval is over, and says whether it did.
    pub fn blink(&mut self, elapsed_ms: u64) -> (changed: bool)
        requires
            old(self).wf(),
        ensures
            final(self).wf(),
            final(self)@ == old(self)@.blink(elapsed_ms),
            changed == old(self)@.blink_due(elapsed_ms),
    {
        if self.is_running() && elapsed_ms >= BLINK_INTERVAL_MS {
            self.cursor_visible = !self.cursor_visible;
            true
        } else {
            false
        }
    }
}

/// The text that makes a failed write to the device known.
pub open spec fn write_failure_text(description: Seq<char>) -> Seq<char> {
    "Serial write error: "@ + description
}

/// The text that makes a failed write to the log known.
pub open spec fn log_failure_text(description: Seq<char>) -> Seq<char> {
    "Log write error: "@ + description
}

/// The bytes that go to the device for a command: its text in UTF-8, then a
/// line feed.
pub open spec fn command_frame(command: Seq<char>) -> Seq<u8> {
    encode_utf8(command).push(0x0au8)
}

/// The report for a command that could not be written to the device. The
/// command is lost: it is not sent again.
pub fn write_failure_report(description: &str) -> (report: String)
    ensures
        report@ == write_failure_text(description@),
{
    let mut report = String::from_str("Serial write error: ");
    report.append(description);
    report
}

/// The report for an entry that could not be written to the log.
pub fn log_failure_report(description: &str) -> (report: String)
    ensures
        report@ == log_failure_text(description@),
{
    let mut report = String::from_str("Log write error: ");
    report.append(description);
    report
}

/// The bytes to write to the device for `command`.
pub fn command_bytes(command: &str) -> (bytes: Vec<u8>)
    ensures
        bytes@ == command_frame(command@),
{
    let mut bytes = command.as_bytes_vec();
    bytes.push(0x0au8);
    bytes
}

/// Every event leaves the session well formed.
pub proof fn lemma_session_stays_well_formed(
    s: SessionView,
    key: Key,
    line: LineView,
    timestamp: Seq<char>,
    elapsed_ms: u64,
)
    requires
        s.wf(),
    ensures
        s.key(key, timestamp).wf(),
        s.record(line).wf(),
        s.blink(elapsed_ms).wf(),
{
}

/// Submitting a blank input line changes nothing in the session, neither
/// the history nor the transcript, and asks for nothing to be sent or
/// logged.
pub proof fn lemma_blank_submission_changes_nothing(s: SessionView, timestamp: Seq<char>)
    requires
        is_blank(s.editor.input.text),
    ensures
        s.key(Key::Enter, timestamp) == s,
        s.key(Key::Enter, timestamp).editor.history == s.editor.history,
        s.key(Key::Enter, timestamp).transcript == s.transcript,
        s.key_effects(Key::Enter, timestamp) == EffectsView::none(),
{
}

/// A submitted line is sent as it stands, goes to the end of the history and
/// stands in the transcript as a line from the operator.
pub proof fn lemma_submission_is_sent_and_shown(s: SessionView, timestamp: Seq<char>)
    requires
        s.wf(),
        s.phase is Running,
        !is_blank(s.editor.input.text),
    ensures
        s.key_effects(Key::Enter, timestamp).send == Some(s.editor.input.text),
        s.key(Key::Enter, timestamp).editor.history.entries == s.editor.history.entries.push(
            s.editor.input.text,
        ),
        s.key(Key::Enter, timestamp).transcript.lines.last() == outbound_line(
            s.editor.input.text,
            timestamp,
        ),
        s.logging ==> s.key_effects(Key::Enter, timestamp).log == Some(
            log_entry(outbound_line(s.editor.input.text, timestamp)),
        ),
        !s.logging ==> s.key_effects(Key::Enter, timestamp).log is None,
{
}

/// The time of a key matters only where the key puts a line into the
/// transcript: for every other key the session and what it asks for are the
/// same whatever the time. Where a line is made, it is the line from the
/// operator with that time.
pub proof fn lemma_time_matters_only_for_lines(
    s: SessionView,
    key: Key,
    first: Seq<char>,
    second: Seq<char>,
)
    requires
        s.wf(),
    ensures
        !s.key_makes_line(key) ==> s.key(key, first) == s.key(key, second),
        !s.key_makes_line(key) ==> s.key_effects(key, first) == s.key_effects(key, second),
        !s.key_makes_line(key) ==> s.key(key, first).transcript.lines == s.transcript.lines,
        s.key_makes_line(key) ==> s.key(key, first).transcript == s.transcript.append(
            outbound_line(s.editor.input.text, first),
        ),
{
}

/// The quit key ends a running session, and a session that has ended stays
/// as it is whatever happens.
pub proof fn lemma_terminating_is_final(
    s: SessionView,
    key: Key,
    line: LineView,
    timestamp: Seq<char>,
    elapsed_ms: u64,
)
    ensures
        s.key(Key::Escape, timestamp).phase is Terminating,
        s.phase is Terminating ==> s.key(key, timestamp) == s,
        s.phase is Terminating ==> s.record(line) == s,
        s.phase is Terminating ==> s.blink(elapsed_ms) == s,
        s.phase is Terminating ==> s.key_effects(key, timestamp) == EffectsView::none(),
        s.phase is Terminating ==> s.record_effects(line) == EffectsView::none(),
        s.phase is Running && key != Key::Escape ==> s.key(key, timestamp).phase is Running,
{
}

/// No key but a submission touches the entries of the history, and no key
/// but a submission or a scroll command touches the transcript.
pub proof fn lemma_keys_keep_to_their_part(s: SessionView, key: Key, timestamp: Seq<char>)
    requires
        s.wf(),
    ensures
        key != Key::Enter ==> s.key(key, timestamp).editor.history.entries
            == s.editor.history.entries,
        key != Key::Enter ==> s.key(key, timestamp).transcript.lines == s.transcript.lines,
        key != Key::Enter && key != Key::PageUp && key != Key::PageDown ==> s.key(
            key,
            timestamp,
        ).transcript == s.transcript,
{
}

/// A line that arrives while there is room in the transcript leaves the view
/// where the operator put it.
pub proof fn lemma_arrivals_leave_the_view(s: SessionView, line: LineView)
    requires
        s.wf(),
        s.transcript.lines.len() < crate::transcript::MAX_LINES,
    ensures
        s.record(line).transcript.scroll == s.transcript.scroll,
{
}

} // verus!
