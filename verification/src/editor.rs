//! The line editor: the text that the operator is typing, with its cursor,
//! and the history of what was submitted before.

use vstd::prelude::*;
use crate::text::{chars_are_blank, chars_of, is_blank, string_of, texts};

verus! {

/// The input line as plain values: its text and the position of the cursor,
/// counted in characters from the start.
pub struct InputView {
    pub text: Seq<char>,
    pub cursor: nat,
}

impl InputView {
    /// The cursor stands on the text or right after it.
    pub open spec fn wf(self) -> bool {
        self.cursor <= self.text.len()
    }

    /// The empty line.
    pub open spec fn empty() -> InputView {
        InputView { text: Seq::empty(), cursor: 0 }
    }

    /// A line that holds `text`, with the cursor after it.
    pub open spec fn at_end_of(text: Seq<char>) -> InputView {
        InputView { text, cursor: text.len() }
    }

    /// `c` put in at the cursor, which moves behind it.
    pub open spec fn insert(self, c: char) -> InputView {
        InputView { text: self.text.insert(self.cursor as int, c), cursor: self.cursor + 1 }
    }

    /// The character before the cursor taken out, and the cursor moved back
    /// by one; nothing at the start of the line.
    pub open spec fn backspace(self) -> InputView {
        if self.cursor > 0 {
            InputView {
                text: self.text.remove(self.cursor - 1),
                cursor: (self.cursor - 1) as nat,
            }
        } else {
            self
        }
    }

    /// The cursor one to the left, unless it is at the start.
    pub open spec fn left(self) -> InputView {
        InputView {
            text: self.text,
            cursor: if self.cursor > 0 {
                (self.cursor - 1) as nat
            } else {
                0
            },
        }
    }

    /// The cursor one to the right, unless it is at the end.
    pub open spec fn right(self) -> InputView {
        InputView {
            text: self.text,
            cursor: if self.cursor < self.text.len() {
                self.cursor + 1
            } else {
                self.cursor
            },
        }
    }
}

/// The history as plain values: what was submitted, oldest first, and which
/// entry is recalled at the moment, if any.
pub struct HistoryView {
    pub entries: Seq<Seq<char>>,
    pub recalled: Option<nat>,
}

impl HistoryView {
    /// A recalled entry exists.
    pub open spec fn wf(self) -> bool {
        self.recalled is Some ==> self.recalled->Some_0 < self.entries.len()
    }
}

/// The editor as plain values.
pub struct EditorView {
    pub input: InputView,
    pub history: HistoryView,
}

impl EditorView {
    /// Both parts are well formed.
    pub open spec fn wf(self) -> bool {
        self.input.wf() && self.history.wf()
    }

    /// An editor with an empty line and the given history, not recalling.
    pub open spec fn fresh(entries: Seq<Seq<char>>) -> EditorView {
        EditorView {
            input: InputView::empty(),
            history: HistoryView { entries, recalled: None },
        }
    }

    /// The editor with another input line and the same history.
    pub open spec fn with_input(self, input: InputView) -> EditorView {
        EditorView { input, history: self.history }
    }

    /// The editor recalling entry `i`, which becomes the input line.
    pub open spec fn recall(self, i: nat) -> EditorView {
        EditorView {
            input: InputView::at_end_of(self.history.entries[i as int]),
            history: HistoryView { entries: self.history.entries, recalled: Some(i) },
        }
    }

    /// One step back in the history: to the newest entry when nothing is
    /// recalled yet, else to the entry before the recalled one, or to the
    /// oldest again if that one is recalled. Nothing with an empty history.
    pub open spec fn up(self) -> EditorView {
        match self.history.recalled {
            Some(i) => self.recall(
                if i > 0 {
                    (i - 1) as nat
                } else {
                    0
                },
            ),
            None => if self.history.entries.len() > 0 {
                self.recall((self.history.entries.len() - 1) as nat)
            } else {
                self
            },
        }
    }

    /// One step forward in the history: to the entry after the recalled one,
    /// or, from the newest, out of the history to an empty line. Nothing
    /// when no entry is recalled.
    pub open spec fn down(self) -> EditorView {
        match self.history.recalled {
            Some(i) => if i + 1 < self.history.entries.len() {
                self.recall(i + 1)
            } else {
                EditorView::fresh(self.history.entries)
            },
            None => self,
        }
    }

    /// What a submission sends: the input line as it stands, unless it is
    /// blank.
    pub open spec fn submitted(self) -> Option<Seq<char>> {
        if is_blank(self.input.text) {
            None
        } else {
            Some(self.input.text)
        }
    }

    /// The editor after a submission. A blank line changes nothing. Any
    /// other line goes to the end of the history, also when it repeats the
    /// entry before it; the input line is emptied and nothing is recalled.
    pub open spec fn submit(self) -> EditorView {
        if is_blank(self.input.text) {
            self
        } else {
            EditorView::fresh(self.history.entries.push(self.input.text))
        }
    }

    /// `n` steps back in the history.
    pub open spec fn ups(self, n: nat) -> EditorView
        decreases n,
    {
        if n == 0 {
            self
        } else {
            self.ups((n - 1) as nat).up()
        }
    }

    /// `n` steps forward in the history.
    pub open spec fn downs(self, n: nat) -> EditorView
        decreases n,
    {
        if n == 0 {
            self
        } else {
            self.downs((n - 1) as nat).down()
        }
    }
}

/// The text being typed, with its cursor.
pub struct InputState {
    text: Vec<char>,
    cursor: usize,
}

impl View for InputState {
    type V = InputView;

    closed spec fn view(&self) -> InputView {
        InputView { text: self.text@, cursor: self.cursor as nat }
    }
}

impl InputState {
    /// The cursor stands on the text or right after it.
    pub open spec fn wf(&self) -> bool {
        self@.wf()
    }

    /// The empty line.
    pub fn new() -> (s: Self)
        ensures
            s.wf(),
            s@ == InputView::empty(),
    {
        InputState { text: Vec::new(), cursor: 0 }
    }

    /// The line that holds `text`, with the cursor after it.
    pub fn at_end_of(text: &str) -> (s: Self)
        ensures
            s.wf(),
            s@ == InputView::at_end_of(text@),
    {
        let chars = chars_of(text);
        let cursor = chars.len();
        InputState { text: chars, cursor }
    }

    /// The text of the line.
    pub fn text(&self) -> (t: String)
        ensures
            t@ == self@.text,
    {
        string_of(self.text.as_slice())
    }

    /// The characters of the line.
    pub fn chars(&self) -> (t: &[char])
        ensures
            t@ == self@.text,
    {
        self.text.as_slice()
    }

    /// The position of the cursor, in characters from the start.
    pub fn cursor(&self) -> (c: usize)
        ensures
            c == self@.cursor,
    {
        self.cursor
    }

    /// Tells whether the line holds nothing but white space.
    pub fn is_blank(&self) -> (b: bool)
        ensures
            b == is_blank(self@.text),
    {
        chars_are_blank(self.text.as_slice())
    }

    /// Puts `c` in at the cursor and moves the cursor behind it.
    pub fn insert(&mut self, c: char)
        requires
            old(self).wf(),
        ensures
            final(self).wf(),
            final(self)@ == old(self)@.insert(c),
    {
        self.text.insert(self.cursor, c);
        let len = self.text.len();
        assert(self.cursor < len);
        self.cursor = self.cursor + 1;
    }

    /// Removes the character before the cursor, if there is one.
    pub fn backspace(&mut self)
        requires
            old(self).wf(),
        ensures
            final(self).wf(),
            final(self)@ == old(self)@.backspace(),
    {
        if self.cursor > 0 {
            self.text.remove(self.cursor - 1);
            self.cursor = self.cursor - 1;
        }
    }

    /// Moves the cursor one to the left, if it can.
    pub fn left(&mut self)
        requires
            old(self).wf(),
        ensures
            final(self).wf(),
            final(self)@ == old(self)@.left(),
    {
        self.cursor = self.cursor.saturating_sub(1);
    }

    /// Moves the cursor one to the right, if it can.
    pub fn right(&mut self)
        requires
            old(self).wf(),
        ensures
            final(self).wf(),
            final(self)@ == old(self)@.right(),
    {
        if self.cursor < self.text.len() {
            self.cursor = self.cursor + 1;
        }
    }
}

/// What was submitted so far, and the entry that is recalled.
pub struct History {
    entries: Vec<String>,
    recalled: Option<usize>,
}

impl View for History {
    type V = HistoryView;

    closed spec fn view(&self) -> HistoryView {
        HistoryView {
            entries: texts(self.entries@),
            recalled: match self.recalled {
                Some(i) => Some(i as nat),
                None => None,
            },
        }
    }
}

impl History {
    /// A recalled entry exists.
    pub open spec fn wf(&self) -> bool {
        self@.wf()
    }

    /// The empty history.
    pub fn new() -> (h: Self)
        ensures
            h.wf(),
            h@.entries == Seq::<Seq<char>>::empty(),
            h@.recalled is None,
    {
        let h = History { entries: Vec::new(), recalled: None };
        proof {
            assert(h@.entries =~= Seq::<Seq<char>>::empty());
        }
        h
    }

    /// The number of entries.
    pub fn len(&self) -> (n: usize)
        ensures
            n == self@.entries.len(),
    {
        self.entries.len()
    }

    /// Entry `i`, counted from the oldest.
    pub fn entry(&self, i: usize) -> (e: &str)
        requires
            i < self@.entries.len(),
        ensures
            e@ == self@.entries[i as int],
    {
        self.entries[i].as_str()
    }

    /// The entries, oldest first.
    pub fn entries(&self) -> (all: &[String])
        ensures
            texts(all@) == self@.entries,
    {
        self.entries.as_slice()
    }

    /// The index of the recalled entry, if one is recalled.
    pub fn recalled(&self) -> (r: Option<usize>)
        ensures
            match r {
                Some(i) => self@.recalled == Some(i as nat),
                None => self@.recalled is None,
            },
    {
        self.recalled
    }
}

/// The input line together with the history.
pub struct LineEditor {
    input: InputState,
    history: History,
}

impl View for LineEditor {
    type V = EditorView;

    closed spec fn view(&self) -> EditorView {
        EditorView { input: self.input@, history: self.history@ }
    }
}

impl LineEditor {
    /// Both parts are well formed.
    pub open spec fn wf(&self) -> bool {
        self@.wf()
    }

    /// An editor with an empty line and an empty history.
    pub fn new() -> (e: Self)
        ensures
            e.wf(),
            e@ == EditorView::fresh(Seq::empty()),
    {
        LineEditor { input: InputState::new(), history: History::new() }
    }

    /// The input line.
    pub fn input(&self) -> (i: &InputState)
        ensures
            i@ == self@.input,
    {
        &self.input
    }

    /// The history.
    pub fn history(&self) -> (h: &History)
        ensures
            h@ == self@.history,
    {
        &self.history
    }

    /// Types `c` at the cursor.
    pub fn insert(&mut self, c: char)
        requires
            old(self).wf(),
        ensures
            final(self).wf(),
            final(self)@ == old(self)@.with_input(old(self)@.input.insert(c)),
    {
        self.input.insert(c);
    }

    /// Removes the character before the cursor.
    pub fn backspace(&mut self)
        requires
            old(self).wf(),
        ensures
            final(self).wf(),
            final(self)@ == old(self)@.with_input(old(self)@.input.backspace()),
    {
        self.input.backspace();
    }

    /// Moves the cursor one to the left.
    pub fn left(&mut self)
        requires
            old(self).wf(),
        ensures
            final(self).wf(),
            final(self)@ == old(self)@.with_input(old(self)@.input.left()),
    {
        self.input.left();
    }

    /// Moves the cursor one to the right.
    pub fn right(&mut self)
        requires
            old(self).wf(),
        ensures
            final(self).wf(),
            final(self)@ == old(self)@.with_input(old(self)@.input.right()),
    {
        self.input.right();
    }

    /// Steps back in the history and shows the entry reached.
    pub fn up(&mut self)
        requires
            old(self).wf(),
        ensures
            final(self).wf(),
            final(self)@ == old(self)@.up(),
    {
        let target: Option<usize> = match self.history.recalled {
            Some(i) => Some(i.saturating_sub(1)),
            None => if self.history.entries.len() > 0 {
                Some(self.history.entries.len() - 1)
            } else {
                None
            },
        };
        if let Some(i) = target {
            self.input = InputState::at_end_of(self.history.entries[i].as_str());
            self.history.recalled = Some(i);
        }
    }

    /// Steps forward in the history and shows the entry reached, or an empty
    /// line after the newest.
    pub fn down(&mut self)
        requires
            old(self).wf(),
        ensures
            final(self).wf(),
            final(self)@ == old(self)@.down(),
    {
        if let Some(i) = self.history.recalled {
            let len = self.history.entries.len();
            assert(i < texts(self.history.entries@).len());
            if i + 1 < len {
                self.input = InputState::at_end_of(self.history.entries[i + 1].as_str());
                self.history.recalled = Some(i + 1);
            } else {
                self.input = InputState::new();
                self.history.recalled = None;
            }
        }
    }

    /// Submits the input line. A blank line is ignored: nothing changes and
    /// nothing is returned. Any other line is added to the history and
    /// returned as it stands, and the input line is emptied.
    pub fn submit(&mut self) -> (sent: Option<String>)
        requires
            old(self).wf(),
        ensures
            final(self).wf(),
            final(self)@ == old(self)@.submit(),
            match sent {
                Some(text) => old(self)@.submitted() == Some(text@),
                None => old(self)@.submitted() is None,
            },
    {
        if self.input.is_blank() {
            None
        } else {
            let text = self.input.text();
            let ghost before = self.history.entries@;
            self.history.entries.push(text.clone());
            proof {
                assert(texts(before.push(text)) =~= texts(before).push(text@));
            }
            self.history.recalled = None;
            self.input = InputState::new();
            Some(text)
        }
    }
}

/// Stepping through the history keeps the editor well formed and leaves the
/// entries as they are.
pub proof fn lemma_browsing_keeps_history(e: EditorView)
    requires
        e.wf(),
    ensures
        e.up().wf(),
        e.down().wf(),
        e.up().history.entries == e.history.entries,
        e.down().history.entries == e.history.entries,
{
}

/// Any number of steps through the history, in either direction, keeps the
/// editor well formed and leaves the entries as they are.
pub proof fn lemma_browsing_far_keeps_history(e: EditorView, n: nat)
    requires
        e.wf(),
    ensures
        e.ups(n).wf(),
        e.downs(n).wf(),
        e.ups(n).history.entries == e.history.entries,
        e.downs(n).history.entries == e.history.entries,
    decreases n,
{
    if n > 0 {
        lemma_browsing_far_keeps_history(e, (n - 1) as nat);
        lemma_browsing_keeps_history(e.ups((n - 1) as nat));
        lemma_browsing_keeps_history(e.downs((n - 1) as nat));
    }
}

/// From an editor that recalls nothing, `n` steps back show the `n`-th newest
/// entry, for every `n` from one to the number of entries.
pub proof fn lemma_ups_recall_nth_newest(e: EditorView, n: nat)
    requires
        e.wf(),
        e.history.recalled is None,
        1 <= n <= e.history.entries.len(),
    ensures
        e.ups(n) == e.recall((e.history.entries.len() - n) as nat),
        e.ups(n).input.text == e.history.entries[e.history.entries.len() - n],
        e.ups(n).input.cursor == e.ups(n).input.text.len(),
        e.ups(n).history.recalled == Some((e.history.entries.len() - n) as nat),
    decreases n,
{
    let before = e.ups((n - 1) as nat);
    assert(e.ups(n) == before.up());
    if n > 1 {
        lemma_ups_recall_nth_newest(e, (n - 1) as nat);
    } else {
        assert(before == e);
    }
}

/// Once the oldest entry is recalled, further steps back change nothing.
pub proof fn lemma_up_stops_at_oldest(e: EditorView)
    requires
        e.wf(),
        e.history.recalled == Some(0nat),
    ensures
        e.up() == e.recall(0),
        e.up().up() == e.up(),
{
}

/// From entry `i`, `k` steps forward show entry `i + k` as long as there is
/// one.
pub proof fn lemma_downs_walk_forward(e: EditorView, k: nat)
    requires
        e.wf(),
        e.history.recalled is Some,
        k >= 1,
        e.history.recalled->Some_0 + k < e.history.entries.len(),
    ensures
        e.downs(k) == e.recall(e.history.recalled->Some_0 + k),
    decreases k,
{
    let before = e.downs((k - 1) as nat);
    assert(e.downs(k) == before.down());
    if k > 1 {
        lemma_downs_walk_forward(e, (k - 1) as nat);
    } else {
        assert(before == e);
    }
}

/// From entry `i`, stepping forward once for each entry from `i` to the
/// newest leaves the history: the input line is empty and nothing is
/// recalled. The entries are as before.
pub proof fn lemma_downs_leave_history(e: EditorView)
    requires
        e.wf(),
        e.history.recalled is Some,
    ensures
        e.downs((e.history.entries.len() - e.history.recalled->Some_0) as nat) == EditorView::fresh(
            e.history.entries,
        ),
{
    let i = e.history.recalled->Some_0;
    let steps = (e.history.entries.len() - i) as nat;
    if steps > 1 {
        lemma_downs_walk_forward(e, (steps - 1) as nat);
    } else {
        assert(e.downs(0) == e);
    }
    assert(e.downs(steps) == e.downs((steps - 1) as nat).down());
}

/// Walking back to the oldest entry and forward again, one step for each
/// entry, ends where it began: with an empty line that recalls nothing.
pub proof fn lemma_up_and_down_again(entries: Seq<Seq<char>>)
    ensures
        EditorView::fresh(entries).ups(entries.len()).downs(entries.len()) == EditorView::fresh(
            entries,
        ),
{
    let e = EditorView::fresh(entries);
    if entries.len() == 0 {
        assert(e.ups(0) == e);
        assert(e.downs(0) == e);
    } else {
        lemma_ups_recall_nth_newest(e, entries.len());
        lemma_downs_leave_history(e.ups(entries.len()));
    }
}

/// Submitting a blank line sends nothing and changes nothing: not the input
/// line, not the history, not what is recalled.
pub proof fn lemma_blank_submission_is_ignored(e: EditorView)
    requires
        is_blank(e.input.text),
    ensures
        e.submit() == e,
        e.submitted() is None,
{
}

/// Submitting any other line sends it, adds it to the end of the history and
/// leaves an empty line that recalls nothing.
pub proof fn lemma_submission_is_recorded(e: EditorView)
    requires
        e.wf(),
        !is_blank(e.input.text),
    ensures
        e.submit().wf(),
        e.submitted() == Some(e.input.text),
        e.submit().history.entries == e.history.entries.push(e.input.text),
        e.submit().history.recalled is None,
        e.submit().input == InputView::empty(),
{
}

/// Editing keeps the cursor on the line.
pub proof fn lemma_editing_keeps_cursor_valid(i: InputView, c: char)
    requires
        i.wf(),
    ensures
        i.insert(c).wf(),
        i.backspace().wf(),
        i.left().wf(),
        i.right().wf(),
        i.insert(c).backspace() == i,
{
    assert(i.text.insert(i.cursor as int, c).remove(i.cursor as int) =~= i.text);
}

} // verus!
