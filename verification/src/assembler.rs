//! Line assembly: turning the text that arrives from the device, in chunks cut
//! at arbitrary places, into complete lines.

use vstd::prelude::*;
use vstd::utf8::*;
use crate::text::{chars_of, texts};

verus! {

/// How long the reader waits after a failed read before it tries again.
pub const READ_BACKOFF_MS: u64 = 1000;

/// The largest chunk the reader asks the transport for in one read.
pub const READ_CHUNK_BYTES: usize = 512;

/// Line feed and carriage return both end a line.
pub open spec fn is_terminator(c: char) -> bool {
    c == '\n' || c == '\r'
}

/// What an assembler has after some input: the lines it completed so far, in
/// order, and the characters of the line that is still open.
pub struct Scan {
    pub lines: Seq<Seq<char>>,
    pub pending: Seq<char>,
}

/// An assembler that holds `pending` and has completed nothing yet.
pub open spec fn scan_start(pending: Seq<char>) -> Scan {
    Scan { lines: Seq::empty(), pending }
}

/// The effect of one character: a terminator closes the open line if it holds
/// anything and is otherwise dropped; any other character joins the open line.
pub open spec fn scan_char(st: Scan, c: char) -> Scan {
    if is_terminator(c) {
        if st.pending.len() > 0 {
            Scan { lines: st.lines.push(st.pending), pending: Seq::empty() }
        } else {
            st
        }
    } else {
        Scan { lines: st.lines, pending: st.pending.push(c) }
    }
}

/// The effect of a run of characters, taken one after the other.
pub open spec fn scan(st: Scan, text: Seq<char>) -> Scan
    decreases text.len(),
{
    if text.len() == 0 {
        st
    } else {
        scan_char(scan(st, text.drop_last()), text.last())
    }
}

/// True when no character of `text` ends a line.
pub open spec fn terminator_free(text: Seq<char>) -> bool {
    forall|i: int| 0 <= i < text.len() ==> !is_terminator(#[trigger] text[i])
}

/// The text that lossy decoding gives for bytes that are not valid UTF-8: the
/// valid parts decoded, each malformed sequence replaced by U+FFFD.
pub uninterp spec fn lossy_text(bytes: Seq<u8>) -> Seq<char>;

/// The text that a chunk of bytes stands for. Valid UTF-8 decodes to the
/// characters it encodes; anything else decodes lossily.
pub open spec fn decoded(bytes: Seq<u8>) -> Seq<char> {
    if valid_utf8(bytes) {
        decode_utf8(bytes)
    } else {
        lossy_text(bytes)
    }
}

/// Calls `String::from_utf8_lossy`. For valid UTF-8 the result is the string
/// that the bytes encode; otherwise it is the lossy decoding, which is a
/// function of the bytes alone.
#[verifier::external_body]
fn decode_lossy(bytes: &[u8]) -> (text: String)
    ensures
        text@ == (if valid_utf8(bytes@) {
            decode_utf8(bytes@)
        } else {
            lossy_text(bytes@)
        }),
{
    String::from_utf8_lossy(bytes).into_owned()
}

/// Accumulates the characters of the line that is still open.
pub struct Assembler {
    pending: String,
}

impl View for Assembler {
    type V = Seq<char>;

    /// The characters of the open line.
    closed spec fn view(&self) -> Seq<char> {
        self.pending@
    }
}

impl Assembler {
    /// The open line never holds a terminator.
    pub open spec fn wf(&self) -> bool {
        terminator_free(self@)
    }

    /// An assembler with an empty open line.
    pub fn new() -> (a: Self)
        ensures
            a@ == Seq::<char>::empty(),
            a.wf(),
    {
        Assembler { pending: String::new() }
    }

    /// The characters received since the last terminator.
    pub fn pending(&self) -> (p: &str)
        ensures
            p@ == self@,
    {
        self.pending.as_str()
    }

    /// Takes in a piece of text and returns the lines it completes, in order.
    pub fn feed_text(&mut self, text: &str) -> (lines: Vec<String>)
        requires
            old(self).wf(),
        ensures
            final(self).wf(),
            texts(lines@) == scan(scan_start(old(self)@), text@).lines,
            final(self)@ == scan(scan_start(old(self)@), text@).pending,
    {
        let chars = chars_of(text);
        let mut lines: Vec<String> = Vec::new();
        let mut i: usize = 0;
        let ghost start = scan_start(self@);
        proof {
            assert(texts(lines@) =~= start.lines);
            assert(text@.take(0) =~= Seq::<char>::empty());
        }
        while i < chars.len()
            invariant
                i <= chars@.len(),
                chars@ == text@,
                self.wf(),
                start == scan_start(old(self)@),
                texts(lines@) == scan(start, text@.take(i as int)).lines,
                self@ == scan(start, text@.take(i as int)).pending,
            decreases chars@.len() - i,
        {
            let c = chars[i];
            let ghost before = scan(start, text@.take(i as int));
            proof {
                assert(text@.take(i + 1).drop_last() =~= text@.take(i as int));
                assert(text@.take(i + 1).last() == c);
            }
            if c == '\n' || c == '\r' {
                if !self.pending.as_str().is_empty() {
                    let mut done = String::new();
                    core::mem::swap(&mut self.pending, &mut done);
                    proof {
                        assert(texts(lines@.push(done)) =~= texts(lines@).push(done@));
                    }
                    lines.push(done);
                }
            } else {
                self.pending.push(c);
            }
            i += 1;
        }
        proof {
            assert(text@.take(i as int) =~= text@);
        }
        lines
    }

    /// Decodes a chunk of bytes as it came from the transport and takes in
    /// the text.
    pub fn feed(&mut self, chunk: &[u8]) -> (lines: Vec<String>)
        requires
            old(self).wf(),
        ensures
            final(self).wf(),
            texts(lines@) == scan(scan_start(old(self)@), decoded(chunk@)).lines,
            final(self)@ == scan(scan_start(old(self)@), decoded(chunk@)).pending,
    {
        let text = decode_lossy(chunk);
        self.feed_text(text.as_str())
    }
}

/// What one read from the transport brought.
pub enum ReadEvent {
    /// The bytes that were read; none at all is possible.
    Data(Vec<u8>),
    /// The read failed, with the transport's description of the failure.
    Failed(String),
}

/// What the reader does after one read.
pub struct ReadStep {
    /// The lines to hand on to the session, oldest first.
    pub lines: Vec<String>,
    /// A failure to make known to the operator.
    pub report: Option<String>,
    /// How long to wait before the next read, in milliseconds.
    pub backoff_ms: u64,
}

/// The text that makes a failed read known.
pub open spec fn read_failure_report(description: Seq<char>) -> Seq<char> {
    "Serial read error: "@ + description
}

impl Assembler {
    /// Decides what follows a read. Bytes are taken in and the lines they
    /// complete are handed on at once. A failure ends nothing: it is
    /// reported, the open line is kept, and the next read waits for the
    /// backoff.
    pub fn on_read(&mut self, event: ReadEvent) -> (step: ReadStep)
        requires
            old(self).wf(),
        ensures
            final(self).wf(),
            match event {
                ReadEvent::Data(bytes) => {
                    &&& texts(step.lines@) == scan(scan_start(old(self)@), decoded(bytes@)).lines
                    &&& final(self)@ == scan(scan_start(old(self)@), decoded(bytes@)).pending
                    &&& step.report is None
                    &&& step.backoff_ms == 0
                },
                ReadEvent::Failed(description) => {
                    &&& step.lines@.len() == 0
                    &&& final(self)@ == old(self)@
                    &&& step.report is Some
                    &&& step.report->Some_0@ == read_failure_report(description@)
                    &&& step.backoff_ms == READ_BACKOFF_MS
                },
            },
    {
        match event {
            ReadEvent::Data(bytes) => {
                let lines = self.feed(bytes.as_slice());
                ReadStep { lines, report: None, backoff_ms: 0 }
            },
            ReadEvent::Failed(description) => {
                let mut report = String::from_str("Serial read error: ");
                report.append(description.as_str());
                ReadStep { lines: Vec::new(), report: Some(report), backoff_ms: READ_BACKOFF_MS }
            },
        }
    }
}

/// Feeding chunks one after the other, as repeated calls of
/// [`Assembler::feed_text`] do: each call reports the lines it completed, and
/// the open line carries over to the next call.
pub open spec fn scan_chunks(st: Scan, chunks: Seq<Seq<char>>) -> Scan
    decreases chunks.len(),
{
    if chunks.len() == 0 {
        st
    } else {
        let before = scan_chunks(st, chunks.drop_last());
        let call = scan(scan_start(before.pending), chunks.last());
        Scan { lines: before.lines + call.lines, pending: call.pending }
    }
}

/// The chunks laid end to end.
pub open spec fn joined(chunks: Seq<Seq<char>>) -> Seq<char>
    decreases chunks.len(),
{
    if chunks.len() == 0 {
        Seq::empty()
    } else {
        joined(chunks.drop_last()) + chunks.last()
    }
}

/// Scanning a text is scanning its first part and then its second part.
pub proof fn lemma_scan_concat(st: Scan, a: Seq<char>, b: Seq<char>)
    ensures
        scan(st, a + b) == scan(scan(st, a), b),
    decreases b.len(),
{
    if b.len() == 0 {
        assert(a + b =~= a);
    } else {
        lemma_scan_concat(st, a, b.drop_last());
        assert((a + b).drop_last() =~= a + b.drop_last());
        assert((a + b).last() == b.last());
    }
}

/// The lines completed earlier stay in front, untouched: a scan adds to them
/// what it would complete starting from the open line alone.
pub proof fn lemma_scan_keeps_earlier_lines(st: Scan, text: Seq<char>)
    ensures
        scan(st, text).lines == st.lines + scan(scan_start(st.pending), text).lines,
        scan(st, text).pending == scan(scan_start(st.pending), text).pending,
    decreases text.len(),
{
    if text.len() == 0 {
        assert(st.lines + Seq::<Seq<char>>::empty() =~= st.lines);
    } else {
        lemma_scan_keeps_earlier_lines(st, text.drop_last());
        let a = scan(st, text.drop_last());
        let b = scan(scan_start(st.pending), text.drop_last());
        assert(scan_char(a, text.last()).lines =~= st.lines + scan_char(b, text.last()).lines);
    }
}

/// Text without a terminator completes nothing and joins the open line.
pub proof fn lemma_scan_terminator_free(st: Scan, text: Seq<char>)
    requires
        terminator_free(text),
    ensures
        scan(st, text) == (Scan { lines: st.lines, pending: st.pending + text }),
    decreases text.len(),
{
    if text.len() == 0 {
        assert(st.pending + text =~= st.pending);
    } else {
        lemma_scan_terminator_free(st, text.drop_last());
        assert(!is_terminator(text[text.len() - 1]));
        assert((st.pending + text.drop_last()).push(text.last()) =~= st.pending + text);
    }
}

/// A scan never leaves a terminator in the open line, and every line it
/// completes holds at least one character and no terminator.
pub proof fn lemma_scan_lines_are_whole(st: Scan, text: Seq<char>)
    requires
        terminator_free(st.pending),
        forall|k: int|
            0 <= k < st.lines.len() ==> (#[trigger] st.lines[k]).len() > 0 && terminator_free(
                st.lines[k],
            ),
    ensures
        terminator_free(scan(st, text).pending),
        forall|k: int|
            0 <= k < scan(st, text).lines.len() ==> (#[trigger] scan(st, text).lines[k]).len() > 0
                && terminator_free(scan(st, text).lines[k]),
    decreases text.len(),
{
    if text.len() > 0 {
        lemma_scan_lines_are_whole(st, text.drop_last());
    }
}

/// The text without the characters that end a line.
pub open spec fn without_terminators(text: Seq<char>) -> Seq<char> {
    text.filter(|c: char| !is_terminator(c))
}

/// A scan loses no character and adds none: the completed lines and the open
/// line, laid end to end, are what was there before followed by the text
/// without its terminators.
pub proof fn lemma_scan_keeps_characters(st: Scan, text: Seq<char>)
    ensures
        joined(scan(st, text).lines) + scan(st, text).pending == joined(st.lines) + st.pending
            + without_terminators(text),
    decreases text.len(),
{
    reveal(Seq::filter);
    if text.len() == 0 {
        assert(joined(st.lines) + st.pending + without_terminators(text) =~= joined(st.lines)
            + st.pending);
    } else {
        let before = scan(st, text.drop_last());
        let c = text.last();
        lemma_scan_keeps_characters(st, text.drop_last());
        let kept = without_terminators(text.drop_last());
        if is_terminator(c) {
            assert(without_terminators(text) == kept);
            if before.pending.len() > 0 {
                assert(before.lines.push(before.pending).drop_last() =~= before.lines);
                assert(joined(before.lines.push(before.pending)) + Seq::<char>::empty() =~= joined(
                    before.lines,
                ) + before.pending);
            }
        } else {
            assert(without_terminators(text) == kept.push(c));
            assert(joined(before.lines) + before.pending.push(c) =~= (joined(before.lines)
                + before.pending).push(c));
            assert(joined(st.lines) + st.pending + kept.push(c) =~= (joined(st.lines) + st.pending
                + kept).push(c));
        }
    }
}

/// However a text is cut into chunks, feeding the chunks one by one completes
/// the same lines, in the same order, and leaves the same open line as feeding
/// the text in one piece.
pub proof fn lemma_chunking_is_invisible(st: Scan, chunks: Seq<Seq<char>>)
    ensures
        scan_chunks(st, chunks) == scan(st, joined(chunks)),
    decreases chunks.len(),
{
    if chunks.len() > 0 {
        let before = scan_chunks(st, chunks.drop_last());
        lemma_chunking_is_invisible(st, chunks.drop_last());
        lemma_scan_keeps_earlier_lines(before, chunks.last());
        lemma_scan_concat(st, joined(chunks.drop_last()), chunks.last());
    }
}

/// A line that arrives whole, followed by a line feed, at an assembler whose
/// open line is empty comes out as exactly that one line.
pub proof fn lemma_whole_line(line: Seq<char>)
    requires
        line.len() > 0,
        terminator_free(line),
    ensures
        scan(scan_start(Seq::empty()), line.push('\n')) == (Scan {
            lines: seq![line],
            pending: Seq::empty(),
        }),
{
    let st = scan_start(Seq::empty());
    lemma_scan_terminator_free(st, line);
    assert(line.push('\n').drop_last() =~= line);
    assert(Seq::<char>::empty() + line =~= line);
    assert(Seq::<Seq<char>>::empty().push(line) =~= seq![line]);
}

/// Cutting valid UTF-8 between two characters and decoding the two pieces
/// gives the text of the whole.
pub proof fn lemma_decoded_split(bytes: Seq<u8>, at: int)
    requires
        valid_utf8(bytes),
        is_char_boundary(bytes, at),
    ensures
        0 <= at <= bytes.len(),
        decoded(bytes) == decoded(bytes.subrange(0, at)) + decoded(
            bytes.subrange(at, bytes.len() as int),
        ),
{
    if at != 0 {
        assert(0 <= at <= bytes.len()) by {
            reveal_with_fuel(is_char_boundary, 1);
        }
    }
    valid_utf8_split(bytes, at);
    decode_utf8_split(bytes, at);
}

/// A chunk of bytes cut in two between characters is taken in as if it had
/// arrived in one piece: the two calls complete, between them, the same lines
/// and leave the same open line.
pub proof fn lemma_byte_chunk_split(pending: Seq<char>, bytes: Seq<u8>, at: int)
    requires
        valid_utf8(bytes),
        is_char_boundary(bytes, at),
    ensures
        ({
            let first = scan(scan_start(pending), decoded(bytes.subrange(0, at)));
            let second = scan(
                scan_start(first.pending),
                decoded(bytes.subrange(at, bytes.len() as int)),
            );
            let whole = scan(scan_start(pending), decoded(bytes));
            first.lines + second.lines == whole.lines && second.pending == whole.pending
        }),
{
    lemma_decoded_split(bytes, at);
    let a = decoded(bytes.subrange(0, at));
    let b = decoded(bytes.subrange(at, bytes.len() as int));
    let first = scan(scan_start(pending), a);
    lemma_scan_concat(scan_start(pending), a, b);
    lemma_scan_keeps_earlier_lines(first, b);
}

/// In the encoding of ASCII text every position lies between two characters,
/// so such text can be cut anywhere.
proof fn lemma_ascii_cuts_anywhere(text: Seq<char>, at: int)
    requires
        is_ascii_chars(text),
        0 <= at <= text.len(),
    ensures
        encode_utf8(text).len() == text.len(),
        is_char_boundary(encode_utf8(text), at),
{
    let bytes = encode_utf8(text);
    encode_utf8_valid_utf8(text);
    is_ascii_chars_encode_utf8(text);
    if at == bytes.len() {
        is_char_boundary_start_end_of_seq(bytes);
    } else {
        assert(bytes[at] == text[at] as u8);
        assert(!is_continuation_byte(bytes[at]));
        is_char_boundary_iff_not_is_continuation_byte(bytes, at);
    }
}

/// The byte chunks laid end to end.
pub open spec fn joined_bytes(chunks: Seq<Seq<u8>>) -> Seq<u8>
    decreases chunks.len(),
{
    if chunks.len() == 0 {
        Seq::empty()
    } else {
        joined_bytes(chunks.drop_last()) + chunks.last()
    }
}

/// The text of each chunk, decoded by itself.
pub open spec fn decoded_chunks(chunks: Seq<Seq<u8>>) -> Seq<Seq<char>> {
    chunks.map_values(|bytes: Seq<u8>| decoded(bytes))
}

/// True when every chunk is valid UTF-8 by itself, which is to say that no
/// chunk begins or ends inside a character.
pub open spec fn cut_between_characters(chunks: Seq<Seq<u8>>) -> bool {
    forall|i: int| 0 <= i < chunks.len() ==> valid_utf8(#[trigger] chunks[i])
}

/// Where one piece of valid UTF-8 ends and the next begins, a character
/// begins.
pub proof fn lemma_seam_is_char_boundary(a: Seq<u8>, b: Seq<u8>)
    requires
        valid_utf8(a),
        valid_utf8(b),
    ensures
        valid_utf8(a + b),
        is_char_boundary(a + b, a.len() as int),
    decreases a.len(),
{
    valid_utf8_concat(a, b);
    if a.len() > 0 {
        let rest = pop_first_scalar(a);
        assert(valid_utf8(rest));
        lemma_seam_is_char_boundary(rest, b);
        assert(pop_first_scalar(a + b) =~= rest + b);
        assert(length_of_first_scalar(a + b) == length_of_first_scalar(a));
        assert(rest.len() == a.len() - length_of_first_scalar(a));
    }
}

/// Two pieces of valid UTF-8 decode, joined, to the text of the first
/// followed by the text of the second.
pub proof fn lemma_decoded_concat(a: Seq<u8>, b: Seq<u8>)
    requires
        valid_utf8(a),
        valid_utf8(b),
    ensures
        valid_utf8(a + b),
        decoded(a + b) == decoded(a) + decoded(b),
{
    lemma_seam_is_char_boundary(a, b);
    decode_utf8_split(a + b, a.len() as int);
    assert((a + b).subrange(0, a.len() as int) =~= a);
    assert((a + b).subrange(a.len() as int, (a + b).len() as int) =~= b);
}

/// Chunks cut between characters decode, one by one, to the pieces of the
/// text that the bytes encode as a whole.
pub proof fn lemma_decoded_joined(chunks: Seq<Seq<u8>>)
    requires
        cut_between_characters(chunks),
    ensures
        valid_utf8(joined_bytes(chunks)),
        decoded(joined_bytes(chunks)) == joined(decoded_chunks(chunks)),
    decreases chunks.len(),
{
    if chunks.len() > 0 {
        let before = chunks.drop_last();
        assert(cut_between_characters(before)) by {
            assert forall|i: int| 0 <= i < before.len() implies valid_utf8(
                #[trigger] before[i],
            ) by {
                assert(before[i] == chunks[i]);
            }
        }
        lemma_decoded_joined(before);
        assert(valid_utf8(chunks[chunks.len() - 1]));
        lemma_decoded_concat(joined_bytes(before), chunks.last());
        assert(decoded_chunks(chunks).drop_last() =~= decoded_chunks(before));
    }
}

/// A stream of bytes may reach the assembler in any number of chunks of any
/// sizes: as long as no chunk is cut inside a character, the calls complete
/// the same lines, in the same order, and leave the same open line as one
/// call with all the bytes.
pub proof fn lemma_byte_chunking_is_invisible(st: Scan, chunks: Seq<Seq<u8>>)
    requires
        cut_between_characters(chunks),
    ensures
        scan_chunks(st, decoded_chunks(chunks)) == scan(st, decoded(joined_bytes(chunks))),
{
    lemma_decoded_joined(chunks);
    lemma_chunking_is_invisible(st, decoded_chunks(chunks));
}

/// A line sent as UTF-8 with a line feed after it comes out of an assembler
/// that started empty as exactly one line with the text that was sent,
/// into however many chunks the bytes were cut between characters.
pub proof fn lemma_line_survives_chunking(line: Seq<char>, chunks: Seq<Seq<u8>>)
    requires
        line.len() > 0,
        terminator_free(line),
        joined_bytes(chunks) == encode_utf8(line.push('\n')),
        cut_between_characters(chunks),
    ensures
        scan_chunks(scan_start(Seq::empty()), decoded_chunks(chunks)) == (Scan {
            lines: seq![line],
            pending: Seq::empty(),
        }),
{
    lemma_byte_chunking_is_invisible(scan_start(Seq::empty()), chunks);
    encode_utf8_valid_utf8(line.push('\n'));
    encode_utf8_decode_utf8(line.push('\n'));
    lemma_whole_line(line);
}

/// A line sent as UTF-8 with a line feed after it, and cut into two chunks
/// anywhere between two characters, comes out of an assembler that started
/// empty as exactly one line with the text that was sent.
pub proof fn lemma_line_survives_split(line: Seq<char>, at: int)
    requires
        line.len() > 0,
        terminator_free(line),
        is_char_boundary(encode_utf8(line.push('\n')), at),
    ensures
        ({
            let bytes = encode_utf8(line.push('\n'));
            let first = scan(scan_start(Seq::empty()), decoded(bytes.subrange(0, at)));
            let second = scan(
                scan_start(first.pending),
                decoded(bytes.subrange(at, bytes.len() as int)),
            );
            first.lines + second.lines == seq![line] && second.pending == Seq::<char>::empty()
        }),
{
    let bytes = encode_utf8(line.push('\n'));
    encode_utf8_valid_utf8(line.push('\n'));
    encode_utf8_decode_utf8(line.push('\n'));
    lemma_byte_chunk_split(Seq::empty(), bytes, at);
    lemma_whole_line(line);
}

/// A line of ASCII text sent with a line feed after it, and cut into two
/// chunks at any byte whatever, comes out of an assembler that started empty
/// as exactly one line with the text that was sent.
pub proof fn lemma_ascii_line_survives_any_cut(line: Seq<char>, at: int)
    requires
        line.len() > 0,
        terminator_free(line),
        is_ascii_chars(line),
        0 <= at <= line.len() + 1,
    ensures
        encode_utf8(line.push('\n')).len() == line.len() + 1,
        ({
            let bytes = encode_utf8(line.push('\n'));
            let first = scan(scan_start(Seq::empty()), decoded(bytes.subrange(0, at)));
            let second = scan(
                scan_start(first.pending),
                decoded(bytes.subrange(at, bytes.len() as int)),
            );
            first.lines + second.lines == seq![line] && second.pending == Seq::<char>::empty()
        }),
{
    let sent = line.push('\n');
    assert(is_ascii_chars(sent)) by {
        assert forall|i: int| 0 <= i < sent.len() implies '\0' <= #[trigger] sent[i]
            <= '\u{7f}' by {
            if i < line.len() {
                assert(sent[i] == line[i]);
            }
        }
    }
    lemma_ascii_cuts_anywhere(sent, at);
    lemma_line_survives_split(line, at);
}

} // verus!
