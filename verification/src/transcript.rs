//! Everything the child has written, the cursor that `expect` advances
//! through it, and the rendered screen fed with the same bytes.

use vstd::prelude::*;
use vstd::string::StringSliceAdditionalSpecFns;
use vstd::utf8::{encode_utf8, is_char_boundary};
use crate::error::PtyError;
use crate::pattern::{
    Pattern, regex_find, utf8_lossy, decode_lossy, bytes_equal, lossy_prefix_ends,
    lossy_prefixes_align, lemma_boundary_in_prefix, is_plain_literal, is_single_line,
    no_newline_between,
};
use crate::screen::occurs_in;
use crate::screen::{RenderedScreen, occurs_at};
use crate::terminal::{Terminal, TermHistory, TermInput, usable_size};

verus! {

broadcast use vstd::utf8::encode_utf8_valid_utf8;

/// Initial PTY geometry: rows.
pub const DEFAULT_ROWS: u16 = 24;

/// Initial PTY geometry: columns.
pub const DEFAULT_COLS: u16 = 80;

/// The abstract state of a transcript.
pub struct TranscriptView {
    /// Every byte read from the PTY since the child started.
    pub raw: Seq<u8>,
    /// How far into `raw` successful `expect` calls have consumed.
    pub consumed: int,
    /// Set once the PTY read reported end of file or failed.
    pub eof: bool,
    /// What the emulator rendering the screen has been given.
    pub term: TermHistory,
}

impl TranscriptView {
    /// The bytes no `expect` has consumed yet.
    pub open spec fn unconsumed(self) -> Seq<u8> {
        self.raw.subrange(self.consumed, self.raw.len() as int)
    }

    /// The unconsumed bytes as text, invalid UTF-8 replaced by U+FFFD.
    pub open spec fn unconsumed_text(self) -> Seq<char> {
        utf8_lossy(self.unconsumed())
    }

    /// The span of the first match of `pattern` in the unconsumed text.
    pub open spec fn first_match(self, pattern: Seq<char>) -> Option<(usize, usize)> {
        regex_find(pattern, self.unconsumed_text())
    }

    /// The cursor lies within what has been read.
    pub open spec fn cursor_in_range(self) -> bool {
        0 <= self.consumed <= self.raw.len()
    }

    /// The first `k` unconsumed bytes make, as text, the unconsumed text up
    /// to its byte `e`.
    pub open spec fn decodes_through(self, e: int, k: int) -> bool {
        lossy_prefix_ends(self.unconsumed(), self.unconsumed_text(), e, k)
    }

    /// `k` is where, in the unconsumed bytes, the unconsumed text's byte `e`
    /// ends: the largest `k`, no more than `e` and the bytes there are,
    /// whose first `k` bytes make the text up to `e`.
    pub open spec fn raw_end(self, e: int, k: int) -> bool {
        &&& 0 <= k <= e
        &&& k <= self.unconsumed().len()
        &&& self.decodes_through(e, k)
        &&& forall|j: int|
            k < j <= e && j <= self.unconsumed().len() ==> !#[trigger] self.decodes_through(e, j)
    }

    /// This state with the cursor at `c`.
    pub open spec fn with_consumed(self, c: int) -> TranscriptView {
        TranscriptView { consumed: c, ..self }
    }
}

/// The request a terminal gets for its cursor position: `ESC [ 6 n`.
pub open spec fn cursor_report_request() -> Seq<u8> {
    seq![0x1bu8, 0x5bu8, 0x36u8, 0x6eu8]
}

/// The answer given to it: the cursor at row 1, column 1, `ESC [ 1 ; 1 R`.
pub open spec fn cursor_report_reply() -> Seq<u8> {
    seq![0x1bu8, 0x5bu8, 0x31u8, 0x3bu8, 0x31u8, 0x52u8]
}

/// The number of cursor-position requests in `raw` that start at an index
/// in `[from, to)`.
pub open spec fn requests_between(raw: Seq<u8>, from: int, to: int) -> nat
    decreases to - from,
{
    if to <= from {
        0
    } else {
        requests_between(raw, from, to - 1) + if occurs_at(raw, cursor_report_request(), to - 1) {
            1nat
        } else {
            0nat
        }
    }
}

/// `n` copies of `s`, one after another.
pub open spec fn repeated(s: Seq<u8>, n: nat) -> Seq<u8>
    decreases n,
{
    if n == 0 {
        Seq::empty()
    } else {
        repeated(s, (n - 1) as nat) + s
    }
}

/// The requests completed by the bytes after the first `old_len` of `raw`:
/// those that start no earlier than three bytes before them.
pub open spec fn requests_completed(raw: Seq<u8>, old_len: int) -> nat {
    requests_between(raw, if old_len >= 3 { old_len - 3 } else { 0 }, raw.len() as int)
}

/// Output read after the cursor was placed is exactly what the next
/// `expect` gets to see beyond what it saw before: reading `bytes` extends
/// the unconsumed output by `bytes`.
pub proof fn lemma_reads_extend_unconsumed(v: TranscriptView, bytes: Seq<u8>)
    requires
        v.cursor_in_range(),
    ensures
        (TranscriptView { raw: v.raw + bytes, ..v }).unconsumed() == v.unconsumed() + bytes,
        (TranscriptView { raw: v.raw + bytes, ..v }).cursor_in_range(),
{
    assert((TranscriptView { raw: v.raw + bytes, ..v }).unconsumed() =~= v.unconsumed() + bytes);
}

/// A match that ends `k` bytes into the unconsumed output consumes exactly
/// those bytes, which make the text through the match, and leaves the
/// output after them for the next `expect`.
pub proof fn lemma_match_leaves_rest(v: TranscriptView, e: int, k: int)
    requires
        v.cursor_in_range(),
        v.raw_end(e, k),
    ensures
        v.with_consumed(v.consumed + k).cursor_in_range(),
        v.with_consumed(v.consumed + k).unconsumed() == v.unconsumed().skip(k),
        v.raw.subrange(v.consumed, v.consumed + k) + v.with_consumed(v.consumed + k).unconsumed()
            == v.unconsumed(),
        encode_utf8(utf8_lossy(v.raw.subrange(v.consumed, v.consumed + k))) == encode_utf8(
            v.unconsumed_text(),
        ).take(e),
{
    assert(v.with_consumed(v.consumed + k).unconsumed() =~= v.unconsumed().skip(k));
    assert(v.raw.subrange(v.consumed, v.consumed + k) =~= v.unconsumed().take(k));
    assert(v.unconsumed() =~= v.unconsumed().take(k) + v.unconsumed().skip(k));
}

/// What a poll of the `expect` loop decided.
pub open spec fn expect_outcome(
    before: TranscriptView,
    pattern: Seq<char>,
    timeout: std::time::Duration,
    deadline_passed: bool,
    r: Option<Result<String, PtyError>>,
) -> bool {
    match before.first_match(pattern) {
        Some((s, e)) => r matches Some(Ok(m)) && encode_utf8(m@) == encode_utf8(
            before.unconsumed_text(),
        ).subrange(s as int, e as int),
        None => if before.eof {
            r matches Some(Err(PtyError::Eof(p))) && p@ == pattern
        } else if deadline_passed {
            r matches Some(Err(PtyError::Timeout(t, p))) && t == timeout && p@ == pattern
        } else {
            r is None
        },
    }
}

/// The decision of one poll of the `expect` loop, given what the search
/// `found`: a match is returned; without one, a `finished` transcript is
/// answered with `Eof`, and otherwise, once the deadline has passed, with
/// `Timeout` carrying `timeout`, both carrying the text of `pattern`.
/// `None` means keep waiting.
pub fn expect_verdict(
    found: Option<String>,
    finished: bool,
    deadline_passed: bool,
    pattern: &str,
    timeout: std::time::Duration,
) -> (r: Option<Result<String, PtyError>>)
    ensures
        match found {
            Some(m) => r matches Some(Ok(x)) && x == m,
            None => if finished {
                r matches Some(Err(PtyError::Eof(p))) && p@ == pattern@
            } else if deadline_passed {
                r matches Some(Err(PtyError::Timeout(t, p))) && t == timeout && p@ == pattern@
            } else {
                r is None
            },
        },
{
    match found {
        Some(m) => Some(Ok(m)),
        None => {
            if finished {
                Some(Err(PtyError::Eof(pattern.to_owned())))
            } else if deadline_passed {
                Some(Err(PtyError::Timeout(timeout, pattern.to_owned())))
            } else {
                None
            }
        },
    }
}

/// Where, in `rest`, the byte `end` of its lossy text `text` ends: the
/// largest `k <= end` whose first `k` bytes make the text up to `end`.
fn raw_end_of(rest: &[u8], text: &str, end: usize) -> (k: usize)
    requires
        text@ == utf8_lossy(rest@),
        lossy_prefixes_align(rest@, text@),
        is_char_boundary(text.spec_bytes(), end as int),
    ensures
        k <= end,
        k <= rest@.len(),
        lossy_prefix_ends(rest@, text@, end as int, k as int),
        forall|j: int|
            k < j <= end && j <= rest@.len() ==> !#[trigger] lossy_prefix_ends(
                rest@,
                text@,
                end as int,
                j,
            ),
{
    let text_bytes = text.as_bytes();
    let ghost tb = text.spec_bytes();
    assert(end <= text_bytes@.len()) by {
        if end > tb.len() {
            assert(!is_char_boundary(tb, end as int));
        }
    }
    let (target, _) = text_bytes.split_at(end);
    assert(target@ == encode_utf8(text@).take(end as int));
    let limit = if end < rest.len() {
        end
    } else {
        rest.len()
    };
    let mut k = limit;
    loop
        invariant
            k <= limit,
            limit <= end,
            limit <= rest@.len(),
            limit == end || limit == rest@.len(),
            target@ == encode_utf8(text@).take(end as int),
            text@ == utf8_lossy(rest@),
            lossy_prefixes_align(rest@, text@),
            is_char_boundary(text.spec_bytes(), end as int),
            forall|j: int|
                k < j <= end && j <= rest@.len() ==> !#[trigger] lossy_prefix_ends(
                    rest@,
                    text@,
                    end as int,
                    j,
                ),
        decreases k,
    {
        let (prefix, _) = rest.split_at(k);
        let candidate = decode_lossy(prefix);
        assert(prefix@ == rest@.take(k as int));
        if bytes_equal(candidate.as_str().as_bytes(), target) {
            return k;
        }
        assert(!lossy_prefix_ends(rest@, text@, end as int, k as int));
        if k == 0 {
            proof {
                let w = choose|w: int|
                    0 <= w <= rest@.len() && w <= end && #[trigger] lossy_prefix_ends(
                        rest@,
                        text@,
                        end as int,
                        w,
                    );
                assert(lossy_prefix_ends(rest@, text@, end as int, w));
                assert(false);
            }
            return 0;
        }
        k = k - 1;
    }
}

/// The answers to the cursor-position requests that the bytes of `raw`
/// after the first `old_len` complete.
fn replies_since(raw: &[u8], old_len: usize) -> (reply: Vec<u8>)
    ensures
        reply@ == repeated(cursor_report_reply(), requests_completed(raw@, old_len as int)),
{
    let request: [u8; 4] = [0x1b, 0x5b, 0x36, 0x6e];
    let answer: [u8; 6] = [0x1b, 0x5b, 0x31, 0x3b, 0x31, 0x52];
    assert(request@ == cursor_report_request());
    assert(answer@ == cursor_report_reply());
    let len = raw.len();
    let start = if old_len >= 3 {
        old_len - 3
    } else {
        0
    };
    let mut reply: Vec<u8> = Vec::new();
    let mut i = start;
    while i < len
        invariant
            start <= i,
            i <= len || i == start,
            len == raw@.len(),
            request@ == cursor_report_request(),
            answer@ == cursor_report_reply(),
            reply@ == repeated(cursor_report_reply(), requests_between(raw@, start as int, i as int)),
        decreases len - i,
    {
        if crate::screen::bytes_occur_at(raw, request.as_slice(), i) {
            reply.extend_from_slice(answer.as_slice());
            assert(reply@ =~= repeated(
                cursor_report_reply(),
                requests_between(raw@, start as int, i + 1),
            ));
        } else {
            assert(!occurs_at(raw@, cursor_report_request(), i as int));
        }
        i = i + 1;
    }
    assert(requests_between(raw@, start as int, i as int) == requests_completed(
        raw@,
        old_len as int,
    )) by {
        if i != len {
            assert(requests_between(raw@, start as int, len as int) == 0);
            assert(requests_between(raw@, start as int, i as int) == 0);
        }
    }
    reply
}

/// The screen has been fed exactly the bytes that were read, and the
/// cursor lies within them.
pub open spec fn consistent(v: TranscriptView) -> bool {
    &&& v.term.output() == v.raw
    &&& v.cursor_in_range()
}

/// The fields of a transcript.
struct Record {
    raw: Vec<u8>,
    consumed: usize,
    eof: bool,
    term: Terminal,
}

impl View for Record {
    type V = TranscriptView;

    closed spec fn view(&self) -> TranscriptView {
        TranscriptView {
            raw: self.raw@,
            consumed: self.consumed as int,
            eof: self.eof,
            term: self.term@,
        }
    }
}

impl Record {
    /// An empty record whose screen is `rows` x `cols`.
    fn new(rows: u16, cols: u16) -> (r: Record)
        requires
            usable_size(rows, cols),
        ensures
            r@.raw == Seq::<u8>::empty(),
            r@.consumed == 0,
            !r@.eof,
            r@.term == TermHistory::created(rows, cols, 0),
            consistent(r@),
    {
        Record { raw: Vec::new(), consumed: 0, eof: false, term: Terminal::new(rows, cols, 0) }
    }
}

/// The shared state between the reader that pumps the PTY and the
/// `expect` / `render` calls.
pub struct Transcript {
    record: Record,
}

impl View for Transcript {
    type V = TranscriptView;

    closed spec fn view(&self) -> TranscriptView {
        self.record@
    }
}

impl Transcript {
    /// The screen has been fed exactly the bytes that were read, and the
    /// cursor lies within them.
    #[verifier::type_invariant]
    spec fn inv(self) -> bool {
        consistent(self.record@)
    }

    /// Takes the record out to work on it, leaving the smallest empty one
    /// in its place.
    fn take_record(&mut self) -> (rec: Record)
        ensures
            rec@ == old(self)@,
            consistent(rec@),
    {
        proof {
            use_type_invariant(&*self);
        }
        let mut rec = Record::new(2, 2);
        std::mem::swap(&mut self.record, &mut rec);
        rec
    }

    /// An empty transcript whose screen is `rows` x `cols`, with no
    /// scrollback.
    pub fn new(rows: u16, cols: u16) -> (t: Transcript)
        requires
            usable_size(rows, cols),
        ensures
            t@.raw == Seq::<u8>::empty(),
            t@.consumed == 0,
            !t@.eof,
            t@.term == TermHistory::created(rows, cols, 0),
            consistent(t@),
    {
        Transcript { record: Record::new(rows, cols) }
    }

    /// An empty transcript at the default geometry, 24 x 80.
    pub fn with_default_size() -> (t: Transcript)
        ensures
            t@.raw == Seq::<u8>::empty(),
            t@.consumed == 0,
            !t@.eof,
            t@.term == TermHistory::created(DEFAULT_ROWS, DEFAULT_COLS, 0),
            consistent(t@),
    {
        Transcript::new(DEFAULT_ROWS, DEFAULT_COLS)
    }

    /// Takes the outcome of one read from the PTY: `Some(bytes)` for the
    /// bytes read, where no bytes means end of file, or `None` for a failed
    /// read.
    ///
    /// Bytes are kept and fed to the screen, and reading goes on: the
    /// result is `Some(reply)`, where `reply` answers each cursor-position
    /// request (`ESC [ 6 n`) that these bytes complete with the cursor at
    /// the top left (`ESC [ 1 ; 1 R`), to be written back to the child.
    /// End of file or failure marks the transcript finished, and the result
    /// is `None`: stop reading. A finished transcript takes nothing more.
    pub fn on_read(&mut self, chunk: Option<&[u8]>) -> (r: Option<Vec<u8>>)
        ensures
            consistent(final(self)@),
            old(self)@.eof ==> r is None && final(self)@ == old(self)@,
            !old(self)@.eof ==> {
                &&& final(self)@.consumed == old(self)@.consumed
                &&& r is Some <==> (chunk matches Some(b) && b@.len() > 0)
                &&& r is Some ==> final(self)@.raw == old(self)@.raw + chunk.unwrap()@
                &&& r is Some ==> final(self)@.term == old(self)@.term.with_input(
                    TermInput::Output(chunk.unwrap()@),
                )
                &&& r is Some ==> !final(self)@.eof
                &&& r matches Some(reply) ==> reply@ == repeated(
                    cursor_report_reply(),
                    requests_completed(final(self)@.raw, old(self)@.raw.len() as int),
                )
                &&& r is None ==> final(self)@ == (TranscriptView { eof: true, ..old(self)@ })
            },
    {
        proof {
            use_type_invariant(&*self);
        }
        if self.record.eof {
            return None;
        }
        let mut rec = self.take_record();
        let r = match chunk {
            Some(bytes) => {
                if bytes.len() > 0 {
                    let old_len = rec.raw.len();
                    rec.raw.extend_from_slice(bytes);
                    rec.term.process(bytes);
                    proof {
                        let old_t = old(self)@.term;
                        assert(rec@.term.inputs.drop_last() =~= old_t.inputs);
                        assert(rec@.raw =~= old(self)@.raw + bytes@);
                    }
                    Some(replies_since(rec.raw.as_slice(), old_len))
                } else {
                    rec.eof = true;
                    None
                }
            },
            None => {
                rec.eof = true;
                None
            },
        };
        self.record = rec;
        r
    }

    /// The output no `expect` has consumed yet, as text, with invalid UTF-8
    /// replaced by U+FFFD.
    pub fn unconsumed_text(&self) -> (r: String)
        ensures
            r@ == self@.unconsumed_text(),
            lossy_prefixes_align(self@.unconsumed(), r@),
    {
        proof {
            use_type_invariant(self);
        }
        let (_, rest) = self.record.raw.as_slice().split_at(self.record.consumed);
        decode_lossy(rest)
    }

    /// Acts on the outcome `span` of searching `text`, the unconsumed text.
    ///
    /// With no match nothing changes. With a match from byte `s` to byte
    /// `e` of `text`, returns the matched text and moves the cursor past
    /// the bytes of the output that make `text` up to `e`.
    pub fn consume_match(&mut self, text: &str, span: Option<(usize, usize)>) -> (r: Option<String>)
        requires
            text@ == old(self)@.unconsumed_text(),
            lossy_prefixes_align(old(self)@.unconsumed(), text@),
            span matches Some((s, e)) ==> {
                &&& s <= e <= text.spec_bytes().len()
                &&& is_char_boundary(text.spec_bytes(), s as int)
                &&& is_char_boundary(text.spec_bytes(), e as int)
            },
        ensures
            consistent(final(self)@),
            match span {
                None => r is None && final(self)@ == old(self)@,
                Some((s, e)) => {
                    &&& r matches Some(m) && encode_utf8(m@) == text.spec_bytes().subrange(
                        s as int,
                        e as int,
                    )
                    &&& final(self)@ == old(self)@.with_consumed(final(self)@.consumed)
                    &&& old(self)@.raw_end(e as int, final(self)@.consumed - old(self)@.consumed)
                },
            },
    {
        proof {
            use_type_invariant(&*self);
        }
        match span {
            None => None,
            Some((start, end)) => {
                let ghost tb = text.spec_bytes();
                let (head, _) = text.split_at(end);
                proof {
                    lemma_boundary_in_prefix(tb, start as int, end as int);
                    assert(head.spec_bytes() =~= tb.take(end as int));
                }
                let (_, matched) = head.split_at(start);
                assert(matched.spec_bytes() =~= tb.subrange(start as int, end as int));
                let m = matched.to_owned();
                let mut rec = self.take_record();
                let (_, rest) = rec.raw.as_slice().split_at(rec.consumed);
                assert(rest@ == old(self)@.unconsumed());
                let k = raw_end_of(rest, text, end);
                let left = rest.len() - k;
                rec.consumed = rec.raw.len() - left;
                self.record = rec;
                Some(m)
            },
        }
    }

    /// Looks for `pattern` in the output no `expect` has consumed yet.
    ///
    /// On a match, returns the matched text and moves the cursor past the
    /// bytes of the output that make the text through the match; without
    /// one, nothing changes.
    pub fn poll_match(&mut self, pattern: &Pattern) -> (r: Option<String>)
        ensures
            consistent(final(self)@),
            match old(self)@.first_match(pattern@) {
                None => r is None && final(self)@ == old(self)@,
                Some((s, e)) => {
                    &&& r matches Some(m) && encode_utf8(m@) == encode_utf8(
                        old(self)@.unconsumed_text(),
                    ).subrange(s as int, e as int)
                    &&& final(self)@ == old(self)@.with_consumed(final(self)@.consumed)
                    &&& old(self)@.raw_end(e as int, final(self)@.consumed - old(self)@.consumed)
                },
            },
            is_plain_literal(pattern@) ==> {
                &&& old(self)@.first_match(pattern@) is Some <==> occurs_in(
                    encode_utf8(old(self)@.unconsumed_text()),
                    encode_utf8(pattern@),
                )
                &&& r matches Some(m) ==> m@ == pattern@
            },
            is_single_line(pattern@) ==> (r matches Some(m) ==> no_newline_between(
                encode_utf8(m@),
                0,
                encode_utf8(m@).len() as int,
            )),
    {
        let text = self.unconsumed_text();
        let span = pattern.find(text.as_str());
        let r = self.consume_match(text.as_str(), span);
        proof {
            if is_plain_literal(pattern@) && r is Some {
                let (s, e) = span.unwrap();
                let m = r.unwrap();
                assert(encode_utf8(text@).subrange(s as int, e as int) =~= encode_utf8(pattern@));
                vstd::utf8::encode_utf8_decode_utf8(m@);
                vstd::utf8::encode_utf8_decode_utf8(pattern@);
            }
        }
        r
    }

    /// One poll of the `expect` loop.
    ///
    /// A match of `pattern` in the unconsumed output is returned (see
    /// `poll_match`). Without one, a finished transcript is answered with
    /// `Eof`, and otherwise, once the deadline has passed, with `Timeout`
    /// carrying `timeout`; both carry the pattern's text. `None` means
    /// keep waiting.
    pub fn expect_step(
        &mut self,
        pattern: &Pattern,
        timeout: std::time::Duration,
        deadline_passed: bool,
    ) -> (r: Option<Result<String, PtyError>>)
        ensures
            consistent(final(self)@),
            expect_outcome(old(self)@, pattern@, timeout, deadline_passed, r),
            match old(self)@.first_match(pattern@) {
                Some((s, e)) => {
                    &&& final(self)@ == old(self)@.with_consumed(final(self)@.consumed)
                    &&& old(self)@.raw_end(e as int, final(self)@.consumed - old(self)@.consumed)
                },
                None => final(self)@ == old(self)@,
            },
            is_plain_literal(pattern@) ==> {
                &&& old(self)@.first_match(pattern@) is Some <==> occurs_in(
                    encode_utf8(old(self)@.unconsumed_text()),
                    encode_utf8(pattern@),
                )
                &&& r matches Some(Ok(m)) ==> m@ == pattern@
            },
            is_single_line(pattern@) ==> (r matches Some(Ok(m)) ==> no_newline_between(
                encode_utf8(m@),
                0,
                encode_utf8(m@).len() as int,
            )),
    {
        let found = self.poll_match(pattern);
        expect_verdict(found, self.record.eof, deadline_passed, pattern.source(), timeout)
    }

    /// Resizes the rendered screen to `rows` x `cols`.
    pub fn resize(&mut self, rows: u16, cols: u16)
        requires
            usable_size(rows, cols),
        ensures
            consistent(final(self)@),
            final(self)@ == (TranscriptView {
                term: old(self)@.term.with_input(TermInput::Resize(rows, cols)),
                ..old(self)@
            }),
            final(self)@.term.size() == (rows, cols),
    {
        let mut rec = self.take_record();
        rec.term.set_size(rows, cols);
        proof {
            assert(rec@.term.inputs.drop_last() =~= old(self)@.term.inputs);
        }
        self.record = rec;
    }

    /// The current rendered screen.
    pub fn screen(&self) -> (s: RenderedScreen<'_>)
        ensures
            s@ == self@.term,
    {
        self.record.term.screen()
    }
}

} // verus!
