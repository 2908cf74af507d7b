//! The VT100 emulator that renders what the child wrote, and the record of
//! everything it was given.

use vstd::prelude::*;
use crate::screen::RenderedScreen;

verus! {

/// `vt100::Parser`, held as an opaque value.
#[verifier::external_type_specification]
#[verifier::external_body]
pub struct ExParser(vt100::Parser);

/// `vt100::Screen`, held as an opaque value.
#[verifier::external_type_specification]
#[verifier::external_body]
pub struct ExVtScreen(vt100::Screen);

/// One thing given to the emulator.
pub enum TermInput {
    /// Its creation with a screen of `(rows, cols)` and that many lines of
    /// scrollback; only ever the first thing in a parser's record.
    Create(u16, u16, usize),
    /// Bytes written by the child, fed to the parser.
    Output(Seq<u8>),
    /// A change of the screen geometry to `(rows, cols)`.
    Resize(u16, u16),
}

/// Everything the emulator has been given: the geometry and scrollback it
/// was created with, then its inputs in order. The emulator is
/// deterministic, so this fixes what its screen shows.
pub struct TermHistory {
    pub rows: u16,
    pub cols: u16,
    pub scrollback: usize,
    pub inputs: Seq<TermInput>,
}

/// `(rows, cols)` after the inputs `inputs` on a screen created at
/// `(rows, cols)`: the last resize, or the initial geometry.
pub open spec fn size_after(rows: u16, cols: u16, inputs: Seq<TermInput>) -> (u16, u16)
    decreases inputs.len(),
{
    if inputs.len() == 0 {
        (rows, cols)
    } else {
        match inputs.last() {
            TermInput::Resize(r, c) => (r, c),
            TermInput::Create(r, c, _) => (r, c),
            TermInput::Output(_) => size_after(rows, cols, inputs.drop_last()),
        }
    }
}

impl TermHistory {
    /// The history of a freshly created emulator.
    pub open spec fn created(rows: u16, cols: u16, scrollback: usize) -> TermHistory {
        TermHistory { rows, cols, scrollback, inputs: Seq::empty() }
    }

    /// This history with one more input.
    pub open spec fn with_input(self, input: TermInput) -> TermHistory {
        TermHistory { inputs: self.inputs.push(input), ..self }
    }

    /// The geometry `(rows, cols)` of the screen.
    pub open spec fn size(self) -> (u16, u16) {
        size_after(self.rows, self.cols, self.inputs)
    }

    /// All bytes fed to the parser, in order.
    pub open spec fn output(self) -> Seq<u8> {
        output_of(self.inputs)
    }
}

/// The concatenation of the `Output` inputs of `inputs`.
pub open spec fn output_of(inputs: Seq<TermInput>) -> Seq<u8>
    decreases inputs.len(),
{
    if inputs.len() == 0 {
        Seq::empty()
    } else {
        match inputs.last() {
            TermInput::Output(b) => output_of(inputs.drop_last()) + b,
            TermInput::Resize(_, _) => output_of(inputs.drop_last()),
            TermInput::Create(_, _, _) => output_of(inputs.drop_last()),
        }
    }
}

/// What the `vt100::Parser` `p` has been given: its creation, then each
/// input in order.
pub uninterp spec fn parser_record(p: vt100::Parser) -> Seq<TermInput>;

/// The history a parser's record stands for.
pub open spec fn history_of(record: Seq<TermInput>) -> TermHistory {
    match record.first() {
        TermInput::Create(rows, cols, scrollback) => TermHistory {
            rows,
            cols,
            scrollback,
            inputs: record.drop_first(),
        },
        _ => TermHistory { rows: 0, cols: 0, scrollback: 0, inputs: record },
    }
}

/// What `vt100::Screen::contents` returns for the screen after `h`.
pub uninterp spec fn screen_contents(h: TermHistory) -> Seq<char>;

/// What `vt100::Screen::cursor_position` returns for the screen after `h`.
pub uninterp spec fn screen_cursor(h: TermHistory) -> (u16, u16);

/// What `vt100::Cell::contents` returns for the cell at `(row, col)` of
/// the screen after `h`.
pub uninterp spec fn cell_text(h: TermHistory, row: u16, col: u16) -> Seq<char>;

/// Feeding output to the emulator never changes its geometry; only a
/// resize does, and then to exactly the size asked for.
pub proof fn lemma_size_changes_only_by_resize(h: TermHistory, bytes: Seq<u8>, rows: u16, cols: u16)
    ensures
        h.with_input(TermInput::Output(bytes)).size() == h.size(),
        h.with_input(TermInput::Resize(rows, cols)).size() == (rows, cols),
{
    assert(h.with_input(TermInput::Output(bytes)).inputs.drop_last() =~= h.inputs);
}

/// Resizing never changes what output the emulator has been fed, and
/// feeding it bytes appends exactly those bytes.
pub proof fn lemma_output_record(h: TermHistory, bytes: Seq<u8>, rows: u16, cols: u16)
    ensures
        h.with_input(TermInput::Output(bytes)).output() == h.output() + bytes,
        h.with_input(TermInput::Resize(rows, cols)).output() == h.output(),
{
    assert(h.with_input(TermInput::Output(bytes)).inputs.drop_last() =~= h.inputs);
    assert(h.with_input(TermInput::Resize(rows, cols)).inputs.drop_last() =~= h.inputs);
}

/// Every chunk read reaches the renderer, in order: after feeding `first`
/// and then `second`, the emulator has been given exactly its earlier
/// output followed by both chunks, and its geometry is unchanged.
pub proof fn lemma_chunks_reach_screen_in_order(h: TermHistory, first: Seq<u8>, second: Seq<u8>)
    ensures
        h.with_input(TermInput::Output(first)).with_input(TermInput::Output(second)).output()
            == h.output() + first + second,
        h.with_input(TermInput::Output(first)).with_input(TermInput::Output(second)).size()
            == h.size(),
{
    lemma_output_record(h, first, 2, 2);
    lemma_output_record(h.with_input(TermInput::Output(first)), second, 2, 2);
    lemma_size_changes_only_by_resize(h, first, 2, 2);
    lemma_size_changes_only_by_resize(h.with_input(TermInput::Output(first)), second, 2, 2);
    assert(h.output() + first + second =~= (h.output() + first) + second);
}

/// A resize takes effect whatever the current size, larger or smaller, and
/// output fed after it keeps the size asked for.
pub proof fn lemma_resize_holds_under_output(h: TermHistory, rows: u16, cols: u16, bytes: Seq<u8>)
    ensures
        h.with_input(TermInput::Resize(rows, cols)).size() == (rows, cols),
        h.with_input(TermInput::Resize(rows, cols)).with_input(TermInput::Output(bytes)).size()
            == (rows, cols),
{
    lemma_size_changes_only_by_resize(h, bytes, rows, cols);
    lemma_size_changes_only_by_resize(h.with_input(TermInput::Resize(rows, cols)), bytes, rows, cols);
}

/// A VT100 emulator; what it shows follows from the record of what its
/// parser was given.
pub struct Terminal {
    pub(crate) parser: vt100::Parser,
}

impl View for Terminal {
    type V = TermHistory;

    closed spec fn view(&self) -> TermHistory {
        history_of(parser_record(self.parser))
    }
}

/// The emulator needs at least two rows and two columns: wrapping a line
/// on a one-row screen, or a double-width character on a one-column
/// screen, makes it subtract past zero.
pub open spec fn usable_size(rows: u16, cols: u16) -> bool {
    rows >= 2 && cols >= 2
}

/// Calls `vt100::Parser::new`, which creates a screen of `rows` x `cols`
/// with `scrollback_len` lines of scrollback and has been given nothing
/// else yet.
#[verifier::external_body]
fn vt_parser_new(rows: u16, cols: u16, scrollback_len: usize) -> (p: vt100::Parser)
    requires
        usable_size(rows, cols),
    ensures
        parser_record(p) == seq![TermInput::Create(rows, cols, scrollback_len)],
{
    vt100::Parser::new(rows, cols, scrollback_len)
}

/// Calls `vt100::Parser::process`: the parser is given `bytes`.
#[verifier::external_body]
fn vt_process(term: &mut Terminal, bytes: &[u8])
    requires
        usable_size(old(term)@.size().0, old(term)@.size().1),
    ensures
        parser_record(final(term).parser) == parser_record(old(term).parser).push(
            TermInput::Output(bytes@),
        ),
{
    term.parser.process(bytes)
}

/// Calls `vt100::Parser::set_size`, which resizes both the normal and the
/// alternate grid to `(rows, cols)`.
#[verifier::external_body]
fn vt_set_size(term: &mut Terminal, rows: u16, cols: u16)
    requires
        usable_size(rows, cols),
    ensures
        parser_record(final(term).parser) == parser_record(old(term).parser).push(
            TermInput::Resize(rows, cols),
        ),
{
    term.parser.set_size(rows, cols)
}

/// Calls `vt100::Parser::screen`; the reference is handed back as is.
#[verifier::external_body]
pub(crate) fn vt_screen(term: &Terminal) -> &vt100::Screen {
    term.parser.screen()
}

/// A record that starts with a creation and grows by one input stands for
/// the history that grew by that input.
proof fn lemma_record_push(record: Seq<TermInput>, input: TermInput)
    requires
        record.len() >= 1,
        record.first() is Create,
    ensures
        record.push(input).len() >= 1,
        record.push(input).first() is Create,
        history_of(record.push(input)) == history_of(record).with_input(input),
{
    assert(record.push(input).drop_first() =~= record.drop_first().push(input));
}

impl Terminal {
    #[verifier::type_invariant]
    spec fn inv(self) -> bool {
        &&& parser_record(self.parser).len() >= 1
        &&& parser_record(self.parser).first() is Create
        &&& usable_size(self@.size().0, self@.size().1)
    }

    /// A fresh emulator of `rows` x `cols` with `scrollback_len` lines of
    /// scrollback.
    pub fn new(rows: u16, cols: u16, scrollback_len: usize) -> (t: Terminal)
        requires
            usable_size(rows, cols),
        ensures
            t@ == TermHistory::created(rows, cols, scrollback_len),
    {
        let parser = vt_parser_new(rows, cols, scrollback_len);
        proof {
            assert(seq![TermInput::Create(rows, cols, scrollback_len)].drop_first() =~= Seq::<
                TermInput,
            >::empty());
        }
        Terminal { parser }
    }

    /// Feeds `bytes` to the emulator.
    pub fn process(&mut self, bytes: &[u8])
        ensures
            final(self)@ == old(self)@.with_input(TermInput::Output(bytes@)),
    {
        proof {
            use_type_invariant(&*self);
            lemma_record_push(parser_record(self.parser), TermInput::Output(bytes@));
            lemma_size_changes_only_by_resize(self@, bytes@, 2, 2);
        }
        vt_process(self, bytes);
    }

    /// Resizes the screen to `rows` x `cols`.
    pub fn set_size(&mut self, rows: u16, cols: u16)
        requires
            usable_size(rows, cols),
        ensures
            final(self)@ == old(self)@.with_input(TermInput::Resize(rows, cols)),
    {
        proof {
            use_type_invariant(&*self);
            lemma_record_push(parser_record(self.parser), TermInput::Resize(rows, cols));
            lemma_size_changes_only_by_resize(self@, Seq::empty(), rows, cols);
        }
        vt_set_size(self, rows, cols);
    }

    /// A read-only view of the current screen.
    pub fn screen(&self) -> (s: RenderedScreen<'_>)
        ensures
            s@ == self@,
    {
        RenderedScreen::of(self)
    }
}

} // verus!
