//! Read-only view over the VT100-rendered terminal screen produced by
//! everything the child has written so far.

use vstd::prelude::*;
use vstd::string::StringSliceAdditionalSpecFns;
use vstd::utf8::encode_utf8;
use crate::terminal::{Terminal, TermHistory, screen_contents, screen_cursor, cell_text, vt_screen};

verus! {

/// A rendered terminal screen.
///
/// Borrows the emulator of the session, whose `vt100::Screen` it reads.
pub struct RenderedScreen<'a> {
    term: &'a Terminal,
}

impl<'a> View for RenderedScreen<'a> {
    type V = TermHistory;

    closed spec fn view(&self) -> TermHistory {
        self.term@
    }
}

/// `needle` occurs in `hay` starting at byte `i`.
pub open spec fn occurs_at(hay: Seq<u8>, needle: Seq<u8>, i: int) -> bool {
    &&& 0 <= i
    &&& i + needle.len() <= hay.len()
    &&& hay.subrange(i, i + needle.len()) == needle
}

/// `needle` occurs somewhere in `hay`.
pub open spec fn occurs_in(hay: Seq<u8>, needle: Seq<u8>) -> bool {
    exists|i: int| occurs_at(hay, needle, i)
}

/// Calls `vt100::Screen::size` on the emulator's screen, which returns
/// the geometry the grid was created with or last resized to.
#[verifier::external_body]
fn vt_size(s: &RenderedScreen) -> (r: (u16, u16))
    ensures
        r == s@.size(),
{
    s.term.parser.screen().size()
}

/// Calls `vt100::Screen::contents` on the emulator's screen.
#[verifier::external_body]
fn vt_contents(s: &RenderedScreen) -> (r: String)
    ensures
        r@ == screen_contents(s@),
{
    s.term.parser.screen().contents()
}

/// Calls `vt100::Screen::cursor_position` on the emulator's screen.
#[verifier::external_body]
fn vt_cursor(s: &RenderedScreen) -> (r: (u16, u16))
    ensures
        r == screen_cursor(s@),
{
    s.term.parser.screen().cursor_position()
}

/// Calls `vt100::Screen::cell` on the emulator's screen, and
/// `vt100::Cell::contents` on the cell it finds. The visible grid holds
/// one cell for each row and column of the screen's geometry, and no
/// other.
#[verifier::external_body]
fn vt_cell_text(s: &RenderedScreen, row: u16, col: u16) -> (r: Option<String>)
    ensures
        r is Some <==> (row < s@.size().0 && col < s@.size().1),
        r matches Some(t) ==> t@ == cell_text(s@, row, col),
{
    match s.term.parser.screen().cell(row, col) {
        Some(cell) => Some(cell.contents()),
        None => None,
    }
}

/// `needle` occurs in `hay` at byte `i`, checked byte by byte.
pub(crate) fn bytes_match_at(hay: &[u8], needle: &[u8], i: usize) -> (r: bool)
    requires
        i + needle@.len() <= hay@.len(),
    ensures
        r == (hay@.subrange(i as int, i + needle@.len()) == needle@),
{
    let n = needle.len();
    let mut k: usize = 0;
    while k < n
        invariant
            k <= n,
            n == needle@.len(),
            i + n <= hay.len(),
            forall|j: int| 0 <= j < k ==> hay@[i + j] == needle@[j],
        decreases n - k,
    {
        if hay[i + k] != needle[k] {
            assert(hay@.subrange(i as int, i + n)[k as int] != needle@[k as int]);
            return false;
        }
        k = k + 1;
    }
    assert(hay@.subrange(i as int, i + n) =~= needle@);
    true
}

/// Whether `needle` occurs in `hay` starting at byte `i`.
pub(crate) fn bytes_occur_at(hay: &[u8], needle: &[u8], i: usize) -> (r: bool)
    ensures
        r == occurs_at(hay@, needle@, i as int),
{
    if i > hay.len() || needle.len() > hay.len() - i {
        return false;
    }
    bytes_match_at(hay, needle, i)
}

/// Whether `needle` occurs in `hay`, by trying each start.
fn bytes_contain(hay: &[u8], needle: &[u8]) -> (r: bool)
    ensures
        r == occurs_in(hay@, needle@),
{
    if needle.len() > hay.len() {
        return false;
    }
    let last = hay.len() - needle.len();
    let mut i: usize = 0;
    loop
        invariant
            last == hay@.len() - needle@.len(),
            i <= last,
            forall|j: int| 0 <= j < i ==> !occurs_at(hay@, needle@, j),
        decreases last - i,
    {
        if bytes_match_at(hay, needle, i) {
            assert(occurs_at(hay@, needle@, i as int));
            return true;
        }
        if i == last {
            return false;
        }
        i = i + 1;
    }
}

impl<'a> RenderedScreen<'a> {
    pub(crate) fn of(term: &'a Terminal) -> (s: Self)
        ensures
            s@ == term@,
    {
        RenderedScreen { term }
    }

    /// Underlying `vt100::Screen`, for any inspection not exposed here
    /// (cell-level attributes, scrollback, formatted output, etc.).
    pub fn raw(&self) -> &'a vt100::Screen {
        vt_screen(self.term)
    }

    /// `(rows, cols)`: the screen geometry.
    pub fn size(&self) -> (r: (u16, u16))
        ensures
            r == self@.size(),
    {
        vt_size(self)
    }

    /// The full screen contents as a UTF-8 string, with line breaks
    /// between rows.
    pub fn contents(&self) -> (r: String)
        ensures
            r@ == screen_contents(self@),
    {
        vt_contents(self)
    }

    /// `(row, col)` of the cursor (0-indexed).
    pub fn cursor(&self) -> (r: (u16, u16))
        ensures
            r == screen_cursor(self@),
    {
        vt_cursor(self)
    }

    /// `true` if the rendered screen contents contain `needle`.
    pub fn contains(&self, needle: &str) -> (r: bool)
        ensures
            r == occurs_in(encode_utf8(screen_contents(self@)), needle.spec_bytes()),
    {
        let text = self.contents();
        bytes_contain(text.as_str().as_bytes(), needle.as_bytes())
    }

    /// The character at `(row, col)`, or `None` if the cell is empty or
    /// out of bounds.
    pub fn char_at(&self, row: u16, col: u16) -> (r: Option<String>)
        ensures
            r is Some <==> {
                &&& row < self@.size().0
                &&& col < self@.size().1
                &&& cell_text(self@, row, col).len() > 0
            },
            r matches Some(s) ==> s@ == cell_text(self@, row, col),
    {
        match vt_cell_text(self, row, col) {
            None => None,
            Some(text) => {
                if text.as_str().is_empty() {
                    None
                } else {
                    Some(text)
                }
            },
        }
    }
}

} // verus!
