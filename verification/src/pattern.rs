//! Compiled `expect` patterns, and the text they are searched in.

use vstd::prelude::*;
use vstd::string::StringSliceAdditionalSpecFns;
use vstd::utf8::{valid_utf8, decode_utf8, encode_utf8, is_char_boundary};
use crate::error::PtyError;
use crate::screen::{occurs_at, occurs_in};

verus! {

/// `regex::Regex`, held as an opaque value.
#[verifier::external_type_specification]
#[verifier::external_body]
pub struct ExRegex(regex::Regex);

/// Whether `regex::Regex::new` accepts `pattern`: it must be valid syntax
/// and compile within the default size limit.
pub uninterp spec fn regex_compiles(pattern: Seq<char>) -> bool;

/// The byte span `(start, end)` of the leftmost-first match that
/// `regex::Regex::find` reports for `pattern` in `haystack`, if any.
pub uninterp spec fn regex_find(pattern: Seq<char>, haystack: Seq<char>) -> Option<(usize, usize)>;

/// The text `String::from_utf8_lossy` makes of `bytes`: every invalid
/// UTF-8 sequence replaced by U+FFFD.
pub uninterp spec fn utf8_lossy(bytes: Seq<u8>) -> Seq<char>;

/// Calls `regex::Regex::new`; it succeeds exactly on the patterns that
/// compile.
#[verifier::external_body]
fn regex_new(pattern: &str) -> (r: Result<regex::Regex, regex::Error>)
    ensures
        r is Ok <==> regex_compiles(pattern@),
{
    regex::Regex::new(pattern)
}

/// The lossy text of the first `k` bytes of `bytes` is, in UTF-8, the
/// first `e` bytes of `text`.
pub open spec fn lossy_prefix_ends(bytes: Seq<u8>, text: Seq<char>, e: int, k: int) -> bool {
    encode_utf8(utf8_lossy(bytes.take(k))) == encode_utf8(text).take(e)
}

/// Each character boundary `e` of `text`, the lossy text of `bytes`, ends
/// the lossy text of a prefix of `bytes` of at most `e` bytes.
pub open spec fn lossy_prefixes_align(bytes: Seq<u8>, text: Seq<char>) -> bool {
    forall|e: int|
        #[trigger] is_char_boundary(encode_utf8(text), e) ==> exists|k: int|
            0 <= k <= bytes.len() && k <= e && #[trigger] lossy_prefix_ends(bytes, text, e, k)
}

/// Calls `String::from_utf8_lossy` and takes the text it returns.
///
/// Input that is already valid UTF-8 comes back unchanged. Otherwise, as
/// the documentation of `from_utf8_lossy` and of `Utf8Chunks` (which it is
/// built on) gives it, the input is cut into chunks, each a valid part
/// copied as is and then an invalid part of at most three bytes (a
/// truncated sequence or a lone byte) replaced by one U+FFFD. So every
/// character of the text stands for a whole run of input bytes no longer
/// than its own encoding, and the text of the input up to the end of such
/// a run is the text up to that character.
#[verifier::external_body]
pub(crate) fn decode_lossy(bytes: &[u8]) -> (r: String)
    ensures
        r@ == utf8_lossy(bytes@),
        valid_utf8(bytes@) ==> r@ == decode_utf8(bytes@),
        lossy_prefixes_align(bytes@, r@),
{
    String::from_utf8_lossy(bytes).into_owned()
}

/// Whether the byte strings `a` and `b` are equal.
pub(crate) fn bytes_equal(a: &[u8], b: &[u8]) -> (r: bool)
    ensures
        r == (a@ == b@),
{
    if a.len() != b.len() {
        return false;
    }
    let n = a.len();
    let mut i: usize = 0;
    while i < n
        invariant
            n == a@.len(),
            n == b@.len(),
            i <= n,
            forall|j: int| 0 <= j < i ==> a@[j] == b@[j],
        decreases n - i,
    {
        if a[i] != b[i] {
            return false;
        }
        i = i + 1;
    }
    assert(a@ =~= b@);
    true
}

/// In valid UTF-8, a character boundary before another one is also a
/// character boundary of the bytes up to the later one.
pub(crate) proof fn lemma_boundary_in_prefix(bytes: Seq<u8>, s: int, e: int)
    requires
        valid_utf8(bytes),
        is_char_boundary(bytes, s),
        is_char_boundary(bytes, e),
        s <= e,
    ensures
        valid_utf8(bytes.take(e)),
        is_char_boundary(bytes.take(e), s),
{
    broadcast use vstd::utf8::valid_utf8_split, vstd::utf8::is_char_boundary_start_end_of_seq,
        vstd::utf8::is_char_boundary_iff_not_is_continuation_byte;

    assert(bytes.take(e) =~= bytes.subrange(0, e));
    assert(valid_utf8(bytes.subrange(0, e)));
    if s == e {
        assert(bytes.take(e).len() == e) by {
            if e > bytes.len() {
                assert(!is_char_boundary(bytes, e));
            }
        }
        assert(is_char_boundary(bytes.take(e), bytes.take(e).len() as int));
    } else if s == 0 {
    } else {
        assert(0 < s < bytes.len());
        assert(bytes.take(e)[s] == bytes[s]);
        assert(is_char_boundary(bytes, s) <==> !vstd::utf8::is_continuation_byte(bytes[s]));
        assert(is_char_boundary(bytes.take(e), s) <==> !vstd::utf8::is_continuation_byte(
            bytes.take(e)[s],
        ));
    }
}

/// `pattern` is made only of ASCII letters, digits and spaces, each of
/// which a regex matches as itself, case-sensitively, under the default
/// flags.
pub open spec fn is_plain_literal(pattern: Seq<char>) -> bool {
    forall|i: int|
        0 <= i < pattern.len() ==> {
            let c = #[trigger] pattern[i] as u32;
            ||| 48 <= c <= 57
            ||| 65 <= c <= 90
            ||| 97 <= c <= 122
            ||| c == 32
        }
}

/// `pattern` holds no newline, backslash, `[` or `(`: no escape, class or
/// flag group that could match a newline, so under the default flags
/// (where `.` does not match `\n`) none of its matches spans a line end.
pub open spec fn is_single_line(pattern: Seq<char>) -> bool {
    forall|i: int|
        0 <= i < pattern.len() ==> {
            let c = #[trigger] pattern[i] as u32;
            &&& c != 10
            &&& c != 92
            &&& c != 91
            &&& c != 40
        }
}

/// The match a plain literal has in `hay`: its first occurrence.
pub open spec fn literal_match(hay: Seq<u8>, needle: Seq<u8>, r: Option<(usize, usize)>) -> bool {
    &&& r is Some <==> occurs_in(hay, needle)
    &&& r matches Some((s, e)) ==> {
        &&& e == s + needle.len()
        &&& occurs_at(hay, needle, s as int)
        &&& forall|j: int| 0 <= j < s ==> !occurs_at(hay, needle, j)
    }
}

/// No byte in `bytes` from `s` up to `e` is a newline.
pub open spec fn no_newline_between(bytes: Seq<u8>, s: int, e: int) -> bool {
    forall|i: int| s <= i < e ==> #[trigger] bytes[i] != 10u8
}

/// A plain literal matches only itself, byte for byte: the matched bytes
/// are the pattern's own, so text where it does not occur exactly (one
/// that differs from it only in letter case, say) gives no match.
pub proof fn lemma_literal_matches_only_itself(
    hay: Seq<u8>,
    pattern: Seq<char>,
    r: Option<(usize, usize)>,
)
    requires
        is_plain_literal(pattern),
        literal_match(hay, encode_utf8(pattern), r),
    ensures
        r matches Some((s, e)) ==> hay.subrange(s as int, e as int) == encode_utf8(pattern),
        (forall|i: int| !#[trigger] occurs_at(hay, encode_utf8(pattern), i)) ==> r is None,
{
}

/// A regular expression, kept as the pattern text it is compiled from.
///
/// Each search compiles that text afresh with `regex::Regex::new`, so the
/// regex searched with is always the one built from this text with the
/// default flags.
pub struct Pattern {
    source: String,
}

impl View for Pattern {
    type V = Seq<char>;

    closed spec fn view(&self) -> Seq<char> {
        self.source@
    }
}

/// Calls `regex::Regex::new` on `pattern`, which compiles, and
/// `regex::Regex::find` with the regex it builds, and hands back the
/// match's byte span. As `regex::Match` documents, `start <= end` and both
/// offsets fall on character boundaries of the haystack, and the match is
/// the leftmost-first one. As the regex syntax documentation gives it,
/// under the default flags letters, digits and spaces match themselves
/// case-sensitively, so a pattern of only those matches at its first
/// occurrence; and `.` matches anything but `\n`, so a pattern with no
/// newline, escape, class or flag group never matches across one.
#[verifier::external_body]
fn regex_find_in(pattern: &str, haystack: &str) -> (r: Option<(usize, usize)>)
    requires
        regex_compiles(pattern@),
    ensures
        r == regex_find(pattern@, haystack@),
        is_plain_literal(pattern@) ==> literal_match(haystack.spec_bytes(), pattern.spec_bytes(), r),
        is_single_line(pattern@) ==> (r matches Some((s, e)) ==> no_newline_between(
            haystack.spec_bytes(),
            s as int,
            e as int,
        )),
        r matches Some((s, e)) ==> {
            &&& s <= e <= haystack.spec_bytes().len()
            &&& is_char_boundary(haystack.spec_bytes(), s as int)
            &&& is_char_boundary(haystack.spec_bytes(), e as int)
        },
{
    match regex::Regex::new(pattern) {
        Ok(re) => match re.find(haystack) {
            Some(m) => Some((m.start(), m.end())),
            None => None,
        },
        Err(_) => None,
    }
}

impl Pattern {
    /// The source is a pattern the regex engine compiles.
    #[verifier::type_invariant]
    spec fn inv(self) -> bool {
        regex_compiles(self.source@)
    }

    /// Compiles `pattern`; a pattern the regex engine refuses is answered
    /// with `PtyError::Regex`.
    pub fn new(pattern: &str) -> (r: Result<Pattern, PtyError>)
        ensures
            r is Ok <==> regex_compiles(pattern@),
            r matches Ok(p) ==> p@ == pattern@,
            r matches Err(e) ==> e is Regex,
    {
        match regex_new(pattern) {
            Ok(_) => Ok(Pattern { source: pattern.to_owned() }),
            Err(e) => Err(PtyError::Regex(e)),
        }
    }

    /// The pattern text this was compiled from.
    pub fn source(&self) -> (r: &str)
        ensures
            r@ == self@,
    {
        self.source.as_str()
    }

    /// The byte span of the first match in `haystack` of the regex built
    /// from this pattern's text with the default flags.
    pub fn find(&self, haystack: &str) -> (r: Option<(usize, usize)>)
        ensures
            r == regex_find(self@, haystack@),
            is_plain_literal(self@) ==> literal_match(
                haystack.spec_bytes(),
                encode_utf8(self@),
                r,
            ),
            is_single_line(self@) ==> (r matches Some((s, e)) ==> no_newline_between(
                haystack.spec_bytes(),
                s as int,
                e as int,
            )),
            r matches Some((s, e)) ==> {
                &&& s <= e <= haystack.spec_bytes().len()
                &&& is_char_boundary(haystack.spec_bytes(), s as int)
                &&& is_char_boundary(haystack.spec_bytes(), e as int)
            },
    {
        proof {
            use_type_invariant(self);
        }
        regex_find_in(self.source.as_str(), haystack)
    }
}

} // verus!
