//! Text primitives: the models of the string operations the filters and
//! decoders rely on, and the standard-library calls that compute them.

use vstd::prelude::*;
use vstd::utf8::{decode_utf8, valid_utf8};

verus! {

/// ASCII lower-casing of one character: `'A'..='Z'` map to `'a'..='z'`,
/// every other character is unchanged.
pub open spec fn ascii_lower_char(c: char) -> char {
    if 'A' <= c && c <= 'Z' {
        ((c as u8 + 32) as u8) as char
    } else {
        c
    }
}

/// ASCII lower-casing of a whole text, character by character.
pub open spec fn ascii_lower(s: Seq<char>) -> Seq<char> {
    s.map_values(|c: char| ascii_lower_char(c))
}

/// `needle` occurs in `hay` as a contiguous run of characters.
pub open spec fn has_substring(hay: Seq<char>, needle: Seq<char>) -> bool {
    exists|i: int|
        0 <= i && i + needle.len() <= hay.len() && #[trigger] hay.subrange(
            i,
            i + needle.len(),
        ) == needle
}

/// Whether a character has the Unicode `White_Space` property, by which
/// `str::trim` goes: the controls U+0009 to U+000D and U+0085, and the
/// spaces U+0020, U+00A0, U+1680, U+2000 to U+200A, U+2028, U+2029,
/// U+202F, U+205F and U+3000.
pub open spec fn is_white_space(c: char) -> bool {
    let code = c as u32;
    (0x0009 <= code <= 0x000D) || code == 0x0020 || code == 0x0085 || code == 0x00A0 || code
        == 0x1680 || (0x2000 <= code <= 0x200A) || code == 0x2028 || code == 0x2029 || code
        == 0x202F || code == 0x205F || code == 0x3000
}

/// `str::eq_ignore_ascii_case`: the two texts agree once both are ASCII
/// lower-cased.
pub assume_specification[ str::eq_ignore_ascii_case ](s: &str, other: &str) -> (r: bool)
    ensures
        r == (ascii_lower(s@) == ascii_lower(other@)),
;

/// `str::to_ascii_lowercase`: a copy in which each ASCII upper-case letter
/// is replaced by its lower-case form and nothing else changes.
pub assume_specification[ str::to_ascii_lowercase ](s: &str) -> (r: String)
    ensures
        r@ == ascii_lower(s@),
;

/// `str::trim`: the sub-slice left after leading and trailing white space
/// is removed.
pub assume_specification[ str::trim ](s: &str) -> (r: &str)
    ensures
        exists|i: int|
            0 <= i <= s@.len() - r@.len() && r@ == #[trigger] s@.subrange(i, i + r@.len())
                && (forall|k: int|
                0 <= k < s@.len() && !(i <= k < i + r@.len()) ==> is_white_space(
                    #[trigger] s@[k],
                )),
        r@.len() > 0 ==> !is_white_space(r@.first()) && !is_white_space(r@.last()),
;

/// `str::eq`: two string slices are equal exactly when they hold the same
/// characters.
pub assume_specification[ <str as PartialEq>::eq ](a: &str, b: &str) -> (r: bool)
    ensures
        r == (a@ == b@),
;

/// `str::contains` with a string pattern: whether the pattern matches a
/// sub-slice of the text.
#[verifier::external_body]
pub(crate) fn text_contains(hay: &str, needle: &str) -> (r: bool)
    ensures
        r == has_substring(hay@, needle@),
{
    hay.contains(needle)
}

/// What `String::from_utf8_lossy` makes of a sequence of bytes.
pub uninterp spec fn lossy_text(bytes: Seq<u8>) -> Seq<char>;

/// `String::from_utf8_lossy`: the text that the bytes encode, with each
/// invalid sequence replaced by U+FFFD. The outcome is a function of the
/// bytes alone, and valid UTF-8 is decoded as it stands.
#[verifier::external_body]
fn utf8_lossy(bytes: &[u8]) -> (r: String)
    ensures
        r@ == lossy_text(bytes@),
        valid_utf8(bytes@) ==> r@ == decode_utf8(bytes@),
{
    String::from_utf8_lossy(bytes).into_owned()
}

/// The text that a sequence of bytes stands for: what the bytes encode
/// where they are valid UTF-8, and what `String::from_utf8_lossy` makes
/// of them where they are not.
pub open spec fn text_of(bytes: Seq<u8>) -> Seq<char> {
    if valid_utf8(bytes) {
        decode_utf8(bytes)
    } else {
        lossy_text(bytes)
    }
}

/// Reads bytes as text, with U+FFFD in the place of what is no UTF-8.
pub fn decode_bytes(bytes: &[u8]) -> (r: String)
    ensures
        r@ == text_of(bytes@),
{
    utf8_lossy(bytes)
}

/// The characters of a text, one by one.
pub fn chars_of(s: &str) -> (r: Vec<char>)
    ensures
        r@ == s@,
{
    let mut out: Vec<char> = Vec::new();
    for c in it: s.chars()
        invariant
            out@ == it.seq().take(it.index() as int),
    {
        out.push(c);
    }
    out
}

/// A text without its leading white space.
pub open spec fn trim_start(s: Seq<char>) -> Seq<char>
    decreases s.len(),
{
    if s.len() > 0 && is_white_space(s[0]) {
        trim_start(s.skip(1))
    } else {
        s
    }
}

/// A text without its trailing white space.
pub open spec fn trim_end(s: Seq<char>) -> Seq<char>
    decreases s.len(),
{
    if s.len() > 0 && is_white_space(s.last()) {
        trim_end(s.drop_last())
    } else {
        s
    }
}

/// A text without its leading and trailing white space.
pub open spec fn trimmed(s: Seq<char>) -> Seq<char> {
    trim_end(trim_start(s))
}

/// Where the first `i` characters are white space and the next is not,
/// trimming the start removes exactly those `i`.
proof fn lemma_trim_start(s: Seq<char>, i: int)
    requires
        0 <= i <= s.len(),
        forall|k: int| 0 <= k < i ==> is_white_space(#[trigger] s[k]),
        i < s.len() ==> !is_white_space(s[i]),
    ensures
        trim_start(s) == s.skip(i),
    decreases i,
{
    if i > 0 {
        assert(forall|k: int| 0 <= k < i - 1 ==> is_white_space(#[trigger] s.skip(1)[k]));
        lemma_trim_start(s.skip(1), i - 1);
    }
}

/// Where everything from `j` on is white space and the character before
/// is not, trimming the end keeps exactly the first `j`.
proof fn lemma_trim_end(s: Seq<char>, j: int)
    requires
        0 <= j <= s.len(),
        forall|k: int| j <= k < s.len() ==> is_white_space(#[trigger] s[k]),
        0 < j ==> !is_white_space(s[j - 1]),
    ensures
        trim_end(s) == s.take(j),
    decreases s.len() - j,
{
    if j < s.len() {
        lemma_trim_end(s.drop_last(), j);
    }
}

/// Removes leading and trailing white space.
pub fn trim_text(s: &str) -> (r: &str)
    ensures
        r@ == trimmed(s@),
{
    let r = s.trim();
    proof {
        let i = choose|i: int|
            0 <= i <= s@.len() - r@.len() && r@ == #[trigger] s@.subrange(i, i + r@.len())
                && (forall|k: int|
                0 <= k < s@.len() && !(i <= k < i + r@.len()) ==> is_white_space(
                    #[trigger] s@[k],
                ));
        let n = r@.len() as int;
        if n == 0 {
            lemma_trim_start(s@, s@.len() as int);
        } else {
            lemma_trim_start(s@, i);
            let rest = s@.skip(i);
            assert(forall|k: int| n <= k < rest.len() ==> is_white_space(#[trigger] rest[k]));
            lemma_trim_end(rest, n);
        }
    }
    r
}

} // verus!
