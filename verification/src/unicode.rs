//! Letter case and UTF-8.

use vstd::prelude::*;

verus! {

/// The lower case of an ASCII letter; any other character as it is.
pub open spec fn ascii_lower(c: char) -> char {
    if 'A' <= c <= 'Z' {
        (c as u32 + 32) as char
    } else {
        c
    }
}

/// Every character lies in the ASCII range.
pub open spec fn ascii_only(text: Seq<char>) -> bool {
    forall|i: int| 0 <= i < text.len() ==> (#[trigger] text[i]) as u32 <= 127
}

/// The Unicode lower case of a text, as `str::to_lowercase` gives it.
pub uninterp spec fn lowercase_of(text: Seq<char>) -> Seq<char>;

/// The text of bytes that need not be UTF-8, as `String::from_utf8_lossy` gives it.
pub uninterp spec fn lossy_text(bytes: Seq<u8>) -> Seq<char>;

/// The Unicode lower case of a text: `str::to_lowercase`.
///
/// Trusted: the outcome depends on the text alone, and an ASCII text has its
/// letters from `A` to `Z` lowered one for one.
#[verifier::external_body]
pub(crate) fn to_lower(text: &str) -> (out: String)
    ensures
        out@ == lowercase_of(text@),
        ascii_only(text@) ==> out@ == text@.map_values(|c: char| ascii_lower(c)),
{
    text.to_lowercase()
}

/// The lower case of a text: an ASCII text letter by letter, any other as
/// Unicode has it.
pub open spec fn lowered(text: Seq<char>) -> Seq<char> {
    if ascii_only(text) {
        text.map_values(|c: char| ascii_lower(c))
    } else {
        lowercase_of(text)
    }
}

/// The lower case of a text.
pub fn lower(text: &str) -> (out: String)
    ensures
        out@ == lowered(text@),
{
    to_lower(text)
}

/// The text of bytes that need not be UTF-8: `String::from_utf8_lossy`.
///
/// Trusted: the outcome depends on the bytes alone, and valid UTF-8 is decoded.
#[verifier::external_body]
pub(crate) fn utf8_lossy(bytes: &Vec<u8>) -> (out: String)
    ensures
        out@ == lossy_text(bytes@),
        vstd::utf8::valid_utf8(bytes@) ==> out@ == vstd::utf8::decode_utf8(bytes@),
{
    String::from_utf8_lossy(bytes).into_owned()
}

/// The text of bytes: valid UTF-8 decoded, and anything else as far as it goes.
pub open spec fn decoded(bytes: Seq<u8>) -> Seq<char> {
    if vstd::utf8::valid_utf8(bytes) {
        vstd::utf8::decode_utf8(bytes)
    } else {
        lossy_text(bytes)
    }
}

/// The text of bytes.
pub fn decode(bytes: &Vec<u8>) -> (out: String)
    ensures
        out@ == decoded(bytes@),
{
    utf8_lossy(bytes)
}

/// `text` with its letters from `A` to `Z` lowered.
pub open spec fn ascii_lowered(text: Seq<char>) -> Seq<char> {
    text.map_values(|c: char| ascii_lower(c))
}

/// `text` with its letters from `A` to `Z` lowered.
pub fn lower_ascii(text: &str) -> (out: String)
    ensures
        out@ == ascii_lowered(text@),
{
    let mut out = String::new();
    for c in it: text.chars()
        invariant
            out@ == ascii_lowered(text@.take(it.index())),
            it.seq() == text@,
    {
        let ghost before = out@;
        if 'A' <= c && c <= 'Z' {
            let low = (c as u8 + 32) as char;
            out.push(low);
        } else {
            out.push(c);
        }
        proof {
            let n = it.index();
            assert(text@.take(n + 1) =~= text@.take(n).push(text@[n]));
            assert(out@ =~= ascii_lowered(text@.take(n + 1)));
        }
    }
    assert(text@.take(text@.len() as int) =~= text@);
    out
}

/// The text of UTF-8 bytes: `String::from_utf8`.
///
/// Trusted: valid UTF-8 is decoded, and anything else is refused.
#[verifier::external_body]
pub(crate) fn utf8_text(bytes: Vec<u8>) -> (r: Option<String>)
    ensures
        r is Some <==> vstd::utf8::valid_utf8(bytes@),
        r matches Some(text) ==> text@ == vstd::utf8::decode_utf8(bytes@),
{
    String::from_utf8(bytes).ok()
}

/// A letter from `A` to `Z` is lowered to the one from `a` to `z` in the same place, and
/// every other character stays.
pub proof fn law_ascii_letters(text: Seq<char>, i: int)
    requires
        0 <= i < text.len(),
    ensures
        ascii_lowered(text).len() == text.len(),
        'A' <= text[i] <= 'Z' ==> ascii_lowered(text)[i] as int - 'a' as int == text[i] as int
            - 'A' as int,
        !('A' <= text[i] <= 'Z') ==> ascii_lowered(text)[i] == text[i],
{
}

} // verus!
