//! Decoding: the decoders that outside crates and `std` provide, each behind
//! a contract that names what it returns, and what is made of their results.

use base64::Engine;
use vstd::prelude::*;

verus! {

/// What the base64 `STANDARD` engine decodes from a text: the bytes, or
/// `None` where it rejects the text.
pub uninterp spec fn base64_decoded(text: Seq<char>) -> Option<Seq<u8>>;

/// The text that `String::from_utf8_lossy` makes of bytes.
pub uninterp spec fn utf8_lossy(bytes: Seq<u8>) -> Seq<char>;

/// Whether a character has the Unicode property `White_Space`, by which
/// `str::trim` tells what to strip.
pub uninterp spec fn white_space(c: char) -> bool;

/// A text without the white space at its beginning.
pub open spec fn without_leading_space(text: Seq<char>) -> Seq<char>
    decreases text.len(),
{
    if text.len() > 0 && white_space(text[0]) {
        without_leading_space(text.drop_first())
    } else {
        text
    }
}

/// A text without the white space at its end.
pub open spec fn without_trailing_space(text: Seq<char>) -> Seq<char>
    decreases text.len(),
{
    if text.len() > 0 && white_space(text.last()) {
        without_trailing_space(text.drop_last())
    } else {
        text
    }
}

/// A text without the white space at its beginning and at its end.
pub open spec fn trimmed(text: Seq<char>) -> Seq<char> {
    without_trailing_space(without_leading_space(text))
}

/// The text that `percent_decode_str(..).decode_utf8_lossy()` makes of a
/// text: its escapes of `%` and two hexadecimal digits replaced by the bytes
/// they spell, and the outcome read as UTF-8.
pub uninterp spec fn percent_decoded(text: Seq<char>) -> Seq<char>;

/// `Engine::decode` of the `STANDARD` engine, with the error dropped. The
/// result depends on the text alone.
#[verifier::external_body]
pub(crate) fn base64_decode(text: &str) -> (bytes: Option<Vec<u8>>)
    ensures
        match bytes {
            Some(b) => base64_decoded(text@) == Some(b@),
            None => base64_decoded(text@) is None,
        },
{
    base64::engine::general_purpose::STANDARD.decode(text).ok()
}

/// `String::from_utf8_lossy`, as an owned string.
#[verifier::external_body]
pub(crate) fn string_from_utf8_lossy(bytes: &Vec<u8>) -> (text: String)
    ensures
        text@ == utf8_lossy(bytes@),
{
    String::from_utf8_lossy(bytes).into_owned()
}

/// `percent_decode_str` followed by `decode_utf8_lossy`, as an owned string.
/// The result depends on the text alone.
#[verifier::external_body]
pub(crate) fn percent_decode_lossy(text: &str) -> (decoded: String)
    ensures
        decoded@ == percent_decoded(text@),
{
    percent_encoding::percent_decode_str(text).decode_utf8_lossy().into_owned()
}

/// `str::trim`: the text without its leading and trailing whitespace, where
/// whitespace is what has the property `White_Space`. What is left neither
/// begins nor ends with such a character.
#[verifier::external_body]
pub(crate) fn trim(text: &str) -> (rest: &str)
    ensures
        rest@ == trimmed(text@),
        rest@.len() > 0 ==> !white_space(rest@[0]) && !white_space(rest@.last()),
{
    text.trim()
}

/// Stripping the end leaves no white space at the end, and keeps the
/// beginning.
pub proof fn lemma_without_trailing_space(text: Seq<char>)
    ensures
        without_trailing_space(text).len() <= text.len(),
        without_trailing_space(text) == text.take(without_trailing_space(text).len() as int),
        without_trailing_space(text).len() > 0 ==> !white_space(
            without_trailing_space(text).last(),
        ),
    decreases text.len(),
{
    if text.len() > 0 && white_space(text.last()) {
        lemma_without_trailing_space(text.drop_last());
        let rest = without_trailing_space(text);
        assert(text.drop_last().take(rest.len() as int) =~= text.take(rest.len() as int));
    } else {
        assert(text.take(text.len() as int) =~= text);
    }
}

/// Stripping the beginning leaves no white space at the beginning, and
/// keeps the end.
pub proof fn lemma_without_leading_space(text: Seq<char>)
    ensures
        without_leading_space(text).len() <= text.len(),
        without_leading_space(text) == text.skip(
            text.len() - without_leading_space(text).len(),
        ),
        without_leading_space(text).len() > 0 ==> !white_space(without_leading_space(text)[0]),
    decreases text.len(),
{
    if text.len() > 0 && white_space(text[0]) {
        lemma_without_leading_space(text.drop_first());
        let rest = without_leading_space(text);
        assert(text.drop_first().skip(text.len() - 1 - rest.len()) =~= text.skip(
            text.len() - rest.len(),
        ));
    } else {
        assert(text.skip(0) =~= text);
    }
}

/// A trimmed text is a part of the text it was made from, and neither
/// begins nor ends with white space.
pub proof fn lemma_trimmed(text: Seq<char>)
    ensures
        exists|from: int, to: int|
            0 <= from <= to <= text.len() && trimmed(text) == #[trigger] text.subrange(from, to),
        trimmed(text).len() > 0 ==> !white_space(trimmed(text)[0]) && !white_space(
            trimmed(text).last(),
        ),
{
    let inner = without_leading_space(text);
    let rest = trimmed(text);
    lemma_without_leading_space(text);
    lemma_without_trailing_space(inner);
    let from = text.len() - inner.len();
    let to = from + rest.len();
    assert(rest =~= text.subrange(from, to));
    if rest.len() > 0 {
        assert(rest[0] == inner[0]);
    }
}

/// The text that decoded bytes stand for, read as UTF-8; the plain text
/// where nothing was decoded.
pub open spec fn text_or_plain(decoded: Option<Seq<u8>>, plain: Seq<char>) -> Seq<char> {
    match decoded {
        Some(bytes) => utf8_lossy(bytes),
        None => plain,
    }
}

/// The text that an input stands for which may be base64: decoded and read
/// as UTF-8 where it is base64, and the input itself where it is not.
pub open spec fn base64_text(input: Seq<char>) -> Seq<char> {
    text_or_plain(base64_decoded(input), input)
}

/// Reads decoded bytes as UTF-8, and falls back to the plain text where
/// nothing was decoded.
pub fn lossy_or_plain(decoded: Option<Vec<u8>>, plain: String) -> (text: String)
    ensures
        text@ == text_or_plain(
            match decoded {
                Some(bytes) => Some(bytes@),
                None => None,
            },
            plain@,
        ),
{
    match decoded {
        Some(bytes) => string_from_utf8_lossy(&bytes),
        None => plain,
    }
}

/// Decodes an input that may be base64.
pub fn decode_base64_text(input: String) -> (text: String)
    ensures
        text@ == base64_text(input@),
{
    let decoded = base64_decode(input.as_str());
    lossy_or_plain(decoded, input)
}

} // verus!
