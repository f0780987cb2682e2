//! The Unicode services of the standard library that the logic relies on:
//! case mapping and UTF-8 decoding.

use vstd::prelude::*;
use vstd::utf8::{decode_utf8, is_ascii_chars, valid_utf8};
use crate::text::{ascii_lower_seq, ascii_upper_seq};

verus! {

/// What `str::to_lowercase` returns for a string with these characters:
/// the Unicode lower-case mapping (which, for a final capital sigma, looks
/// at the neighbouring characters).
pub uninterp spec fn unicode_lowercase(s: Seq<char>) -> Seq<char>;

/// What `str::to_uppercase` returns for a string with these characters:
/// the Unicode upper-case mapping of each character, one after the other.
pub uninterp spec fn unicode_uppercase(s: Seq<char>) -> Seq<char>;

/// What `String::from_utf8_lossy` returns for these bytes: the decoded text,
/// with U+FFFD in place of every maximal invalid sequence.
pub uninterp spec fn lossy_utf8(bytes: Seq<u8>) -> Seq<char>;

/// Calls `str::to_lowercase`. The contract claims that the result is the
/// Unicode lower-case mapping of the argument, which depends on the
/// characters alone (the mapping is locale-independent), and, of that
/// mapping, only what it does to an all-ASCII text: letters become their
/// ASCII small forms, everything else stays. Nothing is claimed of other
/// characters.
#[verifier::external_body]
pub(crate) fn lowercase(s: &str) -> (r: String)
    ensures
        r@ == unicode_lowercase(s@),
        is_ascii_chars(s@) ==> r@ == ascii_lower_seq(s@),
{
    s.to_lowercase()
}

/// Calls `str::to_uppercase`. The contract claims that the result is the
/// Unicode upper-case mapping of the argument, which depends on the
/// characters alone (the mapping is locale-independent), and, of that
/// mapping, only what it does to ASCII: an ASCII beginning of the text is
/// mapped character by character, letters to their ASCII capitals and
/// everything else to itself. Nothing is claimed of other characters.
#[verifier::external_body]
pub(crate) fn uppercase(s: &str) -> (r: String)
    ensures
        r@ == unicode_uppercase(s@),
        is_ascii_chars(s@) ==> r@ == ascii_upper_seq(s@),
        forall|n: int|
            0 <= n <= s@.len() && is_ascii_chars(s@.take(n)) ==> n <= r@.len() && #[trigger] r@.take(
                n,
            ) == ascii_upper_seq(s@.take(n)),
{
    s.to_uppercase()
}

/// Calls `std::str::from_utf8`. The contract claims that it succeeds exactly
/// on well-formed UTF-8 and then yields the decoded characters; the error
/// value is dropped.
#[verifier::external_body]
pub(crate) fn utf8_text(bytes: &[u8]) -> (r: Option<&str>)
    ensures
        r is Some <==> valid_utf8(bytes@),
        r matches Some(s) ==> s@ == decode_utf8(bytes@),
{
    std::str::from_utf8(bytes).ok()
}

/// Calls `String::from_utf8_lossy` and takes the owned text. The contract
/// names the result, and states what the documentation gives for
/// well-formed input: the plain decoding. What it does with malformed input
/// (replacement characters) is left to the name.
#[verifier::external_body]
pub(crate) fn lossy_text(bytes: &[u8]) -> (r: String)
    ensures
        r@ == lossy_utf8(bytes@),
        valid_utf8(bytes@) ==> r@ == decode_utf8(bytes@),
{
    String::from_utf8_lossy(bytes).into_owned()
}

} // verus!
