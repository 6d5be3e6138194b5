//! Unicode normalization of input text, performed by an outside crate and
//! named, not restated, in the contracts.

use vstd::prelude::*;

use unicode_normalization::UnicodeNormalization;

verus! {

/// The canonical composition (NFC) of a character sequence. The result
/// depends on the characters alone.
pub uninterp spec fn nfc_of(s: Seq<char>) -> Seq<char>;

/// Relies on unicode_normalization's `UnicodeNormalization::nfc` on `&str`:
/// the canonical composition of the text, as a character sequence.
#[verifier::external_body]
pub(crate) fn normalize_nfc(text: &str) -> (r: Vec<char>)
    ensures
        r@ == nfc_of(text@),
{
    text.nfc().collect()
}

} // verus!
