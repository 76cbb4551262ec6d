//! What the library takes from the standard library's strings without proof.

use vstd::prelude::*;

verus! {

/// The lower-case form of a text, as `str::to_lowercase` computes it from
/// the Unicode tables. Nothing more is known of it here.
pub uninterp spec fn lowercase(text: Seq<char>) -> Seq<char>;

/// Calls `str::to_lowercase`. Believed, not proved: the result is the
/// lower-case form of `text`, which depends on the characters of `text` alone.
#[verifier::external_body]
pub(crate) fn to_lowercase(text: &str) -> (lowered: String)
    ensures
        lowered@ == lowercase(text@),
{
    text.to_lowercase()
}

/// `String::push`. Believed, not proved: the string afterwards is the string
/// before with `ch` behind its last character.
pub assume_specification[ String::push ](string: &mut String, ch: char)
    ensures
        final(string)@ == old(string)@.push(ch),
;

} // verus!
