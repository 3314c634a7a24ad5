//! Small questions about names.

use crate::order::starts_lowercase;
use crate::text::grapheme_count;
use unicode_segmentation::UnicodeSegmentation;
use vstd::prelude::*;
use vstd::string::*;
use vstd::utf8::encode_utf8;

verus! {

/// Counts the extended grapheme clusters of `os_string` with
/// `UnicodeSegmentation::graphemes`.
///
/// Trusted: the result is the number of clusters that the segmentation
/// yields, which depends on nothing but the text.
#[verifier::external_body]
pub fn os_string_graphene_len(os_string: &str) -> (count: usize)
    ensures
        count == grapheme_count(os_string@),
{
    os_string.graphemes(true).count()
}

/// Whether the name begins with a lower-case letter of the basic alphabet.
pub fn starts_with_lowercase(os_string: &str) -> (lower: bool)
    ensures
        lower == starts_lowercase(encode_utf8(os_string@)),
{
    let name = os_string.as_bytes();
    name.len() > 0 && 97 <= name[0] && name[0] <= 122
}

} // verus!
