//! Fresh task identifiers.

use vstd::prelude::*;

verus! {

/// A decimal digit or a letter from `a` to `f`.
pub open spec fn is_lower_hex(c: char) -> bool {
    ('0' <= c && c <= '9') || ('a' <= c && c <= 'f')
}

/// The hyphenated form of a UUID: 36 characters, hyphens after the 8th,
/// 12th, 16th and 20th digit, lower-case hexadecimal digits elsewhere.
pub open spec fn is_hyphenated_uuid(text: Seq<char>) -> bool {
    &&& text.len() == 36
    &&& forall|i: int|
        0 <= i < 36 ==> if i == 8 || i == 13 || i == 18 || i == 23 {
            text[i] == '-'
        } else {
            is_lower_hex(#[trigger] text[i])
        }
}

/// `uuid::Uuid::new_v4`, written out with `to_string`. Trusted: the text
/// is in hyphenated form. Which identifier comes back is left open, so two
/// calls may or may not differ as far as any proof goes. The generator
/// panics where the operating system can supply no random bytes.
#[verifier::external_body]
pub(crate) fn fresh_identifier() -> (id: String)
    ensures
        is_hyphenated_uuid(id@),
{
    uuid::Uuid::new_v4().to_string()
}

} // verus!
