//! Identifiers that nobody has used before.

use crate::text::digit;
use vstd::prelude::*;

verus! {

/// The hexadecimal digits in small letters.
pub open spec fn hex_digit(c: char) -> bool {
    digit(c) || ('a' <= c && c <= 'f')
}

/// Whether a digit is one that marks the variant of a random UUID.
pub open spec fn variant_digit(c: char) -> bool {
    c == '8' || c == '9' || c == 'a' || c == 'b'
}

/// The texts of random UUIDs without hyphens.
pub open spec fn compact_uuid(s: Seq<char>) -> bool {
    &&& s.len() == 32
    &&& forall|i: int| 0 <= i < 32 ==> hex_digit(#[trigger] s[i])
    &&& s[12] == '4'
    &&& variant_digit(s[16])
}

/// The texts of random UUIDs: groups of digits with hyphens between them.
pub open spec fn hyphenated_uuid(s: Seq<char>) -> bool {
    &&& s.len() == 36
    &&& forall|i: int|
        0 <= i < 36 ==> if i == 8 || i == 13 || i == 18 || i == 23 {
            #[trigger] s[i] == '-'
        } else {
            hex_digit(s[i])
        }
    &&& s[14] == '4'
    &&& variant_digit(s[19])
}

/// Calls `uuid::Uuid::new_v4` and formats the result by `Uuid::simple`: 32
/// hexadecimal digits in small letters, of which two mark the version and the
/// variant. The other digits are random, so nothing is said of them.
#[verifier::external_body]
pub(crate) fn fresh_compact_uuid() -> (id: String)
    ensures
        compact_uuid(id@),
{
    uuid::Uuid::new_v4().simple().to_string()
}

/// Calls `uuid::Uuid::new_v4` and formats the result by its `Display`: the
/// digits of the simple form in groups of 8, 4, 4, 4 and 12, with hyphens
/// between them. Which digits they are is random, but for the two that mark
/// the version and the variant.
#[verifier::external_body]
pub(crate) fn fresh_uuid() -> (id: String)
    ensures
        hyphenated_uuid(id@),
{
    uuid::Uuid::new_v4().to_string()
}

} // verus!
