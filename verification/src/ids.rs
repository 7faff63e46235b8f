//! Fresh identifiers.

use vstd::prelude::*;

verus! {

/// Whether `c` is a hexadecimal digit in small letters.
pub open spec fn is_hex_digit(c: char) -> bool {
    '0' <= c <= '9' || 'a' <= c <= 'f'
}

/// The shape of an identifier: 36 characters, hyphens between the five groups
/// and hexadecimal digits elsewhere, among them the marks of a random one.
pub open spec fn is_uuid_text(s: Seq<char>) -> bool {
    &&& s.len() == 36
    &&& s[14] == '4'
    &&& s[19] == '8' || s[19] == '9' || s[19] == 'a' || s[19] == 'b'
    &&& forall|i: int|
        0 <= i < 36 ==> if i == 8 || i == 13 || i == 18 || i == 23 {
            #[trigger] s[i] == '-'
        } else {
            is_hex_digit(s[i])
        }
}

/// A fresh identifier: `uuid::Uuid::new_v4`, written out by its `Display`.
/// Which one comes is left to chance; the contract gives its shape, the
/// hyphenated form in small letters with the marks of the version and of the
/// variant.
#[verifier::external_body]
pub(crate) fn new_id() -> (id: String)
    ensures
        is_uuid_text(id@),
{
    uuid::Uuid::new_v4().to_string()
}

} // verus!
