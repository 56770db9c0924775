//! Fresh identifiers, drawn by the `uuid` crate.

use vstd::prelude::*;

verus! {

/// Whether `c` is a lower-case hexadecimal digit.
pub open spec fn is_hex_digit(c: char) -> bool {
    ('0' <= c <= '9') || ('a' <= c <= 'f')
}

/// Whether `s` is a random UUID in its usual text form: five groups of lower-case
/// hexadecimal digits with hyphens between them, the third beginning with the
/// version 4 and the fourth with a digit of the RFC 4122 variant.
pub open spec fn is_uuid(s: Seq<char>) -> bool {
    &&& s.len() == 36
    &&& s[8] == '-' && s[13] == '-' && s[18] == '-' && s[23] == '-'
    &&& s[14] == '4'
    &&& s[19] == '8' || s[19] == '9' || s[19] == 'a' || s[19] == 'b'
    &&& forall|i: int|
        0 <= i < 36 && i != 8 && i != 13 && i != 18 && i != 23 ==> is_hex_digit(#[trigger] s[i])
}

/// `uuid::Uuid::new_v4` and its `Display` text: 32 lower-case hexadecimal digits in
/// groups of 8, 4, 4, 4 and 12. But for the version and the variant they are random.
/// It panics only where the system has no random bytes to give.
#[verifier::external_body]
pub(crate) fn random_uuid() -> (r: String)
    ensures
        is_uuid(r@),
{
    uuid::Uuid::new_v4().to_string()
}

/// A fresh random identifier.
pub fn fresh_id() -> (r: String)
    ensures
        is_uuid(r@),
{
    random_uuid()
}

/// An identifier holds nothing that a shell or a path would treat specially.
pub proof fn law_ids_are_plain(s: Seq<char>)
    requires
        is_uuid(s),
    ensures
        !s.contains('/'),
        !s.contains('\''),
        !s.contains(' '),
        !s.contains('\n'),
{
    assert forall|i: int| 0 <= i < s.len() implies is_hex_digit(#[trigger] s[i]) || s[i] == '-' by {
        if i != 8 && i != 13 && i != 18 && i != 23 {
            assert(is_hex_digit(s[i]));
        }
    }
}

} // verus!
