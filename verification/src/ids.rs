//! Fresh identifiers for timers and buffs.
use vstd::prelude::*;

verus! {

/// A lower-case hexadecimal digit.
pub open spec fn is_lower_hex(c: char) -> bool {
    ('0' <= c && c <= '9') || ('a' <= c && c <= 'f')
}

/// The text of a random (version 4, RFC 4122 variant) UUID in hyphenated
/// lower-case form: 36 characters, hyphens at 8, 13, 18 and 23, the version
/// digit `4` at 14, a variant digit of `8`, `9`, `a` or `b` at 19, and
/// lower-case hexadecimal digits elsewhere.
pub open spec fn is_v4_uuid_text(s: Seq<char>) -> bool {
    &&& s.len() == 36
    &&& s[8] == '-' && s[13] == '-' && s[18] == '-' && s[23] == '-'
    &&& s[14] == '4'
    &&& (s[19] == '8' || s[19] == '9' || s[19] == 'a' || s[19] == 'b')
    &&& forall|i: int|
        0 <= i < 36 && i != 8 && i != 13 && i != 18 && i != 23 ==> is_lower_hex(#[trigger] s[i])
}

/// A fresh random identifier: calls `uuid::Uuid::new_v4` and formats the result
/// with its `Display` impl, which writes the hyphenated lower-case form.
/// `new_v4` masks in the version nibble 4 and the variant bits `10`, which the
/// contract states; which identifier comes back is not claimed. `new_v4` panics
/// only when the operating system cannot hand out random bytes, which no
/// argument decides.
#[verifier::external_body]
pub(crate) fn new_v4_string() -> (r: String)
    ensures
        is_v4_uuid_text(r@),
{
    uuid::Uuid::new_v4().to_string()
}

} // verus!
