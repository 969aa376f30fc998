//! Random identifiers.

use vstd::prelude::*;
use vstd::arithmetic::power::pow;
#[allow(unused_imports)]
use crate::numbers::digit_char;

verus! {

/// Whether a number is a random UUID: version 4, of the variant of RFC 9562.
pub open spec fn is_random_uuid(id: u128) -> bool {
    &&& (id as nat / 0x1000_0000_0000_0000_0000) % 16 == 4
    &&& (id as nat / 0x4000_0000_0000_0000) % 4 == 2
}

/// Calls `uuid::Uuid::new_v4`. Claimed of it: the number is a version 4 UUID of the variant of
/// RFC 9562. Nothing is claimed of its random bits. It does not return where the system gives no
/// random numbers.
#[verifier::external_body]
pub(crate) fn random_uuid() -> (r: u128)
    ensures
        is_random_uuid(r),
{
    uuid::Uuid::new_v4().as_u128()
}

/// The hexadecimal digit number `n` of the 32 of a UUID, counted from the highest.
pub open spec fn uuid_digit(id: u128, n: int) -> char {
    digit_char((id as int / pow(16, (31 - n) as nat)) % 16)
}

/// A UUID in its usual form: groups of 8, 4, 4, 4 and 12 lower case hexadecimal digits with hyphens
/// between them.
pub open spec fn hyphenated(id: u128) -> Seq<char> {
    Seq::new(
        36,
        |i: int|
            if i < 8 {
                uuid_digit(id, i)
            } else if i == 8 || i == 13 || i == 18 || i == 23 {
                '-'
            } else if i < 13 {
                uuid_digit(id, i - 1)
            } else if i < 18 {
                uuid_digit(id, i - 2)
            } else if i < 23 {
                uuid_digit(id, i - 3)
            } else {
                uuid_digit(id, i - 4)
            },
    )
}

/// Calls `<uuid::Uuid as ToString>::to_string`. Claimed of it: it writes the UUID in its usual
/// form.
#[verifier::external_body]
pub(crate) fn uuid_text(id: u128) -> (r: String)
    ensures
        r@ == hyphenated(id),
{
    uuid::Uuid::from_u128(id).to_string()
}

} // verus!
