//! Record identifiers: random version-4 UUIDs, held as their 128-bit value,
//! and their hyphenated text form, which names files on disk.

use vstd::arithmetic::power2::pow2;
use vstd::prelude::*;

verus! {

/// The `k`-th hexadecimal digit of `id` (0 is the most significant), in
/// lower case.
pub open spec fn uuid_digit(id: u128, k: int) -> char {
    let n = (id as int / pow2((4 * (31 - k)) as nat) as int) % 16;
    if n < 10 {
        (48 + n) as char
    } else {
        (87 + n) as char
    }
}

/// Position among the 32 digits of the character at `i` of the text form.
pub open spec fn uuid_digit_index(i: int) -> int {
    if i < 8 {
        i
    } else if i < 13 {
        i - 1
    } else if i < 18 {
        i - 2
    } else if i < 23 {
        i - 3
    } else {
        i - 4
    }
}

/// The hyphenated text of a UUID: 32 lower-case hex digits, most significant
/// first, in groups of 8-4-4-4-12 separated by `-`.
pub open spec fn uuid_hyphenated(id: u128) -> Seq<char> {
    Seq::new(
        36,
        |i: int|
            if i == 8 || i == 13 || i == 18 || i == 23 {
                '-'
            } else {
                uuid_digit(id, uuid_digit_index(i))
            },
    )
}

/// Calls `uuid::Uuid::new_v4` and returns the UUID's 128-bit value. The
/// value is random; what is claimed is only what every version-4 UUID
/// carries: the version digit (the 13th hex digit) is 4.
#[verifier::external_body]
pub(crate) fn new_id() -> (id: u128)
    ensures
        (id as int / pow2(76) as int) % 16 == 4,
{
    uuid::Uuid::new_v4().as_u128()
}

/// Calls `uuid::Uuid::from_u128` and formats the UUID with `to_string`,
/// which the uuid documentation gives as the lower-case hyphenated form.
#[verifier::external_body]
pub(crate) fn uuid_text(id: u128) -> (s: String)
    ensures
        s@ == uuid_hyphenated(id),
{
    uuid::Uuid::from_u128(id).to_string()
}

} // verus!
