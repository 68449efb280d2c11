//! Row ids are UUIDs; the library keeps them as 128-bit integers and writes
//! them in the hyphenated lower-case form.
use vstd::arithmetic::power2::pow2;
use vstd::prelude::*;

verus! {

/// The lower-case hexadecimal digit for `d` (`0 <= d < 16`).
pub open spec fn hex_digit(d: int) -> char {
    if d < 10 {
        (48 + d) as char
    } else {
        (97 + d - 10) as char
    }
}

/// The `k`-th of the 32 hexadecimal digits of `id`, most significant first.
pub open spec fn uuid_nibble(id: u128, k: int) -> int {
    (id as int / pow2((4 * (31 - k)) as nat) as int) % 16
}

/// The character at position `p` of the hyphenated form: hyphens at 8, 13,
/// 18 and 23, the digits in order elsewhere.
pub open spec fn uuid_char(id: u128, p: int) -> char {
    if p == 8 || p == 13 || p == 18 || p == 23 {
        '-'
    } else {
        let skipped: int = if p < 8 {
            0
        } else if p < 13 {
            1
        } else if p < 18 {
            2
        } else if p < 23 {
            3
        } else {
            4
        };
        hex_digit(uuid_nibble(id, p - skipped))
    }
}

/// The hyphenated lower-case form of the UUID `id`, such as
/// `a1a2a3a4-b1b2-c1c2-d1d2-d3d4d5d6d7d8`.
pub open spec fn uuid_text_spec(id: u128) -> Seq<char> {
    Seq::new(36, |p: int| uuid_char(id, p))
}

/// The hyphenated form of the UUID `id` (`Uuid::from_u128` shown with
/// `Display`, which writes the big-endian bytes as lower-case hex in groups
/// of 8, 4, 4, 4 and 12 digits).
#[verifier::external_body]
pub fn uuid_text(id: u128) -> (s: String)
    ensures
        s@ == uuid_text_spec(id),
{
    uuid::Uuid::from_u128(id).to_string()
}

} // verus!
