//! Player identifiers and their text form.
use vstd::prelude::*;
use vstd::arithmetic::power::pow;
use uuid::Uuid;

verus! {

/// The `k`-th hexadecimal digit of `id`, most significant first (`k` in `0..32`).
pub open spec fn nibble(id: u128, k: int) -> int {
    (id as int / pow(16, (31 - k) as nat)) % 16
}

/// Digits `from..to` of `id` in lower-case hexadecimal.
pub open spec fn hex_digits(id: u128, from: int, to: int) -> Seq<char> {
    Seq::new((to - from) as nat, |i: int| "0123456789abcdef"@[nibble(id, from + i)])
}

/// The hyphenated lower-case text of the UUID whose 128 bits are `id`: its
/// 32 hexadecimal digits, most significant first, in groups of 8, 4, 4, 4
/// and 12 joined by hyphens.
pub open spec fn uuid_text(id: u128) -> Seq<char> {
    hex_digits(id, 0, 8) + "-"@ + hex_digits(id, 8, 12) + "-"@ + hex_digits(id, 12, 16) + "-"@
        + hex_digits(id, 16, 20) + "-"@ + hex_digits(id, 20, 32)
}

/// Relies on uuid's `Uuid::from_u128`, which stores the id's bytes most
/// significant first, and on its `Display`, which writes them as hyphenated
/// lower-case hexadecimal.
#[verifier::external_body]
pub(crate) fn id_text(id: u128) -> (r: String)
    ensures
        r@ == uuid_text(id),
{
    Uuid::from_u128(id).to_string()
}

} // verus!
