//! Identifiers of users, matches and projectiles: 128-bit numbers, written
//! as UUIDs.

use vstd::prelude::*;
use vstd::string::*;

verus! {

/// The bits of an identifier that tell a UUID's version and variant.
pub const VERSION_BITS: u128 = 0x0000_0000_0000_f000_c000_0000_0000_0000;

/// What `VERSION_BITS` holds in a random (version 4) UUID.
pub const RANDOM_VERSION: u128 = 0x0000_0000_0000_4000_8000_0000_0000_0000;

/// The hexadecimal digit for `n`, in lower case.
pub open spec fn hex_digit(n: int) -> char {
    "0123456789abcdef"@[n]
}

/// Which of an identifier's 32 hexadecimal digits stands at place `i` of
/// its text, counted from the most significant; the places 8, 13, 18 and 23
/// hold hyphens.
pub open spec fn digit_at(i: int) -> int {
    if i < 8 {
        i
    } else if i < 13 {
        i - 1
    } else if i < 18 {
        i - 2
    } else if i < 23 {
        i - 3
    } else {
        i - 4
    }
}

/// Digit `k` of `id`, counted from the most significant of its 32.
pub open spec fn nibble(id: u128, k: int) -> int {
    (id as int / vstd::arithmetic::power::pow(16, (31 - k) as nat)) % 16
}

/// The text of an identifier: 32 hexadecimal digits in groups of 8, 4, 4, 4
/// and 12, with hyphens between the groups.
pub open spec fn hyphenated(id: u128) -> Seq<char> {
    Seq::new(
        36,
        |i: int|
            if i == 8 || i == 13 || i == 18 || i == 23 {
                '-'
            } else {
                hex_digit(nibble(id, digit_at(i)))
            },
    )
}

/// What a player is called who has given no name: `Player_` and the first
/// eight digits of the user's identifier.
pub open spec fn default_name(user_id: u128) -> Seq<char> {
    "Player_"@ + hyphenated(user_id).subrange(0, 8)
}

/// Draws a fresh random identifier.
///
/// Trusted: calls `uuid::Uuid::new_v4` and returns the UUID's 128 bits.
/// That function fills the bits from the operating system's random source
/// and then sets the version to 4 and the variant to RFC 4122, which is all
/// that is claimed here.
#[verifier::external_body]
pub(crate) fn fresh_id() -> (id: u128)
    ensures
        id & VERSION_BITS == RANDOM_VERSION,
{
    uuid::Uuid::new_v4().as_u128()
}

/// Writes an identifier as text.
///
/// Trusted: calls `uuid::Uuid::from_u128` and the UUID's `to_string`, which
/// formats it in its hyphenated lower-case form.
#[verifier::external_body]
pub(crate) fn id_text(id: u128) -> (text: String)
    ensures
        text@ == hyphenated(id),
{
    uuid::Uuid::from_u128(id).to_string()
}

/// The name of a player who has given none.
pub fn default_display_name(user_id: u128) -> (name: String)
    ensures
        name@ == default_name(user_id),
{
    let text = id_text(user_id);
    let digits = text.as_str().substring_char(0, 8);
    String::from_str("Player_").concat(digits)
}

} // verus!
