use argon2::password_hash::rand_core::OsRng;
use argon2::password_hash::rand_core::RngCore;
use crate::text::hex_digit;
use vstd::prelude::*;

verus! {

/// What `uuid::Uuid::parse_str` reads from a text, as the UUID's 128 bits.
pub uninterp spec fn uuid_parsed(s: Seq<char>) -> Option<u128>;

/// Which of the 32 hex digits of a UUID stands at position `i` of its
/// hyphenated text, skipping the hyphens at 8, 13, 18 and 23.
pub open spec fn uuid_digit_index(i: int) -> int {
    if i < 8 {
        i
    } else if i < 13 {
        i - 1
    } else if i < 18 {
        i - 2
    } else if i < 23 {
        i - 3
    } else {
        i - 4
    }
}

/// The hyphenated text of 128 bits: 32 lowercase hex digits, most
/// significant first, in groups of 8-4-4-4-12 joined by `-`.
pub open spec fn uuid_hyphenated(u: u128) -> Seq<char> {
    Seq::new(
        36,
        |i: int|
            if i == 8 || i == 13 || i == 18 || i == 23 {
                '-'
            } else {
                hex_digit(((u >> ((4 * (31 - uuid_digit_index(i))) as u128)) & 0xF) as u8)
            },
    )
}

/// Relies on `uuid::Uuid::new_v4`: random bits, with the version nibble set
/// to 4 and the variant bits to `10`.
#[verifier::external_body]
pub(crate) fn new_uuid_v4() -> (r: u128)
    ensures
        r & 0xF000C000000000000000u128 == 0x40008000000000000000u128,
{
    uuid::Uuid::new_v4().as_u128()
}

/// Relies on `uuid::Uuid::parse_str`: the UUID that the text spells, if any.
#[verifier::external_body]
pub(crate) fn parse_uuid(s: &str) -> (r: Option<u128>)
    ensures
        r == uuid_parsed(s@),
{
    uuid::Uuid::parse_str(s).ok().map(|u| u.as_u128())
}

/// Relies on `uuid::Uuid::hyphenated`: lowercase hex digits of the 16
/// big-endian bytes in groups of 8-4-4-4-12, which `uuid::Uuid::parse_str`
/// reads back to the same UUID.
#[verifier::external_body]
pub(crate) fn uuid_to_text(u: u128) -> (r: String)
    ensures
        r@ == uuid_hyphenated(u),
        uuid_parsed(r@) == Some(u),
{
    uuid::Uuid::from_u128(u).hyphenated().to_string()
}

/// Relies on `rand_core::OsRng::next_u32`: a number from the operating
/// system's random source; nothing is known of its value.
#[verifier::external_body]
pub(crate) fn random_u32() -> (r: u32) {
    OsRng.next_u32()
}

} // verus!
