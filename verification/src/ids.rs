//! Run ids: the 128-bit value of a UUID, its text form, and its sources.

use vstd::arithmetic::power::pow;
use vstd::prelude::*;

use crate::text::outcome_text;

verus! {

/// Id of a training run: a UUID as its 128-bit big-endian value.
pub type RunId = u128;

/// The hexadecimal digit at place `k` of `id`, counted from the most
/// significant of its 32 digits.
pub open spec fn hex_digit(id: RunId, k: int) -> int {
    (id as int / pow(16, (31 - k) as nat)) % 16
}

/// The lower-case character of a hexadecimal digit.
pub open spec fn hex_char(digit: int) -> char {
    if digit < 10 {
        ('0' as int + digit) as char
    } else {
        ('a' as int + digit - 10) as char
    }
}

/// The text of a run id: 32 lower-case hexadecimal digits in groups of
/// 8, 4, 4, 4 and 12, with hyphens between the groups.
pub open spec fn hyphenated(id: RunId) -> Seq<char> {
    Seq::new(
        36,
        |i: int|
            if i == 8 || i == 13 || i == 18 || i == 23 {
                '-'
            } else if i < 8 {
                hex_char(hex_digit(id, i))
            } else if i < 13 {
                hex_char(hex_digit(id, i - 1))
            } else if i < 18 {
                hex_char(hex_digit(id, i - 2))
            } else if i < 23 {
                hex_char(hex_digit(id, i - 3))
            } else {
                hex_char(hex_digit(id, i - 4))
            },
    )
}

/// `id` is a random (version 4) UUID of the RFC 9562 variant.
pub open spec fn is_random_id(id: RunId) -> bool {
    &&& (id / 0x1000_0000_0000_0000_0000) % 16 == 4
    &&& (id / 0x4000_0000_0000_0000) % 4 == 2
}

/// What `uuid::Uuid::parse_str` makes of `text`: the id, or the text of its
/// error.
pub uninterp spec fn uuid_parsed(text: Seq<char>) -> Result<u128, Seq<char>>;

/// A fresh run id, from `uuid::Uuid::new_v4`.
///
/// The version and variant bits are fixed; the other bits are random, so
/// nothing more is said of them. `new_v4` does not return when the operating
/// system hands out no random bytes.
#[verifier::external_body]
pub(crate) fn new_run_id() -> (id: RunId)
    ensures
        is_random_id(id),
{
    uuid::Uuid::new_v4().as_u128()
}

/// The text of a run id, from the `Display` form of `uuid::Uuid`: lower-case
/// and hyphenated.
#[verifier::external_body]
pub(crate) fn id_text(id: RunId) -> (s: String)
    ensures
        s@ == hyphenated(id),
{
    uuid::Uuid::from_u128(id).to_string()
}

/// A run id read from text by `uuid::Uuid::parse_str`, with the text of its
/// error where it fails.
///
/// The result is named by [`uuid_parsed`]. Of the accepted formats one is
/// stated: the hyphenated text of an id parses to that id.
#[verifier::external_body]
pub(crate) fn parse_id(s: &str) -> (r: Result<RunId, String>)
    ensures
        outcome_text(r) == uuid_parsed(s@),
        forall|id: RunId| s@ == #[trigger] hyphenated(id) ==> r is Ok && r->Ok_0 == id,
{
    match uuid::Uuid::parse_str(s) {
        Ok(id) => Ok(id.as_u128()),
        Err(error) => Err(error.to_string()),
    }
}

} // verus!
