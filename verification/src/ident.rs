//! Identifiers of users and jobs: UUIDs, held as 128-bit numbers.

use crate::encoding::hex_digit;
use vstd::prelude::*;

verus! {

/// Whether `id` carries the marks of a random UUID: version 4 and the RFC
/// variant.
pub open spec fn is_version4(id: u128) -> bool {
    id & 0x0000_0000_0000_F000_C000_0000_0000_0000 == 0x0000_0000_0000_4000_8000_0000_0000_0000
}

/// The text of `id` in the hyphenated form: 32 lower-case hexadecimal digits,
/// the highest first, in groups of 8, 4, 4, 4 and 12 with a hyphen between them.
pub open spec fn hyphenated(id: u128) -> Seq<char> {
    Seq::new(
        36,
        |i: int|
            if i == 8 || i == 13 || i == 18 || i == 23 {
                '-'
            } else {
                let hyphens: int = if i > 23 {
                    4
                } else if i > 18 {
                    3
                } else if i > 13 {
                    2
                } else if i > 8 {
                    1
                } else {
                    0
                };
                hex_digit((id as int / pow16(31 - (i - hyphens))) % 16)
            },
    )
}

/// Sixteen to the power of `n`.
pub open spec fn pow16(n: int) -> int
    decreases n,
{
    if n <= 0 {
        1
    } else {
        16 * pow16(n - 1)
    }
}

/// The identifier that the `uuid` crate reads from `text`; `None` where it
/// rejects the text.
pub uninterp spec fn uuid_of(text: Seq<char>) -> Option<u128>;

/// Calls `uuid::Uuid::new_v4`. Trusted: whatever the random bits, the
/// identifier carries version 4 and the RFC variant. The call does not return
/// where the system hands out no random bytes.
#[verifier::external_body]
pub(crate) fn new_v4() -> (id: u128)
    ensures
        is_version4(id),
{
    uuid::Uuid::new_v4().as_u128()
}

/// Calls `uuid::Uuid::parse_str`. Trusted: the result depends on the text alone,
/// and is what `uuid_of` names.
#[verifier::external_body]
pub(crate) fn parse_str(text: &str) -> (id: Option<u128>)
    ensures
        id == uuid_of(text@),
{
    match uuid::Uuid::parse_str(text) {
        Ok(id) => Some(id.as_u128()),
        Err(_) => None,
    }
}

/// Formats `uuid::Uuid::from_u128(id)` with its `Display`. Trusted: the text
/// is the hyphenated lower-case form.
#[verifier::external_body]
pub(crate) fn to_text(id: u128) -> (text: String)
    ensures
        text@ == hyphenated(id),
{
    uuid::Uuid::from_u128(id).to_string()
}

} // verus!
