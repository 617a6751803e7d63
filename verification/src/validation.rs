//! Checks on the fields of a job description.

use crate::encoding::{base64_decode, base64_decoded};
use crate::schedule::{parse_spec, Schedule, ScheduleError, MAX_INSTANT, MIN_INSTANT};
use crate::text::tokens;
use vstd::prelude::*;

verus! {

/// Why a field is not valid: a code that says so in words.
#[derive(Debug, Clone, Copy)]
pub struct ValidationError {
    pub code: &'static str,
}

/// Whether `r` is the verdict on a schedule expression whose parsing gave
/// `parsed`: valid where it parsed, and else the reason of the error.
pub open spec fn is_schedule_verdict(
    r: Result<(), ValidationError>,
    parsed: Result<Schedule, ScheduleError>,
) -> bool {
    match r {
        Ok(_) => parsed is Ok,
        Err(error) => parsed matches Err(cause) && error.code@ == cause.reason_spec(),
    }
}

/// The code of an encoded source that does not decode.
pub open spec fn invalid_source() -> Seq<char> {
    "Invalid Base64-encoded source code"@
}

/// The verdict on a schedule expression whose parsing gave `parsed`.
pub fn schedule_verdict(parsed: Result<Schedule, ScheduleError>) -> (r: Result<
    (),
    ValidationError,
>)
    ensures
        is_schedule_verdict(r, parsed),
{
    match parsed {
        Ok(_) => Ok(()),
        Err(cause) => Err(ValidationError { code: cause.reason() }),
    }
}

/// Checks that `input` is a schedule expression, at the instant `now`.
pub fn validate_schedule_at(input: &str, now: i128) -> (r: Result<(), ValidationError>)
    ensures
        is_schedule_verdict(r, parse_spec(tokens(input@), now as int)),
{
    schedule_verdict(Schedule::new().parse_at(input, now))
}

/// Checks that `input` is a schedule expression, at the instant that the clock
/// reports.
pub fn validate_schedule(input: &str) -> (r: Result<(), ValidationError>)
    ensures
        exists|now: int|
            MIN_INSTANT <= now <= MAX_INSTANT && is_schedule_verdict(
                r,
                #[trigger] parse_spec(tokens(input@), now),
            ),
{
    let parsed = Schedule::new().parse(input);
    schedule_verdict(parsed)
}

/// The verdict on an encoded source that decoded to `decoded`: valid where it
/// decoded at all.
pub fn source_verdict(decoded: Option<Vec<u8>>) -> (r: Result<(), ValidationError>)
    ensures
        r is Ok <==> decoded is Some,
        r matches Err(error) ==> error.code@ == invalid_source(),
{
    match decoded {
        Some(_) => Ok(()),
        None => Err(ValidationError { code: "Invalid Base64-encoded source code" }),
    }
}

/// Checks that `input` is standard base64.
pub fn validate_source_format(input: &str) -> (r: Result<(), ValidationError>)
    ensures
        r is Ok <==> base64_decoded(input@) is Some,
        r matches Err(error) ==> error.code@ == invalid_source(),
{
    source_verdict(base64_decode(input))
}

} // verus!
