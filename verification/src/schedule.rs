//! Schedule expressions.
//!
//! An expression names a routine and its timing: `@once 2024-01-01 09:00:00`,
//! `@every 10 min`, `@daily`. Parsing turns it into a [`Schedule`], which carries
//! either an instant or an interval in whole seconds, and from which the instant
//! of the next run follows.
//!
//! Instants are counted in nanoseconds since the Unix epoch, in UTC.

use crate::text::{to_chars, token_is, tokens, Tokens};
use vstd::prelude::*;
use vstd::string::StringExecFns;

verus! {

/// Nanoseconds in one second.
pub const NANOS_PER_SECOND: i128 = 1_000_000_000;

/// Seconds in one day, the interval of `@daily`.
pub const SECONDS_PER_DAY: i64 = 86_400;

/// The earliest instant that the clock can report.
pub const MIN_INSTANT: i128 = -9_223_372_036_854_775_808_000_000_000;

/// The latest instant that the clock can report.
pub const MAX_INSTANT: i128 = 9_223_372_036_854_775_807_999_999_999;

/// The recurrence class of a schedule.
#[derive(Debug, Clone, Copy, PartialEq, Eq, Structural)]
pub enum Routine {
    /// Runs at one instant.
    Once,
    /// Runs again after each interval.
    Every,
    /// Runs again after each day.
    Daily,
    /// A keyword that names no routine.
    Invalid,
}

/// The timing that a schedule carries.
#[derive(Debug, Clone, Copy, PartialEq, Eq, Structural)]
pub enum Time {
    /// An instant, in nanoseconds since the Unix epoch.
    Timestamp(i128),
    /// An interval, in seconds.
    Integer(i64),
}

/// The unit in which an expression states its timing.
#[derive(Debug, Clone, Copy, PartialEq, Eq, Structural)]
pub enum TimeFrame {
    Sec,
    Min,
    Hr,
    Day,
    /// A date and a time of day, not an interval.
    DateTime,
}

/// Why an expression is no schedule.
#[derive(Debug, Clone, Copy, PartialEq, Eq, Structural)]
pub enum ScheduleError {
    /// The expression does not start with a token that begins with `@`.
    InvalidSyntax,
    /// The first token names no routine.
    InvalidRoutine,
    /// The count of `@every` is missing, is no integer, is negative, or gives an
    /// interval of more seconds than fit in 64 bits.
    InvalidTime,
    /// The unit of `@every` is missing or is none of `sec`, `min`, `hr`, `day`.
    InvalidTimeframe,
    /// The date and time of `@once` are missing or not in the form
    /// `YYYY-MM-DD HH:MM:SS`.
    InvalidDateTimeFormat,
    /// The instant of `@once` is not after the current instant.
    AlreadyElapsed,
}

impl ScheduleError {
    /// The reason, in words.
    pub open spec fn reason_spec(self) -> Seq<char> {
        match self {
            ScheduleError::InvalidSyntax => "Invalid syntax. A schedule starts with '@'."@,
            ScheduleError::InvalidRoutine => "Invalid 'routine'."@,
            ScheduleError::InvalidTime => "Invalid 'time'. It must be an integer."@,
            ScheduleError::InvalidTimeframe =>
                "Invalid 'timeframe'. Valid time frames: sec/min/hr/day."@,
            ScheduleError::InvalidDateTimeFormat => "Invalid DateTime Format!"@,
            ScheduleError::AlreadyElapsed => "Invalid DateTime: It has already elapsed."@,
        }
    }

    /// The reason, in words.
    pub fn reason(self) -> (r: &'static str)
        ensures
            r@ == self.reason_spec(),
    {
        match self {
            ScheduleError::InvalidSyntax => "Invalid syntax. A schedule starts with '@'.",
            ScheduleError::InvalidRoutine => "Invalid 'routine'.",
            ScheduleError::InvalidTime => "Invalid 'time'. It must be an integer.",
            ScheduleError::InvalidTimeframe =>
                "Invalid 'timeframe'. Valid time frames: sec/min/hr/day.",
            ScheduleError::InvalidDateTimeFormat => "Invalid DateTime Format!",
            ScheduleError::AlreadyElapsed => "Invalid DateTime: It has already elapsed.",
        }
    }
}

/// A parsed schedule expression.
#[derive(Debug, Clone, Copy, PartialEq, Eq, Structural)]
pub struct Schedule {
    /// The recurrence class.
    pub routine: Routine,
    /// The instant of a one-shot schedule, or the interval of a recurring one in
    /// seconds.
    pub time: Time,
    /// The unit in which the expression was written.
    pub timeframe: TimeFrame,
}

/// Whether `c` is one of the digits `0` to `9`.
pub open spec fn is_digit(c: char) -> bool {
    0x30 <= c as u32 <= 0x39
}

/// Whether `s` is a non-empty run of digits.
pub open spec fn is_digits(s: Seq<char>) -> bool {
    s.len() > 0 && forall|i: int| 0 <= i < s.len() ==> is_digit(#[trigger] s[i])
}

/// The number that the digits `s` denote in base ten.
pub open spec fn digits_value(s: Seq<char>) -> int
    decreases s.len(),
{
    if s.len() == 0 {
        0
    } else {
        digits_value(s.drop_last()) * 10 + (s.last() as u32 - 0x30)
    }
}

/// The integer that `s` denotes: an optional sign, `+` or `-`, and then digits only.
pub open spec fn int_of(s: Seq<char>) -> Option<int> {
    let signed = s.len() > 0 && (s[0] == '-' || s[0] == '+');
    let digits = if signed {
        s.skip(1)
    } else {
        s
    };
    if !is_digits(digits) {
        None
    } else if s[0] == '-' {
        Some(-digits_value(digits))
    } else {
        Some(digits_value(digits))
    }
}

/// The 64-bit integer that `s` denotes, where it denotes one.
pub open spec fn parse_time_spec(s: Seq<char>) -> Option<i64> {
    match int_of(s) {
        Some(n) => if i64::MIN <= n <= i64::MAX {
            Some(n as i64)
        } else {
            None
        },
        None => None,
    }
}

/// Reads the digits of `chars` from position `first` on as a number up to
/// `limit`: `None` where a character is no digit, `Some(None)` where the number
/// is above `limit`.
fn read_digits(chars: &Vec<char>, first: usize, limit: u64) -> (r: Option<Option<u64>>)
    requires
        first < chars.len(),
        9_223_372_036_854_775_807 <= limit <= 9_223_372_036_854_775_808,
    ensures
        ({
            let digits = chars@.subrange(first as int, chars.len() as int);
            match r {
                None => !is_digits(digits),
                Some(None) => is_digits(digits) && digits_value(digits) > limit,
                Some(Some(magnitude)) => is_digits(digits) && magnitude == digits_value(digits)
                    && magnitude <= limit,
            }
        }),
{
    let n: usize = chars.len();
    let ghost digits = chars@.subrange(first as int, n as int);
    let mut acc: u64 = 0;
    let mut overflow = false;
    let mut i: usize = first;
    while i < n
        invariant
            first <= i <= n,
            first < n == chars.len(),
            digits == chars@.subrange(first as int, n as int),
            9_223_372_036_854_775_807 <= limit <= 9_223_372_036_854_775_808,
            forall|k: int| 0 <= k < i - first ==> is_digit(#[trigger] digits[k]),
            !overflow ==> acc == digits_value(digits.take(i - first)) && acc <= limit,
            overflow ==> digits_value(digits.take(i - first)) > limit,
        decreases n - i,
    {
        let c: char = chars[i];
        let u: u32 = c as u32;
        if u < 0x30 || u > 0x39 {
            assert(digits[i - first] == c);
            return None;
        }
        let d: u64 = (u - 0x30) as u64;
        proof {
            let shorter = digits.take(i - first);
            let longer = digits.take(i - first + 1);
            assert(longer.drop_last() =~= shorter);
            assert(longer.last() == c);
            assert(digits_value(longer) == digits_value(shorter) * 10 + d);
        }
        if !overflow {
            if acc > 922_337_203_685_477_580 || (acc == 922_337_203_685_477_580 && d > limit
                - 9_223_372_036_854_775_800) {
                overflow = true;
            } else {
                acc = acc * 10 + d;
            }
        }
        i += 1;
    }
    assert(digits.take(n - first) =~= digits);
    if overflow {
        Some(None)
    } else {
        Some(Some(acc))
    }
}

/// Reads a 64-bit integer: an optional sign and then digits only.
pub fn parse_time(input: &str) -> (r: Option<i64>)
    ensures
        r == parse_time_spec(input@),
{
    let chars = to_chars(input);
    let n: usize = chars.len();
    if n == 0 {
        return None;
    }
    let negative = chars[0] == '-';
    let first: usize = if chars[0] == '-' || chars[0] == '+' {
        1
    } else {
        0
    };
    if first >= n {
        return None;
    }
    let ghost digits = if first == 1 {
        input@.skip(1)
    } else {
        input@
    };
    assert(digits =~= chars@.subrange(first as int, n as int));
    let limit: u64 = if negative {
        9_223_372_036_854_775_808
    } else {
        9_223_372_036_854_775_807
    };
    match read_digits(&chars, first, limit) {
        Some(Some(magnitude)) => {
            if !negative {
                Some(magnitude as i64)
            } else if magnitude == 9_223_372_036_854_775_808 {
                Some(i64::MIN)
            } else {
                Some(-(magnitude as i64))
            }
        },
        _ => None,
    }
}

impl TimeFrame {
    /// The seconds in one unit; `None` for `DateTime`, which is no unit of length.
    pub open spec fn seconds_spec(self) -> Option<i64> {
        match self {
            TimeFrame::Sec => Some(1i64),
            TimeFrame::Min => Some(60i64),
            TimeFrame::Hr => Some(3_600i64),
            TimeFrame::Day => Some(86_400i64),
            TimeFrame::DateTime => None,
        }
    }

    /// The seconds in one unit; `None` for `DateTime`, which is no unit of length.
    pub fn seconds(self) -> (r: Option<i64>)
        ensures
            r == self.seconds_spec(),
    {
        match self {
            TimeFrame::Sec => Some(1),
            TimeFrame::Min => Some(60),
            TimeFrame::Hr => Some(3_600),
            TimeFrame::Day => Some(SECONDS_PER_DAY),
            TimeFrame::DateTime => None,
        }
    }

    /// The unit that `token` names.
    pub open spec fn of_token(token: Seq<char>) -> Option<TimeFrame> {
        if token == "sec"@ {
            Some(TimeFrame::Sec)
        } else if token == "min"@ {
            Some(TimeFrame::Min)
        } else if token == "hr"@ {
            Some(TimeFrame::Hr)
        } else if token == "day"@ {
            Some(TimeFrame::Day)
        } else {
            None
        }
    }

    /// Reads a unit: one of `sec`, `min`, `hr`, `day`.
    pub fn from_token(token: &str) -> (r: Option<TimeFrame>)
        ensures
            r == Self::of_token(token@),
    {
        if token_is(token, "sec") {
            Some(TimeFrame::Sec)
        } else if token_is(token, "min") {
            Some(TimeFrame::Min)
        } else if token_is(token, "hr") {
            Some(TimeFrame::Hr)
        } else if token_is(token, "day") {
            Some(TimeFrame::Day)
        } else {
            None
        }
    }
}

/// The form in which `@once` states its date and time: `YYYY-MM-DD HH:MM:SS`.
pub const DATETIME_FORMAT: &'static str = "[year]-[month]-[day] [hour]:[minute]:[second]";

/// The instant, in nanoseconds since the Unix epoch, that the `time` crate reads
/// from `input` under the format description `format`, the date and time taken
/// as UTC; `None` where it rejects the description or the input.
pub uninterp spec fn datetime_nanos(format: Seq<char>, input: Seq<char>) -> Option<i128>;

/// Calls `time::PrimitiveDateTime::parse` on `input`, with the description that
/// `time::format_description::parse_borrowed` makes of `format`, and counts the
/// result as UTC in nanoseconds since the Unix epoch. Trusted: the result depends
/// on the two texts alone, and is what `datetime_nanos` names.
#[verifier::external_body]
fn to_datetime(input: &str, format: &str) -> (r: Option<i128>)
    ensures
        r == datetime_nanos(format@, input@),
{
    let description = time::format_description::parse_borrowed::<1>(format).ok()?;
    let datetime = time::PrimitiveDateTime::parse(input, &description).ok()?;
    Some(datetime.assume_utc().unix_timestamp_nanos())
}

/// Calls `time::OffsetDateTime::now_utc` and counts the result in nanoseconds
/// since the Unix epoch. Trusted: the count of whole seconds fits in 64 bits and
/// the nanoseconds within the second are below one thousand million. The call
/// does not return where the system clock is set outside the years that the
/// `time` crate can represent.
#[verifier::external_body]
pub(crate) fn clock() -> (now: i128)
    ensures
        MIN_INSTANT <= now <= MAX_INSTANT,
{
    time::OffsetDateTime::now_utc().unix_timestamp_nanos()
}

/// Reads a date and time of the form `YYYY-MM-DD HH:MM:SS` as an instant in UTC.
pub fn parse_datetime(input: &str) -> (r: Result<i128, ScheduleError>)
    ensures
        r == match datetime_nanos(DATETIME_FORMAT@, input@) {
            Some(instant) => Ok::<i128, ScheduleError>(instant),
            None => Err(ScheduleError::InvalidDateTimeFormat),
        },
{
    match to_datetime(input, DATETIME_FORMAT) {
        Some(instant) => Ok(instant),
        None => Err(ScheduleError::InvalidDateTimeFormat),
    }
}

/// The routine that a first token names; `None` where it does not begin with `@`.
pub open spec fn routine_of(token: Seq<char>) -> Option<Routine> {
    if token.len() == 0 || token[0] != '@' {
        None
    } else if token == "@once"@ {
        Some(Routine::Once)
    } else if token == "@every"@ {
        Some(Routine::Every)
    } else if token == "@daily"@ {
        Some(Routine::Daily)
    } else {
        Some(Routine::Invalid)
    }
}

/// The routine at the head of `parts`; `None` where `parts` is empty or its
/// first token does not begin with `@`.
pub open spec fn parse_routine_spec(parts: Seq<Seq<char>>) -> Option<Routine> {
    if parts.len() == 0 {
        None
    } else {
        routine_of(parts[0])
    }
}

/// The one-shot schedule for an instant read from an expression, at the current
/// instant `now`.
pub open spec fn once_spec(parsed: Option<i128>, now: int) -> Result<Schedule, ScheduleError> {
    match parsed {
        None => Err(ScheduleError::InvalidDateTimeFormat),
        Some(instant) => if instant > now {
            Ok(
                Schedule {
                    routine: Routine::Once,
                    time: Time::Timestamp(instant),
                    timeframe: TimeFrame::DateTime,
                },
            )
        } else {
            Err(ScheduleError::AlreadyElapsed)
        },
    }
}

/// The recurring schedule for a count and a unit, the interval in seconds.
pub open spec fn every_spec(count: Seq<char>, unit: Seq<char>) -> Result<
    Schedule,
    ScheduleError,
> {
    match parse_time_spec(count) {
        None => Err(ScheduleError::InvalidTime),
        Some(n) => if n < 0 {
            Err(ScheduleError::InvalidTime)
        } else {
            match TimeFrame::of_token(unit) {
                None => Err(ScheduleError::InvalidTimeframe),
                Some(timeframe) => if n * timeframe.seconds_spec().unwrap() > i64::MAX {
                    Err(ScheduleError::InvalidTime)
                } else {
                    Ok(
                        Schedule {
                            routine: Routine::Every,
                            time: Time::Integer((n * timeframe.seconds_spec().unwrap()) as i64),
                            timeframe,
                        },
                    )
                },
            }
        },
    }
}

/// The schedule that the tokens `parts` denote at the current instant `now`.
/// Tokens behind the timing are not read.
pub open spec fn parse_spec(parts: Seq<Seq<char>>, now: int) -> Result<Schedule, ScheduleError> {
    match parse_routine_spec(parts) {
        None => Err(ScheduleError::InvalidSyntax),
        Some(Routine::Invalid) => Err(ScheduleError::InvalidRoutine),
        Some(Routine::Once) => if parts.len() < 3 {
            Err(ScheduleError::InvalidDateTimeFormat)
        } else {
            once_spec(datetime_nanos(DATETIME_FORMAT@, parts[1] + " "@ + parts[2]), now)
        },
        Some(Routine::Every) => if parts.len() < 2 {
            Err(ScheduleError::InvalidTime)
        } else if parts.len() < 3 {
            Err(ScheduleError::InvalidTimeframe)
        } else {
            every_spec(parts[1], parts[2])
        },
        Some(Routine::Daily) => Ok(
            Schedule {
                routine: Routine::Daily,
                time: Time::Integer(SECONDS_PER_DAY),
                timeframe: TimeFrame::Day,
            },
        ),
    }
}

impl Schedule {
    /// A schedule that stands for no expression yet.
    pub fn new() -> (r: Self)
        ensures
            r == (Schedule {
                routine: Routine::Invalid,
                time: Time::Integer(0),
                timeframe: TimeFrame::Sec,
            }),
    {
        Schedule { routine: Routine::Invalid, time: Time::Integer(0), timeframe: TimeFrame::Sec }
    }

    /// The timing fits the routine: a one-shot schedule carries an instant, a
    /// recurring one an interval of no less than zero seconds.
    pub open spec fn wf(&self) -> bool {
        match self.routine {
            Routine::Once => self.time is Timestamp && self.timeframe == TimeFrame::DateTime,
            Routine::Every => {
                &&& self.time matches Time::Integer(seconds)
                &&& self.timeframe.seconds_spec() matches Some(unit)
                &&& seconds >= 0
                &&& seconds as int % unit as int == 0
            },
            Routine::Daily => self.time == Time::Integer(SECONDS_PER_DAY) && self.timeframe
                == TimeFrame::Day,
            Routine::Invalid => false,
        }
    }

    /// Reads the routine from the head of `parts` and moves behind it.
    pub fn parse_routine(&self, parts: &mut Tokens) -> (r: Option<Routine>)
        ensures
            r == parse_routine_spec(old(parts)@),
            final(parts)@ == if old(parts)@.len() > 0 {
                old(parts)@.drop_first()
            } else {
                old(parts)@
            },
    {
        match parts.next() {
            None => None,
            Some(token) => {
                if token.unicode_len() == 0 || token.get_char(0) != '@' {
                    None
                } else if token_is(token, "@once") {
                    Some(Routine::Once)
                } else if token_is(token, "@every") {
                    Some(Routine::Every)
                } else if token_is(token, "@daily") {
                    Some(Routine::Daily)
                } else {
                    Some(Routine::Invalid)
                }
            },
        }
    }

    /// The one-shot schedule for the instant `parsed`, read from an expression,
    /// at the current instant `now`: it must have been read and lie after `now`.
    pub fn once(parsed: Option<i128>, now: i128) -> (r: Result<Schedule, ScheduleError>)
        ensures
            r == once_spec(parsed, now as int),
    {
        match parsed {
            None => Err(ScheduleError::InvalidDateTimeFormat),
            Some(instant) => {
                if instant > now {
                    Ok(
                        Schedule {
                            routine: Routine::Once,
                            time: Time::Timestamp(instant),
                            timeframe: TimeFrame::DateTime,
                        },
                    )
                } else {
                    Err(ScheduleError::AlreadyElapsed)
                }
            },
        }
    }

    /// The recurring schedule for the count and the unit of `@every`, the
    /// interval brought to seconds.
    pub fn every(count: &str, unit: &str) -> (r: Result<Schedule, ScheduleError>)
        ensures
            r == every_spec(count@, unit@),
    {
        let n: i64 = match parse_time(count) {
            Some(n) => n,
            None => {
                return Err(ScheduleError::InvalidTime);
            },
        };
        if n < 0 {
            return Err(ScheduleError::InvalidTime);
        }
        let timeframe = match TimeFrame::from_token(unit) {
            Some(timeframe) => timeframe,
            None => {
                return Err(ScheduleError::InvalidTimeframe);
            },
        };
        let unit_seconds: i64 = match timeframe.seconds() {
            Some(seconds) => seconds,
            None => {
                return Err(ScheduleError::InvalidTimeframe);
            },
        };
        match n.checked_mul(unit_seconds) {
            Some(seconds) => Ok(
                Schedule { routine: Routine::Every, time: Time::Integer(seconds), timeframe },
            ),
            None => Err(ScheduleError::InvalidTime),
        }
    }

    /// Parses a schedule expression at the current instant `now`.
    pub fn parse_at(&self, input: &str, now: i128) -> (r: Result<Schedule, ScheduleError>)
        ensures
            r == parse_spec(tokens(input@), now as int),
    {
        let mut parts = Tokens::new(input);
        let ghost all = parts@;
        match self.parse_routine(&mut parts) {
            None => Err(ScheduleError::InvalidSyntax),
            Some(Routine::Invalid) => Err(ScheduleError::InvalidRoutine),
            Some(Routine::Once) => {
                let date = match parts.next() {
                    Some(date) => date,
                    None => {
                        return Err(ScheduleError::InvalidDateTimeFormat);
                    },
                };
                let time = match parts.next() {
                    Some(time) => time,
                    None => {
                        return Err(ScheduleError::InvalidDateTimeFormat);
                    },
                };
                assert(date@ == all[1] && time@ == all[2]);
                let mut text = String::from_str(date);
                text.append(" ");
                text.append(time);
                Self::once(to_datetime(text.as_str(), DATETIME_FORMAT), now)
            },
            Some(Routine::Every) => {
                let count = match parts.next() {
                    Some(count) => count,
                    None => {
                        return Err(ScheduleError::InvalidTime);
                    },
                };
                let unit = match parts.next() {
                    Some(unit) => unit,
                    None => {
                        return Err(ScheduleError::InvalidTimeframe);
                    },
                };
                assert(count@ == all[1] && unit@ == all[2]);
                Self::every(count, unit)
            },
            Some(Routine::Daily) => Ok(
                Schedule {
                    routine: Routine::Daily,
                    time: Time::Integer(SECONDS_PER_DAY),
                    timeframe: TimeFrame::Day,
                },
            ),
        }
    }

    /// Parses a schedule expression at the instant that the clock reports.
    pub fn parse(&self, input: &str) -> (r: Result<Schedule, ScheduleError>)
        ensures
            exists|now: int|
                MIN_INSTANT <= now <= MAX_INSTANT && r == #[trigger] parse_spec(
                    tokens(input@),
                    now,
                ),
    {
        let now = clock();
        let r = self.parse_at(input, now);
        assert(r == parse_spec(tokens(input@), now as int));
        r
    }

    /// The instant of the next run, seen from the instant `now`: the instant that
    /// a one-shot schedule carries, and `now` plus the interval of a recurring one.
    pub open spec fn next_run_spec(&self, now: int) -> int {
        match self.time {
            Time::Timestamp(instant) => instant as int,
            Time::Integer(seconds) => now + seconds * NANOS_PER_SECOND,
        }
    }

    /// The instant of the next run, seen from the instant `now`.
    pub fn next_run_at(&self, now: i128) -> (r: i128)
        requires
            i128::MIN <= self.next_run_spec(now as int) <= i128::MAX,
        ensures
            r == self.next_run_spec(now as int),
    {
        match self.time {
            Time::Timestamp(instant) => instant,
            Time::Integer(seconds) => {
                let interval: i128 = seconds as i128 * NANOS_PER_SECOND;
                now + interval
            },
        }
    }

    /// The instant of the next run, seen from the instant that the clock reports.
    pub fn next_run(&self) -> (r: i128)
        ensures
            exists|now: int|
                MIN_INSTANT <= now <= MAX_INSTANT && r == #[trigger] self.next_run_spec(now),
    {
        let now = clock();
        let r = self.next_run_at(now);
        assert(r == self.next_run_spec(now as int));
        r
    }
}

/// Whatever parses is a schedule whose timing fits its routine, and the
/// instant of a one-shot schedule lies after the instant of parsing.
pub proof fn lemma_parsed_schedule_wf(parts: Seq<Seq<char>>, now: int)
    ensures
        parse_spec(parts, now) matches Ok(schedule) ==> {
            &&& schedule.wf()
            &&& schedule.time matches Time::Timestamp(instant) ==> instant > now
            &&& schedule.time matches Time::Integer(seconds) ==> seconds >= 0
        },
{
    if let Ok(schedule) = parse_spec(parts, now) {
        if schedule.routine == Routine::Every {
            let n = parse_time_spec(parts[1]).unwrap();
            let unit = TimeFrame::of_token(parts[2]).unwrap();
            let m = unit.seconds_spec().unwrap();
            assert((n * m) % (m as int) == 0) by (nonlinear_arith)
                requires
                    m > 0,
            ;
        }
    }
}

/// Parsing is total, and each outcome has its cause. Any tokens give a
/// schedule or one error. The syntax is invalid exactly where no first token
/// begins with `@`, and the routine exactly where such a token is none of the
/// three keywords. `@daily` always parses; the errors of date and time come
/// from `@once` alone, and those of count and unit from `@every` alone.
pub proof fn lemma_parse_outcomes(parts: Seq<Seq<char>>, now: int)
    ensures
        parse_spec(parts, now) == Err::<Schedule, ScheduleError>(ScheduleError::InvalidSyntax)
            <==> parts.len() == 0 || parts[0].len() == 0 || parts[0][0] != '@',
        parse_spec(parts, now) == Err::<Schedule, ScheduleError>(ScheduleError::InvalidRoutine)
            <==> parse_routine_spec(parts) == Some(Routine::Invalid),
        parse_routine_spec(parts) == Some(Routine::Daily) ==> parse_spec(parts, now) is Ok,
        parse_spec(parts, now) matches Ok(schedule) ==> parse_routine_spec(parts) == Some(
            schedule.routine,
        ),
        parse_spec(parts, now) matches Err(error) ==> match error {
            ScheduleError::InvalidSyntax => parse_routine_spec(parts) is None,
            ScheduleError::InvalidRoutine => parse_routine_spec(parts) == Some(Routine::Invalid),
            ScheduleError::InvalidDateTimeFormat | ScheduleError::AlreadyElapsed =>
                parse_routine_spec(parts) == Some(Routine::Once),
            ScheduleError::InvalidTime | ScheduleError::InvalidTimeframe => parse_routine_spec(
                parts,
            ) == Some(Routine::Every),
        },
{
}

/// A well-formed `@every` expression, with a count `n` of no less than zero
/// whose interval fits in 64 bits, parses at every instant, and its next run
/// lies `n` units after the instant of parsing.
pub proof fn lemma_every_next_run(parts: Seq<Seq<char>>, now: int, n: int, unit: TimeFrame)
    requires
        parts.len() >= 3,
        parts[0] == "@every"@,
        int_of(parts[1]) == Some(n),
        0 <= n,
        TimeFrame::of_token(parts[2]) == Some(unit),
        n * unit.seconds_spec().unwrap() <= i64::MAX,
    ensures
        parse_spec(parts, now) matches Ok(schedule) && schedule.routine == Routine::Every
            && schedule.next_run_spec(now) == now + n * unit.seconds_spec().unwrap()
            * NANOS_PER_SECOND,
{
    reveal_strlit("@every");
    reveal_strlit("@once");
    assert(n <= n * unit.seconds_spec().unwrap()) by (nonlinear_arith)
        requires
            0 <= n,
            unit.seconds_spec().unwrap() >= 1,
    ;
}

/// A `@once` expression whose date and time read as an instant fails with
/// `AlreadyElapsed` where that instant is not after the instant of parsing, and
/// parses to that instant where it is.
pub proof fn lemma_once_elapsed_or_scheduled(parts: Seq<Seq<char>>, now: int, instant: i128)
    requires
        parts.len() >= 3,
        parts[0] == "@once"@,
        datetime_nanos(DATETIME_FORMAT@, parts[1] + " "@ + parts[2]) == Some(instant),
    ensures
        instant <= now ==> parse_spec(parts, now) == Err::<Schedule, ScheduleError>(
            ScheduleError::AlreadyElapsed,
        ),
        instant > now ==> (parse_spec(parts, now) matches Ok(schedule) && schedule.routine
            == Routine::Once && schedule.next_run_spec(now) == instant),
{
    reveal_strlit("@once");
}

/// A count of hours and sixty times that count of minutes give the same
/// outcome: the same interval in seconds, or the same error.
pub proof fn lemma_hours_as_minutes(hours: Seq<char>, minutes: Seq<char>, n: int)
    requires
        int_of(hours) == Some(n),
        int_of(minutes) == Some(60 * n),
    ensures
        match (every_spec(hours, "hr"@), every_spec(minutes, "min"@)) {
            (Ok(by_hours), Ok(by_minutes)) => by_hours.time == by_minutes.time && by_hours.time
                == Time::Integer((3600 * n) as i64),
            (Err(by_hours), Err(by_minutes)) => by_hours == by_minutes,
            _ => false,
        },
{
    reveal_strlit("sec");
    reveal_strlit("min");
    reveal_strlit("hr");
    reveal_strlit("day");
    assert("hr"@.len() == 2 && "sec"@.len() == 3 && "min"@.len() == 3);
    assert("min"@[0] == 'm' && "sec"@[0] == 's');
}

} // verus!