//! Lengths of time and readings of a clock, in nanoseconds.

use crate::error::ValidationError;
use crate::text::owned;
use std::str::FromStr;
use vstd::prelude::*;
use vstd::string::StrSliceExecFns;

verus! {

/// A length of time, or the reading of a clock that counts from some start,
/// in nanoseconds.
#[derive(Debug, Clone, Copy, PartialEq, Eq, Structural)]
pub struct Span {
    pub nanos: u128,
}

/// The nanoseconds of a second.
pub const NANOS_PER_SEC: u128 = 1_000_000_000;

/// The nanoseconds of a millisecond.
pub const NANOS_PER_MILLI: u128 = 1_000_000;

impl Span {
    /// A span of whole seconds.
    pub fn from_secs(secs: u64) -> (r: Span)
        ensures
            r.nanos == secs * NANOS_PER_SEC,
    {
        Span { nanos: secs as u128 * NANOS_PER_SEC }
    }

    /// A span of whole milliseconds.
    pub fn from_millis(millis: u64) -> (r: Span)
        ensures
            r.nanos == millis * NANOS_PER_MILLI,
    {
        Span { nanos: millis as u128 * NANOS_PER_MILLI }
    }

    /// A span of seconds and a fraction of a second in nanoseconds.
    pub fn from_parts(secs: u64, subsec_nanos: u32) -> (r: Span)
        ensures
            r.nanos == secs * NANOS_PER_SEC + subsec_nanos,
    {
        Span { nanos: secs as u128 * NANOS_PER_SEC + subsec_nanos as u128 }
    }

    /// The time from `earlier` to `self`, or nothing if `earlier` is the
    /// later of the two.
    pub open spec fn since(self, earlier: Span) -> Span {
        if self.nanos >= earlier.nanos {
            Span { nanos: (self.nanos - earlier.nanos) as u128 }
        } else {
            Span { nanos: 0 }
        }
    }

    /// The time from `earlier` to `self`, or nothing if `earlier` is the
    /// later of the two.
    pub fn saturating_sub(self, earlier: Span) -> (r: Span)
        ensures
            r == self.since(earlier),
    {
        if self.nanos >= earlier.nanos {
            Span { nanos: self.nanos - earlier.nanos }
        } else {
            Span { nanos: 0 }
        }
    }

    /// The whole seconds of this span; the largest number there is if they
    /// are more than that.
    pub open spec fn whole_secs(self) -> u64 {
        if self.nanos / NANOS_PER_SEC > u64::MAX {
            u64::MAX
        } else {
            (self.nanos / NANOS_PER_SEC) as u64
        }
    }

    /// The whole seconds of this span; the largest number there is if they
    /// are more than that.
    pub fn as_secs(self) -> (r: u64)
        ensures
            r == self.whole_secs(),
    {
        let q: u128 = self.nanos / NANOS_PER_SEC;
        if q > 18446744073709551615u128 {
            18446744073709551615u64
        } else {
            q as u64
        }
    }

    /// The nanoseconds of this span beyond its whole seconds.
    pub fn subsec_nanos(self) -> (r: u32)
        ensures
            r == self.nanos % NANOS_PER_SEC,
    {
        (self.nanos % NANOS_PER_SEC) as u32
    }
}

/// How many of the characters are decimal digits.
pub open spec fn digit_count(s: Seq<char>) -> nat
    decreases s.len(),
{
    if s.len() == 0 {
        0
    } else if '0' <= s.last() <= '9' {
        digit_count(s.drop_last()) + 1
    } else {
        digit_count(s.drop_last())
    }
}

/// The most digits that a text may hold to be read as a duration. With no
/// more digits than these the seconds of a duration stay far below the
/// largest number that the machine counts to, whatever the units are.
pub const MAX_DURATION_DIGITS: usize = 11;

/// How many of the characters are decimal digits.
pub fn count_digits(s: &str) -> (r: usize)
    ensures
        r == digit_count(s@),
{
    let n = s.unicode_len();
    let mut count: usize = 0;
    let mut i: usize = 0;
    assert(s@.take(0) =~= Seq::empty());
    while i < n
        invariant
            i <= n,
            n == s@.len(),
            count <= i,
            count == digit_count(s@.take(i as int)),
        decreases n - i,
    {
        let c = s.get_char(i);
        proof {
            let next = s@.take(i + 1);
            assert(next.drop_last() =~= s@.take(i as int));
            assert(next.last() == c);
        }
        if '0' <= c && c <= '9' {
            count += 1;
        }
        i += 1;
    }
    assert(s@.take(n as int) =~= s@);
    count
}

/// What `humantime` reads a text as: the seconds and the nanoseconds beyond
/// them of the duration that the text denotes ("3m", "500ms", "1h 30m"), or
/// nothing where the text denotes none.
pub uninterp spec fn humantime_duration(s: Seq<char>) -> Option<(u64, u32)>;

/// `humantime::Duration::from_str`: the duration that the text denotes, as
/// its whole seconds and the nanoseconds beyond them. The reader adds up
/// the parts of the text with checked arithmetic, but fails outright where
/// the seconds reach the largest number there is; a text of so few digits
/// cannot get there.
#[verifier::external_body]
fn humantime_parse(s: &str) -> (r: Option<(u64, u32)>)
    requires
        digit_count(s@) <= MAX_DURATION_DIGITS,
    ensures
        r == humantime_duration(s@),
{
    match humantime::Duration::from_str(s) {
        Ok(d) => Some((d.as_secs(), d.subsec_nanos())),
        Err(_) => None,
    }
}

/// The span that a text such as "3m" or "500ms" denotes, as `humantime`
/// reads it. A text with more digits than `MAX_DURATION_DIGITS` denotes
/// none.
pub open spec fn parsed_duration(s: Seq<char>) -> Option<Span> {
    if digit_count(s) > MAX_DURATION_DIGITS {
        None
    } else {
        match humantime_duration(s) {
            Some((secs, nanos)) => Some(Span { nanos: (secs * NANOS_PER_SEC + nanos) as u128 }),
            None => None,
        }
    }
}

/// Reads a duration from a text such as "3m" or "500ms". A text that denotes
/// no duration gives `InvalidDuration`, which holds the text.
pub fn parse_duration(duration_str: &str) -> (r: Result<Span, ValidationError>)
    ensures
        match parsed_duration(duration_str@) {
            Some(d) => r == Ok::<Span, ValidationError>(d),
            None => r matches Err(ValidationError::InvalidDuration { duration }) && duration@
                == duration_str@,
        },
{
    if count_digits(duration_str) > MAX_DURATION_DIGITS {
        return Err(ValidationError::InvalidDuration { duration: owned(duration_str) });
    }
    match humantime_parse(duration_str) {
        Some((secs, nanos)) => Ok(Span::from_parts(secs, nanos)),
        None => Err(ValidationError::InvalidDuration { duration: owned(duration_str) }),
    }
}

} // verus!
