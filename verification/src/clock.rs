//! Millisecond timestamps, from which every generated name is derived.

use vstd::prelude::*;
use std::time::Duration;
use std::time::SystemTime;
use std::time::SystemTimeError;

verus! {

/// `std::time::SystemTime`, a point in time as the system clock reports it.
#[verifier::external_type_specification]
#[verifier::external_body]
pub struct ExSystemTime(SystemTime);

/// `std::time::SystemTimeError`, returned where one point in time is asked for
/// its distance to a later one.
#[verifier::external_type_specification]
#[verifier::external_body]
pub struct ExSystemTimeError(SystemTimeError);

/// `SystemTime::now` reads the system clock. Nothing is claimed of the value.
pub assume_specification[ SystemTime::now ]() -> SystemTime;

/// `Duration::as_secs` gives the whole seconds of a span. Nothing is claimed
/// of the value beyond its type.
pub assume_specification[ Duration::as_secs ](span: &Duration) -> u64;

/// `Duration::subsec_nanos` gives the part of a span beyond its whole seconds,
/// in nanoseconds: always less than one second.
pub assume_specification[ Duration::subsec_nanos ](span: &Duration) -> (nanos: u32)
    ensures
        nanos < 1_000_000_000,
;

/// `SystemTime::duration_since`, asked for the distance from the Unix epoch to
/// `moment`. It fails where `moment` lies before the epoch. Nothing is claimed
/// of the span.
#[verifier::external_body]
fn since_epoch(moment: &SystemTime) -> Result<Duration, SystemTimeError> {
    moment.duration_since(std::time::UNIX_EPOCH)
}

/// The number of whole milliseconds in `secs` seconds and `subsec_nanos`
/// nanoseconds.
pub open spec fn millis_of(secs: u64, subsec_nanos: u32) -> int {
    secs * 1000 + subsec_nanos / 1_000_000
}

/// The largest timestamp that the clock can report: `u64::MAX` seconds and
/// the last millisecond of the second after them.
pub open spec fn max_millis() -> int {
    u64::MAX * 1000 + 999
}

/// Converts a span of time, given as whole seconds and the nanoseconds beyond
/// them, to whole milliseconds. The fraction of a millisecond is dropped.
pub fn millis_from_parts(secs: u64, subsec_nanos: u32) -> (millis: u128)
    ensures
        millis == millis_of(secs, subsec_nanos),
{
    let whole: u128 = secs as u128 * 1000;
    let part: u128 = (subsec_nanos / 1_000_000) as u128;
    whole + part
}

/// The milliseconds that have passed since the Unix epoch, or `None` where the
/// system clock stands before the epoch.
pub fn get_current_timestamp_millis() -> (millis: Option<u128>)
    ensures
        millis matches Some(m) ==> m <= max_millis(),
{
    let moment = SystemTime::now();
    match since_epoch(&moment) {
        Ok(span) => {
            let secs: u64 = span.as_secs();
            let nanos: u32 = span.subsec_nanos();
            Some(millis_from_parts(secs, nanos))
        },
        Err(_) => None,
    }
}

/// The stamp to issue at the moment `now` after `last` was issued: the
/// moment itself where it lies after `last`, else the millisecond after
/// `last`; none where that millisecond cannot be written.
pub open spec fn stamp_after(last: Option<u128>, now: u128) -> Option<u128> {
    match last {
        None => Some(now),
        Some(l) => if now > l {
            Some(now)
        } else if l < u128::MAX {
            Some((l + 1) as u128)
        } else {
            None
        },
    }
}

/// Issues the stamps after which clips and results are named. Each stamp is
/// the moment at which it is asked for, unless the clock has not moved
/// since the last one: no stamp is issued twice.
#[derive(Clone, Copy, Debug, PartialEq, Eq, Structural)]
pub struct Stamps {
    /// The last stamp issued, if any.
    pub last: Option<u128>,
}

impl Stamps {
    /// A source that has issued nothing yet.
    pub fn new() -> (stamps: Stamps)
        ensures
            stamps.last is None,
    {
        Stamps { last: None }
    }

    /// Issues one stamp at the moment `now`.
    pub fn issue(&mut self, now: u128) -> (stamp: Option<u128>)
        ensures
            stamp == stamp_after(old(self).last, now),
            stamp is Some ==> final(self).last == stamp,
            stamp is None ==> *final(self) == *old(self),
    {
        let next: u128 = match self.last {
            None => now,
            Some(l) => {
                if now > l {
                    now
                } else if l < u128::MAX {
                    l + 1
                } else {
                    return None;
                }
            },
        };
        self.last = Some(next);
        Some(next)
    }

    /// Issues two stamps at the moment `now`, the second one millisecond
    /// after the first. Nothing is issued where that millisecond cannot be
    /// written.
    pub fn issue_pair(&mut self, now: u128) -> (pair: Option<(u128, u128)>)
        ensures
            match pair {
                Some((first, second)) => {
                    &&& stamp_after(old(self).last, now) == Some(first)
                    &&& second == first + 1
                    &&& final(self).last == Some(second)
                },
                None => {
                    &&& *final(self) == *old(self)
                    &&& match stamp_after(old(self).last, now) {
                        Some(first) => first == u128::MAX,
                        None => true,
                    }
                },
            },
    {
        let first: u128 = match self.last {
            None => now,
            Some(l) => {
                if now > l {
                    now
                } else if l < u128::MAX {
                    l + 1
                } else {
                    return None;
                }
            },
        };
        if first == u128::MAX {
            return None;
        }
        self.last = Some(first + 1);
        Some((first, first + 1))
    }
}

/// A stamp is never issued twice: each one lies after the one before it,
/// and is the moment itself wherever the clock has moved on.
pub proof fn lemma_stamps_increase(earlier: u128, now: u128)
    ensures
        stamp_after(Some(earlier), now) matches Some(s) ==> s > earlier && s >= now,
        now > earlier ==> stamp_after(Some(earlier), now) == Some(now),
        stamp_after(None, now) == Some(now),
{
}

} // verus!
