//! Pacing of the supervisor's liveness pings.
use vstd::prelude::*;

verus! {

/// The time between two pings that a watchdog period of `watchdog_usec`
/// microseconds asks for: half of it.
pub open spec fn ping_interval_spec(watchdog_usec: nat) -> nat {
    watchdog_usec / 2
}

/// How long to wait after a ping that took `elapsed` so that the next one
/// starts `interval` after this one began (at once when the ping overran).
pub open spec fn pause_spec(interval: nat, elapsed: nat) -> nat {
    if interval > elapsed {
        (interval - elapsed) as nat
    } else {
        0
    }
}

/// The ping interval, in microseconds, for a watchdog period in microseconds.
pub fn ping_interval(watchdog_usec: u64) -> (r: u64)
    ensures
        r == ping_interval_spec(watchdog_usec as nat),
{
    watchdog_usec / 2
}

/// The pause, in microseconds, that follows a ping which took `elapsed`.
pub fn pause_after_ping(interval: u64, elapsed: u64) -> (r: u64)
    ensures
        r == pause_spec(interval as nat, elapsed as nat),
        r + elapsed == if interval > elapsed { interval } else { elapsed },
{
    if interval > elapsed {
        interval - elapsed
    } else {
        0
    }
}

/// A decimal digit.
pub open spec fn is_digit(c: char) -> bool {
    '0' <= c <= '9'
}

/// The value of a string of decimal digits.
pub open spec fn digits_value(s: Seq<char>) -> int
    decreases s.len(),
{
    if s.len() == 0 {
        0
    } else {
        digits_value(s.drop_last()) * 10 + (s.last() as u32 - '0' as u32)
    }
}

/// `s` without one leading `+`.
pub open spec fn unsigned_digits(s: Seq<char>) -> Seq<char> {
    if s.len() > 0 && s[0] == '+' {
        s.drop_first()
    } else {
        s
    }
}

/// The `u64` that `s` writes in decimal: an optional `+`, then at least one
/// digit and nothing else, with a value that fits.
pub open spec fn decimal_u64(s: Seq<char>) -> Option<u64> {
    let d = unsigned_digits(s);
    if d.len() > 0 && (forall|i: int| 0 <= i < d.len() ==> is_digit(#[trigger] d[i]))
        && digits_value(d) <= u64::MAX {
        Some(digits_value(d) as u64)
    } else {
        None
    }
}

/// Relies on `str::parse::<u64>` (`u64::from_str`): it accepts an optional
/// `+` followed by decimal digits only, and fails when the value overflows.
#[verifier::external_body]
fn parse_u64(s: &str) -> (r: Option<u64>)
    ensures
        r == decimal_u64(s@),
{
    s.parse::<u64>().ok()
}

/// The ping interval for the watchdog period written in `watchdog_usec`
/// (microseconds, in decimal); none when it is no such number.
pub fn watchdog_ping_interval(watchdog_usec: &str) -> (r: Option<u64>)
    ensures
        r == match decimal_u64(watchdog_usec@) {
            Some(v) => Some(ping_interval_spec(v as nat) as u64),
            None => None::<u64>,
        },
{
    match parse_u64(watchdog_usec) {
        Some(v) => Some(ping_interval(v)),
        None => None,
    }
}

/// The start times of successive pings, the first at 0, when ping `k` takes
/// `durations[k]` and is followed by `pause_spec(interval, durations[k])`.
pub open spec fn ping_starts(interval: nat, durations: Seq<nat>) -> Seq<nat>
    decreases durations.len(),
{
    if durations.len() == 0 {
        seq![0]
    } else {
        let prev = ping_starts(interval, durations.drop_last());
        prev.push(prev.last() + durations.last() + pause_spec(interval, durations.last()))
    }
}

/// Watchdog pacing: with a watchdog period of `watchdog_usec`, ping `k + 1`
/// starts `max(watchdog_usec / 2, durations[k])` after ping `k`; so pings
/// that take no longer than half the period come exactly half a period
/// apart, well inside the period.
pub proof fn watchdog_pacing_law(watchdog_usec: nat, durations: Seq<nat>)
    ensures
        ({
            let interval = ping_interval_spec(watchdog_usec);
            let starts = ping_starts(interval, durations);
            &&& starts.len() == durations.len() + 1
            &&& forall|k: int|
                0 <= k < durations.len() ==> starts[k + 1] - starts[k] == if durations[k]
                    < interval {
                    interval
                } else {
                    durations[k] as nat
                }
            &&& forall|k: int|
                0 <= k < durations.len() && durations[k] <= interval ==> starts[k + 1] - starts[k]
                    == interval && interval <= watchdog_usec
        }),
    decreases durations.len(),
{
    if durations.len() > 0 {
        let interval = ping_interval_spec(watchdog_usec);
        let prev = durations.drop_last();
        watchdog_pacing_law(watchdog_usec, prev);
        let ps = ping_starts(interval, prev);
        let starts = ping_starts(interval, durations);
        assert forall|k: int| 0 <= k < durations.len() implies starts[k + 1] - starts[k] == if durations[k]
            < interval {
            interval
        } else {
            durations[k] as nat
        } by {
            if k < prev.len() {
                assert(durations[k] == prev[k]);
                assert(starts[k] == ps[k] && starts[k + 1] == ps[k + 1]);
            }
        }
    }
}

} // verus!
