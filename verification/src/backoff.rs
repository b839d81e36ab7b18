//! Reconnect backoff: full-jitter exponential delays, capped per attempt,
//! and the timing constants of the connection loop.

use vstd::prelude::*;


verus! {

/// Largest delay of a single reconnect attempt, in seconds.
pub const RECONNECT_DELAY_MAX_SECS: u64 = 30;

/// Cumulative reconnect budget, in seconds.
pub const RECONNECT_BUDGET_SECS: u64 = 300;

/// Heartbeat ping interval, in seconds.
pub const HEARTBEAT_INTERVAL_SECS: u64 = 30;

/// Buffer size of the command and event channels.
pub const CHANNEL_BUFFER: usize = 64;

#[verifier::external_type_specification]
#[verifier::external_body]
pub struct ExSystemTime(std::time::SystemTime);

/// The current wall-clock time (std `SystemTime::now`).
#[verifier::external_body]
fn system_time_now() -> std::time::SystemTime {
    std::time::SystemTime::now()
}

/// Time elapsed since the Unix epoch, `None` for a clock set before it
/// (std `SystemTime::duration_since`).
#[verifier::external_body]
fn since_unix_epoch(t: std::time::SystemTime) -> Option<std::time::Duration> {
    t.duration_since(std::time::UNIX_EPOCH).ok()
}

/// Whole nanoseconds of a duration (std `Duration::as_nanos`).
#[verifier::external_body]
fn duration_nanos(d: &std::time::Duration) -> u128 {
    d.as_nanos()
}

/// The `Duration` of `secs` whole seconds.
pub uninterp spec fn secs_duration(secs: u64) -> std::time::Duration;

/// A duration of `secs` seconds (std `Duration::from_secs`).
#[verifier::external_body]
fn duration_from_secs(secs: u64) -> (d: std::time::Duration)
    ensures
        d == secs_duration(secs),
{
    std::time::Duration::from_secs(secs)
}

/// Nanoseconds since the Unix epoch on the system clock, `None` when the
/// clock is set before it.
fn clock_nanos() -> Option<u128> {
    match since_unix_epoch(system_time_now()) {
        Some(d) => Some(duration_nanos(&d)),
        None => None,
    }
}

/// Whole milliseconds of a clock sample, saturating at `i64::MAX`; 0 when
/// there is no sample (a clock before the epoch).
pub open spec fn spec_millis(nanos: Option<u128>) -> i64 {
    match nanos {
        Some(n) => if n / 1_000_000 <= i64::MAX {
            (n / 1_000_000) as i64
        } else {
            i64::MAX
        },
        None => 0,
    }
}

/// Milliseconds of a clock sample, as `spec_millis` says.
pub fn millis_from_nanos(nanos: Option<u128>) -> (r: i64)
    ensures
        r == spec_millis(nanos),
        r >= 0,
{
    match nanos {
        Some(n) => {
            let ms = n / 1_000_000;
            if ms <= i64::MAX as u128 {
                ms as i64
            } else {
                i64::MAX
            }
        },
        None => 0,
    }
}

/// The wall clock in milliseconds since the Unix epoch; 0 when the clock is
/// set before the epoch.
pub fn wall_clock_millis() -> (r: i64)
    ensures
        exists|n: Option<u128>| r == spec_millis(n),
        r >= 0,
{
    millis_from_nanos(clock_nanos())
}

/// `2^e`.
pub open spec fn pow2(e: nat) -> nat
    decreases e,
{
    if e == 0 {
        1
    } else {
        2 * pow2((e - 1) as nat)
    }
}

/// The jitter drawn from a clock sample: the sample's low 64 bits modulo
/// `max_exclusive`, and 0 when `max_exclusive <= 1` or there is no sample.
pub open spec fn spec_jitter(nanos: Option<u128>, max_exclusive: u64) -> u64 {
    if max_exclusive <= 1 {
        0
    } else {
        match nanos {
            Some(n) => ((n as u64) % max_exclusive) as u64,
            None => 0,
        }
    }
}

/// Exponent of the jitter window of an attempt: `min(attempt - 1, 5)`.
pub open spec fn backoff_exp(attempt: u32) -> nat {
    if attempt <= 1 {
        0
    } else if attempt - 1 < 5 {
        (attempt - 1) as nat
    } else {
        5
    }
}

/// The delay of attempt `attempt`, in seconds, given the clock sample.
pub open spec fn spec_backoff_secs(attempt: u32, nanos: Option<u128>) -> u64 {
    if attempt == 0 {
        0
    } else {
        let j = spec_jitter(nanos, pow2(backoff_exp(attempt)) as u64);
        if j < RECONNECT_DELAY_MAX_SECS {
            j
        } else {
            RECONNECT_DELAY_MAX_SECS
        }
    }
}

/// Jitter from a clock sample, in `[0, max_exclusive)`.
pub fn jitter_from_nanos(nanos: Option<u128>, max_exclusive: u64) -> (r: u64)
    ensures
        r == spec_jitter(nanos, max_exclusive),
        max_exclusive > 1 ==> r < max_exclusive,
        max_exclusive <= 1 ==> r == 0,
{
    if max_exclusive <= 1 {
        return 0;
    }
    match nanos {
        Some(n) => (n as u64) % max_exclusive,
        None => 0,
    }
}

/// Pseudo-random jitter in `[0, max_exclusive)` drawn from the clock.
pub fn pseudo_jitter_secs(max_exclusive: u64) -> (r: u64)
    ensures
        exists|n: Option<u128>| r == spec_jitter(n, max_exclusive),
        max_exclusive > 1 ==> r < max_exclusive,
        max_exclusive <= 1 ==> r == 0,
{
    if max_exclusive <= 1 {
        assert(0 == spec_jitter(None, max_exclusive));
        return 0;
    }
    let nanos = clock_nanos();
    jitter_from_nanos(nanos, max_exclusive)
}

proof fn lemma_pow2_window(e: u32)
    requires
        e <= 5,
    ensures
        1 <= pow2(e as nat) <= 32,
        (1u64 << e) == pow2(e as nat),
{
    reveal_with_fuel(pow2, 6);
    if e == 0 {
        assert((1u64 << e) == 1u64) by (bit_vector)
            requires
                e == 0u32,
        ;
    } else if e == 1 {
        assert((1u64 << e) == 2u64) by (bit_vector)
            requires
                e == 1u32,
        ;
    } else if e == 2 {
        assert((1u64 << e) == 4u64) by (bit_vector)
            requires
                e == 2u32,
        ;
    } else if e == 3 {
        assert((1u64 << e) == 8u64) by (bit_vector)
            requires
                e == 3u32,
        ;
    } else if e == 4 {
        assert((1u64 << e) == 16u64) by (bit_vector)
            requires
                e == 4u32,
        ;
    } else {
        assert((1u64 << e) == 32u64) by (bit_vector)
            requires
                e == 5u32,
        ;
    }
}

/// The delay of attempt `attempt` given a clock sample: 0 for attempt 0,
/// otherwise the jitter in `[0, 2^min(attempt - 1, 5))`, capped at 30 s.
pub fn backoff_secs_from(attempt: u32, nanos: Option<u128>) -> (r: u64)
    ensures
        r == spec_backoff_secs(attempt, nanos),
        r <= RECONNECT_DELAY_MAX_SECS,
        attempt == 0 ==> r == 0,
        attempt > 0 ==> r < pow2(backoff_exp(attempt)),
{
    if attempt == 0 {
        return 0;
    }
    let e: u32 = if attempt - 1 < 5 { attempt - 1 } else { 5 };
    proof {
        lemma_pow2_window(e);
        assert(e as nat == backoff_exp(attempt));
    }
    let j = jitter_from_nanos(nanos, 1u64 << e);
    if j < RECONNECT_DELAY_MAX_SECS {
        j
    } else {
        RECONNECT_DELAY_MAX_SECS
    }
}

/// The delay of attempt `attempt`, in seconds, with jitter from the clock.
pub fn next_backoff_secs(attempt: u32) -> (r: u64)
    ensures
        exists|n: Option<u128>| r == spec_backoff_secs(attempt, n),
        r <= RECONNECT_DELAY_MAX_SECS,
        attempt == 0 ==> r == 0,
        attempt > 0 ==> r < pow2(backoff_exp(attempt)),
{
    if attempt == 0 {
        assert(0 == spec_backoff_secs(attempt, None));
        return 0;
    }
    let nanos = clock_nanos();
    backoff_secs_from(attempt, nanos)
}

/// Full-jitter exponential backoff for attempt `attempt`.
pub fn next_backoff(attempt: u32) -> (d: std::time::Duration)
    ensures
        attempt == 0 ==> d == secs_duration(0),
        exists|s: u64|
            s <= RECONNECT_DELAY_MAX_SECS && (attempt > 0 ==> s < pow2(backoff_exp(attempt)))
                && d == secs_duration(s),
{
    let s = next_backoff_secs(attempt);
    duration_from_secs(s)
}

/// The cap on a single delay, as a `Duration`.
pub fn reconnect_delay_max() -> (d: std::time::Duration)
    ensures
        d == secs_duration(RECONNECT_DELAY_MAX_SECS),
{
    duration_from_secs(RECONNECT_DELAY_MAX_SECS)
}

} // verus!
