//! The clocks of std, and the numbers that the library makes of their readings.

use std::time::{Duration, Instant, SystemTime};
use vstd::prelude::*;

verus! {

/// `std::time::SystemTime`, a reading of the wall clock.
#[verifier::external_type_specification]
#[verifier::external_body]
pub struct ExSystemTime(std::time::SystemTime);

/// `std::time::Instant`, a reading of the monotonic clock.
#[verifier::external_type_specification]
#[verifier::external_body]
pub struct ExInstant(std::time::Instant);

/// How many nanoseconds a duration has.
pub uninterp spec fn duration_nanos(duration: Duration) -> nat;

/// How long after the Unix epoch `SystemTime::duration_since` finds a reading of
/// the wall clock; `None` for one before it.
pub uninterp spec fn after_epoch(time: SystemTime) -> Option<Duration>;

/// How many nanoseconds `Instant::duration_since` finds from the earlier reading
/// of the monotonic clock to the later one.
pub uninterp spec fn nanos_apart(later: Instant, earlier: Instant) -> nat;

/// `SystemTime::now`. Nothing is claimed of the reading.
#[verifier::external_body]
fn wall_clock() -> (now: SystemTime) {
    SystemTime::now()
}

/// `SystemTime::duration_since` the Unix epoch, `None` for a time before it: a
/// function of the reading.
#[verifier::external_body]
fn since_epoch(time: &SystemTime) -> (elapsed: Option<Duration>)
    ensures
        elapsed == after_epoch(*time),
{
    time.duration_since(SystemTime::UNIX_EPOCH).ok()
}

/// `Instant::now`. Nothing is claimed of the reading.
#[verifier::external_body]
pub(crate) fn instant_now() -> (now: Instant) {
    Instant::now()
}

/// `Instant::duration_since`: the time from the earlier reading to the later
/// one, a function of the two. That it is zero where they are the other way
/// round is left unsaid.
#[verifier::external_body]
fn instant_since(later: &Instant, earlier: &Instant) -> (elapsed: Duration)
    ensures
        duration_nanos(elapsed) == nanos_apart(*later, *earlier),
{
    later.duration_since(*earlier)
}

/// `Duration::as_nanos`: the nanoseconds of the duration.
#[verifier::external_body]
fn whole_nanos(duration: &Duration) -> (nanos: u128)
    ensures
        nanos == duration_nanos(*duration),
{
    duration.as_nanos()
}

/// `Duration::as_micros`: the whole microseconds of the duration.
#[verifier::external_body]
fn whole_micros(duration: &Duration) -> (micros: u128)
    ensures
        micros == duration_nanos(*duration) / 1_000,
{
    duration.as_micros()
}

/// `Duration::as_millis`: the whole milliseconds of the duration.
#[verifier::external_body]
fn whole_millis(duration: &Duration) -> (millis: u128)
    ensures
        millis == duration_nanos(*duration) / 1_000_000,
{
    duration.as_millis()
}

/// The number as a `u64`, or the largest `u64` where it is larger.
pub open spec fn clamped(n: nat) -> u64 {
    if n <= u64::MAX {
        n as u64
    } else {
        u64::MAX
    }
}

/// The low 64 bits of the number.
pub open spec fn low_bits(n: nat) -> u64 {
    (n % 0x1_0000_0000_0000_0000) as u64
}

/// The number as a `u64`, or the largest `u64` where it is larger.
pub fn clamp_to_u64(n: u128) -> (r: u64)
    ensures
        r == clamped(n as nat),
{
    if n <= u64::MAX as u128 {
        n as u64
    } else {
        u64::MAX
    }
}

/// The low 64 bits of the number.
pub fn low_u64(n: u128) -> (r: u64)
    ensures
        r == low_bits(n as nat),
{
    (n % 0x1_0000_0000_0000_0000) as u64
}

/// Nanoseconds since the Unix epoch, given what the wall clock says: zero
/// before the epoch, the largest `u64` where they are more.
pub open spec fn nanos_of(elapsed: Option<Duration>) -> u64 {
    match elapsed {
        Some(duration) => clamped(duration_nanos(duration)),
        None => 0,
    }
}

/// The low 64 bits of the milliseconds since the Unix epoch, given what the
/// wall clock says: zero before the epoch.
pub open spec fn millis_of(elapsed: Option<Duration>) -> u64 {
    match elapsed {
        Some(duration) => low_bits(duration_nanos(duration) / 1_000_000),
        None => 0,
    }
}

/// The low 64 bits of the whole microseconds from one reading of the monotonic
/// clock to a later one.
pub open spec fn micros_apart(later: Instant, earlier: Instant) -> u64 {
    low_bits(nanos_apart(later, earlier) / 1_000)
}

/// Nanoseconds since the Unix epoch, given what the wall clock says: zero
/// before the epoch, the largest `u64` where they are more.
pub fn nanos_since_epoch(elapsed: &Option<Duration>) -> (nanos: u64)
    ensures
        nanos == nanos_of(*elapsed),
{
    match elapsed {
        Some(duration) => clamp_to_u64(whole_nanos(duration)),
        None => 0,
    }
}

/// The low 64 bits of the milliseconds since the Unix epoch, given what the
/// wall clock says: zero before the epoch.
pub fn millis_since_epoch(elapsed: &Option<Duration>) -> (millis: u64)
    ensures
        millis == millis_of(*elapsed),
{
    match elapsed {
        Some(duration) => low_u64(whole_millis(duration)),
        None => 0,
    }
}

/// Microseconds from one reading of the monotonic clock to a later one.
pub fn micros_between(earlier: &Instant, later: &Instant) -> (micros: u64)
    ensures
        micros == micros_apart(*later, *earlier),
{
    low_u64(whole_micros(&instant_since(later, earlier)))
}

/// The number is that of the nanoseconds since the Unix epoch, for some reading of
/// the wall clock.
pub open spec fn is_unix_nanos(nanos: u64) -> bool {
    exists|time: SystemTime| nanos == #[trigger] nanos_of(after_epoch(time))
}

/// The number is that of the milliseconds since the Unix epoch, for some reading of
/// the wall clock.
pub open spec fn is_unix_millis(millis: u64) -> bool {
    exists|time: SystemTime| millis == #[trigger] millis_of(after_epoch(time))
}

/// The number is that of the microseconds since `start`, for some reading of the
/// monotonic clock.
pub open spec fn is_micros_since(micros: u64, start: Instant) -> bool {
    exists|now: Instant| micros == #[trigger] micros_apart(now, start)
}

/// The number is that of the microseconds between some two readings of the
/// monotonic clock.
pub open spec fn is_latency(micros: u64) -> bool {
    exists|start: Instant| #[trigger] is_micros_since(micros, start)
}

/// Nanoseconds since the Unix epoch, for some reading of the wall clock.
pub fn unix_time_nanos() -> (nanos: u64)
    ensures
        is_unix_nanos(nanos),
{
    let time = wall_clock();
    let nanos: u64 = nanos_since_epoch(&since_epoch(&time));
    assert(nanos == nanos_of(after_epoch(time)));
    nanos
}

/// Milliseconds since the Unix epoch, for some reading of the wall clock.
pub fn unix_time_millis() -> (millis: u64)
    ensures
        is_unix_millis(millis),
{
    let time = wall_clock();
    let millis: u64 = millis_since_epoch(&since_epoch(&time));
    assert(millis == millis_of(after_epoch(time)));
    millis
}

/// Microseconds since `start`, for some reading of the monotonic clock.
pub fn elapsed_micros(start: &Instant) -> (micros: u64)
    ensures
        is_micros_since(micros, *start),
        is_latency(micros),
{
    let now = instant_now();
    let micros: u64 = micros_between(start, &now);
    assert(micros == micros_apart(now, *start));
    assert(is_micros_since(micros, *start));
    micros
}

/// Readings of the clocks become numbers without loss where they fit: nanoseconds
/// stop at the largest `u64`, milliseconds and microseconds begin anew behind it,
/// and a time before the epoch counts as the epoch.
pub proof fn law_readings_become_numbers(
    duration: Duration,
    later: Instant,
    earlier: Instant,
    n: nat,
)
    ensures
        n <= 0xFFFF_FFFF_FFFF_FFFF ==> clamped(n) == n && low_bits(n) == n,
        n > 0xFFFF_FFFF_FFFF_FFFF ==> clamped(n) == 0xFFFF_FFFF_FFFF_FFFFu64,
        low_bits(n + 0x1_0000_0000_0000_0000) == low_bits(n),
        nanos_of(None) == 0,
        duration_nanos(duration) <= 0xFFFF_FFFF_FFFF_FFFF ==> nanos_of(Some(duration))
            == duration_nanos(duration),
        duration_nanos(duration) > 0xFFFF_FFFF_FFFF_FFFF ==> nanos_of(Some(duration))
            == 0xFFFF_FFFF_FFFF_FFFFu64,
        millis_of(None) == 0,
        millis_of(Some(duration)) == (duration_nanos(duration) / 1_000_000)
            % 0x1_0000_0000_0000_0000,
        micros_apart(later, earlier) == (nanos_apart(later, earlier) / 1_000)
            % 0x1_0000_0000_0000_0000,
{
}

/// A number of the wall clock is one that some reading of it gives, and a latency one
/// that lies between two readings of the monotonic clock.
pub proof fn law_times_come_from_the_clocks(n: u64, start: Instant)
    ensures
        is_unix_nanos(n) == (exists|time: SystemTime|
            n == #[trigger] nanos_of(after_epoch(time))),
        is_unix_millis(n) == (exists|time: SystemTime|
            n == #[trigger] millis_of(after_epoch(time))),
        is_micros_since(n, start) == (exists|now: Instant|
            n == #[trigger] micros_apart(now, start)),
        is_latency(n) == (exists|from: Instant, to: Instant|
            n == #[trigger] micros_apart(to, from)),
{
    if is_latency(n) {
        let from = choose|from: Instant| #[trigger] is_micros_since(n, from);
        let to = choose|to: Instant| n == #[trigger] micros_apart(to, from);
        assert(n == micros_apart(to, from));
    }
    if exists|from: Instant, to: Instant| n == #[trigger] micros_apart(to, from) {
        let (from, to) = choose|from: Instant, to: Instant| n == #[trigger] micros_apart(to, from);
        assert(is_micros_since(n, from));
    }
}

} // verus!
