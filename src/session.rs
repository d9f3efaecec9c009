//! The fabricated session: jittered distance, elapsed time, pace, calories,
//! and start/end times, all derived from the clamped distance.
use chrono::{DateTime, FixedOffset, Local, Offset};
use std::time::{SystemTime, UNIX_EPOCH};
use rand::Rng;
use vstd::prelude::*;

use crate::error::RunError;

verus! {

/// The smallest clamped distance, in metres, that stays positive after the
/// distance jitter.
pub const MIN_SESSION_M: u64 = 21;

/// The largest clamped distance, in metres, that a session holds.
pub const MAX_SESSION_M: u64 = 1_000_000_000;

/// Pace without jitter, in thousandths.
pub const BASE_PACE_PERMILLE: i64 = 600;

/// Calories per kilometre, in tenths.
pub const CALORIE_TENTHS_PER_KM: i64 = 583;

/// The latest instant, in seconds since the Unix epoch, that is written as a date.
pub const MAX_TIMESTAMP: i64 = 253_000_000_000;

/// The three random draws of a session.
#[derive(Clone, Copy, Debug, PartialEq, Eq, Structural)]
pub struct Jitter {
    /// Metres added to the distance: from -20 to -2.
    pub distance_m: i64,
    /// Seconds added to the elapsed time: from -15 to 14.
    pub seconds: i64,
    /// Thousandths added to the pace: from -50 to 49.
    pub pace_permille: i64,
}

impl Jitter {
    pub open spec fn wf(&self) -> bool {
        -20 <= self.distance_m <= -2 && -15 <= self.seconds < 15 && -50 <= self.pace_permille < 50
    }
}

/// Elapsed seconds at three metres a second, truncated, before jitter.
pub open spec fn base_elapsed(m: int) -> int {
    m / 3
}

/// Elapsed seconds for `m` metres and a jitter of `js` seconds: the
/// truncated baseline plus the jitter, and never less than one second.
pub open spec fn elapsed_of(m: int, js: int) -> int {
    if base_elapsed(m) + js < 1 {
        1
    } else {
        base_elapsed(m) + js
    }
}

/// Calories for `m` metres, truncated.
pub open spec fn calorie_of(m: int) -> int {
    (CALORIE_TENTHS_PER_KM * m) / 10000
}

/// Division truncated toward zero, for a positive divisor.
pub open spec fn trunc_div(a: int, b: int) -> int {
    if a >= 0 {
        a / b
    } else {
        -((-a) / b)
    }
}

/// Seconds per kilometre truncated, then times 1000.
pub open spec fn ave_pace_of(elapsed: int, m: int) -> int {
    trunc_div(elapsed * 1000, m) * 1000
}

/// Metres over pace over two, truncated.
pub open spec fn pace_number_of(m: int, pace_permille: int) -> int {
    (m * 500) / pace_permille
}

/// The time text `%Y-%m-%d %H:%M:%S` of an instant at a UTC offset in seconds.
pub uninterp spec fn local_time_text(unix: int, offset: int) -> Seq<char>;

/// One session, ready to be signed and sent.
#[derive(Clone, Debug)]
pub struct SessionDraft {
    pub distance_m: u64,
    pub elapsed_s: i64,
    pub pace_permille: i64,
    pub start_unix: i64,
    pub end_unix: i64,
    pub start_text: String,
    pub end_text: String,
    pub calorie: i64,
    pub ave_pace: i64,
    pub pace_number: i64,
}

/// What holds of every session drawn for a clamped distance `effective`:
/// each jittered value within its bounds, the rest derived from them.
pub open spec fn consistent(s: SessionDraft, effective: int) -> bool {
    &&& effective - 20 <= s.distance_m <= effective - 2
    &&& base_elapsed(s.distance_m as int) - 15 <= s.elapsed_s < base_elapsed(s.distance_m as int) + 15
    &&& s.elapsed_s >= 1
    &&& BASE_PACE_PERMILLE - 50 <= s.pace_permille < BASE_PACE_PERMILLE + 50
    &&& s.start_unix == s.end_unix - s.elapsed_s
    &&& s.calorie == calorie_of(s.distance_m as int)
    &&& s.ave_pace == ave_pace_of(s.elapsed_s as int, s.distance_m as int)
    &&& s.pace_number == pace_number_of(s.distance_m as int, s.pace_permille as int)
}

/// Relies on `rand::thread_rng` and `Rng::gen_range`: a value in `lo..hi`.
#[verifier::external_body]
fn random_in(lo: i64, hi: i64) -> (r: i64)
    requires
        lo < hi,
    ensures
        lo <= r < hi,
{
    rand::thread_rng().gen_range(lo..hi)
}

/// Relies on `std::time::SystemTime::duration_since` of `UNIX_EPOCH`: the
/// whole seconds since the Unix epoch now, or `None` when the clock reads
/// before the epoch or beyond what an `i64` holds.
#[verifier::external_body]
fn now_unix() -> (r: Option<i64>)
    ensures
        r is Some ==> r->0 >= 0,
{
    SystemTime::now().duration_since(UNIX_EPOCH).ok().and_then(|d| i64::try_from(d.as_secs()).ok())
}

/// Relies on `chrono::DateTime::from_timestamp`, `with_timezone(&Local)` and
/// `FixedOffset::local_minus_utc`: the machine's UTC offset at an instant,
/// which a `FixedOffset` keeps strictly within a day.
#[verifier::external_body]
fn local_offset_at(unix: i64) -> (r: i32)
    requires
        0 <= unix <= MAX_TIMESTAMP,
    ensures
        -86400 < r < 86400,
{
    DateTime::from_timestamp(unix, 0).unwrap().with_timezone(&Local).offset().fix().local_minus_utc()
}

/// Relies on `chrono::DateTime::from_timestamp`, `FixedOffset::east_opt` and
/// `format("%Y-%m-%d %H:%M:%S")`: the date and time of an instant at an offset.
#[verifier::external_body]
fn time_text(unix: i64, offset: i32) -> (r: String)
    requires
        0 <= unix <= MAX_TIMESTAMP,
        -86400 < offset < 86400,
    ensures
        r@ == local_time_text(unix as int, offset as int),
{
    let tz = FixedOffset::east_opt(offset).unwrap();
    DateTime::from_timestamp(unix, 0).unwrap().with_timezone(&tz).format("%Y-%m-%d %H:%M:%S").to_string()
}

/// Draws the three jitters of a session.
pub fn draw_jitter() -> (j: Jitter)
    ensures
        j.wf(),
{
    let distance_m = random_in(-20, -1);
    let seconds = random_in(-15, 15);
    let pace_permille = random_in(-50, 50);
    Jitter { distance_m, seconds, pace_permille }
}

/// Elapsed seconds for a clamped distance under a jitter.
pub fn elapsed_for(effective: u64, j: Jitter) -> (r: i64)
    requires
        MIN_SESSION_M <= effective <= MAX_SESSION_M,
        j.wf(),
    ensures
        r == elapsed_of(effective + j.distance_m, j.seconds as int),
{
    let m = effective as i64 + j.distance_m;
    let e = m / 3 + j.seconds;
    if e < 1 {
        1
    } else {
        e
    }
}

/// Whether a session for `effective` metres under the jitter `j` can end at
/// `end_unix`: both its end and its start must be instants that are written
/// as dates.
pub fn clock_fits(effective: u64, j: Jitter, end_unix: i64) -> (b: bool)
    requires
        MIN_SESSION_M <= effective <= MAX_SESSION_M,
        j.wf(),
    ensures
        b == (0 <= end_unix <= MAX_TIMESTAMP && 0 <= end_unix - elapsed_of(effective + j.distance_m, j.seconds as int)
            <= MAX_TIMESTAMP),
{
    let elapsed = elapsed_for(effective, j);
    0 <= end_unix && end_unix <= MAX_TIMESTAMP && end_unix - elapsed >= 0 && end_unix - elapsed <= MAX_TIMESTAMP
}

/// Builds the session for a clamped distance, a jitter, the end instant and
/// the UTC offsets at start and end.
pub fn plan_session(effective: u64, j: Jitter, end_unix: i64, start_offset: i32, end_offset: i32) -> (s: SessionDraft)
    requires
        MIN_SESSION_M <= effective <= MAX_SESSION_M,
        j.wf(),
        0 <= end_unix - elapsed_of(effective + j.distance_m, j.seconds as int),
        end_unix - elapsed_of(effective + j.distance_m, j.seconds as int) <= MAX_TIMESTAMP,
        0 <= end_unix <= MAX_TIMESTAMP,
        -86400 < start_offset < 86400,
        -86400 < end_offset < 86400,
    ensures
        consistent(s, effective as int),
        s.distance_m == effective + j.distance_m,
        s.elapsed_s == elapsed_of(s.distance_m as int, j.seconds as int),
        s.pace_permille == BASE_PACE_PERMILLE + j.pace_permille,
        s.end_unix == end_unix,
        s.start_text@ == local_time_text(s.start_unix as int, start_offset as int),
        s.end_text@ == local_time_text(end_unix as int, end_offset as int),
{
    let m = effective as i64 + j.distance_m;
    let elapsed = elapsed_for(effective, j);
    let pace = BASE_PACE_PERMILLE + j.pace_permille;
    let start_unix = end_unix - elapsed;
    let ave_pace = (elapsed * 1000) / m * 1000;
    SessionDraft {
        distance_m: m as u64,
        elapsed_s: elapsed,
        pace_permille: pace,
        start_unix,
        end_unix,
        start_text: time_text(start_unix, start_offset),
        end_text: time_text(end_unix, end_offset),
        calorie: (CALORIE_TENTHS_PER_KM * m) / 10000,
        ave_pace,
        pace_number: (m * 500) / pace,
    }
}

/// Draws a session for a clamped distance, ending now. It fails, with
/// `ClockOutOfRange`, exactly when the clock gives no reading or one for
/// which `clock_fits` is false.
pub fn synthesize(effective: u64) -> (r: Result<SessionDraft, RunError>)
    requires
        MIN_SESSION_M <= effective <= MAX_SESSION_M,
    ensures
        r is Ok ==> consistent(r->Ok_0, effective as int),
        r is Err ==> r->Err_0 == RunError::ClockOutOfRange,
{
    let j = draw_jitter();
    let end_unix = match now_unix() {
        Some(t) => t,
        None => {
            return Err(RunError::ClockOutOfRange);
        },
    };
    if !clock_fits(effective, j, end_unix) {
        return Err(RunError::ClockOutOfRange);
    }
    let elapsed = elapsed_for(effective, j);
    let start_offset = local_offset_at(end_unix - elapsed);
    let end_offset = local_offset_at(end_unix);
    Ok(plan_session(effective, j, end_unix, start_offset, end_offset))
}

/// Every session drawn for a clamped distance starts strictly before it
/// ends, by exactly its elapsed seconds, which lie within 15 seconds of the
/// unjittered value; its pace lies within 0.05 of 0.6; and its distance lies
/// strictly below the clamped distance less one metre, by at most 20 metres.
pub proof fn lemma_session_bounds(s: SessionDraft, effective: int)
    requires
        consistent(s, effective),
    ensures
        s.start_unix < s.end_unix,
        s.end_unix - s.start_unix == s.elapsed_s,
        base_elapsed(s.distance_m as int) - 15 <= s.elapsed_s < base_elapsed(s.distance_m as int) + 15,
        550 <= s.pace_permille < 650,
        effective - 20 <= s.distance_m < effective - 1,
{
}

} // verus!
