//! The account's mileage quotas and the clamp of a requested distance
//! against them. Distances are whole metres.
use crate::error::RunError;
use vstd::prelude::*;
use vstd::string::StringSliceAdditionalSpecFns;

verus! {

/// The largest whole-kilometre part accepted in a mileage figure.
pub const MAX_WHOLE_KM: u64 = 1_000_000_000;

/// Quotas as the server reported them, distances in metres.
#[derive(Clone, Debug)]
pub struct QuotaSnapshot {
    pub daily_m: u64,
    pub weekly_m: u64,
    pub min_effective_m: u64,
    pub max_effective_m: u64,
    pub day_consumed_m: u64,
    pub week_consumed_m: u64,
    pub scoring: i64,
    pub limitation: String,
}

impl QuotaSnapshot {
    /// The server's own consistency: nothing consumed beyond its cap.
    pub open spec fn wf(&self) -> bool {
        self.day_consumed_m <= self.daily_m && self.week_consumed_m <= self.weekly_m
    }
}

/// What is left of `cap` after `used`; nothing when `used` exceeds it.
pub open spec fn remaining(cap: u64, used: u64) -> nat {
    if used <= cap {
        (cap - used) as nat
    } else {
        0
    }
}

pub open spec fn min_nat(a: nat, b: nat) -> nat {
    if a <= b {
        a
    } else {
        b
    }
}

/// The requested distance, cut to what is left today and this week and to
/// the largest effective distance.
pub open spec fn clamp_value(requested: u64, q: QuotaSnapshot) -> nat {
    min_nat(
        min_nat(
            min_nat(requested as nat, remaining(q.daily_m, q.day_consumed_m)),
            remaining(q.weekly_m, q.week_consumed_m),
        ),
        q.max_effective_m as nat,
    )
}

/// Clamps `requested` against the quotas; a result below the minimum
/// effective distance is refused.
pub fn clamp(requested: u64, q: &QuotaSnapshot) -> (r: Result<u64, RunError>)
    ensures
        r is Ok <==> clamp_value(requested, *q) >= q.min_effective_m,
        r is Ok ==> r->Ok_0 == clamp_value(requested, *q),
        r is Err ==> r->Err_0 == RunError::DistanceTooLow,
{
    let day_left = q.daily_m.saturating_sub(q.day_consumed_m);
    let week_left = q.weekly_m.saturating_sub(q.week_consumed_m);
    let mut d = requested;
    if day_left < d {
        d = day_left;
    }
    if week_left < d {
        d = week_left;
    }
    if q.max_effective_m < d {
        d = q.max_effective_m;
    }
    if d < q.min_effective_m {
        Err(RunError::DistanceTooLow)
    } else {
        Ok(d)
    }
}

/// A clamped distance never exceeds what is left today, what is left this
/// week, or the largest effective distance; and when less is left today than
/// the minimum effective distance, every request is refused.
pub proof fn lemma_clamp_within_quota(requested: u64, q: QuotaSnapshot)
    requires
        q.wf(),
    ensures
        clamp_value(requested, q) <= (q.daily_m - q.day_consumed_m),
        clamp_value(requested, q) <= (q.weekly_m - q.week_consumed_m),
        clamp_value(requested, q) <= q.max_effective_m,
        (q.daily_m - q.day_consumed_m) < q.min_effective_m ==> clamp_value(requested, q)
            < q.min_effective_m,
{
}

/// Scan state of a mileage figure: still valid, past the point, whole
/// kilometres, thousandths digits so far, how many, any digit seen.
pub struct Scan {
    pub ok: bool,
    pub dot: bool,
    pub whole: nat,
    pub frac: nat,
    pub nfrac: nat,
    pub digit: bool,
}

pub open spec fn is_digit(c: u8) -> bool {
    48 <= c <= 57
}

/// Reads one more byte of a mileage figure; digits past the thousandths are
/// dropped.
pub open spec fn scan_step(st: Scan, c: u8) -> Scan {
    if !st.ok {
        st
    } else if is_digit(c) {
        let d = (c - 48) as nat;
        if !st.dot {
            let w = st.whole * 10 + d;
            Scan { ok: w <= MAX_WHOLE_KM, whole: w, digit: true, ..st }
        } else if st.nfrac < 3 {
            Scan { frac: st.frac * 10 + d, nfrac: st.nfrac + 1, digit: true, ..st }
        } else {
            Scan { digit: true, ..st }
        }
    } else if c == 46 && !st.dot {
        Scan { dot: true, ..st }
    } else {
        Scan { ok: false, ..st }
    }
}

pub open spec fn scan(b: Seq<u8>) -> Scan
    decreases b.len(),
{
    if b.len() == 0 {
        Scan { ok: true, dot: false, whole: 0, frac: 0, nfrac: 0, digit: false }
    } else {
        scan_step(scan(b.drop_last()), b.last())
    }
}

pub open spec fn pow10(n: nat) -> nat
    decreases n,
{
    if n == 0 {
        1
    } else {
        10 * pow10((n - 1) as nat)
    }
}

/// The metres that a figure in kilometres such as `"12.5"` stands for,
/// truncated to whole metres; `None` unless the text is digits with at most
/// one decimal point and at least one digit.
pub open spec fn mileage_metres(b: Seq<u8>) -> Option<nat> {
    let st = scan(b);
    if st.ok && st.digit {
        Some(st.whole * 1000 + st.frac * pow10((3 - st.nfrac) as nat))
    } else {
        None
    }
}

/// Parses a mileage figure in kilometres, as the server sends consumed
/// mileage, into whole metres.
pub fn parse_mileage(text: &str) -> (r: Result<u64, RunError>)
    ensures
        mileage_metres(text.spec_bytes()) is Some <==> r is Ok,
        r is Ok ==> r->Ok_0 == mileage_metres(text.spec_bytes())->0,
        r is Err ==> r->Err_0 == RunError::MalformedMileage,
{
    let b = text.as_bytes();
    let mut ok = true;
    let mut dot = false;
    let mut whole: u64 = 0;
    let mut frac: u64 = 0;
    let mut nfrac: u64 = 0;
    let mut digit = false;
    let mut i: usize = 0;
    while i < b.len()
        invariant
            i <= b@.len(),
            b@ == text.spec_bytes(),
            ({
                let st = scan(b@.take(i as int));
                st.ok == ok && st.dot == dot && st.whole == whole && st.frac == frac
                    && st.nfrac == nfrac && st.digit == digit
            }),
            ok ==> whole <= MAX_WHOLE_KM,
            frac < 1000,
            nfrac <= 3,
            frac < pow10(nfrac as nat),
        decreases b@.len() - i,
    {
        let c = b[i];
        proof {
            assert(b@.take(i as int + 1).drop_last() =~= b@.take(i as int));
            reveal_with_fuel(pow10, 4);
        }
        if ok {
            if 48 <= c && c <= 57 {
                let d = (c - 48) as u64;
                if !dot {
                    whole = whole * 10 + d;
                    ok = whole <= MAX_WHOLE_KM;
                } else if nfrac < 3 {
                    frac = frac * 10 + d;
                    nfrac = nfrac + 1;
                }
                digit = true;
            } else if c == 46 && !dot {
                dot = true;
            } else {
                ok = false;
            }
        }
        i = i + 1;
    }
    proof {
        assert(b@.take(i as int) =~= b@);
        reveal_with_fuel(pow10, 4);
    }
    if ok && digit {
        let scale: u64 = if nfrac == 0 {
            1000
        } else if nfrac == 1 {
            100
        } else if nfrac == 2 {
            10
        } else {
            1
        };
        Ok(whole * 1000 + frac * scale)
    } else {
        Err(RunError::MalformedMileage)
    }
}

} // verus!
