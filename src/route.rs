//! Route points for a session. Points are whole-metre offsets east and north
//! of an origin; every segment that is produced runs along one axis, so its
//! length is exact. A route is either a recorded one walked lap after lap
//! and cut at the session distance, or a synthetic rectangular track.
use vstd::arithmetic::div_mod::{lemma_fundamental_div_mod_converse, lemma_small_mod};
use vstd::prelude::*;
use vstd::string::StringSliceAdditionalSpecFns;

use crate::error::RouteError;

verus! {

/// The largest offset, in metres, of a point from the origin.
pub const COORD_MAX: i64 = 1_000_000_000;

/// The largest route, in metres.
pub const MAX_ROUTE_M: u64 = 1_000_000_000;

/// The longest segment, in metres, between two produced points.
pub const STEP_M: u64 = 10;

/// Sides of the synthetic track, in metres.
pub const TRACK_EAST_M: i64 = 100;
pub const TRACK_NORTH_M: i64 = 60;

#[derive(Clone, Copy, Debug, PartialEq, Eq, Structural)]
pub struct RoutePoint {
    pub east: i64,
    pub north: i64,
}

/// A straight move along one axis: east-west when `horizontal`, else
/// north-south, by `delta` metres (negative: west or south).
#[derive(Clone, Copy, Debug, PartialEq, Eq, Structural)]
pub struct Leg {
    pub horizontal: bool,
    pub delta: i64,
}

impl Leg {
    pub open spec fn wf(&self) -> bool {
        self.delta != 0 && -2 * COORD_MAX <= self.delta <= 2 * COORD_MAX
    }
}

pub open spec fn abs(x: int) -> int {
    if x < 0 {
        -x
    } else {
        x
    }
}

/// Length of the segment between two points that share an axis.
pub open spec fn seg_len(a: RoutePoint, b: RoutePoint) -> int {
    abs(a.east - b.east) + abs(a.north - b.north)
}

/// Total length of a route made of axis-aligned segments.
pub open spec fn path_length(pts: Seq<RoutePoint>) -> int
    decreases pts.len(),
{
    if pts.len() < 2 {
        0
    } else {
        path_length(pts.drop_last()) + seg_len(pts[pts.len() - 2], pts.last())
    }
}

/// No two consecutive points of the route lie more than `STEP_M` apart.
pub open spec fn spaced(pts: Seq<RoutePoint>) -> bool {
    forall|i: int| 0 <= i < pts.len() - 1 ==> seg_len(#[trigger] pts[i], pts[i + 1]) <= STEP_M
}

/// Every segment of the route runs along one axis.
pub open spec fn axis_aligned(pts: Seq<RoutePoint>) -> bool {
    forall|i: int|
        0 <= i < pts.len() - 1 ==> (#[trigger] pts[i]).east == pts[i + 1].east || pts[i].north
            == pts[i + 1].north
}

pub open spec fn in_range(p: RoutePoint) -> bool {
    -COORD_MAX <= p.east <= COORD_MAX && -COORD_MAX <= p.north <= COORD_MAX
}

pub open spec fn leg_len(l: Leg) -> int {
    abs(l.delta as int)
}

/// `p` moved `d` metres along the leg's axis, in the leg's direction.
pub open spec fn moved(p: RoutePoint, l: Leg, d: int) -> RoutePoint {
    let s = if l.delta < 0 {
        -d
    } else {
        d
    };
    if l.horizontal {
        RoutePoint { east: (p.east + s) as i64, north: p.north }
    } else {
        RoutePoint { east: p.east, north: (p.north + s) as i64 }
    }
}

/// `q` is `p` moved `d` metres along the leg's axis, in the leg's direction.
pub open spec fn along(p: RoutePoint, l: Leg, d: int, q: RoutePoint) -> bool {
    let s = if l.delta < 0 {
        -d
    } else {
        d
    };
    if l.horizontal {
        q.east == p.east + s && q.north == p.north
    } else {
        q.east == p.east && q.north == p.north + s
    }
}

/// Where the walk from `start` stands after `c` whole legs, taken cyclically.
pub open spec fn corner(start: RoutePoint, legs: Seq<Leg>, c: nat) -> RoutePoint
    decreases c,
{
    if c == 0 {
        start
    } else {
        let l = legs[(c - 1) % legs.len() as int];
        moved(corner(start, legs, (c - 1) as nat), l, leg_len(l))
    }
}

/// The length of the first `c` legs, taken cyclically.
pub open spec fn covered(legs: Seq<Leg>, c: nat) -> int
    decreases c,
{
    if c == 0 {
        0
    } else {
        covered(legs, (c - 1) as nat) + leg_len(legs[(c - 1) % legs.len() as int])
    }
}

proof fn lemma_covered_monotone(legs: Seq<Leg>, a: nat, b: nat)
    requires
        a <= b,
        legs.len() > 0,
        forall|i: int| 0 <= i < legs.len() ==> (#[trigger] legs[i]).wf(),
    ensures
        covered(legs, a) + (b - a) <= covered(legs, b),
    decreases b - a,
{
    if a < b {
        lemma_covered_monotone(legs, a, (b - 1) as nat);
        let k = (b - 1) % (legs.len() as int);
        assert(0 <= k < legs.len());
        assert(legs[k].wf());
    }
}

proof fn lemma_prefix_legs(start: RoutePoint, legs: Seq<Leg>, more: Seq<Leg>, c: nat)
    requires
        c <= legs.len(),
        legs.len() <= more.len(),
        forall|i: int| 0 <= i < legs.len() ==> (#[trigger] legs[i]) == more[i],
    ensures
        corner(start, legs, c) == corner(start, more, c),
        covered(legs, c) == covered(more, c),
    decreases c,
{
    if c > 0 {
        lemma_prefix_legs(start, legs, more, (c - 1) as nat);
        lemma_small_mod((c - 1) as nat, legs.len());
        lemma_small_mod((c - 1) as nat, more.len());
    }
}

proof fn lemma_push_leg(start: RoutePoint, prev: Seq<Leg>, l: Leg)
    ensures
        forall|c: nat| c <= prev.len() ==> corner(start, prev, c) == #[trigger] corner(start, prev.push(l), c)
            && covered(prev, c) == covered(prev.push(l), c),
        corner(start, prev.push(l), prev.len() + 1) == moved(corner(start, prev, prev.len()), l, leg_len(l)),
        covered(prev.push(l), prev.len() + 1) == covered(prev, prev.len()) + leg_len(l),
{
    assert forall|c: nat| c <= prev.len() implies corner(start, prev, c) == #[trigger] corner(start, prev.push(l), c)
        && covered(prev, c) == covered(prev.push(l), c) by {
        lemma_prefix_legs(start, prev, prev.push(l), c);
    }
    let q = prev.push(l);
    let c = prev.len();
    assert(corner(start, prev, c) == corner(start, q, c));
    assert(covered(prev, c) == covered(q, c));
    lemma_small_mod(c, c + 1);
    assert((c as int) % (q.len() as int) == c as int);
    assert(q[c as int] == l);
    assert(corner(start, q, c + 1) == moved(corner(start, q, c), l, leg_len(l)));
    assert(covered(q, c + 1) == covered(q, c) + leg_len(l));
}

proof fn lemma_increasing(v: Seq<int>, a: int, b: int)
    requires
        0 <= a <= b < v.len(),
        forall|t: int| 0 <= t < v.len() - 1 ==> #[trigger] v[t] < v[t + 1],
    ensures
        v[a] <= v[b],
    decreases b - a,
{
    if a < b {
        lemma_increasing(v, a, b - 1);
        assert(v[b - 1] < v[b]);
    }
}

/// `w` gives, for each point of `pts`, a place in `r` that holds it, in
/// order along `r`.
pub open spec fn passes_in_order(r: Seq<RoutePoint>, pts: Seq<RoutePoint>, w: Seq<int>) -> bool {
    &&& w.len() == pts.len()
    &&& forall|j: int| 0 <= j < w.len() ==> 0 <= #[trigger] w[j] < r.len() && r[w[j]] == pts[j]
    &&& forall|j: int| 0 <= j < w.len() - 1 ==> #[trigger] w[j] <= w[j + 1]
}

/// The route passes, in order, through the corners of the first `n` legs.
pub open spec fn visits_corners(r: Seq<RoutePoint>, start: RoutePoint, legs: Seq<Leg>, v: Seq<int>) -> bool {
    &&& forall|t: int| 0 <= t < v.len() ==> 0 <= #[trigger] v[t] < r.len() && r[v[t]] == corner(start, legs, t as nat)
    &&& forall|t: int| 0 <= t < v.len() - 1 ==> #[trigger] v[t] < v[t + 1]
}

proof fn lemma_path_push(pts: Seq<RoutePoint>, p: RoutePoint)
    requires
        pts.len() >= 1,
    ensures
        path_length(pts.push(p)) == path_length(pts) + seg_len(pts.last(), p),
{
    assert(pts.push(p).drop_last() =~= pts);
}

/// Walks the legs from `start`, cyclically, in steps of at most `STEP_M`,
/// until `distance` metres are covered.
#[verifier::rlimit(100)]
fn walk(start: RoutePoint, legs: &Vec<Leg>, distance: u64) -> (r: Vec<RoutePoint>)
    requires
        legs@.len() > 0,
        forall|i: int| 0 <= i < legs@.len() ==> (#[trigger] legs@[i]).wf(),
        in_range(start),
        distance <= MAX_ROUTE_M,
    ensures
        r@.len() >= 2,
        r@[0] == start,
        path_length(r@) == distance,
        axis_aligned(r@),
        spaced(r@),
        exists|v: Seq<int>| visits_corners(r@, start, legs@, v) && forall|t: nat| #[trigger] covered(legs@, t) <= distance ==> t < v.len(),
{
    let ghost mut c: nat = 0;
    let ghost mut laps: nat = 0;
    let ghost mut v: Seq<int> = seq![0];
    let mut pts: Vec<RoutePoint> = Vec::new();
    pts.push(start);
    let mut x = start.east;
    let mut y = start.north;
    let mut k: usize = 0;
    let mut done: u64 = 0;
    let mut remaining = distance;
    while remaining > 0
        invariant
            legs@.len() > 0,
            forall|i: int| 0 <= i < legs@.len() ==> (#[trigger] legs@[i]).wf(),
            in_range(start),
            remaining <= distance <= MAX_ROUTE_M,
            pts@.len() >= 1,
            pts@[0] == start,
            pts@.last() == (RoutePoint { east: x, north: y }),
            path_length(pts@) == distance - remaining,
            axis_aligned(pts@),
            spaced(pts@),
            abs(x - start.east) + abs(y - start.north) <= distance - remaining,
            k < legs@.len(),
            done < abs(legs@[k as int].delta as int),
            c == laps * legs@.len() + k,
            along(corner(start, legs@, c), legs@[k as int], done as int, RoutePoint { east: x, north: y }),
            distance - remaining == covered(legs@, c) + done,
            v.len() == c + 1,
            visits_corners(pts@, start, legs@, v),
        decreases remaining,
    {
        let leg = legs[k];
        let len: u64 = if leg.delta < 0 {
            (-leg.delta) as u64
        } else {
            leg.delta as u64
        };
        let mut mv = len - done;
        if remaining < mv {
            mv = remaining;
        }
        if STEP_M < mv {
            mv = STEP_M;
        }
        let signed: i64 = if leg.delta < 0 {
            -(mv as i64)
        } else {
            mv as i64
        };
        if leg.horizontal {
            x = x + signed;
        } else {
            y = y + signed;
        }
        let p = RoutePoint { east: x, north: y };
        proof {
            lemma_path_push(pts@, p);
            let old_pts = pts@;
            assert forall|i: int| 0 <= i < old_pts.push(p).len() - 1 implies (#[trigger] old_pts.push(
                p,
            )[i]).east == old_pts.push(p)[i + 1].east || old_pts.push(p)[i].north == old_pts.push(
                p,
            )[i + 1].north by {
                if i < old_pts.len() - 1 {
                    assert(old_pts[i] == old_pts.push(p)[i]);
                }
            }
            assert forall|i: int| 0 <= i < old_pts.push(p).len() - 1 implies seg_len(
                #[trigger] old_pts.push(p)[i],
                old_pts.push(p)[i + 1],
            ) <= STEP_M by {
                if i < old_pts.len() - 1 {
                    assert(old_pts[i] == old_pts.push(p)[i]);
                }
            }
        }
        proof {
            lemma_fundamental_div_mod_converse(c as int, legs@.len() as int, laps as int, k as int);
            assert(along(corner(start, legs@, c), leg, (done + mv) as int, p));
        }
        let ghost before = pts@;
        pts.push(p);
        proof {
            assert forall|t: int| 0 <= t < v.len() implies 0 <= #[trigger] v[t] < pts@.len() && pts@[v[t]] == corner(start, legs@, t as nat) by {
                assert(pts@[v[t]] == before[v[t]]);
            }
        }
        done = done + mv;
        remaining = remaining - mv;
        if done == len {
            proof {
                assert((c as int) % (legs@.len() as int) == k);
                assert(leg_len(leg) == len);
                assert(corner(start, legs@, c + 1) == moved(corner(start, legs@, c), leg, len as int));
                assert(corner(start, legs@, c + 1) == p);
                assert(covered(legs@, c + 1) == covered(legs@, c) + len);
                v = v.push(pts@.len() - 1);
                c = c + 1;
                assert(pts@[v[c as int]] == corner(start, legs@, c));
                assert(visits_corners(pts@, start, legs@, v));
            }
            k = if k == legs.len() - 1 {
                0
            } else {
                k + 1
            };
            proof {
                if k == 0 {
                    let n = legs@.len() as int;
                    let l = laps as int;
                    assert((l + 1) * n == l * n + n) by (nonlinear_arith);
                    laps = laps + 1;
                }
                assert(along(p, legs@[k as int], 0, p));
            }
            done = 0;
        }
    }
    if pts.len() == 1 {
        proof {
            lemma_path_push(pts@, start);
            reveal_with_fuel(path_length, 2);
            assert(seg_len(pts@[0], start) == 0);
        }
        let ghost before = pts@;
        pts.push(start);
        proof {
            assert forall|t: int| 0 <= t < v.len() implies 0 <= #[trigger] v[t] < pts@.len() && pts@[v[t]] == corner(start, legs@, t as nat) by {
                assert(pts@[v[t]] == before[v[t]]);
            }
        }
    }
    proof {
        assert forall|t: nat| #[trigger] covered(legs@, t) <= distance implies t < v.len() by {
            if t >= v.len() {
                lemma_fundamental_div_mod_converse(c as int, legs@.len() as int, laps as int, k as int);
                lemma_covered_monotone(legs@, c + 1, t);
                assert(covered(legs@, c + 1) == covered(legs@, c) + abs(legs@[k as int].delta as int));
            }
        }
        assert(visits_corners(pts@, start, legs@, v));
    }
    pts
}

/// A synthetic route: laps of a rectangular track starting at the origin,
/// with a point at least every `STEP_M` metres, exactly `distance` long.
pub fn synthetic_route(distance: u64) -> (r: Vec<RoutePoint>)
    requires
        distance <= MAX_ROUTE_M,
    ensures
        r@.len() >= 2,
        path_length(r@) == distance,
        axis_aligned(r@),
        spaced(r@),
{
    let west: i64 = -TRACK_EAST_M;
    let south: i64 = -TRACK_NORTH_M;
    let legs: Vec<Leg> = vec![
        Leg { horizontal: true, delta: TRACK_EAST_M },
        Leg { horizontal: false, delta: TRACK_NORTH_M },
        Leg { horizontal: true, delta: west },
        Leg { horizontal: false, delta: south },
    ];
    walk(RoutePoint { east: 0, north: 0 }, &legs, distance)
}

/// Some two consecutive points differ.
pub open spec fn has_length(pts: Seq<RoutePoint>) -> bool {
    exists|i: int| 0 <= i < pts.len() - 1 && #[trigger] pts[i] != pts[i + 1]
}

/// The refusal, if any, of a recorded route: too few points, a point out
/// of range, or no length at all.
pub open spec fn replay_refusal(pts: Seq<RoutePoint>) -> Option<RouteError> {
    if pts.len() < 2 {
        Some(RouteError::Degenerate)
    } else if !(forall|i: int| 0 <= i < pts.len() ==> in_range(#[trigger] pts[i])) {
        Some(RouteError::Malformed)
    } else if !has_length(pts) {
        Some(RouteError::Degenerate)
    } else {
        None
    }
}

/// The axis-aligned legs from `a` to `b`: east-west first, then north-south.
fn push_legs(legs: &mut Vec<Leg>, a: RoutePoint, b: RoutePoint, Ghost(start): Ghost<RoutePoint>)
    requires
        in_range(a),
        in_range(b),
        corner(start, old(legs)@, old(legs)@.len() as nat) == a,
    ensures
        corner(start, final(legs)@, final(legs)@.len() as nat) == b,
        covered(final(legs)@, final(legs)@.len() as nat) == covered(old(legs)@, old(legs)@.len() as nat)
            + seg_len(a, b),
        forall|c: nat| c <= old(legs)@.len() ==> corner(start, old(legs)@, c) == #[trigger] corner(
            start,
            final(legs)@,
            c,
        ) && covered(old(legs)@, c) == covered(final(legs)@, c),
        final(legs)@.len() >= old(legs)@.len(),
        final(legs)@.len() > old(legs)@.len() <==> a != b,
        forall|i: int| 0 <= i < old(legs)@.len() ==> final(legs)@[i] == old(legs)@[i],
        forall|i: int| old(legs)@.len() <= i < final(legs)@.len() ==> (#[trigger] final(legs)@[i]).wf(),
{
    let ghost l0 = legs@;
    if b.east != a.east {
        let l = Leg { horizontal: true, delta: b.east - a.east };
        proof {
            lemma_push_leg(start, legs@, l);
        }
        legs.push(l);
    }
    let ghost l1 = legs@;
    assert(corner(start, l1, l1.len() as nat) == RoutePoint { east: b.east, north: a.north });
    if b.north != a.north {
        let l = Leg { horizontal: false, delta: b.north - a.north };
        proof {
            lemma_push_leg(start, legs@, l);
        }
        legs.push(l);
    }
    proof {
        assert forall|c: nat| c <= l0.len() implies corner(start, l0, c) == #[trigger] corner(start, legs@, c)
            && covered(l0, c) == covered(legs@, c) by {
            assert(corner(start, l0, c) == corner(start, l1, c));
            assert(covered(l0, c) == covered(l1, c));
        }
    }
}

/// Replays a recorded route: starting at its first point, it is walked
/// point to point (each segment east-west first, then north-south), back to
/// its start and round again, and cut where `distance` metres are covered.
/// Once `distance` covers the recorded route, the result passes through
/// every recorded point, in the recorded order.
pub fn replay_route(recorded: &Vec<RoutePoint>, distance: u64) -> (r: Result<Vec<RoutePoint>, RouteError>)
    requires
        distance <= MAX_ROUTE_M,
    ensures
        r is Err <==> replay_refusal(recorded@) is Some,
        r is Err ==> r->Err_0 == replay_refusal(recorded@)->0,
        r is Ok ==> r->Ok_0@.len() >= 2 && r->Ok_0@[0] == recorded@[0] && path_length(r->Ok_0@)
            == distance && axis_aligned(r->Ok_0@) && spaced(r->Ok_0@),
        (r is Ok && path_length(recorded@) <= distance) ==> exists|w: Seq<int>| passes_in_order(r->Ok_0@, recorded@, w),
{
    let n = recorded.len();
    if n < 2 {
        return Err(RouteError::Degenerate);
    }
    let mut i: usize = 0;
    while i < n
        invariant
            n == recorded@.len(),
            n >= 2,
            i <= n,
            forall|j: int| 0 <= j < i ==> in_range(#[trigger] recorded@[j]),
        decreases n - i,
    {
        let p = recorded[i];
        if p.east < -COORD_MAX || p.east > COORD_MAX || p.north < -COORD_MAX || p.north > COORD_MAX {
            proof {
                assert(!in_range(recorded@[i as int]));
                assert(!(forall|k: int| 0 <= k < recorded@.len() ==> in_range(#[trigger] recorded@[k])));
            }
            return Err(RouteError::Malformed);
        }
        i = i + 1;
    }
    let mut legs: Vec<Leg> = Vec::new();
    let ghost start = recorded@[0];
    let ghost mut at: Seq<nat> = seq![0];
    let mut i: usize = 0;
    while i + 1 < n
        invariant
            start == recorded@[0],
            at.len() == i + 1,
            at[i as int] == legs@.len(),
            forall|j1: int, j2: int| 0 <= j1 <= j2 <= i ==> #[trigger] at[j1] <= #[trigger] at[j2],
            forall|j: int| 0 <= j <= i ==> corner(start, legs@, #[trigger] at[j]) == recorded@[j],
            forall|j: int| 0 <= j <= i ==> covered(legs@, #[trigger] at[j]) == path_length(recorded@.take(j + 1)),
            n == recorded@.len(),
            n >= 2,
            i + 1 <= n,
            forall|j: int| 0 <= j < n ==> in_range(#[trigger] recorded@[j]),
            forall|j: int| 0 <= j < legs@.len() ==> (#[trigger] legs@[j]).wf(),
            legs@.len() > 0 <==> exists|j: int| 0 <= j < i && #[trigger] recorded@[j] != recorded@[j + 1],
        decreases n - i,
    {
        let ghost before = legs@.len();
        let ghost old_legs = legs@;
        push_legs(&mut legs, recorded[i], recorded[i + 1], Ghost(start));
        proof {
            assert forall|j: int| 0 <= j <= i implies corner(start, legs@, #[trigger] at[j]) == recorded@[j] by {
                assert(at[j] <= at[i as int]);
                assert(corner(start, old_legs, at[j]) == corner(start, legs@, at[j]));
            }
            assert forall|j: int| 0 <= j <= i implies covered(legs@, #[trigger] at[j]) == path_length(recorded@.take(j + 1)) by {
                assert(at[j] <= at[i as int]);
                assert(corner(start, old_legs, at[j]) == corner(start, legs@, at[j]));
            }
            assert(recorded@.take(i + 2).drop_last() =~= recorded@.take(i + 1));
            at = at.push(legs@.len() as nat);
            assert(covered(legs@, at[i + 1]) == path_length(recorded@.take(i + 2)));
            if legs@.len() > 0 && before == 0 {
                assert(recorded@[i as int] != recorded@[i + 1]);
            }
            if legs@.len() == 0 {
                assert forall|j: int| 0 <= j < i + 1 implies !(#[trigger] recorded@[j] != recorded@[j + 1]) by {
                    if j == i {
                    }
                }
            }
        }
        i = i + 1;
    }
    if legs.len() == 0 {
        proof {
            assert(!has_length(recorded@));
        }
        return Err(RouteError::Degenerate);
    }
    let ghost open_legs = legs@;
    push_legs(&mut legs, recorded[n - 1], recorded[0], Ghost(start));
    let r = walk(recorded[0], &legs, distance);
    proof {
        if path_length(recorded@) <= distance {
            let v = choose|v: Seq<int>| visits_corners(r@, start, legs@, v) && forall|t: nat| #[trigger] covered(legs@, t) <= distance ==> t < v.len();
            assert(recorded@.take(n as int) =~= recorded@);
            assert forall|j: int| 0 <= j < n implies at[j] < v.len() && corner(start, legs@, #[trigger] at[j]) == recorded@[j] by {
                assert(at[j] <= at[n - 1]);
                assert(corner(start, open_legs, at[j]) == corner(start, legs@, at[j]));
                lemma_covered_monotone(legs@, at[j], at[n - 1]);
                assert(corner(start, open_legs, at[n - 1]) == corner(start, legs@, at[n - 1]));
                assert(covered(legs@, at[j]) <= distance);
            }
            let w = Seq::new(n as nat, |j: int| v[at[j] as int]);
            assert forall|j: int| 0 <= j < w.len() - 1 implies #[trigger] w[j] <= w[j + 1] by {
                assert(at[j] <= at[j + 1]);
                assert(at[j + 1] < v.len());
                lemma_increasing(v, at[j] as int, at[j + 1] as int);
            }
            assert(passes_in_order(r@, recorded@, w));
        }
    }
    let res: Result<Vec<RoutePoint>, RouteError> = Ok(r);
    proof {
        if path_length(recorded@) <= distance {
            assert(exists|w: Seq<int>| passes_in_order(r@, recorded@, w));
            assert(res->Ok_0@ == r@);
        }
    }
    res
}

/// Scan state of route text: still valid, numbers read so far, and the
/// number being read (its magnitude, whether a `-` began it, whether it has
/// a digit yet).
pub struct NumScan {
    pub ok: bool,
    pub nums: Seq<i64>,
    pub cur: nat,
    pub neg: bool,
    pub digit: bool,
}

pub open spec fn is_separator(c: u8) -> bool {
    c == 32 || c == 10 || c == 13 || c == 9 || c == 44
}

/// Ends the number being read, if any; a lone `-` is an error.
pub open spec fn close_number(st: NumScan) -> NumScan {
    if !st.ok {
        st
    } else if st.digit {
        let v: int = if st.neg {
            -(st.cur as int)
        } else {
            st.cur as int
        };
        NumScan { ok: true, nums: st.nums.push(v as i64), cur: 0, neg: false, digit: false }
    } else if st.neg {
        NumScan { ok: false, ..st }
    } else {
        st
    }
}

pub open spec fn num_step(st: NumScan, c: u8) -> NumScan {
    if !st.ok {
        st
    } else if 48 <= c <= 57 {
        let v = st.cur * 10 + (c - 48) as nat;
        NumScan { ok: v <= COORD_MAX, cur: v, digit: true, ..st }
    } else if c == 45 && !st.neg && !st.digit {
        NumScan { neg: true, ..st }
    } else if is_separator(c) {
        close_number(st)
    } else {
        NumScan { ok: false, ..st }
    }
}

pub open spec fn num_scan(b: Seq<u8>) -> NumScan
    decreases b.len(),
{
    if b.len() == 0 {
        NumScan { ok: true, nums: Seq::empty(), cur: 0, neg: false, digit: false }
    } else {
        num_step(num_scan(b.drop_last()), b.last())
    }
}

/// The points of a route text: whole-metre offsets east and north, as
/// integers separated by spaces, tabs, commas or line breaks, taken in pairs;
/// `None` when the text holds anything else, an odd count, or an offset
/// beyond `COORD_MAX`.
pub open spec fn route_points(b: Seq<u8>) -> Option<Seq<RoutePoint>> {
    let st = close_number(num_scan(b));
    if st.ok && st.nums.len() % 2 == 0 {
        Some(
            Seq::new(
                st.nums.len() / 2,
                |i: int| RoutePoint { east: st.nums[2 * i], north: st.nums[2 * i + 1] },
            ),
        )
    } else {
        None
    }
}

/// Reads a recorded route from its text.
pub fn parse_route(text: &str) -> (r: Result<Vec<RoutePoint>, RouteError>)
    ensures
        r is Ok <==> route_points(text.spec_bytes()) is Some,
        r is Ok ==> r->Ok_0@ == route_points(text.spec_bytes())->0,
        r is Err ==> r->Err_0 == RouteError::Malformed,
{
    let b = text.as_bytes();
    let mut ok = true;
    let mut nums: Vec<i64> = Vec::new();
    let mut cur: i64 = 0;
    let mut neg = false;
    let mut digit = false;
    let mut i: usize = 0;
    while i < b.len()
        invariant
            i <= b@.len(),
            b@ == text.spec_bytes(),
            ({
                let st = num_scan(b@.take(i as int));
                st.ok == ok && st.nums == nums@ && (ok ==> st.cur == cur && st.neg == neg
                    && st.digit == digit)
            }),
            0 <= cur <= COORD_MAX,
        decreases b@.len() - i,
    {
        let c = b[i];
        proof {
            assert(b@.take(i as int + 1).drop_last() =~= b@.take(i as int));
        }
        if ok {
            if 48 <= c && c <= 57 {
                let v = cur * 10 + (c - 48) as i64;
                if v <= COORD_MAX {
                    cur = v;
                    digit = true;
                } else {
                    ok = false;
                }
            } else if c == 45 && !neg && !digit {
                neg = true;
            } else if c == 32 || c == 10 || c == 13 || c == 9 || c == 44 {
                if digit {
                    nums.push(if neg {
                        -cur
                    } else {
                        cur
                    });
                    cur = 0;
                    neg = false;
                    digit = false;
                } else if neg {
                    ok = false;
                }
            } else {
                ok = false;
            }
        }
        i = i + 1;
    }
    proof {
        assert(b@.take(i as int) =~= b@);
    }
    if ok {
        if digit {
            nums.push(if neg {
                -cur
            } else {
                cur
            });
        } else if neg {
            ok = false;
        }
    }
    if !ok || nums.len() % 2 != 0 {
        return Err(RouteError::Malformed);
    }
    let ghost want = route_points(text.spec_bytes())->0;
    let mut pts: Vec<RoutePoint> = Vec::new();
    let mut k: usize = 0;
    while k < nums.len() / 2
        invariant
            nums@.len() % 2 == 0,
            k <= nums@.len() / 2,
            want.len() == nums@.len() / 2,
            forall|j: int| 0 <= j < want.len() ==> #[trigger] want[j] == (RoutePoint { east: nums@[2 * j], north: nums@[2 * j + 1] }),
            pts@ == want.take(k as int),
        decreases nums@.len() / 2 - k,
    {
        pts.push(RoutePoint { east: nums[2 * k], north: nums[2 * k + 1] });
        proof {
            assert(want.take(k as int + 1) =~= want.take(k as int).push(want[k as int]));
        }
        k = k + 1;
    }
    proof {
        assert(want.take(k as int) =~= want);
    }
    Ok(pts)
}

} // verus!
