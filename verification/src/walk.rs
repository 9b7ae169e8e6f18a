//! The reflecting walk along a chain of waypoints.
//!
//! A vehicle always travels on a leg: from one waypoint to a neighbour. When
//! it reaches the end of the leg it goes on in the same direction, or turns
//! round if the chain ends there. On a chain of `n` waypoints the legs form a
//! cycle of `2 * (n - 1)` steps, so the leg after any number of crossings can
//! be read off the position in that cycle.

use vstd::prelude::*;
use vstd::arithmetic::div_mod::{
    lemma_add_mod_noop, lemma_mod_add_multiples_vanish, lemma_mod_twice, lemma_small_mod,
};

verus! {

/// A leg of the walk: the waypoint left behind, the waypoint ahead, and the
/// direction (`1` or `-1`) in which the indices run.
pub struct Leg {
    pub last: int,
    pub next: int,
    pub direction: int,
}

/// A leg on a chain of `n` waypoints: both ends are waypoints of the chain and
/// the one ahead is the neighbour in the direction of travel.
pub open spec fn leg_valid(leg: Leg, n: int) -> bool {
    &&& n >= 2
    &&& (leg.direction == 1 || leg.direction == -1)
    &&& 0 <= leg.last < n
    &&& 0 <= leg.next < n
    &&& leg.next == leg.last + leg.direction
}

/// The leg that follows once the waypoint ahead is reached: the walk goes on
/// in the same direction, unless that would leave the chain, in which case it
/// turns round.
pub open spec fn cross(leg: Leg, n: int) -> Leg {
    let last = leg.next;
    let candidate = last + leg.direction;
    if candidate < 0 || candidate >= n {
        Leg { last, next: last - leg.direction, direction: -leg.direction }
    } else {
        Leg { last, next: candidate, direction: leg.direction }
    }
}

/// The leg after `k` crossings, one after the other.
pub open spec fn cross_times(leg: Leg, n: int, k: nat) -> Leg
    decreases k,
{
    if k == 0 {
        leg
    } else {
        cross(cross_times(leg, n, (k - 1) as nat), n)
    }
}

/// Length of the cycle of legs on a chain of `n` waypoints.
pub open spec fn period(n: int) -> int {
    2 * (n - 1)
}

/// Position of a leg in the cycle: the outbound legs come first, counted by
/// the waypoint they leave, then the inbound legs.
pub open spec fn phase(leg: Leg, n: int) -> int {
    if leg.direction == 1 {
        leg.last
    } else {
        period(n) - leg.last
    }
}

/// The leg at a position of the cycle.
pub open spec fn leg_at(phase: int, n: int) -> Leg {
    if phase < n - 1 {
        Leg { last: phase, next: phase + 1, direction: 1 }
    } else {
        Leg { last: period(n) - phase, next: period(n) - phase - 1, direction: -1 }
    }
}

/// The leg reached from `leg` after `k` crossings, in closed form.
pub open spec fn leg_after(leg: Leg, n: int, k: int) -> Leg {
    leg_at((phase(leg, n) + k) % period(n), n)
}

/// Every valid leg has a position in the cycle, and is the leg at that
/// position.
pub proof fn lemma_phase_of_valid_leg(leg: Leg, n: int)
    requires
        leg_valid(leg, n),
    ensures
        0 <= phase(leg, n) < period(n),
        leg_at(phase(leg, n), n) == leg,
{
}

/// Every position of the cycle holds a valid leg, whose position it is.
pub proof fn lemma_leg_at_valid(p: int, n: int)
    requires
        n >= 2,
        0 <= p < period(n),
    ensures
        leg_valid(leg_at(p, n), n),
        phase(leg_at(p, n), n) == p,
{
}

/// One crossing keeps the leg valid and moves it one position along the
/// cycle. At the far end of the chain the walk turns back, and at the near
/// end it turns forward again.
pub proof fn lemma_cross_step(leg: Leg, n: int)
    requires
        leg_valid(leg, n),
    ensures
        leg_valid(cross(leg, n), n),
        cross(leg, n).last == leg.next,
        phase(cross(leg, n), n) == (phase(leg, n) + 1) % period(n),
        leg.next == n - 1 && leg.direction == 1 ==> cross(leg, n) == (Leg {
            last: n - 1,
            next: n - 2,
            direction: -1,
        }),
        leg.next == 0 && leg.direction == -1 ==> cross(leg, n) == (Leg {
            last: 0,
            next: 1,
            direction: 1,
        }),
{
    let p = phase(leg, n);
    let m = period(n);
    if p + 1 < m {
        lemma_small_mod((p + 1) as nat, m as nat);
    } else {
        assert(p + 1 == m);
        lemma_mod_add_multiples_vanish(0, m);
        lemma_small_mod(0, m as nat);
    }
}

/// The closed form agrees with crossing `k` times in a row.
pub proof fn lemma_cross_times_closed_form(leg: Leg, n: int, k: nat)
    requires
        leg_valid(leg, n),
    ensures
        leg_valid(cross_times(leg, n, k), n),
        cross_times(leg, n, k) == leg_after(leg, n, k as int),
    decreases k,
{
    let m = period(n);
    lemma_phase_of_valid_leg(leg, n);
    if k == 0 {
        lemma_small_mod(phase(leg, n) as nat, m as nat);
    } else {
        let before = cross_times(leg, n, (k - 1) as nat);
        lemma_cross_times_closed_form(leg, n, (k - 1) as nat);
        lemma_cross_step(before, n);
        let p = (phase(leg, n) + k - 1) % m;
        assert(0 <= p < m) by (nonlinear_arith)
            requires
                p == (phase(leg, n) + k - 1) % m,
                m > 0,
        ;
        lemma_leg_at_valid(p, n);
        assert(phase(before, n) == p);
        lemma_succ_mod(phase(leg, n) + k - 1, m);
        let q = (phase(leg, n) + k) % m;
        assert(phase(cross(before, n), n) == q);
        assert(0 <= q < m) by (nonlinear_arith)
            requires
                q == (phase(leg, n) + k) % m,
                m > 0,
        ;
        lemma_phase_of_valid_leg(cross(before, n), n);
    }
}

/// Adding one before or after reducing modulo `m` gives the same remainder.
pub proof fn lemma_succ_mod(x: int, m: int)
    requires
        m > 0,
    ensures
        ((x % m) + 1) % m == (x + 1) % m,
{
    lemma_add_mod_noop(x, 1, m);
    lemma_mod_twice(x, m);
    lemma_add_mod_noop(x % m, 1, m);
}

} // verus!
