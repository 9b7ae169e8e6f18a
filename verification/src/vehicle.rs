//! Vehicles and the per-tick position update of one vehicle.

use vstd::prelude::*;
use vstd::arithmetic::div_mod::{lemma_fundamental_div_mod_converse, lemma_small_mod};
use crate::geometry::{interpolate, lerp, Waypoint, PROGRESS_SCALE};
use crate::walk::{
    cross, cross_times, leg_after, leg_valid, lemma_cross_step, lemma_cross_times_closed_form,
    lemma_leg_at_valid, lemma_phase_of_valid_leg, lemma_succ_mod, period, phase, Leg,
};

verus! {

/// The class of a vehicle or of a route.
#[derive(Clone, Copy, Debug, PartialEq, Eq, Structural)]
pub enum VehicleType {
    Bus,
    Train,
}

impl VehicleType {
    /// The name under which the class is handed to the renderer.
    pub open spec fn label_spec(self) -> Seq<char> {
        match self {
            VehicleType::Bus => "Bus"@,
            VehicleType::Train => "Train"@,
        }
    }

    /// The name under which the class is handed to the renderer.
    pub fn label(&self) -> (r: &'static str)
        ensures
            r@ == self.label_spec(),
    {
        match self {
            VehicleType::Bus => "Bus",
            VehicleType::Train => "Train",
        }
    }
}

/// A vehicle on a route. It travels from the waypoint `last_waypoint_index`
/// to the waypoint `next_waypoint_index` of its route and has covered
/// `segment_progress / PROGRESS_SCALE` of that segment.
#[derive(Clone, Copy, Debug, PartialEq, Eq, Structural)]
pub struct Vehicle {
    pub id: usize,
    pub vehicle_class: VehicleType,
    pub route_id: usize,
    pub last_waypoint_index: usize,
    pub next_waypoint_index: usize,
    pub segment_progress: u64,
    pub speed: u64,
    pub direction: i8,
    pub current_position: Waypoint,
}

impl Vehicle {
    /// The leg of the walk that the vehicle is on.
    pub open spec fn leg(self) -> Leg {
        Leg {
            last: self.last_waypoint_index as int,
            next: self.next_waypoint_index as int,
            direction: self.direction as int,
        }
    }

    /// The vehicle is in order on a route of `n` waypoints: its two indices
    /// are waypoints of the route, the one ahead is the neighbour in the
    /// direction of travel, the progress is less than a whole segment and
    /// the speed is positive.
    pub open spec fn wf(self, n: int) -> bool {
        &&& leg_valid(self.leg(), n)
        &&& self.segment_progress < PROGRESS_SCALE
        &&& self.speed > 0
    }

    /// Whether the vehicle is in order on a route of `n` waypoints.
    pub fn is_in_order(&self, n: usize) -> (ok: bool)
        ensures
            ok == self.wf(n as int),
    {
        if n < 2 || self.segment_progress >= PROGRESS_SCALE || self.speed == 0 {
            return false;
        }
        if self.last_waypoint_index >= n || self.next_waypoint_index >= n {
            return false;
        }
        if self.direction == 1 {
            self.next_waypoint_index > self.last_waypoint_index && self.next_waypoint_index
                - self.last_waypoint_index == 1
        } else if self.direction == -1 {
            self.last_waypoint_index > self.next_waypoint_index && self.last_waypoint_index
                - self.next_waypoint_index == 1
        } else {
            false
        }
    }

    /// Number of waypoints the vehicle passes in one tick.
    pub open spec fn crossings_per_tick(self) -> int {
        (self.segment_progress + self.speed) / (PROGRESS_SCALE as int)
    }

    /// The vehicle one tick later, on a route with the given waypoints: the
    /// progress grows by the speed, every whole segment in it is one crossing
    /// of the walk, and the position is interpolated on the leg reached.
    pub open spec fn ticked(self, waypoints: Seq<Waypoint>) -> Vehicle {
        let total = self.segment_progress + self.speed;
        let progress = total % (PROGRESS_SCALE as int);
        let leg = leg_after(self.leg(), waypoints.len() as int, self.crossings_per_tick());
        Vehicle {
            last_waypoint_index: leg.last as usize,
            next_waypoint_index: leg.next as usize,
            direction: leg.direction as i8,
            segment_progress: progress as u64,
            current_position: lerp(waypoints[leg.last], waypoints[leg.next], progress),
            ..self
        }
    }

    /// A tick keeps a vehicle in order: afterwards its progress is again less
    /// than a whole segment, both of its indices are waypoints of the route,
    /// and the waypoint ahead is the neighbour in the direction of travel.
    /// What the tick does not touch stays as it was.
    pub proof fn lemma_ticked_wf(self, waypoints: Seq<Waypoint>)
        requires
            self.wf(waypoints.len() as int),
            waypoints.len() <= usize::MAX,
        ensures
            self.ticked(waypoints).wf(waypoints.len() as int),
            0 <= self.ticked(waypoints).segment_progress < PROGRESS_SCALE,
            self.ticked(waypoints).last_waypoint_index < waypoints.len(),
            self.ticked(waypoints).next_waypoint_index < waypoints.len(),
            self.ticked(waypoints).next_waypoint_index == self.ticked(
                waypoints,
            ).last_waypoint_index + self.ticked(waypoints).direction,
            self.ticked(waypoints).direction == 1 || self.ticked(waypoints).direction == -1,
            self.ticked(waypoints).id == self.id,
            self.ticked(waypoints).vehicle_class == self.vehicle_class,
            self.ticked(waypoints).route_id == self.route_id,
            self.ticked(waypoints).speed == self.speed,
    {
        let n = waypoints.len() as int;
        let total = self.segment_progress + self.speed;
        let scale = PROGRESS_SCALE as int;
        let k = self.crossings_per_tick();
        lemma_phase_of_valid_leg(self.leg(), n);
        let p = (phase(self.leg(), n) + k) % period(n);
        assert(0 <= p < period(n)) by (nonlinear_arith)
            requires
                p == (phase(self.leg(), n) + k) % period(n),
                period(n) > 0,
        ;
        lemma_leg_at_valid(p, n);
        assert(0 <= total % scale < scale) by (nonlinear_arith)
            requires
                scale > 0,
        ;
    }

    /// A vehicle that reaches the last waypoint of its route in a tick, and
    /// passes no further waypoint in it, turns round in that same tick: it
    /// then heads backward, towards the waypoint before the last.
    pub proof fn lemma_tick_turns_back_at_far_end(self, waypoints: Seq<Waypoint>)
        requires
            self.wf(waypoints.len() as int),
            waypoints.len() <= usize::MAX,
            self.direction == 1,
            self.next_waypoint_index == waypoints.len() - 1,
            self.crossings_per_tick() == 1,
        ensures
            self.ticked(waypoints).last_waypoint_index == waypoints.len() - 1,
            self.ticked(waypoints).next_waypoint_index == waypoints.len() - 2,
            self.ticked(waypoints).direction == -1,
    {
        let n = waypoints.len() as int;
        lemma_cross_times_closed_form(self.leg(), n, 1);
        lemma_cross_step(self.leg(), n);
        assert(cross_times(self.leg(), n, 1) == cross(
            cross_times(self.leg(), n, 0),
            n,
        ));
    }

    /// A vehicle that reaches the first waypoint of its route in a tick, and
    /// passes no further waypoint in it, turns round in that same tick: it
    /// then heads forward, towards the second waypoint.
    pub proof fn lemma_tick_turns_forward_at_near_end(self, waypoints: Seq<Waypoint>)
        requires
            self.wf(waypoints.len() as int),
            waypoints.len() <= usize::MAX,
            self.direction == -1,
            self.next_waypoint_index == 0,
            self.crossings_per_tick() == 1,
        ensures
            self.ticked(waypoints).last_waypoint_index == 0,
            self.ticked(waypoints).next_waypoint_index == 1,
            self.ticked(waypoints).direction == 1,
    {
        let n = waypoints.len() as int;
        lemma_cross_times_closed_form(self.leg(), n, 1);
        lemma_cross_step(self.leg(), n);
        assert(cross_times(self.leg(), n, 1) == cross(
            cross_times(self.leg(), n, 0),
            n,
        ));
    }

    /// The leg that a tick arrives at is the one reached by crossing, one
    /// waypoint after the other, as many waypoints as the tick passes.
    pub proof fn lemma_tick_crosses_one_by_one(self, waypoints: Seq<Waypoint>)
        requires
            self.wf(waypoints.len() as int),
            waypoints.len() <= usize::MAX,
        ensures
            self.ticked(waypoints).leg() == cross_times(
                self.leg(),
                waypoints.len() as int,
                self.crossings_per_tick() as nat,
            ),
    {
        let n = waypoints.len() as int;
        let scale = PROGRESS_SCALE as int;
        let total = self.segment_progress + self.speed;
        assert(total / scale >= 0) by (nonlinear_arith)
            requires
                total >= 0,
                scale > 0,
        ;
        lemma_cross_times_closed_form(
            self.leg(),
            n,
            self.crossings_per_tick() as nat,
        );
        self.lemma_ticked_wf(waypoints);
    }

    /// Moves the vehicle by one tick along `waypoints`, the waypoints of its
    /// route.
    pub fn advance(&mut self, waypoints: &Vec<Waypoint>)
        requires
            old(self).wf(waypoints@.len() as int),
        ensures
            *final(self) == old(self).ticked(waypoints@),
            final(self).wf(waypoints@.len() as int),
    {
        let n = waypoints.len();
        let ghost start = *self;
        let ghost total = self.segment_progress + self.speed;
        let ghost crossed: int = 0;
        let mut remaining: u128 = self.segment_progress as u128 + self.speed as u128;
        proof {
            lemma_phase_of_valid_leg(start.leg(), n as int);
            lemma_small_mod(
                phase(start.leg(), n as int) as nat,
                period(n as int) as nat,
            );
        }
        while remaining >= PROGRESS_SCALE as u128
            invariant
                n == waypoints@.len(),
                start.wf(n as int),
                total == start.segment_progress + start.speed,
                0 <= crossed,
                remaining + crossed * PROGRESS_SCALE == total,
                leg_valid(self.leg(), n as int),
                phase(self.leg(), n as int) == (phase(start.leg(), n as int) + crossed) % period(
                    n as int,
                ),
                self.id == start.id,
                self.vehicle_class == start.vehicle_class,
                self.route_id == start.route_id,
                self.speed == start.speed,
                self.current_position == start.current_position,
            decreases remaining,
        {
            proof {
                lemma_cross_step(self.leg(), n as int);
                lemma_succ_mod(phase(start.leg(), n as int) + crossed, period(n as int));
                assert((crossed + 1) * PROGRESS_SCALE == crossed * PROGRESS_SCALE
                    + PROGRESS_SCALE) by (nonlinear_arith);
            }
            let ghost before = self.leg();
            remaining = remaining - PROGRESS_SCALE as u128;
            self.last_waypoint_index = self.next_waypoint_index;
            let mut candidate: i128 = self.last_waypoint_index as i128 + self.direction as i128;
            if candidate < 0 || candidate >= n as i128 {
                self.direction = -self.direction;
                candidate = self.last_waypoint_index as i128 + self.direction as i128;
            }
            self.next_waypoint_index = candidate as usize;
            proof {
                assert(self.leg() == cross(before, n as int));
                crossed = crossed + 1;
            }
        }
        proof {
            lemma_fundamental_div_mod_converse(
                total,
                PROGRESS_SCALE as int,
                crossed,
                remaining as int,
            );
            lemma_phase_of_valid_leg(self.leg(), n as int);
        }
        self.segment_progress = remaining as u64;
        self.current_position = interpolate(
            waypoints[self.last_waypoint_index],
            waypoints[self.next_waypoint_index],
            self.segment_progress,
        );
    }
}

} // verus!
