//! The simulation state store: the routes, the vehicles, the pause flag and
//! the handle of the frame request that is outstanding.
//!
//! There is one writer at a time: every operation takes the state by
//! reference, so no two operations can interleave on it.

use vstd::prelude::*;
use crate::fleet::fleet_consistent;
use crate::geometry::{Waypoint, PROGRESS_SCALE};
use crate::route::{route_views, routes_fit, Route, RouteView};
use crate::vehicle::{Vehicle, VehicleType};

verus! {

/// What the renderer is given for one vehicle.
#[derive(Clone, Copy, Debug, PartialEq, Eq, Structural)]
pub struct VehicleFeature {
    pub id: usize,
    pub vehicle_class: VehicleType,
    pub position: Waypoint,
}

/// The record that the renderer is given for a vehicle.
pub open spec fn feature_of(v: Vehicle) -> VehicleFeature {
    VehicleFeature { id: v.id, vehicle_class: v.vehicle_class, position: v.current_position }
}

/// The state of one simulation.
#[derive(Clone, Debug, PartialEq, Eq)]
pub struct SimulationState {
    pub routes: Vec<Route>,
    pub vehicles: Vec<Vehicle>,
    pub is_paused: bool,
    pub active_schedule_handle: Option<i32>,
}

/// The mathematical value of a simulation state.
pub struct StateView {
    pub routes: Seq<RouteView>,
    pub vehicles: Seq<Vehicle>,
    pub is_paused: bool,
    pub active_schedule_handle: Option<i32>,
}

impl View for SimulationState {
    type V = StateView;

    open spec fn view(&self) -> StateView {
        StateView {
            routes: route_views(self.routes@),
            vehicles: self.vehicles@,
            is_paused: self.is_paused,
            active_schedule_handle: self.active_schedule_handle,
        }
    }
}

impl StateView {
    /// The state before anything was put into it: no routes, no vehicles,
    /// running, no frame requested.
    pub open spec fn empty() -> StateView {
        StateView {
            routes: Seq::empty(),
            vehicles: Seq::empty(),
            is_paused: false,
            active_schedule_handle: None,
        }
    }

    /// Every vehicle names one of the routes and is in order on it.
    pub open spec fn wf(self) -> bool {
        fleet_consistent(self.routes, self.vehicles)
    }

    /// The waypoints of the route that vehicle `i` runs on.
    pub open spec fn waypoints_of(self, i: int) -> Seq<Waypoint> {
        self.routes[self.vehicles[i].route_id as int].waypoints
    }

    /// The state with new routes and vehicles, running. The frame handle
    /// stays.
    pub open spec fn initialized(self, routes: Seq<RouteView>, vehicles: Seq<Vehicle>) -> StateView {
        StateView { routes, vehicles, is_paused: false, ..self }
    }

    /// The state with the pause flag set as given.
    pub open spec fn with_paused(self, paused: bool) -> StateView {
        StateView { is_paused: paused, ..self }
    }

    /// The state with the pause flag flipped.
    pub open spec fn toggled(self) -> StateView {
        self.with_paused(!self.is_paused)
    }

    /// The state with the given frame handle.
    pub open spec fn with_handle(self, handle: Option<i32>) -> StateView {
        StateView { active_schedule_handle: handle, ..self }
    }

    /// The state one tick later: every vehicle has moved by one tick on its
    /// own route, and nothing else has changed.
    pub open spec fn ticked(self) -> StateView {
        StateView {
            vehicles: Seq::new(
                self.vehicles.len(),
                |i: int| self.vehicles[i].ticked(self.waypoints_of(i)),
            ),
            ..self
        }
    }

    /// One record for each vehicle, in the order of the vehicles.
    pub open spec fn snapshot(self) -> Seq<VehicleFeature> {
        self.vehicles.map_values(|v: Vehicle| feature_of(v))
    }

    /// Whether a state is in order depends on its routes and vehicles alone:
    /// pausing, resuming and taking note of a frame handle keep it so.
    pub proof fn lemma_wf_of_fleet_alone(self, paused: bool, handle: Option<i32>)
        ensures
            self.with_paused(paused).wf() == self.wf(),
            self.toggled().wf() == self.wf(),
            self.with_handle(handle).wf() == self.wf(),
    {
    }

    /// A tick keeps the state in order: afterwards every vehicle still has a
    /// progress of less than a whole segment and two indices that are
    /// neighbouring waypoints of its route, the one ahead lying in the
    /// direction of travel.
    pub proof fn lemma_ticked_wf(self)
        requires
            self.wf(),
            routes_fit(self.routes),
        ensures
            self.ticked().wf(),
            self.ticked().vehicles.len() == self.vehicles.len(),
            forall|i: int|
                0 <= i < self.vehicles.len() ==> {
                    let v = #[trigger] self.ticked().vehicles[i];
                    let n = self.waypoints_of(i).len();
                    &&& 0 <= v.segment_progress < PROGRESS_SCALE
                    &&& v.last_waypoint_index < n
                    &&& v.next_waypoint_index < n
                    &&& v.next_waypoint_index == v.last_waypoint_index + v.direction
                },
    {
        assert forall|i: int| 0 <= i < self.vehicles.len() implies {
            let v = #[trigger] self.ticked().vehicles[i];
            let n = self.waypoints_of(i).len();
            &&& v.route_id == self.vehicles[i].route_id
            &&& v.wf(n as int)
        } by {
            let old_v = self.vehicles[i];
            assert(old_v.route_id < self.routes.len());
            self.vehicles[i].lemma_ticked_wf(self.waypoints_of(i));
        }
    }
}

impl SimulationState {
    /// An empty state: no routes, no vehicles, running, no frame requested.
    pub fn new() -> (state: SimulationState)
        ensures
            state@ == StateView::empty(),
            state@.wf(),
    {
        let state = SimulationState {
            routes: Vec::new(),
            vehicles: Vec::new(),
            is_paused: false,
            active_schedule_handle: None,
        };
        assert(state@.routes =~= Seq::empty());
        state
    }

    /// Replaces the routes and the vehicles and clears the pause flag.
    pub fn initialize(&mut self, routes: Vec<Route>, vehicles: Vec<Vehicle>)
        ensures
            final(self)@ == old(self)@.initialized(route_views(routes@), vehicles@),
    {
        self.routes = routes;
        self.vehicles = vehicles;
        self.is_paused = false;
    }

    /// Whether the simulation is paused.
    pub fn is_paused(&self) -> (paused: bool)
        ensures
            paused == self@.is_paused,
    {
        self.is_paused
    }

    /// Sets the pause flag.
    pub fn set_paused(&mut self, paused: bool)
        ensures
            final(self)@ == old(self)@.with_paused(paused),
    {
        self.is_paused = paused;
    }

    /// Flips the pause flag and returns its new value.
    pub fn toggle_pause(&mut self) -> (paused: bool)
        ensures
            final(self)@ == old(self)@.toggled(),
            paused == !old(self)@.is_paused,
    {
        self.is_paused = !self.is_paused;
        self.is_paused
    }

    /// The handle of the outstanding frame request, if there is one.
    pub fn get_schedule_handle(&self) -> (handle: Option<i32>)
        ensures
            handle == self@.active_schedule_handle,
    {
        self.active_schedule_handle
    }

    /// Records the handle of the frame request that was just made.
    pub fn set_schedule_handle(&mut self, handle: i32)
        ensures
            final(self)@ == old(self)@.with_handle(Some(handle)),
    {
        self.active_schedule_handle = Some(handle);
    }

    /// Whether every vehicle names one of the routes and is in order on it.
    /// The tick engine asks this of the state that it is given.
    pub fn is_well_formed(&self) -> (ok: bool)
        ensures
            ok == self@.wf(),
    {
        let mut j: usize = 0;
        while j < self.vehicles.len()
            invariant
                j <= self.vehicles@.len(),
                fleet_consistent(route_views(self.routes@), self.vehicles@.take(j as int)),
            decreases self.vehicles@.len() - j,
        {
            let vehicle = &self.vehicles[j];
            if vehicle.route_id >= self.routes.len() {
                return false;
            }
            assert(route_views(self.routes@)[vehicle.route_id as int]
                == self.routes@[vehicle.route_id as int]@);
            if !vehicle.is_in_order(self.routes[vehicle.route_id].waypoints.len()) {
                return false;
            }
            proof {
                let upto = self.vehicles@.take(j + 1);
                assert forall|i: int| 0 <= i < upto.len() implies {
                    &&& (#[trigger] upto[i]).route_id < route_views(self.routes@).len()
                    &&& upto[i].wf(
                        route_views(self.routes@)[upto[i].route_id as int].waypoints.len() as int,
                    )
                } by {
                    if i < j {
                        assert(self.vehicles@.take(j as int)[i] == upto[i]);
                    }
                }
            }
            j = j + 1;
        }
        proof {
            assert(self.vehicles@.take(j as int) =~= self.vehicles@);
        }
        true
    }

    /// Number of vehicles in the simulation.
    pub fn get_vehicle_count(&self) -> (count: usize)
        ensures
            count == self@.vehicles.len(),
    {
        self.vehicles.len()
    }
}

impl Default for SimulationState {
    fn default() -> (state: SimulationState)
        ensures
            state@ == StateView::empty(),
    {
        SimulationState::new()
    }
}

} // verus!
