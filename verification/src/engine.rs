//! The tick engine and the render bridge: what happens on one animation
//! frame.

use vstd::prelude::*;
use crate::route::{lemma_route_views_fit, route_views, routes_fit};
use crate::state::{SimulationState, StateView, VehicleFeature};

verus! {

/// What the host has to do after a frame.
#[derive(Clone, Debug, PartialEq, Eq)]
pub struct FrameOutcome {
    /// The vehicle records to hand to the renderer, which replace all that it
    /// had. `None` where the frame made no tick.
    pub features: Option<Vec<VehicleFeature>>,
    /// Whether the next frame is to be requested.
    pub request_next: bool,
}

/// Moves every vehicle by one tick along its route.
pub fn update_vehicle_positions(sim_state: &mut SimulationState)
    requires
        old(sim_state)@.wf(),
    ensures
        final(sim_state)@ == old(sim_state)@.ticked(),
        final(sim_state)@.wf(),
{
    let ghost start = sim_state@;
    let count = sim_state.vehicles.len();
    let mut i: usize = 0;
    while i < count
        invariant
            i <= count,
            count == start.vehicles.len(),
            start.wf(),
            sim_state@.routes == start.routes,
            sim_state@.is_paused == start.is_paused,
            sim_state@.active_schedule_handle == start.active_schedule_handle,
            sim_state@.vehicles.len() == count,
            forall|j: int| 0 <= j < i ==> sim_state@.vehicles[j] == start.ticked().vehicles[j],
            forall|j: int| i <= j < count ==> sim_state@.vehicles[j] == start.vehicles[j],
        decreases count - i,
    {
        let mut vehicle = sim_state.vehicles[i];
        assert(vehicle == start.vehicles[i as int]);
        assert(route_views(sim_state.routes@)[vehicle.route_id as int]
            == sim_state.routes@[vehicle.route_id as int]@);
        let route = &sim_state.routes[vehicle.route_id];
        vehicle.advance(&route.waypoints);
        sim_state.vehicles[i] = vehicle;
        i = i + 1;
    }
    proof {
        assert(sim_state@.vehicles =~= start.ticked().vehicles);
        lemma_route_views_fit(sim_state.routes@);
        start.lemma_ticked_wf();
    }
}

/// The render bridge: one record for each vehicle, in the order of the
/// vehicles. The renderer replaces all that it had by these.
pub fn snapshot(sim_state: &SimulationState) -> (features: Vec<VehicleFeature>)
    ensures
        features@ == sim_state@.snapshot(),
        features@.len() == sim_state@.vehicles.len(),
{
    let mut features: Vec<VehicleFeature> = Vec::new();
    let mut i: usize = 0;
    while i < sim_state.vehicles.len()
        invariant
            i <= sim_state.vehicles@.len(),
            features@ == sim_state@.snapshot().take(i as int),
        decreases sim_state.vehicles@.len() - i,
    {
        let vehicle = &sim_state.vehicles[i];
        features.push(
            VehicleFeature {
                id: vehicle.id,
                vehicle_class: vehicle.vehicle_class,
                position: vehicle.current_position,
            },
        );
        proof {
            let all = sim_state@.snapshot();
            assert(all.take(i + 1) =~= all.take(i as int).push(all[i as int]));
        }
        i = i + 1;
    }
    proof {
        let all = sim_state@.snapshot();
        assert(all.take(i as int) =~= all);
    }
    features
}

/// The state after a frame: one tick later while the simulation runs,
/// unchanged while it is paused.
pub open spec fn after_frame(state: StateView) -> StateView {
    if state.is_paused {
        state
    } else {
        state.ticked()
    }
}

/// A frame keeps the state in order, whether it makes a tick or not.
pub proof fn lemma_after_frame_wf(state: StateView)
    requires
        state.wf(),
        routes_fit(state.routes),
    ensures
        after_frame(state).wf(),
        after_frame(state).routes == state.routes,
        after_frame(state).is_paused == state.is_paused,
        after_frame(state).active_schedule_handle == state.active_schedule_handle,
        after_frame(state).vehicles.len() == state.vehicles.len(),
{
    state.lemma_ticked_wf();
}

/// One animation frame. While the simulation runs, the frame makes one tick,
/// hands out the new positions of all vehicles and asks for the next frame.
/// While it is paused, the frame changes nothing, hands out nothing and asks
/// for no further frame.
pub fn animation_frame(sim_state: &mut SimulationState) -> (outcome: FrameOutcome)
    requires
        old(sim_state)@.wf(),
    ensures
        final(sim_state)@ == after_frame(old(sim_state)@),
        final(sim_state)@.wf(),
        outcome.request_next == !old(sim_state)@.is_paused,
        old(sim_state)@.is_paused ==> outcome.features is None,
        !old(sim_state)@.is_paused ==> outcome.features is Some && outcome.features->0@
            == old(sim_state)@.ticked().snapshot(),
{
    let mut features: Option<Vec<VehicleFeature>> = None;
    if !sim_state.is_paused {
        update_vehicle_positions(sim_state);
        features = Some(snapshot(sim_state));
    }
    FrameOutcome { features, request_next: !sim_state.is_paused }
}

/// The state after the host has answered a request for a frame: with the
/// new handle where it gave one, unchanged where it gave none.
pub open spec fn after_frame_request(state: StateView, answer: Option<i32>) -> StateView {
    match answer {
        Some(id) => state.with_handle(Some(id)),
        None => state,
    }
}

/// Takes note of the host's answer to a request for a frame. Where the host
/// gave a handle it is put on record, so that a reset can cancel the frame.
/// Where it gave none, no frame is outstanding: the loop has stopped, the
/// state stays as it is, and the caller reports it. Returns whether the loop
/// goes on.
pub fn record_frame_request(sim_state: &mut SimulationState, answer: Option<i32>) -> (running: bool)
    ensures
        final(sim_state)@ == after_frame_request(old(sim_state)@, answer),
        running == answer is Some,
{
    match answer {
        Some(id) => {
            sim_state.set_schedule_handle(id);
            true
        },
        None => false,
    }
}

} // verus!
