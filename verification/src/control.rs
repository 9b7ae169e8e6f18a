//! The control interface: start, pause or resume, and reset.
//!
//! The functions here decide what happens to the state. What they ask of the
//! host, to request a frame or to cancel one, they hand back to the caller.

use vstd::prelude::*;
use crate::engine::after_frame;
use crate::fleet::{
    fleet, fleet_size, initialize_vehicles, lemma_fleet_len, lemma_fleet_members,
};
use crate::route::{ids_are_indices, route_views, routes_fit, Route, RouteView};
use crate::state::{SimulationState, StateView};

verus! {

/// The state after a start with the given routes and draws: the routes, the
/// fleet built on them, running.
pub open spec fn started(state: StateView, routes: Seq<RouteView>, draws: Seq<u64>) -> StateView {
    state.initialized(routes, fleet(routes, draws))
}

/// Starts the simulation on the given routes: puts a fresh fleet on them,
/// whatever the state held before, and clears the pause flag. The caller then
/// requests the first frame.
pub fn initialize_simulation(sim_state: &mut SimulationState, routes: Vec<Route>, draws: &[u64])
    requires
        draws@.len() >= 2 * fleet_size(route_views(routes@)),
    ensures
        final(sim_state)@ == started(old(sim_state)@, route_views(routes@), draws@),
        final(sim_state)@.vehicles.len() == fleet_size(route_views(routes@)),
        ids_are_indices(route_views(routes@)) ==> final(sim_state)@.wf(),
{
    let vehicles = initialize_vehicles(routes.as_slice(), draws);
    sim_state.initialize(routes, vehicles);
}

/// Pauses a running simulation, or resumes a paused one. Returns whether the
/// caller has to request a frame: it has when the simulation was resumed. A
/// frame that is outstanding while the simulation is paused sees the flag and
/// asks for no further one.
pub fn toggle_simulation(sim_state: &mut SimulationState) -> (restart: bool)
    ensures
        final(sim_state)@ == old(sim_state)@.toggled(),
        restart == old(sim_state)@.is_paused,
{
    let is_now_paused = sim_state.toggle_pause();
    !is_now_paused
}

/// Resets the simulation: starts it afresh on the given routes, with a fleet
/// from new draws. Returns the handle of the frame request that the caller
/// has to cancel, if one is on record.
pub fn reset_simulation(sim_state: &mut SimulationState, routes: Vec<Route>, draws: &[u64]) -> (cancel:
    Option<i32>)
    requires
        draws@.len() >= 2 * fleet_size(route_views(routes@)),
    ensures
        cancel == old(sim_state)@.active_schedule_handle,
        final(sim_state)@ == started(old(sim_state)@, route_views(routes@), draws@),
        final(sim_state)@.vehicles.len() == fleet_size(route_views(routes@)),
        ids_are_indices(route_views(routes@)) ==> final(sim_state)@.wf(),
{
    let cancel = sim_state.get_schedule_handle();
    initialize_simulation(sim_state, routes, draws);
    cancel
}

/// A start on routes that are numbered by their place leaves the state in
/// order, whatever it held before and whatever was drawn.
pub proof fn lemma_started_wf(before: StateView, routes: Seq<RouteView>, draws: Seq<u64>)
    requires
        ids_are_indices(routes),
        routes_fit(routes),
        fleet_size(routes) <= usize::MAX,
    ensures
        started(before, routes, draws).wf(),
{
    lemma_fleet_members(routes, draws);
}

/// Pausing and resuming, or resuming and pausing, leaves the state as it was:
/// the pause flag is back at its first value and no vehicle has moved.
pub proof fn lemma_toggle_twice(state: StateView)
    ensures
        state.toggled().toggled() == state,
        state.toggled().vehicles == state.vehicles,
        state.toggled().is_paused == !state.is_paused,
{
}

/// While the simulation is paused no frame moves a vehicle.
pub proof fn lemma_paused_frame_is_idle(state: StateView)
    requires
        state.is_paused,
    ensures
        after_frame(state) == state,
{
}

/// A reset gives as many vehicles as a first start on the same routes does,
/// whatever the state was before and whatever was drawn, and every field of
/// the new vehicles depends on the new draws only, not on the vehicles that
/// were there before.
pub proof fn lemma_reset_like_fresh_start(
    before: StateView,
    routes: Seq<RouteView>,
    draws_at_start: Seq<u64>,
    draws_at_reset: Seq<u64>,
)
    ensures
        started(before, routes, draws_at_reset).snapshot().len() == started(
            StateView::empty(),
            routes,
            draws_at_start,
        ).snapshot().len(),
        started(before, routes, draws_at_reset).vehicles == fleet(routes, draws_at_reset),
        started(before, routes, draws_at_reset).routes == routes,
        !started(before, routes, draws_at_reset).is_paused,
{
    lemma_fleet_len(routes, draws_at_start);
    lemma_fleet_len(routes, draws_at_reset);
}

} // verus!
