use tfl_simulation::control::{initialize_simulation, reset_simulation, toggle_simulation};
use tfl_simulation::engine::{animation_frame, record_frame_request, snapshot};
use tfl_simulation::fleet::{draws_needed, initialize_vehicles};
use tfl_simulation::geometry::{Waypoint, PROGRESS_SCALE};
use tfl_simulation::route::{build_routes, build_sample_routes, Route};
use tfl_simulation::state::SimulationState;
use tfl_simulation::vehicle::VehicleType;

fn train_route() -> Vec<Route> {
    vec![Route {
        id: 0,
        name: "shuttle".to_string(),
        vehicle_class: VehicleType::Train,
        waypoints: vec![
            Waypoint { lng: 0, lat: 0 },
            Waypoint { lng: 1_000_000, lat: 0 },
            Waypoint { lng: 2_000_000, lat: 1_000_000 },
        ],
    }]
}

fn draws(seed: u64, n: usize) -> Vec<u64> {
    // a fixed scramble, so that two seeds give two lists
    let mut x = seed.wrapping_mul(6364136223846793005).wrapping_add(1442695040888963407);
    (0..n)
        .map(|_| {
            x ^= x << 13;
            x ^= x >> 7;
            x ^= x << 17;
            x
        })
        .collect()
}

#[test]
fn new_state_is_empty_and_running() {
    let state = SimulationState::new();
    assert!(state.routes.is_empty());
    assert!(state.vehicles.is_empty());
    assert!(!state.is_paused());
    assert_eq!(state.get_schedule_handle(), None);
    assert_eq!(state.get_vehicle_count(), 0);
    assert_eq!(SimulationState::default(), state);
}

#[test]
fn store_operations() {
    let mut state = SimulationState::new();
    state.set_paused(true);
    assert!(state.is_paused());
    state.set_paused(true);
    assert!(state.is_paused());
    assert!(!state.toggle_pause());
    assert!(!state.is_paused());
    assert!(state.toggle_pause());
    state.set_schedule_handle(5);
    assert_eq!(state.get_schedule_handle(), Some(5));
    let routes = train_route();
    let vehicles = initialize_vehicles(&routes, &draws(1, 20));
    state.initialize(routes.clone(), vehicles.clone());
    assert_eq!(state.routes, routes);
    assert_eq!(state.vehicles, vehicles);
    assert!(!state.is_paused());
    assert_eq!(state.get_schedule_handle(), Some(5));
    assert_eq!(state.get_vehicle_count(), 10);
}

#[test]
fn initialize_builds_the_configured_fleet() {
    let mut state = SimulationState::new();
    initialize_simulation(&mut state, train_route(), &draws(3, 20));
    assert_eq!(state.get_vehicle_count(), 10);
    assert_eq!(state.vehicles.iter().filter(|v| v.direction == 1).count(), 5);
    assert_eq!(state.vehicles.iter().filter(|v| v.direction == -1).count(), 5);
    for (i, v) in state.vehicles.iter().enumerate() {
        if i % 2 == 0 {
            assert_eq!(v.last_waypoint_index, 0);
            assert_eq!(v.direction, 1);
        } else {
            assert_eq!(v.last_waypoint_index, 2);
            assert_eq!(v.direction, -1);
        }
    }
    assert_eq!(state.vehicles, initialize_vehicles(&train_route(), &draws(3, 20)));
    assert_eq!(state.routes, train_route());
    assert!(!state.is_paused());
    assert!(state.is_well_formed());
}

#[test]
fn initialize_again_rebuilds() {
    let mut state = SimulationState::new();
    initialize_simulation(&mut state, build_sample_routes(), &draws(1, 80));
    assert_eq!(state.get_vehicle_count(), 40);
    state.set_paused(true);
    state.set_schedule_handle(11);
    initialize_simulation(&mut state, train_route(), &draws(2, 20));
    assert_eq!(state.get_vehicle_count(), 10);
    assert_eq!(state.routes, train_route());
    assert!(!state.is_paused());
    assert_eq!(state.get_schedule_handle(), Some(11));
}

#[test]
fn toggle_twice_restores_the_state() {
    let mut state = SimulationState::new();
    initialize_simulation(&mut state, train_route(), &draws(4, 20));
    animation_frame(&mut state);
    let before = state.clone();

    let restart = toggle_simulation(&mut state);
    assert!(!restart);
    assert!(state.is_paused());
    assert_eq!(state.vehicles, before.vehicles);
    // a frame that was outstanding fires while paused: nothing moves
    let outcome = animation_frame(&mut state);
    assert!(!outcome.request_next);
    assert_eq!(outcome.features, None);
    assert_eq!(state.vehicles, before.vehicles);

    let restart = toggle_simulation(&mut state);
    assert!(restart);
    assert_eq!(state, before);

    // and from the paused side
    state.set_paused(true);
    let paused = state.clone();
    assert!(toggle_simulation(&mut state));
    assert!(!toggle_simulation(&mut state));
    assert_eq!(state, paused);
}

#[test]
fn reset_gives_a_fresh_fleet_of_the_same_size() {
    let mut fresh = SimulationState::new();
    initialize_simulation(&mut fresh, build_sample_routes(), &draws(5, 80));
    let fresh_count = snapshot(&fresh).len();

    let mut state = SimulationState::new();
    initialize_simulation(&mut state, build_sample_routes(), &draws(6, 80));
    for _ in 0..250 {
        animation_frame(&mut state);
    }
    assert!(record_frame_request(&mut state, Some(42)));
    let before = state.vehicles.clone();

    let cancel = reset_simulation(&mut state, build_sample_routes(), &draws(7, 80));
    assert_eq!(cancel, Some(42));
    assert_eq!(snapshot(&state).len(), fresh_count);
    assert_eq!(state.get_vehicle_count(), 40);
    assert!(!state.is_paused());
    assert!(state.is_well_formed());
    // every field is drawn anew
    assert_eq!(state.vehicles, initialize_vehicles(&build_sample_routes(), &draws(7, 80)));
    assert_ne!(state.vehicles, before);
    assert!(state
        .vehicles
        .iter()
        .zip(fresh.vehicles.iter())
        .any(|(a, b)| a.segment_progress != b.segment_progress || a.speed != b.speed));
    // the positions are back at the ends of the routes
    for v in &state.vehicles {
        let waypoints = &state.routes[v.route_id].waypoints;
        assert_eq!(v.current_position, waypoints[v.last_waypoint_index]);
    }
}

#[test]
fn reset_without_outstanding_frame_cancels_nothing() {
    let mut state = SimulationState::new();
    assert_eq!(reset_simulation(&mut state, train_route(), &draws(8, 20)), None);
    assert_eq!(state.get_vehicle_count(), 10);
}

#[test]
fn reset_while_paused_resumes() {
    let mut state = SimulationState::new();
    initialize_simulation(&mut state, train_route(), &draws(9, 20));
    assert!(!toggle_simulation(&mut state));
    reset_simulation(&mut state, train_route(), &draws(10, 20));
    assert!(!state.is_paused());
    assert!(animation_frame(&mut state).request_next);
}

#[test]
fn invariants_hold_over_many_frames() {
    let routes = build_routes(None);
    let needed = draws_needed(&routes).unwrap();
    let mut state = SimulationState::new();
    initialize_simulation(&mut state, routes, &draws(11, needed));
    // make some of them fast enough to pass several waypoints in a tick
    for (i, v) in state.vehicles.iter_mut().enumerate() {
        if i % 3 == 0 {
            v.speed = 2_500_000 + 333_333 * i as u64;
        }
    }
    for _ in 0..2_000 {
        let outcome = animation_frame(&mut state);
        assert!(outcome.request_next);
        assert_eq!(outcome.features.unwrap().len(), 40);
        for v in &state.vehicles {
            let n = state.routes[v.route_id].waypoints.len();
            assert!(v.segment_progress < PROGRESS_SCALE);
            assert!(v.last_waypoint_index < n);
            assert!(v.next_waypoint_index < n);
            assert_eq!(
                v.next_waypoint_index as i64,
                v.last_waypoint_index as i64 + v.direction as i64
            );
        }
    }
    assert!(state.is_well_formed());
}
