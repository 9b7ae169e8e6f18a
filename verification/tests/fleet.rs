use tfl_simulation::fleet::{
    draws_needed, initialize_vehicles, vehicles_per_route, BUSES_PER_ROUTE, MIN_SPEED, SPEED_SPAN,
    TRAINS_PER_ROUTE,
};
use tfl_simulation::geometry::{Waypoint, PROGRESS_SCALE};
use tfl_simulation::route::{build_sample_routes, Route};
use tfl_simulation::vehicle::{Vehicle, VehicleType};

fn route(id: usize, class: VehicleType, n: usize) -> Route {
    Route {
        id,
        name: format!("line {}", id),
        vehicle_class: class,
        waypoints: (0..n)
            .map(|i| Waypoint { lng: 100 * (id as i64 + 1) + i as i64, lat: -(i as i64) })
            .collect(),
    }
}

#[test]
fn policy_constants() {
    assert_eq!(TRAINS_PER_ROUTE, 10);
    assert_eq!(BUSES_PER_ROUTE, 20);
    assert_eq!(MIN_SPEED, 5_000);
    assert_eq!(SPEED_SPAN, 10_000);
    assert_eq!(PROGRESS_SCALE, 1_000_000);
    assert_eq!(vehicles_per_route(VehicleType::Train), 10);
    assert_eq!(vehicles_per_route(VehicleType::Bus), 20);
}

#[test]
fn one_train_route_of_three_waypoints() {
    let routes = vec![route(0, VehicleType::Train, 3)];
    assert_eq!(draws_needed(&routes), Some(20));
    let draws: Vec<u64> = (0..20).map(|i| 1000 * i + 7).collect();
    let vehicles = initialize_vehicles(&routes, &draws);
    assert_eq!(vehicles.len(), 10);
    let forward: Vec<&Vehicle> = vehicles.iter().filter(|v| v.direction == 1).collect();
    let backward: Vec<&Vehicle> = vehicles.iter().filter(|v| v.direction == -1).collect();
    assert_eq!(forward.len(), 5);
    assert_eq!(backward.len(), 5);
    for (i, v) in vehicles.iter().enumerate() {
        assert_eq!(v.id, i);
        assert_eq!(v.route_id, 0);
        assert_eq!(v.vehicle_class, VehicleType::Train);
        if i % 2 == 0 {
            assert_eq!((v.last_waypoint_index, v.next_waypoint_index, v.direction), (0, 1, 1));
            assert_eq!(v.current_position, routes[0].waypoints[0]);
        } else {
            assert_eq!((v.last_waypoint_index, v.next_waypoint_index, v.direction), (2, 1, -1));
            assert_eq!(v.current_position, routes[0].waypoints[2]);
        }
        assert_eq!(v.segment_progress, 1000 * (2 * i as u64) + 7);
        assert_eq!(v.speed, 5_000 + (1000 * (2 * i as u64 + 1) + 7) % 10_000);
        assert!(v.is_in_order(3));
    }
}

#[test]
fn draws_are_reduced_into_range() {
    let routes = vec![route(0, VehicleType::Train, 2)];
    let mut draws = vec![0u64; 20];
    draws[0] = 3_141_592_653;
    draws[1] = 123_456_789;
    draws[2] = u64::MAX;
    draws[3] = u64::MAX;
    draws[4] = 999_999;
    draws[5] = 9_999;
    draws[6] = 1_000_000;
    draws[7] = 10_000;
    let vehicles = initialize_vehicles(&routes, &draws);
    assert_eq!(vehicles[0].segment_progress, 592_653);
    assert_eq!(vehicles[0].speed, 11_789);
    assert_eq!(vehicles[1].segment_progress, 551_615);
    assert_eq!(vehicles[1].speed, 6_615);
    assert_eq!(vehicles[2].segment_progress, 999_999);
    assert_eq!(vehicles[2].speed, 14_999);
    assert_eq!(vehicles[3].segment_progress, 0);
    assert_eq!(vehicles[3].speed, 5_000);
    for v in &vehicles {
        assert!(v.segment_progress < PROGRESS_SCALE);
        assert!(v.speed >= MIN_SPEED && v.speed < MIN_SPEED + SPEED_SPAN);
    }
    // on two waypoints the backward vehicles start at the second
    assert_eq!((vehicles[1].last_waypoint_index, vehicles[1].next_waypoint_index), (1, 0));
}

#[test]
fn bus_routes_get_twenty() {
    let routes = vec![route(0, VehicleType::Bus, 5)];
    assert_eq!(draws_needed(&routes), Some(40));
    let vehicles = initialize_vehicles(&routes, &vec![1u64; 40]);
    assert_eq!(vehicles.len(), 20);
    assert!(vehicles.iter().all(|v| v.vehicle_class == VehicleType::Bus));
    assert_eq!(vehicles[19].last_waypoint_index, 4);
    assert_eq!(vehicles[19].next_waypoint_index, 3);
}

#[test]
fn degenerate_routes_are_skipped() {
    let routes = vec![
        route(0, VehicleType::Train, 1),
        route(1, VehicleType::Bus, 0),
        route(2, VehicleType::Train, 4),
        route(3, VehicleType::Bus, 1),
        route(4, VehicleType::Bus, 2),
    ];
    assert_eq!(draws_needed(&routes), Some(60));
    let draws: Vec<u64> = (0..60).collect();
    let vehicles = initialize_vehicles(&routes, &draws);
    assert_eq!(vehicles.len(), 30);
    for (i, v) in vehicles.iter().enumerate() {
        assert_eq!(v.id, i);
        assert_eq!(v.route_id, if i < 10 { 2 } else { 4 });
        assert_eq!(v.segment_progress, 2 * i as u64);
        assert_eq!(v.speed, 5_000 + 2 * i as u64 + 1);
    }
    assert_eq!(vehicles[10].current_position, routes[4].waypoints[0]);
    assert_eq!(vehicles[11].current_position, routes[4].waypoints[1]);
    assert_eq!(initialize_vehicles(&routes[..2], &[]), vec![]);
    assert_eq!(draws_needed(&routes[..2]), Some(0));
    assert_eq!(draws_needed(&[]), Some(0));
}

#[test]
fn more_draws_than_needed_are_left_alone() {
    let routes = vec![route(0, VehicleType::Train, 3)];
    let short: Vec<u64> = (0..20).collect();
    let long: Vec<u64> = (0..50).collect();
    assert_eq!(initialize_vehicles(&routes, &short), initialize_vehicles(&routes, &long));
}

#[test]
fn sample_fleet() {
    let routes = build_sample_routes();
    assert_eq!(draws_needed(&routes), Some(80));
    let draws: Vec<u64> = (0..80).map(|i| i * 7919).collect();
    let vehicles = initialize_vehicles(&routes, &draws);
    assert_eq!(vehicles.len(), 40);
    assert_eq!(vehicles.iter().filter(|v| v.vehicle_class == VehicleType::Train).count(), 20);
    assert_eq!(vehicles.iter().filter(|v| v.route_id == 2).count(), 20);
    assert_eq!(vehicles[10].route_id, 1);
    assert_eq!(vehicles[11].last_waypoint_index, 20);
    assert_eq!(vehicles[11].next_waypoint_index, 19);
    assert_eq!(vehicles[11].current_position, Waypoint { lng: -105_200, lat: 51_494_400 });
    assert_eq!(vehicles[39].last_waypoint_index, 19);
    assert_eq!(vehicles[39].current_position, Waypoint { lng: 55_000, lat: 51_490_500 });
}
