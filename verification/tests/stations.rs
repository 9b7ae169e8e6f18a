use tfl_simulation::geometry::Waypoint;
use tfl_simulation::stations::{Station, StationType};

fn terminus() -> Station {
    Station::new(
        "Elephant & Castle".to_string(),
        Waypoint { lng: -105_200, lat: 51_494_400 },
        StationType::TubeStation,
    )
}

#[test]
fn new_station_is_served_by_nothing() {
    let station = terminus();
    assert_eq!(station.name, "Elephant & Castle");
    assert_eq!(station.coordinates, Waypoint { lng: -105_200, lat: 51_494_400 });
    assert_eq!(station.station_type, StationType::TubeStation);
    assert!(station.tube_lines.is_empty());
    assert!(station.bus_routes.is_empty());
    assert!(!station.is_terminus);
    assert!(!station.is_interchange);
    assert!(!station.is_interchange());
}

#[test]
fn lines_and_routes_are_held_once() {
    let mut station = terminus();
    station.add_tube_line("Northern Line");
    assert!(!station.is_interchange());
    station.add_tube_line("Northern Line");
    assert_eq!(station.tube_lines, vec!["Northern Line".to_string()]);
    assert!(!station.is_interchange());
    station.add_tube_line("Bakerloo Line");
    station.add_tube_line("Northern Line");
    assert_eq!(
        station.tube_lines,
        vec!["Northern Line".to_string(), "Bakerloo Line".to_string()]
    );
    assert!(station.is_interchange());

    station.add_bus_route(88);
    station.add_bus_route(-1);
    station.add_bus_route(88);
    assert_eq!(station.bus_routes, vec![88, -1]);
    assert_eq!(station.name, "Elephant & Castle");
    assert_eq!(station.station_type, StationType::TubeStation);
}

#[test]
fn interchange_counts_lines_and_routes_together() {
    let mut bus_stop = Station::new(
        "Camden Town".to_string(),
        Waypoint { lng: -146_500, lat: 51_536_500 },
        StationType::BusStop,
    );
    bus_stop.add_bus_route(88);
    assert!(!bus_stop.is_interchange());
    bus_stop.add_tube_line("Northern Line");
    assert!(bus_stop.is_interchange());

    let mut two_buses = terminus();
    two_buses.add_bus_route(1);
    two_buses.add_bus_route(2);
    assert!(two_buses.is_interchange());
    // the flag is set by the caller, the method counts
    assert!(!two_buses.is_interchange);
}
