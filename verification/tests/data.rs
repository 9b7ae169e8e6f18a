use tfl_simulation::data::{
    filter_valid_stations, group_platforms_by_station, LineGeometry, Platform, PlatformGroup,
    Station, TflDataRepository,
};
use tfl_simulation::geometry::Waypoint;
use tfl_simulation::map_helpers::{create_line_stations_map, get_line_color, LineStations};
use tfl_simulation::route::{build_routes, build_routes_from_tfl_data, build_sample_routes, Route};
use tfl_simulation::vehicle::VehicleType;

fn station(id: &str, name: &str, lat: i64, lon: i64) -> Station {
    Station {
        station_unique_id: id.to_string(),
        station_name: name.to_string(),
        fare_zones: "1".to_string(),
        hub_naptan_code: None,
        wifi: true,
        outside_station_unique_id: format!("{}-outside", id),
        lat,
        lon,
        component_stations: vec![],
    }
}

fn platform(id: &str, station_id: &str, line: &str) -> Platform {
    Platform {
        platform_unique_id: id.to_string(),
        station_unique_id: station_id.to_string(),
        platform_number: Some("1".to_string()),
        cardinal_direction: None,
        platform_naptan_code: None,
        platform_friendly_name: format!("platform {}", id),
        is_customer_facing: true,
        has_service_interchange: false,
        station_name: format!("station {}", station_id),
        fare_zones: "1".to_string(),
        hub_naptan_code: None,
        wifi: false,
        outside_station_unique_id: String::new(),
        stop_area_naptan_code: String::new(),
        line: line.to_string(),
        direction_towards: None,
        platform_service_group_name: None,
    }
}

fn chain(n: usize) -> Vec<Waypoint> {
    (0..n).map(|i| Waypoint { lng: i as i64, lat: 2 * i as i64 }).collect()
}

fn line(id: &str, class: VehicleType, n: usize) -> LineGeometry {
    LineGeometry { line_id: id.to_string(), vehicle_class: class, line_strings: vec![chain(n)] }
}

fn repository() -> TflDataRepository {
    TflDataRepository::initialize(
        vec![
            station("bank", "Bank", 51_513_300, -88_600),
            station("lost", "Nowhere", 0, -88_600),
            station("oxc", "Oxford Circus", 51_515_200, -141_900),
            station("stp", "St. Paul's", 51_514_600, -97_400),
            station("bank", "Bank and Monument", 51_513_300, -88_700),
            station("null-island", "Null Island", 0, 0),
        ],
        vec![
            platform("plat1", "bank", "central"),
            platform("plat2", "oxc", "central"),
            platform("plat3", "bank", "northern"),
            platform("plat4", "oxc", "victoria"),
            platform("plat5", "ghost", "central"),
            platform("plat6", "stp", "central"),
            platform("plat7", "bank", "waterloo-city"),
        ],
        vec![line("central", VehicleType::Train, 4)],
    )
}

#[test]
fn line_colours() {
    assert_eq!(get_line_color("bakerloo"), "#B36305");
    assert_eq!(get_line_color("central"), "#E32017");
    assert_eq!(get_line_color("circle"), "#FFD300");
    assert_eq!(get_line_color("district"), "#00782A");
    assert_eq!(get_line_color("dlr"), "#00A4A7");
    assert_eq!(get_line_color("elizabeth"), "#6950A1");
    assert_eq!(get_line_color("hammersmith-city"), "#F3A9BB");
    assert_eq!(get_line_color("jubilee"), "#A0A5A9");
    assert_eq!(get_line_color("london-cable-car"), "#AF174C");
    assert_eq!(get_line_color("london-overground"), "#EE7C0E");
    assert_eq!(get_line_color("metropolitan"), "#9B0056");
    assert_eq!(get_line_color("northern"), "#000000");
    assert_eq!(get_line_color("piccadilly"), "#003688");
    assert_eq!(get_line_color("thameslink"), "#C1007C");
    assert_eq!(get_line_color("tram"), "#84B817");
    assert_eq!(get_line_color("victoria"), "#0098D4");
    assert_eq!(get_line_color("waterloo-city"), "#95CDBA");
    assert_eq!(get_line_color("liberty"), "#4C6366");
    assert_eq!(get_line_color("lioness"), "#FFA32B");
    assert_eq!(get_line_color("mildmay"), "#088ECC");
    assert_eq!(get_line_color("suffragette"), "#59C274");
    assert_eq!(get_line_color("weaver"), "#B43983");
    assert_eq!(get_line_color("windrush"), "#FF2E24");
}

#[test]
fn unknown_lines_are_white() {
    assert_eq!(get_line_color("Central"), "#FFFFFF");
    assert_eq!(get_line_color("central "), "#FFFFFF");
    assert_eq!(get_line_color(""), "#FFFFFF");
    assert_eq!(get_line_color("national-rail"), "#FFFFFF");
    assert_eq!(get_line_color("#E32017"), "#FFFFFF");
}

#[test]
fn stations_without_a_place_are_dropped() {
    let kept = filter_valid_stations(vec![
        station("a", "A", 1, 1),
        station("b", "B", 0, 1),
        station("c", "C", 1, 0),
        station("d", "D", 0, 0),
        station("e", "E", -1, -1),
    ]);
    assert_eq!(kept, vec![station("a", "A", 1, 1), station("e", "E", -1, -1)]);
    assert_eq!(filter_valid_stations(vec![]), vec![]);
}

#[test]
fn platforms_are_grouped_by_station() {
    let groups = group_platforms_by_station(vec![
        platform("plat1", "bank", "central"),
        platform("plat2", "oxc", "central"),
        platform("plat3", "bank", "northern"),
        platform("plat4", "bank", "central"),
        platform("plat5", "oxc", "victoria"),
    ]);
    assert_eq!(
        groups,
        vec![
            PlatformGroup {
                station_id: "bank".to_string(),
                platforms: vec![
                    platform("plat1", "bank", "central"),
                    platform("plat3", "bank", "northern"),
                    platform("plat4", "bank", "central"),
                ],
            },
            PlatformGroup {
                station_id: "oxc".to_string(),
                platforms: vec![
                    platform("plat2", "oxc", "central"),
                    platform("plat5", "oxc", "victoria"),
                ],
            },
        ]
    );
    assert_eq!(group_platforms_by_station(vec![]), vec![]);
}

#[test]
fn repository_is_made_of_what_was_loaded() {
    let repository = repository();
    assert!(repository.is_loaded);
    assert_eq!(repository.stations.len(), 4);
    assert_eq!(repository.platforms_by_station.len(), 4);
    assert_eq!(repository.line_geometries, vec![line("central", VehicleType::Train, 4)]);
    let empty = TflDataRepository::default();
    assert!(!empty.is_loaded);
    assert!(empty.stations.is_empty());
    assert!(empty.platforms_by_station.is_empty());
    assert!(empty.line_geometries.is_empty());
}

#[test]
fn station_lookup() {
    let repository = repository();
    assert_eq!(repository.get_station("oxc").unwrap().station_name, "Oxford Circus");
    // a later record of the same id replaces the earlier one
    assert_eq!(repository.get_station("bank").unwrap().station_name, "Bank and Monument");
    assert_eq!(repository.get_station("lost"), None);
    assert_eq!(repository.get_station("ban"), None);
    assert_eq!(repository.get_station(""), None);
    assert_eq!(TflDataRepository::default().get_station("bank"), None);
}

#[test]
fn platforms_of_a_station() {
    let repository = repository();
    let ids: Vec<&str> = repository
        .get_platforms_for_station("bank")
        .iter()
        .map(|p| p.platform_unique_id.as_str())
        .collect();
    assert_eq!(ids, vec!["plat1", "plat3", "plat7"]);
    assert_eq!(repository.get_platforms_for_station("ghost").len(), 1);
    assert!(repository.get_platforms_for_station("nothing").is_empty());
    assert!(repository.get_platforms_for_station("").is_empty());
}

#[test]
fn stations_of_a_line() {
    let repository = repository();
    let names = |line: &str| -> Vec<String> {
        repository.get_stations_for_line(line).iter().map(|s| s.station_name.clone()).collect()
    };
    // "ghost" has a platform on the line but is no known station
    assert_eq!(names("central"), vec!["Bank and Monument", "Oxford Circus", "St. Paul's"]);
    assert_eq!(names("northern"), vec!["Bank and Monument"]);
    assert_eq!(names("victoria"), vec!["Oxford Circus"]);
    assert!(names("jubilee").is_empty());
    assert!(names("").is_empty());
}

#[test]
fn line_stations_are_listed_in_order_and_once() {
    let listed = create_line_stations_map(&[
        platform("plat1", "940GZZLUOXC", "central"),
        platform("plat2", "940GZZLUBNK", "central"),
        platform("plat3", "910GLIVST", "national-rail"),
        platform("plat4", "940GZZLUBNK", "northern"),
        platform("plat5", "940GZZLUOXC", "central"),
        platform("plat6", "940GZZLUSTP", ""),
        platform("plat7", "940GZZLUBND", "central"),
        platform("plat8", "940GZZLUBN", "central"),
        platform("plat9", "940GZZLUOXC", "victoria"),
        platform("plat10", "940GZZLUAGL", "northern"),
        platform("plat11", "940gzzlubnk", "central"),
        platform("plat12", "", "central"),
    ]);
    let ids = |ids: &[&str]| -> Vec<String> { ids.iter().map(|s| s.to_string()).collect() };
    assert_eq!(
        listed,
        vec![
            LineStations {
                line: "central".to_string(),
                station_ids: ids(&[
                    "",
                    "940GZZLUBN",
                    "940GZZLUBND",
                    "940GZZLUBNK",
                    "940GZZLUOXC",
                    "940gzzlubnk"
                ]),
            },
            LineStations {
                line: "northern".to_string(),
                station_ids: ids(&["940GZZLUAGL", "940GZZLUBNK"]),
            },
            LineStations {
                line: "victoria".to_string(),
                station_ids: ids(&["940GZZLUOXC"]),
            },
        ]
    );
    assert_eq!(create_line_stations_map(&[]), vec![]);
    assert_eq!(create_line_stations_map(&[platform("plat", "s", "national-rail")]), vec![]);
}

#[test]
fn line_stations_agree_with_sort_and_dedup() {
    let station_ids = ["é", "z", "a", "é", "Z", "ab", "a", "", "😀", "aa", "~", "b"];
    let platforms: Vec<Platform> =
        station_ids.iter().map(|id| platform("plat", id, "tram")).collect();
    let mut expected: Vec<String> = station_ids.iter().map(|s| s.to_string()).collect();
    expected.sort();
    expected.dedup();
    let listed = create_line_stations_map(&platforms);
    assert_eq!(listed.len(), 1);
    assert_eq!(listed[0].line, "tram");
    assert_eq!(listed[0].station_ids, expected);
}

#[test]
fn sample_routes() {
    let routes = build_sample_routes();
    assert_eq!(routes.len(), 3);
    let summary: Vec<(usize, &str, VehicleType, usize)> = routes
        .iter()
        .map(|r| (r.id, r.name.as_str(), r.vehicle_class, r.waypoints.len()))
        .collect();
    assert_eq!(
        summary,
        vec![
            (0, "Central Line", VehicleType::Train, 24),
            (1, "Northern Line", VehicleType::Train, 21),
            (2, "Bus 88", VehicleType::Bus, 20),
        ]
    );
    assert_eq!(routes[0].waypoints[0], Waypoint { lng: -281_000, lat: 51_517_000 });
    assert_eq!(routes[0].waypoints[23], Waypoint { lng: -76_500, lat: 51_510_800 });
    assert_eq!(routes[1].waypoints[0], Waypoint { lng: -193_800, lat: 51_650_300 });
    assert_eq!(routes[1].waypoints[20], Waypoint { lng: -105_200, lat: 51_494_400 });
    assert_eq!(routes[2].waypoints[0], Waypoint { lng: -146_500, lat: 51_536_500 });
    assert_eq!(routes[2].waypoints[14], Waypoint { lng: 5_000, lat: 51_498_000 });
    assert_eq!(routes[2].waypoints[19], Waypoint { lng: 55_000, lat: 51_490_500 });
    assert_eq!(build_routes(None), routes);
}

#[test]
fn routes_from_lines_skip_those_without_a_segment() {
    let mut repository = TflDataRepository::default();
    repository.line_geometries = vec![
        line("bakerloo", VehicleType::Train, 3),
        line("stub", VehicleType::Train, 1),
        line("empty", VehicleType::Bus, 0),
        line("25", VehicleType::Bus, 2),
    ];
    let routes = build_routes_from_tfl_data(&repository);
    assert_eq!(
        routes,
        vec![
            Route {
                id: 0,
                name: "bakerloo".to_string(),
                vehicle_class: VehicleType::Train,
                waypoints: chain(3),
            },
            Route {
                id: 1,
                name: "25".to_string(),
                vehicle_class: VehicleType::Bus,
                waypoints: chain(2),
            },
        ]
    );
    assert_eq!(build_routes(Some(&repository)), routes);
    assert_eq!(build_routes(Some(&TflDataRepository::default())), vec![]);
}

#[test]
fn routes_run_on_the_longest_line_string() {
    let reversed = |n: usize| -> Vec<Waypoint> { chain(n).into_iter().rev().collect() };
    let mut repository = TflDataRepository::default();
    repository.line_geometries = vec![
        LineGeometry {
            line_id: "district".to_string(),
            vehicle_class: VehicleType::Train,
            line_strings: vec![chain(2), reversed(5), chain(3), chain(5), vec![]],
        },
        LineGeometry {
            line_id: "nothing".to_string(),
            vehicle_class: VehicleType::Train,
            line_strings: vec![],
        },
        LineGeometry {
            line_id: "points".to_string(),
            vehicle_class: VehicleType::Bus,
            line_strings: vec![chain(1), vec![], reversed(1)],
        },
        LineGeometry {
            line_id: "tram".to_string(),
            vehicle_class: VehicleType::Train,
            line_strings: vec![vec![], chain(2)],
        },
    ];
    let routes = build_routes_from_tfl_data(&repository);
    assert_eq!(routes.len(), 2);
    assert_eq!(routes[0].name, "district");
    // the first of the two longest
    assert_eq!(routes[0].waypoints, reversed(5));
    assert_eq!(routes[1].id, 1);
    assert_eq!(routes[1].name, "tram");
    assert_eq!(routes[1].waypoints, chain(2));
}
