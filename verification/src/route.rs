//! Routes: ordered chains of waypoints, each with a vehicle class.

use vstd::prelude::*;
use crate::data::{LineGeometry, TflDataRepository};
use crate::geometry::Waypoint;
use crate::vehicle::VehicleType;

verus! {

/// A route: an ordered chain of waypoints travelled by vehicles of one class.
/// The waypoints do not change once the route is built.
#[derive(Clone, Debug, PartialEq, Eq)]
pub struct Route {
    pub id: usize,
    pub name: String,
    pub vehicle_class: VehicleType,
    pub waypoints: Vec<Waypoint>,
}

/// The mathematical value of a route.
pub struct RouteView {
    pub id: usize,
    pub name: Seq<char>,
    pub vehicle_class: VehicleType,
    pub waypoints: Seq<Waypoint>,
}

impl View for Route {
    type V = RouteView;

    open spec fn view(&self) -> RouteView {
        RouteView {
            id: self.id,
            name: self.name@,
            vehicle_class: self.vehicle_class,
            waypoints: self.waypoints@,
        }
    }
}

/// The values of a sequence of routes, in the same order.
pub open spec fn route_views(routes: Seq<Route>) -> Seq<RouteView> {
    routes.map_values(|r: Route| r@)
}

/// Every route stands at the index that is its id.
pub open spec fn ids_are_indices(routes: Seq<RouteView>) -> bool {
    forall|i: int| 0 <= i < routes.len() ==> (#[trigger] routes[i]).id == i
}

/// No route of the list has more waypoints than a machine index can count.
pub open spec fn routes_fit(routes: Seq<RouteView>) -> bool {
    forall|i: int| 0 <= i < routes.len() ==> (#[trigger] routes[i]).waypoints.len() <= usize::MAX
}

/// The values of routes that exist in memory fit.
pub proof fn lemma_route_views_fit(routes: Seq<Route>)
    ensures
        routes_fit(route_views(routes)),
{
    assert forall|i: int| 0 <= i < routes.len() implies (#[trigger] route_views(
        routes,
    )[i]).waypoints.len() <= usize::MAX by {
        assert(route_views(routes)[i].waypoints == routes[i].waypoints@);
        assert(routes[i].waypoints.len() == routes[i].waypoints@.len());
    }
}

/// The waypoint at a longitude and latitude given in micro-degrees.
pub open spec fn at(lng: int, lat: int) -> Waypoint {
    Waypoint { lng: lng as i64, lat: lat as i64 }
}

/// Waypoints of the sample Central Line, west to east.
pub open spec fn central_line_waypoints() -> Seq<Waypoint> {
    seq![
        at(-281_000, 51_517_000),  // West Ruislip
        at(-252_800, 51_511_300),  // Ruislip Gardens
        at(-219_400, 51_513_600),  // South Ruislip
        at(-198_700, 51_520_200),  // Northolt
        at(-165_200, 51_525_900),  // Greenford
        at(-135_000, 51_521_000),  // Perivale
        at(-99_700, 51_515_200),  // Hanger Lane
        at(-63_800, 51_516_500),  // North Acton
        at(-36_200, 51_511_100),  // East Acton
        at(-24_400, 51_504_300),  // White City
        at(-4_800, 51_503_500),  // Shepherd's Bush
        at(-12_500, 51_500_900),  // Holland Park
        at(-19_900, 51_499_600),  // Notting Hill Gate
        at(-45_700, 51_506_800),  // Queensway
        at(-74_200, 51_511_300),  // Lancaster Gate
        at(-98_300, 51_514_200),  // Marble Arch
        at(-128_000, 51_515_100),  // Bond Street
        at(-141_000, 51_515_400),  // Oxford Circus
        at(-168_700, 51_517_400),  // Tottenham Court Road
        at(-188_900, 51_520_600),  // Holborn
        at(-120_500, 51_515_200),  // Chancery Lane
        at(-102_500, 51_516_800),  // St. Paul's
        at(-91_100, 51_515_500),  // Bank
        at(-76_500, 51_510_800),  // Liverpool Street
    ]
}

/// Waypoints of the sample Northern Line, north to south.
pub open spec fn northern_line_waypoints() -> Seq<Waypoint> {
    seq![
        at(-193_800, 51_650_300),  // High Barnet
        at(-193_200, 51_630_200),  // Totteridge & Whetstone
        at(-185_800, 51_617_900),  // Woodside Park
        at(-175_000, 51_607_100),  // West Finchley
        at(-164_700, 51_599_800),  // Finchley Central
        at(-153_400, 51_587_400),  // East Finchley
        at(-141_900, 51_577_500),  // Highgate
        at(-130_300, 51_571_700),  // Archway
        at(-112_300, 51_565_600),  // Tufnell Park
        at(-105_100, 51_554_500),  // Kentish Town
        at(-142_600, 51_530_200),  // Camden Town
        at(-138_500, 51_524_800),  // Mornington Crescent
        at(-134_300, 51_528_700),  // Euston
        at(-130_400, 51_529_500),  // King's Cross St. Pancras
        at(-123_100, 51_520_300),  // Angel
        at(-106_500, 51_512_100),  // Old Street
        at(-88_200, 51_517_600),  // Moorgate
        at(-91_100, 51_515_500),  // Bank
        at(-92_400, 51_511_300),  // London Bridge
        at(-100_200, 51_504_400),  // Borough
        at(-105_200, 51_494_400),  // Elephant & Castle
    ]
}

/// Waypoints of the sample bus route 88, west to east.
pub open spec fn bus_88_waypoints() -> Seq<Waypoint> {
    seq![
        at(-146_500, 51_536_500),  // Camden Town
        at(-132_500, 51_530_000),  // St Pancras
        at(-115_500, 51_523_500),  // Farringdon
        at(-95_800, 51_518_100),  // Barbican
        at(-87_900, 51_515_500),  // Moorgate
        at(-82_500, 51_512_700),  // Liverpool Street
        at(-75_400, 51_510_100),  // Aldgate
        at(-65_000, 51_508_800),  // Aldgate East
        at(-55_000, 51_507_000),  // Whitechapel
        at(-44_900, 51_505_500),  // Stepney Green
        at(-34_900, 51_504_000),  // Mile End
        at(-25_000, 51_502_500),  // Bow Road
        at(-15_000, 51_501_000),  // Bow Church
        at(-5_000, 51_499_500),  // Devons Road
        at(5_000, 51_498_000),  // Langdon Park
        at(15_000, 51_496_500),  // All Saints
        at(25_000, 51_495_000),  // Poplar
        at(35_000, 51_493_500),  // Blackwall
        at(45_000, 51_492_000),  // East India
        at(55_000, 51_490_500),  // Canning Town
    ]
}

/// The built-in routes: two rail lines and one bus route.
pub open spec fn sample_routes() -> Seq<RouteView> {
    seq![
        RouteView {
            id: 0,
            name: "Central Line"@,
            vehicle_class: VehicleType::Train,
            waypoints: central_line_waypoints(),
        },
        RouteView {
            id: 1,
            name: "Northern Line"@,
            vehicle_class: VehicleType::Train,
            waypoints: northern_line_waypoints(),
        },
        RouteView {
            id: 2,
            name: "Bus 88"@,
            vehicle_class: VehicleType::Bus,
            waypoints: bus_88_waypoints(),
        },
    ]
}

fn build_central_line() -> (r: Vec<Waypoint>)
    ensures
        r@ == central_line_waypoints(),
{
    let r = vec![
        Waypoint { lng: -281_000, lat: 51_517_000 },
        Waypoint { lng: -252_800, lat: 51_511_300 },
        Waypoint { lng: -219_400, lat: 51_513_600 },
        Waypoint { lng: -198_700, lat: 51_520_200 },
        Waypoint { lng: -165_200, lat: 51_525_900 },
        Waypoint { lng: -135_000, lat: 51_521_000 },
        Waypoint { lng: -99_700, lat: 51_515_200 },
        Waypoint { lng: -63_800, lat: 51_516_500 },
        Waypoint { lng: -36_200, lat: 51_511_100 },
        Waypoint { lng: -24_400, lat: 51_504_300 },
        Waypoint { lng: -4_800, lat: 51_503_500 },
        Waypoint { lng: -12_500, lat: 51_500_900 },
        Waypoint { lng: -19_900, lat: 51_499_600 },
        Waypoint { lng: -45_700, lat: 51_506_800 },
        Waypoint { lng: -74_200, lat: 51_511_300 },
        Waypoint { lng: -98_300, lat: 51_514_200 },
        Waypoint { lng: -128_000, lat: 51_515_100 },
        Waypoint { lng: -141_000, lat: 51_515_400 },
        Waypoint { lng: -168_700, lat: 51_517_400 },
        Waypoint { lng: -188_900, lat: 51_520_600 },
        Waypoint { lng: -120_500, lat: 51_515_200 },
        Waypoint { lng: -102_500, lat: 51_516_800 },
        Waypoint { lng: -91_100, lat: 51_515_500 },
        Waypoint { lng: -76_500, lat: 51_510_800 },
    ];
    assert(r@ =~= central_line_waypoints());
    r
}

fn build_northern_line() -> (r: Vec<Waypoint>)
    ensures
        r@ == northern_line_waypoints(),
{
    let r = vec![
        Waypoint { lng: -193_800, lat: 51_650_300 },
        Waypoint { lng: -193_200, lat: 51_630_200 },
        Waypoint { lng: -185_800, lat: 51_617_900 },
        Waypoint { lng: -175_000, lat: 51_607_100 },
        Waypoint { lng: -164_700, lat: 51_599_800 },
        Waypoint { lng: -153_400, lat: 51_587_400 },
        Waypoint { lng: -141_900, lat: 51_577_500 },
        Waypoint { lng: -130_300, lat: 51_571_700 },
        Waypoint { lng: -112_300, lat: 51_565_600 },
        Waypoint { lng: -105_100, lat: 51_554_500 },
        Waypoint { lng: -142_600, lat: 51_530_200 },
        Waypoint { lng: -138_500, lat: 51_524_800 },
        Waypoint { lng: -134_300, lat: 51_528_700 },
        Waypoint { lng: -130_400, lat: 51_529_500 },
        Waypoint { lng: -123_100, lat: 51_520_300 },
        Waypoint { lng: -106_500, lat: 51_512_100 },
        Waypoint { lng: -88_200, lat: 51_517_600 },
        Waypoint { lng: -91_100, lat: 51_515_500 },
        Waypoint { lng: -92_400, lat: 51_511_300 },
        Waypoint { lng: -100_200, lat: 51_504_400 },
        Waypoint { lng: -105_200, lat: 51_494_400 },
    ];
    assert(r@ =~= northern_line_waypoints());
    r
}

fn build_bus_88() -> (r: Vec<Waypoint>)
    ensures
        r@ == bus_88_waypoints(),
{
    let r = vec![
        Waypoint { lng: -146_500, lat: 51_536_500 },
        Waypoint { lng: -132_500, lat: 51_530_000 },
        Waypoint { lng: -115_500, lat: 51_523_500 },
        Waypoint { lng: -95_800, lat: 51_518_100 },
        Waypoint { lng: -87_900, lat: 51_515_500 },
        Waypoint { lng: -82_500, lat: 51_512_700 },
        Waypoint { lng: -75_400, lat: 51_510_100 },
        Waypoint { lng: -65_000, lat: 51_508_800 },
        Waypoint { lng: -55_000, lat: 51_507_000 },
        Waypoint { lng: -44_900, lat: 51_505_500 },
        Waypoint { lng: -34_900, lat: 51_504_000 },
        Waypoint { lng: -25_000, lat: 51_502_500 },
        Waypoint { lng: -15_000, lat: 51_501_000 },
        Waypoint { lng: -5_000, lat: 51_499_500 },
        Waypoint { lng: 5_000, lat: 51_498_000 },
        Waypoint { lng: 15_000, lat: 51_496_500 },
        Waypoint { lng: 25_000, lat: 51_495_000 },
        Waypoint { lng: 35_000, lat: 51_493_500 },
        Waypoint { lng: 45_000, lat: 51_492_000 },
        Waypoint { lng: 55_000, lat: 51_490_500 },
    ];
    assert(r@ =~= bus_88_waypoints());
    r
}

/// Builds the built-in sample routes. They are the fallback when no transit
/// data is at hand.
pub fn build_sample_routes() -> (routes: Vec<Route>)
    ensures
        route_views(routes@) == sample_routes(),
        ids_are_indices(route_views(routes@)),
        forall|i: int| 0 <= i < routes@.len() ==> (#[trigger] routes@[i]).waypoints@.len() >= 2,
{
    let mut routes: Vec<Route> = Vec::new();
    routes.push(
        Route {
            id: 0,
            name: "Central Line".to_owned(),
            vehicle_class: VehicleType::Train,
            waypoints: build_central_line(),
        },
    );
    routes.push(
        Route {
            id: 1,
            name: "Northern Line".to_owned(),
            vehicle_class: VehicleType::Train,
            waypoints: build_northern_line(),
        },
    );
    routes.push(
        Route {
            id: 2,
            name: "Bus 88".to_owned(),
            vehicle_class: VehicleType::Bus,
            waypoints: build_bus_88(),
        },
    );
    assert(route_views(routes@) =~= sample_routes());
    routes
}

/// The longest of the line strings, and the first of them where several are
/// as long; no waypoints where there is no line string.
pub open spec fn longest_line_string(line_strings: Seq<Vec<Waypoint>>) -> Seq<Waypoint>
    decreases line_strings.len(),
{
    if line_strings.len() == 0 {
        Seq::empty()
    } else {
        let best = longest_line_string(line_strings.drop_last());
        if line_strings.last()@.len() > best.len() {
            line_strings.last()@
        } else {
            best
        }
    }
}

/// The waypoints that the vehicles of a line travel on: its longest line
/// string.
pub open spec fn line_waypoints(line: LineGeometry) -> Seq<Waypoint> {
    longest_line_string(line.line_strings@)
}

/// The routes made of the geometry of lines: one for each line whose longest
/// line string has at least two waypoints, in the order of the lines, each
/// with the line's id as its name, the line's class and those waypoints. A
/// route's id is its place among the routes made.
pub open spec fn routes_from_lines(lines: Seq<LineGeometry>) -> Seq<RouteView>
    decreases lines.len(),
{
    if lines.len() == 0 {
        Seq::empty()
    } else {
        let before = routes_from_lines(lines.drop_last());
        let line = lines.last();
        if line_waypoints(line).len() < 2 {
            before
        } else {
            before.push(
                RouteView {
                    id: before.len() as usize,
                    name: line.line_id@,
                    vehicle_class: line.vehicle_class,
                    waypoints: line_waypoints(line),
                },
            )
        }
    }
}

/// The longest line string is one of the line strings, none of them is
/// longer, and none before it is as long.
pub proof fn lemma_longest_line_string(line_strings: Seq<Vec<Waypoint>>)
    ensures
        line_strings.len() == 0 ==> longest_line_string(line_strings).len() == 0,
        forall|k: int|
            0 <= k < line_strings.len() ==> (#[trigger] line_strings[k])@.len()
                <= longest_line_string(line_strings).len(),
        longest_line_string(line_strings).len() > 0 ==> exists|k: int|
            {
                &&& 0 <= k < line_strings.len()
                &&& (#[trigger] line_strings[k])@ == longest_line_string(line_strings)
                &&& forall|j: int|
                    0 <= j < k ==> (#[trigger] line_strings[j])@.len() < line_strings[k]@.len()
            },
    decreases line_strings.len(),
{
    if line_strings.len() > 0 {
        let head = line_strings.drop_last();
        let best = longest_line_string(head);
        lemma_longest_line_string(head);
        assert forall|k: int| 0 <= k < line_strings.len() implies (#[trigger] line_strings[k])@.len()
            <= longest_line_string(line_strings).len() by {
            if k < head.len() {
                assert(head[k] == line_strings[k]);
            }
        }
        if line_strings.last()@.len() > best.len() {
            let k = line_strings.len() - 1;
            assert forall|j: int| 0 <= j < k implies (#[trigger] line_strings[j])@.len()
                < line_strings[k]@.len() by {
                assert(head[j] == line_strings[j]);
            }
            assert(line_strings[k]@ == longest_line_string(line_strings));
        } else if best.len() > 0 {
            let k = choose|k: int|
                {
                    &&& 0 <= k < head.len()
                    &&& (#[trigger] head[k])@ == best
                    &&& forall|j: int| 0 <= j < k ==> (#[trigger] head[j])@.len() < head[k]@.len()
                };
            assert(line_strings[k] == head[k]);
            assert forall|j: int| 0 <= j < k implies (#[trigger] line_strings[j])@.len()
                < line_strings[k]@.len() by {
                assert(head[j] == line_strings[j]);
            }
        }
    }
}

/// Picks the longest line string of a line.
fn longest_of(line_strings: &Vec<Vec<Waypoint>>) -> (waypoints: Vec<Waypoint>)
    ensures
        waypoints@ == longest_line_string(line_strings@),
{
    let mut best: Vec<Waypoint> = Vec::new();
    let mut k: usize = 0;
    while k < line_strings.len()
        invariant
            k <= line_strings@.len(),
            best@ == longest_line_string(line_strings@.take(k as int)),
        decreases line_strings@.len() - k,
    {
        proof {
            assert(line_strings@.take(k + 1).drop_last() =~= line_strings@.take(k as int));
            assert(line_strings@.take(k + 1).last() == line_strings@[k as int]);
        }
        if line_strings[k].len() > best.len() {
            best = line_strings[k].clone();
        }
        k = k + 1;
    }
    proof {
        assert(line_strings@.take(k as int) =~= line_strings@);
    }
    best
}

/// Routes made of lines are numbered by their place, each has at least two
/// waypoints, and there are no more of them than lines.
pub proof fn lemma_routes_from_lines(lines: Seq<LineGeometry>)
    requires
        lines.len() <= usize::MAX,
    ensures
        routes_from_lines(lines).len() <= lines.len(),
        ids_are_indices(routes_from_lines(lines)),
        forall|i: int|
            0 <= i < routes_from_lines(lines).len() ==> (#[trigger] routes_from_lines(
                lines,
            )[i]).waypoints.len() >= 2,
    decreases lines.len(),
{
    if lines.len() > 0 {
        lemma_routes_from_lines(lines.drop_last());
    }
}

/// Builds the routes from transit data: one route for each line of the
/// repository, on the longest line string of the line. A line with fewer
/// than two waypoints there has no segment to travel on and is left out.
pub fn build_routes_from_tfl_data(repository: &TflDataRepository) -> (routes: Vec<Route>)
    ensures
        route_views(routes@) == routes_from_lines(repository.line_geometries@),
        ids_are_indices(route_views(routes@)),
        forall|i: int| 0 <= i < routes@.len() ==> (#[trigger] routes@[i]).waypoints@.len() >= 2,
{
    let ghost lines = repository.line_geometries@;
    let mut routes: Vec<Route> = Vec::new();
    let mut k: usize = 0;
    while k < repository.line_geometries.len()
        invariant
            k <= lines.len(),
            lines == repository.line_geometries@,
            route_views(routes@) == routes_from_lines(lines.take(k as int)),
        decreases lines.len() - k,
    {
        let line = &repository.line_geometries[k];
        proof {
            assert(lines.take(k + 1).drop_last() =~= lines.take(k as int));
            assert(lines.take(k + 1).last() == *line);
        }
        let waypoints = longest_of(&line.line_strings);
        if waypoints.len() >= 2 {
            let ghost before = route_views(routes@);
            let route = Route {
                id: routes.len(),
                name: line.line_id.clone(),
                vehicle_class: line.vehicle_class,
                waypoints,
            };
            routes.push(route);
            proof {
                assert(route_views(routes@) =~= before.push(route@));
            }
        }
        k = k + 1;
    }
    proof {
        assert(lines.take(k as int) =~= lines);
        assert(repository.line_geometries.len() == lines.len());
        lemma_routes_from_lines(lines);
        assert forall|i: int| 0 <= i < routes@.len() implies (#[trigger] routes@[i]).waypoints@.len()
            >= 2 by {
            assert(route_views(routes@)[i].waypoints == routes@[i].waypoints@);
        }
    }
    routes
}

/// The routes for `initialize_simulation`: those of the transit data where
/// there is any, the built-in sample routes where there is none.
pub fn build_routes(tfl_data: Option<&TflDataRepository>) -> (routes: Vec<Route>)
    ensures
        route_views(routes@) == match tfl_data {
            Some(repository) => routes_from_lines(repository.line_geometries@),
            None => sample_routes(),
        },
        ids_are_indices(route_views(routes@)),
        forall|i: int| 0 <= i < routes@.len() ==> (#[trigger] routes@[i]).waypoints@.len() >= 2,
{
    match tfl_data {
        Some(repository) => build_routes_from_tfl_data(repository),
        None => build_sample_routes(),
    }
}

} // verus!
