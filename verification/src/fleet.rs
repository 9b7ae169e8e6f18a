//! The fleet builder: puts vehicles on routes.
//!
//! Where a vehicle starts within its first segment, and how fast it goes, is
//! drawn at random. The draws are made by the caller and handed in as a list
//! of numbers, two for each vehicle: the first gives the starting progress,
//! the second the speed.

use vstd::prelude::*;
use crate::geometry::PROGRESS_SCALE;
use crate::route::{
    ids_are_indices, lemma_route_views_fit, route_views, routes_fit, Route, RouteView,
};
use crate::vehicle::{Vehicle, VehicleType};

verus! {

/// Number of vehicles put on a train route.
pub const TRAINS_PER_ROUTE: usize = 10;

/// Number of vehicles put on a bus route.
pub const BUSES_PER_ROUTE: usize = 20;

/// Lowest speed given to a vehicle, in progress units per tick.
pub const MIN_SPEED: u64 = 5_000;

/// Width of the range of speeds: every speed lies in
/// `MIN_SPEED .. MIN_SPEED + SPEED_SPAN`.
pub const SPEED_SPAN: u64 = 10_000;

/// Number of vehicles put on a route of the given class.
pub open spec fn class_fleet_size(class: VehicleType) -> nat {
    match class {
        VehicleType::Train => TRAINS_PER_ROUTE as nat,
        VehicleType::Bus => BUSES_PER_ROUTE as nat,
    }
}

/// Number of vehicles put on a route: none where the route has fewer than
/// two waypoints and so no segment to travel on.
pub open spec fn route_fleet_size(route: RouteView) -> nat {
    if route.waypoints.len() < 2 {
        0
    } else {
        class_fleet_size(route.vehicle_class)
    }
}

/// Number of vehicles put on a list of routes.
pub open spec fn fleet_size(routes: Seq<RouteView>) -> nat
    decreases routes.len(),
{
    if routes.len() == 0 {
        0
    } else {
        fleet_size(routes.drop_last()) + route_fleet_size(routes.last())
    }
}

/// The vehicle in place `slot` of a route, with the fleet-wide number `id`.
/// Even places start at the first waypoint and head forward, odd places start
/// at the last waypoint and head backward. The starting progress is the first
/// draw reduced to less than a whole segment, the speed is the second draw
/// reduced into the range of speeds.
pub open spec fn spawned(
    route: RouteView,
    id: int,
    slot: int,
    progress_draw: u64,
    speed_draw: u64,
) -> Vehicle {
    let forward = slot % 2 == 0;
    let last = if forward {
        0
    } else {
        route.waypoints.len() - 1
    };
    Vehicle {
        id: id as usize,
        vehicle_class: route.vehicle_class,
        route_id: route.id,
        last_waypoint_index: last as usize,
        next_waypoint_index: (if forward {
            1
        } else {
            route.waypoints.len() - 2
        }) as usize,
        segment_progress: progress_draw % PROGRESS_SCALE,
        speed: (MIN_SPEED + speed_draw % SPEED_SPAN) as u64,
        direction: if forward {
            1i8
        } else {
            (-1) as i8
        },
        current_position: route.waypoints[last],
    }
}

/// The vehicles of one route, in the order of their places, where the first
/// of them has the fleet-wide number `first_id`. Vehicle number `id` of the
/// fleet takes the draws `2 * id` and `2 * id + 1`.
pub open spec fn route_fleet(route: RouteView, first_id: int, draws: Seq<u64>) -> Seq<Vehicle> {
    Seq::new(
        route_fleet_size(route),
        |slot: int|
            spawned(
                route,
                first_id + slot,
                slot,
                draws[2 * (first_id + slot)],
                draws[2 * (first_id + slot) + 1],
            ),
    )
}

/// The whole fleet: the vehicles of each route in turn, numbered from zero
/// in the order in which they are made.
pub open spec fn fleet(routes: Seq<RouteView>, draws: Seq<u64>) -> Seq<Vehicle>
    decreases routes.len(),
{
    if routes.len() == 0 {
        Seq::empty()
    } else {
        let before = fleet(routes.drop_last(), draws);
        before + route_fleet(routes.last(), before.len() as int, draws)
    }
}

/// The vehicle belongs to the route: it carries the route's id and class and
/// is in order on the route's waypoints.
pub open spec fn rides(v: Vehicle, route: RouteView) -> bool {
    &&& v.route_id == route.id
    &&& v.vehicle_class == route.vehicle_class
    &&& v.wf(route.waypoints.len() as int)
}

/// Every vehicle names a route of the list by its index and is in order on it.
pub open spec fn fleet_consistent(routes: Seq<RouteView>, vehicles: Seq<Vehicle>) -> bool {
    forall|j: int|
        0 <= j < vehicles.len() ==> {
            &&& (#[trigger] vehicles[j]).route_id < routes.len()
            &&& vehicles[j].wf(routes[vehicles[j].route_id as int].waypoints.len() as int)
        }
}

/// The fleet has as many vehicles as `fleet_size` says, and more routes never
/// make it smaller.
pub proof fn lemma_fleet_len(routes: Seq<RouteView>, draws: Seq<u64>)
    ensures
        fleet(routes, draws).len() == fleet_size(routes),
    decreases routes.len(),
{
    if routes.len() > 0 {
        lemma_fleet_len(routes.drop_last(), draws);
    }
}

/// A prefix of the routes has a fleet no larger than the whole list.
pub proof fn lemma_fleet_size_prefix(routes: Seq<RouteView>, k: int)
    requires
        0 <= k <= routes.len(),
    ensures
        fleet_size(routes.take(k)) <= fleet_size(routes),
    decreases routes.len(),
{
    if k == routes.len() {
        assert(routes.take(k) =~= routes);
    } else {
        assert(routes.drop_last().take(k) =~= routes.take(k));
        lemma_fleet_size_prefix(routes.drop_last(), k);
    }
}

/// Every vehicle of the fleet carries its place in the fleet as its id and
/// belongs to one of the routes. So where each route's id is its index, the
/// fleet is consistent with the routes.
pub proof fn lemma_fleet_members(routes: Seq<RouteView>, draws: Seq<u64>)
    requires
        fleet_size(routes) <= usize::MAX,
        routes_fit(routes),
    ensures
        forall|j: int|
            0 <= j < fleet(routes, draws).len() ==> {
                &&& (#[trigger] fleet(routes, draws)[j]).id == j
                &&& exists|r: int| 0 <= r < routes.len() && rides(fleet(routes, draws)[j], routes[r])
            },
        ids_are_indices(routes) ==> fleet_consistent(routes, fleet(routes, draws)),
    decreases routes.len(),
{
    if routes.len() > 0 {
        let head = routes.drop_last();
        let route = routes.last();
        lemma_fleet_members(head, draws);
        lemma_fleet_len(head, draws);
        let before = fleet(head, draws);
        let all = fleet(routes, draws);
        assert forall|j: int| 0 <= j < all.len() implies {
            &&& (#[trigger] all[j]).id == j
            &&& exists|r: int| 0 <= r < routes.len() && rides(all[j], routes[r])
        } by {
            if j < before.len() {
                assert(all[j] == before[j]);
                let r = choose|r: int| 0 <= r < head.len() && rides(before[j], head[r]);
                assert(head[r] == routes[r]);
                assert(rides(all[j], routes[r]));
            } else {
                let slot = j - before.len();
                assert(all[j] == route_fleet(route, before.len() as int, draws)[slot]);
                assert(route.waypoints.len() >= 2);
                assert(route == routes[routes.len() - 1]);
                assert(all[j].wf(route.waypoints.len() as int));
                assert(rides(all[j], routes[routes.len() - 1]));
            }
        }
        if ids_are_indices(routes) {
            assert forall|j: int| 0 <= j < all.len() implies {
                &&& (#[trigger] all[j]).route_id < routes.len()
                &&& all[j].wf(routes[all[j].route_id as int].waypoints.len() as int)
            } by {
                let r = choose|r: int| 0 <= r < routes.len() && rides(all[j], routes[r]);
                assert(routes[r].id == r);
            }
        }
    }
}

/// Number of vehicles put on a route of the given class.
pub fn vehicles_per_route(class: VehicleType) -> (count: usize)
    ensures
        count == class_fleet_size(class),
{
    match class {
        VehicleType::Train => TRAINS_PER_ROUTE,
        VehicleType::Bus => BUSES_PER_ROUTE,
    }
}

/// Number of draws that `initialize_vehicles` takes for the given routes: two
/// for each vehicle. `None` where that number does not fit a machine integer.
pub fn draws_needed(routes: &[Route]) -> (needed: Option<usize>)
    ensures
        match needed {
            Some(n) => n == 2 * fleet_size(route_views(routes@)),
            None => 2 * fleet_size(route_views(routes@)) > usize::MAX,
        },
{
    let ghost views = route_views(routes@);
    let mut total: usize = 0;
    let mut r: usize = 0;
    while r < routes.len()
        invariant
            r <= routes@.len(),
            views == route_views(routes@),
            total == 2 * fleet_size(views.take(r as int)),
        decreases routes@.len() - r,
    {
        let route = &routes[r];
        proof {
            assert(views.take(r + 1).drop_last() =~= views.take(r as int));
            assert(views.take(r + 1).last() == route@);
            lemma_fleet_size_prefix(views, r + 1);
        }
        if route.waypoints.len() >= 2 {
            let count = vehicles_per_route(route.vehicle_class);
            if total > usize::MAX - 2 * count {
                return None;
            }
            total = total + 2 * count;
        }
        r = r + 1;
    }
    proof {
        assert(views.take(r as int) =~= views);
    }
    Some(total)
}

/// Puts the vehicles on the routes. Each route with at least two waypoints
/// gets as many vehicles as its class asks for; a route with fewer gets none.
/// The vehicles are numbered from zero in the order in which they are made,
/// and vehicle number `id` takes the draws `2 * id` and `2 * id + 1`.
pub fn initialize_vehicles(routes: &[Route], draws: &[u64]) -> (vehicles: Vec<Vehicle>)
    requires
        draws@.len() >= 2 * fleet_size(route_views(routes@)),
    ensures
        vehicles@ == fleet(route_views(routes@), draws@),
        vehicles@.len() == fleet_size(route_views(routes@)),
        ids_are_indices(route_views(routes@)) ==> fleet_consistent(
            route_views(routes@),
            vehicles@,
        ),
{
    let ghost views = route_views(routes@);
    let mut vehicles: Vec<Vehicle> = Vec::new();
    let mut r: usize = 0;
    assert(draws@.len() <= usize::MAX) by {
        assert(draws.len() == draws@.len());
    }
    while r < routes.len()
        invariant
            r <= routes@.len(),
            views == route_views(routes@),
            usize::MAX >= draws@.len() >= 2 * fleet_size(views),
            vehicles@ == fleet(views.take(r as int), draws@),
        decreases routes@.len() - r,
    {
        let route = &routes[r];
        let ghost first = vehicles@.len() as int;
        let ghost before = vehicles@;
        proof {
            assert(views.take(r + 1).drop_last() =~= views.take(r as int));
            assert(views.take(r + 1).last() == route@);
            lemma_fleet_size_prefix(views, r + 1);
            lemma_fleet_len(views.take(r as int), draws@);
        }
        if route.waypoints.len() >= 2 {
            let count = vehicles_per_route(route.vehicle_class);
            let mut i: usize = 0;
            while i < count
                invariant
                    i <= count,
                    count == route_fleet_size(route@),
                    route.waypoints@.len() >= 2,
                    first + count <= fleet_size(views),
                    usize::MAX >= draws@.len() >= 2 * fleet_size(views),
                    vehicles@ == before + route_fleet(route@, first, draws@).take(i as int),
                    before.len() == first,
                decreases count - i,
            {
                let forward = i % 2 == 0;
                let last = if forward {
                    0
                } else {
                    route.waypoints.len() - 1
                };
                let id = vehicles.len();
                let vehicle = Vehicle {
                    id,
                    vehicle_class: route.vehicle_class,
                    route_id: route.id,
                    last_waypoint_index: last,
                    next_waypoint_index: if forward {
                        1
                    } else {
                        route.waypoints.len() - 2
                    },
                    segment_progress: draws[2 * id] % PROGRESS_SCALE,
                    speed: MIN_SPEED + draws[2 * id + 1] % SPEED_SPAN,
                    direction: if forward {
                        1
                    } else {
                        -1
                    },
                    current_position: route.waypoints[last],
                };
                vehicles.push(vehicle);
                proof {
                    let whole = route_fleet(route@, first, draws@);
                    assert(vehicle == whole[i as int]);
                    assert(whole.take(i + 1) =~= whole.take(i as int).push(vehicle));
                    assert(vehicles@ =~= before + whole.take(i + 1));
                }
                i = i + 1;
            }
            proof {
                let whole = route_fleet(route@, first, draws@);
                assert(whole.take(count as int) =~= whole);
            }
        } else {
            proof {
                assert(vehicles@ =~= before + route_fleet(route@, first, draws@));
            }
        }
        r = r + 1;
    }
    proof {
        assert(views.take(r as int) =~= views);
        lemma_fleet_len(views, draws@);
        lemma_route_views_fit(routes@);
        lemma_fleet_members(views, draws@);
    }
    vehicles
}

} // verus!
