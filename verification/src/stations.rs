//! Stations at the ends of lines, with the lines and bus routes that call
//! at them.

use vstd::prelude::*;
use crate::geometry::Waypoint;
use crate::text::same_text;

verus! {

/// The kind of a station.
#[derive(Clone, Copy, Debug, PartialEq, Eq, Structural)]
pub enum StationType {
    TubeStation,
    BusStop,
    Interchange,
}

/// A station with the tube lines and the bus routes that serve it. Each line
/// and each route is held once.
#[derive(Clone, Debug, PartialEq, Eq)]
pub struct Station {
    pub name: String,
    pub coordinates: Waypoint,
    pub tube_lines: Vec<String>,
    pub bus_routes: Vec<i32>,
    pub is_terminus: bool,
    pub is_interchange: bool,
    pub station_type: StationType,
}

/// Whether the name is among the lines.
pub open spec fn has_line(lines: Seq<String>, name: Seq<char>) -> bool {
    exists|k: int| 0 <= k < lines.len() && (#[trigger] lines[k])@ == name
}

/// No line is held twice.
pub open spec fn lines_distinct(lines: Seq<String>) -> bool {
    forall|i: int, j: int|
        0 <= i < j < lines.len() ==> (#[trigger] lines[i])@ != (#[trigger] lines[j])@
}

impl Station {
    /// No tube line and no bus route is held twice.
    pub open spec fn wf(self) -> bool {
        lines_distinct(self.tube_lines@) && self.bus_routes@.no_duplicates()
    }

    /// Number of tube lines and bus routes that serve the station.
    pub open spec fn services(self) -> nat {
        self.tube_lines@.len() + self.bus_routes@.len()
    }

    /// A station that nothing serves yet.
    pub fn new(name: String, coordinates: Waypoint, station_type: StationType) -> (station: Station)
        ensures
            station.name == name,
            station.coordinates == coordinates,
            station.station_type == station_type,
            station.tube_lines@.len() == 0,
            station.bus_routes@.len() == 0,
            !station.is_terminus,
            !station.is_interchange,
            station.wf(),
    {
        Station {
            name,
            coordinates,
            tube_lines: Vec::new(),
            bus_routes: Vec::new(),
            is_terminus: false,
            is_interchange: false,
            station_type,
        }
    }

    /// Adds a tube line to the station, unless it is there already.
    pub fn add_tube_line(&mut self, line_name: &str)
        requires
            old(self).wf(),
        ensures
            final(self).wf(),
            forall|name: Seq<char>| #[trigger]
                has_line(final(self).tube_lines@, name) <==> (has_line(old(self).tube_lines@, name)
                    || name == line_name@),
            has_line(old(self).tube_lines@, line_name@) ==> final(self).tube_lines@ == old(
                self,
            ).tube_lines@,
            !has_line(old(self).tube_lines@, line_name@) ==> {
                &&& final(self).tube_lines@.len() == old(self).tube_lines@.len() + 1
                &&& final(self).tube_lines@.drop_last() == old(self).tube_lines@
                &&& final(self).tube_lines@.last()@ == line_name@
            },
            final(self).bus_routes == old(self).bus_routes,
            final(self).name == old(self).name,
            final(self).coordinates == old(self).coordinates,
            final(self).is_terminus == old(self).is_terminus,
            final(self).is_interchange == old(self).is_interchange,
            final(self).station_type == old(self).station_type,
    {
        let ghost before = self.tube_lines@;
        let mut k: usize = 0;
        while k < self.tube_lines.len()
            invariant
                k <= self.tube_lines@.len(),
                self.tube_lines@ == before,
                *self == *old(self),
                self.wf(),
                forall|j: int| 0 <= j < k ==> (#[trigger] before[j])@ != line_name@,
            decreases self.tube_lines@.len() - k,
        {
            if same_text(self.tube_lines[k].as_str(), line_name) {
                proof {
                    assert(has_line(before, line_name@));
                }
                return ;
            }
            k = k + 1;
        }
        self.tube_lines.push(line_name.to_owned());
        proof {
            let after = self.tube_lines@;
            assert(after.drop_last() =~= before);
            assert(!has_line(before, line_name@));
            assert forall|name: Seq<char>| #[trigger]
                has_line(after, name) <==> (has_line(before, name) || name == line_name@) by {
                if has_line(after, name) {
                    let m = choose|m: int| 0 <= m < after.len() && (#[trigger] after[m])@ == name;
                    if m < before.len() {
                        assert(before[m]@ == name);
                    }
                }
                if has_line(before, name) {
                    let m = choose|m: int| 0 <= m < before.len() && (#[trigger] before[m])@ == name;
                    assert(after[m]@ == name);
                }
                if name == line_name@ {
                    assert(after[before.len() as int]@ == name);
                }
            }
            assert forall|i: int, j: int| 0 <= i < j < after.len() implies (#[trigger] after[i])@
                != (#[trigger] after[j])@ by {
                assert(after[i] == before[i]);
                if j < before.len() {
                    assert(after[j] == before[j]);
                }
            }
        }
    }

    /// Adds a bus route to the station, unless it is there already.
    pub fn add_bus_route(&mut self, route_number: i32)
        requires
            old(self).wf(),
        ensures
            final(self).wf(),
            final(self).bus_routes@.to_set() == old(self).bus_routes@.to_set().insert(route_number),
            final(self).bus_routes@ == if old(self).bus_routes@.contains(route_number) {
                old(self).bus_routes@
            } else {
                old(self).bus_routes@.push(route_number)
            },
            final(self).tube_lines == old(self).tube_lines,
            final(self).name == old(self).name,
            final(self).coordinates == old(self).coordinates,
            final(self).is_terminus == old(self).is_terminus,
            final(self).is_interchange == old(self).is_interchange,
            final(self).station_type == old(self).station_type,
    {
        let ghost before = self.bus_routes@;
        let mut k: usize = 0;
        while k < self.bus_routes.len()
            invariant
                k <= self.bus_routes@.len(),
                self.bus_routes@ == before,
                *self == *old(self),
                self.wf(),
                forall|j: int| 0 <= j < k ==> before[j] != route_number,
            decreases self.bus_routes@.len() - k,
        {
            if self.bus_routes[k] == route_number {
                proof {
                    assert(before.contains(route_number));
                    assert(before.to_set().insert(route_number) =~= before.to_set());
                }
                return ;
            }
            k = k + 1;
        }
        self.bus_routes.push(route_number);
        proof {
            let after = self.bus_routes@;
            assert(!before.contains(route_number));
            assert(after =~= before.push(route_number));
            assert forall|x: i32| after.to_set().contains(x) <==> before.to_set().insert(
                route_number,
            ).contains(x) by {
                if after.contains(x) {
                    let m = choose|m: int| 0 <= m < after.len() && after[m] == x;
                    if m < before.len() {
                        assert(before[m] == x);
                    }
                }
                if before.contains(x) {
                    let m = choose|m: int| 0 <= m < before.len() && before[m] == x;
                    assert(after[m] == x);
                }
                if x == route_number {
                    assert(after[before.len() as int] == x);
                }
            }
            assert(after.to_set() =~= before.to_set().insert(route_number));
        }
    }

    /// Whether the station is an interchange: more than one line or route
    /// serves it.
    pub fn is_interchange(&self) -> (interchange: bool)
        ensures
            interchange == (self.services() > 1),
    {
        let lines = self.tube_lines.len();
        let routes = self.bus_routes.len();
        lines > 1 || routes > 1 || (lines == 1 && routes == 1)
    }
}

} // verus!
