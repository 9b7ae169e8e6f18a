//! The transit data that routes are built from: stations, platforms and the
//! geometry of the lines.

use vstd::prelude::*;
use crate::geometry::Waypoint;
use crate::text::same_text;
use crate::vehicle::VehicleType;

verus! {

/// A station with its place on the map, in micro-degrees.
#[derive(Clone, Debug, PartialEq, Eq)]
pub struct Station {
    pub station_unique_id: String,
    pub station_name: String,
    pub fare_zones: String,
    pub hub_naptan_code: Option<String>,
    pub wifi: bool,
    pub outside_station_unique_id: String,
    pub lat: i64,
    pub lon: i64,
    pub component_stations: Vec<String>,
}

/// A platform of a station.
#[derive(Clone, Debug, PartialEq, Eq)]
pub struct Platform {
    pub platform_unique_id: String,
    pub station_unique_id: String,
    pub platform_number: Option<String>,
    pub cardinal_direction: Option<String>,
    pub platform_naptan_code: Option<String>,
    pub platform_friendly_name: String,
    pub is_customer_facing: bool,
    pub has_service_interchange: bool,
    pub station_name: String,
    pub fare_zones: String,
    pub hub_naptan_code: Option<String>,
    pub wifi: bool,
    pub outside_station_unique_id: String,
    pub stop_area_naptan_code: String,
    pub line: String,
    pub direction_towards: Option<String>,
    pub platform_service_group_name: Option<String>,
}

/// The platforms of one station.
#[derive(Clone, Debug, PartialEq, Eq)]
pub struct PlatformGroup {
    pub station_id: String,
    pub platforms: Vec<Platform>,
}

/// The geometry of one line: the class of vehicle that runs on it, and its
/// line strings, each a chain of waypoints.
#[derive(Clone, Debug, PartialEq, Eq)]
pub struct LineGeometry {
    pub line_id: String,
    pub vehicle_class: VehicleType,
    pub line_strings: Vec<Vec<Waypoint>>,
}

/// All transit data in one place.
#[derive(Clone, Debug, PartialEq, Eq)]
pub struct TflDataRepository {
    /// The stations that have a place on the map.
    pub stations: Vec<Station>,
    /// The platforms, grouped by station.
    pub platforms_by_station: Vec<PlatformGroup>,
    /// The geometry of each line.
    pub line_geometries: Vec<LineGeometry>,
    /// Whether the data has been loaded.
    pub is_loaded: bool,
}

/// Index of the station that a lookup by id finds: the last one with that
/// id, so that a later record replaces an earlier one.
pub open spec fn station_index(stations: Seq<Station>, id: Seq<char>) -> Option<int>
    decreases stations.len(),
{
    if stations.len() == 0 {
        None
    } else if stations.last().station_unique_id@ == id {
        Some(stations.len() - 1)
    } else {
        station_index(stations.drop_last(), id)
    }
}

/// What `station_index` finds is a station with the id asked for, and the
/// last such; it finds none only where no station has that id.
pub proof fn lemma_station_index(stations: Seq<Station>, id: Seq<char>)
    ensures
        match station_index(stations, id) {
            Some(i) => {
                &&& 0 <= i < stations.len()
                &&& stations[i].station_unique_id@ == id
                &&& forall|j: int| i < j < stations.len() ==> stations[j].station_unique_id@ != id
            },
            None => forall|j: int| 0 <= j < stations.len() ==> stations[j].station_unique_id@ != id,
        },
    decreases stations.len(),
{
    if stations.len() > 0 && stations.last().station_unique_id@ != id {
        let head = stations.drop_last();
        lemma_station_index(head, id);
        assert forall|j: int| 0 <= j < head.len() implies head[j] == stations[j] by {}
        match station_index(head, id) {
            Some(i) => {
                assert forall|j: int| i < j < stations.len() implies stations[j].station_unique_id@
                    != id by {
                    if j < head.len() {
                        assert(head[j] == stations[j]);
                    }
                }
            },
            None => {
                assert forall|j: int| 0 <= j < stations.len() implies stations[j].station_unique_id@
                    != id by {
                    if j < head.len() {
                        assert(head[j] == stations[j]);
                    }
                }
            },
        }
    }
}

/// Index of the group of platforms of a station: the first group with that
/// station id.
pub open spec fn group_index(groups: Seq<PlatformGroup>, id: Seq<char>) -> Option<int>
    decreases groups.len(),
{
    if groups.len() == 0 {
        None
    } else {
        match group_index(groups.drop_last(), id) {
            Some(i) => Some(i),
            None => if groups.last().station_id@ == id {
                Some(groups.len() - 1)
            } else {
                None
            },
        }
    }
}

/// What `group_index` finds is a group with the id asked for, and the first
/// such; it finds none only where no group has that id.
pub proof fn lemma_group_index(groups: Seq<PlatformGroup>, id: Seq<char>)
    ensures
        match group_index(groups, id) {
            Some(i) => {
                &&& 0 <= i < groups.len()
                &&& groups[i].station_id@ == id
                &&& forall|j: int| 0 <= j < i ==> groups[j].station_id@ != id
            },
            None => forall|j: int| 0 <= j < groups.len() ==> groups[j].station_id@ != id,
        },
    decreases groups.len(),
{
    if groups.len() > 0 {
        let head = groups.drop_last();
        lemma_group_index(head, id);
        match group_index(head, id) {
            Some(i) => {
                assert(head[i] == groups[i]);
                assert forall|j: int| 0 <= j < i implies groups[j].station_id@ != id by {
                    assert(head[j] == groups[j]);
                }
            },
            None => {
                assert forall|j: int| 0 <= j < head.len() implies groups[j].station_id@ != id by {
                    assert(head[j] == groups[j]);
                }
            },
        }
    }
}

/// Whether one of the platforms is on the line.
pub open spec fn serves_line(platforms: Seq<Platform>, line: Seq<char>) -> bool {
    exists|k: int| 0 <= k < platforms.len() && (#[trigger] platforms[k]).line@ == line
}

/// The stations of a line: for each group of platforms, in order, of which
/// one platform is on the line, the station of the group, where it is known.
pub open spec fn stations_for_line(
    groups: Seq<PlatformGroup>,
    stations: Seq<Station>,
    line: Seq<char>,
) -> Seq<Station>
    decreases groups.len(),
{
    if groups.len() == 0 {
        Seq::empty()
    } else {
        let before = stations_for_line(groups.drop_last(), stations, line);
        let group = groups.last();
        match station_index(stations, group.station_id@) {
            Some(i) => if serves_line(group.platforms@, line) {
                before.push(stations[i])
            } else {
                before
            },
            None => before,
        }
    }
}

fn has_platform_on_line(platforms: &Vec<Platform>, line_name: &str) -> (found: bool)
    ensures
        found == serves_line(platforms@, line_name@),
{
    let mut k: usize = 0;
    while k < platforms.len()
        invariant
            k <= platforms@.len(),
            forall|j: int| 0 <= j < k ==> (#[trigger] platforms@[j]).line@ != line_name@,
        decreases platforms@.len() - k,
    {
        if same_text(platforms[k].line.as_str(), line_name) {
            return true;
        }
        k = k + 1;
    }
    false
}

impl TflDataRepository {
    /// Makes the repository of what was loaded: the stations that have a
    /// place on the map, the platforms grouped by station, and the geometry
    /// of the lines as it is.
    pub fn initialize(
        stations: Vec<Station>,
        platforms: Vec<Platform>,
        line_geometries: Vec<LineGeometry>,
    ) -> (repository: TflDataRepository)
        ensures
            repository.stations@ == valid_stations(stations@),
            groups_platforms(repository.platforms_by_station@, platforms@),
            repository.line_geometries == line_geometries,
            repository.is_loaded,
    {
        let valid = filter_valid_stations(stations);
        let platforms_by_station = group_platforms_by_station(platforms);
        TflDataRepository {
            stations: valid,
            platforms_by_station,
            line_geometries,
            is_loaded: true,
        }
    }

    /// The station with the given id, if there is one.
    pub fn get_station(&self, station_id: &str) -> (found: Option<&Station>)
        ensures
            match station_index(self.stations@, station_id@) {
                Some(i) => found == Some(&self.stations@[i]),
                None => found is None,
            },
    {
        let mut k: usize = self.stations.len();
        assert(self.stations@.take(k as int) =~= self.stations@);
        while k > 0
            invariant
                k <= self.stations@.len(),
                station_index(self.stations@, station_id@) == station_index(
                    self.stations@.take(k as int),
                    station_id@,
                ),
            decreases k,
        {
            proof {
                assert(self.stations@.take(k as int).drop_last() =~= self.stations@.take(k - 1));
            }
            if same_text(self.stations[k - 1].station_unique_id.as_str(), station_id) {
                return Some(&self.stations[k - 1]);
            }
            k = k - 1;
        }
        proof {
            assert(self.stations@.take(0).len() == 0);
        }
        None
    }

    /// The platforms of the station with the given id, in their order; none
    /// where the station has no platforms on record.
    pub fn get_platforms_for_station(&self, station_id: &str) -> (platforms: Vec<&Platform>)
        ensures
            match group_index(self.platforms_by_station@, station_id@) {
                Some(i) => {
                    &&& platforms@.len() == self.platforms_by_station@[i].platforms@.len()
                    &&& forall|k: int|
                        0 <= k < platforms@.len() ==> *(#[trigger] platforms@[k])
                            == self.platforms_by_station@[i].platforms@[k]
                },
                None => platforms@.len() == 0,
            },
    {
        let mut result: Vec<&Platform> = Vec::new();
        let mut g: usize = 0;
        while g < self.platforms_by_station.len()
            invariant
                g <= self.platforms_by_station@.len(),
                result@.len() == 0,
                group_index(self.platforms_by_station@.take(g as int), station_id@) is None,
            decreases self.platforms_by_station@.len() - g,
        {
            let group = &self.platforms_by_station[g];
            proof {
                assert(self.platforms_by_station@.take(g + 1).drop_last()
                    =~= self.platforms_by_station@.take(g as int));
                lemma_group_index(self.platforms_by_station@, station_id@);
                lemma_group_index(self.platforms_by_station@.take(g as int), station_id@);
            }
            if same_text(group.station_id.as_str(), station_id) {
                let mut k: usize = 0;
                while k < group.platforms.len()
                    invariant
                        k <= group.platforms@.len(),
                        result@.len() == k,
                        forall|j: int|
                            0 <= j < k ==> *(#[trigger] result@[j]) == group.platforms@[j],
                    decreases group.platforms@.len() - k,
                {
                    result.push(&group.platforms[k]);
                    k = k + 1;
                }
                proof {
                    assert(self.platforms_by_station@[g as int].station_id@ == station_id@);
                    assert forall|j: int| 0 <= j < g implies self.platforms_by_station@[j].station_id@
                        != station_id@ by {
                        assert(self.platforms_by_station@.take(g as int)[j]
                            == self.platforms_by_station@[j]);
                    }
                }
                return result;
            }
            g = g + 1;
        }
        proof {
            assert(self.platforms_by_station@.take(g as int) =~= self.platforms_by_station@);
        }
        result
    }

    /// The stations that have a platform on the given line.
    pub fn get_stations_for_line(&self, line_name: &str) -> (found: Vec<&Station>)
        ensures
            found@.len() == stations_for_line(
                self.platforms_by_station@,
                self.stations@,
                line_name@,
            ).len(),
            forall|k: int|
                0 <= k < found@.len() ==> *(#[trigger] found@[k]) == stations_for_line(
                    self.platforms_by_station@,
                    self.stations@,
                    line_name@,
                )[k],
    {
        let mut result: Vec<&Station> = Vec::new();
        let mut g: usize = 0;
        while g < self.platforms_by_station.len()
            invariant
                g <= self.platforms_by_station@.len(),
                result@.len() == stations_for_line(
                    self.platforms_by_station@.take(g as int),
                    self.stations@,
                    line_name@,
                ).len(),
                forall|k: int|
                    0 <= k < result@.len() ==> *(#[trigger] result@[k]) == stations_for_line(
                        self.platforms_by_station@.take(g as int),
                        self.stations@,
                        line_name@,
                    )[k],
            decreases self.platforms_by_station@.len() - g,
        {
            let group = &self.platforms_by_station[g];
            proof {
                assert(self.platforms_by_station@.take(g + 1).drop_last()
                    =~= self.platforms_by_station@.take(g as int));
                assert(self.platforms_by_station@.take(g + 1).last() == *group);
            }
            if has_platform_on_line(&group.platforms, line_name) {
                match self.get_station(group.station_id.as_str()) {
                    Some(station) => {
                        result.push(station);
                    },
                    None => {},
                }
            }
            g = g + 1;
        }
        proof {
            assert(self.platforms_by_station@.take(g as int) =~= self.platforms_by_station@);
        }
        result
    }
}

/// Whether a station has a place on the map: neither coordinate is zero.
pub open spec fn has_place(station: Station) -> bool {
    station.lat != 0 && station.lon != 0
}

/// The stations that have a place on the map, in their order.
pub open spec fn valid_stations(stations: Seq<Station>) -> Seq<Station> {
    stations.filter(|s: Station| has_place(s))
}

/// Keeps the stations that have a place on the map, in their order.
pub fn filter_valid_stations(stations: Vec<Station>) -> (valid: Vec<Station>)
    ensures
        valid@ == valid_stations(stations@),
{
    let ghost all = stations@;
    let mut valid: Vec<Station> = Vec::new();
    proof {
        reveal(Seq::filter);
        assert(valid_stations(all.take(0)) =~= Seq::<Station>::empty());
    }
    for station in it: stations
        invariant
            all == it.seq(),
            valid@ == valid_stations(all.take(it.index() as int)),
    {
        proof {
            reveal(Seq::filter);
            let upto = all.take(it.index() + 1);
            assert(upto.drop_last() =~= all.take(it.index() as int));
            assert(upto.last() == station);
        }
        if station.lat != 0 && station.lon != 0 {
            valid.push(station);
        }
    }
    proof {
        assert(all.take(all.len() as int) =~= all);
    }
    valid
}

/// The ids of the stations that the platforms belong to, each once, in the
/// order in which they first occur.
pub open spec fn station_ids_in_order(platforms: Seq<Platform>) -> Seq<Seq<char>>
    decreases platforms.len(),
{
    if platforms.len() == 0 {
        Seq::empty()
    } else {
        let before = station_ids_in_order(platforms.drop_last());
        let id = platforms.last().station_unique_id@;
        if before.contains(id) {
            before
        } else {
            before.push(id)
        }
    }
}

/// The platforms of one station, in their order.
pub open spec fn platforms_of(platforms: Seq<Platform>, station_id: Seq<char>) -> Seq<Platform> {
    platforms.filter(|p: Platform| p.station_unique_id@ == station_id)
}

/// The groups hold the platforms by station: there is one group for each
/// station id, in the order in which the ids first occur, and each group
/// holds the platforms of its station in their order.
pub open spec fn groups_platforms(groups: Seq<PlatformGroup>, platforms: Seq<Platform>) -> bool {
    &&& groups.len() == station_ids_in_order(platforms).len()
    &&& forall|g: int|
        0 <= g < groups.len() ==> {
            &&& (#[trigger] groups[g]).station_id@ == station_ids_in_order(platforms)[g]
            &&& groups[g].platforms@ == platforms_of(platforms, groups[g].station_id@)
        }
}

/// The station id of every platform is among the ids in order, and no id is
/// there twice.
pub proof fn lemma_station_ids_in_order(platforms: Seq<Platform>)
    ensures
        forall|k: int|
            0 <= k < platforms.len() ==> station_ids_in_order(platforms).contains(
                (#[trigger] platforms[k]).station_unique_id@,
            ),
        station_ids_in_order(platforms).no_duplicates(),
        forall|id: Seq<char>|
            !station_ids_in_order(platforms).contains(id) ==> #[trigger] platforms_of(
                platforms,
                id,
            ) =~= Seq::<Platform>::empty(),
    decreases platforms.len(),
{
    reveal(Seq::filter);
    if platforms.len() > 0 {
        let head = platforms.drop_last();
        let last = platforms.last();
        let before = station_ids_in_order(head);
        let ids = station_ids_in_order(platforms);
        lemma_station_ids_in_order(head);
        assert forall|k: int| 0 <= k < platforms.len() implies ids.contains(
            (#[trigger] platforms[k]).station_unique_id@,
        ) by {
            if k < head.len() {
                assert(head[k] == platforms[k]);
                let at = choose|at: int|
                    0 <= at < before.len() && before[at] == head[k].station_unique_id@;
                assert(ids[at] == before[at]);
            } else {
                if before.contains(last.station_unique_id@) {
                } else {
                    assert(ids[before.len() as int] == last.station_unique_id@);
                }
            }
        }
        assert forall|id: Seq<char>| !ids.contains(id) implies #[trigger] platforms_of(
            platforms,
            id,
        ) =~= Seq::<Platform>::empty() by {
            if before.contains(id) {
                let at = choose|at: int| 0 <= at < before.len() && before[at] == id;
                assert(ids[at] == id);
            }
            if last.station_unique_id@ == id {
                assert(ids.contains(id));
            }
            assert(platforms_of(head, id) =~= Seq::<Platform>::empty());
        }
    }
}

/// Groups the platforms by the station that they belong to.
pub fn group_platforms_by_station(platforms: Vec<Platform>) -> (groups: Vec<PlatformGroup>)
    ensures
        groups_platforms(groups@, platforms@),
{
    let ghost all = platforms@;
    let mut groups: Vec<PlatformGroup> = Vec::new();
    for platform in it: platforms
        invariant
            all == it.seq(),
            groups_platforms(groups@, all.take(it.index() as int)),
    {
        let ghost prefix = all.take(it.index() as int);
        let ghost upto = all.take(it.index() + 1);
        let ghost id = platform.station_unique_id@;
        let ghost keys = station_ids_in_order(prefix);
        proof {
            reveal(Seq::filter);
            assert(upto.drop_last() =~= prefix);
            assert(upto.last() == platform);
            lemma_station_ids_in_order(prefix);
        }
        let mut at: usize = 0;
        while at < groups.len() && !same_text(
            groups[at].station_id.as_str(),
            platform.station_unique_id.as_str(),
        )
            invariant
                at <= groups@.len(),
                groups@.len() == keys.len(),
                id == platform.station_unique_id@,
                forall|g: int| 0 <= g < groups@.len() ==> (#[trigger] groups@[g]).station_id@ == keys[g],
                forall|g: int| 0 <= g < at ==> keys[g] != id,
            decreases groups@.len() - at,
        {
            at = at + 1;
        }
        if at < groups.len() {
            let ghost old_groups = groups@;
            groups[at].platforms.push(platform);
            proof {
                assert(keys[at as int] == id);
                assert(keys.contains(id));
                assert forall|g: int| 0 <= g < groups@.len() implies {
                    &&& (#[trigger] groups@[g]).station_id@ == station_ids_in_order(upto)[g]
                    &&& groups@[g].platforms@ == platforms_of(upto, groups@[g].station_id@)
                } by {
                    if g != at {
                        assert(groups@[g] == old_groups[g]);
                        assert(keys[g] != keys[at as int]);
                    }
                }
            }
        } else {
            let mut members: Vec<Platform> = Vec::new();
            let station_id = platform.station_unique_id.clone();
            members.push(platform);
            let ghost old_groups = groups@;
            groups.push(PlatformGroup { station_id, platforms: members });
            proof {
                assert(!keys.contains(id));
                assert(platforms_of(prefix, id) =~= Seq::<Platform>::empty());
                assert forall|g: int| 0 <= g < groups@.len() implies {
                    &&& (#[trigger] groups@[g]).station_id@ == station_ids_in_order(upto)[g]
                    &&& groups@[g].platforms@ == platforms_of(upto, groups@[g].station_id@)
                } by {
                    if g < old_groups.len() {
                        assert(groups@[g] == old_groups[g]);
                        assert(keys[g] != id);
                    } else {
                        assert(groups@[g].platforms@ =~= seq![platform]);
                    }
                }
            }
        }
    }
    proof {
        assert(all.take(all.len() as int) =~= all);
    }
    groups
}

impl Default for TflDataRepository {
    fn default() -> (repository: TflDataRepository)
        ensures
            repository.stations@.len() == 0,
            repository.platforms_by_station@.len() == 0,
            repository.line_geometries@.len() == 0,
            !repository.is_loaded,
    {
        TflDataRepository {
            stations: Vec::new(),
            platforms_by_station: Vec::new(),
            line_geometries: Vec::new(),
            is_loaded: false,
        }
    }
}

} // verus!
