//! Helpers for drawing the lines: their colours and their stations.

use vstd::prelude::*;
use crate::data::Platform;
use crate::text::{
    is_text_before, lemma_text_before_total, lemma_text_before_transitive, same_text,
    text_before,
};

verus! {

/// The colour in which a line is drawn, as `#RRGGBB`; white for a line that
/// is not known.
pub open spec fn line_color(line_name: Seq<char>) -> Seq<char> {
    if line_name == "bakerloo"@ {
        "#B36305"@
    } else if line_name == "central"@ {
        "#E32017"@
    } else if line_name == "circle"@ {
        "#FFD300"@
    } else if line_name == "district"@ {
        "#00782A"@
    } else if line_name == "dlr"@ {
        "#00A4A7"@
    } else if line_name == "elizabeth"@ {
        "#6950A1"@
    } else if line_name == "hammersmith-city"@ {
        "#F3A9BB"@
    } else if line_name == "jubilee"@ {
        "#A0A5A9"@
    } else if line_name == "london-cable-car"@ {
        "#AF174C"@
    } else if line_name == "london-overground"@ {
        "#EE7C0E"@
    } else if line_name == "metropolitan"@ {
        "#9B0056"@
    } else if line_name == "northern"@ {
        "#000000"@
    } else if line_name == "piccadilly"@ {
        "#003688"@
    } else if line_name == "thameslink"@ {
        "#C1007C"@
    } else if line_name == "tram"@ {
        "#84B817"@
    } else if line_name == "victoria"@ {
        "#0098D4"@
    } else if line_name == "waterloo-city"@ {
        "#95CDBA"@
    } else if line_name == "liberty"@ {
        "#4C6366"@
    } else if line_name == "lioness"@ {
        "#FFA32B"@
    } else if line_name == "mildmay"@ {
        "#088ECC"@
    } else if line_name == "suffragette"@ {
        "#59C274"@
    } else if line_name == "weaver"@ {
        "#B43983"@
    } else if line_name == "windrush"@ {
        "#FF2E24"@
    } else {
        "#FFFFFF"@
    }
}

/// The colour in which a line is drawn.
pub fn get_line_color(line_name: &str) -> (color: &'static str)
    ensures
        color@ == line_color(line_name@),
{
    if same_text(line_name, "bakerloo") {
        "#B36305"
    } else if same_text(line_name, "central") {
        "#E32017"
    } else if same_text(line_name, "circle") {
        "#FFD300"
    } else if same_text(line_name, "district") {
        "#00782A"
    } else if same_text(line_name, "dlr") {
        "#00A4A7"
    } else if same_text(line_name, "elizabeth") {
        "#6950A1"
    } else if same_text(line_name, "hammersmith-city") {
        "#F3A9BB"
    } else if same_text(line_name, "jubilee") {
        "#A0A5A9"
    } else if same_text(line_name, "london-cable-car") {
        "#AF174C"
    } else if same_text(line_name, "london-overground") {
        "#EE7C0E"
    } else if same_text(line_name, "metropolitan") {
        "#9B0056"
    } else if same_text(line_name, "northern") {
        "#000000"
    } else if same_text(line_name, "piccadilly") {
        "#003688"
    } else if same_text(line_name, "thameslink") {
        "#C1007C"
    } else if same_text(line_name, "tram") {
        "#84B817"
    } else if same_text(line_name, "victoria") {
        "#0098D4"
    } else if same_text(line_name, "waterloo-city") {
        "#95CDBA"
    } else if same_text(line_name, "liberty") {
        "#4C6366"
    } else if same_text(line_name, "lioness") {
        "#FFA32B"
    } else if same_text(line_name, "mildmay") {
        "#088ECC"
    } else if same_text(line_name, "suffragette") {
        "#59C274"
    } else if same_text(line_name, "weaver") {
        "#B43983"
    } else if same_text(line_name, "windrush") {
        "#FF2E24"
    } else {
        "#FFFFFF"
    }
}

/// The stations of one line.
#[derive(Clone, Debug, PartialEq, Eq)]
pub struct LineStations {
    pub line: String,
    /// The ids of the stations, in the order of text, each once.
    pub station_ids: Vec<String>,
}

/// Whether a line is listed: it has a name, and is not the national rail.
pub open spec fn is_listed_line(line: Seq<char>) -> bool {
    line != "national-rail"@ && line.len() != 0
}

/// The names of the listed lines that the platforms are on, each once, in
/// the order in which they first occur.
pub open spec fn line_names_in_order(platforms: Seq<Platform>) -> Seq<Seq<char>>
    decreases platforms.len(),
{
    if platforms.len() == 0 {
        Seq::empty()
    } else {
        let before = line_names_in_order(platforms.drop_last());
        let line = platforms.last().line@;
        if !is_listed_line(line) || before.contains(line) {
            before
        } else {
            before.push(line)
        }
    }
}

/// Whether a platform of the station with the given id is on the line.
pub open spec fn station_on_line(platforms: Seq<Platform>, line: Seq<char>, id: Seq<char>) -> bool {
    exists|k: int|
        0 <= k < platforms.len() && (#[trigger] platforms[k]).line@ == line
            && platforms[k].station_unique_id@ == id
}

/// Whether the id is among the ids.
pub open spec fn has_id(ids: Seq<String>, id: Seq<char>) -> bool {
    exists|m: int| 0 <= m < ids.len() && (#[trigger] ids[m])@ == id
}

/// The ids stand in the order of text, and none stands there twice.
pub open spec fn strictly_ordered(ids: Seq<String>) -> bool {
    forall|i: int, j: int| 0 <= i < j < ids.len() ==> text_before(#[trigger] ids[i]@, #[trigger] ids[j]@)
}

/// The entries list the stations of the lines: there is one entry for each
/// listed line, in the order in which the lines first occur, and the entry
/// of a line holds the ids of exactly the stations with a platform on that
/// line, in the order of text and each once.
pub open spec fn lists_stations(entries: Seq<LineStations>, platforms: Seq<Platform>) -> bool {
    &&& entries.len() == line_names_in_order(platforms).len()
    &&& forall|e: int|
        0 <= e < entries.len() ==> {
            &&& (#[trigger] entries[e]).line@ == line_names_in_order(platforms)[e]
            &&& strictly_ordered(entries[e].station_ids@)
            &&& forall|id: Seq<char>|
                has_id(entries[e].station_ids@, id) <==> #[trigger] station_on_line(
                    platforms,
                    entries[e].line@,
                    id,
                )
        }
}

/// Every listed line of a platform is among the names in order, every name
/// there is a listed line, and no name is there twice.
pub proof fn lemma_line_names_in_order(platforms: Seq<Platform>)
    ensures
        forall|k: int|
            0 <= k < platforms.len() && is_listed_line((#[trigger] platforms[k]).line@)
                ==> line_names_in_order(platforms).contains(platforms[k].line@),
        forall|e: int|
            0 <= e < line_names_in_order(platforms).len() ==> is_listed_line(
                #[trigger] line_names_in_order(platforms)[e],
            ),
        line_names_in_order(platforms).no_duplicates(),
    decreases platforms.len(),
{
    if platforms.len() > 0 {
        let head = platforms.drop_last();
        let before = line_names_in_order(head);
        let names = line_names_in_order(platforms);
        let line = platforms.last().line@;
        lemma_line_names_in_order(head);
        assert forall|k: int|
            0 <= k < platforms.len() && is_listed_line(
                (#[trigger] platforms[k]).line@,
            ) implies names.contains(platforms[k].line@) by {
            if k < head.len() {
                assert(head[k] == platforms[k]);
                let at = choose|at: int| 0 <= at < before.len() && before[at] == head[k].line@;
                assert(names[at] == before[at]);
            } else if !before.contains(line) {
                assert(names[before.len() as int] == line);
            }
        }
    }
}

/// Puts an id into ids that stand in the order of text, at its place in that
/// order, unless it is there already.
fn insert_in_order(ids: &mut Vec<String>, id: String)
    requires
        strictly_ordered(old(ids)@),
    ensures
        strictly_ordered(final(ids)@),
        forall|x: Seq<char>|
            #[trigger] has_id(final(ids)@, x) <==> (has_id(old(ids)@, x) || x == id@),
{
    let ghost before = ids@;
    let mut at: usize = 0;
    while at < ids.len() && is_text_before(ids[at].as_str(), id.as_str())
        invariant
            at <= ids@.len(),
            ids@ == before,
            forall|j: int| 0 <= j < at ==> text_before((#[trigger] ids@[j])@, id@),
        decreases ids@.len() - at,
    {
        at = at + 1;
    }
    if at < ids.len() && same_text(ids[at].as_str(), id.as_str()) {
        proof {
            assert(has_id(before, id@));
        }
        return ;
    }
    proof {
        assert forall|j: int| at <= j < before.len() implies text_before(
            id@,
            (#[trigger] before[j])@,
        ) by {
            lemma_text_before_total(before[at as int]@, id@);
            if j > at {
                lemma_text_before_transitive(id@, before[at as int]@, before[j]@);
            }
        }
    }
    ids.insert(at, id);
    proof {
        let after = ids@;
        assert forall|i: int, j: int| 0 <= i < j < after.len() implies text_before(
            #[trigger] after[i]@,
            #[trigger] after[j]@,
        ) by {
            if j < at {
                assert(after[i] == before[i] && after[j] == before[j]);
            } else if j == at {
                assert(after[i] == before[i]);
            } else if i < at {
                assert(after[i] == before[i] && after[j] == before[j - 1]);
            } else if i == at {
                assert(after[j] == before[j - 1]);
            } else {
                assert(after[i] == before[i - 1] && after[j] == before[j - 1]);
            }
        }
        assert forall|x: Seq<char>| #[trigger] has_id(after, x) <==> (has_id(before, x) || x
            == id@) by {
            if has_id(after, x) {
                let m = choose|m: int| 0 <= m < after.len() && (#[trigger] after[m])@ == x;
                if m < at {
                    assert(before[m]@ == x);
                } else if m > at {
                    assert(before[m - 1]@ == x);
                }
            }
            if has_id(before, x) {
                let m = choose|m: int| 0 <= m < before.len() && (#[trigger] before[m])@ == x;
                if m < at {
                    assert(after[m]@ == x);
                } else {
                    assert(after[m + 1]@ == x);
                }
            }
            if x == id@ {
                assert(after[at as int]@ == x);
            }
        }
    }
}

/// Lists, for each line that the platforms are on, the stations of that
/// line. Platforms of the national rail, and platforms that name no line,
/// are passed over.
pub fn create_line_stations_map(platforms: &[Platform]) -> (entries: Vec<LineStations>)
    ensures
        lists_stations(entries@, platforms@),
{
    let mut entries: Vec<LineStations> = Vec::new();
    let mut k: usize = 0;
    while k < platforms.len()
        invariant
            k <= platforms@.len(),
            lists_stations(entries@, platforms@.take(k as int)),
        decreases platforms@.len() - k,
    {
        let platform = &platforms[k];
        let ghost prefix = platforms@.take(k as int);
        let ghost upto = platforms@.take(k + 1);
        let ghost names = line_names_in_order(prefix);
        let ghost line = platform.line@;
        let ghost id = platform.station_unique_id@;
        proof {
            assert(upto.drop_last() =~= prefix);
            assert(upto.last() == *platform);
            lemma_line_names_in_order(prefix);
            assert forall|l: Seq<char>, x: Seq<char>| #[trigger]
                station_on_line(upto, l, x) <==> (station_on_line(prefix, l, x) || (l == line && x
                    == id)) by {
                if station_on_line(upto, l, x) {
                    let m = choose|m: int|
                        0 <= m < upto.len() && (#[trigger] upto[m]).line@ == l
                            && upto[m].station_unique_id@ == x;
                    if m < prefix.len() {
                        assert(prefix[m] == upto[m]);
                    }
                }
                if station_on_line(prefix, l, x) {
                    let m = choose|m: int|
                        0 <= m < prefix.len() && (#[trigger] prefix[m]).line@ == l
                            && prefix[m].station_unique_id@ == x;
                    assert(upto[m] == prefix[m]);
                }
                if l == line && x == id {
                    assert(upto[k as int].line@ == l);
                }
            }
        }
        if !same_text(platform.line.as_str(), "national-rail") && !platform.line.as_str().is_empty() {
            let mut at: usize = 0;
            while at < entries.len() && !same_text(entries[at].line.as_str(), platform.line.as_str())
                invariant
                    at <= entries@.len(),
                    entries@.len() == names.len(),
                    line == platform.line@,
                    forall|e: int| 0 <= e < entries@.len() ==> (#[trigger] entries@[e]).line@ == names[e],
                    forall|e: int| 0 <= e < at ==> names[e] != line,
                decreases entries@.len() - at,
            {
                at = at + 1;
            }
            if at == entries.len() {
                let ghost old_entries = entries@;
                entries.push(LineStations { line: platform.line.clone(), station_ids: Vec::new() });
                proof {
                    assert(!names.contains(line));
                    assert forall|x: Seq<char>| !station_on_line(prefix, line, x) by {
                        if station_on_line(prefix, line, x) {
                            let m = choose|m: int|
                                0 <= m < prefix.len() && (#[trigger] prefix[m]).line@ == line
                                    && prefix[m].station_unique_id@ == x;
                            assert(names.contains(prefix[m].line@));
                        }
                    }
                    assert forall|e: int| 0 <= e < old_entries.len() implies entries@[e]
                        == old_entries[e] by {}
                }
            } else {
                proof {
                    assert(names[at as int] == line);
                    assert(names.contains(line));
                }
            }
            let ghost mid_entries = entries@;
            insert_in_order(&mut entries[at].station_ids, platform.station_unique_id.clone());
            proof {
                assert forall|e: int| 0 <= e < entries@.len() implies {
                    &&& (#[trigger] entries@[e]).line@ == line_names_in_order(upto)[e]
                    &&& strictly_ordered(entries@[e].station_ids@)
                    &&& forall|x: Seq<char>|
                        has_id(entries@[e].station_ids@, x) <==> #[trigger] station_on_line(
                            upto,
                            entries@[e].line@,
                            x,
                        )
                } by {
                    if e != at {
                        assert(entries@[e] == mid_entries[e]);
                        assert(names[e] != line);
                    }
                }
            }
        } else {
            proof {
                assert(!is_listed_line(line));
                lemma_line_names_in_order(upto);
            }
        }
        k = k + 1;
    }
    proof {
        assert(platforms@.take(k as int) =~= platforms@);
    }
    entries
}

} // verus!
