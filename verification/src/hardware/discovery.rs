//! Finds the thermal and the battery sensor among what the kernel lists.
use vstd::prelude::*;
use crate::paths;
use crate::text;

verus! {

/// An entry of a sensor directory, with what its `type` file says, if that
/// could be read.
#[derive(Debug)]
pub struct SensorEntry {
    pub path: String,
    pub kind: Option<String>,
}

/// Where the node's sensors are.
#[derive(Debug)]
pub struct HardwareManifest {
    pub thermal_temp_path: String,
    pub battery_capacity_path: String,
}

pub struct HardwareScanner;

/// `needle` occurs in `s`.
pub open spec fn holds(s: Seq<char>, needle: Seq<char>) -> bool {
    exists|i: int|
        0 <= i <= s.len() - needle.len() && #[trigger] s.subrange(i, i + needle.len()) == needle
}

/// The lower-case name is that of a processor's thermal zone.
pub open spec fn names_cpu(name: Seq<char>) -> bool {
    holds(name, "cpu"@) || holds(name, "soc"@) || holds(name, "cluster"@)
}

/// The entry is a processor's thermal zone.
pub open spec fn is_cpu_zone(entry: SensorEntry) -> bool {
    entry.kind is Some && names_cpu(text::lowered(text::trimmed(entry.kind->0@)))
}

/// The entry is a battery.
pub open spec fn is_battery(entry: SensorEntry) -> bool {
    entry.kind is Some && text::trimmed(entry.kind->0@) == "Battery"@
}

/// The position of the first entry that `wanted` picks, or the number of entries.
pub open spec fn first_of(entries: Seq<SensorEntry>, wanted: spec_fn(SensorEntry) -> bool) -> nat
    decreases entries.len(),
{
    if entries.len() == 0 {
        0
    } else if wanted(entries[0]) {
        0
    } else {
        1 + first_of(entries.drop_first(), wanted)
    }
}

proof fn lemma_first_of(
    entries: Seq<SensorEntry>,
    wanted: spec_fn(SensorEntry) -> bool,
    n: int,
)
    requires
        0 <= n <= entries.len(),
        forall|j: int| 0 <= j < n ==> !wanted(#[trigger] entries[j]),
        n < entries.len() ==> wanted(entries[n]),
    ensures
        first_of(entries, wanted) == n,
    decreases n,
{
    if n > 0 {
        lemma_first_of(entries.drop_first(), wanted, n - 1);
    }
}

impl HardwareScanner {
    /// The lower-case name of a zone is that of a processor.
    pub fn is_cpu_name(name: &str) -> (b: bool)
        ensures
            b == names_cpu(name@),
    {
        text::contains(name, "cpu") || text::contains(name, "soc") || text::contains(
            name,
            "cluster",
        )
    }

    fn find_cpu_thermal(zones: &Vec<SensorEntry>) -> (path: Option<String>)
        ensures
            ({
                let i = first_of(zones@, |e: SensorEntry| is_cpu_zone(e)) as int;
                match path {
                    Some(p) => i < zones@.len() && p@ == paths::path_of(
                        zones@[i].path@,
                        "temp"@,
                    ),
                    None => i == zones@.len(),
                }
            }),
    {
        let ghost wanted = |e: SensorEntry| is_cpu_zone(e);
        let mut i: usize = 0;
        while i < zones.len()
            invariant
                i <= zones@.len(),
                wanted == (|e: SensorEntry| is_cpu_zone(e)),
                forall|j: int| 0 <= j < i ==> !wanted(#[trigger] zones@[j]),
            decreases zones@.len() - i,
        {
            match &zones[i].kind {
                Some(kind) => {
                    let name = text::lower(text::trim(kind.as_str()).as_str());
                    if Self::is_cpu_name(name.as_str()) {
                        proof {
                            lemma_first_of(zones@, wanted, i as int);
                        }
                        return Some(paths::join_path(zones[i].path.as_str(), "temp"));
                    }
                },
                None => {},
            }
            i += 1;
        }
        proof {
            lemma_first_of(zones@, wanted, i as int);
        }
        None
    }

    fn find_primary_battery(supplies: &Vec<SensorEntry>) -> (path: Option<String>)
        ensures
            ({
                let i = first_of(supplies@, |e: SensorEntry| is_battery(e)) as int;
                match path {
                    Some(p) => i < supplies@.len() && p@ == paths::path_of(
                        supplies@[i].path@,
                        "capacity"@,
                    ),
                    None => i == supplies@.len(),
                }
            }),
    {
        let ghost wanted = |e: SensorEntry| is_battery(e);
        let mut i: usize = 0;
        while i < supplies.len()
            invariant
                i <= supplies@.len(),
                wanted == (|e: SensorEntry| is_battery(e)),
                forall|j: int| 0 <= j < i ==> !wanted(#[trigger] supplies@[j]),
            decreases supplies@.len() - i,
        {
            match &supplies[i].kind {
                Some(kind) => {
                    if text::trim(kind.as_str()) == "Battery".to_owned() {
                        proof {
                            lemma_first_of(supplies@, wanted, i as int);
                        }
                        return Some(paths::join_path(supplies[i].path.as_str(), "capacity"));
                    }
                },
                None => {},
            }
            i += 1;
        }
        proof {
            lemma_first_of(supplies@, wanted, i as int);
        }
        None
    }

    /// `found` is what a scan gives.
    pub open spec fn is_scan(
        zones: Seq<SensorEntry>,
        supplies: Seq<SensorEntry>,
        found: Result<HardwareManifest, String>,
    ) -> bool {
        let z = first_of(zones, |e: SensorEntry| is_cpu_zone(e)) as int;
        let b = first_of(supplies, |e: SensorEntry| is_battery(e)) as int;
        match found {
            Ok(m) => {
                &&& z < zones.len() && b < supplies.len()
                &&& m.thermal_temp_path@ == paths::path_of(zones[z].path@, "temp"@)
                &&& m.battery_capacity_path@ == paths::path_of(supplies[b].path@, "capacity"@)
            },
            Err(e) => if z == zones.len() {
                e@ == "Hardware Error: No valid CPU thermal zone detected"@
            } else {
                b == supplies.len() && e@ == "Hardware Error: No primary battery supply detected"@
            },
        }
    }

    /// Wherever a processor's zone and a battery are listed they are found, the first of
    /// each, however many others stand before or behind them.
    pub proof fn law_the_first_sensors_are_found(
        zones: Seq<SensorEntry>,
        supplies: Seq<SensorEntry>,
        found: Result<HardwareManifest, String>,
        z: int,
        b: int,
    )
        requires
            Self::is_scan(zones, supplies, found),
            0 <= z < zones.len(),
            0 <= b < supplies.len(),
            is_cpu_zone(zones[z]),
            is_battery(supplies[b]),
            forall|j: int| 0 <= j < z ==> !is_cpu_zone(#[trigger] zones[j]),
            forall|j: int| 0 <= j < b ==> !is_battery(#[trigger] supplies[j]),
        ensures
            found matches Ok(m) && m.thermal_temp_path@ == paths::path_of(zones[z].path@, "temp"@)
                && m.battery_capacity_path@ == paths::path_of(supplies[b].path@, "capacity"@),
    {
        let cpu = |e: SensorEntry| is_cpu_zone(e);
        let battery = |e: SensorEntry| is_battery(e);
        assert forall|j: int| 0 <= j < z implies !cpu(#[trigger] zones[j]) by {}
        assert forall|j: int| 0 <= j < b implies !battery(#[trigger] supplies[j]) by {}
        lemma_first_of(zones, cpu, z);
        lemma_first_of(supplies, battery, b);
    }

    /// A name that holds one of the three words, wherever it stands, is a processor's.
    pub proof fn law_processors_are_known_by_their_names(front: Seq<char>, rest: Seq<char>)
        ensures
            names_cpu(front + "cpu"@ + rest),
            names_cpu(front + "soc"@ + rest),
            names_cpu(front + "cluster"@ + rest),
    {
        let at = front.len() as int;
        let (a, b, c) = (front + "cpu"@ + rest, front + "soc"@ + rest, front + "cluster"@ + rest);
        assert(a.subrange(at, at + "cpu"@.len()) =~= "cpu"@);
        assert(b.subrange(at, at + "soc"@.len()) =~= "soc"@);
        assert(c.subrange(at, at + "cluster"@.len()) =~= "cluster"@);
    }

    /// Finds the first thermal zone of a processor and the first battery. The
    /// lists are in the order in which the kernel gave them; a list that could
    /// not be read is empty.
    pub fn scan(zones: &Vec<SensorEntry>, supplies: &Vec<SensorEntry>) -> (found: Result<
        HardwareManifest,
        String,
    >)
        ensures
            Self::is_scan(zones@, supplies@, found),
    {
        let thermal_temp_path = match Self::find_cpu_thermal(zones) {
            Some(path) => path,
            None => {
                return Err("Hardware Error: No valid CPU thermal zone detected".to_owned());
            },
        };
        let battery_capacity_path = match Self::find_primary_battery(supplies) {
            Some(path) => path,
            None => {
                return Err("Hardware Error: No primary battery supply detected".to_owned());
            },
        };
        Ok(HardwareManifest { thermal_temp_path, battery_capacity_path })
    }
}

} // verus!
