//! Classification of raw physical-mode labels into a small, totally ordered
//! set of transport categories, and selection of the most significant one.

use vstd::prelude::*;

verus! {

use crate::strings::str_eq;

/// One transport category. The priority order is a domain-defined ranking
/// (air highest, bus lowest), not an alphabetical one; see `spec_priority`.
#[derive(Debug, Clone, Copy, PartialEq, Eq, Structural)]
pub enum NetexMode {
    Air,
    Water,
    Rail,
    Metro,
    Tram,
    Funicular,
    Cableway,
    Coach,
    Bus,
}

impl NetexMode {
    /// The rank of this mode: a lower value is a more significant mode.
    pub open spec fn spec_priority(self) -> int {
        match self {
            NetexMode::Air => 1,
            NetexMode::Water => 2,
            NetexMode::Rail => 3,
            NetexMode::Metro => 4,
            NetexMode::Tram => 5,
            NetexMode::Funicular => 6,
            NetexMode::Cableway => 7,
            NetexMode::Coach => 8,
            NetexMode::Bus => 9,
        }
    }

    /// The rank of this mode: a lower value is a more significant mode.
    pub fn priority(&self) -> (r: u8)
        ensures
            r as int == self.spec_priority(),
    {
        match self {
            NetexMode::Air => 1,
            NetexMode::Water => 2,
            NetexMode::Rail => 3,
            NetexMode::Metro => 4,
            NetexMode::Tram => 5,
            NetexMode::Funicular => 6,
            NetexMode::Cableway => 7,
            NetexMode::Coach => 8,
            NetexMode::Bus => 9,
        }
    }

    /// The closed mapping from raw physical-mode labels to categories. Any
    /// label not listed here has no mapping.
    pub open spec fn spec_mode_of_label(label: Seq<char>) -> Option<NetexMode> {
        if label == "Air"@ {
            Some(NetexMode::Air)
        } else if label == "Boat"@ {
            Some(NetexMode::Water)
        } else if label == "Bus"@ {
            Some(NetexMode::Bus)
        } else if label == "BusRapidTransit"@ {
            Some(NetexMode::Bus)
        } else if label == "Coach"@ {
            Some(NetexMode::Coach)
        } else if label == "Ferry"@ {
            Some(NetexMode::Water)
        } else if label == "Funicular"@ {
            Some(NetexMode::Funicular)
        } else if label == "LocalTrain"@ {
            Some(NetexMode::Rail)
        } else if label == "LongDistanceTrain"@ {
            Some(NetexMode::Rail)
        } else if label == "Metro"@ {
            Some(NetexMode::Metro)
        } else if label == "RapidTransit"@ {
            Some(NetexMode::Rail)
        } else if label == "RailShuttle"@ {
            Some(NetexMode::Rail)
        } else if label == "Shuttle"@ {
            Some(NetexMode::Bus)
        } else if label == "SuspendedCableCar"@ {
            Some(NetexMode::Cableway)
        } else if label == "Train"@ {
            Some(NetexMode::Rail)
        } else if label == "Tramway"@ {
            Some(NetexMode::Tram)
        } else {
            None
        }
    }

    /// Maps a raw physical-mode label to its category, or returns `None` for
    /// any label outside the closed documented set.
    pub fn from_physical_mode_id(physical_mode_id: &str) -> (r: Option<NetexMode>)
        ensures
            r == Self::spec_mode_of_label(physical_mode_id@),
    {
        if str_eq(physical_mode_id, "Air") {
            Some(NetexMode::Air)
        } else if str_eq(physical_mode_id, "Boat") {
            Some(NetexMode::Water)
        } else if str_eq(physical_mode_id, "Bus") {
            Some(NetexMode::Bus)
        } else if str_eq(physical_mode_id, "BusRapidTransit") {
            Some(NetexMode::Bus)
        } else if str_eq(physical_mode_id, "Coach") {
            Some(NetexMode::Coach)
        } else if str_eq(physical_mode_id, "Ferry") {
            Some(NetexMode::Water)
        } else if str_eq(physical_mode_id, "Funicular") {
            Some(NetexMode::Funicular)
        } else if str_eq(physical_mode_id, "LocalTrain") {
            Some(NetexMode::Rail)
        } else if str_eq(physical_mode_id, "LongDistanceTrain") {
            Some(NetexMode::Rail)
        } else if str_eq(physical_mode_id, "Metro") {
            Some(NetexMode::Metro)
        } else if str_eq(physical_mode_id, "RapidTransit") {
            Some(NetexMode::Rail)
        } else if str_eq(physical_mode_id, "RailShuttle") {
            Some(NetexMode::Rail)
        } else if str_eq(physical_mode_id, "Shuttle") {
            Some(NetexMode::Bus)
        } else if str_eq(physical_mode_id, "SuspendedCableCar") {
            Some(NetexMode::Cableway)
        } else if str_eq(physical_mode_id, "Train") {
            Some(NetexMode::Rail)
        } else if str_eq(physical_mode_id, "Tramway") {
            Some(NetexMode::Tram)
        } else {
            None
        }
    }

    /// Picks the single most significant mode among the given ones: the one
    /// with the lowest priority value. Returns `None` exactly when the input
    /// is empty.
    pub fn calculate_highest_mode(netex_modes: &Vec<NetexMode>) -> (r: Option<NetexMode>)
        ensures
            r is None <==> netex_modes@.len() == 0,
            r matches Some(m) ==> netex_modes@.contains(m) && forall|i: int|
                0 <= i < netex_modes@.len() ==> m.spec_priority()
                    <= #[trigger] netex_modes@[i].spec_priority(),
    {
        if netex_modes.len() == 0 {
            return None;
        }
        let mut best = netex_modes[0];
        let mut i: usize = 1;
        while i < netex_modes.len()
            invariant
                1 <= i <= netex_modes@.len(),
                netex_modes@.contains(best),
                forall|j: int| 0 <= j < i ==> best.spec_priority()
                    <= #[trigger] netex_modes@[j].spec_priority(),
            decreases netex_modes@.len() - i,
        {
            if netex_modes[i].priority() < best.priority() {
                best = netex_modes[i];
            }
            i += 1;
        }
        Some(best)
    }

    /// The lower-case display label of this mode.
    pub open spec fn spec_label(self) -> Seq<char> {
        match self {
            NetexMode::Air => "air"@,
            NetexMode::Bus => "bus"@,
            NetexMode::Cableway => "cableway"@,
            NetexMode::Coach => "coach"@,
            NetexMode::Funicular => "funicular"@,
            NetexMode::Metro => "metro"@,
            NetexMode::Rail => "rail"@,
            NetexMode::Tram => "tram"@,
            NetexMode::Water => "water"@,
        }
    }

    /// The lower-case display label of this mode.
    pub fn label(&self) -> (r: &'static str)
        ensures
            r@ == self.spec_label(),
    {
        match self {
            NetexMode::Air => "air",
            NetexMode::Bus => "bus",
            NetexMode::Cableway => "cableway",
            NetexMode::Coach => "coach",
            NetexMode::Funicular => "funicular",
            NetexMode::Metro => "metro",
            NetexMode::Rail => "rail",
            NetexMode::Tram => "tram",
            NetexMode::Water => "water",
        }
    }
}

/// Law: the priority ranking separates the modes, so the most significant
/// mode of a non-empty set is unique.
pub proof fn lemma_priority_distinct(a: NetexMode, b: NetexMode)
    ensures
        a.spec_priority() == b.spec_priority() ==> a == b,
{
}

} // verus!
