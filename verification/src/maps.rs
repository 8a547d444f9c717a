use vstd::prelude::*;
use crate::text::str_equals;

verus! {

/// The arena that the next round is played on.
#[derive(Clone, Copy, Debug, PartialEq, Eq, Structural)]
pub enum ActiveMap {
    DefaultMap,
    PillarsMap,
    StadiumMap,
    ChasmBridge,
    Gridlock,
    Hourglass,
    IceTemple,
    IndustrialFoundry,
    VerticalHelix,
    TectonicFissure,
    ZenGarden,
    SpaceStation,
    AncientColiseum,
}

/// The number of arenas.
pub const MAP_COUNT: u32 = 13;

/// The arena with the given number; every number from 12 on gives the last arena.
pub open spec fn spec_map_from_index(i: int) -> ActiveMap {
    if i <= 0 {
        ActiveMap::DefaultMap
    } else if i == 1 {
        ActiveMap::PillarsMap
    } else if i == 2 {
        ActiveMap::StadiumMap
    } else if i == 3 {
        ActiveMap::ChasmBridge
    } else if i == 4 {
        ActiveMap::Gridlock
    } else if i == 5 {
        ActiveMap::Hourglass
    } else if i == 6 {
        ActiveMap::IceTemple
    } else if i == 7 {
        ActiveMap::IndustrialFoundry
    } else if i == 8 {
        ActiveMap::VerticalHelix
    } else if i == 9 {
        ActiveMap::TectonicFissure
    } else if i == 10 {
        ActiveMap::ZenGarden
    } else if i == 11 {
        ActiveMap::SpaceStation
    } else {
        ActiveMap::AncientColiseum
    }
}

/// The position of an arena in the list of arenas.
pub open spec fn spec_map_index(m: ActiveMap) -> int {
    match m {
        ActiveMap::DefaultMap => 0,
        ActiveMap::PillarsMap => 1,
        ActiveMap::StadiumMap => 2,
        ActiveMap::ChasmBridge => 3,
        ActiveMap::Gridlock => 4,
        ActiveMap::Hourglass => 5,
        ActiveMap::IceTemple => 6,
        ActiveMap::IndustrialFoundry => 7,
        ActiveMap::VerticalHelix => 8,
        ActiveMap::TectonicFissure => 9,
        ActiveMap::ZenGarden => 10,
        ActiveMap::SpaceStation => 11,
        ActiveMap::AncientColiseum => 12,
    }
}

/// The name under which an arena travels in a host state packet (its variant name).
pub open spec fn spec_map_name(m: ActiveMap) -> Seq<char> {
    match m {
        ActiveMap::DefaultMap => "DefaultMap"@,
        ActiveMap::PillarsMap => "PillarsMap"@,
        ActiveMap::StadiumMap => "StadiumMap"@,
        ActiveMap::ChasmBridge => "ChasmBridge"@,
        ActiveMap::Gridlock => "Gridlock"@,
        ActiveMap::Hourglass => "Hourglass"@,
        ActiveMap::IceTemple => "IceTemple"@,
        ActiveMap::IndustrialFoundry => "IndustrialFoundry"@,
        ActiveMap::VerticalHelix => "VerticalHelix"@,
        ActiveMap::TectonicFissure => "TectonicFissure"@,
        ActiveMap::ZenGarden => "ZenGarden"@,
        ActiveMap::SpaceStation => "SpaceStation"@,
        ActiveMap::AncientColiseum => "AncientColiseum"@,
    }
}

/// The arena that a received name stands for; an unknown name gives the default arena.
pub open spec fn spec_parse_active_map(name: Seq<char>) -> ActiveMap {
    if name == "DefaultMap"@ {
        ActiveMap::DefaultMap
    } else if name == "PillarsMap"@ {
        ActiveMap::PillarsMap
    } else if name == "StadiumMap"@ {
        ActiveMap::StadiumMap
    } else if name == "ChasmBridge"@ {
        ActiveMap::ChasmBridge
    } else if name == "Gridlock"@ {
        ActiveMap::Gridlock
    } else if name == "Hourglass"@ {
        ActiveMap::Hourglass
    } else if name == "IceTemple"@ {
        ActiveMap::IceTemple
    } else if name == "IndustrialFoundry"@ {
        ActiveMap::IndustrialFoundry
    } else if name == "VerticalHelix"@ {
        ActiveMap::VerticalHelix
    } else if name == "TectonicFissure"@ {
        ActiveMap::TectonicFissure
    } else if name == "ZenGarden"@ {
        ActiveMap::ZenGarden
    } else if name == "SpaceStation"@ {
        ActiveMap::SpaceStation
    } else if name == "AncientColiseum"@ {
        ActiveMap::AncientColiseum
    } else {
        ActiveMap::DefaultMap
    }
}

impl ActiveMap {
    /// The arena with the given number, as the round-end and random selections number them.
    pub fn from_index(i: u32) -> (m: ActiveMap)
        ensures
            m == spec_map_from_index(i as int),
    {
        match i {
            0 => ActiveMap::DefaultMap,
            1 => ActiveMap::PillarsMap,
            2 => ActiveMap::StadiumMap,
            3 => ActiveMap::ChasmBridge,
            4 => ActiveMap::Gridlock,
            5 => ActiveMap::Hourglass,
            6 => ActiveMap::IceTemple,
            7 => ActiveMap::IndustrialFoundry,
            8 => ActiveMap::VerticalHelix,
            9 => ActiveMap::TectonicFissure,
            10 => ActiveMap::ZenGarden,
            11 => ActiveMap::SpaceStation,
            _ => ActiveMap::AncientColiseum,
        }
    }

    /// Picks the arena from a time stamp in microseconds: its remainder modulo 13 numbers the arena.
    pub fn from_time_micros(micros: u128) -> (m: ActiveMap)
        ensures
            m == spec_map_from_index((micros % 13) as int),
    {
        let r = (micros % 13) as u32;
        ActiveMap::from_index(r)
    }

    /// The name of the arena, as the host writes it into a state packet.
    pub fn name(&self) -> (s: &'static str)
        ensures
            s@ == spec_map_name(*self),
    {
        match self {
            ActiveMap::DefaultMap => "DefaultMap",
            ActiveMap::PillarsMap => "PillarsMap",
            ActiveMap::StadiumMap => "StadiumMap",
            ActiveMap::ChasmBridge => "ChasmBridge",
            ActiveMap::Gridlock => "Gridlock",
            ActiveMap::Hourglass => "Hourglass",
            ActiveMap::IceTemple => "IceTemple",
            ActiveMap::IndustrialFoundry => "IndustrialFoundry",
            ActiveMap::VerticalHelix => "VerticalHelix",
            ActiveMap::TectonicFissure => "TectonicFissure",
            ActiveMap::ZenGarden => "ZenGarden",
            ActiveMap::SpaceStation => "SpaceStation",
            ActiveMap::AncientColiseum => "AncientColiseum",
        }
    }
}

/// Reads the arena out of the name that a host state packet carries.
pub fn parse_active_map(name: &str) -> (m: ActiveMap)
    ensures
        m == spec_parse_active_map(name@),
{
    if str_equals(name, "DefaultMap") {
        ActiveMap::DefaultMap
    } else if str_equals(name, "PillarsMap") {
        ActiveMap::PillarsMap
    } else if str_equals(name, "StadiumMap") {
        ActiveMap::StadiumMap
    } else if str_equals(name, "ChasmBridge") {
        ActiveMap::ChasmBridge
    } else if str_equals(name, "Gridlock") {
        ActiveMap::Gridlock
    } else if str_equals(name, "Hourglass") {
        ActiveMap::Hourglass
    } else if str_equals(name, "IceTemple") {
        ActiveMap::IceTemple
    } else if str_equals(name, "IndustrialFoundry") {
        ActiveMap::IndustrialFoundry
    } else if str_equals(name, "VerticalHelix") {
        ActiveMap::VerticalHelix
    } else if str_equals(name, "TectonicFissure") {
        ActiveMap::TectonicFissure
    } else if str_equals(name, "ZenGarden") {
        ActiveMap::ZenGarden
    } else if str_equals(name, "SpaceStation") {
        ActiveMap::SpaceStation
    } else if str_equals(name, "AncientColiseum") {
        ActiveMap::AncientColiseum
    } else {
        ActiveMap::DefaultMap
    }
}

/// The arena a client switches to on a host packet: the arena the packet names, or `None` when
/// the client already has it.
pub fn client_map_change(current: ActiveMap, name: &str) -> (next: Option<ActiveMap>)
    ensures
        next == (if spec_parse_active_map(name@) == current {
            None
        } else {
            Some(spec_parse_active_map(name@))
        }),
{
    let target = parse_active_map(name);
    if target == current {
        None
    } else {
        Some(target)
    }
}

/// What the host sends is what the client reads: parsing the name of an arena gives that arena back.
pub proof fn lemma_map_name_round_trip(m: ActiveMap)
    ensures
        spec_parse_active_map(spec_map_name(m)) == m,
{
    reveal_strlit("DefaultMap");
    reveal_strlit("PillarsMap");
    reveal_strlit("StadiumMap");
    reveal_strlit("ChasmBridge");
    reveal_strlit("Gridlock");
    reveal_strlit("Hourglass");
    reveal_strlit("IceTemple");
    reveal_strlit("IndustrialFoundry");
    reveal_strlit("VerticalHelix");
    reveal_strlit("TectonicFissure");
    reveal_strlit("ZenGarden");
    reveal_strlit("SpaceStation");
    reveal_strlit("AncientColiseum");
    let n = spec_map_name(m);
    assert(n.len() > 2);
    assert(n == "DefaultMap"@ ==> "DefaultMap"@.len() == n.len() && "DefaultMap"@[0] == n[0] && "DefaultMap"@[1] == n[1] && "DefaultMap"@[2] == n[2]);
    assert(n == "PillarsMap"@ ==> "PillarsMap"@.len() == n.len() && "PillarsMap"@[0] == n[0] && "PillarsMap"@[1] == n[1] && "PillarsMap"@[2] == n[2]);
    assert(n == "StadiumMap"@ ==> "StadiumMap"@.len() == n.len() && "StadiumMap"@[0] == n[0] && "StadiumMap"@[1] == n[1] && "StadiumMap"@[2] == n[2]);
    assert(n == "ChasmBridge"@ ==> "ChasmBridge"@.len() == n.len() && "ChasmBridge"@[0] == n[0] && "ChasmBridge"@[1] == n[1] && "ChasmBridge"@[2] == n[2]);
    assert(n == "Gridlock"@ ==> "Gridlock"@.len() == n.len() && "Gridlock"@[0] == n[0] && "Gridlock"@[1] == n[1] && "Gridlock"@[2] == n[2]);
    assert(n == "Hourglass"@ ==> "Hourglass"@.len() == n.len() && "Hourglass"@[0] == n[0] && "Hourglass"@[1] == n[1] && "Hourglass"@[2] == n[2]);
    assert(n == "IceTemple"@ ==> "IceTemple"@.len() == n.len() && "IceTemple"@[0] == n[0] && "IceTemple"@[1] == n[1] && "IceTemple"@[2] == n[2]);
    assert(n == "IndustrialFoundry"@ ==> "IndustrialFoundry"@.len() == n.len() && "IndustrialFoundry"@[0] == n[0] && "IndustrialFoundry"@[1] == n[1] && "IndustrialFoundry"@[2] == n[2]);
    assert(n == "VerticalHelix"@ ==> "VerticalHelix"@.len() == n.len() && "VerticalHelix"@[0] == n[0] && "VerticalHelix"@[1] == n[1] && "VerticalHelix"@[2] == n[2]);
    assert(n == "TectonicFissure"@ ==> "TectonicFissure"@.len() == n.len() && "TectonicFissure"@[0] == n[0] && "TectonicFissure"@[1] == n[1] && "TectonicFissure"@[2] == n[2]);
    assert(n == "ZenGarden"@ ==> "ZenGarden"@.len() == n.len() && "ZenGarden"@[0] == n[0] && "ZenGarden"@[1] == n[1] && "ZenGarden"@[2] == n[2]);
    assert(n == "SpaceStation"@ ==> "SpaceStation"@.len() == n.len() && "SpaceStation"@[0] == n[0] && "SpaceStation"@[1] == n[1] && "SpaceStation"@[2] == n[2]);
    assert(n == "AncientColiseum"@ ==> "AncientColiseum"@.len() == n.len() && "AncientColiseum"@[0] == n[0] && "AncientColiseum"@[1] == n[1] && "AncientColiseum"@[2] == n[2]);
}

/// Numbering the arenas from 0 to 12 reaches every arena exactly once.
pub proof fn lemma_map_index_round_trip(m: ActiveMap)
    ensures
        0 <= spec_map_index(m) < MAP_COUNT,
        spec_map_from_index(spec_map_index(m)) == m,
{
}

/// The arenas are numbered in this order, as the round end draws them: 0 Default, 1 Pillars,
/// 2 Stadium, 3 Chasm Bridge, 4 Gridlock, 5 Hourglass, 6 Ice Temple, 7 Industrial Foundry,
/// 8 Vertical Helix, 9 Tectonic Fissure, 10 Zen Garden, 11 Space Station, and 12 or more the
/// Ancient Coliseum.
pub proof fn lemma_arena_table(n: int)
    ensures
        spec_map_from_index(0) == ActiveMap::DefaultMap,
        spec_map_from_index(1) == ActiveMap::PillarsMap,
        spec_map_from_index(2) == ActiveMap::StadiumMap,
        spec_map_from_index(3) == ActiveMap::ChasmBridge,
        spec_map_from_index(4) == ActiveMap::Gridlock,
        spec_map_from_index(5) == ActiveMap::Hourglass,
        spec_map_from_index(6) == ActiveMap::IceTemple,
        spec_map_from_index(7) == ActiveMap::IndustrialFoundry,
        spec_map_from_index(8) == ActiveMap::VerticalHelix,
        spec_map_from_index(9) == ActiveMap::TectonicFissure,
        spec_map_from_index(10) == ActiveMap::ZenGarden,
        spec_map_from_index(11) == ActiveMap::SpaceStation,
        n >= 12 ==> spec_map_from_index(n) == ActiveMap::AncientColiseum,
{
}

} // verus!
