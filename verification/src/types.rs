//! Identifiers and classifications shared by every layer of the crate.

use vstd::prelude::*;

verus! {

/// An id of an agent present in the encounter.
///
/// The id is stable for the whole log and is never reused. `0` is never
/// assigned to an agent and serves as the empty id.
#[derive(Clone, Copy, PartialEq, Eq, Structural, Debug, Hash)]
pub struct AgentId(pub u64);

impl AgentId {
    /// Creates an empty agent id.
    pub fn empty() -> (id: Self)
        ensures
            id.0 == 0,
    {
        AgentId(0)
    }

    /// Wraps a `u64` in an `AgentId`.
    pub fn new(id: u64) -> (r: Self)
        ensures
            r.0 == id,
    {
        AgentId(id)
    }
}

impl Default for AgentId {
    fn default() -> (id: Self)
        ensures
            id.0 == 0,
    {
        AgentId(0)
    }
}

/// An id representing an instance of an agent present in the encounter.
///
/// Instance ids are handed out by the game session and are reused once an
/// agent has despawned.
#[derive(Clone, Copy, PartialEq, Eq, Structural, Debug, Hash)]
pub struct InstanceId(pub u16);

impl InstanceId {
    /// Creates an empty instance id.
    pub fn empty() -> (id: Self)
        ensures
            id.0 == 0,
    {
        InstanceId(0)
    }

    /// Wraps a `u16` in an `InstanceId`.
    pub fn new(id: u16) -> (r: Self)
        ensures
            r.0 == id,
    {
        InstanceId(id)
    }
}

impl Default for InstanceId {
    fn default() -> (id: Self)
        ensures
            id.0 == 0,
    {
        InstanceId(0)
    }
}

/// An id representing the type of enemy or gadget an agent is.
#[derive(Clone, Copy, PartialEq, Eq, Structural, Debug, Hash)]
pub struct SpeciesId(pub u16);

impl SpeciesId {
    /// Creates a new empty species id.
    pub fn empty() -> (id: Self)
        ensures
            id.0 == 0,
    {
        SpeciesId(0)
    }

    /// Wraps a `u16` in a `SpeciesId`.
    pub fn new(id: u16) -> (r: Self)
        ensures
            r.0 == id,
    {
        SpeciesId(id)
    }
}

impl Default for SpeciesId {
    fn default() -> (id: Self)
        ensures
            id.0 == 0,
    {
        SpeciesId(0)
    }
}

/// The type of profession, includes NPCs and gadgets.
#[derive(Clone, Copy, PartialEq, Eq, Structural, Debug, Hash)]
pub enum Profession {
    Gadget(SpeciesId),
    NonPlayableCharacter(SpeciesId),
    // Base professions
    Guardian,
    Warrior,
    Revenant,
    Engineer,
    Ranger,
    Thief,
    Elementalist,
    Mesmer,
    Necromancer,
    // Heart of Thorns professions
    Dragonhunter,
    Berserker,
    Herald,
    Scrapper,
    Druid,
    Daredevil,
    Tempest,
    Chronomancer,
    Reaper,
    // Path of Fire professions
    Soulbeast,
    Weaver,
    Holosmith,
    Deadeye,
    Mirage,
    Scourge,
    Spellbreaker,
    Firebrand,
    Renegade,
    /// Unknown profession, should not happen.
    Unknown,
}

impl Profession {
    /// The base profession an elite specialization belongs to; every other
    /// value is its own base.
    pub open spec fn spec_core_profession(self) -> Profession {
        match self {
            Profession::Dragonhunter | Profession::Firebrand => Profession::Guardian,
            Profession::Berserker | Profession::Spellbreaker => Profession::Warrior,
            Profession::Herald | Profession::Renegade => Profession::Revenant,
            Profession::Scrapper | Profession::Holosmith => Profession::Engineer,
            Profession::Druid | Profession::Soulbeast => Profession::Ranger,
            Profession::Daredevil | Profession::Deadeye => Profession::Thief,
            Profession::Tempest | Profession::Weaver => Profession::Elementalist,
            Profession::Chronomancer | Profession::Mirage => Profession::Mesmer,
            Profession::Reaper | Profession::Scourge => Profession::Necromancer,
            x => x,
        }
    }

    /// True for the nine base professions.
    pub open spec fn is_base(self) -> bool {
        matches!(
            self,
            Profession::Guardian | Profession::Warrior | Profession::Revenant
                | Profession::Engineer | Profession::Ranger | Profession::Thief
                | Profession::Elementalist | Profession::Mesmer | Profession::Necromancer
        )
    }

    /// True for everything a player can play: base professions and elite
    /// specializations.
    pub open spec fn spec_is_player_character(self) -> bool {
        self.spec_core_profession().is_base()
    }

    /// The species of an NPC or gadget.
    pub open spec fn spec_species_id(self) -> Option<SpeciesId> {
        match self {
            Profession::Gadget(s) => Some(s),
            Profession::NonPlayableCharacter(s) => Some(s),
            _ => None,
        }
    }

    /// Returns the base profession of any given profession.
    pub fn core_profession(self) -> (p: Profession)
        ensures
            p == self.spec_core_profession(),
    {
        match self {
            Profession::Dragonhunter => Profession::Guardian,
            Profession::Firebrand => Profession::Guardian,
            Profession::Berserker => Profession::Warrior,
            Profession::Spellbreaker => Profession::Warrior,
            Profession::Herald => Profession::Revenant,
            Profession::Renegade => Profession::Revenant,
            Profession::Scrapper => Profession::Engineer,
            Profession::Holosmith => Profession::Engineer,
            Profession::Druid => Profession::Ranger,
            Profession::Soulbeast => Profession::Ranger,
            Profession::Daredevil => Profession::Thief,
            Profession::Deadeye => Profession::Thief,
            Profession::Tempest => Profession::Elementalist,
            Profession::Weaver => Profession::Elementalist,
            Profession::Chronomancer => Profession::Mesmer,
            Profession::Mirage => Profession::Mesmer,
            Profession::Reaper => Profession::Necromancer,
            Profession::Scourge => Profession::Necromancer,
            x => x,
        }
    }

    /// True if the profession is one a player can have, false for NPCs,
    /// gadgets and unknown values.
    pub fn is_player_character(self) -> (b: bool)
        ensures
            b == self.spec_is_player_character(),
    {
        match self {
            Profession::Gadget(_) | Profession::NonPlayableCharacter(_) | Profession::Unknown => false,
            _ => true,
        }
    }

    /// The species id carried by NPCs and gadgets, `None` for player
    /// professions.
    pub fn species_id(self) -> (s: Option<SpeciesId>)
        ensures
            s == self.spec_species_id(),
    {
        match self {
            Profession::Gadget(s) => Some(s),
            Profession::NonPlayableCharacter(s) => Some(s),
            _ => None,
        }
    }
}

/// Taking the base profession twice changes nothing.
pub proof fn lemma_core_profession_idempotent(p: Profession)
    ensures
        p.spec_core_profession().spec_core_profession() == p.spec_core_profession(),
        p.spec_core_profession().spec_is_player_character() == p.spec_is_player_character(),
{
}

/// Raid bosses.
#[derive(Clone, Copy, PartialEq, Eq, Structural, Debug, Hash)]
pub enum Boss {
    ValeGuardian,
    Gorseval,
    Sabetha,
    Slothasor,
    Matthias,
    KeepConstruct,
    Xera,
    Cairn,
    MursaatOverseer,
    Samarog,
    Deimos,
    SoullessHorror,
    Dhuum,
    Unknown,
}

impl Boss {
    /// The boss a species id designates.
    pub open spec fn spec_from_species_id(species: SpeciesId) -> Boss {
        if species.0 == 0x3c4e {
            Boss::ValeGuardian
        } else if species.0 == 0x3c45 {
            Boss::Gorseval
        } else if species.0 == 0x3c0f {
            Boss::Sabetha
        } else if species.0 == 0x3efb {
            Boss::Slothasor
        } else if species.0 == 0x3ef3 {
            Boss::Matthias
        } else if species.0 == 0x3f6b {
            Boss::KeepConstruct
        } else if species.0 == 0x3f76 {
            Boss::Xera
        } else if species.0 == 0x432a {
            Boss::Cairn
        } else if species.0 == 0x4314 {
            Boss::MursaatOverseer
        } else if species.0 == 0x4324 {
            Boss::Samarog
        } else if species.0 == 0x4302 {
            Boss::Deimos
        } else if species.0 == 0x4d37 {
            Boss::SoullessHorror
        } else if species.0 == 0x4bfa {
            Boss::Dhuum
        } else {
            Boss::Unknown
        }
    }

    /// Produces a `Boss` id from a `SpeciesId`.
    pub fn from_species_id(species: SpeciesId) -> (b: Boss)
        ensures
            b == Boss::spec_from_species_id(species),
    {
        match species.0 {
            0x3c4e => Boss::ValeGuardian,
            0x3c45 => Boss::Gorseval,
            0x3c0f => Boss::Sabetha,
            0x3efb => Boss::Slothasor,
            0x3ef3 => Boss::Matthias,
            0x3f6b => Boss::KeepConstruct,
            0x3f76 => Boss::Xera,
            0x432a => Boss::Cairn,
            0x4314 => Boss::MursaatOverseer,
            0x4324 => Boss::Samarog,
            0x4302 => Boss::Deimos,
            0x4d37 => Boss::SoullessHorror,
            0x4bfa => Boss::Dhuum,
            _ => Boss::Unknown,
        }
    }
}

} // verus!
