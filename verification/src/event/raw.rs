//! The binary layout of an EVTC log: header, agent table, skill table and the
//! stream of fixed-width combat records. All integers are little-endian and
//! the records are densely packed.

use vstd::prelude::*;
use vstd::string::StringSliceAdditionalSpecFns;

use crate::types::AgentId;
use crate::types::Profession;
use crate::types::SpeciesId;

verus! {

/// Size of the file header in bytes.
pub const HEADER_SIZE: usize = 20;

/// Size of one agent record in bytes.
pub const AGENT_SIZE: usize = 96;

/// Size of one skill record in bytes.
pub const SKILL_SIZE: usize = 68;

/// Size of one combat record in bytes.
pub const EVENT_SIZE: usize = 64;

/// Size of the name field of an agent record.
pub const AGENT_NAME_SIZE: usize = 68;

/// Size of the name field of a skill record.
pub const SKILL_NAME_SIZE: usize = 64;

/// Skill id under which weapon swaps are logged.
pub const WEAPON_SWAP: u16 = 65534;

/// The 16-bit little-endian value at `at`.
pub open spec fn le_u16(s: Seq<u8>, at: int) -> u16 {
    (s[at] as int + s[at + 1] as int * 0x100) as u16
}

/// The 32-bit little-endian value at `at`.
pub open spec fn le_u32(s: Seq<u8>, at: int) -> u32 {
    (s[at] as int + s[at + 1] as int * 0x100 + s[at + 2] as int * 0x1_0000 + s[at + 3] as int
        * 0x100_0000) as u32
}

/// The 64-bit little-endian value at `at`.
pub open spec fn le_u64(s: Seq<u8>, at: int) -> u64 {
    (le_u32(s, at) as int + le_u32(s, at + 4) as int * 0x1_0000_0000) as u64
}

/// The signed value a 32-bit pattern stands for in two's complement.
pub open spec fn signed32(bits: u32) -> i32 {
    if bits < 0x8000_0000 {
        bits as i32
    } else {
        (bits as int - 0x1_0000_0000) as i32
    }
}

/// The bit pattern of a signed 32-bit value in two's complement.
pub open spec fn unsigned32(value: i32) -> u32 {
    if value >= 0 {
        value as u32
    } else {
        (value as int + 0x1_0000_0000) as u32
    }
}

/// Bit pattern and signed value determine each other.
pub proof fn lemma_signed32_roundtrip(bits: u32, value: i32)
    ensures
        unsigned32(signed32(bits)) == bits,
        signed32(unsigned32(value)) == value,
{
}

/// The signed 32-bit little-endian value at `at`.
pub open spec fn le_i32(s: Seq<u8>, at: int) -> i32 {
    signed32(le_u32(s, at))
}

/// Reads a little-endian `u16`.
pub fn read_u16(buf: &[u8], at: usize) -> (r: u16)
    requires
        at + 2 <= buf.len(),
    ensures
        r == le_u16(buf@, at as int),
{
    let b0: u16 = buf[at] as u16;
    let b1: u16 = buf[at + 1] as u16;
    b0 + b1 * 0x100
}

/// Reads a little-endian `u32`.
pub fn read_u32(buf: &[u8], at: usize) -> (r: u32)
    requires
        at + 4 <= buf.len(),
    ensures
        r == le_u32(buf@, at as int),
{
    let b0: u32 = buf[at] as u32;
    let b1: u32 = buf[at + 1] as u32;
    let b2: u32 = buf[at + 2] as u32;
    let b3: u32 = buf[at + 3] as u32;
    b0 + b1 * 0x100 + b2 * 0x1_0000 + b3 * 0x100_0000
}

/// Reads a little-endian `u64`.
pub fn read_u64(buf: &[u8], at: usize) -> (r: u64)
    requires
        at + 8 <= buf.len(),
    ensures
        r == le_u64(buf@, at as int),
{
    let lo: u64 = read_u32(buf, at) as u64;
    let hi: u64 = read_u32(buf, at + 4) as u64;
    lo + hi * 0x1_0000_0000
}

/// Reinterprets a 32-bit pattern as a signed value.
pub fn to_signed32(bits: u32) -> (r: i32)
    ensures
        r == signed32(bits),
{
    if bits < 0x8000_0000 {
        bits as i32
    } else {
        (bits as i64 - 0x1_0000_0000) as i32
    }
}

/// Reinterprets a signed value as its 32-bit pattern.
pub fn to_unsigned32(value: i32) -> (r: u32)
    ensures
        r == unsigned32(value),
{
    if value >= 0 {
        value as u32
    } else {
        (value as i64 + 0x1_0000_0000) as u32
    }
}

/// Reads a little-endian `i32`.
pub fn read_i32(buf: &[u8], at: usize) -> (r: i32)
    requires
        at + 4 <= buf.len(),
    ensures
        r == le_i32(buf@, at as int),
{
    to_signed32(read_u32(buf, at))
}

/// If the event targets a friendly (green) or foe (red) agent.
#[derive(Clone, Copy, PartialEq, Eq, Structural, Debug)]
pub enum IFF {
    /// Targeting a friendly.
    Friend,
    /// Targeting an enemy.
    Foe,
    /// Something is wrong.
    Unknown,
}

impl IFF {
    /// The value a wire code stands for, `None` for codes that are not assigned.
    pub open spec fn spec_from_u8(code: u8) -> Option<IFF> {
        if code == 0 {
            Some(IFF::Friend)
        } else if code == 1 {
            Some(IFF::Foe)
        } else if code == 2 {
            Some(IFF::Unknown)
        } else {
            None
        }
    }

    /// The wire code of a value.
    pub open spec fn spec_code(self) -> u8 {
        match self {
            IFF::Friend => 0,
            IFF::Foe => 1,
            IFF::Unknown => 2,
        }
    }

    /// Decodes a wire code, `None` for codes that are not assigned.
    pub fn from_u8(code: u8) -> (r: Option<IFF>)
        ensures
            r == IFF::spec_from_u8(code),
    {
        match code {
            0 => Some(IFF::Friend),
            1 => Some(IFF::Foe),
            2 => Some(IFF::Unknown),
            _ => None,
        }
    }

    /// The wire code of the value.
    pub fn code(self) -> (c: u8)
        ensures
            c == self.spec_code(),
            IFF::spec_from_u8(c) == Some(self),
    {
        match self {
            IFF::Friend => 0,
            IFF::Foe => 1,
            IFF::Unknown => 2,
        }
    }
}

/// Result of a hit.
#[derive(Clone, Copy, PartialEq, Eq, Structural, Debug)]
pub enum HitResult {
    /// Good physical hit.
    Normal,
    /// Physical hit was a critical hit.
    Crit,
    /// Physical hit was a glancing hit.
    Glance,
    /// Physical hit was blocked.
    Block,
    /// Physical hit was evaded.
    Evade,
    /// Physical hit interrupted something.
    Interrupt,
    /// Physical hit was absorbed or met invulnerability.
    Absorb,
    /// Physical hit missed.
    Blind,
    /// Physical hit was the killing hit.
    KillingBlow,
    /// Physical hit was the downing hit.
    DowningBlow,
}

impl HitResult {
    /// The value a wire code stands for, `None` for codes that are not assigned.
    pub open spec fn spec_from_u8(code: u8) -> Option<HitResult> {
        if code == 0 {
            Some(HitResult::Normal)
        } else if code == 1 {
            Some(HitResult::Crit)
        } else if code == 2 {
            Some(HitResult::Glance)
        } else if code == 3 {
            Some(HitResult::Block)
        } else if code == 4 {
            Some(HitResult::Evade)
        } else if code == 5 {
            Some(HitResult::Interrupt)
        } else if code == 6 {
            Some(HitResult::Absorb)
        } else if code == 7 {
            Some(HitResult::Blind)
        } else if code == 8 {
            Some(HitResult::KillingBlow)
        } else if code == 9 {
            Some(HitResult::DowningBlow)
        } else {
            None
        }
    }

    /// The wire code of a value.
    pub open spec fn spec_code(self) -> u8 {
        match self {
            HitResult::Normal => 0,
            HitResult::Crit => 1,
            HitResult::Glance => 2,
            HitResult::Block => 3,
            HitResult::Evade => 4,
            HitResult::Interrupt => 5,
            HitResult::Absorb => 6,
            HitResult::Blind => 7,
            HitResult::KillingBlow => 8,
            HitResult::DowningBlow => 9,
        }
    }

    /// Decodes a wire code, `None` for codes that are not assigned.
    pub fn from_u8(code: u8) -> (r: Option<HitResult>)
        ensures
            r == HitResult::spec_from_u8(code),
    {
        match code {
            0 => Some(HitResult::Normal),
            1 => Some(HitResult::Crit),
            2 => Some(HitResult::Glance),
            3 => Some(HitResult::Block),
            4 => Some(HitResult::Evade),
            5 => Some(HitResult::Interrupt),
            6 => Some(HitResult::Absorb),
            7 => Some(HitResult::Blind),
            8 => Some(HitResult::KillingBlow),
            9 => Some(HitResult::DowningBlow),
            _ => None,
        }
    }

    /// The wire code of the value.
    pub fn code(self) -> (c: u8)
        ensures
            c == self.spec_code(),
            HitResult::spec_from_u8(c) == Some(self),
    {
        match self {
            HitResult::Normal => 0,
            HitResult::Crit => 1,
            HitResult::Glance => 2,
            HitResult::Block => 3,
            HitResult::Evade => 4,
            HitResult::Interrupt => 5,
            HitResult::Absorb => 6,
            HitResult::Blind => 7,
            HitResult::KillingBlow => 8,
            HitResult::DowningBlow => 9,
        }
    }
}

/// Skill activation kinds.
#[derive(Clone, Copy, PartialEq, Eq, Structural, Debug)]
pub enum CombatActivation {
    /// Not an activation.
    NoActivation,
    /// Started without quickness.
    Normal,
    /// Started with quickness (+50% animation speed).
    Quickness,
    /// Canceled after reaching the channel time.
    CancelFire,
    /// Canceled before reaching the channel time.
    Cancel,
    /// Animation completed fully.
    Reset,
}

impl CombatActivation {
    /// The value a wire code stands for, `None` for codes that are not assigned.
    pub open spec fn spec_from_u8(code: u8) -> Option<CombatActivation> {
        if code == 0 {
            Some(CombatActivation::NoActivation)
        } else if code == 1 {
            Some(CombatActivation::Normal)
        } else if code == 2 {
            Some(CombatActivation::Quickness)
        } else if code == 3 {
            Some(CombatActivation::CancelFire)
        } else if code == 4 {
            Some(CombatActivation::Cancel)
        } else if code == 5 {
            Some(CombatActivation::Reset)
        } else {
            None
        }
    }

    /// The wire code of a value.
    pub open spec fn spec_code(self) -> u8 {
        match self {
            CombatActivation::NoActivation => 0,
            CombatActivation::Normal => 1,
            CombatActivation::Quickness => 2,
            CombatActivation::CancelFire => 3,
            CombatActivation::Cancel => 4,
            CombatActivation::Reset => 5,
        }
    }

    /// Decodes a wire code, `None` for codes that are not assigned.
    pub fn from_u8(code: u8) -> (r: Option<CombatActivation>)
        ensures
            r == CombatActivation::spec_from_u8(code),
    {
        match code {
            0 => Some(CombatActivation::NoActivation),
            1 => Some(CombatActivation::Normal),
            2 => Some(CombatActivation::Quickness),
            3 => Some(CombatActivation::CancelFire),
            4 => Some(CombatActivation::Cancel),
            5 => Some(CombatActivation::Reset),
            _ => None,
        }
    }

    /// The wire code of the value.
    pub fn code(self) -> (c: u8)
        ensures
            c == self.spec_code(),
            CombatActivation::spec_from_u8(c) == Some(self),
    {
        match self {
            CombatActivation::NoActivation => 0,
            CombatActivation::Normal => 1,
            CombatActivation::Quickness => 2,
            CombatActivation::CancelFire => 3,
            CombatActivation::Cancel => 4,
            CombatActivation::Reset => 5,
        }
    }
}

/// Agent state changes, and also some state changes that belong to no agent.
#[derive(Clone, Copy, PartialEq, Eq, Structural, Debug)]
pub enum CombatStateChange {
    /// Not a state change.
    NoChange,
    /// Source agent entered combat, destination agent field holds the subgroup.
    EnterCombat,
    /// Source agent left combat.
    ExitCombat,
    /// Source agent is now alive.
    ChangeUp,
    /// Source agent is now dead.
    ChangeDead,
    /// Source agent is now downed.
    ChangeDown,
    /// Source agent is now in tracking range.
    Spawn,
    /// Source agent is no longer being tracked.
    Despawn,
    /// Source agent has reached a health marker, destination agent field holds percent * 10000.
    HealthUpdate,
    /// Log start, value holds the server unix timestamp, buff damage the local one.
    LogStart,
    /// Log end, value holds the server unix timestamp, buff damage the local one.
    LogEnd,
    /// Source agent swapped weapon set.
    WeapSwap,
    /// Source agent has had its maximum health changed.
    MaxHealthUpdate,
    /// Source agent is the recording player.
    PointOfView,
    /// Source agent field holds the text language.
    Language,
    /// Source agent field holds the game build.
    GwBuild,
    /// Source agent field holds the server shard id.
    ShardId,
    /// Source agent got a reward, destination agent field holds the reward id, value the reward type.
    Reward,
    /// Appears once per buff per agent on logging start.
    BuffInitial,
    /// Source agent changed position, three floats starting at the destination agent field.
    Position,
    /// Source agent changed velocity, three floats starting at the destination agent field.
    Velocity,
    /// Source agent changed facing, two floats in the destination agent field.
    Facing,
}

impl CombatStateChange {
    /// The value a wire code stands for, `None` for codes that are not assigned.
    pub open spec fn spec_from_u8(code: u8) -> Option<CombatStateChange> {
        if code == 0 {
            Some(CombatStateChange::NoChange)
        } else if code == 1 {
            Some(CombatStateChange::EnterCombat)
        } else if code == 2 {
            Some(CombatStateChange::ExitCombat)
        } else if code == 3 {
            Some(CombatStateChange::ChangeUp)
        } else if code == 4 {
            Some(CombatStateChange::ChangeDead)
        } else if code == 5 {
            Some(CombatStateChange::ChangeDown)
        } else if code == 6 {
            Some(CombatStateChange::Spawn)
        } else if code == 7 {
            Some(CombatStateChange::Despawn)
        } else if code == 8 {
            Some(CombatStateChange::HealthUpdate)
        } else if code == 9 {
            Some(CombatStateChange::LogStart)
        } else if code == 10 {
            Some(CombatStateChange::LogEnd)
        } else if code == 11 {
            Some(CombatStateChange::WeapSwap)
        } else if code == 12 {
            Some(CombatStateChange::MaxHealthUpdate)
        } else if code == 13 {
            Some(CombatStateChange::PointOfView)
        } else if code == 14 {
            Some(CombatStateChange::Language)
        } else if code == 15 {
            Some(CombatStateChange::GwBuild)
        } else if code == 16 {
            Some(CombatStateChange::ShardId)
        } else if code == 17 {
            Some(CombatStateChange::Reward)
        } else if code == 18 {
            Some(CombatStateChange::BuffInitial)
        } else if code == 19 {
            Some(CombatStateChange::Position)
        } else if code == 20 {
            Some(CombatStateChange::Velocity)
        } else if code == 21 {
            Some(CombatStateChange::Facing)
        } else {
            None
        }
    }

    /// The wire code of a value.
    pub open spec fn spec_code(self) -> u8 {
        match self {
            CombatStateChange::NoChange => 0,
            CombatStateChange::EnterCombat => 1,
            CombatStateChange::ExitCombat => 2,
            CombatStateChange::ChangeUp => 3,
            CombatStateChange::ChangeDead => 4,
            CombatStateChange::ChangeDown => 5,
            CombatStateChange::Spawn => 6,
            CombatStateChange::Despawn => 7,
            CombatStateChange::HealthUpdate => 8,
            CombatStateChange::LogStart => 9,
            CombatStateChange::LogEnd => 10,
            CombatStateChange::WeapSwap => 11,
            CombatStateChange::MaxHealthUpdate => 12,
            CombatStateChange::PointOfView => 13,
            CombatStateChange::Language => 14,
            CombatStateChange::GwBuild => 15,
            CombatStateChange::ShardId => 16,
            CombatStateChange::Reward => 17,
            CombatStateChange::BuffInitial => 18,
            CombatStateChange::Position => 19,
            CombatStateChange::Velocity => 20,
            CombatStateChange::Facing => 21,
        }
    }

    /// Decodes a wire code, `None` for codes that are not assigned.
    pub fn from_u8(code: u8) -> (r: Option<CombatStateChange>)
        ensures
            r == CombatStateChange::spec_from_u8(code),
    {
        match code {
            0 => Some(CombatStateChange::NoChange),
            1 => Some(CombatStateChange::EnterCombat),
            2 => Some(CombatStateChange::ExitCombat),
            3 => Some(CombatStateChange::ChangeUp),
            4 => Some(CombatStateChange::ChangeDead),
            5 => Some(CombatStateChange::ChangeDown),
            6 => Some(CombatStateChange::Spawn),
            7 => Some(CombatStateChange::Despawn),
            8 => Some(CombatStateChange::HealthUpdate),
            9 => Some(CombatStateChange::LogStart),
            10 => Some(CombatStateChange::LogEnd),
            11 => Some(CombatStateChange::WeapSwap),
            12 => Some(CombatStateChange::MaxHealthUpdate),
            13 => Some(CombatStateChange::PointOfView),
            14 => Some(CombatStateChange::Language),
            15 => Some(CombatStateChange::GwBuild),
            16 => Some(CombatStateChange::ShardId),
            17 => Some(CombatStateChange::Reward),
            18 => Some(CombatStateChange::BuffInitial),
            19 => Some(CombatStateChange::Position),
            20 => Some(CombatStateChange::Velocity),
            21 => Some(CombatStateChange::Facing),
            _ => None,
        }
    }

    /// The wire code of the value.
    pub fn code(self) -> (c: u8)
        ensures
            c == self.spec_code(),
            CombatStateChange::spec_from_u8(c) == Some(self),
    {
        match self {
            CombatStateChange::NoChange => 0,
            CombatStateChange::EnterCombat => 1,
            CombatStateChange::ExitCombat => 2,
            CombatStateChange::ChangeUp => 3,
            CombatStateChange::ChangeDead => 4,
            CombatStateChange::ChangeDown => 5,
            CombatStateChange::Spawn => 6,
            CombatStateChange::Despawn => 7,
            CombatStateChange::HealthUpdate => 8,
            CombatStateChange::LogStart => 9,
            CombatStateChange::LogEnd => 10,
            CombatStateChange::WeapSwap => 11,
            CombatStateChange::MaxHealthUpdate => 12,
            CombatStateChange::PointOfView => 13,
            CombatStateChange::Language => 14,
            CombatStateChange::GwBuild => 15,
            CombatStateChange::ShardId => 16,
            CombatStateChange::Reward => 17,
            CombatStateChange::BuffInitial => 18,
            CombatStateChange::Position => 19,
            CombatStateChange::Velocity => 20,
            CombatStateChange::Facing => 21,
        }
    }
}

/// Buff removal kinds.
#[derive(Clone, Copy, PartialEq, Eq, Structural, Debug)]
pub enum CombatBuffRemove {
    /// Not a buff removal.
    NoRemoval,
    /// All buff stacks removed.
    All,
    /// Single stack removed, happens for each stack on cleanse.
    Single,
    /// Removed automatically, by leaving combat or by the stack limit.
    Manual,
}

impl CombatBuffRemove {
    /// The value a wire code stands for, `None` for codes that are not assigned.
    pub open spec fn spec_from_u8(code: u8) -> Option<CombatBuffRemove> {
        if code == 0 {
            Some(CombatBuffRemove::NoRemoval)
        } else if code == 1 {
            Some(CombatBuffRemove::All)
        } else if code == 2 {
            Some(CombatBuffRemove::Single)
        } else if code == 3 {
            Some(CombatBuffRemove::Manual)
        } else {
            None
        }
    }

    /// The wire code of a value.
    pub open spec fn spec_code(self) -> u8 {
        match self {
            CombatBuffRemove::NoRemoval => 0,
            CombatBuffRemove::All => 1,
            CombatBuffRemove::Single => 2,
            CombatBuffRemove::Manual => 3,
        }
    }

    /// Decodes a wire code, `None` for codes that are not assigned.
    pub fn from_u8(code: u8) -> (r: Option<CombatBuffRemove>)
        ensures
            r == CombatBuffRemove::spec_from_u8(code),
    {
        match code {
            0 => Some(CombatBuffRemove::NoRemoval),
            1 => Some(CombatBuffRemove::All),
            2 => Some(CombatBuffRemove::Single),
            3 => Some(CombatBuffRemove::Manual),
            _ => None,
        }
    }

    /// The wire code of the value.
    pub fn code(self) -> (c: u8)
        ensures
            c == self.spec_code(),
            CombatBuffRemove::spec_from_u8(c) == Some(self),
    {
        match self {
            CombatBuffRemove::NoRemoval => 0,
            CombatBuffRemove::All => 1,
            CombatBuffRemove::Single => 2,
            CombatBuffRemove::Manual => 3,
        }
    }
}

/// The combat data version, `V1` is not binary-compatible with `V2`.
#[derive(Clone, Copy, PartialEq, Eq, Structural, Debug)]
pub enum CombatDataVersion {
    V1,
    V2,
}

/// Language constants.
#[derive(Clone, Copy, PartialEq, Eq, Structural, Debug)]
pub enum Language {
    English,
    French,
    German,
    Spanish,
}

impl Language {
    /// The language an agent id field stands for; English unless the field
    /// names another.
    pub open spec fn spec_from_agent_id(id: u64) -> Language {
        if id == 2 {
            Language::French
        } else if id == 3 {
            Language::German
        } else if id == 4 {
            Language::Spanish
        } else {
            Language::English
        }
    }

    /// Language is stored as agent id.
    pub fn from_agent_id(id: u64) -> (l: Language)
        ensures
            l == Language::spec_from_agent_id(id),
    {
        match id {
            2 => Language::French,
            3 => Language::German,
            4 => Language::Spanish,
            _ => Language::English,
        }
    }
}

/// Why a buffer or a field of it could not be decoded.
#[derive(Clone, Copy, PartialEq, Eq, Structural, Debug)]
pub enum DecodeError {
    /// The buffer is shorter than the header.
    MissingHeader,
    /// The buffer ends inside the agent table.
    MissingAgents,
    /// The buffer ends before the skill count.
    MissingSkillCount,
    /// The buffer ends inside the skill table.
    MissingSkills,
    /// A name field holds fewer NUL-terminated strings than were asked for.
    MissingTerminator,
    /// A name is not valid UTF-8.
    InvalidUtf8,
}

/// The position of the first NUL at or after `from`, the length of `s` if
/// there is none.
pub open spec fn nul_from(s: Seq<u8>, from: int) -> int
    decreases s.len() - from,
{
    if from >= s.len() {
        s.len() as int
    } else if s[from] == 0 {
        from
    } else {
        nul_from(s, from + 1)
    }
}

/// Where the `n`-th string of a name field starts: the first at 0, each other
/// one behind the NUL that ends its predecessor.
pub open spec fn segment_start(s: Seq<u8>, n: nat) -> int
    decreases n,
{
    if n == 0 {
        0
    } else {
        nul_from(s, segment_start(s, (n - 1) as nat)) + 1
    }
}

/// The `n`-th NUL-terminated string of a name field, without its NUL; `None`
/// if the field holds fewer than `n + 1` terminated strings.
pub open spec fn segment(s: Seq<u8>, n: nat) -> Option<Seq<u8>> {
    let start = segment_start(s, n);
    let end = nul_from(s, start);
    if start <= s.len() && end < s.len() {
        Some(s.subrange(start, end))
    } else {
        None
    }
}

/// `nul_from` stays inside the field, finds a NUL if it stops early, and
/// passes no NUL on the way.
pub proof fn lemma_nul_from(s: Seq<u8>, from: int)
    requires
        0 <= from,
    ensures
        from <= s.len() ==> from <= nul_from(s, from) <= s.len(),
        from > s.len() ==> nul_from(s, from) == s.len(),
        nul_from(s, from) < s.len() ==> s[nul_from(s, from)] == 0,
        forall|i: int| from <= i < nul_from(s, from) ==> s[i] != 0,
    decreases s.len() - from,
{
    if from < s.len() && s[from] != 0 {
        lemma_nul_from(s, from + 1);
    }
}

/// Segment starts are never negative.
pub proof fn lemma_segment_start(s: Seq<u8>, n: nat)
    ensures
        0 <= segment_start(s, n),
    decreases n,
{
    if n > 0 {
        lemma_segment_start(s, (n - 1) as nat);
        lemma_nul_from(s, segment_start(s, (n - 1) as nat));
    }
}

/// A string that is present contains no NUL, and the strings before it are
/// present too.
pub proof fn lemma_segment_present(s: Seq<u8>, n: nat)
    requires
        segment(s, n) is Some,
    ensures
        forall|i: int| 0 <= i < segment(s, n).unwrap().len() ==> segment(s, n).unwrap()[i] != 0,
        forall|m: nat| m <= n ==> (#[trigger] segment(s, m)) is Some,
    decreases n,
{
    lemma_segment_start(s, n);
    lemma_nul_from(s, segment_start(s, n));
    if n > 0 {
        let prev = (n - 1) as nat;
        lemma_segment_start(s, prev);
        lemma_nul_from(s, segment_start(s, prev));
        assert(segment(s, prev) is Some);
        lemma_segment_present(s, prev);
        assert forall|m: nat| m <= n implies (#[trigger] segment(s, m)) is Some by {
            if m < n {
                assert(m <= prev);
            }
        }
    }
}

/// Finds the first NUL at or after `from`.
fn find_nul(bytes: &[u8], from: usize) -> (r: usize)
    requires
        from <= bytes.len(),
    ensures
        r == nul_from(bytes@, from as int),
        from <= r <= bytes.len(),
{
    let mut i: usize = from;
    while i < bytes.len() && bytes[i] != 0
        invariant
            from <= i <= bytes.len(),
            nul_from(bytes@, from as int) == nul_from(bytes@, i as int),
        decreases bytes.len() - i,
    {
        i += 1;
    }
    i
}

/// The bounds of the `n`-th NUL-terminated string of a name field.
pub fn segment_bounds(bytes: &[u8], n: usize) -> (r: Option<(usize, usize)>)
    ensures
        match r {
            Some((start, end)) => start <= end < bytes.len() && segment(bytes@, n as nat) == Some(
                bytes@.subrange(start as int, end as int),
            ),
            None => segment(bytes@, n as nat) is None,
        },
{
    let mut start: usize = 0;
    let mut k: usize = 0;
    while k < n
        invariant
            k <= n,
            start <= bytes.len(),
            start == segment_start(bytes@, k as nat),
        decreases n - k,
    {
        let end: usize = find_nul(bytes, start);
        if end >= bytes.len() {
            proof {
                lemma_missing_segment(bytes@, k as nat, n as nat);
            }
            return None;
        }
        start = end + 1;
        k += 1;
    }
    let end: usize = find_nul(bytes, start);
    if end < bytes.len() {
        Some((start, end))
    } else {
        None
    }
}

/// Once a string is missing, so is every later one.
pub proof fn lemma_missing_segment(s: Seq<u8>, k: nat, n: nat)
    requires
        k <= n,
        segment(s, k) is None,
    ensures
        segment(s, n) is None,
{
    if segment(s, n) is Some {
        lemma_segment_present(s, n);
        assert(segment(s, k) is Some);
    }
}

/// `std::str::from_utf8`: the bytes as a string slice if, and only if, they
/// are valid UTF-8; the slice then holds exactly those bytes.
#[verifier::external_body]
fn utf8(bytes: &[u8]) -> (r: Option<&str>)
    ensures
        r is Some <==> vstd::utf8::valid_utf8(bytes@),
        r matches Some(text) ==> text.spec_bytes() == bytes@,
{
    std::str::from_utf8(bytes).ok()
}

/// Why the `n`-th string of a name field cannot be had as text, `None` if it
/// can: the string must be there, ended by a NUL, and be valid UTF-8.
pub open spec fn text_failure(s: Seq<u8>, n: nat) -> Option<DecodeError> {
    if segment(s, n) is None {
        Some(DecodeError::MissingTerminator)
    } else if !vstd::utf8::valid_utf8(segment(s, n).unwrap()) {
        Some(DecodeError::InvalidUtf8)
    } else {
        None
    }
}

/// The `n`-th NUL-terminated string of a name field as text.
pub fn segment_text(bytes: &[u8], n: usize) -> (r: Result<&str, DecodeError>)
    ensures
        match r {
            Ok(text) => text_failure(bytes@, n as nat) is None && segment(bytes@, n as nat)
                == Some(text.spec_bytes()),
            Err(e) => text_failure(bytes@, n as nat) == Some(e),
        },
{
    match segment_bounds(bytes, n) {
        None => Err(DecodeError::MissingTerminator),
        Some((start, end)) => {
            let part = vstd::slice::slice_subrange(bytes, start, end);
            match utf8(part) {
                Some(text) => Ok(text),
                None => Err(DecodeError::InvalidUtf8),
            }
        },
    }
}

/// EVTC file header.
#[derive(Clone, Copy, Debug)]
pub struct Header {
    /// Version string of the log format.
    pub version: [u8; 12],
    /// Species id of the boss the encounter is about.
    pub boss_id: SpeciesId,
    pub position: u8,
    /// Number of records in the agent table.
    pub agents: u32,
}

impl Header {
    /// `V2` if the last byte of the version field is 1.
    pub open spec fn spec_combat_data_version(&self) -> CombatDataVersion {
        if self.version@[11] == 1 {
            CombatDataVersion::V2
        } else {
            CombatDataVersion::V1
        }
    }

    /// The combat data version of the header.
    pub fn combat_data_version(&self) -> (v: CombatDataVersion)
        ensures
            v == self.spec_combat_data_version(),
    {
        if self.version[11] == 1 {
            CombatDataVersion::V2
        } else {
            CombatDataVersion::V1
        }
    }
}

/// The header a buffer starts with.
pub open spec fn header_of(s: Seq<u8>, h: Header) -> bool {
    &&& h.version@ == s.subrange(0, 12)
    &&& h.boss_id == SpeciesId(le_u16(s, 13))
    &&& h.position == s[15]
    &&& h.agents == le_u32(s, 16)
}

/// Decodes the header at the start of `buf`.
pub fn read_header(buf: &[u8]) -> (h: Header)
    requires
        HEADER_SIZE <= buf.len(),
    ensures
        header_of(buf@, h),
{
    let mut version: [u8; 12] = [0u8; 12];
    let mut i: usize = 0;
    while i < 12
        invariant
            i <= 12,
            HEADER_SIZE <= buf.len(),
            forall|j: int| 0 <= j < i ==> version@[j] == buf@[j],
        decreases 12 - i,
    {
        version[i] = buf[i];
        i += 1;
    }
    assert(version@ =~= buf@.subrange(0, 12));
    Header {
        version,
        boss_id: SpeciesId(read_u16(buf, 13)),
        position: buf[15],
        agents: read_u32(buf, 16),
    }
}

/// An entry of the agent table.
#[derive(Clone, Copy, Debug)]
pub struct Agent {
    /// Agent id.
    pub id: AgentId,
    /// Profession number, or species for NPCs and gadgets.
    pub profession: u32,
    /// Elite specialization discriminator.
    pub is_elite: u32,
    /// Relative amount of toughness of the agent.
    pub toughness: u16,
    /// Relative amount of concentration of the agent.
    pub concentration: u16,
    /// Relative amount of healing power of the agent.
    pub healing: u16,
    /// Relative amount of condition damage of the agent.
    pub condition_dmg: u16,
    /// Character name, account name and subgroup, each ended by a NUL.
    pub name: [u8; 68],
}

/// The profession the two classification fields of an agent record stand
/// for.
///
/// An elite field of all ones marks NPCs and gadgets, whose profession field
/// then holds the species in its lower half; gadgets have the upper half all
/// ones. An elite field of 0 marks base professions, 1 the Heart of Thorns
/// specialization of the base profession given; later specializations have an
/// elite number of their own.
pub open spec fn profession_of(is_elite: u32, profession: u32) -> Profession {
    if is_elite == 0xFFFF_FFFF {
        if profession / 0x1_0000 == 0xFFFF {
            Profession::Gadget(SpeciesId((profession % 0x1_0000) as u16))
        } else {
            Profession::NonPlayableCharacter(SpeciesId((profession % 0x1_0000) as u16))
        }
    } else if is_elite == 0 {
        if profession == 1 {
            Profession::Guardian
        } else if profession == 2 {
            Profession::Warrior
        } else if profession == 3 {
            Profession::Engineer
        } else if profession == 4 {
            Profession::Ranger
        } else if profession == 5 {
            Profession::Thief
        } else if profession == 6 {
            Profession::Elementalist
        } else if profession == 7 {
            Profession::Mesmer
        } else if profession == 8 {
            Profession::Necromancer
        } else if profession == 9 {
            Profession::Revenant
        } else {
            Profession::Unknown
        }
    } else if is_elite == 27 || (is_elite == 1 && profession == 1) {
        Profession::Dragonhunter
    } else if is_elite == 18 || (is_elite == 1 && profession == 2) {
        Profession::Berserker
    } else if is_elite == 43 || (is_elite == 1 && profession == 3) {
        Profession::Scrapper
    } else if is_elite == 5 || (is_elite == 1 && profession == 4) {
        Profession::Druid
    } else if is_elite == 7 || (is_elite == 1 && profession == 5) {
        Profession::Daredevil
    } else if is_elite == 48 || (is_elite == 1 && profession == 6) {
        Profession::Tempest
    } else if is_elite == 40 || (is_elite == 1 && profession == 7) {
        Profession::Chronomancer
    } else if is_elite == 34 || (is_elite == 1 && profession == 8) {
        Profession::Reaper
    } else if is_elite == 52 || (is_elite == 1 && profession == 9) {
        Profession::Herald
    } else if is_elite == 55 {
        Profession::Soulbeast
    } else if is_elite == 56 {
        Profession::Weaver
    } else if is_elite == 57 {
        Profession::Holosmith
    } else if is_elite == 58 {
        Profession::Deadeye
    } else if is_elite == 59 {
        Profession::Mirage
    } else if is_elite == 60 {
        Profession::Scourge
    } else if is_elite == 61 {
        Profession::Spellbreaker
    } else if is_elite == 62 {
        Profession::Firebrand
    } else if is_elite == 63 {
        Profession::Renegade
    } else {
        Profession::Unknown
    }
}

impl Agent {
    /// The agent id.
    pub fn id(&self) -> (id: AgentId)
        ensures
            id == self.id,
    {
        self.id
    }

    /// The character name.
    pub fn name(&self) -> (r: Result<&str, DecodeError>)
        ensures
            match r {
                Ok(text) => text_failure(self.name@, 0) is None && segment(self.name@, 0)
                    == Some(text.spec_bytes()),
                Err(e) => text_failure(self.name@, 0) == Some(e),
            },
    {
        segment_text(self.name.as_slice(), 0)
    }

    /// The account name.
    pub fn account_name(&self) -> (r: Result<&str, DecodeError>)
        ensures
            match r {
                Ok(text) => text_failure(self.name@, 1) is None && segment(self.name@, 1)
                    == Some(text.spec_bytes()),
                Err(e) => text_failure(self.name@, 1) == Some(e),
            },
    {
        segment_text(self.name.as_slice(), 1)
    }

    /// The subgroup label.
    pub fn subgroup(&self) -> (r: Result<&str, DecodeError>)
        ensures
            match r {
                Ok(text) => text_failure(self.name@, 2) is None && segment(self.name@, 2)
                    == Some(text.spec_bytes()),
                Err(e) => text_failure(self.name@, 2) == Some(e),
            },
    {
        segment_text(self.name.as_slice(), 2)
    }

    /// The raw profession field.
    pub fn profession_inner(&self) -> (p: u32)
        ensures
            p == self.profession,
    {
        self.profession
    }

    /// The profession of the agent.
    pub fn profession(&self) -> (p: Profession)
        ensures
            p == profession_of(self.is_elite, self.profession),
    {
        let species: u16 = (self.profession % 0x1_0000) as u16;
        match (self.is_elite, self.profession) {
            (0xFFFF_FFFF, x) => if x / 0x1_0000 == 0xFFFF {
                Profession::Gadget(SpeciesId(species))
            } else {
                Profession::NonPlayableCharacter(SpeciesId(species))
            },
            (0, 1) => Profession::Guardian,
            (0, 2) => Profession::Warrior,
            (0, 3) => Profession::Engineer,
            (0, 4) => Profession::Ranger,
            (0, 5) => Profession::Thief,
            (0, 6) => Profession::Elementalist,
            (0, 7) => Profession::Mesmer,
            (0, 8) => Profession::Necromancer,
            (0, 9) => Profession::Revenant,
            (0, _) => Profession::Unknown,
            (27, _) | (1, 1) => Profession::Dragonhunter,
            (18, _) | (1, 2) => Profession::Berserker,
            (43, _) | (1, 3) => Profession::Scrapper,
            (5, _) | (1, 4) => Profession::Druid,
            (7, _) | (1, 5) => Profession::Daredevil,
            (48, _) | (1, 6) => Profession::Tempest,
            (40, _) | (1, 7) => Profession::Chronomancer,
            (34, _) | (1, 8) => Profession::Reaper,
            (52, _) | (1, 9) => Profession::Herald,
            (55, _) => Profession::Soulbeast,
            (56, _) => Profession::Weaver,
            (57, _) => Profession::Holosmith,
            (58, _) => Profession::Deadeye,
            (59, _) => Profession::Mirage,
            (60, _) => Profession::Scourge,
            (61, _) => Profession::Spellbreaker,
            (62, _) => Profession::Firebrand,
            (63, _) => Profession::Renegade,
            _ => Profession::Unknown,
        }
    }

    /// If the agent is a non-playable character then this method will return
    /// its species id.
    pub fn species_id(&self) -> (s: Option<SpeciesId>)
        ensures
            s == match profession_of(self.is_elite, self.profession) {
                Profession::NonPlayableCharacter(id) => Some(id),
                _ => None,
            },
    {
        match self.profession() {
            Profession::NonPlayableCharacter(id) => Some(id),
            _ => None,
        }
    }
}

/// The agent record the 96 bytes at `at` hold.
pub open spec fn agent_of(s: Seq<u8>, at: int, a: Agent) -> bool {
    &&& a.id == AgentId(le_u64(s, at))
    &&& a.profession == le_u32(s, at + 8)
    &&& a.is_elite == le_u32(s, at + 12)
    &&& a.toughness == le_u16(s, at + 16)
    &&& a.concentration == le_u16(s, at + 18)
    &&& a.healing == le_u16(s, at + 20)
    &&& a.condition_dmg == le_u16(s, at + 24)
    &&& a.name@ == s.subrange(at + 28, at + 96)
}

/// Decodes the agent record at `at`.
pub fn read_agent(buf: &[u8], at: usize) -> (a: Agent)
    requires
        at + AGENT_SIZE <= buf.len(),
    ensures
        agent_of(buf@, at as int, a),
{
    let mut name: [u8; 68] = [0u8; 68];
    let mut i: usize = 0;
    while i < 68
        invariant
            i <= 68,
            at + AGENT_SIZE <= buf.len(),
            forall|j: int| 0 <= j < i ==> name@[j] == buf@[at + 28 + j],
        decreases 68 - i,
    {
        name[i] = buf[at + 28 + i];
        i += 1;
    }
    assert(name@ =~= buf@.subrange(at + 28, at + 96));
    Agent {
        id: AgentId(read_u64(buf, at)),
        profession: read_u32(buf, at + 8),
        is_elite: read_u32(buf, at + 12),
        toughness: read_u16(buf, at + 16),
        concentration: read_u16(buf, at + 18),
        healing: read_u16(buf, at + 20),
        condition_dmg: read_u16(buf, at + 24),
        name,
    }
}

/// Skill id and name.
#[derive(Clone, Copy, Debug)]
pub struct Skill {
    /// The skill id.
    pub id: u32,
    /// The name, ended by a NUL.
    pub name: [u8; 64],
}

impl Skill {
    /// The skill id.
    pub fn id(&self) -> (id: u32)
        ensures
            id == self.id,
    {
        self.id
    }

    /// Name of the skill.
    pub fn name(&self) -> (r: Result<&str, DecodeError>)
        ensures
            match r {
                Ok(text) => text_failure(self.name@, 0) is None && segment(self.name@, 0)
                    == Some(text.spec_bytes()),
                Err(e) => text_failure(self.name@, 0) == Some(e),
            },
    {
        segment_text(self.name.as_slice(), 0)
    }
}

/// The skill record the 68 bytes at `at` hold.
pub open spec fn skill_of(s: Seq<u8>, at: int, k: Skill) -> bool {
    &&& k.id == le_u32(s, at)
    &&& k.name@ == s.subrange(at + 4, at + 68)
}

/// Decodes the skill record at `at`.
pub fn read_skill(buf: &[u8], at: usize) -> (k: Skill)
    requires
        at + SKILL_SIZE <= buf.len(),
    ensures
        skill_of(buf@, at as int, k),
{
    let mut name: [u8; 64] = [0u8; 64];
    let mut i: usize = 0;
    while i < 64
        invariant
            i <= 64,
            at + SKILL_SIZE <= buf.len(),
            forall|j: int| 0 <= j < i ==> name@[j] == buf@[at + 4 + j],
        decreases 64 - i,
    {
        name[i] = buf[at + 4 + i];
        i += 1;
    }
    assert(name@ =~= buf@.subrange(at + 4, at + 68));
    Skill { id: read_u32(buf, at), name }
}

/// A combat record, version 1 of the layout.
///
/// The discriminator fields hold the bytes of the log as they are; the
/// methods of the record decode them.
#[derive(Clone, Copy, PartialEq, Eq, Structural, Debug)]
pub struct CombatEventV1 {
    /// Time of the event in milliseconds.
    pub time: u64,
    /// Agent the event comes from.
    pub src_agent: u64,
    /// Agent the event is aimed at.
    pub dst_agent: u64,
    /// Event-specific value.
    pub value: i32,
    /// Estimated buff damage, zero on application.
    pub buff_dmg: i32,
    /// Estimated overwritten stack duration for buff application.
    pub overstack: u16,
    /// Skill id.
    pub skill_id: u16,
    /// Instance id of the source agent.
    pub src_instid: u16,
    /// Instance id of the destination agent.
    pub dst_instid: u16,
    /// Instance id of the master of the source if the source is a minion or
    /// pet, zero otherwise.
    pub src_master_instid: u16,
    /// Friend or foe, see [`IFF`].
    pub iff: u8,
    /// Non-zero for buff application, removal and buff damage.
    pub buff: u8,
    /// Hit result, see [`HitResult`].
    pub result: u8,
    /// Activation kind, see [`CombatActivation`].
    pub is_activation: u8,
    /// Buff removal kind, see [`CombatBuffRemove`].
    pub is_buffremove: u8,
    /// Non-zero if the source agent health was over 90%.
    pub is_src_ninety: u8,
    /// Non-zero if the target agent health was under 50%.
    pub is_dst_fifty: u8,
    /// Non-zero if the source agent was moving.
    pub is_src_moving: u8,
    /// State change kind, see [`CombatStateChange`].
    pub is_statechange: u8,
    /// Non-zero if the source was flanking the target.
    pub is_flanking: u8,
    /// Non-zero if all or part of the damage was against a barrier.
    pub is_shields: u8,
    /// Zero for buff damage on its tick, non-zero otherwise.
    pub is_offcycle: u8,
}

/// The combat record the 64 bytes at `at` hold.
pub open spec fn event_at(s: Seq<u8>, at: int) -> CombatEventV1 {
    CombatEventV1 {
        time: le_u64(s, at),
        src_agent: le_u64(s, at + 8),
        dst_agent: le_u64(s, at + 16),
        value: le_i32(s, at + 24),
        buff_dmg: le_i32(s, at + 28),
        overstack: le_u16(s, at + 32),
        skill_id: le_u16(s, at + 34),
        src_instid: le_u16(s, at + 36),
        dst_instid: le_u16(s, at + 38),
        src_master_instid: le_u16(s, at + 40),
        iff: s[at + 51],
        buff: s[at + 52],
        result: s[at + 53],
        is_activation: s[at + 54],
        is_buffremove: s[at + 55],
        is_src_ninety: s[at + 56],
        is_dst_fifty: s[at + 57],
        is_src_moving: s[at + 58],
        is_statechange: s[at + 59],
        is_flanking: s[at + 60],
        is_shields: s[at + 61],
        is_offcycle: s[at + 62],
    }
}

/// Decodes the combat record at `at`.
pub fn read_event(buf: &[u8], at: usize) -> (e: CombatEventV1)
    requires
        at + EVENT_SIZE <= buf.len(),
    ensures
        e == event_at(buf@, at as int),
{
    CombatEventV1 {
        time: read_u64(buf, at),
        src_agent: read_u64(buf, at + 8),
        dst_agent: read_u64(buf, at + 16),
        value: read_i32(buf, at + 24),
        buff_dmg: read_i32(buf, at + 28),
        overstack: read_u16(buf, at + 32),
        skill_id: read_u16(buf, at + 34),
        src_instid: read_u16(buf, at + 36),
        dst_instid: read_u16(buf, at + 38),
        src_master_instid: read_u16(buf, at + 40),
        iff: buf[at + 51],
        buff: buf[at + 52],
        result: buf[at + 53],
        is_activation: buf[at + 54],
        is_buffremove: buf[at + 55],
        is_src_ninety: buf[at + 56],
        is_dst_fifty: buf[at + 57],
        is_src_moving: buf[at + 58],
        is_statechange: buf[at + 59],
        is_flanking: buf[at + 60],
        is_shields: buf[at + 61],
        is_offcycle: buf[at + 62],
    }
}

/// Where the agent table of a buffer ends, as its header declares it.
pub open spec fn agents_end(s: Seq<u8>) -> int {
    HEADER_SIZE + AGENT_SIZE * le_u32(s, 16)
}

/// Where the skill table of a buffer ends, as header and skill count declare
/// it.
pub open spec fn skills_end(s: Seq<u8>) -> int {
    agents_end(s) + 4 + SKILL_SIZE * le_u32(s, agents_end(s))
}

/// What stops a buffer from being decoded, `None` if nothing does: each
/// section in turn must fit into the buffer.
pub open spec fn decode_failure(s: Seq<u8>) -> Option<DecodeError> {
    if s.len() < HEADER_SIZE {
        Some(DecodeError::MissingHeader)
    } else if s.len() < agents_end(s) {
        Some(DecodeError::MissingAgents)
    } else if s.len() < agents_end(s) + 4 {
        Some(DecodeError::MissingSkillCount)
    } else if s.len() < skills_end(s) {
        Some(DecodeError::MissingSkills)
    } else {
        None
    }
}

/// The number of whole combat records behind the skill table.
pub open spec fn event_count(s: Seq<u8>) -> int {
    (s.len() - skills_end(s)) / (EVENT_SIZE as int)
}

/// A view of raw EVTC data: the decoded header and the three tables as
/// slices of the buffer they were found in.
#[derive(Clone, Copy, Debug)]
pub struct EvtcBuf<'a> {
    pub header: Header,
    /// The agent table, 96 bytes for each agent.
    pub agents: &'a [u8],
    /// The skill table, 68 bytes for each skill.
    pub skills: &'a [u8],
    /// The combat records, 64 bytes each.
    pub events: &'a [u8],
}

/// Splits a buffer into header, agent table, skill table and combat records.
///
/// Only lengths are checked. Bytes behind the last whole combat record are
/// ignored.
pub fn transmute(buffer: &[u8]) -> (r: Result<EvtcBuf<'_>, DecodeError>)
    ensures
        match r {
            Ok(b) => {
                &&& decode_failure(buffer@) is None
                &&& header_of(buffer@, b.header)
                &&& b.agents@ == buffer@.subrange(HEADER_SIZE as int, agents_end(buffer@))
                &&& b.skills@ == buffer@.subrange(agents_end(buffer@) + 4, skills_end(buffer@))
                &&& b.events@ == buffer@.subrange(
                    skills_end(buffer@),
                    skills_end(buffer@) + EVENT_SIZE * event_count(buffer@),
                )
            },
            Err(e) => decode_failure(buffer@) == Some(e),
        },
{
    let len: u64 = buffer.len() as u64;
    if buffer.len() < HEADER_SIZE {
        return Err(DecodeError::MissingHeader);
    }
    let header = read_header(buffer);
    let agents_end: u64 = HEADER_SIZE as u64 + AGENT_SIZE as u64 * (header.agents as u64);
    if len < agents_end {
        return Err(DecodeError::MissingAgents);
    }
    if len < agents_end + 4 {
        return Err(DecodeError::MissingSkillCount);
    }
    let skill_count: u32 = read_u32(buffer, agents_end as usize);
    let skills_end: u64 = agents_end + 4 + SKILL_SIZE as u64 * (skill_count as u64);
    if len < skills_end {
        return Err(DecodeError::MissingSkills);
    }
    let count: u64 = (len - skills_end) / (EVENT_SIZE as u64);
    let events_end: u64 = skills_end + count * (EVENT_SIZE as u64);
    Ok(
        EvtcBuf {
            header,
            agents: vstd::slice::slice_subrange(buffer, HEADER_SIZE, agents_end as usize),
            skills: vstd::slice::slice_subrange(
                buffer,
                (agents_end + 4) as usize,
                skills_end as usize,
            ),
            events: vstd::slice::slice_subrange(buffer, skills_end as usize, events_end as usize),
        },
    )
}

impl<'a> EvtcBuf<'a> {
    /// The number of agents in the agent table.
    pub fn agent_count(&self) -> (n: usize)
        ensures
            n == self.agents@.len() / (AGENT_SIZE as nat),
    {
        self.agents.len() / AGENT_SIZE
    }

    /// The number of skills in the skill table.
    pub fn skill_count(&self) -> (n: usize)
        ensures
            n == self.skills@.len() / (SKILL_SIZE as nat),
    {
        self.skills.len() / SKILL_SIZE
    }

    /// The number of combat records.
    pub fn event_count(&self) -> (n: usize)
        ensures
            n == self.events@.len() / (EVENT_SIZE as nat),
    {
        self.events.len() / EVENT_SIZE
    }

    /// The `i`-th agent, `None` if the table holds no such agent.
    pub fn agent(&self, i: usize) -> (r: Option<Agent>)
        ensures
            match r {
                Some(a) => i < self.agents@.len() / (AGENT_SIZE as nat) && agent_of(
                    self.agents@,
                    i * AGENT_SIZE,
                    a,
                ),
                None => i >= self.agents@.len() / (AGENT_SIZE as nat),
            },
    {
        if i < self.agents.len() / AGENT_SIZE {
            Some(read_agent(self.agents, i * AGENT_SIZE))
        } else {
            None
        }
    }

    /// The `i`-th skill, `None` if the table holds no such skill.
    pub fn skill(&self, i: usize) -> (r: Option<Skill>)
        ensures
            match r {
                Some(k) => i < self.skills@.len() / (SKILL_SIZE as nat) && skill_of(
                    self.skills@,
                    i * SKILL_SIZE,
                    k,
                ),
                None => i >= self.skills@.len() / (SKILL_SIZE as nat),
            },
    {
        if i < self.skills.len() / SKILL_SIZE {
            Some(read_skill(self.skills, i * SKILL_SIZE))
        } else {
            None
        }
    }

    /// The `i`-th combat record, `None` if there is no such record.
    pub fn event(&self, i: usize) -> (r: Option<CombatEventV1>)
        ensures
            r == (if i < self.events@.len() / (EVENT_SIZE as nat) {
                Some(event_at(self.events@, i * EVENT_SIZE))
            } else {
                None
            }),
    {
        if i < self.events.len() / EVENT_SIZE {
            Some(read_event(self.events, i * EVENT_SIZE))
        } else {
            None
        }
    }
}

/// The combat records a run of bytes holds, 64 bytes each; bytes behind the
/// last whole record are left out.
pub open spec fn events_of(bytes: Seq<u8>) -> Seq<CombatEventV1> {
    Seq::new(bytes.len() / (EVENT_SIZE as nat), |i: int| event_at(bytes, i * EVENT_SIZE))
}

/// True if `e` is what the buffer `s` holds: every section fits into the
/// buffer, and `e` has the header, each agent, each skill and each whole
/// combat record of the buffer, in order.
pub open spec fn decodes(s: Seq<u8>, e: Evtc) -> bool {
    &&& decode_failure(s) is None
    &&& header_of(s, e.header)
    &&& e.agents@.len() == e.header.agents
    &&& forall|i: int|
        0 <= i < e.agents@.len() ==> agent_of(s, HEADER_SIZE + i * AGENT_SIZE, #[trigger] e.agents@[i])
    &&& e.skills@.len() == le_u32(s, agents_end(s))
    &&& forall|i: int|
        0 <= i < e.skills@.len() ==> skill_of(
            s,
            agents_end(s) + 4 + i * SKILL_SIZE,
            #[trigger] e.skills@[i],
        )
    &&& e.events@.len() == event_count(s)
    &&& forall|i: int|
        0 <= i < e.events@.len() ==> #[trigger] e.events@[i] == event_at(
            s,
            skills_end(s) + i * EVENT_SIZE,
        )
}

/// A buffer is decoded if, and only if, it is as long as its header, its
/// agent table and its skill table are declared to be. The combat records are
/// then as many as fit into the rest; what is left behind the last of them is
/// less than one record.
pub proof fn lemma_decodable(s: Seq<u8>)
    ensures
        decode_failure(s) is None <==> s.len() >= HEADER_SIZE && s.len() >= agents_end(s) + 4
            && s.len() >= skills_end(s),
        decode_failure(s) is None ==> 0 <= event_count(s) && EVENT_SIZE * event_count(s) <= s.len()
            - skills_end(s) < EVENT_SIZE * (event_count(s) + 1),
{
}

/// A buffer holds one log only: what is decoded from the same bytes is the
/// same.
pub proof fn lemma_decoding_unique(s: Seq<u8>, a: Evtc, b: Evtc)
    requires
        decodes(s, a),
        decodes(s, b),
    ensures
        a.header == b.header,
        a.agents@ == b.agents@,
        a.skills@ == b.skills@,
        a.events@ == b.events@,
{
    assert(a.header.version =~= b.header.version);
    assert forall|i: int| 0 <= i < a.agents@.len() implies a.agents@[i] == b.agents@[i] by {
        assert(a.agents@[i].name =~= b.agents@[i].name);
    }
    assert(a.agents@ =~= b.agents@);
    assert forall|i: int| 0 <= i < a.skills@.len() implies a.skills@[i] == b.skills@[i] by {
        assert(a.skills@[i].name =~= b.skills@[i].name);
    }
    assert(a.skills@ =~= b.skills@);
    assert(a.events@ =~= b.events@);
}

/// An owning buffer with decoded copies of all the data.
#[derive(Clone, Debug)]
pub struct Evtc {
    pub header: Header,
    pub agents: Vec<Agent>,
    pub skills: Vec<Skill>,
    pub events: Vec<CombatEventV1>,
}

impl Evtc {
    /// True if `self` holds what `buf` shows: the same header, and each
    /// record of the three tables decoded in order.
    pub open spec fn mirrors(&self, buf: EvtcBuf<'_>) -> bool {
        &&& self.header == buf.header
        &&& self.agents@.len() == buf.agents@.len() / (AGENT_SIZE as nat)
        &&& forall|i: int|
            0 <= i < self.agents@.len() ==> agent_of(
                buf.agents@,
                i * AGENT_SIZE,
                #[trigger] self.agents@[i],
            )
        &&& self.skills@.len() == buf.skills@.len() / (SKILL_SIZE as nat)
        &&& forall|i: int|
            0 <= i < self.skills@.len() ==> skill_of(
                buf.skills@,
                i * SKILL_SIZE,
                #[trigger] self.skills@[i],
            )
        &&& self.events@ == events_of(buf.events@)
    }

    /// Decodes every record a view shows.
    pub fn from_buf(buf: &EvtcBuf<'_>) -> (e: Evtc)
        ensures
            e.mirrors(*buf),
    {
        let mut agents: Vec<Agent> = Vec::new();
        let agent_count: usize = buf.agents.len() / AGENT_SIZE;
        let mut i: usize = 0;
        while i < agent_count
            invariant
                i <= agent_count,
                agent_count == buf.agents@.len() / (AGENT_SIZE as nat),
                agent_count * AGENT_SIZE <= buf.agents.len(),
                agents@.len() == i,
                forall|j: int|
                    0 <= j < i ==> agent_of(buf.agents@, j * AGENT_SIZE, #[trigger] agents@[j]),
            decreases agent_count - i,
        {
            agents.push(read_agent(buf.agents, i * AGENT_SIZE));
            i += 1;
        }
        let mut skills: Vec<Skill> = Vec::new();
        let skill_count: usize = buf.skills.len() / SKILL_SIZE;
        let mut i: usize = 0;
        while i < skill_count
            invariant
                i <= skill_count,
                skill_count == buf.skills@.len() / (SKILL_SIZE as nat),
                skill_count * SKILL_SIZE <= buf.skills.len(),
                skills@.len() == i,
                forall|j: int|
                    0 <= j < i ==> skill_of(buf.skills@, j * SKILL_SIZE, #[trigger] skills@[j]),
            decreases skill_count - i,
        {
            skills.push(read_skill(buf.skills, i * SKILL_SIZE));
            i += 1;
        }
        let mut events: Vec<CombatEventV1> = Vec::new();
        let event_count: usize = buf.events.len() / EVENT_SIZE;
        let mut i: usize = 0;
        while i < event_count
            invariant
                i <= event_count,
                event_count == buf.events@.len() / (EVENT_SIZE as nat),
                event_count * EVENT_SIZE <= buf.events.len(),
                events@.len() == i,
                forall|j: int| 0 <= j < i ==> events@[j] == event_at(buf.events@, j * EVENT_SIZE),
            decreases event_count - i,
        {
            events.push(read_event(buf.events, i * EVENT_SIZE));
            i += 1;
        }
        assert(events@ =~= events_of(buf.events@));
        Evtc { header: buf.header, agents, skills, events }
    }

    /// Decodes a whole buffer: [`transmute`] followed by [`Evtc::from_buf`].
    pub fn decode(buffer: &[u8]) -> (r: Result<Evtc, DecodeError>)
        ensures
            match r {
                Ok(e) => decodes(buffer@, e),
                Err(e) => decode_failure(buffer@) == Some(e),
            },
    {
        match transmute(buffer) {
            Err(e) => Err(e),
            Ok(buf) => {
                let e = Evtc::from_buf(&buf);
                proof {
                    let s = buffer@;
                    assert forall|i: int| 0 <= i < e.agents@.len() implies agent_of(
                        s,
                        HEADER_SIZE + i * AGENT_SIZE,
                        #[trigger] e.agents@[i],
                    ) by {
                        lemma_agent_shift(s, HEADER_SIZE as int, agents_end(s), i * AGENT_SIZE, e.agents@[i]);
                    }
                    assert forall|i: int| 0 <= i < e.skills@.len() implies skill_of(
                        s,
                        agents_end(s) + 4 + i * SKILL_SIZE,
                        #[trigger] e.skills@[i],
                    ) by {
                        lemma_skill_shift(s, agents_end(s) + 4, skills_end(s), i * SKILL_SIZE, e.skills@[i]);
                    }
                    assert forall|i: int| 0 <= i < e.events@.len() implies #[trigger] e.events@[i]
                        == event_at(s, skills_end(s) + i * EVENT_SIZE) by {
                        lemma_event_shift(
                            s,
                            skills_end(s),
                            skills_end(s) + EVENT_SIZE * event_count(s),
                            i * EVENT_SIZE,
                        );
                    }
                }
                Ok(e)
            },
        }
    }
}

/// Reading 16 bits from a part of a buffer is reading them from the buffer.
pub proof fn lemma_u16_shift(s: Seq<u8>, from: int, to: int, at: int)
    requires
        0 <= from <= to <= s.len(),
        0 <= at,
        from + at + 2 <= to,
    ensures
        le_u16(s.subrange(from, to), at) == le_u16(s, from + at),
{
    let part = s.subrange(from, to);
    assert(part[at] == s[from + at]);
    assert(part[at + 1] == s[from + at + 1]);
}

/// Reading 32 bits from a part of a buffer is reading them from the buffer.
pub proof fn lemma_u32_shift(s: Seq<u8>, from: int, to: int, at: int)
    requires
        0 <= from <= to <= s.len(),
        0 <= at,
        from + at + 4 <= to,
    ensures
        le_u32(s.subrange(from, to), at) == le_u32(s, from + at),
        le_i32(s.subrange(from, to), at) == le_i32(s, from + at),
{
    let part = s.subrange(from, to);
    assert(part[at] == s[from + at]);
    assert(part[at + 1] == s[from + at + 1]);
    assert(part[at + 2] == s[from + at + 2]);
    assert(part[at + 3] == s[from + at + 3]);
}

/// Reading 64 bits from a part of a buffer is reading them from the buffer.
pub proof fn lemma_u64_shift(s: Seq<u8>, from: int, to: int, at: int)
    requires
        0 <= from <= to <= s.len(),
        0 <= at,
        from + at + 8 <= to,
    ensures
        le_u64(s.subrange(from, to), at) == le_u64(s, from + at),
{
    lemma_u32_shift(s, from, to, at);
    lemma_u32_shift(s, from, to, at + 4);
}

/// An agent record found in a part of a buffer is found in the buffer.
pub proof fn lemma_agent_shift(s: Seq<u8>, from: int, to: int, at: int, a: Agent)
    requires
        0 <= from <= to <= s.len(),
        0 <= at,
        from + at + AGENT_SIZE <= to,
        agent_of(s.subrange(from, to), at, a),
    ensures
        agent_of(s, from + at, a),
{
    lemma_u64_shift(s, from, to, at);
    lemma_u32_shift(s, from, to, at + 8);
    lemma_u32_shift(s, from, to, at + 12);
    lemma_u16_shift(s, from, to, at + 16);
    lemma_u16_shift(s, from, to, at + 18);
    lemma_u16_shift(s, from, to, at + 20);
    lemma_u16_shift(s, from, to, at + 24);
    assert(s.subrange(from, to).subrange(at + 28, at + 96) =~= s.subrange(
        from + at + 28,
        from + at + 96,
    ));
}

/// A skill record found in a part of a buffer is found in the buffer.
pub proof fn lemma_skill_shift(s: Seq<u8>, from: int, to: int, at: int, k: Skill)
    requires
        0 <= from <= to <= s.len(),
        0 <= at,
        from + at + SKILL_SIZE <= to,
        skill_of(s.subrange(from, to), at, k),
    ensures
        skill_of(s, from + at, k),
{
    lemma_u32_shift(s, from, to, at);
    assert(s.subrange(from, to).subrange(at + 4, at + 68) =~= s.subrange(
        from + at + 4,
        from + at + 68,
    ));
}

/// The fields of a combat record read from a part of a buffer are those read
/// from the buffer.
proof fn lemma_fields_shift(s: Seq<u8>, from: int, to: int, at: int)
    requires
        0 <= from <= to <= s.len(),
        0 <= at,
        from + at + EVENT_SIZE <= to,
    ensures
        le_u64(s.subrange(from, to), at) == le_u64(s, from + at),
        le_u64(s.subrange(from, to), at + 8) == le_u64(s, from + at + 8),
        le_u64(s.subrange(from, to), at + 16) == le_u64(s, from + at + 16),
        le_i32(s.subrange(from, to), at + 24) == le_i32(s, from + at + 24),
        le_i32(s.subrange(from, to), at + 28) == le_i32(s, from + at + 28),
        le_u16(s.subrange(from, to), at + 32) == le_u16(s, from + at + 32),
        le_u16(s.subrange(from, to), at + 34) == le_u16(s, from + at + 34),
        le_u16(s.subrange(from, to), at + 36) == le_u16(s, from + at + 36),
        le_u16(s.subrange(from, to), at + 38) == le_u16(s, from + at + 38),
        le_u16(s.subrange(from, to), at + 40) == le_u16(s, from + at + 40),
        s.subrange(from, to)[at + 51] == s[from + at + 51],
        s.subrange(from, to)[at + 52] == s[from + at + 52],
        s.subrange(from, to)[at + 53] == s[from + at + 53],
        s.subrange(from, to)[at + 54] == s[from + at + 54],
        s.subrange(from, to)[at + 55] == s[from + at + 55],
        s.subrange(from, to)[at + 56] == s[from + at + 56],
        s.subrange(from, to)[at + 57] == s[from + at + 57],
        s.subrange(from, to)[at + 58] == s[from + at + 58],
        s.subrange(from, to)[at + 59] == s[from + at + 59],
        s.subrange(from, to)[at + 60] == s[from + at + 60],
        s.subrange(from, to)[at + 61] == s[from + at + 61],
        s.subrange(from, to)[at + 62] == s[from + at + 62],
{
    let part = s.subrange(from, to);
    assert(le_u64(part, at) == le_u64(s, from + at)) by {
        lemma_u64_shift(s, from, to, at);
    }
    assert(le_u64(part, at + 8) == le_u64(s, from + at + 8)) by {
        lemma_u64_shift(s, from, to, at + 8);
    }
    assert(le_u64(part, at + 16) == le_u64(s, from + at + 16)) by {
        lemma_u64_shift(s, from, to, at + 16);
    }
    assert(le_i32(part, at + 24) == le_i32(s, from + at + 24)) by {
        lemma_u32_shift(s, from, to, at + 24);
    }
    assert(le_i32(part, at + 28) == le_i32(s, from + at + 28)) by {
        lemma_u32_shift(s, from, to, at + 28);
    }
    assert(le_u16(part, at + 32) == le_u16(s, from + at + 32)) by {
        lemma_u16_shift(s, from, to, at + 32);
    }
    assert(le_u16(part, at + 34) == le_u16(s, from + at + 34)) by {
        lemma_u16_shift(s, from, to, at + 34);
    }
    assert(le_u16(part, at + 36) == le_u16(s, from + at + 36)) by {
        lemma_u16_shift(s, from, to, at + 36);
    }
    assert(le_u16(part, at + 38) == le_u16(s, from + at + 38)) by {
        lemma_u16_shift(s, from, to, at + 38);
    }
    assert(le_u16(part, at + 40) == le_u16(s, from + at + 40)) by {
        lemma_u16_shift(s, from, to, at + 40);
    }
}

/// A combat record found in a part of a buffer is found in the buffer.
pub proof fn lemma_event_shift(s: Seq<u8>, from: int, to: int, at: int)
    requires
        0 <= from <= to <= s.len(),
        0 <= at,
        from + at + EVENT_SIZE <= to,
    ensures
        event_at(s.subrange(from, to), at) == event_at(s, from + at),
{
    lemma_fields_shift(s, from, to, at);
}

/// A skill record with the id and the name given. The name is cut off after
/// 63 bytes, ended by a NUL, and the rest of the field is filled with spaces.
pub fn named_skill(id: u32, name: &[u8]) -> (k: Skill)
    ensures
        k.id == id,
        forall|i: int| 0 <= i < name@.len() && i < 63 ==> k.name@[i] == name@[i],
        name@.len() < 63 ==> k.name@[name@.len() as int] == 0,
        name@.len() >= 63 ==> k.name@[63] == 0,
        forall|i: int| name@.len() < i < 64 ==> k.name@[i] == 0x20,
        segment(k.name@, 0) is Some,
        name@.len() < 63 && !name@.contains(0) ==> segment(k.name@, 0) == Some(name@),
{
    let n: usize = if name.len() < 63 {
        name.len()
    } else {
        63
    };
    let mut field: [u8; 64] = [0x20u8; 64];
    let mut i: usize = 0;
    while i < n
        invariant
            i <= n,
            n <= 63,
            n <= name.len(),
            forall|j: int| 0 <= j < i ==> field@[j] == name@[j],
            forall|j: int| i <= j < 64 ==> field@[j] == 0x20,
        decreases n - i,
    {
        field[i] = name[i];
        i += 1;
    }
    field[n] = 0;
    proof {
        lemma_nul_from(field@, 0);
        assert(field@[n as int] == 0);
        assert(nul_from(field@, 0) <= n);
        if name@.len() < 63 && !name@.contains(0) {
            assert forall|j: int| 0 <= j < n implies field@[j] != 0 by {
                assert(name@.contains(name@[j]));
            }
            assert(nul_from(field@, 0) == n);
            assert(field@.subrange(0, n as int) =~= name@);
        }
    }
    Skill { id, name: field }
}

/// The skills which are not part of the skill table of a log, with their
/// names.
pub open spec fn unlisted() -> Seq<(u32, &'static str)> {
    seq![(1066u32, "Resurrect"), (1175u32, "Bandage"), (65001u32, "Dodge"), (65534u32, "Weapon Swap")]
}

/// A skill record for a name in ASCII of less than 63 letters.
fn unlisted_skill(id: u32, name: &'static str) -> (k: Skill)
    requires
        vstd::string::is_ascii(name),
        name@.len() < 63,
        !name@.contains('\0'),
    ensures
        k.id == id,
        segment(k.name@, 0) == Some(name.spec_bytes()),
{
    proof {
        vstd::string::is_ascii_spec_bytes(name);
        let bytes = name.spec_bytes();
        assert forall|i: int| 0 <= i < bytes.len() implies bytes[i] != 0 by {
            assert(name@.contains(name@[i]));
        }
    }
    named_skill(id, name.as_bytes())
}

/// The skills which are not part of the skill table of a log.
pub fn unlisted_skills() -> (list: Vec<Skill>)
    ensures
        list@.len() == unlisted().len(),
        forall|i: int|
            0 <= i < list@.len() ==> (#[trigger] list@[i]).id == unlisted()[i].0 && segment(
                list@[i].name@,
                0,
            ) == Some(unlisted()[i].1.spec_bytes()),
{
    proof {
        reveal_strlit("Resurrect");
        reveal_strlit("Bandage");
        reveal_strlit("Dodge");
        reveal_strlit("Weapon Swap");
    }
    let mut list: Vec<Skill> = Vec::new();
    list.push(unlisted_skill(1066, "Resurrect"));
    list.push(unlisted_skill(1175, "Bandage"));
    list.push(unlisted_skill(65001, "Dodge"));
    list.push(unlisted_skill(WEAPON_SWAP as u32, "Weapon Swap"));
    list
}

} // verus!
