//! Combat events: the raw records of a log and the semantic kinds they fall
//! into.
//!
//! Every record is of exactly one [`EventKind`]. The wrappers [`MetaEvent`],
//! [`SourceEvent`], [`TargetEvent`], [`DamageEvent`], [`ActivationEvent`] and
//! [`BuffEvent`] each vouch for what a record is, and the traits of the same
//! names give the accessors that make sense for it.
//!
//! ## Buff events
//!
//! In a buff removal the source agent is the agent that loses the buff. Always
//! turn an event into a [`Buff`] first, then check [`Buff::is_remove`] to
//! decide which agent to look at.

pub mod classified;
pub mod raw;
pub mod typed;

pub use crate::event::raw::CombatBuffRemove as BuffRemoval;
pub use crate::event::raw::Language;
pub use crate::event::typed::Activation;
pub use crate::event::typed::ActivationEvent;
pub use crate::event::typed::Buff;
pub use crate::event::typed::BuffEvent;
pub use crate::event::typed::Damage;
pub use crate::event::typed::DamageEvent;
pub use crate::event::typed::Event;
pub use crate::event::typed::Meta;
pub use crate::event::typed::MetaEvent;
pub use crate::event::typed::Source;
pub use crate::event::typed::SourceEvent;
pub use crate::event::typed::Target;
pub use crate::event::typed::TargetEvent;

use vstd::prelude::*;

use crate::event::raw::CombatBuffRemove;
use crate::event::raw::CombatEventV1;
use crate::event::raw::HitResult;
use crate::event::raw::unsigned32;
use crate::types::InstanceId;

verus! {

/// The kinds of combat records. A record is of exactly one kind.
#[derive(Clone, Copy, PartialEq, Eq, Structural, Debug)]
pub enum EventKind {
    /// Log-level data that belongs to no agent.
    Meta,
    /// An event of a source agent that is none of the kinds below: a state
    /// change, or a record whose discriminators fit no other kind.
    Source,
    /// Damage done to a target.
    Damage,
    /// A skill activation.
    Activation,
    /// A buff applied to a target.
    BuffApplication,
    /// A buff removed from the source agent.
    BuffRemoval,
}

/// Data not tied to any agent.
#[derive(Clone, Copy, PartialEq, Eq, Structural, Debug)]
pub enum MetaEventData {
    /// When the log starts: server unix timestamp, local unix timestamp and
    /// the id of the logging tool.
    LogStart { server: u32, local: u32, arcdps_id: u64 },
    /// When the log ends: server unix timestamp, local unix timestamp and the
    /// id of the logging tool.
    LogEnd { server: u32, local: u32, arcdps_id: u64 },
    /// The language of the client.
    Language(Language),
    /// The game build id.
    Gw2Build(u64),
    /// The server shard id.
    ShardId(u64),
}

/// The type of damaging hit.
#[derive(Clone, Copy, PartialEq, Eq, Structural, Debug)]
pub enum HitType {
    Condi,
    Normal,
    Crit,
    Glance,
    Block,
    Evade,
    Interrupt,
    Absorb,
    Blind,
    KillingBlow,
    DowningBlow,
}

impl HitType {
    /// The hit types that do no damage.
    pub open spec fn spec_is_zero(self) -> bool {
        self == HitType::Block || self == HitType::Evade || self == HitType::Interrupt || self
            == HitType::Absorb || self == HitType::Blind
    }

    /// True if the hit type should result in zero damage.
    pub fn is_zero(self) -> (b: bool)
        ensures
            b == self.spec_is_zero(),
    {
        match self {
            HitType::Block
            | HitType::Evade
            | HitType::Interrupt
            | HitType::Absorb
            | HitType::Blind => true,
            _ => false,
        }
    }
}

/// State updates for agents.
///
/// Coordinates are carried as the bit patterns of IEEE 754 single precision
/// numbers, exactly as the log holds them.
#[derive(Clone, Copy, PartialEq, Eq, Structural, Debug)]
pub enum StateChange {
    /// Agent entered combat, with its subgroup.
    EnterCombat(u64),
    /// Agent exited combat.
    ExitCombat,
    /// Agent got rallied.
    ChangeUp,
    /// Agent died.
    ChangeDead,
    /// Agent got downed.
    ChangeDown,
    /// Agent spawned.
    Spawn,
    /// Agent despawned.
    Despawn,
    /// Agent has a health update, value is percent * 10000.
    HealthUpdate(u64),
    /// Agent swapped weapons.
    WeaponSwap,
    /// Agent got its max health updated.
    MaxHealthUpdate(u64),
    /// Agent is the player recording the log.
    PointOfView,
    /// Reward id and reward type.
    Reward(u64, u32),
    /// Agent position has been updated.
    Position { x: u32, y: u32, z: u32 },
    /// Agent velocity has been updated.
    Velocity { x: u32, y: u32, z: u32 },
    /// Agent facing has been updated.
    Facing { x: u32, y: u32 },
    /// Happens once per buff per agent on start.
    BuffInitial,
}

/// Type of skill animation activation.
#[derive(Clone, Copy, PartialEq, Eq, Structural, Debug)]
pub enum CastType {
    /// Normal cast, expected duration.
    Normal(u32),
    /// Fast cast (+50%), expected duration.
    Quickness(u32),
    /// Canceled but started channel, actual duration.
    CancelFire(u32),
    /// Canceled before channel, actual duration.
    Cancel(u32),
    /// Animation completed fully.
    Reset,
}

impl CastType {
    /// The duration a cast carries, 0 for a completed animation.
    pub open spec fn spec_duration(&self) -> u32 {
        match *self {
            CastType::Normal(d) => d,
            CastType::Quickness(d) => d,
            CastType::CancelFire(d) => d,
            CastType::Cancel(d) => d,
            CastType::Reset => 0,
        }
    }

    /// The duration of the cast in milliseconds.
    pub fn duration(&self) -> (d: u32)
        ensures
            d == self.spec_duration(),
    {
        match *self {
            CastType::Normal(d) => d,
            CastType::Quickness(d) => d,
            CastType::CancelFire(d) => d,
            CastType::Cancel(d) => d,
            CastType::Reset => 0,
        }
    }
}

/// A record whose state change holds log-level data: language, build, shard,
/// log start or log end. Such a record has no source agent.
pub open spec fn is_meta(e: CombatEventV1) -> bool {
    e.is_statechange == 9 || e.is_statechange == 10 || e.is_statechange == 14 || e.is_statechange
        == 15 || e.is_statechange == 16
}

/// A record of a source agent whose activation field holds one of the five
/// activation kinds.
pub open spec fn is_activation(e: CombatEventV1) -> bool {
    !is_meta(e) && 1 <= e.is_activation <= 5
}

/// A record that is neither state change nor activation, flagged as buff
/// without buff damage, whose removal field holds an assigned code.
pub open spec fn is_buff(e: CombatEventV1) -> bool {
    e.is_statechange == 0 && e.is_activation == 0 && e.buff > 0 && e.buff_dmg == 0
        && e.is_buffremove <= 3
}

/// A buff record that removes nothing.
pub open spec fn is_buff_application(e: CombatEventV1) -> bool {
    is_buff(e) && e.is_buffremove == 0
}

/// A buff record with one of the three removal kinds.
pub open spec fn is_buff_removal(e: CombatEventV1) -> bool {
    is_buff(e) && e.is_buffremove != 0
}

/// A record that is neither state change, activation, buff removal nor buff
/// application, and that is either buff damage or carries one of the ten hit
/// results.
pub open spec fn is_damage(e: CombatEventV1) -> bool {
    e.is_statechange == 0 && e.is_activation == 0 && e.is_buffremove == 0 && !(e.buff > 0
        && e.buff_dmg == 0) && (e.buff > 0 || e.result <= 9)
}

/// A record of a source agent that is of no more specific kind.
pub open spec fn is_source_only(e: CombatEventV1) -> bool {
    !is_meta(e) && !is_activation(e) && !is_buff(e) && !is_damage(e)
}

/// A record with a destination agent: neither state change nor activation.
pub open spec fn has_target(e: CombatEventV1) -> bool {
    e.is_statechange == 0 && e.is_activation == 0
}

/// The kind of a record. Log-level data comes first, then activations, then
/// buffs, then damage; what is left is a plain source event.
pub open spec fn kind_of(e: CombatEventV1) -> EventKind {
    if is_meta(e) {
        EventKind::Meta
    } else if is_activation(e) {
        EventKind::Activation
    } else if is_buff(e) {
        if e.is_buffremove == 0 {
            EventKind::BuffApplication
        } else {
            EventKind::BuffRemoval
        }
    } else if is_damage(e) {
        EventKind::Damage
    } else {
        EventKind::Source
    }
}

/// The master instance of a record, if its source is a minion, pet or gadget.
pub open spec fn master_of(e: CombatEventV1) -> Option<InstanceId> {
    if e.src_master_instid == 0 {
        None
    } else {
        Some(InstanceId(e.src_master_instid))
    }
}

/// What the low half of a 64-bit field holds.
pub open spec fn low32(v: u64) -> u32 {
    (v % 0x1_0000_0000) as u32
}

/// What the high half of a 64-bit field holds.
pub open spec fn high32(v: u64) -> u32 {
    (v / 0x1_0000_0000) as u32
}

/// The hit type of a damage record: buff damage is condition damage whatever
/// the result field holds, everything else is named by the result field.
pub open spec fn hit_type_of(e: CombatEventV1) -> HitType {
    if e.buff > 0 {
        HitType::Condi
    } else {
        match HitResult::spec_from_u8(e.result) {
            Some(HitResult::Crit) => HitType::Crit,
            Some(HitResult::Glance) => HitType::Glance,
            Some(HitResult::Block) => HitType::Block,
            Some(HitResult::Evade) => HitType::Evade,
            Some(HitResult::Interrupt) => HitType::Interrupt,
            Some(HitResult::Absorb) => HitType::Absorb,
            Some(HitResult::Blind) => HitType::Blind,
            Some(HitResult::KillingBlow) => HitType::KillingBlow,
            Some(HitResult::DowningBlow) => HitType::DowningBlow,
            _ => HitType::Normal,
        }
    }
}

/// The damage of a damage record: buff damage floored at zero for buffs, zero
/// for the hit types that do no damage, the value field otherwise.
pub open spec fn damage_of(e: CombatEventV1) -> i64 {
    if e.buff > 0 {
        if e.buff_dmg > 0 {
            e.buff_dmg as i64
        } else {
            0
        }
    } else if hit_type_of(e).spec_is_zero() {
        0
    } else {
        e.value as i64
    }
}

/// True if a record claims damage for a hit that cannot have done any.
pub open spec fn breaks_zero_damage(e: CombatEventV1) -> bool {
    e.buff == 0 && hit_type_of(e).spec_is_zero() && e.value != 0
}

/// The cast an activation record describes.
pub open spec fn cast_of(e: CombatEventV1) -> CastType {
    if e.is_activation == 1 {
        CastType::Normal(unsigned32(e.value))
    } else if e.is_activation == 2 {
        CastType::Quickness(unsigned32(e.value))
    } else if e.is_activation == 3 {
        CastType::CancelFire(unsigned32(e.value))
    } else if e.is_activation == 4 {
        CastType::Cancel(unsigned32(e.value))
    } else {
        CastType::Reset
    }
}

/// The removal kind of a buff record.
pub open spec fn removal_of(e: CombatEventV1) -> CombatBuffRemove {
    if e.is_buffremove == 1 {
        CombatBuffRemove::All
    } else if e.is_buffremove == 2 {
        CombatBuffRemove::Single
    } else if e.is_buffremove == 3 {
        CombatBuffRemove::Manual
    } else {
        CombatBuffRemove::NoRemoval
    }
}

/// The state change a record reports about its source agent, `None` if its
/// state change field holds no agent state.
///
/// Position and velocity are three coordinates that start at the destination
/// agent field and run on into the value field; facing is two coordinates in
/// the destination agent field.
pub open spec fn state_change_of(e: CombatEventV1) -> Option<StateChange> {
    if e.is_statechange == 1 {
        Some(StateChange::EnterCombat(e.dst_agent))
    } else if e.is_statechange == 2 {
        Some(StateChange::ExitCombat)
    } else if e.is_statechange == 3 {
        Some(StateChange::ChangeUp)
    } else if e.is_statechange == 4 {
        Some(StateChange::ChangeDead)
    } else if e.is_statechange == 5 {
        Some(StateChange::ChangeDown)
    } else if e.is_statechange == 6 {
        Some(StateChange::Spawn)
    } else if e.is_statechange == 7 {
        Some(StateChange::Despawn)
    } else if e.is_statechange == 8 {
        Some(StateChange::HealthUpdate(e.dst_agent))
    } else if e.is_statechange == 11 {
        Some(StateChange::WeaponSwap)
    } else if e.is_statechange == 12 {
        Some(StateChange::MaxHealthUpdate(e.dst_agent))
    } else if e.is_statechange == 13 {
        Some(StateChange::PointOfView)
    } else if e.is_statechange == 17 {
        Some(StateChange::Reward(e.dst_agent, unsigned32(e.value)))
    } else if e.is_statechange == 18 {
        Some(StateChange::BuffInitial)
    } else if e.is_statechange == 19 {
        Some(
            StateChange::Position {
                x: low32(e.dst_agent),
                y: high32(e.dst_agent),
                z: unsigned32(e.value),
            },
        )
    } else if e.is_statechange == 20 {
        Some(
            StateChange::Velocity {
                x: low32(e.dst_agent),
                y: high32(e.dst_agent),
                z: unsigned32(e.value),
            },
        )
    } else if e.is_statechange == 21 {
        Some(StateChange::Facing { x: low32(e.dst_agent), y: high32(e.dst_agent) })
    } else {
        None
    }
}

/// The data a log-level record holds.
pub open spec fn meta_of(e: CombatEventV1) -> MetaEventData {
    if e.is_statechange == 14 {
        MetaEventData::Language(Language::spec_from_agent_id(e.src_agent))
    } else if e.is_statechange == 15 {
        MetaEventData::Gw2Build(e.src_agent)
    } else if e.is_statechange == 16 {
        MetaEventData::ShardId(e.src_agent)
    } else if e.is_statechange == 9 {
        MetaEventData::LogStart {
            server: unsigned32(e.value),
            local: unsigned32(e.buff_dmg),
            arcdps_id: e.src_agent,
        }
    } else {
        MetaEventData::LogEnd {
            server: unsigned32(e.value),
            local: unsigned32(e.buff_dmg),
            arcdps_id: e.src_agent,
        }
    }
}

/// Classification is total and exclusive: of the six kinds, every record is of
/// exactly one, and [`kind_of`] names it.
pub proof fn lemma_kind_exclusive(e: CombatEventV1)
    ensures
        is_meta(e) <==> kind_of(e) == EventKind::Meta,
        is_source_only(e) <==> kind_of(e) == EventKind::Source,
        is_damage(e) <==> kind_of(e) == EventKind::Damage,
        is_activation(e) <==> kind_of(e) == EventKind::Activation,
        is_buff_application(e) <==> kind_of(e) == EventKind::BuffApplication,
        is_buff_removal(e) <==> kind_of(e) == EventKind::BuffRemoval,
        (if is_meta(e) { 1int } else { 0 }) + (if is_source_only(e) { 1int } else { 0 }) + (if is_damage(e) { 1int } else { 0 })
            + (if is_activation(e) { 1int } else { 0 }) + (if is_buff_application(e) { 1int } else { 0 }) + (if is_buff_removal(e) { 1int } else { 0 }) == 1,
        has_target(e) <== is_damage(e) || is_buff(e),
{
}

/// A hit that was blocked, evaded, interrupted, absorbed or missed does no
/// damage, and no damage is negative for a buff.
pub proof fn lemma_zero_hit_no_damage(e: CombatEventV1)
    ensures
        hit_type_of(e).spec_is_zero() ==> damage_of(e) == 0,
        e.buff > 0 ==> damage_of(e) >= 0 && hit_type_of(e) == HitType::Condi,
{
}

} // verus!
