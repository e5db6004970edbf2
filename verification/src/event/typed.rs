//! Typed views of combat records.
//!
//! A wrapper is made from a record only if the record is of the kind the
//! wrapper stands for, so that holding one is proof of the kind.

use vstd::prelude::*;

use crate::event::CastType;
use crate::event::EventKind;
use crate::event::HitType;
use crate::event::MetaEventData;
use crate::event::StateChange;
use crate::event::breaks_zero_damage;
use crate::event::cast_of;
use crate::event::damage_of;
use crate::event::has_target;
use crate::event::hit_type_of;
use crate::event::is_activation;
use crate::event::is_buff;
use crate::event::is_damage;
use crate::event::is_meta;
use crate::event::kind_of;
use crate::event::master_of;
use crate::event::meta_of;
use crate::event::raw::CombatBuffRemove;
use crate::event::raw::CombatEventV1;
use crate::event::raw::Language;
use crate::event::raw::to_unsigned32;
use crate::event::removal_of;
use crate::event::state_change_of;
use crate::types::AgentId;
use crate::types::InstanceId;

verus! {

/// True if `agents` holds `agent`.
pub fn contains_agent(agents: &[AgentId], agent: AgentId) -> (b: bool)
    ensures
        b == agents@.contains(agent),
{
    let mut i: usize = 0;
    while i < agents.len()
        invariant
            i <= agents.len(),
            forall|j: int| 0 <= j < i ==> agents@[j] != agent,
        decreases agents.len() - i,
    {
        if agents[i] == agent {
            return true;
        }
        i += 1;
    }
    false
}

impl CombatEventV1 {
    /// The agent the record comes from.
    pub fn src_agent(&self) -> (a: AgentId)
        ensures
            a == AgentId(self.src_agent),
    {
        AgentId::new(self.src_agent)
    }

    /// The agent the record is aimed at.
    pub fn dst_agent(&self) -> (a: AgentId)
        ensures
            a == AgentId(self.dst_agent),
    {
        AgentId::new(self.dst_agent)
    }

    /// The instance of the source agent.
    pub fn src_instid(&self) -> (i: InstanceId)
        ensures
            i == InstanceId(self.src_instid),
    {
        InstanceId::new(self.src_instid)
    }

    /// The instance of the destination agent.
    pub fn dst_instid(&self) -> (i: InstanceId)
        ensures
            i == InstanceId(self.dst_instid),
    {
        InstanceId::new(self.dst_instid)
    }

    /// Events without a source agent.
    pub fn is_meta(&self) -> (b: bool)
        ensures
            b == is_meta(*self),
    {
        match self.is_statechange {
            9 | 10 | 14 | 15 | 16 => true,
            _ => false,
        }
    }

    /// The master instance if the source is a minion, pet or gadget.
    pub fn src_master_instid(&self) -> (m: Option<InstanceId>)
        ensures
            m == master_of(*self),
    {
        if self.src_master_instid == 0 {
            None
        } else {
            Some(InstanceId::new(self.src_master_instid))
        }
    }

    /// True if the record has a destination agent.
    pub fn has_target(&self) -> (b: bool)
        ensures
            b == has_target(*self),
    {
        self.is_statechange == 0 && self.is_activation == 0
    }

    /// The kind of the record.
    pub fn kind(&self) -> (k: EventKind)
        ensures
            k == kind_of(*self),
    {
        if self.is_meta() {
            EventKind::Meta
        } else if 1 <= self.is_activation && self.is_activation <= 5 {
            EventKind::Activation
        } else if self.is_statechange != 0 || self.is_activation != 0 {
            EventKind::Source
        } else if self.buff > 0 && self.buff_dmg == 0 {
            if self.is_buffremove == 0 {
                EventKind::BuffApplication
            } else if self.is_buffremove <= 3 {
                EventKind::BuffRemoval
            } else {
                EventKind::Source
            }
        } else if self.is_buffremove == 0 && (self.buff > 0 || self.result <= 9) {
            EventKind::Damage
        } else {
            EventKind::Source
        }
    }

    /// The data of a log-level record. For other records the result has no
    /// meaning.
    pub fn meta(&self) -> (d: MetaEventData)
        ensures
            d == meta_of(*self),
    {
        match self.is_statechange {
            14 => MetaEventData::Language(Language::from_agent_id(self.src_agent)),
            15 => MetaEventData::Gw2Build(self.src_agent),
            16 => MetaEventData::ShardId(self.src_agent),
            9 => MetaEventData::LogStart {
                server: to_unsigned32(self.value),
                local: to_unsigned32(self.buff_dmg),
                arcdps_id: self.src_agent,
            },
            _ => MetaEventData::LogEnd {
                server: to_unsigned32(self.value),
                local: to_unsigned32(self.buff_dmg),
                arcdps_id: self.src_agent,
            },
        }
    }

    /// The state change the record reports, if any.
    pub fn state_change(&self) -> (s: Option<StateChange>)
        ensures
            s == state_change_of(*self),
    {
        let low: u32 = (self.dst_agent % 0x1_0000_0000) as u32;
        let high: u32 = (self.dst_agent / 0x1_0000_0000) as u32;
        match self.is_statechange {
            1 => Some(StateChange::EnterCombat(self.dst_agent)),
            2 => Some(StateChange::ExitCombat),
            3 => Some(StateChange::ChangeUp),
            4 => Some(StateChange::ChangeDead),
            5 => Some(StateChange::ChangeDown),
            6 => Some(StateChange::Spawn),
            7 => Some(StateChange::Despawn),
            8 => Some(StateChange::HealthUpdate(self.dst_agent)),
            11 => Some(StateChange::WeaponSwap),
            12 => Some(StateChange::MaxHealthUpdate(self.dst_agent)),
            13 => Some(StateChange::PointOfView),
            17 => Some(StateChange::Reward(self.dst_agent, to_unsigned32(self.value))),
            18 => Some(StateChange::BuffInitial),
            19 => Some(
                StateChange::Position { x: low, y: high, z: to_unsigned32(self.value) },
            ),
            20 => Some(
                StateChange::Velocity { x: low, y: high, z: to_unsigned32(self.value) },
            ),
            21 => Some(StateChange::Facing { x: low, y: high }),
            _ => None,
        }
    }

    /// The cast of an activation record. For other records the result has no
    /// meaning.
    pub fn cast(&self) -> (c: CastType)
        ensures
            c == cast_of(*self),
    {
        match self.is_activation {
            1 => CastType::Normal(to_unsigned32(self.value)),
            2 => CastType::Quickness(to_unsigned32(self.value)),
            3 => CastType::CancelFire(to_unsigned32(self.value)),
            4 => CastType::Cancel(to_unsigned32(self.value)),
            _ => CastType::Reset,
        }
    }

    /// The removal kind the record holds.
    pub fn removal(&self) -> (r: CombatBuffRemove)
        ensures
            r == removal_of(*self),
    {
        match self.is_buffremove {
            1 => CombatBuffRemove::All,
            2 => CombatBuffRemove::Single,
            3 => CombatBuffRemove::Manual,
            _ => CombatBuffRemove::NoRemoval,
        }
    }

    /// The hit type of a damage record. For other records the result has no
    /// meaning.
    pub fn hit_type(&self) -> (h: HitType)
        ensures
            h == hit_type_of(*self),
    {
        if self.buff > 0 {
            HitType::Condi
        } else {
            match self.result {
                1 => HitType::Crit,
                2 => HitType::Glance,
                3 => HitType::Block,
                4 => HitType::Evade,
                5 => HitType::Interrupt,
                6 => HitType::Absorb,
                7 => HitType::Blind,
                8 => HitType::KillingBlow,
                9 => HitType::DowningBlow,
                _ => HitType::Normal,
            }
        }
    }

    /// The damage of a damage record. For other records the result has no
    /// meaning.
    pub fn damage(&self) -> (d: i64)
        ensures
            d == damage_of(*self),
    {
        if self.buff > 0 {
            // Resisted damage is logged as negative
            if self.buff_dmg > 0 {
                self.buff_dmg as i64
            } else {
                0
            }
        } else if self.hit_type().is_zero() {
            0
        } else {
            self.value as i64
        }
    }
}

impl CombatEventV1 {
    fn is_buff_record(&self) -> (b: bool)
        ensures
            b == is_buff(*self),
    {
        let k = self.kind();
        k == EventKind::BuffApplication || k == EventKind::BuffRemoval
    }
}

/// Wrapper around a record that holds log-level data.
#[derive(Clone, Copy, Debug)]
pub struct MetaEvent(CombatEventV1);

impl MetaEvent {
    #[verifier::type_invariant]
    spec fn inv(&self) -> bool {
        is_meta(self.0)
    }

    /// The record inside.
    pub closed spec fn view(&self) -> CombatEventV1 {
        self.0
    }

    /// Wraps `record` if it is of this kind.
    pub fn new(record: CombatEventV1) -> (r: Option<MetaEvent>)
        ensures
            r is Some <==> is_meta(record),
            r matches Some(w) ==> w@ == record,
    {
        if record.is_meta() {
            Some(MetaEvent(record))
        } else {
            None
        }
    }
}

/// Wrapper around a record that has a source agent.
#[derive(Clone, Copy, Debug)]
pub struct SourceEvent(CombatEventV1);

impl SourceEvent {
    #[verifier::type_invariant]
    spec fn inv(&self) -> bool {
        !is_meta(self.0)
    }

    /// The record inside.
    pub closed spec fn view(&self) -> CombatEventV1 {
        self.0
    }

    /// Wraps `record` if it is of this kind.
    pub fn new(record: CombatEventV1) -> (r: Option<SourceEvent>)
        ensures
            r is Some <==> !is_meta(record),
            r matches Some(w) ==> w@ == record,
    {
        if !record.is_meta() {
            Some(SourceEvent(record))
        } else {
            None
        }
    }
}

/// Wrapper around a record that has a target.
#[derive(Clone, Copy, Debug)]
pub struct TargetEvent(CombatEventV1);

impl TargetEvent {
    #[verifier::type_invariant]
    spec fn inv(&self) -> bool {
        has_target(self.0)
    }

    /// The record inside.
    pub closed spec fn view(&self) -> CombatEventV1 {
        self.0
    }

    /// Wraps `record` if it is of this kind.
    pub fn new(record: CombatEventV1) -> (r: Option<TargetEvent>)
        ensures
            r is Some <==> has_target(record),
            r matches Some(w) ==> w@ == record,
    {
        if record.has_target() {
            Some(TargetEvent(record))
        } else {
            None
        }
    }
}

/// Wrapper around a record that is a skill activation.
#[derive(Clone, Copy, Debug)]
pub struct ActivationEvent(CombatEventV1);

impl ActivationEvent {
    #[verifier::type_invariant]
    spec fn inv(&self) -> bool {
        is_activation(self.0)
    }

    /// The record inside.
    pub closed spec fn view(&self) -> CombatEventV1 {
        self.0
    }

    /// Wraps `record` if it is of this kind.
    pub fn new(record: CombatEventV1) -> (r: Option<ActivationEvent>)
        ensures
            r is Some <==> is_activation(record),
            r matches Some(w) ==> w@ == record,
    {
        if record.kind() == EventKind::Activation {
            Some(ActivationEvent(record))
        } else {
            None
        }
    }
}

/// Wrapper around a record that is a damage event.
#[derive(Clone, Copy, Debug)]
pub struct DamageEvent(CombatEventV1);

impl DamageEvent {
    #[verifier::type_invariant]
    spec fn inv(&self) -> bool {
        is_damage(self.0)
    }

    /// The record inside.
    pub closed spec fn view(&self) -> CombatEventV1 {
        self.0
    }

    /// Wraps `record` if it is of this kind.
    pub fn new(record: CombatEventV1) -> (r: Option<DamageEvent>)
        ensures
            r is Some <==> is_damage(record),
            r matches Some(w) ==> w@ == record,
    {
        if record.kind() == EventKind::Damage {
            Some(DamageEvent(record))
        } else {
            None
        }
    }
}

/// Wrapper around a record that is a buff application or removal.
#[derive(Clone, Copy, Debug)]
pub struct BuffEvent(CombatEventV1);

impl BuffEvent {
    #[verifier::type_invariant]
    spec fn inv(&self) -> bool {
        is_buff(self.0)
    }

    /// The record inside.
    pub closed spec fn view(&self) -> CombatEventV1 {
        self.0
    }

    /// Wraps `record` if it is of this kind.
    pub fn new(record: CombatEventV1) -> (r: Option<BuffEvent>)
        ensures
            r is Some <==> is_buff(record),
            r matches Some(w) ==> w@ == record,
    {
        if record.is_buff_record() {
            Some(BuffEvent(record))
        } else {
            None
        }
    }
}

/// Basic event type, contains methods for accessing data common to all events
/// and to refine the event into a more specific type.
pub trait Event: Sized {
    /// The record behind the event.
    spec fn record(&self) -> CombatEventV1;

    /// A copy of the record behind the event.
    fn raw(&self) -> (r: CombatEventV1)
        ensures
            r == self.record(),
    ;

    /// Timestamp of the event in milliseconds, relative time of the point of
    /// view.
    fn time(&self) -> (t: u64)
        ensures
            t == self.record().time,
    {
        self.raw().time
    }

    /// The kind of the event.
    fn kind(&self) -> (k: EventKind)
        ensures
            k == kind_of(self.record()),
    {
        self.raw().kind()
    }

    /// The event as an event of a source agent, unless it is log-level data.
    fn into_source(self) -> (r: Option<SourceEvent>)
        ensures
            r is Some <==> !is_meta(self.record()),
            r matches Some(w) ==> w@ == self.record(),
    {
        SourceEvent::new(self.raw())
    }

    /// The event as log-level data, if it is that.
    fn into_meta(self) -> (r: Option<MetaEvent>)
        ensures
            r is Some <==> is_meta(self.record()),
            r matches Some(w) ==> w@ == self.record(),
    {
        MetaEvent::new(self.raw())
    }

    /// The event as damage, if it is that.
    fn into_damage(self) -> (r: Option<DamageEvent>)
        ensures
            r is Some <==> is_damage(self.record()),
            r matches Some(w) ==> w@ == self.record(),
    {
        DamageEvent::new(self.raw())
    }

    /// The event as a skill activation, if it is that.
    fn into_activation(self) -> (r: Option<ActivationEvent>)
        ensures
            r is Some <==> is_activation(self.record()),
            r matches Some(w) ==> w@ == self.record(),
    {
        ActivationEvent::new(self.raw())
    }

    /// The event as a buff application or removal, if it is that.
    fn into_buff(self) -> (r: Option<BuffEvent>)
        ensures
            r is Some <==> is_buff(self.record()),
            r matches Some(w) ==> w@ == self.record(),
    {
        BuffEvent::new(self.raw())
    }

    /// The event, if it comes from `agent`.
    fn from_agent(self, agent: AgentId) -> (r: Option<SourceEvent>)
        ensures
            r is Some <==> !is_meta(self.record()) && self.record().src_agent == agent.0,
            r matches Some(w) ==> w@ == self.record(),
    {
        let record = self.raw();
        if record.src_agent == agent.0 {
            SourceEvent::new(record)
        } else {
            None
        }
    }

    /// The event, if it comes from a minion or gadget of the instance
    /// `master`.
    fn from_gadgets(self, master: InstanceId) -> (r: Option<SourceEvent>)
        ensures
            r is Some <==> !is_meta(self.record()) && master_of(self.record()) == Some(master),
            r matches Some(w) ==> w@ == self.record(),
    {
        let record = self.raw();
        if record.src_master_instid != 0 && record.src_master_instid == master.0 {
            SourceEvent::new(record)
        } else {
            None
        }
    }

    /// The event, if it comes from `agent` or from a minion or gadget of the
    /// instance `instance`.
    fn from_agent_or_gadgets(self, agent: AgentId, instance: InstanceId) -> (r: Option<
        SourceEvent,
    >)
        ensures
            r is Some <==> !is_meta(self.record()) && (self.record().src_agent == agent.0
                || master_of(self.record()) == Some(instance)),
            r matches Some(w) ==> w@ == self.record(),
    {
        let record = self.raw();
        if record.src_agent == agent.0 || (record.src_master_instid != 0
            && record.src_master_instid == instance.0) {
            SourceEvent::new(record)
        } else {
            None
        }
    }

    /// The event, if it comes from one of `agents`.
    fn from_any_of(self, agents: &[AgentId]) -> (r: Option<SourceEvent>)
        ensures
            r is Some <==> !is_meta(self.record()) && agents@.contains(
                AgentId(self.record().src_agent),
            ),
            r matches Some(w) ==> w@ == self.record(),
    {
        let record = self.raw();
        if contains_agent(agents, record.src_agent()) {
            SourceEvent::new(record)
        } else {
            None
        }
    }

    /// The event, if it has a target and the target is `agent`.
    fn targeting_agent(self, agent: AgentId) -> (r: Option<TargetEvent>)
        ensures
            r is Some <==> has_target(self.record()) && self.record().dst_agent == agent.0,
            r matches Some(w) ==> w@ == self.record(),
    {
        let record = self.raw();
        if record.dst_agent == agent.0 {
            TargetEvent::new(record)
        } else {
            None
        }
    }

    /// The event, if it has a target and the target is one of `agents`.
    fn targeting_any_of(self, agents: &[AgentId]) -> (r: Option<TargetEvent>)
        ensures
            r is Some <==> has_target(self.record()) && agents@.contains(
                AgentId(self.record().dst_agent),
            ),
            r matches Some(w) ==> w@ == self.record(),
    {
        let record = self.raw();
        if contains_agent(agents, record.dst_agent()) {
            TargetEvent::new(record)
        } else {
            None
        }
    }
}

/// Trait for events which are not tied to any source agent.
pub trait Meta: Event {
    /// The data of the event.
    fn into_enum(&self) -> (d: MetaEventData)
        ensures
            is_meta(self.record()),
            d == meta_of(self.record()),
    ;
}

/// Trait for events which are tied to a source agent.
pub trait Source: Event {
    /// The source of the event.
    fn agent(&self) -> (a: AgentId)
        ensures
            !is_meta(self.record()),
            a == AgentId(self.record().src_agent),
    ;

    /// The instance of the source.
    fn instance(&self) -> (i: InstanceId)
        ensures
            i == InstanceId(self.record().src_instid),
    ;

    /// The instance of the master of the source, if the source is a minion,
    /// pet or gadget.
    fn master_instance(&self) -> (m: Option<InstanceId>)
        ensures
            m == master_of(self.record()),
    ;

    /// The state change the event reports, if any.
    fn state_change(&self) -> (s: Option<StateChange>)
        ensures
            s == state_change_of(self.record()),
    ;
}

/// Trait for skill casts, where agents activate skills.
pub trait Activation: Source {
    /// The skill that was activated.
    fn skill(&self) -> (s: u16)
        ensures
            s == self.record().skill_id,
    ;

    /// How the activation started or ended.
    fn cast(&self) -> (c: CastType)
        ensures
            is_activation(self.record()),
            c == cast_of(self.record()),
    ;
}

/// Trait for events which affect a target.
pub trait Target: Source {
    /// The target of the event.
    fn target_agent(&self) -> (a: AgentId)
        ensures
            has_target(self.record()),
            a == AgentId(self.record().dst_agent),
    ;

    /// The instance of the target.
    fn target_instance(&self) -> (i: InstanceId)
        ensures
            i == InstanceId(self.record().dst_instid),
    ;
}

/// Trait for events which apply a buff, boon, debuff or condition to a target,
/// or remove one from the source.
pub trait Buff: Target {
    /// The skill id of the buff.
    fn skill(&self) -> (s: u16)
        ensures
            s == self.record().skill_id,
    ;

    /// The kind of removal, [`CombatBuffRemove::NoRemoval`] for an
    /// application.
    fn removal(&self) -> (r: CombatBuffRemove)
        ensures
            is_buff(self.record()),
            r == removal_of(self.record()),
    ;

    /// The duration applied, in milliseconds.
    fn duration(&self) -> (d: u32)
        ensures
            d == crate::event::raw::unsigned32(self.record().value),
    ;

    /// The duration the log says went to waste, in milliseconds.
    fn overstack(&self) -> (o: u32)
        ensures
            o == self.record().overstack,
    ;

    /// True if the event removes the buff.
    fn is_remove(&self) -> (b: bool)
        ensures
            b == (removal_of(self.record()) != CombatBuffRemove::NoRemoval),
    {
        self.removal() != CombatBuffRemove::NoRemoval
    }
}

/// Trait for events which damage a target.
pub trait Damage: Target {
    /// The skill that did the damage.
    fn skill(&self) -> (s: u16)
        ensures
            s == self.record().skill_id,
    ;

    /// The damage done, never negative for buffs and zero for hits that do no
    /// damage.
    fn damage(&self) -> (d: i64)
        ensures
            is_damage(self.record()),
            d == damage_of(self.record()),
    ;

    /// True if the source was flanking the target.
    fn flanking(&self) -> (b: bool)
        ensures
            b == (self.record().is_flanking > 0),
    ;

    /// True if the source was moving.
    fn moving(&self) -> (b: bool)
        ensures
            b == (self.record().is_src_moving > 0),
    ;

    /// The type of the hit.
    fn hit_type(&self) -> (h: HitType)
        ensures
            h == hit_type_of(self.record()),
    ;

    /// True if the health of the source was over 90%.
    fn over90(&self) -> (b: bool)
        ensures
            b == (self.record().is_src_ninety > 0),
    ;

    /// True if the record claims damage for a hit that cannot have done any.
    /// [`Damage::damage`] reports zero for such a hit.
    fn breaks_zero_damage(&self) -> (b: bool)
        ensures
            b == breaks_zero_damage(self.record()),
    ;
}

impl Event for CombatEventV1 {
    open spec fn record(&self) -> CombatEventV1 {
        *self
    }

    fn raw(&self) -> (r: CombatEventV1) {
        *self
    }
}

impl Event for MetaEvent {
    open spec fn record(&self) -> CombatEventV1 {
        self@
    }

    fn raw(&self) -> (r: CombatEventV1) {
        self.0
    }
}

impl Event for SourceEvent {
    open spec fn record(&self) -> CombatEventV1 {
        self@
    }

    fn raw(&self) -> (r: CombatEventV1) {
        self.0
    }
}

impl Event for TargetEvent {
    open spec fn record(&self) -> CombatEventV1 {
        self@
    }

    fn raw(&self) -> (r: CombatEventV1) {
        self.0
    }
}

impl Event for ActivationEvent {
    open spec fn record(&self) -> CombatEventV1 {
        self@
    }

    fn raw(&self) -> (r: CombatEventV1) {
        self.0
    }
}

impl Event for DamageEvent {
    open spec fn record(&self) -> CombatEventV1 {
        self@
    }

    fn raw(&self) -> (r: CombatEventV1) {
        self.0
    }
}

impl Event for BuffEvent {
    open spec fn record(&self) -> CombatEventV1 {
        self@
    }

    fn raw(&self) -> (r: CombatEventV1) {
        self.0
    }
}

impl Meta for MetaEvent {
    fn into_enum(&self) -> (d: MetaEventData) {
        proof {
            use_type_invariant(self);
        }
        self.0.meta()
    }
}

impl Source for SourceEvent {
    fn agent(&self) -> (a: AgentId) {
        proof {
            use_type_invariant(self);
        }
        self.0.src_agent()
    }

    fn instance(&self) -> (i: InstanceId) {
        self.0.src_instid()
    }

    fn master_instance(&self) -> (m: Option<InstanceId>) {
        self.0.src_master_instid()
    }

    fn state_change(&self) -> (s: Option<StateChange>) {
        self.0.state_change()
    }
}

impl Source for TargetEvent {
    fn agent(&self) -> (a: AgentId) {
        proof {
            use_type_invariant(self);
        }
        self.0.src_agent()
    }

    fn instance(&self) -> (i: InstanceId) {
        self.0.src_instid()
    }

    fn master_instance(&self) -> (m: Option<InstanceId>) {
        self.0.src_master_instid()
    }

    fn state_change(&self) -> (s: Option<StateChange>) {
        self.0.state_change()
    }
}

impl Source for ActivationEvent {
    fn agent(&self) -> (a: AgentId) {
        proof {
            use_type_invariant(self);
        }
        self.0.src_agent()
    }

    fn instance(&self) -> (i: InstanceId) {
        self.0.src_instid()
    }

    fn master_instance(&self) -> (m: Option<InstanceId>) {
        self.0.src_master_instid()
    }

    fn state_change(&self) -> (s: Option<StateChange>) {
        self.0.state_change()
    }
}

impl Source for DamageEvent {
    fn agent(&self) -> (a: AgentId) {
        proof {
            use_type_invariant(self);
        }
        self.0.src_agent()
    }

    fn instance(&self) -> (i: InstanceId) {
        self.0.src_instid()
    }

    fn master_instance(&self) -> (m: Option<InstanceId>) {
        self.0.src_master_instid()
    }

    fn state_change(&self) -> (s: Option<StateChange>) {
        self.0.state_change()
    }
}

impl Source for BuffEvent {
    fn agent(&self) -> (a: AgentId) {
        proof {
            use_type_invariant(self);
        }
        self.0.src_agent()
    }

    fn instance(&self) -> (i: InstanceId) {
        self.0.src_instid()
    }

    fn master_instance(&self) -> (m: Option<InstanceId>) {
        self.0.src_master_instid()
    }

    fn state_change(&self) -> (s: Option<StateChange>) {
        self.0.state_change()
    }
}

impl Target for TargetEvent {
    fn target_agent(&self) -> (a: AgentId) {
        proof {
            use_type_invariant(self);
        }
        self.0.dst_agent()
    }

    fn target_instance(&self) -> (i: InstanceId) {
        self.0.dst_instid()
    }
}

impl Target for DamageEvent {
    fn target_agent(&self) -> (a: AgentId) {
        proof {
            use_type_invariant(self);
        }
        self.0.dst_agent()
    }

    fn target_instance(&self) -> (i: InstanceId) {
        self.0.dst_instid()
    }
}

impl Target for BuffEvent {
    fn target_agent(&self) -> (a: AgentId) {
        proof {
            use_type_invariant(self);
        }
        self.0.dst_agent()
    }

    fn target_instance(&self) -> (i: InstanceId) {
        self.0.dst_instid()
    }
}

impl Activation for ActivationEvent {
    fn skill(&self) -> (s: u16) {
        self.0.skill_id
    }

    fn cast(&self) -> (c: CastType) {
        proof {
            use_type_invariant(self);
        }
        self.0.cast()
    }
}

impl Buff for BuffEvent {
    fn skill(&self) -> (s: u16) {
        self.0.skill_id
    }

    fn removal(&self) -> (r: CombatBuffRemove) {
        proof {
            use_type_invariant(self);
        }
        self.0.removal()
    }

    fn duration(&self) -> (d: u32) {
        to_unsigned32(self.0.value)
    }

    fn overstack(&self) -> (o: u32) {
        self.0.overstack as u32
    }
}

impl Damage for DamageEvent {
    fn skill(&self) -> (s: u16) {
        self.0.skill_id
    }

    fn damage(&self) -> (d: i64) {
        proof {
            use_type_invariant(self);
        }
        self.0.damage()
    }

    fn flanking(&self) -> (b: bool) {
        self.0.is_flanking > 0
    }

    fn moving(&self) -> (b: bool) {
        self.0.is_src_moving > 0
    }

    fn hit_type(&self) -> (h: HitType) {
        self.0.hit_type()
    }

    fn over90(&self) -> (b: bool) {
        self.0.is_src_ninety > 0
    }

    fn breaks_zero_damage(&self) -> (b: bool) {
        self.0.buff == 0 && self.0.hit_type().is_zero() && self.0.value != 0
    }
}

} // verus!
