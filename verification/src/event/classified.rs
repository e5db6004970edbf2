//! Combat records as one tagged value: the classification is done once, and
//! each variant carries only the fields that are valid for it.

use vstd::prelude::*;

use crate::event::CastType;
use crate::event::EventKind;
use crate::event::HitType;
use crate::event::MetaEventData;
use crate::event::StateChange;
use crate::event::cast_of;
use crate::event::damage_of;
use crate::event::hit_type_of;
use crate::event::is_activation;
use crate::event::is_buff;
use crate::event::is_damage;
use crate::event::is_meta;
use crate::event::kind_of;
use crate::event::master_of;
use crate::event::meta_of;
use crate::event::raw::CombatEventV1;
use crate::event::raw::to_unsigned32;
use crate::event::raw::unsigned32;
use crate::event::state_change_of;
use crate::metadata::Agent;
use crate::types::AgentId;
use crate::types::InstanceId;

verus! {

/// A combat record of the first layout.
pub type CombatEvent = CombatEventV1;

/// A combat record as a tagged value, with its time.
#[derive(Clone, Copy, PartialEq, Eq, Structural, Debug)]
pub struct Event {
    /// Time of the event in milliseconds.
    pub time: u64,
    /// What happened.
    pub event: EventType,
}

/// What a combat record tells: something of the log, or something of an
/// agent.
#[derive(Clone, Copy, PartialEq, Eq, Structural, Debug)]
pub enum EventType {
    /// Log-level data.
    Meta(MetaEventData),
    /// An event of a source agent.
    Agent {
        /// The agent the event comes from.
        agent: AgentId,
        /// The instance of the agent.
        instance: InstanceId,
        /// The instance of the master of the agent, if it is a minion, pet or
        /// gadget.
        master_instance: Option<InstanceId>,
        /// What happened.
        event: AgentEvent,
    },
}

/// What happened to a source agent.
#[derive(Clone, Copy, PartialEq, Eq, Structural, Debug)]
pub enum AgentEvent {
    /// The state of the agent changed.
    State(StateChange),
    /// The agent started or ended the animation of a skill.
    Activation { skill: u16, cast: Activation },
    /// The agent did something to a target.
    WithTarget { agent: AgentId, instance: InstanceId, event: TargetEvent },
    /// The record fits no kind of event.
    Unclassified,
}

/// What a source agent did to a target.
#[derive(Clone, Copy, PartialEq, Eq, Structural, Debug)]
pub enum TargetEvent {
    /// A buff of the skill given was applied, or removed from the source.
    Buff(u16, Buff),
    /// The target was hit.
    Damage {
        skill: u16,
        damage: i64,
        flanking: bool,
        moving: bool,
        src_over90: bool,
        hit_type: HitType,
    },
}

/// How the animation of a skill started or ended.
pub type Activation = CastType;

/// What happened to a buff.
#[derive(Clone, Copy, PartialEq, Eq, Structural, Debug)]
pub enum Buff {
    /// All stacks were removed.
    RemoveAll,
    /// One stack was removed.
    RemoveSingle,
    /// The buff was removed automatically.
    RemoveManual,
    /// The buff was applied for the duration given, of which the log says
    /// that `overstack` went to waste.
    Application { duration: u32, overstack: u32 },
}

/// What a record of a source agent that is neither state change nor
/// activation is: buff or damage with its target, or nothing that is known.
pub open spec fn target_event_of(e: CombatEventV1) -> AgentEvent {
    if is_buff(e) {
        AgentEvent::WithTarget {
            agent: AgentId(e.dst_agent),
            instance: InstanceId(e.dst_instid),
            event: TargetEvent::Buff(
                e.skill_id,
                if e.is_buffremove == 1 {
                    Buff::RemoveAll
                } else if e.is_buffremove == 2 {
                    Buff::RemoveSingle
                } else if e.is_buffremove == 3 {
                    Buff::RemoveManual
                } else {
                    Buff::Application { duration: unsigned32(e.value), overstack: e.overstack as u32 }
                },
            ),
        }
    } else if is_damage(e) {
        AgentEvent::WithTarget {
            agent: AgentId(e.dst_agent),
            instance: InstanceId(e.dst_instid),
            event: TargetEvent::Damage {
                skill: e.skill_id,
                damage: damage_of(e),
                flanking: e.is_flanking > 0,
                moving: e.is_src_moving > 0,
                src_over90: e.is_src_ninety > 0,
                hit_type: hit_type_of(e),
            },
        }
    } else {
        AgentEvent::Unclassified
    }
}

/// What happened, as a record of a source agent tells it: an activation, a
/// buff, damage, a state change, or nothing that is known, in this order of
/// precedence.
pub open spec fn agent_event_of(e: CombatEventV1) -> AgentEvent {
    if is_activation(e) {
        AgentEvent::Activation { skill: e.skill_id, cast: cast_of(e) }
    } else if is_buff(e) || is_damage(e) {
        target_event_of(e)
    } else {
        match state_change_of(e) {
            Some(change) => AgentEvent::State(change),
            None => AgentEvent::Unclassified,
        }
    }
}

/// The tagged value of a record.
pub open spec fn classified(e: CombatEventV1) -> Event {
    Event {
        time: e.time,
        event: if is_meta(e) {
            EventType::Meta(meta_of(e))
        } else {
            EventType::Agent {
                agent: AgentId(e.src_agent),
                instance: InstanceId(e.src_instid),
                master_instance: master_of(e),
                event: agent_event_of(e),
            }
        },
    }
}

/// The event of a record, `None` for log-level data.
pub open spec fn event_of(e: CombatEventV1) -> Option<Event> {
    if is_meta(e) {
        None
    } else {
        Some(classified(e))
    }
}

/// True for damage done to a target.
pub open spec fn is_damage_event(v: AgentEvent) -> bool {
    match v {
        AgentEvent::WithTarget { event: TargetEvent::Damage { .. }, .. } => true,
        _ => false,
    }
}

/// True for the application of a buff.
pub open spec fn is_application_event(v: AgentEvent) -> bool {
    match v {
        AgentEvent::WithTarget { event: TargetEvent::Buff(_, Buff::Application { .. }), .. } => true,
        _ => false,
    }
}

/// True for the removal of a buff.
pub open spec fn is_removal_event(v: AgentEvent) -> bool {
    match v {
        AgentEvent::WithTarget { event: TargetEvent::Buff(_, buff), .. } => !(buff is Application),
        _ => false,
    }
}

/// The tagged value agrees with the kind of the record.
pub proof fn lemma_classified_kind(e: CombatEventV1)
    ensures
        classified(e).event is Meta <==> kind_of(e) == EventKind::Meta,
        event_of(e) is None <==> kind_of(e) == EventKind::Meta,
        classified(e).event matches EventType::Agent { event, .. } ==> {
            &&& event is Activation <==> kind_of(e) == EventKind::Activation
            &&& is_damage_event(event) <==> kind_of(e) == EventKind::Damage
            &&& is_application_event(event) <==> kind_of(e) == EventKind::BuffApplication
            &&& is_removal_event(event) <==> kind_of(e) == EventKind::BuffRemoval
            &&& (event is State || event is Unclassified) <==> kind_of(e) == EventKind::Source
        },
{
}

/// Turns raw records into tagged values.
pub trait IntoEvent {
    /// The record as the contracts speak of it.
    spec fn spec_record(&self) -> CombatEventV1;

    /// True if the record holds log-level data.
    fn is_meta_event(&self) -> (b: bool)
        ensures
            b == is_meta(self.spec_record()),
    ;

    /// The log-level data of the record, if it holds any.
    fn to_meta_event(&self) -> (r: Option<MetaEventData>)
        ensures
            r == if is_meta(self.spec_record()) {
                Some(meta_of(self.spec_record()))
            } else {
                None
            },
    ;

    /// The event of the record, `None` for log-level data.
    fn to_event(&self) -> (r: Option<Event>)
        ensures
            r == event_of(self.spec_record()),
    ;
}

impl CombatEventV1 {
    /// What a record that is neither state change nor activation is.
    #[inline(always)]
    pub fn match_activation(&self) -> (r: AgentEvent)
        ensures
            r == target_event_of(*self),
    {
        match self.kind() {
            EventKind::BuffApplication => AgentEvent::WithTarget {
                agent: self.dst_agent(),
                instance: self.dst_instid(),
                event: TargetEvent::Buff(
                    self.skill_id,
                    Buff::Application {
                        duration: to_unsigned32(self.value),
                        overstack: self.overstack as u32,
                    },
                ),
            },
            EventKind::BuffRemoval => AgentEvent::WithTarget {
                agent: self.dst_agent(),
                instance: self.dst_instid(),
                event: TargetEvent::Buff(
                    self.skill_id,
                    match self.is_buffremove {
                        1 => Buff::RemoveAll,
                        2 => Buff::RemoveSingle,
                        _ => Buff::RemoveManual,
                    },
                ),
            },
            EventKind::Damage => AgentEvent::WithTarget {
                agent: self.dst_agent(),
                instance: self.dst_instid(),
                event: TargetEvent::Damage {
                    skill: self.skill_id,
                    damage: self.damage(),
                    flanking: self.is_flanking > 0,
                    moving: self.is_src_moving > 0,
                    src_over90: self.is_src_ninety > 0,
                    hit_type: self.hit_type(),
                },
            },
            _ => AgentEvent::Unclassified,
        }
    }

    /// What happened to the source agent of the record.
    pub fn agent_event(&self) -> (r: AgentEvent)
        ensures
            r == agent_event_of(*self),
    {
        match self.kind() {
            EventKind::Activation => AgentEvent::Activation {
                skill: self.skill_id,
                cast: self.cast(),
            },
            EventKind::Source | EventKind::Meta => match self.state_change() {
                Some(change) => AgentEvent::State(change),
                None => AgentEvent::Unclassified,
            },
            _ => self.match_activation(),
        }
    }

    /// The record as a tagged value.
    pub fn classify(&self) -> (r: Event)
        ensures
            r == classified(*self),
    {
        Event {
            time: self.time,
            event: if self.is_meta() {
                EventType::Meta(self.meta())
            } else {
                EventType::Agent {
                    agent: self.src_agent(),
                    instance: self.src_instid(),
                    master_instance: self.src_master_instid(),
                    event: self.agent_event(),
                }
            },
        }
    }
}


impl IntoEvent for CombatEventV1 {
    open spec fn spec_record(&self) -> CombatEventV1 {
        *self
    }

    #[inline(always)]
    fn is_meta_event(&self) -> (b: bool) {
        self.is_meta()
    }

    #[inline(always)]
    fn to_meta_event(&self) -> (r: Option<MetaEventData>) {
        if self.is_meta() {
            Some(self.meta())
        } else {
            None
        }
    }

    #[inline(always)]
    fn to_event(&self) -> (r: Option<Event>) {
        if self.is_meta_event() {
            None
        } else {
            Some(self.classify())
        }
    }
}

impl EventType {
    /// True if the event comes from `agent` or from one of its minions and
    /// gadgets.
    #[inline]
    pub fn from_agent_and_gadgets(&self, agent: &Agent) -> (b: bool)
        ensures
            b == match *self {
                EventType::Agent { agent: source, master_instance, .. } => source == agent.inner.id
                    || master_instance == Some(agent.meta.instid),
                EventType::Meta(_) => false,
            },
    {
        match self {
            EventType::Agent { agent: a, master_instance: i, .. } => *a == agent.id() || match i {
                Some(i) => *i == agent.instance_id(),
                None => false,
            },
            _ => false,
        }
    }
}

impl Event {
    /// True if the event comes from `agent` or from one of its minions and
    /// gadgets.
    #[inline]
    pub fn from_agent_and_gadgets(&self, agent: &Agent) -> (b: bool)
        ensures
            b == match self.event {
                EventType::Agent { agent: source, master_instance, .. } => source == agent.inner.id
                    || master_instance == Some(agent.meta.instid),
                EventType::Meta(_) => false,
            },
    {
        self.event.from_agent_and_gadgets(agent)
    }
}

} // verus!
