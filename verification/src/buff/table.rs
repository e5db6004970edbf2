//! The buffs that are tracked, and the simulators of one agent.

use vstd::prelude::*;

use crate::buff::BuffMeta;
use crate::buff::BuffSnapshot;
use crate::buff::Duration;
use crate::buff::Intensity;
use crate::buff::MetadataMap;
use crate::buff::Queue;
use crate::buff::Replace;
use crate::buff::Simulator;
use crate::buff::SimulatorState;
use crate::buff::Stack;
use crate::buff::StackMeta;
use crate::buff::after_event;
use crate::buff::after_finalize;
use crate::buff::after_update;
use crate::buff::cleared;
use crate::buff::intensity_meta;
use crate::buff::snapshot_of;
use crate::event::raw::CombatEventV1;
use crate::event::typed::Buff;
use crate::event::typed::Event;
use crate::table::Table;
use crate::types::AgentId;

verus! {

/// Boons that are used up one stack after the other, five stacks at most.
pub type QueuedDuration = Duration<Queue, [u32; 5]>;

/// Buffs of which only the longest application counts.
pub type SingleDuration = Duration<Replace, [u32; 1]>;

/// Boons whose stacks all count, a new stack waiting for an empty slot or
/// taking the place of a smaller stack that is not the first.
pub type QueuedIntensity = Intensity<Queue, [u32; 25]>;

/// Boons whose stacks all count, a new stack taking the place of a smaller
/// one.
pub type ReplacedIntensity = Intensity<Replace, [u32; 25]>;

/// The ways of stacking that the table knows.
#[derive(Clone, Copy, PartialEq, Eq, Structural, Debug)]
pub enum StackKind {
    /// [`QueuedDuration`]
    QueuedDuration,
    /// [`SingleDuration`]
    SingleDuration,
    /// [`QueuedIntensity`]
    QueuedIntensity,
    /// [`ReplacedIntensity`]
    ReplacedIntensity,
}

/// How the buff with the skill id given stacks, `None` for a buff that is not
/// tracked.
pub open spec fn spec_stack_kind(skill_id: u16) -> Option<StackKind> {
    if skill_id == 743 || skill_id == 30328 || skill_id == 725 || skill_id == 717 || skill_id
        == 1187 || skill_id == 718 || skill_id == 26980 || skill_id == 873 || skill_id == 719
        || skill_id == 726 {
        Some(StackKind::QueuedDuration)
    } else if skill_id == 740 {
        Some(StackKind::ReplacedIntensity)
    } else if skill_id == 1122 {
        Some(StackKind::QueuedIntensity)
    } else if skill_id == 14417 || skill_id == 14449 {
        Some(StackKind::SingleDuration)
    } else {
        None
    }
}

/// How the buff with the skill id given stacks, `None` for a buff that is not
/// tracked.
pub fn stack_kind(skill_id: u16) -> (k: Option<StackKind>)
    ensures
        k == spec_stack_kind(skill_id),
{
    match skill_id {
        // Aegis, Alacrity, Fury, Protection, Quickness, Regeneration,
        // Resistance, Retaliation, Swiftness, Vigor
        743 | 30328 | 725 | 717 | 1187 | 718 | 26980 | 873 | 719 | 726 => Some(
            StackKind::QueuedDuration,
        ),
        // Might
        740 => Some(StackKind::ReplacedIntensity),
        // Stability
        1122 => Some(StackKind::QueuedIntensity),
        // Banner of Strength, Banner of Discipline
        14417 | 14449 => Some(StackKind::SingleDuration),
        _ => None,
    }
}

impl StackKind {
    /// The metadata of the kind.
    pub fn stack_meta(self) -> (m: StackMeta)
        ensures
            m == spec_stack_meta(self),
    {
        match self {
            StackKind::QueuedDuration => QueuedDuration::stack_meta(),
            StackKind::SingleDuration => SingleDuration::stack_meta(),
            StackKind::QueuedIntensity => QueuedIntensity::stack_meta(),
            StackKind::ReplacedIntensity => ReplacedIntensity::stack_meta(),
        }
    }
}

/// The buffs that are tracked, with name and skill id: twelve boons and two
/// banners.
pub open spec fn tracked_buffs() -> Seq<(&'static str, u16)> {
    seq![
        ("Aegis", 743u16),
        ("Alacrity", 30328u16),
        ("Fury", 725u16),
        ("Might", 740u16),
        ("Protection", 717u16),
        ("Quickness", 1187u16),
        ("Regeneration", 718u16),
        ("Resistance", 26980u16),
        ("Retaliation", 873u16),
        ("Stability", 1122u16),
        ("Swiftness", 719u16),
        ("Vigor", 726u16),
        ("Banner of Strength", 14417u16),
        ("Banner of Discipline", 14449u16),
    ]
}

/// The metadata of a way of stacking.
pub open spec fn spec_stack_meta(kind: StackKind) -> StackMeta {
    match kind {
        StackKind::QueuedDuration | StackKind::SingleDuration => StackMeta::Duration,
        _ => intensity_meta(25),
    }
}

/// True if `list` holds the buffs that are tracked, in order: each with its
/// name, its skill id and the metadata of the way in which it stacks.
pub open spec fn lists_tracked(list: Seq<BuffMeta>) -> bool {
    &&& list.len() == tracked_buffs().len()
    &&& forall|i: int|
        0 <= i < list.len() ==> {
            let meta = #[trigger] list[i];
            &&& meta.name@ == tracked_buffs()[i].0@
            &&& meta.skill_id == tracked_buffs()[i].1
            &&& spec_stack_kind(meta.skill_id) matches Some(kind) && meta.stack == spec_stack_meta(
                kind,
            )
        }
}

/// The buffs that are tracked, with name, way of stacking and skill id.
pub fn meta_list() -> (list: Vec<BuffMeta>)
    ensures
        lists_tracked(list@),
{
    let duration = StackMeta::Duration;
    let intensity = StackMeta::Intensity { max: 25 };
    let mut list: Vec<BuffMeta> = Vec::new();
    list.push(BuffMeta { name: "Aegis", stack: duration, skill_id: 743 });
    list.push(BuffMeta { name: "Alacrity", stack: duration, skill_id: 30328 });
    list.push(BuffMeta { name: "Fury", stack: duration, skill_id: 725 });
    list.push(BuffMeta { name: "Might", stack: intensity, skill_id: 740 });
    list.push(BuffMeta { name: "Protection", stack: duration, skill_id: 717 });
    list.push(BuffMeta { name: "Quickness", stack: duration, skill_id: 1187 });
    list.push(BuffMeta { name: "Regeneration", stack: duration, skill_id: 718 });
    list.push(BuffMeta { name: "Resistance", stack: duration, skill_id: 26980 });
    list.push(BuffMeta { name: "Retaliation", stack: duration, skill_id: 873 });
    list.push(BuffMeta { name: "Stability", stack: intensity, skill_id: 1122 });
    list.push(BuffMeta { name: "Swiftness", stack: duration, skill_id: 719 });
    list.push(BuffMeta { name: "Vigor", stack: duration, skill_id: 726 });
    list.push(BuffMeta { name: "Banner of Strength", stack: duration, skill_id: 14417 });
    list.push(BuffMeta { name: "Banner of Discipline", stack: duration, skill_id: 14449 });
    list
}

/// The tracked buffs as a map for reports.
pub fn meta_map() -> (map: MetadataMap)
    ensures
        lists_tracked(map.0@),
{
    MetadataMap(meta_list())
}

/// What a simulator of any kind knows.
pub enum AnyState {
    QueuedDuration(SimulatorState),
    SingleDuration(SimulatorState),
    QueuedIntensity(SimulatorState),
    ReplacedIntensity(SimulatorState),
    /// The buff is not tracked.
    Untracked,
}

/// A state in which nothing has happened yet.
pub open spec fn fresh(agent: AgentId, slots: nat) -> SimulatorState {
    SimulatorState { slots: cleared(slots), time: 0, agent, uptime: 0, overstack: 0, stripped: 0 }
}

/// The state in which the simulator of the skill id given starts.
pub open spec fn created(agent: AgentId, skill_id: u16) -> AnyState {
    match spec_stack_kind(skill_id) {
        Some(StackKind::QueuedDuration) => AnyState::QueuedDuration(fresh(agent, 5)),
        Some(StackKind::SingleDuration) => AnyState::SingleDuration(fresh(agent, 1)),
        Some(StackKind::QueuedIntensity) => AnyState::QueuedIntensity(fresh(agent, 25)),
        Some(StackKind::ReplacedIntensity) => AnyState::ReplacedIntensity(fresh(agent, 25)),
        None => AnyState::Untracked,
    }
}

impl AnyState {
    /// The state after time has moved on to `time`.
    pub open spec fn updated(self, time: u64) -> AnyState {
        match self {
            AnyState::QueuedDuration(s) => AnyState::QueuedDuration(
                after_update::<QueuedDuration>(s, time),
            ),
            AnyState::SingleDuration(s) => AnyState::SingleDuration(
                after_update::<SingleDuration>(s, time),
            ),
            AnyState::QueuedIntensity(s) => AnyState::QueuedIntensity(
                after_update::<QueuedIntensity>(s, time),
            ),
            AnyState::ReplacedIntensity(s) => AnyState::ReplacedIntensity(
                after_update::<ReplacedIntensity>(s, time),
            ),
            AnyState::Untracked => AnyState::Untracked,
        }
    }

    /// The state after a buff record.
    pub open spec fn received(self, e: CombatEventV1) -> AnyState {
        match self {
            AnyState::QueuedDuration(s) => AnyState::QueuedDuration(
                after_event::<QueuedDuration>(s, e),
            ),
            AnyState::SingleDuration(s) => AnyState::SingleDuration(
                after_event::<SingleDuration>(s, e),
            ),
            AnyState::QueuedIntensity(s) => AnyState::QueuedIntensity(
                after_event::<QueuedIntensity>(s, e),
            ),
            AnyState::ReplacedIntensity(s) => AnyState::ReplacedIntensity(
                after_event::<ReplacedIntensity>(s, e),
            ),
            AnyState::Untracked => AnyState::Untracked,
        }
    }

    /// The state at the end of the encounter.
    pub open spec fn finalized(self, time: u64) -> AnyState {
        match self {
            AnyState::QueuedDuration(s) => AnyState::QueuedDuration(
                after_finalize::<QueuedDuration>(s, time),
            ),
            AnyState::SingleDuration(s) => AnyState::SingleDuration(
                after_finalize::<SingleDuration>(s, time),
            ),
            AnyState::QueuedIntensity(s) => AnyState::QueuedIntensity(
                after_finalize::<QueuedIntensity>(s, time),
            ),
            AnyState::ReplacedIntensity(s) => AnyState::ReplacedIntensity(
                after_finalize::<ReplacedIntensity>(s, time),
            ),
            AnyState::Untracked => AnyState::Untracked,
        }
    }

    /// The counters of the state, all zero for a buff that is not tracked.
    pub open spec fn snapshot(self) -> BuffSnapshot {
        match self {
            AnyState::QueuedDuration(s) => snapshot_of::<QueuedDuration>(s),
            AnyState::SingleDuration(s) => snapshot_of::<SingleDuration>(s),
            AnyState::QueuedIntensity(s) => snapshot_of::<QueuedIntensity>(s),
            AnyState::ReplacedIntensity(s) => snapshot_of::<ReplacedIntensity>(s),
            AnyState::Untracked => BuffSnapshot {
                stacks: 0,
                sum: 0,
                uptime: 0,
                overstack: 0,
                stripped: 0,
            },
        }
    }
}

/// A simulator of one of the kinds that the table knows, or of none.
pub enum AnySimulator {
    QueuedDuration(Simulator<QueuedDuration>),
    SingleDuration(Simulator<SingleDuration>),
    QueuedIntensity(Simulator<QueuedIntensity>),
    ReplacedIntensity(Simulator<ReplacedIntensity>),
    /// The buff is not tracked: everything is taken in, nothing is reported.
    Untracked,
}

impl AnySimulator {
    /// What the simulator knows.
    pub open spec fn view(&self) -> AnyState {
        match self {
            AnySimulator::QueuedDuration(s) => AnyState::QueuedDuration(s@),
            AnySimulator::SingleDuration(s) => AnyState::SingleDuration(s@),
            AnySimulator::QueuedIntensity(s) => AnyState::QueuedIntensity(s@),
            AnySimulator::ReplacedIntensity(s) => AnyState::ReplacedIntensity(s@),
            AnySimulator::Untracked => AnyState::Untracked,
        }
    }

    /// Moves the time on to `time`.
    pub fn update(&mut self, time: u64)
        ensures
            final(self)@ == old(self)@.updated(time),
    {
        match self {
            AnySimulator::QueuedDuration(s) => s.update(time),
            AnySimulator::SingleDuration(s) => s.update(time),
            AnySimulator::QueuedIntensity(s) => s.update(time),
            AnySimulator::ReplacedIntensity(s) => s.update(time),
            AnySimulator::Untracked => {},
        }
    }

    /// Takes in a buff application or removal.
    pub fn add_event<E: Buff>(&mut self, e: E)
        ensures
            final(self)@ == old(self)@.received(e.record()),
    {
        match self {
            AnySimulator::QueuedDuration(s) => s.add_event(e),
            AnySimulator::SingleDuration(s) => s.add_event(e),
            AnySimulator::QueuedIntensity(s) => s.add_event(e),
            AnySimulator::ReplacedIntensity(s) => s.add_event(e),
            AnySimulator::Untracked => {},
        }
    }

    /// Ends the simulation at `time`.
    pub fn finalize(&mut self, time: u64)
        ensures
            final(self)@ == old(self)@.finalized(time),
    {
        match self {
            AnySimulator::QueuedDuration(s) => s.finalize(time),
            AnySimulator::SingleDuration(s) => s.finalize(time),
            AnySimulator::QueuedIntensity(s) => s.finalize(time),
            AnySimulator::ReplacedIntensity(s) => s.finalize(time),
            AnySimulator::Untracked => {},
        }
    }

    /// The counters of the simulator.
    pub fn snapshot(&self) -> (r: BuffSnapshot)
        ensures
            r == self@.snapshot(),
    {
        match self {
            AnySimulator::QueuedDuration(s) => BuffSnapshot {
                stacks: s.stacks(),
                sum: s.sum(),
                uptime: s.uptime(),
                overstack: s.overstack(),
                stripped: s.stripped(),
            },
            AnySimulator::SingleDuration(s) => BuffSnapshot {
                stacks: s.stacks(),
                sum: s.sum(),
                uptime: s.uptime(),
                overstack: s.overstack(),
                stripped: s.stripped(),
            },
            AnySimulator::QueuedIntensity(s) => BuffSnapshot {
                stacks: s.stacks(),
                sum: s.sum(),
                uptime: s.uptime(),
                overstack: s.overstack(),
                stripped: s.stripped(),
            },
            AnySimulator::ReplacedIntensity(s) => BuffSnapshot {
                stacks: s.stacks(),
                sum: s.sum(),
                uptime: s.uptime(),
                overstack: s.overstack(),
                stripped: s.stripped(),
            },
            AnySimulator::Untracked => BuffSnapshot {
                stacks: 0,
                sum: 0,
                uptime: 0,
                overstack: 0,
                stripped: 0,
            },
        }
    }
}

/// The simulator for the buff with the skill id given, on the agent given.
/// A buff that is not tracked gets a simulator that reports nothing.
pub fn create_simulator(agent_id: AgentId, skill_id: u16) -> (sim: AnySimulator)
    ensures
        sim@ == created(agent_id, skill_id),
{
    match stack_kind(skill_id) {
        Some(StackKind::QueuedDuration) => AnySimulator::QueuedDuration(
            Simulator::new(agent_id, QueuedDuration::default()),
        ),
        Some(StackKind::SingleDuration) => AnySimulator::SingleDuration(
            Simulator::new(agent_id, SingleDuration::default()),
        ),
        Some(StackKind::QueuedIntensity) => AnySimulator::QueuedIntensity(
            Simulator::new(agent_id, QueuedIntensity::default()),
        ),
        Some(StackKind::ReplacedIntensity) => AnySimulator::ReplacedIntensity(
            Simulator::new(agent_id, ReplacedIntensity::default()),
        ),
        None => AnySimulator::Untracked,
    }
}

/// The buffs that were reported of `skills` and `states`: each skill whose
/// simulator has counted any uptime, with the counters of the simulator, in
/// the order of the skills.
pub open spec fn reported(skills: Seq<u64>, states: Seq<AnyState>) -> Seq<(u16, BuffSnapshot)>
    decreases skills.len(),
{
    if skills.len() == 0 || states.len() != skills.len() {
        Seq::empty()
    } else {
        let front = reported(skills.drop_last(), states.drop_last());
        if states.last().snapshot().uptime > 0 {
            front.push((skills.last() as u16, states.last().snapshot()))
        } else {
            front
        }
    }
}

/// The states after time has moved on to `time` for every simulator.
pub open spec fn all_updated(states: Seq<AnyState>, time: u64) -> Seq<AnyState> {
    Seq::new(states.len(), |i: int| states[i].updated(time))
}

/// The states at the end of the encounter.
pub open spec fn all_finalized(states: Seq<AnyState>, time: u64) -> Seq<AnyState> {
    Seq::new(states.len(), |i: int| states[i].finalized(time))
}

/// Skills and states after a buff record: the record goes to the simulator of
/// its skill, which is made and added behind the others if the skill was not
/// seen before. A simulator that is made starts at `time`, the time that the
/// others have reached.
pub open spec fn all_received(
    agent: AgentId,
    time: u64,
    skills: Seq<u64>,
    states: Seq<AnyState>,
    e: CombatEventV1,
) -> (Seq<u64>, Seq<AnyState>) {
    let skill = e.skill_id as u64;
    if skills.contains(skill) {
        let at = skills.index_of(skill);
        (skills, states.update(at, states[at].received(e)))
    } else {
        (skills.push(skill), states.push(created(agent, e.skill_id).updated(time).received(e)))
    }
}

/// The buff simulators of one agent, one for each skill id that was seen, in
/// the order in which the skill ids were first seen.
pub struct BuffMap {
    agent_id: AgentId,
    time: u64,
    sims: Table<AnySimulator>,
}

impl BuffMap {
    /// The simulators are keyed by skill ids.
    pub closed spec fn wf(&self) -> bool {
        &&& self.sims.wf()
        &&& forall|i: int|
            0 <= i < self.sims.keys().len() ==> (#[trigger] self.sims.keys()[i]) <= u16::MAX
    }

    /// The agent whose buffs are simulated.
    pub closed spec fn agent(&self) -> AgentId {
        self.agent_id
    }

    /// The time that the simulators have reached.
    pub closed spec fn time(&self) -> u64 {
        self.time
    }

    /// The skill ids in the order in which they were first seen.
    pub closed spec fn skills(&self) -> Seq<u64> {
        self.sims.keys()
    }

    /// What the simulators know, `states()[i]` belonging to `skills()[i]`.
    pub closed spec fn states(&self) -> Seq<AnyState> {
        Seq::new(self.sims.values().len(), |i: int| self.sims.values()[i]@)
    }

    /// No simulators yet.
    #[inline]
    pub fn new(agent_id: AgentId) -> (map: Self)
        ensures
            map.wf(),
            map.agent() == agent_id,
            map.time() == 0,
            map.skills() == Seq::<u64>::empty(),
            map.states() == Seq::<AnyState>::empty(),
    {
        let map = BuffMap { sims: Table::new(), agent_id, time: 0 };
        assert(map.states() =~= Seq::<AnyState>::empty());
        map
    }

    /// Moves the time of every simulator on to `time`.
    pub fn update(&mut self, time: u64)
        requires
            old(self).wf(),
        ensures
            final(self).wf(),
            final(self).agent() == old(self).agent(),
            final(self).time() == time,
            final(self).skills() == old(self).skills(),
            final(self).states() == all_updated(old(self).states(), time),
    {
        let n: usize = self.sims.len();
        let mut i: usize = 0;
        while i < n
            invariant
                i <= n,
                self.wf(),
                n == self.sims.values().len(),
                self.agent_id == old(self).agent_id,
                self.time == old(self).time,
                self.sims.keys() == old(self).sims.keys(),
                self.sims.values().len() == old(self).sims.values().len(),
                forall|j: int| 0 <= j < i ==> (#[trigger] self.sims.values()[j])@ == old(
                    self,
                ).sims.values()[j]@.updated(time),
                forall|j: int| i <= j < n ==> (#[trigger] self.sims.values()[j]) == old(
                    self,
                ).sims.values()[j],
            decreases n - i,
        {
            self.sims.value_mut(i).update(time);
            i += 1;
        }
        self.time = time;
        assert(self.states() =~= all_updated(old(self).states(), time));
    }

    /// Hands a buff record to the simulator of its skill, which is made if the
    /// skill was not seen before.
    pub fn add_event<E: Buff>(&mut self, e: E)
        requires
            old(self).wf(),
        ensures
            final(self).wf(),
            final(self).agent() == old(self).agent(),
            final(self).time() == old(self).time(),
            (final(self).skills(), final(self).states()) == all_received(
                old(self).agent(),
                old(self).time(),
                old(self).skills(),
                old(self).states(),
                e.record(),
            ),
    {
        let skill: u16 = e.skill();
        let ghost before = self.sims.values();
        match self.sims.position(skill as u64) {
            Some(i) => {
                proof {
                    self.sims.lemma_shape();
                    assert(self.skills().index_of(skill as u64) == i);
                }
                self.sims.value_mut(i).add_event(e);
                assert(self.states() =~= old(self).states().update(
                    i as int,
                    old(self).states()[i as int].received(e.record()),
                ));
            },
            None => {
                let mut sim = create_simulator(self.agent_id, skill);
                sim.update(self.time);
                sim.add_event(e);
                self.sims.push(skill as u64, sim);
                assert(self.states() =~= old(self).states().push(
                    created(old(self).agent(), e.record().skill_id).updated(
                        old(self).time(),
                    ).received(e.record()),
                ));
            },
        }
    }

    /// The counters of every buff that was up at all, with its skill id.
    pub fn snapshots(&self) -> (r: Vec<(u16, BuffSnapshot)>)
        requires
            self.wf(),
        ensures
            r@ == reported(self.skills(), self.states()),
    {
        let n: usize = self.sims.len();
        let mut r: Vec<(u16, BuffSnapshot)> = Vec::new();
        let mut i: usize = 0;
        assert(self.skills().take(0) =~= Seq::<u64>::empty());
        while i < n
            invariant
                i <= n,
                self.wf(),
                n == self.sims.values().len(),
                n == self.sims.keys().len(),
                r@ == reported(self.skills().take(i as int), self.states().take(i as int)),
            decreases n - i,
        {
            let snapshot = self.sims.value_at(i).snapshot();
            assert(self.skills().take(i + 1).drop_last() =~= self.skills().take(i as int));
            assert(self.states().take(i + 1).drop_last() =~= self.states().take(i as int));
            if snapshot.uptime > 0 {
                r.push((self.sims.key_at(i) as u16, snapshot));
            }
            i += 1;
        }
        assert(self.skills().take(n as int) =~= self.skills());
        assert(self.states().take(n as int) =~= self.states());
        r
    }

    /// The number of simulators.
    #[inline]
    pub fn len(&self) -> (n: usize)
        requires
            self.wf(),
        ensures
            n == self.skills().len(),
            n == self.states().len(),
    {
        self.sims.len()
    }

    /// Ends every simulation at `time`.
    pub fn finalize(&mut self, time: u64)
        requires
            old(self).wf(),
        ensures
            final(self).wf(),
            final(self).agent() == old(self).agent(),
            final(self).time() == old(self).time(),
            final(self).skills() == old(self).skills(),
            final(self).states() == all_finalized(old(self).states(), time),
    {
        let n: usize = self.sims.len();
        let mut i: usize = 0;
        while i < n
            invariant
                i <= n,
                self.wf(),
                n == self.sims.values().len(),
                self.agent_id == old(self).agent_id,
                self.time == old(self).time,
                self.sims.keys() == old(self).sims.keys(),
                self.sims.values().len() == old(self).sims.values().len(),
                forall|j: int| 0 <= j < i ==> (#[trigger] self.sims.values()[j])@ == old(
                    self,
                ).sims.values()[j]@.finalized(time),
                forall|j: int| i <= j < n ==> (#[trigger] self.sims.values()[j]) == old(
                    self,
                ).sims.values()[j],
            decreases n - i,
        {
            self.sims.value_mut(i).finalize(time);
            i += 1;
        }
        assert(self.states() =~= all_finalized(old(self).states(), time));
    }
}

} // verus!
