//! Agent identity: which instance ids an agent held, who its master is, when
//! it was seen and when it died, all read off the combat records in one
//! forward pass.

use vstd::prelude::*;
use vstd::string::StringSliceAdditionalSpecFns;

use crate::event::MetaEventData;
use crate::event::StateChange;
use crate::event::is_buff_application;
use crate::event::is_meta;
use crate::event::master_of;
use crate::event::meta_of;
use crate::event::raw::Agent as RawAgent;
use crate::event::raw::CombatEventV1;
use crate::event::raw::DecodeError;
use crate::event::raw::Evtc;
use crate::event::raw::Language;
use crate::event::raw::Skill;
use crate::event::raw::profession_of;
use crate::event::raw::segment;
use crate::event::raw::text_failure;
use crate::event::state_change_of;
use crate::event::typed::Event;
use crate::event::typed::Source;
use crate::event::typed::SourceEvent;
use crate::event::typed::contains_agent;
use crate::table::Table;
use crate::table::distinct;
use crate::types::AgentId;
use crate::types::Boss;
use crate::types::InstanceId;
use crate::types::Profession;
use crate::types::SpeciesId;

verus! {

/// Skill by which the first form of Xera becomes invulnerable and leaves the
/// fight.
pub const XERA_FIRST_PHASE_END: u16 = 762;

/// Skill by which the second form of Xera becomes invulnerable and leaves the
/// fight.
pub const XERA_SECOND_PHASE_END: u16 = 34113;

/// What the combat records tell about one agent.
#[derive(Clone, Copy, PartialEq, Eq, Structural, Debug)]
pub struct AgentMetadata {
    /// Agent instance id.
    pub instid: InstanceId,
    /// Time when first observed.
    pub first_aware: u64,
    /// Time when last observed.
    pub last_aware: u64,
    /// Owning instance id.
    pub master_instid: InstanceId,
    /// Owning agent, empty while it is not resolved.
    pub master_agent: AgentId,
    /// Time of death, if the agent died.
    pub died: Option<u64>,
    /// If this agent is the point of view.
    pub is_pov: bool,
}

impl AgentMetadata {
    /// What is known of an agent of which no record speaks.
    pub open spec fn unseen() -> AgentMetadata {
        AgentMetadata {
            instid: InstanceId(0),
            first_aware: 0,
            last_aware: u64::MAX,
            master_instid: InstanceId(0),
            master_agent: AgentId(0),
            died: None,
            is_pov: false,
        }
    }
}

impl Default for AgentMetadata {
    fn default() -> (m: Self)
        ensures
            m == AgentMetadata::unseen(),
    {
        AgentMetadata {
            instid: InstanceId::empty(),
            first_aware: 0,
            last_aware: u64::MAX,
            master_instid: InstanceId::empty(),
            master_agent: AgentId::empty(),
            died: None,
            is_pov: false,
        }
    }
}

/// The first position at or after `from` whose agent holds the instance id
/// given.
pub open spec fn holder(values: Seq<AgentMetadata>, instance: InstanceId, from: int) -> Option<int>
    decreases values.len() - from,
{
    if from < 0 || from >= values.len() {
        None
    } else if values[from].instid == instance {
        Some(from)
    } else {
        holder(values, instance, from + 1)
    }
}

/// [`holder`] finds an agent that holds the instance id, the first of them,
/// and finds one if there is one.
pub proof fn lemma_holder(values: Seq<AgentMetadata>, instance: InstanceId, from: int)
    requires
        0 <= from,
    ensures
        match holder(values, instance, from) {
            Some(at) => from <= at < values.len() && values[at].instid == instance && forall|
                i: int,
            | from <= i < at ==> (#[trigger] values[i]).instid != instance,
            None => forall|i: int|
                from <= i < values.len() ==> (#[trigger] values[i]).instid != instance,
        },
    decreases values.len() - from,
{
    if from < values.len() && values[from].instid != instance {
        lemma_holder(values, instance, from + 1);
    }
}

/// The first position at or after `from` whose agent is one of `players` and
/// holds the instance id given.
pub open spec fn player_holder(
    keys: Seq<u64>,
    values: Seq<AgentMetadata>,
    players: Seq<AgentId>,
    instance: InstanceId,
    from: int,
) -> Option<int>
    decreases values.len() - from,
{
    if from < 0 || from >= values.len() {
        None
    } else if values[from].instid == instance && players.contains(AgentId(keys[from])) {
        Some(from)
    } else {
        player_holder(keys, values, players, instance, from + 1)
    }
}

/// [`player_holder`] finds a player that holds the instance id, the first of
/// them, and finds one if there is one.
pub proof fn lemma_player_holder(
    keys: Seq<u64>,
    values: Seq<AgentMetadata>,
    players: Seq<AgentId>,
    instance: InstanceId,
    from: int,
)
    requires
        0 <= from,
    ensures
        match player_holder(keys, values, players, instance, from) {
            Some(at) => from <= at < values.len() && values[at].instid == instance
                && players.contains(AgentId(keys[at])) && forall|i: int|
                from <= i < at ==> !((#[trigger] values[i]).instid == instance && players.contains(
                    AgentId(keys[i]),
                )),
            None => forall|i: int|
                from <= i < values.len() ==> !((#[trigger] values[i]).instid == instance
                    && players.contains(AgentId(keys[i]))),
        },
    decreases values.len() - from,
{
    if from < values.len() && !(values[from].instid == instance && players.contains(
        AgentId(keys[from]),
    )) {
        lemma_player_holder(keys, values, players, instance, from + 1);
    }
}

/// The agent that a record names as master of its source: of the known agents
/// that hold the master instance id of the record, the player that was seen
/// first, or, if no player holds it, the agent that was seen first. `None` if
/// the record has no master instance id, or if no known agent holds it.
///
/// Instance ids are used again once an agent is gone, so that an agent that
/// was seen earlier may still be known under the instance id of a player.
pub open spec fn resolved_master(
    keys: Seq<u64>,
    values: Seq<AgentMetadata>,
    players: Seq<AgentId>,
    e: CombatEventV1,
) -> Option<AgentId> {
    match master_of(e) {
        None => None,
        Some(instance) => match player_holder(keys, values, players, instance, 0) {
            Some(at) => Some(AgentId(keys[at])),
            None => match holder(values, instance, 0) {
                Some(at) => Some(AgentId(keys[at])),
                None => None,
            },
        },
    }
}

/// The signals of death: the agent is reported dead, the agent despawns, or
/// one of the skills is applied by which bosses of several phases leave the
/// fight.
pub open spec fn is_death_signal(e: CombatEventV1) -> bool {
    ||| state_change_of(e) == Some(StateChange::ChangeDead)
    ||| state_change_of(e) == Some(StateChange::Despawn)
    ||| is_buff_application(e) && (e.skill_id == XERA_FIRST_PHASE_END || e.skill_id
        == XERA_SECOND_PHASE_END)
}

/// True if a record assigns its source a fresh instance id: the source enters
/// combat, spawns or gets its maximum health.
pub open spec fn assigns_instance(e: CombatEventV1) -> bool {
    e.is_statechange == 1 || e.is_statechange == 6 || e.is_statechange == 12
}

/// True if a record cannot tell the instance id of its source: it makes the
/// source the point of view, reports it dead or reports it gone.
pub open spec fn keeps_instance(e: CombatEventV1) -> bool {
    e.is_statechange == 13 || e.is_statechange == 4 || e.is_statechange == 7
}

/// What is known of an agent when its first record is met.
pub open spec fn first_seen(e: CombatEventV1) -> AgentMetadata {
    AgentMetadata {
        instid: InstanceId(0),
        first_aware: e.time,
        last_aware: e.time,
        master_instid: InstanceId(0),
        master_agent: AgentId(0),
        died: None,
        is_pov: false,
    }
}

/// What is known of the source of `e` after `e`, if `meta` was known before
/// and `master` is the agent that holds the master instance id of `e`.
pub open spec fn noted(
    meta: AgentMetadata,
    e: CombatEventV1,
    master: Option<AgentId>,
) -> AgentMetadata {
    AgentMetadata {
        instid: if assigns_instance(e) || (!keeps_instance(e) && meta.instid == InstanceId(0)) {
            InstanceId(e.src_instid)
        } else {
            meta.instid
        },
        first_aware: meta.first_aware,
        last_aware: e.time,
        master_instid: match master_of(e) {
            Some(instance) => instance,
            None => meta.master_instid,
        },
        master_agent: match (master_of(e), master) {
            (Some(_), Some(agent)) => agent,
            _ => meta.master_agent,
        },
        died: if is_death_signal(e) {
            Some(e.time)
        } else {
            meta.died
        },
        is_pov: meta.is_pov || e.is_statechange == 13,
    }
}

/// The agents known after a record of a source agent, in the order in which
/// they were first seen, and what is known of each. The master is looked for
/// among the agents known before the record; `players` are the agents that
/// are players.
pub open spec fn observed(
    keys: Seq<u64>,
    values: Seq<AgentMetadata>,
    players: Seq<AgentId>,
    e: CombatEventV1,
) -> (Seq<u64>, Seq<AgentMetadata>) {
    let master = resolved_master(keys, values, players, e);
    if keys.contains(e.src_agent) {
        let at = keys.index_of(e.src_agent);
        (keys, values.update(at, noted(values[at], e, master)))
    } else {
        (keys.push(e.src_agent), values.push(noted(first_seen(e), e, master)))
    }
}

/// The agents known after all of `events`, and what is known of each.
/// Log-level records tell nothing of agents.
pub open spec fn resolved(events: Seq<CombatEventV1>, players: Seq<AgentId>) -> (
    Seq<u64>,
    Seq<AgentMetadata>,
)
    decreases events.len(),
{
    if events.len() == 0 {
        (Seq::empty(), Seq::empty())
    } else {
        let (keys, values) = resolved(events.drop_last(), players);
        if is_meta(events.last()) {
            (keys, values)
        } else {
            observed(keys, values, players, events.last())
        }
    }
}

/// What is known after all of `events` of the agent with the id given.
pub open spec fn metadata_of(
    events: Seq<CombatEventV1>,
    players: Seq<AgentId>,
    id: AgentId,
) -> AgentMetadata {
    let (keys, values) = resolved(events, players);
    if keys.contains(id.0) {
        values[keys.index_of(id.0)]
    } else {
        AgentMetadata::unseen()
    }
}

/// The ids of the players among the agents of an agent table, in order.
pub open spec fn player_ids(agents: Seq<RawAgent>) -> Seq<AgentId>
    decreases agents.len(),
{
    if agents.len() == 0 {
        Seq::empty()
    } else if profession_of(
        agents.last().is_elite,
        agents.last().profession,
    ).spec_is_player_character() {
        player_ids(agents.drop_last()).push(agents.last().id)
    } else {
        player_ids(agents.drop_last())
    }
}

/// A record of a minion or gadget, whose master instance id is held by
/// exactly one player, resolves to that player, whatever other agents are
/// still known under the same instance id.
pub proof fn lemma_master_resolves(
    keys: Seq<u64>,
    values: Seq<AgentMetadata>,
    players: Seq<AgentId>,
    e: CombatEventV1,
    owner: int,
)
    requires
        keys.len() == values.len(),
        distinct(keys),
        0 <= owner < values.len(),
        master_of(e) == Some(values[owner].instid),
        players.contains(AgentId(keys[owner])),
        forall|i: int|
            0 <= i < values.len() && i != owner && (#[trigger] values[i]).instid
                == values[owner].instid ==> !players.contains(AgentId(keys[i])),
    ensures
        resolved_master(keys, values, players, e) == Some(AgentId(keys[owner])),
        observed(keys, values, players, e).0.contains(e.src_agent),
        observed(keys, values, players, e).1[observed(keys, values, players, e).0.index_of(
            e.src_agent,
        )].master_agent == AgentId(keys[owner]),
        observed(keys, values, players, e).1[observed(keys, values, players, e).0.index_of(
            e.src_agent,
        )].master_instid == values[owner].instid,
{
    lemma_player_holder(keys, values, players, values[owner].instid, 0);
    lemma_source_noted(keys, values, players, e);
}

/// A record of a minion or gadget, whose master instance id no player holds,
/// resolves to the agent that holds it and was seen first. If no agent holds
/// it, the master is not resolved.
pub proof fn lemma_master_without_player(
    keys: Seq<u64>,
    values: Seq<AgentMetadata>,
    players: Seq<AgentId>,
    e: CombatEventV1,
)
    requires
        keys.len() == values.len(),
        master_of(e) is Some,
        forall|i: int|
            0 <= i < values.len() && (#[trigger] values[i]).instid == master_of(e).unwrap()
                ==> !players.contains(AgentId(keys[i])),
    ensures
        resolved_master(keys, values, players, e) == match holder(
            values,
            master_of(e).unwrap(),
            0,
        ) {
            Some(at) => Some(AgentId(keys[at])),
            None => None,
        },
        match holder(values, master_of(e).unwrap(), 0) {
            Some(at) => 0 <= at < values.len() && values[at].instid == master_of(e).unwrap()
                && forall|i: int|
                0 <= i < at ==> (#[trigger] values[i]).instid != master_of(e).unwrap(),
            None => forall|i: int|
                0 <= i < values.len() ==> (#[trigger] values[i]).instid != master_of(e).unwrap(),
        },
{
    lemma_player_holder(keys, values, players, master_of(e).unwrap(), 0);
    lemma_holder(values, master_of(e).unwrap(), 0);
}

/// After a record its source is known, with the master that the record
/// resolves to if it resolves to one.
pub proof fn lemma_source_noted(
    keys: Seq<u64>,
    values: Seq<AgentMetadata>,
    players: Seq<AgentId>,
    e: CombatEventV1,
)
    requires
        keys.len() == values.len(),
        distinct(keys),
    ensures
        observed(keys, values, players, e).0.contains(e.src_agent),
        master_of(e) matches Some(instance) ==> observed(keys, values, players, e).1[observed(
            keys,
            values,
            players,
            e,
        ).0.index_of(e.src_agent)].master_instid == instance,
        resolved_master(keys, values, players, e) matches Some(master) ==> observed(
            keys,
            values,
            players,
            e,
        ).1[observed(keys, values, players, e).0.index_of(e.src_agent)].master_agent == master,
{
    lemma_observed(keys, values, players, e);
    let after = observed(keys, values, players, e);
    if keys.contains(e.src_agent) {
        let at = keys.index_of(e.src_agent);
        assert(after.0.index_of(e.src_agent) == at);
    } else {
        let at = keys.len() as int;
        assert(after.0[at] == e.src_agent);
        assert(after.0.index_of(e.src_agent) == at);
    }
}

/// A record leaves the known agents in order and adds at most its source; no
/// agent is listed twice.
pub proof fn lemma_observed(
    keys: Seq<u64>,
    values: Seq<AgentMetadata>,
    players: Seq<AgentId>,
    e: CombatEventV1,
)
    requires
        keys.len() == values.len(),
        distinct(keys),
    ensures
        observed(keys, values, players, e).0.len() == observed(keys, values, players, e).1.len(),
        distinct(observed(keys, values, players, e).0),
        observed(keys, values, players, e).0.contains(e.src_agent),
        forall|i: int|
            0 <= i < keys.len() ==> (#[trigger] observed(keys, values, players, e).0[i]) == keys[i],
{
    if keys.contains(e.src_agent) {
    } else {
        let after = keys.push(e.src_agent);
        assert(after[keys.len() as int] == e.src_agent);
        assert forall|i: int, j: int| 0 <= i < j < after.len() implies after[i] != after[j] by {
            if j == keys.len() {
                assert(keys[i] != e.src_agent);
            }
        }
    }
}

/// After any sequence of records every known agent is listed once, with what
/// is known of it.
pub proof fn lemma_resolved(events: Seq<CombatEventV1>, players: Seq<AgentId>)
    ensures
        resolved(events, players).0.len() == resolved(events, players).1.len(),
        distinct(resolved(events, players).0),
    decreases events.len(),
{
    if events.len() > 0 {
        lemma_resolved(events.drop_last(), players);
        let (keys, values) = resolved(events.drop_last(), players);
        if !is_meta(events.last()) {
            lemma_observed(keys, values, players, events.last());
        }
    }
}

/// The forward pass over the records of source agents.
///
/// The known agents are kept in the order in which they were first seen, so
/// that the search for the holder of an instance id gives the same agent on
/// every run.
pub struct Resolver {
    known: Table<AgentMetadata>,
    players: Vec<AgentId>,
}

impl Resolver {
    /// The lookup by agent id agrees with the list of known agents.
    pub closed spec fn wf(&self) -> bool {
        self.known.wf()
    }

    /// The ids of the known agents in the order in which they were first
    /// seen.
    pub closed spec fn keys(&self) -> Seq<u64> {
        self.known.keys()
    }

    /// What is known of each agent, `values()[i]` belonging to `keys()[i]`.
    pub closed spec fn values(&self) -> Seq<AgentMetadata> {
        self.known.values()
    }

    /// The agents that are players, which are preferred as masters.
    pub closed spec fn players(&self) -> Seq<AgentId> {
        self.players@
    }

    /// A resolver that knows no agent and no player.
    pub fn new() -> (r: Self)
        ensures
            r.wf(),
            r.keys() == Seq::<u64>::empty(),
            r.values() == Seq::<AgentMetadata>::empty(),
            r.players() == Seq::<AgentId>::empty(),
    {
        Resolver { known: Table::new(), players: Vec::new() }
    }

    /// A resolver that knows no agent yet, for a log whose players are those
    /// given.
    pub fn with_players(players: Vec<AgentId>) -> (r: Self)
        ensures
            r.wf(),
            r.keys() == Seq::<u64>::empty(),
            r.values() == Seq::<AgentMetadata>::empty(),
            r.players() == players@,
    {
        Resolver { known: Table::new(), players }
    }

    /// The number of known agents.
    pub fn len(&self) -> (n: usize)
        requires
            self.wf(),
        ensures
            n == self.keys().len(),
            n == self.values().len(),
            distinct(self.keys()),
    {
        self.known.len()
    }

    /// The known agent that holds the instance id given: the player that was
    /// seen first, or, if no player holds it, the agent that was seen first.
    pub fn find_instance(&self, instance: InstanceId) -> (r: Option<AgentId>)
        requires
            self.wf(),
        ensures
            r == match player_holder(self.keys(), self.values(), self.players(), instance, 0) {
                Some(at) => Some(AgentId(self.keys()[at])),
                None => match holder(self.values(), instance, 0) {
                    Some(at) => Some(AgentId(self.keys()[at])),
                    None => None,
                },
            },
    {
        let n: usize = self.known.len();
        let mut first: Option<AgentId> = None;
        let mut i: usize = 0;
        while i < n
            invariant
                i <= n,
                self.wf(),
                n == self.known.values().len(),
                n == self.known.keys().len(),
                player_holder(
                    self.known.keys(),
                    self.known.values(),
                    self.players@,
                    instance,
                    0,
                ) == player_holder(
                    self.known.keys(),
                    self.known.values(),
                    self.players@,
                    instance,
                    i as int,
                ),
                match first {
                    Some(id) => holder(self.known.values(), instance, 0) matches Some(at) && at < i
                        && id == AgentId(self.known.keys()[at]),
                    None => holder(self.known.values(), instance, 0) == holder(
                        self.known.values(),
                        instance,
                        i as int,
                    ),
                },
            decreases n - i,
        {
            if self.known.value_at(i).instid == instance {
                let id: AgentId = AgentId::new(self.known.key_at(i));
                if contains_agent(self.players.as_slice(), id) {
                    return Some(id);
                }
                if first.is_none() {
                    first = Some(id);
                }
            }
            i += 1;
        }
        first
    }

    /// Takes in a record of a source agent.
    pub fn observe(&mut self, event: &SourceEvent)
        requires
            old(self).wf(),
        ensures
            final(self).wf(),
            !is_meta(event.record()),
            final(self).players() == old(self).players(),
            (final(self).keys(), final(self).values()) == observed(
                old(self).keys(),
                old(self).values(),
                old(self).players(),
                event.record(),
            ),
    {
        let agent: AgentId = event.agent();
        let e: CombatEventV1 = event.raw();
        let master_instance: Option<InstanceId> = e.src_master_instid();
        let master: Option<AgentId> = match master_instance {
            Some(instance) => self.find_instance(instance),
            None => None,
        };
        let at: usize = match self.known.position(agent.0) {
            Some(at) => at,
            None => self.known.push(
                agent.0,
                AgentMetadata {
                    instid: InstanceId::empty(),
                    first_aware: e.time,
                    last_aware: e.time,
                    master_instid: InstanceId::empty(),
                    master_agent: AgentId::empty(),
                    died: None,
                    is_pov: false,
                },
            ),
        };
        proof {
            self.known.lemma_shape();
        }
        let ghost entered = self.known.values();
        let mut meta: AgentMetadata = *self.known.value_at(at);
        match e.state_change() {
            Some(StateChange::EnterCombat(_))
            | Some(StateChange::MaxHealthUpdate(_))
            | Some(StateChange::Spawn) => {
                meta.instid = e.src_instid();
            },
            Some(StateChange::PointOfView) => {
                meta.is_pov = true;
            },
            Some(StateChange::ChangeDead) => {
                meta.died = Some(e.time);
            },
            Some(StateChange::Despawn) => {
                meta.died = Some(e.time);
            },
            _ => {
                if meta.instid == InstanceId::empty() {
                    // Sometimes neither entering combat nor spawning is logged
                    meta.instid = e.src_instid();
                }
            },
        }
        if e.kind() == crate::event::EventKind::BuffApplication && (e.skill_id
            == XERA_FIRST_PHASE_END || e.skill_id == XERA_SECOND_PHASE_END) {
            meta.died = Some(e.time);
        }
        meta.last_aware = e.time;
        if let Some(instance) = master_instance {
            meta.master_instid = instance;
            if let Some(found) = master {
                meta.master_agent = found;
            }
        }
        proof {
            crate::event::lemma_kind_exclusive(e);
            assert(meta == noted(entered[at as int], e, master));
            if old(self).keys().contains(e.src_agent) {
                assert(old(self).keys().index_of(e.src_agent) == at);
            }
        }
        self.known.set(at, meta);
        proof {
            if !old(self).keys().contains(e.src_agent) {
                assert(self.known.values() =~= old(self).values().push(
                    noted(first_seen(e), e, master),
                ));
            }
        }
    }

    /// What is known of the agent with the id given, [`AgentMetadata::unseen`]
    /// if no record spoke of it.
    pub fn metadata(&self, id: AgentId) -> (m: AgentMetadata)
        requires
            self.wf(),
        ensures
            m == if self.keys().contains(id.0) {
                self.values()[self.keys().index_of(id.0)]
            } else {
                AgentMetadata::unseen()
            },
    {
        match self.known.position(id.0) {
            Some(at) => {
                proof {
                    self.known.lemma_shape();
                    assert(self.keys().index_of(id.0) == at);
                }
                *self.known.value_at(at)
            },
            None => AgentMetadata::default(),
        }
    }
}

/// A game agent present in the encounter: its entry in the agent table
/// together with what the combat records tell about it.
#[derive(Clone, Copy, Debug)]
pub struct Agent {
    /// The entry in the agent table.
    pub inner: RawAgent,
    /// What the combat records tell.
    pub meta: AgentMetadata,
}

impl Agent {
    /// The profession of the agent.
    pub open spec fn spec_profession(&self) -> Profession {
        profession_of(self.inner.is_elite, self.inner.profession)
    }

    /// The agent id.
    #[inline(always)]
    pub fn id(&self) -> (id: AgentId)
        ensures
            id == self.inner.id,
    {
        self.inner.id()
    }

    /// The instance id the agent held last.
    #[inline(always)]
    pub fn instance_id(&self) -> (i: InstanceId)
        ensures
            i == self.meta.instid,
    {
        self.meta.instid
    }

    /// The character name.
    #[inline(always)]
    pub fn name(&self) -> (r: Result<&str, DecodeError>)
        ensures
            match r {
                Ok(text) => text_failure(self.inner.name@, 0) is None && segment(
                    self.inner.name@,
                    0,
                ) == Some(text.spec_bytes()),
                Err(e) => text_failure(self.inner.name@, 0) == Some(e),
            },
    {
        self.inner.name()
    }

    /// The account name.
    #[inline(always)]
    pub fn account_name(&self) -> (r: Result<&str, DecodeError>)
        ensures
            match r {
                Ok(text) => text_failure(self.inner.name@, 1) is None && segment(
                    self.inner.name@,
                    1,
                ) == Some(text.spec_bytes()),
                Err(e) => text_failure(self.inner.name@, 1) == Some(e),
            },
    {
        self.inner.account_name()
    }

    /// The subgroup label.
    #[inline(always)]
    pub fn subgroup(&self) -> (r: Result<&str, DecodeError>)
        ensures
            match r {
                Ok(text) => text_failure(self.inner.name@, 2) is None && segment(
                    self.inner.name@,
                    2,
                ) == Some(text.spec_bytes()),
                Err(e) => text_failure(self.inner.name@, 2) == Some(e),
            },
    {
        self.inner.subgroup()
    }

    /// The profession of the agent.
    #[inline(always)]
    pub fn profession(&self) -> (p: Profession)
        ensures
            p == self.spec_profession(),
    {
        self.inner.profession()
    }

    /// Returns the time of death if the agent died during the encounter.
    #[inline(always)]
    pub fn died(&self) -> (d: Option<u64>)
        ensures
            d == self.meta.died,
    {
        self.meta.died
    }

    /// Returns true if the agent died during the encounter.
    #[inline(always)]
    pub fn did_die(&self) -> (b: bool)
        ensures
            b == self.meta.died is Some,
    {
        self.meta.died.is_some()
    }

    /// Time when the agent was first observed.
    #[inline(always)]
    pub fn first_aware(&self) -> (t: u64)
        ensures
            t == self.meta.first_aware,
    {
        self.meta.first_aware
    }

    /// Time when the agent was last observed.
    #[inline(always)]
    pub fn last_aware(&self) -> (t: u64)
        ensures
            t == self.meta.last_aware,
    {
        self.meta.last_aware
    }

    /// True if the agent is the player who recorded the log.
    #[inline(always)]
    pub fn is_pov(&self) -> (b: bool)
        ensures
            b == self.meta.is_pov,
    {
        self.meta.is_pov
    }

    /// The agent that owns this one, empty if there is none or if it was not
    /// resolved.
    #[inline(always)]
    pub fn master_agent(&self) -> (a: AgentId)
        ensures
            a == self.meta.master_agent,
    {
        self.meta.master_agent
    }
}

/// What the log-level records tell.
#[derive(Clone, Copy, PartialEq, Eq, Structural, Debug)]
pub struct LogInfo {
    /// Server time at which the log starts, the largest `u32` if no record
    /// tells.
    pub start: u32,
    /// Server time at which the log ends, 0 if no record tells.
    pub end: u32,
    /// The language of the client.
    pub lang: Language,
    /// The game build.
    pub build: u64,
    /// The server shard.
    pub shard: u64,
}

/// What is known of the log after one log-level record.
pub open spec fn told(info: LogInfo, data: MetaEventData) -> LogInfo {
    match data {
        MetaEventData::LogStart { server, .. } => LogInfo { start: server, ..info },
        MetaEventData::LogEnd { server, .. } => LogInfo { end: server, ..info },
        MetaEventData::Language(lang) => LogInfo { lang, ..info },
        MetaEventData::Gw2Build(build) => LogInfo { build, ..info },
        MetaEventData::ShardId(shard) => LogInfo { shard, ..info },
    }
}

/// What the log-level records among `events` tell, each later record
/// overriding the earlier ones of its kind.
pub open spec fn log_info(events: Seq<CombatEventV1>) -> LogInfo
    decreases events.len(),
{
    if events.len() == 0 {
        LogInfo { start: u32::MAX, end: 0, lang: Language::English, build: 0, shard: 0 }
    } else if is_meta(events.last()) {
        told(log_info(events.drop_last()), meta_of(events.last()))
    } else {
        log_info(events.drop_last())
    }
}

/// True if an agent of profession `p` is a boss of the encounter whose
/// header names `boss_id`: an NPC of that species, or one of the agents of
/// other species that stand for the same boss (the second form of Xera, the
/// gadgets of Deimos).
pub open spec fn is_boss(boss_id: SpeciesId, p: Profession) -> bool {
    ||| p == Profession::NonPlayableCharacter(boss_id)
    ||| boss_id.0 == 16246 && p == Profession::NonPlayableCharacter(SpeciesId(16286))
    ||| boss_id.0 == 17154 && p == Profession::Gadget(SpeciesId(8467))
    ||| boss_id.0 == 17154 && p == Profession::Gadget(SpeciesId(8471))
}

/// True if an agent of profession `p` is a boss of the encounter whose
/// header names `boss_id`.
pub fn boss_profession(boss_id: SpeciesId, p: Profession) -> (b: bool)
    ensures
        b == is_boss(boss_id, p),
{
    match p {
        Profession::NonPlayableCharacter(species) => species == boss_id || (boss_id.0 == 16246
            && species.0 == 16286),
        Profession::Gadget(species) => boss_id.0 == 17154 && (species.0 == 8467 || species.0
            == 8471),
        _ => false,
    }
}

/// The bosses among `agents`, in order.
pub open spec fn bosses_of(agents: Seq<Agent>, boss_id: SpeciesId) -> Seq<Agent>
    decreases agents.len(),
{
    if agents.len() == 0 {
        Seq::empty()
    } else if is_boss(boss_id, agents.last().spec_profession()) {
        bosses_of(agents.drop_last(), boss_id).push(agents.last())
    } else {
        bosses_of(agents.drop_last(), boss_id)
    }
}

/// The ids of `agents`, in order.
pub open spec fn ids(agents: Seq<Agent>) -> Seq<AgentId> {
    Seq::new(agents.len(), |i: int| agents[i].inner.id)
}

/// The agents among `agents` whose master is `master`, in order.
pub open spec fn minions_of(agents: Seq<Agent>, master: AgentId) -> Seq<Agent>
    decreases agents.len(),
{
    if agents.len() == 0 {
        Seq::empty()
    } else if agents.last().meta.master_agent == master {
        minions_of(agents.drop_last(), master).push(agents.last())
    } else {
        minions_of(agents.drop_last(), master)
    }
}

/// The span of time from the first to the last observation of any of
/// `bosses`. Without bosses the span is empty: it starts at the largest
/// timestamp and ends at 0.
pub open spec fn window_of(bosses: Seq<Agent>) -> (u64, u64)
    decreases bosses.len(),
{
    if bosses.len() == 0 {
        (u64::MAX, 0u64)
    } else {
        let (start, end) = window_of(bosses.drop_last());
        (
            if bosses.last().meta.first_aware < start {
                bosses.last().meta.first_aware
            } else {
                start
            },
            if bosses.last().meta.last_aware > end {
                bosses.last().meta.last_aware
            } else {
                end
            },
        )
    }
}

/// The records among `events` whose time lies from `start` to `end`, in
/// order.
pub open spec fn within(events: Seq<CombatEventV1>, start: u64, end: u64) -> Seq<CombatEventV1>
    decreases events.len(),
{
    if events.len() == 0 {
        Seq::empty()
    } else if start <= events.last().time <= end {
        within(events.drop_last(), start, end).push(events.last())
    } else {
        within(events.drop_last(), start, end)
    }
}

/// The encounter window starts no later than any boss was first seen and ends
/// no earlier than any boss was last seen; with bosses present, it starts
/// when one of them was first seen and ends when one of them was last seen.
pub proof fn lemma_window_covers(bosses: Seq<Agent>)
    ensures
        forall|i: int|
            0 <= i < bosses.len() ==> window_of(bosses).0 <= (#[trigger] bosses[i]).meta.first_aware
                && window_of(bosses).1 >= bosses[i].meta.last_aware,
        bosses.len() > 0 ==> exists|i: int|
            0 <= i < bosses.len() && window_of(bosses).0 == (#[trigger] bosses[i]).meta.first_aware,
        bosses.len() > 0 ==> window_of(bosses).1 == 0 || exists|i: int|
            0 <= i < bosses.len() && window_of(bosses).1 == (#[trigger] bosses[i]).meta.last_aware,
    decreases bosses.len(),
{
    if bosses.len() > 0 {
        let front = bosses.drop_last();
        lemma_window_covers(front);
        assert forall|i: int| 0 <= i < bosses.len() implies window_of(bosses).0 <= (
        #[trigger] bosses[i]).meta.first_aware && window_of(bosses).1
            >= bosses[i].meta.last_aware by {
            if i < front.len() {
                assert(front[i] == bosses[i]);
            }
        }
        let last = bosses.len() - 1;
        if window_of(bosses).0 == bosses[last].meta.first_aware {
        } else {
            let i = choose|i: int|
                0 <= i < front.len() && window_of(front).0 == (#[trigger] front[i]).meta.first_aware;
            assert(bosses[i] == front[i]);
        }
        if window_of(bosses).1 == bosses[last].meta.last_aware || window_of(bosses).1 == 0 {
        } else {
            let i = choose|i: int|
                0 <= i < front.len() && window_of(front).1 == (#[trigger] front[i]).meta.last_aware;
            assert(bosses[i] == front[i]);
        }
    }
}

/// Every record inside a span of time is one of the records, and lies in the
/// span.
pub proof fn lemma_within(events: Seq<CombatEventV1>, start: u64, end: u64)
    ensures
        within(events, start, end).len() <= events.len(),
        forall|i: int|
            0 <= i < within(events, start, end).len() ==> start <= (#[trigger] within(
                events,
                start,
                end,
            )[i]).time <= end && events.contains(within(events, start, end)[i]),
    decreases events.len(),
{
    if events.len() > 0 {
        let front = events.drop_last();
        lemma_within(front, start, end);
        let kept = within(events, start, end);
        assert forall|i: int| 0 <= i < kept.len() implies start <= (#[trigger] kept[i]).time
            <= end && events.contains(kept[i]) by {
            if i < within(front, start, end).len() {
                let found = within(front, start, end)[i];
                assert(front.contains(found));
                let at = choose|at: int| 0 <= at < front.len() && front[at] == found;
                assert(events[at] == found);
            } else {
                assert(events[events.len() - 1] == kept[i]);
            }
        }
    }
}

/// The agents of a log with what the records tell of them, and what the
/// log-level records tell of the log.
#[derive(Debug)]
pub struct Metadata<'a> {
    buffer: &'a Evtc,
    agents: Vec<Agent>,
    start: u32,
    end: u32,
    lang: Language,
    build: u64,
    shard: u64,
}

impl<'a> Metadata<'a> {
    /// The log the metadata was read from.
    pub closed spec fn buffer(&self) -> Evtc {
        *self.buffer
    }

    /// The agents, in the order of the agent table.
    pub closed spec fn view(&self) -> Seq<Agent> {
        self.agents@
    }

    /// What the log-level records told.
    pub closed spec fn info(&self) -> LogInfo {
        LogInfo {
            start: self.start,
            end: self.end,
            lang: self.lang,
            build: self.build,
            shard: self.shard,
        }
    }

    /// The species that the header names as boss.
    pub open spec fn boss_id(&self) -> SpeciesId {
        self.buffer().header.boss_id
    }

    /// The span of time in which bosses were present.
    pub open spec fn window(&self) -> (u64, u64) {
        window_of(bosses_of(self@, self.boss_id()))
    }

    /// True if the metadata is that of the log given: it keeps the log, holds
    /// what the log-level records tell, and has each agent of the agent table
    /// with what the combat records tell of it.
    pub open spec fn read_from(&self, buffer: Evtc) -> bool {
        &&& self.buffer() == buffer
        &&& self.info() == log_info(buffer.events@)
        &&& self@.len() == buffer.agents@.len()
        &&& forall|i: int|
            0 <= i < self@.len() ==> (#[trigger] self@[i]).inner == buffer.agents@[i]
                && self@[i].meta == metadata_of(
                buffer.events@,
                player_ids(buffer.agents@),
                buffer.agents@[i].id,
            )
    }

    /// A log has one metadata only: what is read off the same log is the
    /// same.
    pub proof fn lemma_read_unique(&self, other: &Metadata, buffer: Evtc)
        requires
            self.read_from(buffer),
            other.read_from(buffer),
        ensures
            self.buffer() == other.buffer(),
            self.info() == other.info(),
            self@ == other@,
            self.window() == other.window(),
    {
        assert(self@ =~= other@);
    }

    /// Reads the metadata off a log: one pass over the log-level records, one
    /// over the records of source agents, and then each agent of the agent
    /// table is joined with what was found out about it.
    pub fn new(buffer: &'a Evtc) -> (m: Self)
        ensures
            m.read_from(*buffer),
    {
        let mut start: u32 = u32::MAX;
        let mut end: u32 = 0;
        let mut shard: u64 = 0;
        let mut build: u64 = 0;
        let mut lang: Language = Language::English;
        let n: usize = buffer.events.len();

        // Determine meta stuff
        let mut i: usize = 0;
        while i < n
            invariant
                i <= n,
                n == buffer.events@.len(),
                (LogInfo { start, end, lang, build, shard }) == log_info(
                    buffer.events@.take(i as int),
                ),
            decreases n - i,
        {
            assert(buffer.events@.take(i + 1).drop_last() =~= buffer.events@.take(i as int));
            if let Some(e) = buffer.events[i].into_meta() {
                match e.raw().meta() {
                    MetaEventData::LogStart { server, .. } => {
                        start = server;
                    },
                    MetaEventData::LogEnd { server, .. } => {
                        end = server;
                    },
                    MetaEventData::Language(l) => {
                        lang = l;
                    },
                    MetaEventData::Gw2Build(b) => {
                        build = b;
                    },
                    MetaEventData::ShardId(s) => {
                        shard = s;
                    },
                }
            }
            i += 1;
        }
        assert(buffer.events@.take(n as int) =~= buffer.events@);

        let count: usize = buffer.agents.len();
        let mut players: Vec<AgentId> = Vec::new();
        let mut i: usize = 0;
        while i < count
            invariant
                i <= count,
                count == buffer.agents@.len(),
                players@ == player_ids(buffer.agents@.take(i as int)),
            decreases count - i,
        {
            assert(buffer.agents@.take(i + 1).drop_last() =~= buffer.agents@.take(i as int));
            if buffer.agents[i].profession().is_player_character() {
                players.push(buffer.agents[i].id());
            }
            i += 1;
        }
        assert(buffer.agents@.take(count as int) =~= buffer.agents@);
        let ghost known_players = players@;

        let mut resolver = Resolver::with_players(players);
        let mut i: usize = 0;
        while i < n
            invariant
                i <= n,
                n == buffer.events@.len(),
                resolver.wf(),
                resolver.players() == known_players,
                (resolver.keys(), resolver.values()) == resolved(
                    buffer.events@.take(i as int),
                    known_players,
                ),
            decreases n - i,
        {
            assert(buffer.events@.take(i + 1).drop_last() =~= buffer.events@.take(i as int));
            if let Some(e) = buffer.events[i].into_source() {
                resolver.observe(&e);
            }
            i += 1;
        }

        let mut agents: Vec<Agent> = Vec::new();
        let mut i: usize = 0;
        while i < count
            invariant
                i <= count,
                count == buffer.agents@.len(),
                resolver.wf(),
                known_players == player_ids(buffer.agents@),
                (resolver.keys(), resolver.values()) == resolved(buffer.events@, known_players),
                agents@.len() == i,
                forall|j: int|
                    0 <= j < i ==> (#[trigger] agents@[j]).inner == buffer.agents@[j]
                        && agents@[j].meta == metadata_of(
                        buffer.events@,
                        known_players,
                        buffer.agents@[j].id,
                    ),
            decreases count - i,
        {
            let inner: RawAgent = buffer.agents[i];
            agents.push(Agent { inner, meta: resolver.metadata(inner.id) });
            i += 1;
        }

        Metadata { buffer, agents, start, end, lang, build, shard }
    }

    /// The agents, in the order of the agent table.
    pub fn agents(&self) -> (r: &[Agent])
        ensures
            r@ == self@,
    {
        self.agents.as_slice()
    }

    /// The agents that are bosses of the encounter.
    pub fn bosses(&self) -> (r: Vec<&Agent>)
        ensures
            r@.len() == bosses_of(self@, self.boss_id()).len(),
            forall|i: int| 0 <= i < r@.len() ==> *(#[trigger] r@[i]) == bosses_of(
                self@,
                self.boss_id(),
            )[i],
    {
        let boss_id: SpeciesId = self.buffer.header.boss_id;
        let n: usize = self.agents.len();
        let mut r: Vec<&Agent> = Vec::new();
        let mut i: usize = 0;
        while i < n
            invariant
                i <= n,
                n == self.agents@.len(),
                boss_id == self.boss_id(),
                r@.len() == bosses_of(self.agents@.take(i as int), boss_id).len(),
                forall|j: int| 0 <= j < r@.len() ==> *(#[trigger] r@[j]) == bosses_of(
                    self.agents@.take(i as int),
                    boss_id,
                )[j],
            decreases n - i,
        {
            assert(self.agents@.take(i + 1).drop_last() =~= self.agents@.take(i as int));
            if boss_profession(boss_id, self.agents[i].profession()) {
                r.push(&self.agents[i]);
            }
            i += 1;
        }
        assert(self.agents@.take(n as int) =~= self.agents@);
        r
    }

    /// The ids of the bosses of the encounter.
    pub fn boss_ids(&self) -> (r: Vec<AgentId>)
        ensures
            r@ == ids(bosses_of(self@, self.boss_id())),
    {
        let bosses = self.bosses();
        let mut r: Vec<AgentId> = Vec::new();
        let mut i: usize = 0;
        while i < bosses.len()
            invariant
                i <= bosses.len(),
                r@.len() == i,
                forall|j: int| 0 <= j < i ==> (#[trigger] r@[j]) == bosses@[j].inner.id,
            decreases bosses.len() - i,
        {
            r.push(bosses[i].id());
            i += 1;
        }
        assert(r@ =~= ids(bosses_of(self@, self.boss_id())));
        r
    }

    /// The boss that the header names.
    pub fn boss(&self) -> (b: Boss)
        ensures
            b == Boss::spec_from_species_id(self.boss_id()),
    {
        Boss::from_species_id(self.buffer.header.boss_id)
    }

    /// True if every boss died: the encounter was won. With no boss at all
    /// there was nothing left to kill.
    pub fn success(&self) -> (b: bool)
        ensures
            b == forall|i: int|
                0 <= i < bosses_of(self@, self.boss_id()).len() ==> (#[trigger] bosses_of(
                    self@,
                    self.boss_id(),
                )[i]).meta.died is Some,
    {
        let bosses = self.bosses();
        let ghost all = bosses_of(self@, self.boss_id());
        let mut i: usize = 0;
        while i < bosses.len()
            invariant
                i <= bosses.len(),
                all == bosses_of(self@, self.boss_id()),
                bosses@.len() == all.len(),
                forall|j: int| 0 <= j < bosses@.len() ==> *(#[trigger] bosses@[j]) == all[j],
                forall|j: int| 0 <= j < i ==> (#[trigger] all[j]).meta.died is Some,
            decreases bosses.len() - i,
        {
            if !bosses[i].did_die() {
                assert(*bosses@[i as int] == all[i as int]);
                assert(!(all[i as int].meta.died is Some));
                return false;
            }
            assert(*bosses@[i as int] == all[i as int]);
            i += 1;
        }
        true
    }

    /// The span of time in which bosses were present: from the first
    /// observation of any boss to the last.
    pub fn encounter_window(&self) -> (w: (u64, u64))
        ensures
            w == self.window(),
            forall|i: int|
                0 <= i < bosses_of(self@, self.boss_id()).len() ==> w.0 <= (#[trigger] bosses_of(
                    self@,
                    self.boss_id(),
                )[i]).meta.first_aware && w.1 >= bosses_of(self@, self.boss_id())[i].meta.last_aware,
    {
        let bosses = self.bosses();
        let ghost all = bosses_of(self@, self.boss_id());
        let mut start: u64 = u64::MAX;
        let mut end: u64 = 0;
        let mut i: usize = 0;
        while i < bosses.len()
            invariant
                i <= bosses.len(),
                bosses@.len() == all.len(),
                forall|j: int| 0 <= j < bosses@.len() ==> *(#[trigger] bosses@[j]) == all[j],
                (start, end) == window_of(all.take(i as int)),
            decreases bosses.len() - i,
        {
            assert(all.take(i + 1).drop_last() =~= all.take(i as int));
            let first: u64 = bosses[i].first_aware();
            let last: u64 = bosses[i].last_aware();
            if first < start {
                start = first;
            }
            if last > end {
                end = last;
            }
            i += 1;
        }
        assert(all.take(bosses@.len() as int) =~= all);
        proof {
            lemma_window_covers(all);
        }
        (start, end)
    }

    /// Only returns the events which happened while the boss(es) were present
    /// in the fight, does not contain gaps.
    pub fn encounter_events(&self) -> (r: Vec<CombatEventV1>)
        ensures
            r@ == within(self.buffer().events@, self.window().0, self.window().1),
            forall|i: int|
                0 <= i < r@.len() ==> self.window().0 <= (#[trigger] r@[i]).time <= self.window().1,
    {
        let (start, end) = self.encounter_window();
        let n: usize = self.buffer.events.len();
        let mut r: Vec<CombatEventV1> = Vec::new();
        let mut i: usize = 0;
        while i < n
            invariant
                i <= n,
                n == self.buffer.events@.len(),
                r@ == within(self.buffer.events@.take(i as int), start, end),
            decreases n - i,
        {
            assert(self.buffer.events@.take(i + 1).drop_last() =~= self.buffer.events@.take(
                i as int,
            ));
            let e: CombatEventV1 = self.buffer.events[i];
            if start <= e.time && e.time <= end {
                r.push(e);
            }
            i += 1;
        }
        assert(self.buffer.events@.take(n as int) =~= self.buffer.events@);
        proof {
            lemma_within(self.buffer.events@, start, end);
        }
        r
    }

    /// The skills of the skill table, followed by the skills that no log
    /// lists.
    pub fn skills(&self) -> (r: Vec<Skill>)
        ensures
            r@.len() == self.buffer().skills@.len() + 4,
            r@.take(self.buffer().skills@.len() as int) == self.buffer().skills@,
            forall|i: int|
                0 <= i < 4 ==> (#[trigger] r@[self.buffer().skills@.len() + i]).id
                    == crate::event::raw::unlisted()[i].0 && segment(
                    r@[self.buffer().skills@.len() + i].name@,
                    0,
                ) == Some(crate::event::raw::unlisted()[i].1.spec_bytes()),
    {
        let mut r: Vec<Skill> = Vec::new();
        let n: usize = self.buffer.skills.len();
        let mut i: usize = 0;
        while i < n
            invariant
                i <= n,
                n == self.buffer.skills@.len(),
                r@ == self.buffer.skills@.take(i as int),
            decreases n - i,
        {
            r.push(self.buffer.skills[i]);
            assert(r@ =~= self.buffer.skills@.take(i + 1));
            i += 1;
        }
        assert(self.buffer.skills@.take(n as int) =~= self.buffer.skills@);
        let mut unlisted = crate::event::raw::unlisted_skills();
        let ghost extra = unlisted@;
        r.append(&mut unlisted);
        assert(r@.take(n as int) =~= self.buffer.skills@);
        assert forall|i: int| 0 <= i < 4 implies (#[trigger] r@[n + i]).id
            == crate::event::raw::unlisted()[i].0 && segment(r@[n + i].name@, 0) == Some(
            crate::event::raw::unlisted()[i].1.spec_bytes(),
        ) by {
            assert(r@[n + i] == extra[i]);
        }
        r
    }

    /// The skills of the skill table.
    pub fn skill_list(&self) -> (r: SkillList<'_>)
        ensures
            r.skills@ == self.buffer().skills@,
    {
        SkillList { skills: self.buffer.skills.as_slice() }
    }

    /// The agents whose master is `a`.
    pub fn agents_for_master(&self, a: &Agent) -> (r: Vec<&Agent>)
        ensures
            r@.len() == minions_of(self@, a.inner.id).len(),
            forall|i: int| 0 <= i < r@.len() ==> *(#[trigger] r@[i]) == minions_of(
                self@,
                a.inner.id,
            )[i],
    {
        let master_id: AgentId = a.id();
        let n: usize = self.agents.len();
        let mut r: Vec<&Agent> = Vec::new();
        let mut i: usize = 0;
        while i < n
            invariant
                i <= n,
                n == self.agents@.len(),
                master_id == a.inner.id,
                r@.len() == minions_of(self.agents@.take(i as int), master_id).len(),
                forall|j: int| 0 <= j < r@.len() ==> *(#[trigger] r@[j]) == minions_of(
                    self.agents@.take(i as int),
                    master_id,
                )[j],
            decreases n - i,
        {
            assert(self.agents@.take(i + 1).drop_last() =~= self.agents@.take(i as int));
            if self.agents[i].meta.master_agent == master_id {
                r.push(&self.agents[i]);
            }
            i += 1;
        }
        assert(self.agents@.take(n as int) =~= self.agents@);
        r
    }

    /// The start of the encounter: the time at which a boss was first seen,
    /// the largest timestamp if the encounter has no boss. No boss was seen
    /// before.
    #[inline]
    pub fn log_start(&self) -> (t: u64)
        ensures
            t == self.window().0,
            forall|i: int|
                0 <= i < bosses_of(self@, self.boss_id()).len() ==> t <= (#[trigger] bosses_of(
                    self@,
                    self.boss_id(),
                )[i]).meta.first_aware,
    {
        self.encounter_window().0
    }

    /// The end of the encounter: the time at which a boss was last seen, 0 if
    /// the encounter has no boss. No boss was seen later.
    #[inline]
    pub fn log_end(&self) -> (t: u64)
        ensures
            t == self.window().1,
            forall|i: int|
                0 <= i < bosses_of(self@, self.boss_id()).len() ==> t >= (#[trigger] bosses_of(
                    self@,
                    self.boss_id(),
                )[i]).meta.last_aware,
    {
        self.encounter_window().1
    }

    /// Server time at which the log starts, as the last record of the start
    /// of the log tells it; the largest `u32` if there is no such record.
    #[inline]
    pub fn log_start_time(&self) -> (t: u32)
        ensures
            t == self.info().start,
    {
        self.start
    }

    /// Server time at which the log ends, as the last record of the end of
    /// the log tells it; 0 if there is no such record.
    #[inline]
    pub fn log_end_time(&self) -> (t: u32)
        ensures
            t == self.info().end,
    {
        self.end
    }

    /// The number of whole seconds that the encounter took, but no more than
    /// the log has records: no series of the encounter has more entries.
    pub open spec fn spec_series_capacity(&self) -> nat {
        let seconds = if self.window().1 > self.window().0 {
            ((self.window().1 - self.window().0) / 1000) as nat
        } else {
            0nat
        };
        if seconds < self.buffer().events@.len() {
            seconds
        } else {
            self.buffer().events@.len()
        }
    }

    /// The number of entries to make room for in a series of the encounter.
    pub fn series_capacity(&self) -> (n: usize)
        ensures
            n == self.spec_series_capacity(),
    {
        let start: u64 = self.log_start();
        let end: u64 = self.log_end();
        let seconds: u64 = if end > start {
            (end - start) / 1000
        } else {
            0
        };
        let records: usize = self.buffer.events.len();
        if seconds < records as u64 {
            seconds as usize
        } else {
            records
        }
    }

    /// The language of the client.
    #[inline]
    pub fn language(&self) -> (l: Language)
        ensures
            l == self.info().lang,
    {
        self.lang
    }

    /// The server shard.
    #[inline]
    pub fn server_shard(&self) -> (s: u64)
        ensures
            s == self.info().shard,
    {
        self.shard
    }

    /// The game build.
    #[inline]
    pub fn game_build(&self) -> (b: u64)
        ensures
            b == self.info().build,
    {
        self.build
    }
}

/// The skills of a log.
#[derive(Clone, Copy, Debug)]
pub struct SkillList<'a> {
    pub skills: &'a [Skill],
}

/// The skills among `skills` whose id is not 0, in order.
pub open spec fn listed(skills: Seq<Skill>) -> Seq<Skill>
    decreases skills.len(),
{
    if skills.len() == 0 {
        Seq::empty()
    } else if skills.last().id != 0 {
        listed(skills.drop_last()).push(skills.last())
    } else {
        listed(skills.drop_last())
    }
}

impl<'a> SkillList<'a> {
    /// The skills that have an id, which are those that a report lists.
    pub fn entries(&self) -> (r: Vec<&'a Skill>)
        ensures
            r@.len() == listed(self.skills@).len(),
            forall|i: int| 0 <= i < r@.len() ==> *(#[trigger] r@[i]) == listed(self.skills@)[i],
    {
        let n: usize = self.skills.len();
        let mut r: Vec<&'a Skill> = Vec::new();
        let mut i: usize = 0;
        while i < n
            invariant
                i <= n,
                n == self.skills@.len(),
                r@.len() == listed(self.skills@.take(i as int)).len(),
                forall|j: int| 0 <= j < r@.len() ==> *(#[trigger] r@[j]) == listed(
                    self.skills@.take(i as int),
                )[j],
            decreases n - i,
        {
            assert(self.skills@.take(i + 1).drop_last() =~= self.skills@.take(i as int));
            if self.skills[i].id != 0 {
                r.push(&self.skills[i]);
            }
            i += 1;
        }
        assert(self.skills@.take(n as int) =~= self.skills@);
        r
    }
}

} // verus!
