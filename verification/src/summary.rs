//! Summaries of an encounter: what each player did, what was done to the
//! bosses, and what the log tells of the encounter as a whole.

use vstd::prelude::*;

use crate::buff::BuffSnapshot;
use crate::buff::MetadataMap;
use crate::buff::table::AnyState;
use crate::buff::table::BuffMap;
use crate::buff::table::all_received;
use crate::buff::table::all_updated;
use crate::buff::table::lists_tracked;
use crate::buff::table::meta_map;
use crate::buff::table::reported;
use crate::event::HitType;
use crate::event::StateChange;
use crate::event::damage_of;
use crate::event::has_target;
use crate::event::hit_type_of;
use crate::event::is_buff;
use crate::event::is_damage;
use crate::event::is_meta;
use crate::event::master_of;
use crate::event::raw::CombatEventV1;
use crate::event::raw::Language;
use crate::event::state_change_of;
use crate::event::typed::Damage;
use crate::event::typed::DamageEvent;
use crate::event::typed::Event;
use crate::event::typed::Source;
use crate::event::typed::SourceEvent;
use crate::event::typed::Target;
use crate::event::typed::contains_agent;
use crate::iterator::EventIteratorExt;
use crate::iterator::agent_ids;
use crate::iterator::comes_from_or_gadgets;
use crate::iterator::ids_of;
use crate::iterator::picked;
use crate::iterator::records_of;
use crate::iterator::relates_to;
use crate::metadata::Agent;
use crate::metadata::Metadata;
use crate::metadata::SkillList;
use crate::metadata::bosses_of;
use crate::metadata::ids;
use crate::metadata::minions_of;
use crate::metadata::within;
use crate::statistics::Abilities;
use crate::statistics::AbilityStats;
use crate::statistics::ActivationLog;
use crate::statistics::ActivationState;
use crate::statistics::Hits;
use crate::statistics::Sink;
use crate::statistics::add_clamped;
use crate::statistics::clamp64;
use crate::table::Table;
use crate::timeseries::Entry;
use crate::timeseries::Series;
use crate::timeseries::TimeSeries;
use crate::timeseries::second_of;
use crate::timeseries::series_of;
use crate::types::AgentId;
use crate::types::Boss;
use crate::types::InstanceId;

verus! {

/// Separated hit statistics depending on damage type.
#[derive(Clone, Copy, PartialEq, Eq, Structural, Debug)]
pub struct PowerCondiHits {
    /// Hits that did direct damage.
    pub power: Hits,
    /// Ticks of condition damage.
    pub condi: Hits,
}

impl PowerCondiHits {
    /// Statistics of no hits.
    pub open spec fn none() -> PowerCondiHits {
        PowerCondiHits { power: Hits::none(), condi: Hits::none() }
    }

    /// The statistics after one more damage record, which counts as
    /// condition damage or as direct damage.
    pub open spec fn counted(self, e: CombatEventV1) -> PowerCondiHits {
        if hit_type_of(e) == HitType::Condi {
            PowerCondiHits { power: self.power, condi: self.condi.counted(e) }
        } else {
            PowerCondiHits { power: self.power.counted(e), condi: self.condi }
        }
    }
}

impl Default for PowerCondiHits {
    fn default() -> (h: Self)
        ensures
            h == PowerCondiHits::none(),
    {
        PowerCondiHits { power: Hits::default(), condi: Hits::default() }
    }
}

impl<T: Damage> Sink<T> for PowerCondiHits {
    type State = PowerCondiHits;

    open spec fn wf(&self) -> bool {
        true
    }

    open spec fn state(&self) -> PowerCondiHits {
        *self
    }

    open spec fn taken(state: PowerCondiHits, e: T) -> PowerCondiHits {
        state.counted(e.record())
    }

    #[inline]
    fn add_event(&mut self, e: T) {
        match e.hit_type() {
            HitType::Condi => self.condi.add_event(e),
            _ => self.power.add_event(e),
        }
    }
}

/// Hit statistics in all and for each skill.
pub struct AbilityAndTotal {
    total: Hits,
    abilities: Abilities,
}

/// What [`AbilityAndTotal`] has gathered.
pub struct TotalStats {
    /// The statistics of all hits.
    pub total: Hits,
    /// The statistics of each skill.
    pub abilities: AbilityStats,
}

impl TotalStats {
    /// Statistics of no hits.
    pub open spec fn none() -> TotalStats {
        TotalStats {
            total: Hits::none(),
            abilities: AbilityStats { skills: Seq::empty(), hits: Seq::empty() },
        }
    }

    /// The statistics after one more damage record.
    pub open spec fn counted(self, e: CombatEventV1) -> TotalStats {
        TotalStats { total: self.total.counted(e), abilities: self.abilities.counted(e) }
    }
}

impl AbilityAndTotal {
    /// What has been gathered.
    pub closed spec fn view(&self) -> TotalStats {
        TotalStats { total: self.total, abilities: self.abilities@ }
    }

    /// The lookup by skill agrees with the list of skills.
    pub closed spec fn well_formed(&self) -> bool {
        self.abilities.well_formed()
    }

    /// Statistics of no hits.
    pub fn new() -> (s: Self)
        ensures
            s.well_formed(),
            s@ == TotalStats::none(),
    {
        AbilityAndTotal { total: Hits::default(), abilities: Abilities::new() }
    }

    /// The statistics of all hits.
    pub fn total(&self) -> (h: Hits)
        ensures
            h == self@.total,
    {
        self.total
    }

    /// The statistics of each skill.
    pub fn abilities(&self) -> (a: &Abilities)
        ensures
            a@ == self@.abilities,
            a.well_formed() == self.well_formed(),
    {
        &self.abilities
    }
}

impl Default for AbilityAndTotal {
    fn default() -> (s: Self)
        ensures
            s.well_formed(),
            s@ == TotalStats::none(),
    {
        AbilityAndTotal::new()
    }
}

impl<T: Damage + Copy> Sink<T> for AbilityAndTotal {
    type State = TotalStats;

    open spec fn wf(&self) -> bool {
        self.well_formed()
    }

    open spec fn state(&self) -> TotalStats {
        self@
    }

    open spec fn taken(state: TotalStats, e: T) -> TotalStats {
        state.counted(e.record())
    }

    #[inline]
    fn add_event(&mut self, e: T) {
        self.total.add_event(e);
        self.abilities.add_event(e);
    }
}

/// What one agent of a player did to the bosses: the player itself, or all
/// its minions or gadgets of one species.
pub struct AgentStatistics<'a> {
    agent: &'a Agent,
    agent_ids: Vec<AgentId>,
    stats: AbilityAndTotal,
}

impl<'a> AgentStatistics<'a> {
    /// The first of the agents that the statistics are for, which stands for
    /// all of them.
    pub closed spec fn agent(&self) -> Agent {
        *self.agent
    }

    /// The ids of all agents that the statistics are for.
    pub closed spec fn agent_ids(&self) -> Seq<AgentId> {
        self.agent_ids@
    }

    /// What has been gathered.
    pub closed spec fn stats(&self) -> TotalStats {
        self.stats@
    }

    /// The lookup by skill agrees with the list of skills.
    pub closed spec fn well_formed(&self) -> bool {
        self.stats.well_formed()
    }

    /// Empty statistics for a group of agents, which must not be empty.
    pub fn new(agents: &Vec<&'a Agent>) -> (s: Self)
        requires
            agents@.len() > 0,
        ensures
            s.well_formed(),
            s.agent() == *agents@[0],
            s.agent_ids() == ids_of(agents@),
            s.stats() == TotalStats::none(),
    {
        AgentStatistics {
            agent: agents[0],
            agent_ids: agent_ids(agents.as_slice()),
            stats: AbilityAndTotal::new(),
        }
    }

    /// The first of the agents that the statistics are for.
    pub fn first(&self) -> (a: &'a Agent)
        ensures
            *a == self.agent(),
    {
        self.agent
    }

    /// The statistics.
    pub fn totals(&self) -> (s: &AbilityAndTotal)
        ensures
            s@ == self.stats(),
            s.well_formed() == self.well_formed(),
    {
        &self.stats
    }
}

/// The agents among `agents` that have a species, grouped by species: the
/// species in the order in which they were first met, and the agents of each
/// in order.
pub open spec fn grouped(agents: Seq<Agent>) -> (Seq<u64>, Seq<Seq<Agent>>)
    decreases agents.len(),
{
    if agents.len() == 0 {
        (Seq::empty(), Seq::empty())
    } else {
        let (species, groups) = grouped(agents.drop_last());
        match agents.last().spec_profession().spec_species_id() {
            Some(id) => if species.contains(id.0 as u64) {
                let at = species.index_of(id.0 as u64);
                (species, groups.update(at, groups[at].push(agents.last())))
            } else {
                (species.push(id.0 as u64), groups.push(seq![agents.last()]))
            },
            None => (species, groups),
        }
    }
}

/// The agents behind a list of references.
pub open spec fn agents_of(agents: Seq<&Agent>) -> Seq<Agent> {
    Seq::new(agents.len(), |i: int| *agents[i])
}

/// Groups the NPCs and gadgets among `agents` by species.
pub fn group_agents_by_species<'a>(agents: &[&'a Agent]) -> (map: Table<Vec<&'a Agent>>)
    ensures
        map.wf(),
        map.keys() == grouped(agents_of(agents@)).0,
        map.values().len() == grouped(agents_of(agents@)).1.len(),
        forall|i: int|
            0 <= i < map.values().len() ==> agents_of((#[trigger] map.values()[i])@) == grouped(
                agents_of(agents@),
            ).1[i],
        forall|i: int| 0 <= i < map.values().len() ==> (#[trigger] map.values()[i])@.len() > 0,
{
    let mut map: Table<Vec<&'a Agent>> = Table::new();
    let ghost all = agents_of(agents@);
    let mut i: usize = 0;
    while i < agents.len()
        invariant
            i <= agents.len(),
            all == agents_of(agents@),
            map.wf(),
            map.keys() == grouped(all.take(i as int)).0,
            map.values().len() == grouped(all.take(i as int)).1.len(),
            forall|j: int|
                0 <= j < map.values().len() ==> agents_of((#[trigger] map.values()[j])@)
                    == grouped(all.take(i as int)).1[j],
            forall|j: int| 0 <= j < map.values().len() ==> (#[trigger] map.values()[j])@.len() > 0,
        decreases agents.len() - i,
    {
        assert(all.take(i + 1).drop_last() =~= all.take(i as int));
        assert(all.take(i + 1).last() == *agents@[i as int]);
        let a: &'a Agent = agents[i];
        let ghost before = map.values();
        if let Some(species) = a.profession().species_id() {
            match map.position(species.0 as u64) {
                Some(at) => {
                    proof {
                        map.lemma_shape();
                        assert(map.keys().index_of(species.0 as u64) == at);
                    }
                    let ghost was = before[at as int]@;
                    map.value_mut(at).push(a);
                    assert(agents_of(map.values()[at as int]@) =~= agents_of(was).push(*a));
                },
                None => {
                    let mut group: Vec<&'a Agent> = Vec::new();
                    group.push(a);
                    assert(agents_of(group@) =~= seq![*a]);
                    map.push(species.0 as u64, group);
                },
            }
        }
        i += 1;
    }
    assert(all.take(agents@.len() as int) =~= all);
    map
}

impl<'a> AgentStatistics<'a> {
    /// True if the statistics are for the agent given, among others.
    pub fn covers(&self, agent: AgentId) -> (b: bool)
        ensures
            b == self.agent_ids().contains(agent),
    {
        contains_agent(self.agent_ids.as_slice(), agent)
    }

    /// Takes in damage done to a boss.
    pub fn add_event(&mut self, e: DamageEvent)
        requires
            old(self).well_formed(),
        ensures
            final(self).well_formed(),
            final(self).agent() == old(self).agent(),
            final(self).agent_ids() == old(self).agent_ids(),
            final(self).stats() == old(self).stats().counted(e.record()),
    {
        self.stats.add_event(e);
    }
}

/// What happened to a player in one second.
#[derive(Clone, Debug)]
pub struct PlayerEntry {
    /// Timestamp in seconds.
    pub time: u64,
    /// The counters of the buffs of the player at the first record of the
    /// second.
    pub buffs: Option<Vec<(u16, BuffSnapshot)>>,
    /// Health fraction, scaled 10000x.
    pub health: Option<u64>,
    /// Damage done during this second.
    pub damage: i64,
    /// Boss damage done during this second.
    pub boss_dmg: i64,
    /// If the player got downed this second.
    pub downed: bool,
    /// If the player got revived from downed state this second.
    pub revived: bool,
    /// If the player died this second.
    pub dead: bool,
    /// If the player swapped weapon this second.
    pub weapon_swap: bool,
}

/// What a [`PlayerEntry`] holds.
pub struct PlayerSecond {
    pub time: u64,
    pub buffs: Option<Seq<(u16, BuffSnapshot)>>,
    pub health: Option<u64>,
    pub damage: i64,
    pub boss_dmg: i64,
    pub downed: bool,
    pub revived: bool,
    pub dead: bool,
    pub weapon_swap: bool,
}

impl PlayerSecond {
    /// A second in which nothing has happened.
    pub open spec fn blank(time: u64) -> PlayerSecond {
        PlayerSecond {
            time,
            buffs: None,
            health: None,
            damage: 0,
            boss_dmg: 0,
            downed: false,
            revived: false,
            dead: false,
            weapon_swap: false,
        }
    }

    /// The second after a record. The first record of a second brings the
    /// counters of the buffs. State changes set their flag, the death of a
    /// minion excepted; a health update sets the health. Damage that the
    /// player or its minions do adds to the damage of the second, and to the
    /// boss damage if it is aimed at one of `bosses`.
    pub open spec fn noted(
        self,
        e: CombatEventV1,
        own: bool,
        bosses: Seq<AgentId>,
        buffs: Seq<(u16, BuffSnapshot)>,
    ) -> PlayerSecond {
        let change = state_change_of(e);
        PlayerSecond {
            time: self.time,
            buffs: if self.buffs is None {
                Some(buffs)
            } else {
                self.buffs
            },
            health: match change {
                Some(StateChange::HealthUpdate(h)) => Some(h),
                _ => self.health,
            },
            damage: if own && is_damage(e) {
                clamp64(self.damage + damage_of(e))
            } else {
                self.damage
            },
            boss_dmg: if own && is_damage(e) && bosses.contains(AgentId(e.dst_agent)) {
                clamp64(self.boss_dmg + damage_of(e))
            } else {
                self.boss_dmg
            },
            downed: self.downed || change == Some(StateChange::ChangeDown),
            revived: self.revived || change == Some(StateChange::ChangeUp),
            dead: self.dead || (change == Some(StateChange::ChangeDead) && master_of(e) is None),
            weapon_swap: self.weapon_swap || change == Some(StateChange::WeaponSwap),
        }
    }
}

impl PlayerEntry {
    /// What the entry holds.
    pub open spec fn view(&self) -> PlayerSecond {
        PlayerSecond {
            time: self.time,
            buffs: match self.buffs {
                Some(b) => Some(b@),
                None => None,
            },
            health: self.health,
            damage: self.damage,
            boss_dmg: self.boss_dmg,
            downed: self.downed,
            revived: self.revived,
            dead: self.dead,
            weapon_swap: self.weapon_swap,
        }
    }

    /// Notes the state change of a record, if it has one.
    pub fn note_state(&mut self, change: Option<StateChange>, minion: bool)
        ensures
            final(self)@ == (PlayerSecond {
                health: match change {
                    Some(StateChange::HealthUpdate(h)) => Some(h),
                    _ => old(self)@.health,
                },
                downed: old(self)@.downed || change == Some(StateChange::ChangeDown),
                revived: old(self)@.revived || change == Some(StateChange::ChangeUp),
                dead: old(self)@.dead || (change == Some(StateChange::ChangeDead) && !minion),
                weapon_swap: old(self)@.weapon_swap || change == Some(StateChange::WeaponSwap),
                ..old(self)@
            }),
    {
        if let Some(state) = change {
            match state {
                StateChange::ChangeDown => {
                    self.downed = true;
                },
                StateChange::ChangeUp => {
                    self.revived = true;
                },
                // Got to check if it is a minion which died
                StateChange::ChangeDead => {
                    if !minion {
                        self.dead = true;
                    }
                },
                StateChange::HealthUpdate(h) => {
                    self.health = Some(h);
                },
                StateChange::WeaponSwap => {
                    self.weapon_swap = true;
                },
                _ => {},
            }
        }
    }
}

impl Entry for PlayerEntry {
    open spec fn spec_time(&self) -> u64 {
        self.time
    }

    open spec fn spec_new(time: u64) -> PlayerEntry {
        PlayerEntry {
            time,
            buffs: None,
            health: None,
            damage: 0,
            boss_dmg: 0,
            downed: false,
            revived: false,
            dead: false,
            weapon_swap: false,
        }
    }

    fn new(time: u64) -> (e: Self) {
        PlayerEntry {
            time,
            buffs: None,
            health: None,
            damage: 0,
            boss_dmg: 0,
            downed: false,
            revived: false,
            dead: false,
            weapon_swap: false,
        }
    }

    fn time(&self) -> (t: u64) {
        self.time
    }
}

/// What a player summary knows.
pub struct PlayerState {
    /// The time of the last record.
    pub time: u64,
    /// Statistics of all hits of the player and its minions.
    pub hits: PowerCondiHits,
    /// Statistics of the hits on bosses.
    pub boss_hits: PowerCondiHits,
    /// Statistics of the hits on bosses for the player itself and for each
    /// species of its minions.
    pub agents: Seq<TotalStats>,
    /// The uses of skills.
    pub log: ActivationState,
    /// The skills of the buffs that were seen.
    pub buff_skills: Seq<u64>,
    /// What the buff simulators know.
    pub buff_states: Seq<AnyState>,
    /// Statistics of the hits that the player took.
    pub incoming: TotalStats,
    /// The second that is open.
    pub open: Option<PlayerSecond>,
    /// The seconds that are closed.
    pub closed: Seq<PlayerSecond>,
}

/// The player that a summary is about.
pub struct PlayerContext {
    /// The player.
    pub agent: AgentId,
    /// The instance of the player, which its minions name as master.
    pub instance: InstanceId,
    /// The ids of the player itself and of the minions of each species.
    pub groups: Seq<Seq<AgentId>>,
    /// The bosses of the encounter.
    pub bosses: Seq<AgentId>,
}

impl PlayerContext {
    /// True if a record comes from the player or from one of its minions and
    /// gadgets.
    pub open spec fn own(self, e: CombatEventV1) -> bool {
        !is_meta(e) && (e.src_agent == self.agent.0 || master_of(e) == Some(self.instance))
    }

    /// True if a record is damage that the player or its minions do to a
    /// boss.
    pub open spec fn hits_boss(self, e: CombatEventV1) -> bool {
        self.own(e) && is_damage(e) && self.bosses.contains(AgentId(e.dst_agent))
    }
}

impl PlayerState {
    /// The state after a record that has to do with the player.
    ///
    /// The second of the record is opened if it is not open. If time has moved
    /// on, the buffs decay; a buff that is seen for the first time starts at
    /// the time of the record. The record is noted in the second; a buff record
    /// goes to the buff simulators; damage aimed at the player counts as
    /// incoming; what the player or its minions do goes to the activation log
    /// and, if it is damage, to the hit statistics, and for damage to a boss
    /// also to the statistics of the boss hits and of the agent that did it.
    pub open spec fn after(self, ctx: PlayerContext, e: CombatEventV1) -> PlayerState {
        let second = second_of(e);
        let (open, closed) = match self.open {
            Some(entry) => if entry.time == second {
                (entry, self.closed)
            } else {
                (PlayerSecond::blank(second), self.closed.push(entry))
            },
            None => (PlayerSecond::blank(second), self.closed),
        };
        let decayed = if e.time != self.time {
            all_updated(self.buff_states, e.time)
        } else {
            self.buff_states
        };
        let buffs = if is_buff(e) {
            all_received(ctx.agent, e.time, self.buff_skills, decayed, e)
        } else {
            (self.buff_skills, decayed)
        };
        PlayerState {
            time: e.time,
            hits: if ctx.own(e) && is_damage(e) {
                self.hits.counted(e)
            } else {
                self.hits
            },
            boss_hits: if ctx.hits_boss(e) {
                self.boss_hits.counted(e)
            } else {
                self.boss_hits
            },
            agents: if ctx.hits_boss(e) {
                Seq::new(
                    self.agents.len(),
                    |i: int|
                        if ctx.groups[i].contains(AgentId(e.src_agent)) {
                            self.agents[i].counted(e)
                        } else {
                            self.agents[i]
                        },
                )
            } else {
                self.agents
            },
            log: if ctx.own(e) {
                self.log.logged(e)
            } else {
                self.log
            },
            buff_skills: buffs.0,
            buff_states: buffs.1,
            incoming: if has_target(e) && e.dst_agent == ctx.agent.0 && is_damage(e) {
                self.incoming.counted(e)
            } else {
                self.incoming
            },
            open: Some(
                open.noted(e, ctx.own(e), ctx.bosses, reported(self.buff_skills, decayed)),
            ),
            closed,
        }
    }

    /// The state after all of `records`, taken in order.
    pub open spec fn after_all(self, ctx: PlayerContext, records: Seq<CombatEventV1>) -> PlayerState
        decreases records.len(),
    {
        if records.len() == 0 {
            self
        } else {
            self.after_all(ctx, records.drop_last()).after(ctx, records.last())
        }
    }

    /// The state at the end: the open second is closed.
    pub open spec fn finished(self) -> PlayerState {
        PlayerState {
            open: None,
            closed: match self.open {
                Some(entry) => self.closed.push(entry),
                None => self.closed,
            },
            ..self
        }
    }
}

/// The groups of agents that the boss hits of a player are counted for: the
/// player itself, and the minions and gadgets of the player by species, the
/// species in the order in which they are met among `agents`.
pub open spec fn player_groups(agents: Seq<Agent>, player: AgentId) -> Seq<Seq<AgentId>> {
    let groups = grouped(minions_of(agents, player)).1;
    seq![seq![player]] + Seq::new(groups.len(), |i: int| ids(groups[i]))
}

/// The agent that stands for each of the groups that the boss hits of a
/// player are counted for: the player itself, and the first minion or gadget
/// of each species.
pub open spec fn player_representatives(agents: Seq<Agent>, player: Agent) -> Seq<Agent> {
    let groups = grouped(minions_of(agents, player.inner.id)).1;
    seq![player] + Seq::new(groups.len(), |i: int| groups[i][0])
}

/// What a series of player entries holds.
pub open spec fn seconds_of(entries: Seq<PlayerEntry>) -> Seq<PlayerSecond> {
    Seq::new(entries.len(), |i: int| entries[i]@)
}

/// Everything that is gathered about one player.
pub struct PlayerSummary<'a> {
    agent: &'a Agent,
    hit_stats: PowerCondiHits,
    boss_hit_stats: PowerCondiHits,
    agents: Vec<AgentStatistics<'a>>,
    activation_log: ActivationLog,
    buffs: BuffMap,
    incoming_damage: AbilityAndTotal,
    series: Series<PlayerEntry>,
    time: u64,
}

impl<'a> PlayerSummary<'a> {
    /// The player.
    pub closed spec fn agent(&self) -> Agent {
        *self.agent
    }

    /// The ids of the player itself and of the minions of each species.
    pub closed spec fn groups(&self) -> Seq<Seq<AgentId>> {
        Seq::new(self.agents@.len(), |i: int| self.agents@[i].agent_ids())
    }

    /// The agent that stands for each group: the player itself, and the first
    /// minion or gadget of each species.
    pub closed spec fn representatives(&self) -> Seq<Agent> {
        Seq::new(self.agents@.len(), |i: int| self.agents@[i].agent())
    }

    /// The player as the contracts speak of it, in an encounter with the
    /// bosses given.
    pub open spec fn context(&self, bosses: Seq<AgentId>) -> PlayerContext {
        PlayerContext {
            agent: self.agent().inner.id,
            instance: self.agent().meta.instid,
            groups: self.groups(),
            bosses,
        }
    }

    /// What the summary knows.
    pub closed spec fn view(&self) -> PlayerState {
        PlayerState {
            time: self.time,
            hits: self.hit_stats,
            boss_hits: self.boss_hit_stats,
            agents: Seq::new(self.agents@.len(), |i: int| self.agents@[i].stats()),
            log: self.activation_log@,
            buff_skills: self.buffs.skills(),
            buff_states: self.buffs.states(),
            incoming: self.incoming_damage@,
            open: match self.series.open() {
                Some(entry) => Some(entry@),
                None => None,
            },
            closed: seconds_of(self.series.closed()),
        }
    }

    /// The parts of the summary are fit to take events.
    pub closed spec fn wf(&self) -> bool {
        &&& self.buffs.wf()
        &&& self.buffs.agent() == self.agent.inner.id
        &&& self.buffs.time() == self.time
        &&& self.incoming_damage.well_formed()
        &&& forall|i: int| 0 <= i < self.agents@.len() ==> (#[trigger] self.agents@[i]).well_formed()
        &&& self.series.open() matches Some(entry) ==> entry.buffs is Some
    }

    /// An empty summary for `agent`, with statistics for the player itself
    /// and for each species of its minions and gadgets.
    pub fn new(meta: &'a Metadata<'a>, agent: &'a Agent) -> (s: Self)
        ensures
            s.wf(),
            s.agent() == *agent,
            s@ == unplayed(s.groups().len()),
            s.groups() == player_groups(meta@, agent.inner.id),
            s.representatives() == player_representatives(meta@, *agent),
    {
        let minions = meta.agents_for_master(agent);
        assert(agents_of(minions@) =~= minions_of(meta@, agent.inner.id));
        let gadgets = group_agents_by_species(minions.as_slice());
        let mut agents: Vec<AgentStatistics<'a>> = Vec::new();
        let mut own: Vec<&'a Agent> = Vec::new();
        own.push(agent);
        agents.push(AgentStatistics::new(&own));
        assert(ids_of(own@) =~= seq![agent.inner.id]);
        let n: usize = gadgets.len();
        let mut i: usize = 0;
        while i < n
            invariant
                i <= n,
                gadgets.wf(),
                n == gadgets.values().len(),
                agents@.len() == i + 1,
                agents@[0].agent_ids() == seq![agent.inner.id],
                agents@[0].agent() == *agent,
                forall|j: int|
                    1 <= j < agents@.len() ==> (#[trigger] agents@[j]).agent()
                        == *gadgets.values()[j - 1]@[0],
                forall|j: int| 0 <= j < gadgets.values().len() ==> (#[trigger] gadgets.values()[j])@.len() > 0,
                forall|j: int| 0 <= j < agents@.len() ==> (#[trigger] agents@[j]).well_formed()
                    && agents@[j].stats() == TotalStats::none(),
                forall|j: int|
                    1 <= j < agents@.len() ==> (#[trigger] agents@[j]).agent_ids() == ids_of(
                        gadgets.values()[j - 1]@,
                    ),
            decreases n - i,
        {
            agents.push(AgentStatistics::new(gadgets.value_at(i)));
            i += 1;
        }
        let s = PlayerSummary {
            agent,
            hit_stats: PowerCondiHits::default(),
            boss_hit_stats: PowerCondiHits::default(),
            agents,
            activation_log: ActivationLog::new(),
            incoming_damage: AbilityAndTotal::new(),
            buffs: BuffMap::new(agent.id()),
            series: Series::new(meta),
            time: 0,
        };
        proof {
            assert(s@.agents =~= Seq::new(s.groups().len(), |i: int| TotalStats::none()));
            assert(s@.closed =~= Seq::<PlayerSecond>::empty());
            let expected = player_groups(meta@, agent.inner.id);
            assert(s.groups().len() == expected.len());
            assert forall|i: int| 0 <= i < s.groups().len() implies s.groups()[i]
                == expected[i] by {
                if i >= 1 {
                    let group = gadgets.values()[i - 1]@;
                    assert(agents_of(group) == grouped(agents_of(minions@)).1[i - 1]);
                    assert(ids_of(group) =~= ids(agents_of(group)));
                }
            }
            assert(s.groups() =~= expected);
            let firsts = player_representatives(meta@, *agent);
            assert(s.representatives().len() == firsts.len());
            assert forall|i: int| 0 <= i < firsts.len() implies s.representatives()[i]
                == firsts[i] by {
                if i >= 1 {
                    let group = gadgets.values()[i - 1]@;
                    assert(agents_of(group) == grouped(agents_of(minions@)).1[i - 1]);
                    assert(agents_of(group)[0] == *group[0]);
                }
            }
            assert(s.representatives() =~= firsts);
        }
        s
    }
}

/// The statistics at position `i`, for changing them in place.
fn statistics_mut<'a, 'b>(agents: &'b mut Vec<AgentStatistics<'a>>, i: usize) -> (r: &'b mut AgentStatistics<'a>)
    requires
        i < old(agents)@.len(),
    ensures
        *r == old(agents)@[i as int],
        final(agents)@ == old(agents)@.update(i as int, *final(r)),
{
    &mut agents[i]
}

impl<'a> PlayerSummary<'a> {
    /// Opens the second of `time` if it is not open, with the counters of the
    /// buffs as they are.
    fn open_second(&mut self, second: u64)
        requires
            old(self).wf(),
        ensures
            final(self).wf(),
            final(self).agent() == old(self).agent(),
            final(self).groups() == old(self).groups(),
            final(self).representatives() == old(self).representatives(),
            final(self).series.open() is Some,
            final(self).series.open().unwrap().time == second,
            final(self)@ == (PlayerState {
                open: Some(
                    match old(self)@.open {
                        Some(entry) if entry.time == second => entry,
                        _ => PlayerSecond {
                            buffs: Some(reported(old(self)@.buff_skills, old(self)@.buff_states)),
                            ..PlayerSecond::blank(second)
                        },
                    },
                ),
                closed: match old(self)@.open {
                    Some(entry) if entry.time != second => old(self)@.closed.push(entry),
                    _ => old(self)@.closed,
                },
                ..old(self)@
            }),
    {
        let fresh: bool = match self.series.open_time() {
            Some(t) => t != second,
            None => true,
        };
        if fresh {
            let snapshot = self.buffs.snapshots();
            let ghost before = self.series.closed();
            let entry = self.series.current(second);
            entry.buffs = Some(snapshot);
            proof {
                match old(self).series.open() {
                    Some(was) => {
                        assert(seconds_of(before.push(was)) =~= seconds_of(before).push(was@));
                    },
                    None => {},
                }
            }
        }
    }

    /// Notes a record in the second that is open.
    fn note(&mut self, e: CombatEventV1, own: bool, bosses: &[AgentId])
        requires
            old(self).wf(),
            old(self).series.open() is Some,
            old(self).series.open().unwrap().time == second_of(e),
            own == old(self).context(bosses@).own(e),
        ensures
            final(self).wf(),
            final(self).agent() == old(self).agent(),
            final(self).groups() == old(self).groups(),
            final(self).representatives() == old(self).representatives(),
            final(self)@ == (PlayerState {
                open: Some(old(self)@.open.unwrap().noted(e, own, bosses@, Seq::empty())),
                ..old(self)@
            }),
    {
        let boss: bool = contains_agent(bosses, e.dst_agent());
        let entry = self.series.current(e.time / 1000);
        entry.note_state(e.state_change(), e.src_master_instid().is_some());
        if own && e.kind() == crate::event::EventKind::Damage {
            proof {
                crate::event::lemma_kind_exclusive(e);
            }
            let damage: i64 = e.damage();
            entry.damage = add_clamped(entry.damage, damage);
            if boss {
                entry.boss_dmg = add_clamped(entry.boss_dmg, damage);
            }
        } else {
            proof {
                crate::event::lemma_kind_exclusive(e);
            }
        }
    }

    /// Counts damage done to a boss for the agents that did it.
    fn count_boss_hit(&mut self, d: DamageEvent)
        requires
            old(self).wf(),
        ensures
            final(self).wf(),
            final(self).agent() == old(self).agent(),
            final(self).groups() == old(self).groups(),
            final(self).representatives() == old(self).representatives(),
            final(self)@ == (PlayerState {
                boss_hits: old(self)@.boss_hits.counted(d.record()),
                agents: Seq::new(
                    old(self)@.agents.len(),
                    |i: int|
                        if old(self).groups()[i].contains(AgentId(d.record().src_agent)) {
                            old(self)@.agents[i].counted(d.record())
                        } else {
                            old(self)@.agents[i]
                        },
                ),
                ..old(self)@
            }),
    {
        self.boss_hit_stats.add_event(d);
        let source: AgentId = d.agent();
        let n: usize = self.agents.len();
        let mut i: usize = 0;
        while i < n
            invariant
                i <= n,
                n == self.agents@.len(),
                n == old(self).agents@.len(),
                source == AgentId(d.record().src_agent),
                self.agent == old(self).agent,
                self.hit_stats == old(self).hit_stats,
                self.boss_hit_stats == old(self).boss_hit_stats.counted(d.record()),
                self.activation_log == old(self).activation_log,
                self.buffs == old(self).buffs,
                self.incoming_damage == old(self).incoming_damage,
                self.series == old(self).series,
                self.time == old(self).time,
                forall|j: int|
                    0 <= j < n ==> (#[trigger] self.agents@[j]).well_formed()
                        && self.agents@[j].agent_ids() == old(self).agents@[j].agent_ids()
                        && self.agents@[j].agent() == old(self).agents@[j].agent(),
                forall|j: int|
                    0 <= j < i ==> (#[trigger] self.agents@[j]).stats() == if old(
                        self,
                    ).agents@[j].agent_ids().contains(source) {
                        old(self).agents@[j].stats().counted(d.record())
                    } else {
                        old(self).agents@[j].stats()
                    },
                forall|j: int| i <= j < n ==> (#[trigger] self.agents@[j]) == old(self).agents@[j],
            decreases n - i,
        {
            if self.agents[i].covers(source) {
                statistics_mut(&mut self.agents, i).add_event(d);
            }
            i += 1;
        }
        proof {
            assert(self.groups() =~= old(self).groups());
            assert(self.representatives() =~= old(self).representatives());
            assert(self@.agents =~= Seq::new(
                old(self)@.agents.len(),
                |i: int|
                    if old(self).groups()[i].contains(AgentId(d.record().src_agent)) {
                        old(self)@.agents[i].counted(d.record())
                    } else {
                        old(self)@.agents[i]
                    },
            ));
        }
    }

    /// Takes in one event that has to do with the player.
    pub fn add_event(&mut self, event: SourceEvent, bosses: &[AgentId])
        requires
            old(self).wf(),
        ensures
            final(self).wf(),
            final(self).agent() == old(self).agent(),
            final(self).groups() == old(self).groups(),
            final(self).representatives() == old(self).representatives(),
            final(self)@ == old(self)@.after(old(self).context(bosses@), event.record()),
    {
        let e: CombatEventV1 = event.raw();
        let id: AgentId = self.agent.id();
        let instance: InstanceId = self.agent.instance_id();
        let ghost ctx = self.context(bosses@);
        let ghost start = self@;
        proof {
            crate::event::lemma_kind_exclusive(e);
        }

        if e.time != self.time {
            self.buffs.update(e.time);
            self.time = e.time;
        }
        let ghost decayed = self@.buff_states;
        // We only store entries per second
        self.open_second(e.time / 1000);

        let own: Option<SourceEvent> = event.from_agent_or_gadgets(id, instance);
        self.note(e, own.is_some(), bosses);
        proof {
            let opened = match start.open {
                Some(entry) if entry.time == second_of(e) => entry,
                _ => PlayerSecond::blank(second_of(e)),
            };
            assert(self@.open == Some(
                opened.noted(e, ctx.own(e), bosses@, reported(start.buff_skills, decayed)),
            ));
        }

        if let Some(b) = event.into_buff() {
            self.buffs.add_event(b);
        }
        if let Some(t) = event.targeting_agent(id) {
            if let Some(d) = t.into_damage() {
                self.incoming_damage.add_event(d);
            }
        }
        if let Some(s) = own {
            self.activation_log.add_event(s);

            if let Some(d) = s.into_damage() {
                self.hit_stats.add_event(d);

                if contains_agent(bosses, d.target_agent()) {
                    self.count_boss_hit(d);
                }
            }
        }
        proof {
            assert(self@.agents =~= start.after(ctx, e).agents);
        }
    }

    /// Takes in all events that have to do with the player, in order, and
    /// closes the series.
    pub fn parse(self, bosses: &[AgentId], events: &[SourceEvent]) -> (r: Self)
        requires
            self.wf(),
        ensures
            r.wf(),
            r.agent() == self.agent(),
            r.groups() == self.groups(),
            r.representatives() == self.representatives(),
            r@ == self@.after_all(self.context(bosses@), records_of(events@)).finished(),
    {
        let mut summary = self;
        let ghost records = records_of(events@);
        let ghost ctx = self.context(bosses@);
        let mut i: usize = 0;
        while i < events.len()
            invariant
                i <= events.len(),
                records == records_of(events@),
                summary.wf(),
                summary.agent() == self.agent(),
                summary.groups() == self.groups(),
                summary.representatives() == self.representatives(),
                ctx == self.context(bosses@),
                summary@ == self@.after_all(ctx, records.take(i as int)),
            decreases events.len() - i,
        {
            assert(records.take(i + 1).drop_last() =~= records.take(i as int));
            assert(records.take(i + 1).last() == events@[i as int]@);
            summary.add_event(events[i], bosses);
            i += 1;
        }
        assert(records.take(events@.len() as int) =~= records);
        let ghost before = summary.series.closed();
        let ghost open = summary.series.open();
        summary.series.finalize();
        proof {
            match open {
                Some(was) => {
                    assert(seconds_of(before.push(was)) =~= seconds_of(before).push(was@));
                },
                None => {},
            }
        }
        summary
    }

    /// The player.
    pub fn player(&self) -> (a: &'a Agent)
        ensures
            *a == self.agent(),
    {
        self.agent
    }

    /// Statistics of all hits of the player and its minions.
    pub fn hit_stats(&self) -> (h: PowerCondiHits)
        ensures
            h == self@.hits,
    {
        self.hit_stats
    }

    /// Statistics of the hits on bosses.
    pub fn boss_hit_stats(&self) -> (h: PowerCondiHits)
        ensures
            h == self@.boss_hits,
    {
        self.boss_hit_stats
    }

    /// Statistics of the hits on bosses for the player itself and for each
    /// species of its minions.
    pub fn agent_stats(&self) -> (r: &[AgentStatistics<'a>])
        ensures
            r@.len() == self@.agents.len(),
            r@.len() == self.groups().len(),
            r@.len() == self.representatives().len(),
            forall|i: int|
                0 <= i < r@.len() ==> {
                    let stats = #[trigger] r@[i];
                    &&& stats.stats() == self@.agents[i]
                    &&& stats.agent() == self.representatives()[i]
                    &&& stats.agent_ids() == self.groups()[i]
                    &&& self.wf() ==> stats.well_formed()
                },
    {
        self.agents.as_slice()
    }

    /// The uses of skills.
    pub fn activation_log(&self) -> (l: &ActivationLog)
        ensures
            l@ == self@.log,
    {
        &self.activation_log
    }

    /// The buff simulators.
    pub fn buffs(&self) -> (b: &BuffMap)
        ensures
            b.skills() == self@.buff_skills,
            b.states() == self@.buff_states,
            self.wf() ==> b.wf() && b.time() == self@.time && b.agent() == self.agent().inner.id,
    {
        &self.buffs
    }

    /// Statistics of the hits that the player took.
    pub fn incoming_damage(&self) -> (s: &AbilityAndTotal)
        ensures
            s@ == self@.incoming,
            self.wf() ==> s.well_formed(),
    {
        &self.incoming_damage
    }

    /// The seconds of the series that are closed.
    pub fn series(&self) -> (r: &[PlayerEntry])
        ensures
            seconds_of(r@) == self@.closed,
    {
        self.series.entries()
    }
}

/// What is gathered about one boss.
#[derive(Clone, Debug)]
pub struct BossSummary<'a> {
    /// The boss.
    pub agent: &'a Agent,
    /// What the boss and its minions did, second by second.
    pub series: TimeSeries,
}

/// What the log tells of the encounter as a whole.
#[derive(Clone, Debug)]
pub struct EncounterInfo {
    /// Server time at which the log starts.
    pub log_start: u32,
    /// Server time at which the log ends.
    pub log_end: u32,
    /// Time at which a boss was first seen.
    pub series_start: u64,
    /// Time at which a boss was last seen.
    pub series_end: u64,
    /// The game build.
    pub game_build: u64,
    /// The language of the client.
    pub game_lang: Language,
    /// The server shard.
    pub server_shard: u64,
    /// The name of the log.
    pub log_name: String,
    /// The boss that the header names.
    pub boss: Boss,
    /// True if every boss died.
    pub success: bool,
}

/// Everything that is gathered about an encounter.
pub struct Report<'a> {
    /// The encounter as a whole.
    pub encounter: EncounterInfo,
    /// One summary for each player, in the order of the agent table.
    pub players: Vec<PlayerSummary<'a>>,
    /// One summary for each boss, in the order of the agent table.
    pub enemies: Vec<BossSummary<'a>>,
    /// The buffs that are tracked.
    pub buffs: MetadataMap,
    /// The skills of the log.
    pub skills: SkillList<'a>,
}

/// The players among `agents`, in order.
pub open spec fn players_of(agents: Seq<Agent>) -> Seq<Agent>
    decreases agents.len(),
{
    if agents.len() == 0 {
        Seq::empty()
    } else if agents.last().spec_profession().spec_is_player_character() {
        players_of(agents.drop_last()).push(agents.last())
    } else {
        players_of(agents.drop_last())
    }
}

/// The state in which the summary of a player starts, for a player with
/// `groups` groups of agents.
pub open spec fn unplayed(groups: nat) -> PlayerState {
    PlayerState {
        time: 0,
        hits: PowerCondiHits::none(),
        boss_hits: PowerCondiHits::none(),
        agents: Seq::new(groups, |i: int| TotalStats::none()),
        log: ActivationState { last: None, log: Seq::empty() },
        buff_skills: Seq::empty(),
        buff_states: Seq::empty(),
        incoming: TotalStats::none(),
        open: None,
        closed: Seq::empty(),
    }
}

/// True if `r` is the summary of the encounter that `meta` describes, for a
/// log of the name given.
///
/// The encounter is described by what the metadata holds. There is one
/// summary for each player, whose state is that after all records of the
/// encounter window that have to do with the player; and one for each boss,
/// whose series is that of the records of the encounter window that come from
/// the boss or from its minions.
pub open spec fn summarizes(meta: Metadata, log_name: String, r: Report) -> bool {
    let bosses = bosses_of(meta@, meta.boss_id());
    let events = within(meta.buffer().events@, meta.window().0, meta.window().1);
    &&& r.encounter.log_start == meta.info().start
    &&& r.encounter.log_end == meta.info().end
    &&& (r.encounter.series_start, r.encounter.series_end) == meta.window()
    &&& r.encounter.game_build == meta.info().build
    &&& r.encounter.game_lang == meta.info().lang
    &&& r.encounter.server_shard == meta.info().shard
    &&& r.encounter.log_name == log_name
    &&& r.encounter.boss == Boss::spec_from_species_id(meta.boss_id())
    &&& r.encounter.success == forall|i: int|
        0 <= i < bosses.len() ==> (#[trigger] bosses[i]).meta.died is Some
    &&& r.skills.skills@ == meta.buffer().skills@
    &&& lists_tracked(r.buffs.0@)
    &&& r.players@.len() == players_of(meta@).len()
    &&& forall|i: int|
        0 <= i < r.players@.len() ==> {
            let player = #[trigger] r.players@[i];
            &&& player.wf()
            &&& player.agent() == players_of(meta@)[i]
            &&& player.groups() == player_groups(meta@, player.agent().inner.id)
            &&& player.representatives() == player_representatives(meta@, player.agent())
            &&& player@ == unplayed(player.groups().len()).after_all(
                player.context(ids(bosses)),
                picked(events, 0, relates_to(player.agent().inner.id, player.agent().meta.instid)),
            ).finished()
        }
    &&& r.enemies@.len() == bosses.len()
    &&& forall|i: int|
        0 <= i < r.enemies@.len() ==> {
            let enemy = #[trigger] r.enemies@[i];
            &&& *enemy.agent == bosses[i]
            &&& enemy.series@ == series_of(
                picked(
                    events,
                    0,
                    comes_from_or_gadgets(enemy.agent.inner.id, enemy.agent.meta.instid),
                ),
                ids(bosses),
            )
        }
}

/// An encounter has one summary only: two summaries of the same metadata
/// tell the same of the encounter, of every player and of every boss.
pub proof fn lemma_summary_unique(meta: Metadata, log_name: String, a: Report, b: Report)
    requires
        summarizes(meta, log_name, a),
        summarizes(meta, log_name, b),
    ensures
        a.encounter == b.encounter,
        a.skills.skills@ == b.skills.skills@,
        a.players@.len() == b.players@.len(),
        forall|i: int|
            0 <= i < a.players@.len() ==> (#[trigger] a.players@[i]).agent() == b.players@[i].agent()
                && a.players@[i].groups() == b.players@[i].groups()
                && a.players@[i].representatives() == b.players@[i].representatives()
                && a.players@[i]@ == b.players@[i]@,
        a.enemies@.len() == b.enemies@.len(),
        forall|i: int|
            0 <= i < a.enemies@.len() ==> *(#[trigger] a.enemies@[i]).agent == *b.enemies@[i].agent
                && a.enemies@[i].series@ == b.enemies@[i].series@,
{
}

/// The summary of an encounter.
///
/// Every statistic is taken from the records that fall into the encounter
/// window. Each player gets the records that have to do with it, each boss
/// the records that come from it or from its minions.
pub fn summarize<'a>(meta: &'a Metadata<'a>, log_name: String) -> (r: Report<'a>)
    ensures
        summarizes(*meta, log_name, r),
{
    let bosses = meta.bosses();
    let boss_ids = meta.boss_ids();
    let events = meta.encounter_events();
    let all = meta.agents();
    assert(records_of(events@) =~= events@);

    let mut players: Vec<PlayerSummary<'a>> = Vec::new();
    let mut i: usize = 0;
    while i < all.len()
        invariant
            i <= all.len(),
            all@ == meta@,
            boss_ids@ == ids(bosses_of(meta@, meta.boss_id())),
            events@ == within(meta.buffer().events@, meta.window().0, meta.window().1),
            records_of(events@) == events@,
            players@.len() == players_of(all@.take(i as int)).len(),
            forall|j: int|
                0 <= j < players@.len() ==> {
                    let player = #[trigger] players@[j];
                    &&& player.wf()
                    &&& player.agent() == players_of(all@.take(i as int))[j]
                    &&& player.groups() == player_groups(meta@, player.agent().inner.id)
                    &&& player.representatives() == player_representatives(
                        meta@,
                        player.agent(),
                    )
                    &&& player@ == unplayed(player.groups().len()).after_all(
                        player.context(boss_ids@),
                        picked(
                            events@,
                            0,
                            relates_to(player.agent().inner.id, player.agent().meta.instid),
                        ),
                    ).finished()
                },
        decreases all.len() - i,
    {
        assert(all@.take(i + 1).drop_last() =~= all@.take(i as int));
        let a: &'a Agent = &all[i];
        if a.profession().is_player_character() {
            let related = events.as_slice().related_to(a).collect();
            let summary = PlayerSummary::new(meta, a);
            let ghost groups = summary.groups();
            let ghost firsts = summary.representatives();
            let summary = summary.parse(boss_ids.as_slice(), related.as_slice());
            assert(summary.groups() == groups);
            assert(summary.representatives() == firsts);
            players.push(summary);
        }
        i += 1;
    }
    assert(all@.take(all@.len() as int) =~= all@);

    let mut enemies: Vec<BossSummary<'a>> = Vec::new();
    let mut i: usize = 0;
    while i < bosses.len()
        invariant
            i <= bosses.len(),
            bosses@.len() == bosses_of(meta@, meta.boss_id()).len(),
            forall|j: int| 0 <= j < bosses@.len() ==> *(#[trigger] bosses@[j]) == bosses_of(
                meta@,
                meta.boss_id(),
            )[j],
            enemies@.len() == i,
            forall|j: int|
                0 <= j < i ==> {
                    let enemy = #[trigger] enemies@[j];
                    &&& *enemy.agent == bosses_of(meta@, meta.boss_id())[j]
                    &&& enemy.series@ == series_of(
                        picked(
                            within(meta.buffer().events@, meta.window().0, meta.window().1),
                            0,
                            comes_from_or_gadgets(enemy.agent.inner.id, enemy.agent.meta.instid),
                        ),
                        ids(bosses_of(meta@, meta.boss_id())),
                    )
                },
        decreases bosses.len() - i,
    {
        let b: &'a Agent = bosses[i];
        enemies.push(BossSummary { agent: b, series: TimeSeries::parse_agent(meta, b) });
        i += 1;
    }

    Report {
        encounter: EncounterInfo {
            log_start: meta.log_start_time(),
            log_end: meta.log_end_time(),
            series_start: meta.log_start(),
            series_end: meta.log_end(),
            log_name,
            game_build: meta.game_build(),
            game_lang: meta.language(),
            server_shard: meta.server_shard(),
            boss: meta.boss(),
            success: meta.success(),
        },
        players,
        enemies,
        buffs: meta_map(),
        skills: meta.skill_list(),
    }
}

} // verus!
