//! Series of entries, one for each second in which something happened.

use vstd::prelude::*;

use crate::event::StateChange;
use crate::event::damage_of;
use crate::event::is_damage;
use crate::event::master_of;
use crate::event::raw::CombatEventV1;
use crate::event::state_change_of;
use crate::event::typed::Damage;
use crate::event::typed::Event;
use crate::event::typed::Source;
use crate::event::typed::SourceEvent;
use crate::event::typed::Target;
use crate::event::typed::contains_agent;
use crate::iterator::EventIteratorExt;
use crate::iterator::comes_from_or_gadgets;
use crate::iterator::picked;
use crate::iterator::records_of;
use crate::metadata::Agent;
use crate::metadata::Metadata;
use crate::metadata::bosses_of;
use crate::metadata::within;
use crate::statistics::add_clamped;
use crate::statistics::clamp64;
use crate::types::AgentId;

verus! {

/// An entry of a series: what happened in one second.
pub trait Entry: Sized {
    /// The second the entry stands for.
    spec fn spec_time(&self) -> u64;

    /// The entry for the second given in which nothing has happened yet.
    spec fn spec_new(time: u64) -> Self;

    /// An entry for the second given, in which nothing has happened yet.
    fn new(time: u64) -> (e: Self)
        ensures
            e == Self::spec_new(time),
            e.spec_time() == time,
    ;

    /// The second the entry stands for.
    fn time(&self) -> (t: u64)
        ensures
            t == self.spec_time(),
    ;
}

/// A series that is built second by second: the entry of the current second
/// is open for changes, the entries of earlier seconds are closed.
pub struct Series<E: Entry> {
    current: Option<E>,
    series: Vec<E>,
}

impl<E: Entry> Series<E> {
    /// The entry that is open, if any.
    pub closed spec fn open(&self) -> Option<E> {
        self.current
    }

    /// The entries that are closed, in order.
    pub closed spec fn closed(&self) -> Seq<E> {
        self.series@
    }

    /// An empty series for a log. Room is made for one entry for each second
    /// of the encounter.
    pub fn new(meta: &Metadata) -> (s: Self)
        ensures
            s.open() is None,
            s.closed() == Seq::<E>::empty(),
    {
        Series { current: None, series: Vec::with_capacity(meta.series_capacity()) }
    }

    /// The entry for the second given, open for changes. If the open entry is
    /// that of another second it is closed, and a new one is opened.
    #[inline]
    pub fn current(&mut self, time: u64) -> (e: &mut E)
        ensures
            match old(self).open() {
                Some(was) => if was.spec_time() == time {
                    *e == was && final(self).closed() == old(self).closed()
                } else {
                    *e == E::spec_new(time) && final(self).closed() == old(self).closed().push(
                        was,
                    )
                },
                None => *e == E::spec_new(time) && final(self).closed() == old(self).closed(),
            },
            e.spec_time() == time,
            final(self).open() == Some(*final(e)),
    {
        let stale: bool = match &self.current {
            Some(entry) => entry.time() != time,
            None => false,
        };
        if stale {
            if let Some(entry) = self.current.take() {
                self.series.push(entry);
            }
        }
        if self.current.is_none() {
            self.current = Some(E::new(time));
        }
        match &mut self.current {
            Some(entry) => entry,
            None => vstd::pervasive::unreached(),
        }
    }

    /// The second of the open entry, if there is one.
    pub fn open_time(&self) -> (t: Option<u64>)
        ensures
            t == match self.open() {
                Some(e) => Some(e.spec_time()),
                None => None,
            },
    {
        match &self.current {
            Some(e) => Some(e.time()),
            None => None,
        }
    }

    /// Closes the open entry, if there is one.
    pub fn finalize(&mut self)
        ensures
            final(self).open() is None,
            final(self).closed() == match old(self).open() {
                Some(was) => old(self).closed().push(was),
                None => old(self).closed(),
            },
    {
        if let Some(e) = self.current.take() {
            self.series.push(e);
        }
    }

    /// The entries that are closed, in order.
    pub fn entries(&self) -> (r: &[E])
        ensures
            r@ == self.closed(),
    {
        self.series.as_slice()
    }
}

/// What happened to one agent in one second.
#[derive(Clone, Copy, PartialEq, Eq, Structural, Debug)]
pub struct TimeEntry {
    /// Timestamp in seconds.
    pub time: u64,
    /// Health fraction, scaled 10000x.
    pub health: Option<u64>,
    /// Damage done during this second.
    pub damage: i64,
    /// Boss damage done during this second.
    pub boss_dmg: i64,
    /// If the agent got downed this second.
    pub downed: bool,
    /// If the agent got revived from downed state this second.
    pub revived: bool,
    /// If the agent died this second.
    pub dead: bool,
    /// If the agent swapped weapon this second.
    pub weapon_swap: bool,
}

impl TimeEntry {
    /// An entry of a second in which nothing happened.
    pub open spec fn blank(time: u64) -> TimeEntry {
        TimeEntry {
            time,
            health: None,
            damage: 0,
            boss_dmg: 0,
            downed: false,
            revived: false,
            dead: false,
            weapon_swap: false,
        }
    }

    /// True if anything is noted in the entry.
    pub open spec fn spec_has_data(&self) -> bool {
        self.health is Some || self.damage > 0 || self.boss_dmg > 0 || self.downed || self.revived
            || self.dead || self.weapon_swap
    }

    /// The entry after a record of the agent or of one of its minions. State
    /// changes set their flag, the death of a minion excepted; a health update
    /// sets the health. Damage adds to the damage of the second, and to the
    /// boss damage if it is aimed at one of `bosses`.
    pub open spec fn marked(self, e: CombatEventV1, bosses: Seq<AgentId>) -> TimeEntry {
        let change = state_change_of(e);
        TimeEntry {
            time: self.time,
            health: match change {
                Some(StateChange::HealthUpdate(h)) => Some(h),
                _ => self.health,
            },
            damage: if is_damage(e) {
                clamp64(self.damage + damage_of(e))
            } else {
                self.damage
            },
            boss_dmg: if is_damage(e) && bosses.contains(AgentId(e.dst_agent)) {
                clamp64(self.boss_dmg + damage_of(e))
            } else {
                self.boss_dmg
            },
            downed: self.downed || change == Some(StateChange::ChangeDown),
            revived: self.revived || change == Some(StateChange::ChangeUp),
            dead: self.dead || (change == Some(StateChange::ChangeDead) && master_of(e) is None),
            weapon_swap: self.weapon_swap || change == Some(StateChange::WeaponSwap),
        }
    }

    /// An entry of the second given in which nothing has happened yet.
    #[inline]
    pub fn with_time(t: u64) -> (e: Self)
        ensures
            e == TimeEntry::blank(t),
    {
        TimeEntry {
            time: t,
            health: None,
            damage: 0,
            boss_dmg: 0,
            downed: false,
            revived: false,
            dead: false,
            weapon_swap: false,
        }
    }

    /// True if anything is noted in the entry.
    #[inline]
    pub fn has_data(&self) -> (b: bool)
        ensures
            b == self.spec_has_data(),
    {
        self.health.is_some() || self.damage > 0 || self.boss_dmg > 0 || self.downed
            || self.revived || self.dead || self.weapon_swap
    }

    /// Notes a record of the agent or of one of its minions.
    pub fn parse_item<T: Source>(&mut self, event: T, bosses: &[AgentId])
        ensures
            *final(self) == old(self).marked(event.record(), bosses@),
    {
        if let Some(state) = event.state_change() {
            match state {
                StateChange::ChangeDown => {
                    self.downed = true;
                },
                StateChange::ChangeUp => {
                    self.revived = true;
                },
                // Got to check if it is a minion which died
                StateChange::ChangeDead => {
                    if event.master_instance().is_none() {
                        self.dead = true;
                    }
                },
                StateChange::HealthUpdate(h) => {
                    self.health = Some(h);
                },
                StateChange::WeaponSwap => {
                    self.weapon_swap = true;
                },
                _ => {},
            }
        }
        if let Some(e) = event.into_damage() {
            let damage: i64 = e.damage();
            self.damage = add_clamped(self.damage, damage);

            if contains_agent(bosses, e.target_agent()) {
                self.boss_dmg = add_clamped(self.boss_dmg, damage);
            }
        }
    }
}

impl Entry for TimeEntry {
    open spec fn spec_time(&self) -> u64 {
        self.time
    }

    open spec fn spec_new(time: u64) -> TimeEntry {
        TimeEntry::blank(time)
    }

    fn new(time: u64) -> (e: Self) {
        TimeEntry::with_time(time)
    }

    fn time(&self) -> (t: u64) {
        self.time
    }
}

/// The second in which a record falls.
pub open spec fn second_of(e: CombatEventV1) -> u64 {
    e.time / 1000
}

/// The entries that `records` fill, taken in order: the entry that is still
/// open, and behind it the closed entries that hold data. A record of another
/// second than that of the open entry closes the entry and opens a new one.
pub open spec fn sampled(records: Seq<CombatEventV1>, bosses: Seq<AgentId>) -> (
    Option<TimeEntry>,
    Seq<TimeEntry>,
)
    decreases records.len(),
{
    if records.len() == 0 {
        (None, Seq::empty())
    } else {
        let (open, closed) = sampled(records.drop_last(), bosses);
        let e = records.last();
        match open {
            Some(entry) => if entry.time != second_of(e) {
                (
                    Some(TimeEntry::blank(second_of(e)).marked(e, bosses)),
                    if entry.spec_has_data() {
                        closed.push(entry)
                    } else {
                        closed
                    },
                )
            } else {
                (Some(entry.marked(e, bosses)), closed)
            },
            None => (Some(TimeEntry::blank(second_of(e)).marked(e, bosses)), closed),
        }
    }
}

/// The time series of `records`: one entry for each run of records that fall
/// in the same second, if the entry holds any data.
pub open spec fn series_of(records: Seq<CombatEventV1>, bosses: Seq<AgentId>) -> Seq<TimeEntry> {
    let (open, closed) = sampled(records, bosses);
    match open {
        Some(entry) => if entry.spec_has_data() {
            closed.push(entry)
        } else {
            closed
        },
        None => closed,
    }
}

/// Every entry of a time series holds data and stands for the second of one
/// of the records.
pub proof fn lemma_series_of(records: Seq<CombatEventV1>, bosses: Seq<AgentId>)
    ensures
        forall|i: int|
            0 <= i < series_of(records, bosses).len() ==> (#[trigger] series_of(
                records,
                bosses,
            )[i]).spec_has_data() && exists|k: int|
                0 <= k < records.len() && series_of(records, bosses)[i].time == second_of(
                    #[trigger] records[k],
                ),
{
    lemma_sampled(records, bosses);
}

/// Every entry that records fill, open or closed, stands for the second of
/// one of the records, and the closed ones hold data.
pub proof fn lemma_sampled(records: Seq<CombatEventV1>, bosses: Seq<AgentId>)
    ensures
        sampled(records, bosses).0 matches Some(entry) ==> exists|k: int|
            0 <= k < records.len() && entry.time == second_of(#[trigger] records[k]),
        forall|i: int|
            0 <= i < sampled(records, bosses).1.len() ==> (#[trigger] sampled(
                records,
                bosses,
            ).1[i]).spec_has_data() && exists|k: int|
                0 <= k < records.len() && sampled(records, bosses).1[i].time == second_of(
                    #[trigger] records[k],
                ),
    decreases records.len(),
{
    if records.len() > 0 {
        let front = records.drop_last();
        lemma_sampled(front, bosses);
        let (open, closed) = sampled(front, bosses);
        let now = sampled(records, bosses);
        let last = records.len() - 1;
        assert(records[last] == records.last());
        assert forall|i: int| 0 <= i < now.1.len() implies (#[trigger] now.1[i]).spec_has_data()
            && exists|k: int|
            0 <= k < records.len() && now.1[i].time == second_of(#[trigger] records[k]) by {
            if i < closed.len() {
                let k = choose|k: int|
                    0 <= k < front.len() && closed[i].time == second_of(#[trigger] front[k]);
                assert(records[k] == front[k]);
            } else {
                let entry = open.unwrap();
                let k = choose|k: int|
                    0 <= k < front.len() && entry.time == second_of(#[trigger] front[k]);
                assert(records[k] == front[k]);
            }
        }
        match now.0 {
            Some(entry) => {
                if entry.time == second_of(records[last]) {
                } else {
                    let was = open.unwrap();
                    let k = choose|k: int|
                        0 <= k < front.len() && was.time == second_of(#[trigger] front[k]);
                    assert(records[k] == front[k]);
                }
            },
            None => {},
        }
    }
}

/// The time-series data for an agent.
#[derive(Clone, Debug)]
pub struct TimeSeries {
    series: Vec<TimeEntry>,
}

impl TimeSeries {
    /// The entries of the series.
    pub closed spec fn view(&self) -> Seq<TimeEntry> {
        self.series@
    }

    /// An empty series for a log.
    #[inline]
    pub fn new(meta: &Metadata) -> (s: Self)
        ensures
            s@ == Seq::<TimeEntry>::empty(),
    {
        TimeSeries { series: Vec::with_capacity(meta.series_capacity()) }
    }

    /// The series of what `agent` and its minions and gadgets did while
    /// bosses were present.
    #[inline]
    pub fn parse_agent(meta: &Metadata, agent: &Agent) -> (s: Self)
        ensures
            s@ == series_of(
                picked(
                    within(meta.buffer().events@, meta.window().0, meta.window().1),
                    0,
                    comes_from_or_gadgets(agent.inner.id, agent.meta.instid),
                ),
                crate::metadata::ids(bosses_of(meta@, meta.boss_id())),
            ),
    {
        let mut series = Self::new(meta);
        let events = meta.encounter_events();
        let own = events.as_slice().from_agent_or_gadgets(agent).collect();
        assert(records_of(events@) =~= events@);
        series.parse(own.as_slice(), meta);
        assert(Seq::<TimeEntry>::empty() + series@ =~= series@);
        series
    }

    /// Adds the series of `events` to the series.
    #[inline]
    pub fn parse(&mut self, events: &[SourceEvent], meta: &Metadata)
        ensures
            final(self)@ == old(self)@ + series_of(
                records_of(events@),
                crate::metadata::ids(bosses_of(meta@, meta.boss_id())),
            ),
    {
        let bosses = meta.boss_ids();
        let ghost records = records_of(events@);
        let ghost before = self.series@;
        if events.len() == 0 {
            assert(self.series@ =~= before + series_of(records, bosses@));
            return ;
        }
        let mut entry = TimeEntry::with_time(events[0].time() / 1000);
        entry.parse_item(events[0], bosses.as_slice());
        let ghost mut closed: Seq<TimeEntry> = Seq::empty();
        proof {
            let first = records.take(1);
            assert(first.drop_last() =~= Seq::<CombatEventV1>::empty());
            assert(first.last() == events@[0]@);
            assert(sampled(first.drop_last(), bosses@) == (None::<TimeEntry>, closed));
            assert(sampled(first, bosses@) == (Some(entry), closed));
        }
        assert(self.series@ =~= before + closed);

        let mut i: usize = 1;
        while i < events.len()
            invariant
                1 <= i <= events.len(),
                records == records_of(events@),
                sampled(records.take(i as int), bosses@) == (Some(entry), closed),
                self.series@ == before + closed,
            decreases events.len() - i,
        {
            assert(records.take(i + 1).drop_last() =~= records.take(i as int));
            assert(records.take(i + 1).last() == events@[i as int]@);
            let e: SourceEvent = events[i];
            let second: u64 = e.time() / 1000;
            if entry.time != second {
                if entry.has_data() {
                    self.series.push(entry);
                    proof {
                        assert(self.series@ =~= before + closed.push(entry));
                        closed = closed.push(entry);
                    }
                }
                entry = TimeEntry::with_time(second);
            }
            entry.parse_item(e, bosses.as_slice());
            i += 1;
        }
        assert(records.take(events@.len() as int) =~= records);
        if entry.has_data() {
            self.series.push(entry);
            assert(self.series@ =~= before + closed.push(entry));
        }
    }

    /// The entries of the series.
    pub fn entries(&self) -> (r: &[TimeEntry])
        ensures
            r@ == self@,
    {
        self.series.as_slice()
    }
}

} // verus!
