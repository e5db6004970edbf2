//! Statistics that are built by taking in one event after the other.

use vstd::prelude::*;

use crate::event::CastType;
use crate::event::HitType;
use crate::event::StateChange;
use crate::event::cast_of;
use crate::event::damage_of;
use crate::event::hit_type_of;
use crate::event::is_activation;
use crate::event::master_of;
use crate::event::raw::CombatEventV1;
use crate::event::raw::WEAPON_SWAP;
use crate::event::state_change_of;
use crate::event::typed::Activation;
use crate::event::typed::Damage;
use crate::event::typed::Event;
use crate::event::typed::Source;
use crate::table::Table;

verus! {

/// A sink for statistics.
pub trait Sink<T>: Sized {
    /// What the sink has gathered, as contracts speak of it.
    type State;

    /// True if the sink is fit to take events.
    spec fn wf(&self) -> bool;

    /// What the sink has gathered.
    spec fn state(&self) -> Self::State;

    /// What a sink that has gathered `state` has gathered after `e`.
    spec fn taken(state: Self::State, e: T) -> Self::State;

    /// Takes in one event.
    fn add_event(&mut self, e: T)
        requires
            old(self).wf(),
        ensures
            final(self).wf(),
            final(self).state() == Self::taken(old(self).state(), e),
    ;
}

/// What a sink has gathered after all of `events`, taken in order.
pub open spec fn taken_all<T, S: Sink<T>>(state: S::State, events: Seq<T>) -> S::State
    decreases events.len(),
{
    if events.len() == 0 {
        state
    } else {
        S::taken(taken_all::<T, S>(state, events.drop_last()), events.last())
    }
}

/// Feeds all of `events` to `sink`, in order.
pub fn feed<T: Copy, S: Sink<T>>(sink: &mut S, events: &[T])
    requires
        old(sink).wf(),
    ensures
        final(sink).wf(),
        final(sink).state() == taken_all::<T, S>(old(sink).state(), events@),
{
    let mut i: usize = 0;
    while i < events.len()
        invariant
            i <= events.len(),
            sink.wf(),
            sink.state() == taken_all::<T, S>(old(sink).state(), events@.take(i as int)),
        decreases events.len() - i,
    {
        assert(events@.take(i + 1).drop_last() =~= events@.take(i as int));
        sink.add_event(events[i]);
        i += 1;
    }
    assert(events@.take(events@.len() as int) =~= events@);
}

/// A sum cut off at the ends of `i64`.
pub open spec fn clamp64(n: int) -> i64 {
    if n > i64::MAX {
        i64::MAX
    } else if n < i64::MIN {
        i64::MIN
    } else {
        n as i64
    }
}

/// A count cut off at the largest `u32`.
pub open spec fn next_count(n: u32, counts: bool) -> u32 {
    if counts && n < u32::MAX {
        (n + 1) as u32
    } else {
        n
    }
}

/// Adds two numbers, stopping at the ends of `i64`.
pub fn add_clamped(a: i64, b: i64) -> (r: i64)
    ensures
        r == clamp64(a + b),
{
    if b > 0 && a > i64::MAX - b {
        i64::MAX
    } else if b < 0 && a < i64::MIN - b {
        i64::MIN
    } else {
        a + b
    }
}

/// Counts one more if `counts`, stopping at the largest `u32`.
pub fn count(n: u32, counts: bool) -> (r: u32)
    ensures
        r == next_count(n, counts),
{
    if counts && n < u32::MAX {
        n + 1
    } else {
        n
    }
}

/// The smallest damage of any hit, the largest `i64` while there was none.
#[derive(Clone, Copy, PartialEq, Eq, Structural, Debug)]
pub struct MinDamage(pub i64);

impl Default for MinDamage {
    fn default() -> (m: Self)
        ensures
            m.0 == i64::MAX,
    {
        MinDamage(i64::MAX)
    }
}

impl MinDamage {
    /// Takes in the damage of one more hit.
    pub fn add(&mut self, num: i64)
        ensures
            final(self).0 == if num < old(self).0 {
                num
            } else {
                old(self).0
            },
    {
        if num < self.0 {
            self.0 = num;
        }
    }

    /// The smallest damage of any hit, 0 if there was none.
    pub fn get(&self) -> (d: i64)
        ensures
            d == if self.0 == i64::MAX {
                0
            } else {
                self.0
            },
    {
        if self.0 == i64::MAX {
            0
        } else {
            self.0
        }
    }
}

/// Statistics for hits.
#[derive(Clone, Copy, PartialEq, Eq, Structural, Debug)]
pub struct Hits {
    /// Total physical damage.
    pub total_damage: i64,
    /// Total physical damage wasted being blocked, evaded, interrupted,
    /// absorbed or missed. Such hits do no damage, so nothing is wasted.
    pub wasted_damage: i64,
    /// Total number of hits.
    pub hits: u32,
    /// Number of critical hits.
    pub criticals: u32,
    /// Number of hits which were done while source was flanking target.
    pub flanking: u32,
    /// Number of hits while source is over 90% health.
    pub scholar: u32,
    /// Number of hits which were glancing hits.
    pub glancing: u32,
    /// Number of hits which were done while source was moving.
    pub moving: u32,
    /// Number of hits which were interrupted.
    pub interrupted: u32,
    /// Number of hits which got blocked by target.
    pub blocked: u32,
    /// Number of hits which got evaded by target.
    pub evaded: u32,
    /// Number of hits missed.
    pub missed: u32,
    /// Number of hits absorbed by target.
    pub absorbed: u32,
    /// Minimum hit damage.
    pub min_damage: MinDamage,
    /// Maximum hit damage.
    pub max_damage: i64,
}

impl Hits {
    /// Statistics of no hits.
    pub open spec fn none() -> Hits {
        Hits {
            total_damage: 0,
            wasted_damage: 0,
            hits: 0,
            criticals: 0,
            flanking: 0,
            scholar: 0,
            glancing: 0,
            moving: 0,
            interrupted: 0,
            blocked: 0,
            evaded: 0,
            missed: 0,
            absorbed: 0,
            min_damage: MinDamage(i64::MAX),
            max_damage: 0,
        }
    }

    /// The statistics after one more damage record. Every record counts as a
    /// hit. Its damage counts unless it was absorbed, and only damage that is
    /// not zero moves the smallest and the largest damage. All counts and sums
    /// stop at the ends of their types.
    pub open spec fn counted(self, e: CombatEventV1) -> Hits {
        let hit = hit_type_of(e);
        let damage = damage_of(e);
        let scores = hit != HitType::Absorb && damage != 0;
        Hits {
            total_damage: if hit != HitType::Absorb {
                clamp64(self.total_damage + damage)
            } else {
                self.total_damage
            },
            wasted_damage: self.wasted_damage,
            hits: next_count(self.hits, true),
            criticals: next_count(self.criticals, hit == HitType::Crit),
            flanking: next_count(self.flanking, e.is_flanking > 0),
            scholar: next_count(self.scholar, e.is_src_ninety > 0),
            glancing: next_count(self.glancing, hit == HitType::Glance),
            moving: next_count(self.moving, e.is_src_moving > 0),
            interrupted: next_count(self.interrupted, hit == HitType::Interrupt),
            blocked: next_count(self.blocked, hit == HitType::Block),
            evaded: next_count(self.evaded, hit == HitType::Evade),
            missed: next_count(self.missed, hit == HitType::Blind),
            absorbed: next_count(self.absorbed, hit == HitType::Absorb),
            min_damage: if scores && damage < self.min_damage.0 {
                MinDamage(damage)
            } else {
                self.min_damage
            },
            max_damage: if scores && damage > self.max_damage {
                damage
            } else {
                self.max_damage
            },
        }
    }
}

impl Default for Hits {
    fn default() -> (h: Self)
        ensures
            h == Hits::none(),
    {
        Hits {
            total_damage: 0,
            wasted_damage: 0,
            hits: 0,
            criticals: 0,
            flanking: 0,
            scholar: 0,
            glancing: 0,
            moving: 0,
            interrupted: 0,
            blocked: 0,
            evaded: 0,
            missed: 0,
            absorbed: 0,
            min_damage: MinDamage(i64::MAX),
            max_damage: 0,
        }
    }
}

impl<T: Damage> Sink<T> for Hits {
    type State = Hits;

    open spec fn wf(&self) -> bool {
        true
    }

    open spec fn state(&self) -> Hits {
        *self
    }

    open spec fn taken(state: Hits, e: T) -> Hits {
        state.counted(e.record())
    }

    #[inline]
    fn add_event(&mut self, e: T) {
        let hit_type = e.hit_type();
        let damage = e.damage();

        self.hits = count(self.hits, true);

        if hit_type != HitType::Absorb {
            self.total_damage = add_clamped(self.total_damage, damage);

            if damage != 0 {
                self.min_damage.add(damage);
                if damage > self.max_damage {
                    self.max_damage = damage;
                }
            }
        }
        self.flanking = count(self.flanking, e.flanking());
        self.moving = count(self.moving, e.moving());
        self.scholar = count(self.scholar, e.over90());

        match hit_type {
            HitType::Crit => {
                self.criticals = count(self.criticals, true);
            },
            HitType::Glance => {
                self.glancing = count(self.glancing, true);
            },
            HitType::Block => {
                self.blocked = count(self.blocked, true);
            },
            HitType::Evade => {
                self.evaded = count(self.evaded, true);
            },
            HitType::Interrupt => {
                self.interrupted = count(self.interrupted, true);
            },
            HitType::Absorb => {
                self.absorbed = count(self.absorbed, true);
            },
            HitType::Blind => {
                self.missed = count(self.missed, true);
            },
            _ => {},
        }
    }
}

/// Hit statistics for each skill, keyed by skill id, in the order in which the
/// skills were first seen.
pub struct Abilities {
    abilities: Table<Hits>,
}

/// What [`Abilities`] has gathered: the skills in the order in which they
/// were first seen, and the statistics of each.
pub struct AbilityStats {
    pub skills: Seq<u64>,
    pub hits: Seq<Hits>,
}

impl AbilityStats {
    /// The statistics after one more damage record: the record counts for its
    /// skill, which is added behind the others if it was not seen before.
    pub open spec fn counted(self, e: CombatEventV1) -> AbilityStats {
        let skill = e.skill_id as u64;
        if self.skills.contains(skill) {
            let at = self.skills.index_of(skill);
            AbilityStats { skills: self.skills, hits: self.hits.update(at, self.hits[at].counted(e)) }
        } else {
            AbilityStats {
                skills: self.skills.push(skill),
                hits: self.hits.push(Hits::none().counted(e)),
            }
        }
    }
}

impl Abilities {
    /// What has been gathered.
    pub closed spec fn view(&self) -> AbilityStats {
        AbilityStats { skills: self.abilities.keys(), hits: self.abilities.values() }
    }

    /// The lookup by skill agrees with the list of skills.
    pub closed spec fn well_formed(&self) -> bool {
        self.abilities.wf()
    }

    /// Statistics of no skill.
    pub fn new() -> (a: Self)
        ensures
            a.well_formed(),
            a@.skills == Seq::<u64>::empty(),
            a@.hits == Seq::<Hits>::empty(),
    {
        Abilities { abilities: Table::new() }
    }

    /// The number of skills.
    pub fn len(&self) -> (n: usize)
        requires
            self.well_formed(),
        ensures
            n == self@.skills.len(),
            n == self@.hits.len(),
    {
        self.abilities.len()
    }

    /// The statistics of the skill given, `None` if it did no damage.
    pub fn get(&self, skill: u16) -> (r: Option<Hits>)
        requires
            self.well_formed(),
        ensures
            r == if self@.skills.contains(skill as u64) {
                Some(self@.hits[self@.skills.index_of(skill as u64)])
            } else {
                None
            },
    {
        match self.abilities.position(skill as u64) {
            Some(at) => {
                proof {
                    self.abilities.lemma_shape();
                    assert(self@.skills.index_of(skill as u64) == at);
                }
                Some(*self.abilities.value_at(at))
            },
            None => None,
        }
    }

    /// Each skill with its statistics, in the order in which the skills were
    /// first seen.
    pub fn entries(&self) -> (r: Vec<(u16, Hits)>)
        requires
            self.well_formed(),
        ensures
            r@.len() == self@.skills.len(),
            forall|i: int|
                0 <= i < r@.len() ==> (#[trigger] r@[i]).0 == self@.skills[i] as u16 && r@[i].1
                    == self@.hits[i],
    {
        let n: usize = self.abilities.len();
        let mut r: Vec<(u16, Hits)> = Vec::new();
        let mut i: usize = 0;
        while i < n
            invariant
                i <= n,
                self.well_formed(),
                n == self.abilities.keys().len(),
                n == self.abilities.values().len(),
                r@.len() == i,
                forall|j: int|
                    0 <= j < i ==> (#[trigger] r@[j]).0 == self.abilities.keys()[j] as u16
                        && r@[j].1 == self.abilities.values()[j],
            decreases n - i,
        {
            r.push((self.abilities.key_at(i) as u16, *self.abilities.value_at(i)));
            i += 1;
        }
        r
    }
}

impl Default for Abilities {
    #[inline]
    fn default() -> (a: Self)
        ensures
            a.well_formed(),
            a@.skills == Seq::<u64>::empty(),
            a@.hits == Seq::<Hits>::empty(),
    {
        Abilities::new()
    }
}

impl<T: Damage> Sink<T> for Abilities {
    type State = AbilityStats;

    open spec fn wf(&self) -> bool {
        self.well_formed()
    }

    open spec fn state(&self) -> AbilityStats {
        self@
    }

    open spec fn taken(state: AbilityStats, e: T) -> AbilityStats {
        state.counted(e.record())
    }

    #[inline]
    fn add_event(&mut self, e: T) {
        let skill: u64 = e.skill() as u64;
        let at: usize = match self.abilities.position(skill) {
            Some(at) => at,
            None => self.abilities.push(skill, Hits::default()),
        };
        proof {
            self.abilities.lemma_shape();
            if old(self)@.skills.contains(skill) {
                assert(old(self)@.skills.index_of(skill) == at);
            }
        }
        let mut hits: Hits = *self.abilities.value_at(at);
        hits.add_event(e);
        self.abilities.set(at, hits);
        proof {
            if !old(self)@.skills.contains(skill) {
                assert(self@.hits =~= old(self)@.hits.push(Hits::none().counted(e.record())));
            }
        }
    }
}

/// One use of a skill, from the start of the animation to its end.
#[derive(Clone, Copy, PartialEq, Eq, Structural, Debug)]
pub struct ActivationEntry {
    /// Time at which the animation started.
    pub time: u64,
    /// The skill.
    pub skill: u16,
    /// True if the animation started under quickness.
    pub quickness: bool,
    /// True if the animation was canceled before the skill took effect.
    pub canceled: bool,
    /// How long the animation took, milliseconds.
    pub duration: u32,
}

/// What an activation log knows.
pub struct ActivationState {
    /// The start that waits for its end: time, skill and cast.
    pub last: Option<(u64, u16, CastType)>,
    /// The uses of skills that are complete.
    pub log: Seq<ActivationEntry>,
}

/// The entry that stands for a weapon swap at `time`.
pub open spec fn swap_entry(time: u64) -> ActivationEntry {
    ActivationEntry { time, skill: WEAPON_SWAP, quickness: false, canceled: false, duration: 0 }
}

/// True if a record is a weapon swap that the log has not just noted: it is a
/// weapon swap of an agent that has no master, and the last entry of the log
/// is not a weapon swap at the same time. Weapon swaps are sometimes logged
/// more than once.
pub open spec fn notes_swap(log: Seq<ActivationEntry>, e: CombatEventV1) -> bool {
    &&& state_change_of(e) == Some(StateChange::WeaponSwap)
    &&& master_of(e) is None
    &&& (if log.len() > 0 {
        (log.last().time, log.last().skill)
    } else {
        (0u64, 0u16)
    }) != (e.time, WEAPON_SWAP)
}

impl ActivationState {
    /// The state after a record of a source agent.
    ///
    /// A weapon swap is noted as an entry without duration. The start of an
    /// animation is kept until its end comes; the end of an animation of the
    /// same skill completes an entry, which carries the time of the start,
    /// whether it started under quickness, whether it was canceled before the
    /// skill took effect, and the duration that the end reports. An end of
    /// another skill, or one that no start waits for, is dropped.
    pub open spec fn logged(self, e: CombatEventV1) -> ActivationState {
        let log = if notes_swap(self.log, e) {
            self.log.push(swap_entry(e.time))
        } else {
            self.log
        };
        if !is_activation(e) {
            ActivationState { last: self.last, log }
        } else {
            match cast_of(e) {
                CastType::Normal(_) | CastType::Quickness(_) => ActivationState {
                    last: Some((e.time, e.skill_id, cast_of(e))),
                    log,
                },
                end => match self.last {
                    Some((time, skill, start)) => if skill != e.skill_id {
                        ActivationState { last: self.last, log }
                    } else {
                        ActivationState {
                            last: None,
                            log: log.push(
                                ActivationEntry {
                                    time,
                                    skill,
                                    quickness: start is Quickness,
                                    canceled: end is Cancel,
                                    duration: end.spec_duration(),
                                },
                            ),
                        }
                    },
                    None => ActivationState { last: self.last, log },
                },
            }
        }
    }
}

/// The uses of skills by one agent, in order.
#[derive(Clone, Debug)]
pub struct ActivationLog {
    last: Option<(u64, u16, CastType)>,
    log: Vec<ActivationEntry>,
}

impl ActivationLog {
    /// What the log knows.
    pub closed spec fn view(&self) -> ActivationState {
        ActivationState { last: self.last, log: self.log@ }
    }

    /// An empty log.
    pub fn new() -> (l: Self)
        ensures
            l@.last is None,
            l@.log == Seq::<ActivationEntry>::empty(),
    {
        ActivationLog { last: None, log: Vec::new() }
    }

    /// The uses of skills that are complete, in order.
    pub fn entries(&self) -> (r: &[ActivationEntry])
        ensures
            r@ == self@.log,
    {
        self.log.as_slice()
    }
}

impl Default for ActivationLog {
    fn default() -> (l: Self)
        ensures
            l@.last is None,
            l@.log == Seq::<ActivationEntry>::empty(),
    {
        ActivationLog::new()
    }
}

impl<T: Source> Sink<T> for ActivationLog {
    type State = ActivationState;

    open spec fn wf(&self) -> bool {
        true
    }

    open spec fn state(&self) -> ActivationState {
        self@
    }

    open spec fn taken(state: ActivationState, e: T) -> ActivationState {
        state.logged(e.record())
    }

    #[inline]
    fn add_event(&mut self, e: T) {
        let time: u64 = e.time();
        match e.state_change() {
            // Weapon swaps can happen for gadgets, minions and pets too, and
            // sometimes they are duplicated when using kits or conjures
            Some(StateChange::WeaponSwap) => {
                let n: usize = self.log.len();
                let noted: bool = n > 0 && self.log[n - 1].time == time && self.log[n - 1].skill
                    == WEAPON_SWAP;
                if e.master_instance().is_none() && !noted {
                    self.log.push(
                        ActivationEntry {
                            time,
                            skill: WEAPON_SWAP,
                            quickness: false,
                            canceled: false,
                            duration: 0,
                        },
                    );
                }
            },
            _ => {},
        }
        if let Some(a) = e.into_activation() {
            let cast = a.cast();
            let skill = a.skill();

            match cast {
                CastType::Normal(_) | CastType::Quickness(_) => {
                    self.last = Some((time, skill, cast));
                },
                x => {
                    if let Some((started, s, start)) = self.last {
                        if skill != s {
                            return ;
                        }
                        self.log.push(
                            ActivationEntry {
                                time: started,
                                skill,
                                quickness: if let CastType::Quickness(_) = start {
                                    true
                                } else {
                                    false
                                },
                                canceled: if let CastType::Cancel(_) = x {
                                    true
                                } else {
                                    false
                                },
                                duration: x.duration(),
                            },
                        );
                        self.last = None;
                    }
                },
            }
        }
    }
}

} // verus!
