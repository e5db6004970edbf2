//! Walks over events that pick out what concerns one agent or a set of
//! agents.

use vstd::prelude::*;

use crate::event::has_target;
use crate::event::is_meta;
use crate::event::master_of;
use crate::event::raw::CombatEventV1;
use crate::event::typed::Event;
use crate::event::typed::SourceEvent;
use crate::event::typed::TargetEvent;
use crate::metadata::Agent;
use crate::types::AgentId;
use crate::types::InstanceId;

verus! {

/// The records behind a sequence of events.
pub open spec fn records_of<T: Event>(events: Seq<T>) -> Seq<CombatEventV1> {
    Seq::new(events.len(), |i: int| events[i].record())
}

/// The position of the first record at or after `from` that `accepts`
/// holds of, the number of records if there is none.
pub open spec fn next_match(
    records: Seq<CombatEventV1>,
    from: int,
    accepts: spec_fn(CombatEventV1) -> bool,
) -> int
    decreases records.len() - from,
{
    if from < 0 || from >= records.len() {
        records.len() as int
    } else if accepts(records[from]) {
        from
    } else {
        next_match(records, from + 1, accepts)
    }
}

/// The records at or after `from` that `accepts` holds of, in order.
pub open spec fn picked(
    records: Seq<CombatEventV1>,
    from: int,
    accepts: spec_fn(CombatEventV1) -> bool,
) -> Seq<CombatEventV1>
    decreases records.len() - from,
{
    if from < 0 || from >= records.len() {
        Seq::empty()
    } else if accepts(records[from]) {
        seq![records[from]] + picked(records, from + 1, accepts)
    } else {
        picked(records, from + 1, accepts)
    }
}

/// What is picked from `from` on is the next match, if there is one, and what
/// is picked behind it.
pub proof fn lemma_picked(
    records: Seq<CombatEventV1>,
    from: int,
    accepts: spec_fn(CombatEventV1) -> bool,
)
    requires
        0 <= from,
    ensures
        from <= records.len() ==> from <= next_match(records, from, accepts) <= records.len(),
        next_match(records, from, accepts) < records.len() ==> accepts(
            records[next_match(records, from, accepts)],
        ) && picked(records, from, accepts) == seq![
            records[next_match(records, from, accepts)],
        ] + picked(records, next_match(records, from, accepts) + 1, accepts),
        next_match(records, from, accepts) >= records.len() ==> picked(records, from, accepts)
            == Seq::<CombatEventV1>::empty(),
        forall|i: int|
            0 <= i < picked(records, from, accepts).len() ==> accepts(
                #[trigger] picked(records, from, accepts)[i],
            ),
    decreases records.len() - from,
{
    if from < records.len() {
        lemma_picked(records, from + 1, accepts);
    }
}

/// The ids of a list of agents.
pub open spec fn ids_of(agents: Seq<&Agent>) -> Seq<AgentId> {
    Seq::new(agents.len(), |i: int| agents[i].inner.id)
}

/// The ids of a list of agents.
pub fn agent_ids(agents: &[&Agent]) -> (r: Vec<AgentId>)
    ensures
        r@ == ids_of(agents@),
{
    let mut r: Vec<AgentId> = Vec::new();
    let mut i: usize = 0;
    while i < agents.len()
        invariant
            i <= agents.len(),
            r@.len() == i,
            forall|j: int| 0 <= j < i ==> r@[j] == agents@[j].inner.id,
        decreases agents.len() - i,
    {
        r.push(agents[i].id());
        i += 1;
    }
    assert(r@ =~= ids_of(agents@));
    r
}

/// Events that come from the agent given.
pub open spec fn comes_from(agent: AgentId) -> spec_fn(CombatEventV1) -> bool {
    |e: CombatEventV1| !is_meta(e) && e.src_agent == agent.0
}

/// Events that come from the agent given or from one of its minions and
/// gadgets, which name the instance of the agent as their master.
pub open spec fn comes_from_or_gadgets(agent: AgentId, instance: InstanceId) -> spec_fn(
    CombatEventV1,
) -> bool {
    |e: CombatEventV1| !is_meta(e) && (e.src_agent == agent.0 || master_of(e) == Some(instance))
}

/// Events that come from one of the agents given.
pub open spec fn comes_from_any(agents: Seq<AgentId>) -> spec_fn(CombatEventV1) -> bool {
    |e: CombatEventV1| !is_meta(e) && agents.contains(AgentId(e.src_agent))
}

/// Events that are aimed at the agent given.
pub open spec fn aims_at(agent: AgentId) -> spec_fn(CombatEventV1) -> bool {
    |e: CombatEventV1| has_target(e) && e.dst_agent == agent.0
}

/// Events that are aimed at one of the agents given.
pub open spec fn aims_at_any(agents: Seq<AgentId>) -> spec_fn(CombatEventV1) -> bool {
    |e: CombatEventV1| has_target(e) && agents.contains(AgentId(e.dst_agent))
}

/// Events that come from the agent given or from one of its minions and
/// gadgets, or that are aimed at the agent.
pub open spec fn relates_to(agent: AgentId, instance: InstanceId) -> spec_fn(CombatEventV1) -> bool {
    |e: CombatEventV1|
        !is_meta(e) && (e.src_agent == agent.0 || master_of(e) == Some(instance) || (has_target(e)
            && e.dst_agent == agent.0))
}

/// Walk over the events that come from one agent.
pub struct FromAgentIterator<'a, T: Event + Copy> {
    agent_id: AgentId,
    inner: &'a [T],
    at: usize,
}

impl<'a, T: Event + Copy> FromAgentIterator<'a, T> {
    #[verifier::type_invariant]
    spec fn inv(&self) -> bool {
        self.at <= self.inner@.len()
    }

    /// The agent whose events are picked.
    pub closed spec fn agent(&self) -> AgentId {
        self.agent_id
    }

    /// The records of all events of the walk.
    pub closed spec fn records(&self) -> Seq<CombatEventV1> {
        records_of(self.inner@)
    }

    /// The number of events that the walk has passed.
    pub closed spec fn position(&self) -> int {
        self.at as int
    }

    /// The events that the walk picks.
    pub open spec fn accepts(&self) -> spec_fn(CombatEventV1) -> bool {
        comes_from(self.agent())
    }

    /// The next event that the walk picks, `None` if there is none left.
    pub fn next(&mut self) -> (r: Option<SourceEvent>)
        ensures
            final(self).records() == old(self).records(),
            final(self).agent() == old(self).agent(),
            final(self).position() == if r is Some {
                next_match(old(self).records(), old(self).position(), old(self).accepts()) + 1
            } else {
                old(self).records().len() as int
            },
            match r {
                Some(e) => {
                    let at = next_match(
                        old(self).records(),
                        old(self).position(),
                        old(self).accepts(),
                    );
                    at < old(self).records().len() && e@ == old(self).records()[at]
                },
                None => next_match(old(self).records(), old(self).position(), old(self).accepts())
                    == old(self).records().len(),
            },
    {
        proof {
            use_type_invariant(&*self);
        }
        while self.at < self.inner.len()
            invariant
                self.at <= self.inner@.len(),
                self.inner == old(self).inner,
                self.agent_id == old(self).agent_id,
                next_match(self.records(), self.at as int, self.accepts()) == next_match(
                    old(self).records(),
                    old(self).position(),
                    old(self).accepts(),
                ),
            decreases self.inner@.len() - self.at,
        {
            let e: T = self.inner[self.at];
            assert(self.records()[self.at as int] == e.record());
            self.at = self.at + 1;
            if let Some(e) = e.from_agent(self.agent_id) {
                return Some(e);
            }
        }
        None
    }

    /// All events that the walk still picks, in order.
    pub fn collect(self) -> (r: Vec<SourceEvent>)
        ensures
            records_of(r@) == picked(self.records(), self.position(), self.accepts()),
    {
        let mut walk = self;
        let mut r: Vec<SourceEvent> = Vec::new();
        proof {
            use_type_invariant(&walk);
        }
        loop
            invariant
                walk.records() == self.records(),
                walk.accepts() == self.accepts(),
                0 <= walk.position() <= walk.records().len(),
                records_of(r@) + picked(walk.records(), walk.position(), walk.accepts())
                    == picked(self.records(), self.position(), self.accepts()),
            ensures
                records_of(r@) == picked(self.records(), self.position(), self.accepts()),
            decreases walk.records().len() - walk.position(),
        {
            proof {
                lemma_picked(walk.records(), walk.position(), walk.accepts());
            }
            let ghost before = records_of(r@);
            match walk.next() {
                Some(e) => {
                    r.push(e);
                    assert(records_of(r@) =~= before + seq![e@]);
                },
                None => {
                    assert(records_of(r@) + Seq::<CombatEventV1>::empty() =~= records_of(r@));
                    break ;
                },
            }
        }
        r
    }
}

/// Walk over the events that come from one agent or from its minions and gadgets.
pub struct FromAgentGadgetsIterator<'a, T: Event + Copy> {
    agent_id: AgentId,
    instance: InstanceId,
    inner: &'a [T],
    at: usize,
}

impl<'a, T: Event + Copy> FromAgentGadgetsIterator<'a, T> {
    #[verifier::type_invariant]
    spec fn inv(&self) -> bool {
        self.at <= self.inner@.len()
    }

    /// The agent whose events are picked.
    pub closed spec fn agent(&self) -> AgentId {
        self.agent_id
    }

    /// The instance that minions and gadgets of the agent name as master.
    pub closed spec fn master(&self) -> InstanceId {
        self.instance
    }

    /// The records of all events of the walk.
    pub closed spec fn records(&self) -> Seq<CombatEventV1> {
        records_of(self.inner@)
    }

    /// The number of events that the walk has passed.
    pub closed spec fn position(&self) -> int {
        self.at as int
    }

    /// The events that the walk picks.
    pub open spec fn accepts(&self) -> spec_fn(CombatEventV1) -> bool {
        comes_from_or_gadgets(self.agent(), self.master())
    }

    /// The next event that the walk picks, `None` if there is none left.
    pub fn next(&mut self) -> (r: Option<SourceEvent>)
        ensures
            final(self).records() == old(self).records(),
            final(self).agent() == old(self).agent(),
            final(self).master() == old(self).master(),
            final(self).position() == if r is Some {
                next_match(old(self).records(), old(self).position(), old(self).accepts()) + 1
            } else {
                old(self).records().len() as int
            },
            match r {
                Some(e) => {
                    let at = next_match(
                        old(self).records(),
                        old(self).position(),
                        old(self).accepts(),
                    );
                    at < old(self).records().len() && e@ == old(self).records()[at]
                },
                None => next_match(old(self).records(), old(self).position(), old(self).accepts())
                    == old(self).records().len(),
            },
    {
        proof {
            use_type_invariant(&*self);
        }
        while self.at < self.inner.len()
            invariant
                self.at <= self.inner@.len(),
                self.inner == old(self).inner,
                self.agent_id == old(self).agent_id,
                self.instance == old(self).instance,
                next_match(self.records(), self.at as int, self.accepts()) == next_match(
                    old(self).records(),
                    old(self).position(),
                    old(self).accepts(),
                ),
            decreases self.inner@.len() - self.at,
        {
            let e: T = self.inner[self.at];
            assert(self.records()[self.at as int] == e.record());
            self.at = self.at + 1;
            if let Some(e) = e.from_agent_or_gadgets(self.agent_id, self.instance) {
                return Some(e);
            }
        }
        None
    }

    /// All events that the walk still picks, in order.
    pub fn collect(self) -> (r: Vec<SourceEvent>)
        ensures
            records_of(r@) == picked(self.records(), self.position(), self.accepts()),
    {
        let mut walk = self;
        let mut r: Vec<SourceEvent> = Vec::new();
        proof {
            use_type_invariant(&walk);
        }
        loop
            invariant
                walk.records() == self.records(),
                walk.accepts() == self.accepts(),
                0 <= walk.position() <= walk.records().len(),
                records_of(r@) + picked(walk.records(), walk.position(), walk.accepts())
                    == picked(self.records(), self.position(), self.accepts()),
            ensures
                records_of(r@) == picked(self.records(), self.position(), self.accepts()),
            decreases walk.records().len() - walk.position(),
        {
            proof {
                lemma_picked(walk.records(), walk.position(), walk.accepts());
            }
            let ghost before = records_of(r@);
            match walk.next() {
                Some(e) => {
                    r.push(e);
                    assert(records_of(r@) =~= before + seq![e@]);
                },
                None => {
                    assert(records_of(r@) + Seq::<CombatEventV1>::empty() =~= records_of(r@));
                    break ;
                },
            }
        }
        r
    }
}

/// Walk over the events that come from one of a set of agents.
pub struct FromAgentsIterator<'a, T: Event + Copy> {
    agents: &'a [AgentId],
    inner: &'a [T],
    at: usize,
}

impl<'a, T: Event + Copy> FromAgentsIterator<'a, T> {
    #[verifier::type_invariant]
    spec fn inv(&self) -> bool {
        self.at <= self.inner@.len()
    }

    /// The agents whose events are picked.
    pub closed spec fn agents(&self) -> Seq<AgentId> {
        self.agents@
    }

    /// The records of all events of the walk.
    pub closed spec fn records(&self) -> Seq<CombatEventV1> {
        records_of(self.inner@)
    }

    /// The number of events that the walk has passed.
    pub closed spec fn position(&self) -> int {
        self.at as int
    }

    /// The events that the walk picks.
    pub open spec fn accepts(&self) -> spec_fn(CombatEventV1) -> bool {
        comes_from_any(self.agents())
    }

    /// The next event that the walk picks, `None` if there is none left.
    pub fn next(&mut self) -> (r: Option<SourceEvent>)
        ensures
            final(self).records() == old(self).records(),
            final(self).agents() == old(self).agents(),
            final(self).position() == if r is Some {
                next_match(old(self).records(), old(self).position(), old(self).accepts()) + 1
            } else {
                old(self).records().len() as int
            },
            match r {
                Some(e) => {
                    let at = next_match(
                        old(self).records(),
                        old(self).position(),
                        old(self).accepts(),
                    );
                    at < old(self).records().len() && e@ == old(self).records()[at]
                },
                None => next_match(old(self).records(), old(self).position(), old(self).accepts())
                    == old(self).records().len(),
            },
    {
        proof {
            use_type_invariant(&*self);
        }
        while self.at < self.inner.len()
            invariant
                self.at <= self.inner@.len(),
                self.inner == old(self).inner,
                self.agents == old(self).agents,
                next_match(self.records(), self.at as int, self.accepts()) == next_match(
                    old(self).records(),
                    old(self).position(),
                    old(self).accepts(),
                ),
            decreases self.inner@.len() - self.at,
        {
            let e: T = self.inner[self.at];
            assert(self.records()[self.at as int] == e.record());
            self.at = self.at + 1;
            if let Some(e) = e.from_any_of(self.agents) {
                return Some(e);
            }
        }
        None
    }

    /// All events that the walk still picks, in order.
    pub fn collect(self) -> (r: Vec<SourceEvent>)
        ensures
            records_of(r@) == picked(self.records(), self.position(), self.accepts()),
    {
        let mut walk = self;
        let mut r: Vec<SourceEvent> = Vec::new();
        proof {
            use_type_invariant(&walk);
        }
        loop
            invariant
                walk.records() == self.records(),
                walk.accepts() == self.accepts(),
                0 <= walk.position() <= walk.records().len(),
                records_of(r@) + picked(walk.records(), walk.position(), walk.accepts())
                    == picked(self.records(), self.position(), self.accepts()),
            ensures
                records_of(r@) == picked(self.records(), self.position(), self.accepts()),
            decreases walk.records().len() - walk.position(),
        {
            proof {
                lemma_picked(walk.records(), walk.position(), walk.accepts());
            }
            let ghost before = records_of(r@);
            match walk.next() {
                Some(e) => {
                    r.push(e);
                    assert(records_of(r@) =~= before + seq![e@]);
                },
                None => {
                    assert(records_of(r@) + Seq::<CombatEventV1>::empty() =~= records_of(r@));
                    break ;
                },
            }
        }
        r
    }
}

/// Walk over the events that are aimed at one agent.
pub struct TargetingAgentIterator<'a, T: Event + Copy> {
    agent_id: AgentId,
    inner: &'a [T],
    at: usize,
}

impl<'a, T: Event + Copy> TargetingAgentIterator<'a, T> {
    #[verifier::type_invariant]
    spec fn inv(&self) -> bool {
        self.at <= self.inner@.len()
    }

    /// The agent at which the events are aimed.
    pub closed spec fn agent(&self) -> AgentId {
        self.agent_id
    }

    /// The records of all events of the walk.
    pub closed spec fn records(&self) -> Seq<CombatEventV1> {
        records_of(self.inner@)
    }

    /// The number of events that the walk has passed.
    pub closed spec fn position(&self) -> int {
        self.at as int
    }

    /// The events that the walk picks.
    pub open spec fn accepts(&self) -> spec_fn(CombatEventV1) -> bool {
        aims_at(self.agent())
    }

    /// The next event that the walk picks, `None` if there is none left.
    pub fn next(&mut self) -> (r: Option<TargetEvent>)
        ensures
            final(self).records() == old(self).records(),
            final(self).agent() == old(self).agent(),
            final(self).position() == if r is Some {
                next_match(old(self).records(), old(self).position(), old(self).accepts()) + 1
            } else {
                old(self).records().len() as int
            },
            match r {
                Some(e) => {
                    let at = next_match(
                        old(self).records(),
                        old(self).position(),
                        old(self).accepts(),
                    );
                    at < old(self).records().len() && e@ == old(self).records()[at]
                },
                None => next_match(old(self).records(), old(self).position(), old(self).accepts())
                    == old(self).records().len(),
            },
    {
        proof {
            use_type_invariant(&*self);
        }
        while self.at < self.inner.len()
            invariant
                self.at <= self.inner@.len(),
                self.inner == old(self).inner,
                self.agent_id == old(self).agent_id,
                next_match(self.records(), self.at as int, self.accepts()) == next_match(
                    old(self).records(),
                    old(self).position(),
                    old(self).accepts(),
                ),
            decreases self.inner@.len() - self.at,
        {
            let e: T = self.inner[self.at];
            assert(self.records()[self.at as int] == e.record());
            self.at = self.at + 1;
            if let Some(e) = e.targeting_agent(self.agent_id) {
                return Some(e);
            }
        }
        None
    }

    /// All events that the walk still picks, in order.
    pub fn collect(self) -> (r: Vec<TargetEvent>)
        ensures
            records_of(r@) == picked(self.records(), self.position(), self.accepts()),
    {
        let mut walk = self;
        let mut r: Vec<TargetEvent> = Vec::new();
        proof {
            use_type_invariant(&walk);
        }
        loop
            invariant
                walk.records() == self.records(),
                walk.accepts() == self.accepts(),
                0 <= walk.position() <= walk.records().len(),
                records_of(r@) + picked(walk.records(), walk.position(), walk.accepts())
                    == picked(self.records(), self.position(), self.accepts()),
            ensures
                records_of(r@) == picked(self.records(), self.position(), self.accepts()),
            decreases walk.records().len() - walk.position(),
        {
            proof {
                lemma_picked(walk.records(), walk.position(), walk.accepts());
            }
            let ghost before = records_of(r@);
            match walk.next() {
                Some(e) => {
                    r.push(e);
                    assert(records_of(r@) =~= before + seq![e@]);
                },
                None => {
                    assert(records_of(r@) + Seq::<CombatEventV1>::empty() =~= records_of(r@));
                    break ;
                },
            }
        }
        r
    }
}

/// Walk over the events that are aimed at one of a set of agents.
pub struct TargetingAgents<'a, T: Event + Copy> {
    agents: &'a [AgentId],
    inner: &'a [T],
    at: usize,
}

impl<'a, T: Event + Copy> TargetingAgents<'a, T> {
    #[verifier::type_invariant]
    spec fn inv(&self) -> bool {
        self.at <= self.inner@.len()
    }

    /// The agents at which the events are aimed.
    pub closed spec fn agents(&self) -> Seq<AgentId> {
        self.agents@
    }

    /// The records of all events of the walk.
    pub closed spec fn records(&self) -> Seq<CombatEventV1> {
        records_of(self.inner@)
    }

    /// The number of events that the walk has passed.
    pub closed spec fn position(&self) -> int {
        self.at as int
    }

    /// The events that the walk picks.
    pub open spec fn accepts(&self) -> spec_fn(CombatEventV1) -> bool {
        aims_at_any(self.agents())
    }

    /// The next event that the walk picks, `None` if there is none left.
    pub fn next(&mut self) -> (r: Option<TargetEvent>)
        ensures
            final(self).records() == old(self).records(),
            final(self).agents() == old(self).agents(),
            final(self).position() == if r is Some {
                next_match(old(self).records(), old(self).position(), old(self).accepts()) + 1
            } else {
                old(self).records().len() as int
            },
            match r {
                Some(e) => {
                    let at = next_match(
                        old(self).records(),
                        old(self).position(),
                        old(self).accepts(),
                    );
                    at < old(self).records().len() && e@ == old(self).records()[at]
                },
                None => next_match(old(self).records(), old(self).position(), old(self).accepts())
                    == old(self).records().len(),
            },
    {
        proof {
            use_type_invariant(&*self);
        }
        while self.at < self.inner.len()
            invariant
                self.at <= self.inner@.len(),
                self.inner == old(self).inner,
                self.agents == old(self).agents,
                next_match(self.records(), self.at as int, self.accepts()) == next_match(
                    old(self).records(),
                    old(self).position(),
                    old(self).accepts(),
                ),
            decreases self.inner@.len() - self.at,
        {
            let e: T = self.inner[self.at];
            assert(self.records()[self.at as int] == e.record());
            self.at = self.at + 1;
            if let Some(e) = e.targeting_any_of(self.agents) {
                return Some(e);
            }
        }
        None
    }

    /// All events that the walk still picks, in order.
    pub fn collect(self) -> (r: Vec<TargetEvent>)
        ensures
            records_of(r@) == picked(self.records(), self.position(), self.accepts()),
    {
        let mut walk = self;
        let mut r: Vec<TargetEvent> = Vec::new();
        proof {
            use_type_invariant(&walk);
        }
        loop
            invariant
                walk.records() == self.records(),
                walk.accepts() == self.accepts(),
                0 <= walk.position() <= walk.records().len(),
                records_of(r@) + picked(walk.records(), walk.position(), walk.accepts())
                    == picked(self.records(), self.position(), self.accepts()),
            ensures
                records_of(r@) == picked(self.records(), self.position(), self.accepts()),
            decreases walk.records().len() - walk.position(),
        {
            proof {
                lemma_picked(walk.records(), walk.position(), walk.accepts());
            }
            let ghost before = records_of(r@);
            match walk.next() {
                Some(e) => {
                    r.push(e);
                    assert(records_of(r@) =~= before + seq![e@]);
                },
                None => {
                    assert(records_of(r@) + Seq::<CombatEventV1>::empty() =~= records_of(r@));
                    break ;
                },
            }
        }
        r
    }
}

/// Walk over the events that come from one agent, from its minions and gadgets, or that are aimed at the agent.
pub struct RelatingToAgentIterator<'a, T: Event + Copy> {
    agent_id: AgentId,
    instance: InstanceId,
    inner: &'a [T],
    at: usize,
}

impl<'a, T: Event + Copy> RelatingToAgentIterator<'a, T> {
    #[verifier::type_invariant]
    spec fn inv(&self) -> bool {
        self.at <= self.inner@.len()
    }

    /// The agent whose events are picked.
    pub closed spec fn agent(&self) -> AgentId {
        self.agent_id
    }

    /// The instance that minions and gadgets of the agent name as master.
    pub closed spec fn master(&self) -> InstanceId {
        self.instance
    }

    /// The records of all events of the walk.
    pub closed spec fn records(&self) -> Seq<CombatEventV1> {
        records_of(self.inner@)
    }

    /// The number of events that the walk has passed.
    pub closed spec fn position(&self) -> int {
        self.at as int
    }

    /// The events that the walk picks.
    pub open spec fn accepts(&self) -> spec_fn(CombatEventV1) -> bool {
        relates_to(self.agent(), self.master())
    }

    /// The next event that the walk picks, `None` if there is none left.
    pub fn next(&mut self) -> (r: Option<SourceEvent>)
        ensures
            final(self).records() == old(self).records(),
            final(self).agent() == old(self).agent(),
            final(self).master() == old(self).master(),
            final(self).position() == if r is Some {
                next_match(old(self).records(), old(self).position(), old(self).accepts()) + 1
            } else {
                old(self).records().len() as int
            },
            match r {
                Some(e) => {
                    let at = next_match(
                        old(self).records(),
                        old(self).position(),
                        old(self).accepts(),
                    );
                    at < old(self).records().len() && e@ == old(self).records()[at]
                },
                None => next_match(old(self).records(), old(self).position(), old(self).accepts())
                    == old(self).records().len(),
            },
    {
        proof {
            use_type_invariant(&*self);
        }
        while self.at < self.inner.len()
            invariant
                self.at <= self.inner@.len(),
                self.inner == old(self).inner,
                self.agent_id == old(self).agent_id,
                self.instance == old(self).instance,
                next_match(self.records(), self.at as int, self.accepts()) == next_match(
                    old(self).records(),
                    old(self).position(),
                    old(self).accepts(),
                ),
            decreases self.inner@.len() - self.at,
        {
            let e: T = self.inner[self.at];
            assert(self.records()[self.at as int] == e.record());
            self.at = self.at + 1;
            if let Some(e) = e.into_source() {
                if let Some(e) = e.from_agent_or_gadgets(self.agent_id, self.instance) {
                    return Some(e);
                }
                if let Some(_) = e.targeting_agent(self.agent_id) {
                    return Some(e);
                }
            }
        }
        None
    }

    /// All events that the walk still picks, in order.
    pub fn collect(self) -> (r: Vec<SourceEvent>)
        ensures
            records_of(r@) == picked(self.records(), self.position(), self.accepts()),
    {
        let mut walk = self;
        let mut r: Vec<SourceEvent> = Vec::new();
        proof {
            use_type_invariant(&walk);
        }
        loop
            invariant
                walk.records() == self.records(),
                walk.accepts() == self.accepts(),
                0 <= walk.position() <= walk.records().len(),
                records_of(r@) + picked(walk.records(), walk.position(), walk.accepts())
                    == picked(self.records(), self.position(), self.accepts()),
            ensures
                records_of(r@) == picked(self.records(), self.position(), self.accepts()),
            decreases walk.records().len() - walk.position(),
        {
            proof {
                lemma_picked(walk.records(), walk.position(), walk.accepts());
            }
            let ghost before = records_of(r@);
            match walk.next() {
                Some(e) => {
                    r.push(e);
                    assert(records_of(r@) =~= before + seq![e@]);
                },
                None => {
                    assert(records_of(r@) + Seq::<CombatEventV1>::empty() =~= records_of(r@));
                    break ;
                },
            }
        }
        r
    }
}

/// Walks over a run of events.
pub trait EventIteratorExt<'a, T: Event + Copy>: Sized {
    /// The records of the events.
    spec fn all(&self) -> Seq<CombatEventV1>;

    /// The events that come from `agent`.
    fn from_agent(self, agent: &Agent) -> (r: FromAgentIterator<'a, T>)
        ensures
            r.records() == self.all(),
            r.position() == 0,
            r.agent() == agent.inner.id,
    ;

    /// The events that come from `agent` or from its minions and gadgets.
    fn from_agent_or_gadgets(self, agent: &Agent) -> (r: FromAgentGadgetsIterator<'a, T>)
        ensures
            r.records() == self.all(),
            r.position() == 0,
            r.agent() == agent.inner.id,
            r.master() == agent.meta.instid,
    ;

    /// The events that come from one of `agents`.
    fn from_any_of(self, agents: &'a [AgentId]) -> (r: FromAgentsIterator<'a, T>)
        ensures
            r.records() == self.all(),
            r.position() == 0,
            r.agents() == agents@,
    ;

    /// The events that are aimed at `agent`.
    fn targeting(self, agent: &Agent) -> (r: TargetingAgentIterator<'a, T>)
        ensures
            r.records() == self.all(),
            r.position() == 0,
            r.agent() == agent.inner.id,
    ;

    /// The events that have to do with `agent`: those that come from it or
    /// from its minions and gadgets, and those that are aimed at it.
    fn related_to(self, agent: &Agent) -> (r: RelatingToAgentIterator<'a, T>)
        ensures
            r.records() == self.all(),
            r.position() == 0,
            r.agent() == agent.inner.id,
            r.master() == agent.meta.instid,
    ;

    /// The events that are aimed at one of `agents`.
    fn targeting_any_of(self, agents: &'a [AgentId]) -> (r: TargetingAgents<'a, T>)
        ensures
            r.records() == self.all(),
            r.position() == 0,
            r.agents() == agents@,
    ;
}

impl<'a, T: Event + Copy> EventIteratorExt<'a, T> for &'a [T] {
    open spec fn all(&self) -> Seq<CombatEventV1> {
        records_of(self@)
    }

    #[inline]
    fn from_agent(self, agent: &Agent) -> (r: FromAgentIterator<'a, T>) {
        FromAgentIterator { agent_id: agent.id(), inner: self, at: 0 }
    }

    #[inline]
    fn from_agent_or_gadgets(self, agent: &Agent) -> (r: FromAgentGadgetsIterator<'a, T>) {
        FromAgentGadgetsIterator {
            agent_id: agent.id(),
            instance: agent.instance_id(),
            inner: self,
            at: 0,
        }
    }

    fn from_any_of(self, agents: &'a [AgentId]) -> (r: FromAgentsIterator<'a, T>) {
        FromAgentsIterator { agents, inner: self, at: 0 }
    }

    #[inline]
    fn targeting(self, agent: &Agent) -> (r: TargetingAgentIterator<'a, T>) {
        TargetingAgentIterator { agent_id: agent.id(), inner: self, at: 0 }
    }

    #[inline]
    fn related_to(self, agent: &Agent) -> (r: RelatingToAgentIterator<'a, T>) {
        RelatingToAgentIterator {
            agent_id: agent.id(),
            instance: agent.instance_id(),
            inner: self,
            at: 0,
        }
    }

    #[inline]
    fn targeting_any_of(self, agents: &'a [AgentId]) -> (r: TargetingAgents<'a, T>) {
        TargetingAgents { agents, inner: self, at: 0 }
    }
}

} // verus!
