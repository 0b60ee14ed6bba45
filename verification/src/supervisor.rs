//! The supervisor of a set of replica workers.
//!
//! The supervisor holds the workers that have not ended yet, one slot each, and
//! is told of each completion by the slot it happened in. The caller owns the
//! running workers and keeps them in the same order: when the worker in a slot
//! ends, the last worker moves into that slot.

use crate::error::AgentError;
use crate::outcome::{log_of, outcome_of, report_error, result_view, WorkerOutcome};
use vstd::prelude::*;
use vstd::seq_lib::{to_multiset_insert, to_multiset_remove};

verus! {

/// The workers that are still running, by the chain identifier of their
/// replica.
#[derive(Clone, Debug, PartialEq, Eq)]
pub struct Supervisor {
    active: Vec<u32>,
}

/// What the supervisor makes of one completion.
#[derive(Clone, Debug, PartialEq, Eq)]
pub struct Reaction {
    /// The outcome of the worker that ended.
    pub outcome: WorkerOutcome,
    /// The line to log, if the worker failed.
    pub log: Option<String>,
    /// The error to end the run with, if no worker is left.
    pub verdict: Option<AgentError>,
}

impl View for Supervisor {
    type V = Seq<u32>;

    closed spec fn view(&self) -> Seq<u32> {
        self.active@
    }
}

/// The active set once the worker in slot `index` has been taken out: the last
/// worker takes the freed slot.
pub open spec fn active_after(active: Seq<u32>, index: int) -> Seq<u32>
    recommends
        0 <= index < active.len(),
{
    active.update(index, active.last()).drop_last()
}

/// Taking the worker out of slot `index` removes that worker and no other,
/// whatever the order in which the rest is kept.
pub proof fn lemma_active_after_removes_one(active: Seq<u32>, index: int)
    requires
        0 <= index < active.len(),
    ensures
        active_after(active, index).len() == active.len() - 1,
        active_after(active, index).to_multiset() == active.to_multiset().remove(active[index]),
{
    broadcast use {to_multiset_remove, to_multiset_insert};

    let last = active.len() - 1;
    if index == last {
        assert(active_after(active, index) =~= active.remove(index));
    } else {
        let rest = active.remove(index);
        assert(rest[last - 1] == active.last());
        let without_last = rest.remove(last - 1);
        assert(active_after(active, index) =~= without_last.insert(index, active.last()));
        assert(rest.to_multiset().count(active.last()) > 0) by {
            rest.to_multiset_ensures();
            assert(rest.contains(rest[last - 1]));
        }
        assert(without_last.insert(index, active.last()).to_multiset() =~= rest.to_multiset());
    }
}

/// The error a run ends with once no worker is left; none while one is.
pub open spec fn verdict_of(active: Seq<u32>) -> Option<AgentError> {
    if active.len() == 0 {
        Some(AgentError::AllReplicasShutDown)
    } else {
        None
    }
}

impl Supervisor {
    /// Takes charge of one worker per replica, in the order given.
    pub fn new(replicas: Vec<u32>) -> (supervisor: Supervisor)
        ensures
            supervisor@ == replicas@,
    {
        Supervisor { active: replicas }
    }

    /// The chain identifiers of the replicas whose workers are still running,
    /// slot by slot.
    pub fn active(&self) -> (active: &Vec<u32>)
        ensures
            active@ == self@,
    {
        &self.active
    }

    /// The error to end the run with: that all replicas have shut down, as soon
    /// as no worker is left, and none before.
    pub fn verdict(&self) -> (verdict: Option<AgentError>)
        ensures
            verdict == verdict_of(self@),
    {
        if self.active.len() == 0 {
            Some(AgentError::AllReplicasShutDown)
        } else {
            None
        }
    }

    /// Takes note that the worker in slot `index` has ended with `result`.
    ///
    /// The worker leaves the active set, whatever its result. A failure is
    /// tagged with the chain identifier of the worker's own replica and yields a
    /// line to log; it ends neither the run nor any other worker. The run ends
    /// when this was the last worker.
    pub fn complete(&mut self, index: usize, result: Result<(), String>) -> (reaction: Reaction)
        requires
            index < old(self)@.len(),
        ensures
            final(self)@ == active_after(old(self)@, index as int),
            reaction.outcome@ == outcome_of(old(self)@[index as int], result_view(result)),
            match reaction.log {
                Some(line) => log_of(reaction.outcome@) == Some(line@),
                None => log_of(reaction.outcome@) is None,
            },
            reaction.verdict == verdict_of(final(self)@),
    {
        let chain_id = self.active.swap_remove(index);
        let outcome = report_error(chain_id, result);
        let log = outcome.log_line();
        let verdict = self.verdict();
        Reaction { outcome, log, verdict }
    }
}

} // verus!
