//! Starting an agent from what its configuration could be turned into.
//!
//! The home is built first; only if that succeeds are the replicas built, all
//! at once. The agent starts only if every one of them could be built.

use crate::error::{AgentError, AgentErrorView};
use crate::supervisor::Supervisor;
use vstd::prelude::*;

verus! {

/// What came of building the replica configured under `name`: the chain
/// identifier of the replica, or the cause for which it could not be built.
#[derive(Debug, PartialEq, Eq)]
pub struct ReplicaSetup {
    pub name: String,
    pub result: Result<u32, String>,
}

/// Whether every replica could be built.
pub open spec fn all_built(setups: Seq<ReplicaSetup>) -> bool {
    forall|i: int| 0 <= i < setups.len() ==> (#[trigger] setups[i]).result is Ok
}

/// Whether `k` is the first entry that could not be built.
pub open spec fn is_first_failure(setups: Seq<ReplicaSetup>, k: int) -> bool {
    &&& 0 <= k < setups.len()
    &&& setups[k].result is Err
    &&& forall|j: int| 0 <= j < k ==> (#[trigger] setups[j]).result is Ok
}

/// The chain identifiers of the replicas built, in the order of the entries.
pub open spec fn chain_ids(setups: Seq<ReplicaSetup>) -> Seq<u32> {
    Seq::new(setups.len(), |i: int| setups[i].result->Ok_0)
}

/// The error for an entry that could not be built: it names the entry.
pub open spec fn construction_error(setup: ReplicaSetup) -> AgentErrorView
    recommends
        setup.result is Err,
{
    AgentErrorView::ReplicaConstruction { name: setup.name@, cause: setup.result->Err_0@ }
}

/// Decides on the result of building the home whether startup goes on. If the
/// home could not be built, startup ends here, before any replica is built.
pub fn home_constructed(result: Result<(), String>) -> (step: Result<(), AgentError>)
    ensures
        match result {
            Ok(_) => step is Ok,
            Err(cause) => step is Err && step->Err_0@ == (AgentErrorView::HomeConstruction {
                cause: cause@,
            }),
        },
{
    match result {
        Ok(_) => Ok(()),
        Err(cause) => Err(AgentError::HomeConstruction { cause }),
    }
}

/// Decides on the results of building the replicas whether the agent starts.
///
/// If all were built, one worker per replica is handed to a supervisor, in the
/// order of the entries. If any was not, no worker is started, and the error
/// names the first entry that failed.
pub fn replicas_constructed(results: Vec<ReplicaSetup>) -> (outcome: Result<Supervisor, AgentError>)
    ensures
        match outcome {
            Ok(supervisor) => all_built(results@) && supervisor@ == chain_ids(results@),
            Err(error) => exists|k: int|
                is_first_failure(results@, k) && error@ == construction_error(
                    #[trigger] results@[k],
                ),
        },
{
    let mut ids: Vec<u32> = Vec::new();
    let mut i: usize = 0;
    while i < results.len()
        invariant
            i <= results.len(),
            ids@.len() == i,
            forall|j: int|
                0 <= j < i ==> (#[trigger] results@[j]).result is Ok && ids@[j]
                    == results@[j].result->Ok_0,
        decreases results.len() - i,
    {
        match &results[i].result {
            Ok(id) => {
                ids.push(*id);
            },
            Err(cause) => {
                let error = AgentError::ReplicaConstruction {
                    name: results[i].name.clone(),
                    cause: cause.clone(),
                };
                assert(is_first_failure(results@, i as int));
                assert(error@ == construction_error(results@[i as int]));
                return Err(error);
            },
        }
        i += 1;
    }
    assert(ids@ =~= chain_ids(results@));
    Ok(Supervisor::new(ids))
}

} // verus!
