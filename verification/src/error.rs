//! The errors with which an agent gives up.

use vstd::prelude::*;
use vstd::string::StringExecFns;

verus! {

/// Why an agent stopped, or never started.
#[derive(Clone, Debug, PartialEq, Eq)]
pub enum AgentError {
    /// Every replica worker has ended, so nothing is left to serve.
    AllReplicasShutDown,
    /// The home could not be built from its configuration.
    HomeConstruction { cause: String },
    /// The replica configured under `name` could not be built.
    ReplicaConstruction { name: String, cause: String },
}

/// An [`AgentError`] with its text as sequences of characters.
pub enum AgentErrorView {
    AllReplicasShutDown,
    HomeConstruction { cause: Seq<char> },
    ReplicaConstruction { name: Seq<char>, cause: Seq<char> },
}

impl View for AgentError {
    type V = AgentErrorView;

    open spec fn view(&self) -> AgentErrorView {
        match *self {
            AgentError::AllReplicasShutDown => AgentErrorView::AllReplicasShutDown,
            AgentError::HomeConstruction { cause } => AgentErrorView::HomeConstruction {
                cause: cause@,
            },
            AgentError::ReplicaConstruction { name, cause } => AgentErrorView::ReplicaConstruction {
                name: name@,
                cause: cause@,
            },
        }
    }
}

/// What an error says of itself, without its cause.
pub open spec fn message_of(error: AgentErrorView) -> Seq<char> {
    match error {
        AgentErrorView::AllReplicasShutDown => "All replicas have shut down"@,
        AgentErrorView::HomeConstruction { cause } => "failed to instantiate Home"@,
        AgentErrorView::ReplicaConstruction { name, cause } => "Failed to instantiate replica named "@
            + name,
    }
}

impl AgentError {
    /// What this error says of itself, without its cause.
    pub fn message(&self) -> (text: String)
        ensures
            text@ == message_of(self@),
    {
        match self {
            AgentError::AllReplicasShutDown => String::from_str("All replicas have shut down"),
            AgentError::HomeConstruction { cause } => String::from_str("failed to instantiate Home"),
            AgentError::ReplicaConstruction { name, cause } => {
                let mut text = String::from_str("Failed to instantiate replica named ");
                text.append(name.as_str());
                text
            },
        }
    }
}

} // verus!
