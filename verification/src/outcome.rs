//! What a replica worker hands back when its run ends, and the errors an agent
//! reports.

use crate::decimal::{
    decimal, decimal_string, is_digit, lemma_decimal_digits, lemma_decimal_injective,
};
use vstd::prelude::*;
use vstd::string::StringExecFns;

verus! {

/// The result of one replica worker's run.
///
/// A failure names the chain of the replica that failed, so that whoever reads
/// it later need not look into the cause to know whose it is.
#[derive(Clone, Debug, PartialEq, Eq)]
pub enum WorkerOutcome {
    /// The processing routine returned without an error.
    Finished,
    /// The processing routine failed on the replica with this chain identifier.
    Failed { chain_id: u32, cause: String },
}

/// A [`WorkerOutcome`] with its text as a sequence of characters.
pub enum WorkerOutcomeView {
    Finished,
    Failed { chain_id: u32, cause: Seq<char> },
}

impl View for WorkerOutcome {
    type V = WorkerOutcomeView;

    open spec fn view(&self) -> WorkerOutcomeView {
        match *self {
            WorkerOutcome::Finished => WorkerOutcomeView::Finished,
            WorkerOutcome::Failed { chain_id, cause } => WorkerOutcomeView::Failed {
                chain_id,
                cause: cause@,
            },
        }
    }
}

/// The outcome of a worker for the replica `chain_id` whose processing routine
/// returned `result`.
pub open spec fn outcome_of(chain_id: u32, result: Result<(), Seq<char>>) -> WorkerOutcomeView {
    match result {
        Ok(_) => WorkerOutcomeView::Finished,
        Err(cause) => WorkerOutcomeView::Failed { chain_id, cause },
    }
}

/// A processing routine's result with the cause as a sequence of characters.
pub open spec fn result_view(result: Result<(), String>) -> Result<(), Seq<char>> {
    match result {
        Ok(_) => Ok(()),
        Err(cause) => Err(cause@),
    }
}

/// The context put in front of a failure's cause: which replica failed.
pub open spec fn failure_context(chain_id: u32) -> Seq<char> {
    "Replica with ID "@ + decimal(chain_id as nat) + " failed"@
}

/// A failure in full: the context, then the cause.
pub open spec fn failure_report(chain_id: u32, cause: Seq<char>) -> Seq<char> {
    failure_context(chain_id) + ": "@ + cause
}

/// The line the supervisor logs when a worker fails.
pub open spec fn shutdown_log_line(chain_id: u32, cause: Seq<char>) -> Seq<char> {
    "Replica shut down: "@ + failure_report(chain_id, cause)
}

/// The line logged for an outcome, if it is a failure.
pub open spec fn log_of(outcome: WorkerOutcomeView) -> Option<Seq<char>> {
    match outcome {
        WorkerOutcomeView::Finished => None,
        WorkerOutcomeView::Failed { chain_id, cause } => Some(shutdown_log_line(chain_id, cause)),
    }
}

/// A logged line belongs to one replica and one cause: failures that are logged
/// with the same line are failures of the same replica, for the same cause.
pub proof fn law_log_line_names_one_replica(a: u32, cause_a: Seq<char>, b: u32, cause_b: Seq<char>)
    requires
        shutdown_log_line(a, cause_a) == shutdown_log_line(b, cause_b),
    ensures
        a == b,
        cause_a == cause_b,
{
    reveal_strlit("Replica shut down: ");
    reveal_strlit("Replica with ID ");
    reveal_strlit(" failed");
    reveal_strlit(": ");
    let head = "Replica shut down: "@ + "Replica with ID "@;
    let tail = " failed"@ + ": "@;
    let digits_a = decimal(a as nat);
    let digits_b = decimal(b as nat);
    let line_a = shutdown_log_line(a, cause_a);
    let line_b = shutdown_log_line(b, cause_b);
    assert(line_a =~= head + digits_a + tail + cause_a);
    assert(line_b =~= head + digits_b + tail + cause_b);
    lemma_decimal_digits(a as nat);
    lemma_decimal_digits(b as nat);
    let n = head.len() as int;
    // The digits end where the first character that is no digit stands.
    if digits_a.len() < digits_b.len() {
        let k = digits_a.len() as int;
        assert(line_a[n + k] == tail[0]);
        assert(line_b[n + k] == digits_b[k]);
        assert(is_digit(digits_b[k]));
        assert(false);
    }
    if digits_b.len() < digits_a.len() {
        let k = digits_b.len() as int;
        assert(line_b[n + k] == tail[0]);
        assert(line_a[n + k] == digits_a[k]);
        assert(is_digit(digits_a[k]));
        assert(false);
    }
    assert(digits_a =~= digits_b) by {
        assert forall|i: int| 0 <= i < digits_a.len() implies digits_a[i] == digits_b[i] by {
            assert(line_a[n + i] == digits_a[i]);
            assert(line_b[n + i] == digits_b[i]);
        }
    }
    lemma_decimal_injective(a as nat, b as nat);
    let m = n + digits_a.len() + tail.len();
    assert(cause_a =~= line_a.subrange(m, line_a.len() as int));
    assert(cause_b =~= line_b.subrange(m, line_b.len() as int));
}

/// Turns the result of a replica's processing routine into the worker's
/// outcome, tagging a failure with the replica's own chain identifier.
pub fn report_error(chain_id: u32, result: Result<(), String>) -> (outcome: WorkerOutcome)
    ensures
        outcome@ == outcome_of(chain_id, result_view(result)),
{
    match result {
        Ok(_) => WorkerOutcome::Finished,
        Err(cause) => WorkerOutcome::Failed { chain_id, cause },
    }
}

/// Writes the context of a failure of the replica `chain_id`.
pub fn failure_context_string(chain_id: u32) -> (text: String)
    ensures
        text@ == failure_context(chain_id),
{
    let mut text = String::from_str("Replica with ID ");
    let digits = decimal_string(chain_id);
    text.append(digits.as_str());
    text.append(" failed");
    text
}

impl WorkerOutcome {
    /// The line to log for this outcome: one for a failure, none otherwise.
    pub fn log_line(&self) -> (line: Option<String>)
        ensures
            match line {
                Some(text) => log_of(self@) == Some(text@),
                None => log_of(self@) is None,
            },
    {
        match self {
            WorkerOutcome::Finished => None,
            WorkerOutcome::Failed { chain_id, cause } => {
                let mut text = String::from_str("Replica shut down: ");
                let context = failure_context_string(*chain_id);
                text.append(context.as_str());
                text.append(": ");
                text.append(cause.as_str());
                assert(text@ =~= shutdown_log_line(*chain_id, cause@));
                Some(text)
            },
        }
    }
}

} // verus!
