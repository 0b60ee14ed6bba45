//! Whole runs of a supervisor: what holds after any sequence of completions.

use crate::error::AgentError;
use crate::outcome::{log_of, outcome_of, result_view, shutdown_log_line, WorkerOutcomeView};
use crate::supervisor::{active_after, lemma_active_after_removes_one, verdict_of, Supervisor};
use vstd::multiset::{lemma_multiset_empty_len, Multiset};
use vstd::prelude::*;
use vstd::seq_lib::to_multiset_build;

verus! {

/// One completion as the supervisor is told of it: the slot whose worker ended,
/// and what its processing routine returned.
#[derive(Debug, PartialEq, Eq)]
pub struct Completion {
    pub index: usize,
    pub result: Result<(), String>,
}

/// A [`Completion`] with its text as a sequence of characters.
pub struct CompletionView {
    pub index: int,
    pub result: Result<(), Seq<char>>,
}

impl View for Completion {
    type V = CompletionView;

    open spec fn view(&self) -> CompletionView {
        CompletionView { index: self.index as int, result: result_view(self.result) }
    }
}

/// The completions of a recording, each by its view.
pub open spec fn views(completions: Seq<Completion>) -> Seq<CompletionView> {
    Seq::new(completions.len(), |i: int| completions[i]@)
}

/// What came of replaying a recording.
#[derive(Debug, PartialEq, Eq)]
pub struct RunReport {
    /// The number of completions that took place, each of which removed one
    /// worker.
    pub removed: usize,
    /// The lines logged, in order.
    pub log: Vec<String>,
    /// The error the run ended with, if no worker was left.
    pub verdict: Option<AgentError>,
}

/// The lines of a log, each as a sequence of characters.
pub open spec fn lines(log: Seq<String>) -> Seq<Seq<char>> {
    Seq::new(log.len(), |i: int| log[i]@)
}

/// The active set after the completions `events`, starting from `start`.
pub open spec fn active_after_run(start: Seq<u32>, events: Seq<CompletionView>) -> Seq<u32>
    decreases events.len(),
{
    if events.len() == 0 {
        start
    } else {
        active_after(active_after_run(start, events.drop_last()), events.last().index)
    }
}

/// Whether the completions `events` can happen in this order when the run
/// starts from `start`: each names a slot that holds a worker at its time.
pub open spec fn possible(start: Seq<u32>, events: Seq<CompletionView>) -> bool
    decreases events.len(),
{
    events.len() == 0 || {
        &&& possible(start, events.drop_last())
        &&& 0 <= events.last().index < active_after_run(start, events.drop_last()).len()
    }
}

/// The replicas whose workers the completions `events` ended, in the order in
/// which they ended.
pub open spec fn ended_in_run(start: Seq<u32>, events: Seq<CompletionView>) -> Seq<u32>
    decreases events.len(),
{
    if events.len() == 0 {
        Seq::empty()
    } else {
        ended_in_run(start, events.drop_last()).push(
            active_after_run(start, events.drop_last())[events.last().index],
        )
    }
}

/// The outcome of the worker that the last of `events` ended.
pub open spec fn last_outcome(start: Seq<u32>, events: Seq<CompletionView>) -> WorkerOutcomeView
    recommends
        events.len() > 0,
        possible(start, events),
{
    outcome_of(
        active_after_run(start, events.drop_last())[events.last().index],
        events.last().result,
    )
}

/// The lines logged over the completions `events`, in the order they were
/// logged.
pub open spec fn log_of_run(start: Seq<u32>, events: Seq<CompletionView>) -> Seq<Seq<char>>
    decreases events.len(),
{
    if events.len() == 0 {
        Seq::empty()
    } else {
        let before = log_of_run(start, events.drop_last());
        match log_of(last_outcome(start, events)) {
            Some(line) => before.push(line),
            None => before,
        }
    }
}

/// The number of failures among the completions `events`.
pub open spec fn failures(events: Seq<CompletionView>) -> nat
    decreases events.len(),
{
    if events.len() == 0 {
        0
    } else if events.last().result is Err {
        failures(events.drop_last()) + 1
    } else {
        failures(events.drop_last())
    }
}

/// Each completion removes exactly one worker. A run over `start.len()`
/// replicas therefore cannot see more completions than that, and ends with the
/// last of them and not before, in whatever order the workers end and whatever
/// they return.
pub proof fn law_one_removal_per_completion(start: Seq<u32>, events: Seq<CompletionView>)
    requires
        possible(start, events),
    ensures
        events.len() <= start.len(),
        active_after_run(start, events).len() == start.len() - events.len(),
        verdict_of(active_after_run(start, events)) is Some <==> events.len() == start.len(),
    decreases events.len(),
{
    if events.len() > 0 {
        law_one_removal_per_completion(start, events.drop_last());
    }
}

proof fn lemma_empty_to_multiset(s: Seq<u32>)
    requires
        s.len() == 0,
    ensures
        s.to_multiset() == Multiset::<u32>::empty(),
{
    s.to_multiset_ensures();
    lemma_multiset_empty_len(s.to_multiset());
}

/// No worker is lost and none ends twice: at every point of a run, the workers
/// that have ended and those still active are together the workers the run
/// started with. Once none is active, those that ended are the replicas of the
/// start in some order.
pub proof fn law_each_worker_ends_once(start: Seq<u32>, events: Seq<CompletionView>)
    requires
        possible(start, events),
    ensures
        ended_in_run(start, events).len() == events.len(),
        ended_in_run(start, events).to_multiset().add(
            active_after_run(start, events).to_multiset(),
        ) == start.to_multiset(),
        events.len() == start.len() ==> ended_in_run(start, events).to_multiset()
            == start.to_multiset(),
    decreases events.len(),
{
    broadcast use to_multiset_build;

    if events.len() == 0 {
        lemma_empty_to_multiset(ended_in_run(start, events));
        assert(ended_in_run(start, events).to_multiset().add(start.to_multiset())
            =~= start.to_multiset());
    } else {
        let before = active_after_run(start, events.drop_last());
        let ended = ended_in_run(start, events.drop_last());
        let index = events.last().index;
        law_each_worker_ends_once(start, events.drop_last());
        lemma_active_after_removes_one(before, index);
        assert(before.to_multiset().count(before[index]) > 0) by {
            before.to_multiset_ensures();
            assert(before.contains(before[index]));
        }
        assert(ended.push(before[index]).to_multiset().add(
            before.to_multiset().remove(before[index]),
        ) =~= ended.to_multiset().add(before.to_multiset()));
    }
    law_one_removal_per_completion(start, events);
    if events.len() == start.len() {
        let active = active_after_run(start, events);
        lemma_empty_to_multiset(active);
        assert(ended_in_run(start, events).to_multiset().add(active.to_multiset())
            =~= ended_in_run(start, events).to_multiset());
    }
}

/// While the run goes on, every earlier point of it was still waiting: no
/// prefix of a possible run that is shorter than the number of replicas has a
/// verdict.
pub proof fn law_no_verdict_before_the_last(start: Seq<u32>, events: Seq<CompletionView>, k: int)
    requires
        possible(start, events),
        0 <= k <= events.len(),
        k < start.len(),
    ensures
        possible(start, events.take(k)),
        verdict_of(active_after_run(start, events.take(k))) is None,
    decreases events.len() - k,
{
    if k == events.len() {
        assert(events.take(k) =~= events);
    } else {
        lemma_prefix_possible(start, events, k);
    }
    law_one_removal_per_completion(start, events.take(k));
}

/// A prefix of a possible run is possible.
pub proof fn lemma_prefix_possible(start: Seq<u32>, events: Seq<CompletionView>, k: int)
    requires
        possible(start, events),
        0 <= k <= events.len(),
    ensures
        possible(start, events.take(k)),
    decreases events.len(),
{
    if k == events.len() {
        assert(events.take(k) =~= events);
    } else {
        assert(events.drop_last().take(k) =~= events.take(k));
        lemma_prefix_possible(start, events.drop_last(), k);
    }
}

/// The verdict of a run does not depend on the order in which the workers end
/// nor on what they return: once as many completions have come as there were
/// replicas, it is that all replicas have shut down.
pub proof fn law_verdict_is_order_independent(
    start: Seq<u32>,
    first: Seq<CompletionView>,
    second: Seq<CompletionView>,
)
    requires
        possible(start, first),
        possible(start, second),
        first.len() == start.len(),
        second.len() == start.len(),
    ensures
        verdict_of(active_after_run(start, first)) == Some(AgentError::AllReplicasShutDown),
        verdict_of(active_after_run(start, second)) == verdict_of(active_after_run(start, first)),
{
    law_one_removal_per_completion(start, first);
    law_one_removal_per_completion(start, second);
}

/// A run logs one line per failure and none for a worker that finished.
pub proof fn law_one_line_per_failure(start: Seq<u32>, events: Seq<CompletionView>)
    requires
        possible(start, events),
    ensures
        log_of_run(start, events).len() == failures(events),
    decreases events.len(),
{
    if events.len() > 0 {
        law_one_line_per_failure(start, events.drop_last());
    }
}

/// Lines are logged in the order of the completions: what was logged after the
/// first `k` completions is the beginning of what is logged in the end.
pub proof fn law_log_keeps_order(start: Seq<u32>, events: Seq<CompletionView>, k: int)
    requires
        possible(start, events),
        0 <= k <= events.len(),
    ensures
        log_of_run(start, events.take(k)).is_prefix_of(log_of_run(start, events)),
    decreases events.len(),
{
    if k == events.len() {
        assert(events.take(k) =~= events);
    } else {
        assert(events.drop_last().take(k) =~= events.take(k));
        law_log_keeps_order(start, events.drop_last(), k);
    }
}

/// The line logged for a failure is that of the replica whose worker sat in
/// the slot that completed, with the cause that the worker gave.
pub proof fn law_failure_is_logged_under_its_own_replica(
    start: Seq<u32>,
    events: Seq<CompletionView>,
    cause: Seq<char>,
)
    requires
        possible(start, events),
        events.len() > 0,
        events.last().result == Err::<(), Seq<char>>(cause),
    ensures
        log_of_run(start, events).len() > 0,
        log_of_run(start, events).last() == shutdown_log_line(
            active_after_run(start, events.drop_last())[events.last().index],
            cause,
        ),
{
}

/// Replays a recording of completions on a supervisor, in order.
///
/// The replay takes as many of the completions as can happen: it stops at the
/// first that names a slot without a worker, which every completion does once
/// no worker is left. It reports how many took place, what was logged, and the
/// verdict at that point.
pub fn replay(supervisor: &mut Supervisor, completions: &Vec<Completion>) -> (report: RunReport)
    ensures
        report.removed <= completions@.len(),
        possible(old(supervisor)@, views(completions@).take(report.removed as int)),
        report.removed < completions@.len() ==> !possible(
            old(supervisor)@,
            views(completions@).take(report.removed + 1),
        ),
        final(supervisor)@ == active_after_run(
            old(supervisor)@,
            views(completions@).take(report.removed as int),
        ),
        lines(report.log@) == log_of_run(
            old(supervisor)@,
            views(completions@).take(report.removed as int),
        ),
        report.verdict == verdict_of(final(supervisor)@),
        report.removed <= old(supervisor)@.len(),
        report.verdict is Some <==> report.removed == old(supervisor)@.len(),
{
    let ghost start = supervisor@;
    let ghost events = views(completions@);
    let mut log: Vec<String> = Vec::new();
    let mut removed: usize = 0;
    while removed < completions.len()
        invariant
            removed <= completions@.len(),
            events == views(completions@),
            possible(start, events.take(removed as int)),
            supervisor@ == active_after_run(start, events.take(removed as int)),
            lines(log@) == log_of_run(start, events.take(removed as int)),
        ensures
            removed <= completions@.len(),
            possible(start, events.take(removed as int)),
            removed < completions@.len() ==> !possible(start, events.take(removed + 1)),
            supervisor@ == active_after_run(start, events.take(removed as int)),
            lines(log@) == log_of_run(start, events.take(removed as int)),
        decreases completions.len() - removed,
    {
        let ghost before = events.take(removed as int);
        let ghost after = events.take(removed + 1);
        assert(after.drop_last() =~= before);
        assert(after.last() == completions@[removed as int]@);
        let index = completions[removed].index;
        if index >= supervisor.active().len() {
            break ;
        }
        let result = match &completions[removed].result {
            Ok(_) => Ok(()),
            Err(cause) => Err(cause.clone()),
        };
        assert(result_view(result) == after.last().result);
        let reaction = supervisor.complete(index, result);
        let ghost logged = lines(log@);
        match reaction.log {
            Some(line) => {
                log.push(line);
                assert(lines(log@) =~= logged.push(line@));
            },
            None => {
                assert(lines(log@) =~= logged);
            },
        }
        removed += 1;
    }
    proof {
        law_one_removal_per_completion(start, events.take(removed as int));
    }
    let verdict = supervisor.verdict();
    RunReport { removed, log, verdict }
}

} // verus!
