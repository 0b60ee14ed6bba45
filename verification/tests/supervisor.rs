use relay_agent::error::AgentError;
use relay_agent::outcome::WorkerOutcome;
use relay_agent::supervisor::Supervisor;

fn failure(cause: &str) -> Result<(), String> {
    Err(cause.to_string())
}

#[test]
fn new_supervisor_holds_one_worker_per_replica_in_order() {
    let supervisor = Supervisor::new(vec![1000, 2000, 3000]);
    assert_eq!(supervisor.active(), &vec![1000, 2000, 3000]);
    assert_eq!(supervisor.verdict(), None);
}

#[test]
fn no_replicas_is_an_immediate_aggregate_failure() {
    let supervisor = Supervisor::new(Vec::new());
    assert!(supervisor.active().is_empty());
    assert_eq!(supervisor.verdict(), Some(AgentError::AllReplicasShutDown));
}

#[test]
fn single_failing_replica_terminates_after_one_logged_failure() {
    let mut supervisor = Supervisor::new(vec![60]);
    assert_eq!(supervisor.verdict(), None);
    let reaction = supervisor.complete(0, failure("connection refused"));
    assert_eq!(
        reaction.outcome,
        WorkerOutcome::Failed { chain_id: 60, cause: "connection refused".to_string() }
    );
    assert_eq!(
        reaction.log,
        Some("Replica shut down: Replica with ID 60 failed: connection refused".to_string())
    );
    assert_eq!(reaction.verdict, Some(AgentError::AllReplicasShutDown));
    assert!(supervisor.active().is_empty());
    assert_eq!(supervisor.verdict(), Some(AgentError::AllReplicasShutDown));
}

#[test]
fn single_finishing_replica_terminates_without_a_log_line() {
    let mut supervisor = Supervisor::new(vec![60]);
    let reaction = supervisor.complete(0, Ok(()));
    assert_eq!(reaction.outcome, WorkerOutcome::Finished);
    assert_eq!(reaction.log, None);
    assert_eq!(reaction.verdict, Some(AgentError::AllReplicasShutDown));
}

#[test]
fn two_failing_replicas_are_logged_in_order_of_failure() {
    // A sits in slot 0 and fails first; B then sits in slot 0 and fails second.
    let mut supervisor = Supervisor::new(vec![1, 2]);
    let mut log: Vec<String> = Vec::new();

    let first = supervisor.complete(0, failure("a down"));
    log.extend(first.log);
    assert_eq!(first.verdict, None);
    assert_eq!(supervisor.verdict(), None);
    assert_eq!(supervisor.active(), &vec![2]);

    let second = supervisor.complete(0, failure("b down"));
    log.extend(second.log);
    assert_eq!(second.verdict, Some(AgentError::AllReplicasShutDown));

    assert_eq!(
        log,
        vec![
            "Replica shut down: Replica with ID 1 failed: a down".to_string(),
            "Replica shut down: Replica with ID 2 failed: b down".to_string(),
        ]
    );
}

#[test]
fn second_replica_failing_first_is_logged_first() {
    let mut supervisor = Supervisor::new(vec![1, 2]);
    let first = supervisor.complete(1, failure("b down"));
    assert_eq!(
        first.log,
        Some("Replica shut down: Replica with ID 2 failed: b down".to_string())
    );
    assert_eq!(first.verdict, None);
    let second = supervisor.complete(0, failure("a down"));
    assert_eq!(
        second.log,
        Some("Replica shut down: Replica with ID 1 failed: a down".to_string())
    );
    assert_eq!(second.verdict, Some(AgentError::AllReplicasShutDown));
}

#[test]
fn a_failure_does_not_end_the_run_or_remove_siblings() {
    let mut supervisor = Supervisor::new(vec![10, 20, 30, 40]);
    let reaction = supervisor.complete(1, failure("rpc timeout"));
    assert_eq!(reaction.verdict, None);
    // The last worker takes the freed slot.
    assert_eq!(supervisor.active(), &vec![10, 40, 30]);
    let reaction = supervisor.complete(2, Ok(()));
    assert_eq!(reaction.verdict, None);
    assert_eq!(supervisor.active(), &vec![10, 40]);
}

#[test]
fn failure_is_tagged_with_the_id_of_the_slot_that_completed() {
    let mut supervisor = Supervisor::new(vec![7, 8, 9]);
    let reaction = supervisor.complete(0, failure("x"));
    assert_eq!(reaction.outcome, WorkerOutcome::Failed { chain_id: 7, cause: "x".to_string() });
    // Slot 0 now holds the worker of replica 9.
    let reaction = supervisor.complete(0, failure("y"));
    assert_eq!(reaction.outcome, WorkerOutcome::Failed { chain_id: 9, cause: "y".to_string() });
    let reaction = supervisor.complete(0, failure("z"));
    assert_eq!(reaction.outcome, WorkerOutcome::Failed { chain_id: 8, cause: "z".to_string() });
    assert_eq!(reaction.verdict, Some(AgentError::AllReplicasShutDown));
}

fn run_to_the_end(replicas: Vec<u32>, slots: &[usize], fail: &[bool]) -> (usize, Vec<String>, Option<AgentError>) {
    let mut supervisor = Supervisor::new(replicas);
    let mut removals = 0;
    let mut log = Vec::new();
    let mut verdict = supervisor.verdict();
    for (slot, fails) in slots.iter().zip(fail.iter()) {
        assert_eq!(verdict, None, "the run ended before the last completion");
        assert!(*slot < supervisor.active().len());
        let before = supervisor.active().len();
        let result = if *fails { failure("down") } else { Ok(()) };
        let reaction = supervisor.complete(*slot, result);
        assert_eq!(supervisor.active().len(), before - 1);
        removals += 1;
        log.extend(reaction.log);
        verdict = reaction.verdict;
    }
    (removals, log, verdict)
}

#[test]
fn three_replicas_take_exactly_three_removals_in_any_order() {
    let orders: [[usize; 3]; 6] =
        [[0, 0, 0], [0, 1, 0], [1, 0, 0], [1, 1, 0], [2, 0, 0], [2, 1, 0]];
    for order in orders.iter() {
        let (removals, _, verdict) = run_to_the_end(vec![11, 22, 33], order, &[true, true, true]);
        assert_eq!(removals, 3);
        assert_eq!(verdict, Some(AgentError::AllReplicasShutDown));
    }
}

#[test]
fn verdict_is_the_same_whatever_the_workers_return() {
    let outcomes: [[bool; 3]; 4] =
        [[false, false, false], [true, false, true], [false, true, false], [true, true, true]];
    for fail in outcomes.iter() {
        let (removals, log, verdict) = run_to_the_end(vec![11, 22, 33], &[1, 1, 0], fail);
        assert_eq!(removals, 3);
        assert_eq!(log.len(), fail.iter().filter(|f| **f).count());
        assert_eq!(verdict, Some(AgentError::AllReplicasShutDown));
        assert_eq!(
            verdict.map(|e| e.message()),
            Some("All replicas have shut down".to_string())
        );
    }
}

#[test]
fn each_failure_is_logged_under_its_own_replica() {
    let (_, log, _) = run_to_the_end(vec![11, 22, 33], &[2, 0, 0], &[true, true, true]);
    assert_eq!(
        log,
        vec![
            "Replica shut down: Replica with ID 33 failed: down".to_string(),
            "Replica shut down: Replica with ID 11 failed: down".to_string(),
            "Replica shut down: Replica with ID 22 failed: down".to_string(),
        ]
    );
}
