use relay_agent::decimal::decimal_string;
use relay_agent::error::AgentError;
use relay_agent::outcome::{failure_context_string, report_error, WorkerOutcome};

#[test]
fn decimal_of_single_digits() {
    for (n, text) in ["0", "1", "2", "3", "4", "5", "6", "7", "8", "9"].iter().enumerate() {
        assert_eq!(decimal_string(n as u32), text.to_string());
    }
}

#[test]
fn decimal_of_longer_numbers() {
    assert_eq!(decimal_string(10), "10");
    assert_eq!(decimal_string(99), "99");
    assert_eq!(decimal_string(100), "100");
    assert_eq!(decimal_string(1009), "1009");
    assert_eq!(decimal_string(6648936), "6648936");
    assert_eq!(decimal_string(u32::MAX), "4294967295");
}

#[test]
fn decimal_agrees_with_display() {
    let mut n: u32 = 1;
    while n < 400_000_000 {
        assert_eq!(decimal_string(n), n.to_string());
        assert_eq!(decimal_string(n - 1), (n - 1).to_string());
        n = n * 7 + 3;
    }
}

#[test]
fn report_error_passes_success_through() {
    assert_eq!(report_error(60, Ok(())), WorkerOutcome::Finished);
}

#[test]
fn report_error_tags_failure_with_the_replica_id() {
    assert_eq!(
        report_error(60, Err("boom".to_string())),
        WorkerOutcome::Failed { chain_id: 60, cause: "boom".to_string() }
    );
    assert_eq!(
        report_error(0, Err(String::new())),
        WorkerOutcome::Failed { chain_id: 0, cause: String::new() }
    );
}

#[test]
fn failure_context_names_the_replica() {
    assert_eq!(failure_context_string(5), "Replica with ID 5 failed");
    assert_eq!(failure_context_string(0), "Replica with ID 0 failed");
    assert_eq!(failure_context_string(1000), "Replica with ID 1000 failed");
    assert_eq!(failure_context_string(u32::MAX), "Replica with ID 4294967295 failed");
}

#[test]
fn log_line_of_a_failure() {
    let outcome = WorkerOutcome::Failed { chain_id: 2000, cause: "provider unreachable".to_string() };
    assert_eq!(
        outcome.log_line(),
        Some("Replica shut down: Replica with ID 2000 failed: provider unreachable".to_string())
    );
}

#[test]
fn no_log_line_for_a_finished_worker() {
    assert_eq!(WorkerOutcome::Finished.log_line(), None);
}

#[test]
fn error_messages() {
    assert_eq!(AgentError::AllReplicasShutDown.message(), "All replicas have shut down");
    assert_eq!(
        AgentError::HomeConstruction { cause: "bad address".to_string() }.message(),
        "failed to instantiate Home"
    );
    assert_eq!(
        AgentError::ReplicaConstruction {
            name: "kovan".to_string(),
            cause: "bad address".to_string()
        }
        .message(),
        "Failed to instantiate replica named kovan"
    );
    assert_eq!(
        AgentError::ReplicaConstruction { name: String::new(), cause: String::new() }.message(),
        "Failed to instantiate replica named "
    );
}

#[test]
fn different_replicas_never_share_a_log_line() {
    let ids = [0u32, 1, 9, 10, 11, 19, 100, 101, 110, 1000, u32::MAX];
    for a in ids.iter() {
        for b in ids.iter() {
            let line_a = WorkerOutcome::Failed { chain_id: *a, cause: "down".to_string() }.log_line();
            let line_b = WorkerOutcome::Failed { chain_id: *b, cause: "down".to_string() }.log_line();
            assert_eq!(line_a == line_b, a == b);
        }
    }
    // A cause cannot pass for another replica's digits.
    let one = WorkerOutcome::Failed { chain_id: 1, cause: "0 failed: x".to_string() }.log_line();
    let ten = WorkerOutcome::Failed { chain_id: 10, cause: "x".to_string() }.log_line();
    assert_ne!(one, ten);
}
