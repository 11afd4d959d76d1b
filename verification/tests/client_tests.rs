use file_classifier::batch::FileEntry;
use file_classifier::client::{
    attempt_result, AttemptFailure, AttemptOutcome, Classification, RetryPolicy, Step,
    DEFAULT_MAX_ATTEMPTS, DEFAULT_RETRY_DELAY_SECS,
};
use file_classifier::mapping::CategoryMapping;
use file_classifier::parser::ParseError;
use file_classifier::placement::placements_for;

/// Runs a classification the way a caller does: one outcome per attempt,
/// for as long as an attempt is due. Returns the mapping, the number of
/// outcomes used and the pauses taken.
fn drive(
    policy: RetryPolicy,
    outcomes: Vec<AttemptOutcome>,
) -> (Option<CategoryMapping>, usize, Vec<u64>) {
    let mut state = Classification::begin(policy);
    let mut used = 0;
    let mut pauses = Vec::new();
    let mut mapping = None;
    let mut outcomes = outcomes.into_iter();
    while state.is_attempt_due() {
        let outcome = outcomes.next().expect("an attempt was due but no outcome is left");
        used += 1;
        match state.on_outcome(outcome) {
            Step::Done { mapping: found } => mapping = Some(found),
            Step::Retry { delay_secs, .. } => pauses.push(delay_secs),
            Step::GiveUp { .. } => {}
        }
    }
    assert_eq!(state.attempts_made as usize, used);
    (mapping, used, pauses)
}

fn reply(text: &str) -> AttemptOutcome {
    AttemptOutcome::Reply(text.to_string())
}

#[test]
fn default_policy_is_three_attempts_two_seconds() {
    let policy = RetryPolicy::default();
    assert_eq!(policy.max_attempts, 3);
    assert_eq!(policy.delay_secs, 2);
    assert_eq!(policy, RetryPolicy::standard());
    assert_eq!(DEFAULT_MAX_ATTEMPTS, 3);
    assert_eq!(DEFAULT_RETRY_DELAY_SECS, 2);
}

#[test]
fn third_attempt_succeeds_after_two_failures() {
    let outcomes = vec![
        AttemptOutcome::TransportError,
        AttemptOutcome::ErrorStatus,
        reply("{\"a.txt\":\"Docs\"}"),
        reply("{\"a.txt\":\"Never asked for\"}"),
    ];
    let (mapping, used, pauses) = drive(RetryPolicy::standard(), outcomes);
    let mapping = mapping.expect("the third attempt yields the mapping");
    assert_eq!(mapping.get("a.txt"), Some(&"Docs".to_string()));
    assert_eq!(used, 3);
    assert_eq!(pauses, vec![2, 2]);
}

#[test]
fn all_attempts_fail_yields_nothing() {
    let outcomes = vec![
        AttemptOutcome::TransportError,
        reply("not json"),
        AttemptOutcome::MalformedEnvelope,
        reply("{\"a.txt\":\"Too late\"}"),
    ];
    let (mapping, used, pauses) = drive(RetryPolicy::standard(), outcomes);
    assert!(mapping.is_none());
    assert_eq!(used, 3);
    assert_eq!(pauses, vec![2, 2]);

    let batch = vec![FileEntry::new("dir/a.txt", "a.txt"), FileEntry::new("dir/b.txt", "b.txt")];
    assert!(placements_for(&mapping, &batch).is_empty());
}

#[test]
fn first_attempt_succeeds_without_retry() {
    let outcomes = vec![reply("```json\n{\"a.txt\":\"Docs\"}\n```"), AttemptOutcome::TransportError];
    let (mapping, used, pauses) = drive(RetryPolicy::standard(), outcomes);
    assert_eq!(mapping.unwrap().get("a.txt"), Some(&"Docs".to_string()));
    assert_eq!(used, 1);
    assert!(pauses.is_empty());
}

#[test]
fn rejected_payload_is_retried() {
    let outcomes = vec![reply("[\"a.txt\"]"), reply("{\"a.txt\":3}"), reply("{\"a.txt\":\"Docs\"}")];
    let (mapping, used, pauses) = drive(RetryPolicy::standard(), outcomes);
    assert_eq!(mapping.unwrap().get("a.txt"), Some(&"Docs".to_string()));
    assert_eq!(used, 3);
    assert_eq!(pauses.len(), 2);
}

#[test]
fn policy_sets_attempts_and_pause() {
    let policy = RetryPolicy { max_attempts: 5, delay_secs: 7 };
    let outcomes = vec![AttemptOutcome::ErrorStatus; 6];
    let (mapping, used, pauses) = drive(policy, outcomes);
    assert!(mapping.is_none());
    assert_eq!(used, 5);
    assert_eq!(pauses, vec![7, 7, 7, 7]);
}

#[test]
fn single_attempt_policy_gives_up_at_once() {
    let policy = RetryPolicy { max_attempts: 1, delay_secs: 2 };
    let mut state = Classification::begin(policy);
    assert!(state.is_attempt_due());
    match state.on_outcome(AttemptOutcome::TransportError) {
        Step::GiveUp { failure } => assert_eq!(failure, AttemptFailure::Transport),
        other => panic!("expected to give up, got {:?}", other),
    }
    assert!(!state.is_attempt_due());
    assert!(state.finished);
    assert_eq!(state.attempts_made, 1);
}

#[test]
fn no_attempt_allowed_means_no_attempt_due() {
    let state = Classification::begin(RetryPolicy { max_attempts: 0, delay_secs: 2 });
    assert!(!state.is_attempt_due());
    assert!(state.finished);
    assert_eq!(state.attempts_made, 0);
}

#[test]
fn steps_of_a_failing_run() {
    let mut state = Classification::begin(RetryPolicy::standard());
    assert_eq!(state, Classification { policy: RetryPolicy::standard(), attempts_made: 0, finished: false });

    match state.on_outcome(AttemptOutcome::TransportError) {
        Step::Retry { failure, delay_secs } => {
            assert_eq!(failure, AttemptFailure::Transport);
            assert_eq!(delay_secs, 2);
        }
        other => panic!("expected a retry, got {:?}", other),
    }
    assert_eq!(state.attempts_made, 1);
    assert!(state.is_attempt_due());

    match state.on_outcome(reply("oops")) {
        Step::Retry { failure, delay_secs } => {
            assert_eq!(
                failure,
                AttemptFailure::Payload(ParseError::InvalidJson { raw: "oops".to_string() })
            );
            assert_eq!(delay_secs, 2);
        }
        other => panic!("expected a retry, got {:?}", other),
    }
    assert_eq!(state.attempts_made, 2);
    assert!(state.is_attempt_due());

    match state.on_outcome(AttemptOutcome::ErrorStatus) {
        Step::GiveUp { failure } => assert_eq!(failure, AttemptFailure::Status),
        other => panic!("expected to give up, got {:?}", other),
    }
    assert_eq!(state.attempts_made, 3);
    assert!(!state.is_attempt_due());
}

#[test]
fn on_attempt_with_a_mapping_ends_the_run() {
    let mut state = Classification::begin(RetryPolicy::standard());
    let mut mapping = CategoryMapping::new();
    mapping.insert("a.txt".to_string(), "Docs".to_string());
    match state.on_attempt(Ok(mapping)) {
        Step::Done { mapping } => assert_eq!(mapping.get("a.txt"), Some(&"Docs".to_string())),
        other => panic!("expected the mapping, got {:?}", other),
    }
    assert!(!state.is_attempt_due());
    assert_eq!(state.attempts_made, 1);
}

#[test]
fn on_attempt_with_a_failure_before_the_last() {
    let mut state = Classification::begin(RetryPolicy { max_attempts: 2, delay_secs: 9 });
    match state.on_attempt(Err(AttemptFailure::Envelope)) {
        Step::Retry { failure, delay_secs } => {
            assert_eq!(failure, AttemptFailure::Envelope);
            assert_eq!(delay_secs, 9);
        }
        other => panic!("expected a retry, got {:?}", other),
    }
    match state.on_attempt(Err(AttemptFailure::Status)) {
        Step::GiveUp { failure } => assert_eq!(failure, AttemptFailure::Status),
        other => panic!("expected to give up, got {:?}", other),
    }
}

#[test]
fn attempt_result_names_the_failure() {
    assert_eq!(attempt_result(AttemptOutcome::TransportError).unwrap_err(), AttemptFailure::Transport);
    assert_eq!(attempt_result(AttemptOutcome::ErrorStatus).unwrap_err(), AttemptFailure::Status);
    assert_eq!(attempt_result(AttemptOutcome::MalformedEnvelope).unwrap_err(), AttemptFailure::Envelope);
    assert_eq!(
        attempt_result(reply("[1]")).unwrap_err(),
        AttemptFailure::Payload(ParseError::InvalidJson { raw: "[1]".to_string() })
    );
}

#[test]
fn attempt_result_reads_the_reply() {
    let mapping = attempt_result(reply(" {\"x.jpg\":\"Images\"} ")).unwrap();
    assert_eq!(mapping.get("x.jpg"), Some(&"Images".to_string()));
}
