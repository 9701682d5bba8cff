use fanout::run;
use fanout::FixedInvoker;
use fanout::OperationResult;

fn invoker_abc() -> FixedInvoker {
    FixedInvoker::new(vec![
        ("A".to_string(), Ok("a-data".to_string())),
        ("B".to_string(), Err("timeout".to_string())),
        ("C".to_string(), Ok("c-data".to_string())),
    ])
}

#[test]
fn concrete_scenario_all_three_answered() {
    let ids = vec!["A".to_string(), "B".to_string(), "C".to_string()];
    let results = run(&invoker_abc(), &ids);
    assert_eq!(results.len(), 3);
    let expected = vec![
        OperationResult::Success {
            identifier: "A".to_string(),
            payload: "a-data".to_string(),
        },
        OperationResult::Failure {
            identifier: "B".to_string(),
            cause: "timeout".to_string(),
        },
        OperationResult::Success {
            identifier: "C".to_string(),
            payload: "c-data".to_string(),
        },
    ];
    for wanted in &expected {
        assert!(results.contains(wanted));
    }
}

#[test]
fn all_success_returns_one_result_per_identifier() {
    let inv = FixedInvoker::new(vec![
        ("A".to_string(), Ok("1".to_string())),
        ("B".to_string(), Ok("2".to_string())),
        ("C".to_string(), Ok("3".to_string())),
        ("D".to_string(), Ok("4".to_string())),
    ]);
    let ids = vec![
        "A".to_string(),
        "B".to_string(),
        "C".to_string(),
        "D".to_string(),
    ];
    let results = run(&inv, &ids);
    assert_eq!(results.len(), 4);
    let mut seen: Vec<String> = Vec::new();
    for result in &results {
        assert!(result.is_success());
        let id = result.identifier().clone();
        assert!(ids.contains(&id));
        assert!(!seen.contains(&id));
        seen.push(id);
    }
}

#[test]
fn repeated_runs_yield_same_results() {
    let ids = vec!["A".to_string(), "B".to_string(), "C".to_string()];
    let inv = invoker_abc();
    let first = run(&inv, &ids);
    let second = run(&inv, &ids);
    assert_eq!(first.len(), second.len());
    for result in &first {
        assert!(second.contains(result));
    }
    for result in &second {
        assert!(first.contains(result));
    }
}

#[test]
fn failing_identifier_yields_failure_with_cause() {
    let ids = vec!["A".to_string(), "B".to_string()];
    let results = run(&invoker_abc(), &ids);
    assert_eq!(results.len(), 2);
    let entry = &results[1];
    assert!(!entry.is_success());
    assert_eq!(entry.identifier().as_str(), "B");
    match entry {
        OperationResult::Failure { identifier, cause } => {
            assert_eq!(identifier.as_str(), "B");
            assert_eq!(cause.as_str(), "timeout");
            assert!(!cause.is_empty());
        }
        OperationResult::Success { .. } => panic!("expected a failure"),
    }
}

#[test]
fn unknown_identifier_fails_with_diagnostic() {
    let ids = vec!["Z".to_string()];
    let results = run(&invoker_abc(), &ids);
    assert_eq!(results.len(), 1);
    match &results[0] {
        OperationResult::Failure { identifier, cause } => {
            assert_eq!(identifier.as_str(), "Z");
            assert_eq!(cause.as_str(), "unknown identifier");
        }
        OperationResult::Success { .. } => panic!("expected a failure"),
    }
}

#[test]
fn duplicate_identifiers_run_independently() {
    let ids = vec!["A".to_string(), "A".to_string()];
    let results = run(&invoker_abc(), &ids);
    assert_eq!(results.len(), 2);
    assert_eq!(results[0], results[1]);
    assert_eq!(results[0].identifier().as_str(), "A");
}
