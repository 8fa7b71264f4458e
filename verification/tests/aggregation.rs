use torrent_search::aggregator::{
    failure_cause, merge, Aggregate, Aggregation, Aggregator, ProviderFailure, ProviderOutcome,
    Reply,
};
use torrent_search::error::SearchError;
use torrent_search::torrent::Torrent;

fn torrent(name: &str) -> Torrent {
    Torrent {
        name: name.to_string(),
        magnet_link: format!("magnet:?xt=urn:btih:{}", name),
        seeders: Some(1),
        leechers: None,
    }
}

fn outcome(provider: &str, reply: Reply) -> ProviderOutcome {
    ProviderOutcome { provider: provider.to_string(), reply }
}

fn failure(provider: &str, cause: SearchError) -> ProviderFailure {
    ProviderFailure { provider: provider.to_string(), cause }
}

#[test]
fn one_success_and_one_network_failure() {
    let outcomes = vec![
        outcome("north", Reply::Records(vec![torrent("a"), torrent("b"), torrent("c")])),
        outcome("south", Reply::Failed(SearchError::Network)),
    ];
    let merged = merge(&outcomes).unwrap();
    assert_eq!(merged.records, vec![torrent("a"), torrent("b"), torrent("c")]);
    assert_eq!(merged.failures, vec![failure("south", SearchError::Network)]);
}

#[test]
fn all_providers_failing_is_an_aggregate_error() {
    let outcomes = vec![
        outcome("north", Reply::Failed(SearchError::Network)),
        outcome("south", Reply::Failed(SearchError::Parse)),
        outcome("east", Reply::TimedOut),
        outcome("west", Reply::Cancelled),
        outcome("upper", Reply::Failed(SearchError::Decode)),
        outcome("lower", Reply::Failed(SearchError::BackendRejected)),
    ];
    assert_eq!(
        merge(&outcomes),
        Err(Aggregate {
            failures: vec![
                failure("north", SearchError::Network),
                failure("south", SearchError::Parse),
                failure("east", SearchError::Timeout),
                failure("west", SearchError::Cancelled),
                failure("upper", SearchError::Decode),
                failure("lower", SearchError::BackendRejected),
            ]
        })
    );
}

#[test]
fn timed_out_provider_is_left_out_and_recorded() {
    let outcomes = vec![
        outcome("fast", Reply::Records(vec![torrent("a")])),
        outcome("slow", Reply::TimedOut),
        outcome("also fast", Reply::Records(vec![torrent("b"), torrent("c")])),
    ];
    assert_eq!(
        merge(&outcomes),
        Ok(Aggregation {
            records: vec![torrent("a"), torrent("b"), torrent("c")],
            failures: vec![failure("slow", SearchError::Timeout)],
        })
    );
}

#[test]
fn records_follow_dispatch_order_without_deduplication() {
    let outcomes = vec![
        outcome("B", Reply::Records(vec![torrent("x"), torrent("y")])),
        outcome("A", Reply::Records(vec![torrent("y"), torrent("x")])),
    ];
    let merged = merge(&outcomes).unwrap();
    assert_eq!(merged.records, vec![torrent("x"), torrent("y"), torrent("y"), torrent("x")]);
    assert!(merged.failures.is_empty());
}

#[test]
fn empty_success_is_not_a_failure() {
    let outcomes =
        vec![outcome("north", Reply::Records(vec![])), outcome("south", Reply::Failed(SearchError::Parse))];
    assert_eq!(
        merge(&outcomes),
        Ok(Aggregation { records: vec![], failures: vec![failure("south", SearchError::Parse)] })
    );
}

#[test]
fn no_providers_is_an_empty_success() {
    assert_eq!(merge(&vec![]), Ok(Aggregation { records: vec![], failures: vec![] }));
}

#[test]
fn single_failing_provider_is_an_aggregate_error() {
    assert_eq!(
        merge(&vec![outcome("only", Reply::Failed(SearchError::Network))]),
        Err(Aggregate { failures: vec![failure("only", SearchError::Network)] })
    );
}

#[test]
fn failure_cause_of_each_reply() {
    assert_eq!(failure_cause(&Reply::Records(vec![])), None);
    assert_eq!(failure_cause(&Reply::Records(vec![torrent("a")])), None);
    assert_eq!(failure_cause(&Reply::Failed(SearchError::Decode)), Some(SearchError::Decode));
    assert_eq!(failure_cause(&Reply::Failed(SearchError::Timeout)), Some(SearchError::Timeout));
    assert_eq!(failure_cause(&Reply::TimedOut), Some(SearchError::Timeout));
    assert_eq!(failure_cause(&Reply::Cancelled), Some(SearchError::Cancelled));
}

fn names(list: &[&str]) -> Vec<String> {
    list.iter().map(|s| s.to_string()).collect()
}

#[test]
fn aggregator_merges_in_dispatch_order_whatever_the_arrival_order() {
    let mut early = Aggregator::new(&names(&["A", "B", "C"]));
    assert!(early.record(0, Ok(vec![torrent("a")])));
    assert!(early.record(1, Err(SearchError::Network)));
    assert!(early.record(2, Ok(vec![torrent("c1"), torrent("c2")])));
    let mut late = Aggregator::new(&names(&["A", "B", "C"]));
    assert!(late.record(2, Ok(vec![torrent("c1"), torrent("c2")])));
    assert!(late.record(1, Err(SearchError::Network)));
    assert!(late.record(0, Ok(vec![torrent("a")])));
    let expected = Ok(Aggregation {
        records: vec![torrent("a"), torrent("c1"), torrent("c2")],
        failures: vec![failure("B", SearchError::Network)],
    });
    assert_eq!(early.finish(), expected);
    assert_eq!(late.finish(), expected);
}

#[test]
fn aggregator_counts_the_unanswered_as_timed_out() {
    let mut aggregator = Aggregator::new(&names(&["fast", "slow"]));
    assert_eq!(aggregator.len(), 2);
    assert!(aggregator.is_awaited(0));
    assert!(aggregator.is_awaited(1));
    assert!(!aggregator.is_awaited(2));
    assert!(!aggregator.is_complete());
    assert!(aggregator.record(0, Ok(vec![torrent("a")])));
    assert!(!aggregator.is_awaited(0));
    assert!(!aggregator.is_complete());
    assert_eq!(
        aggregator.finish(),
        Ok(Aggregation {
            records: vec![torrent("a")],
            failures: vec![failure("slow", SearchError::Timeout)],
        })
    );
}

#[test]
fn aggregator_keeps_the_first_answer_only() {
    let mut aggregator = Aggregator::new(&names(&["A"]));
    assert!(aggregator.record(0, Err(SearchError::Parse)));
    assert!(!aggregator.record(0, Ok(vec![torrent("late")])));
    assert!(!aggregator.record(1, Ok(vec![torrent("nobody")])));
    assert!(aggregator.is_complete());
    assert_eq!(
        aggregator.finish(),
        Err(Aggregate { failures: vec![failure("A", SearchError::Parse)] })
    );
}

#[test]
fn aggregator_withdrawn_cancels_the_awaited_and_keeps_the_answered() {
    let mut aggregator = Aggregator::new(&names(&["done", "in flight", "failed"]));
    assert!(aggregator.record(0, Ok(vec![torrent("a")])));
    assert!(aggregator.record(2, Err(SearchError::BackendRejected)));
    aggregator.withdraw();
    assert!(aggregator.is_complete());
    assert!(!aggregator.record(1, Ok(vec![torrent("too late")])));
    assert_eq!(
        aggregator.finish(),
        Ok(Aggregation {
            records: vec![torrent("a")],
            failures: vec![
                failure("in flight", SearchError::Cancelled),
                failure("failed", SearchError::BackendRejected),
            ],
        })
    );
}

#[test]
fn aggregator_with_nobody_answering_fails_with_every_timeout() {
    let aggregator = Aggregator::new(&names(&["A", "B"]));
    assert_eq!(
        aggregator.finish(),
        Err(Aggregate {
            failures: vec![failure("A", SearchError::Timeout), failure("B", SearchError::Timeout)]
        })
    );
    let nobody = Aggregator::new(&names(&[]));
    assert!(nobody.is_complete());
    assert_eq!(nobody.finish(), Ok(Aggregation { records: vec![], failures: vec![] }));
}
