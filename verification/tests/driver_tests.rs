use constel_links::driver::{
    initial_state, page_limit_reached, run_replay, run_targets_replay, step, RunState,
};
use constel_links::errors::FetchError;
use constel_links::page::{LinkingRecord, Page};

fn rec(did: &str) -> LinkingRecord {
    LinkingRecord {
        did: did.to_string(),
        collection: "app.bsky.graph.listblock".to_string(),
        rkey: "k".to_string(),
    }
}

fn page(dids: &[&str], cursor: Option<&str>) -> Page {
    Page {
        total: dids.len() as u64,
        records: dids.iter().map(|d| rec(d)).collect(),
        cursor: cursor.map(|c| c.to_string()),
    }
}

fn acc_of(state: &RunState) -> Vec<String> {
    state.acc.clone()
}

#[test]
fn scenario_two_pages_cursor_chain() {
    // target "did:plc:alice": page 1 carries cursor "c1", page 2 ends the run
    let mut state = initial_state();
    assert!(state.cursor.is_none());
    assert!(!state.done);

    // first request carries no cursor
    assert_eq!(state.cursor, None);
    state = step(state, Ok(page(&["x"], Some("c1"))));
    assert_eq!(acc_of(&state), vec!["x".to_string()]);
    assert!(!state.done);

    // second request carries exactly cursor "c1"
    assert_eq!(state.cursor, Some("c1".to_string()));
    state = step(state, Ok(page(&["y"], None)));
    assert_eq!(acc_of(&state), vec!["x".to_string(), "y".to_string()]);
    assert!(state.done);
    assert!(state.failure.is_none());
    // exactly two requests were made
    assert_eq!(state.pages, 2);
}

#[test]
fn scenario_transport_error_keeps_nothing() {
    // target "did:plc:bob": the first request fails with a transport error
    let script = vec![Err(FetchError::Transport("connection refused".to_string()))];
    let state = run_replay(script);
    assert!(state.acc.is_empty());
    assert!(state.done);
    assert!(matches!(state.failure, Some(FetchError::Transport(_))));
    // exactly one request was attempted
    assert_eq!(state.pages, 1);
}

#[test]
fn termination_on_absent_cursor() {
    // the second script entry is never consumed: page 1 carries no cursor
    let script = vec![Ok(page(&["a"], None)), Ok(page(&["never"], None))];
    let state = run_replay(script);
    assert_eq!(acc_of(&state), vec!["a".to_string()]);
    assert!(state.done);
    assert_eq!(state.pages, 1);
}

#[test]
fn order_preserved_without_deduplication() {
    let script = vec![
        Ok(page(&["a", "b", "a"], Some("c1"))),
        Ok(page(&[], Some("c2"))),
        Ok(page(&["b", "c"], None)),
    ];
    let state = run_replay(script);
    let expected: Vec<String> =
        ["a", "b", "a", "b", "c"].iter().map(|s| s.to_string()).collect();
    assert_eq!(acc_of(&state), expected);
    assert!(state.done);
    assert!(state.failure.is_none());
    assert_eq!(state.pages, 3);
}

#[test]
fn failure_keeps_partial_results() {
    let script = vec![
        Ok(page(&["a", "b"], Some("c1"))),
        Err(FetchError::Decode("bad body".to_string())),
        Ok(page(&["never"], None)),
    ];
    let state = run_replay(script);
    assert_eq!(acc_of(&state), vec!["a".to_string(), "b".to_string()]);
    assert!(state.done);
    assert!(matches!(state.failure, Some(FetchError::Decode(_))));
    // the outcome after the failure was never consumed
    assert_eq!(state.pages, 2);
}

#[test]
fn failure_isolation_across_targets() {
    // target A fails after one page; target B is processed in full regardless
    let script_a = vec![
        Ok(page(&["a1"], Some("c1"))),
        Err(FetchError::Transport("timeout".to_string())),
    ];
    let script_b = vec![Ok(page(&["b1"], Some("c1"))), Ok(page(&["b2"], None))];
    let results = run_targets_replay(vec![script_a, script_b]);
    assert_eq!(results.len(), 2);
    assert_eq!(acc_of(&results[0]), vec!["a1".to_string()]);
    assert!(matches!(results[0].failure, Some(FetchError::Transport(_))));
    assert_eq!(acc_of(&results[1]), vec!["b1".to_string(), "b2".to_string()]);
    assert!(results[1].failure.is_none());
}

#[test]
fn page_limit_counter() {
    let mut state = initial_state();
    assert!(page_limit_reached(&state, 0));
    assert!(!page_limit_reached(&state, 1));
    state = step(state, Ok(page(&["a"], Some("c1"))));
    assert!(page_limit_reached(&state, 1));
    assert!(!page_limit_reached(&state, 2));
}
