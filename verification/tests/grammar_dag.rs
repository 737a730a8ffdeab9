use branchkit_stage_sdk::grammar_dag::{is_zero, OpenState, START};

#[test]
fn start_state_and_zero_rule() {
    assert_eq!(START, 0);
    assert!(is_zero(&0));
    assert!(!is_zero(&3));
    let os = OpenState { state: 4, alphabet: None };
    assert_eq!(os.clone(), os);
}
