use cirno::daemon::{
    classify_exit, parse_claim_token, slot_token, ProcessDaemonError, ProcessDaemonIntl,
    ProcessOutcome, SupervisorDecision,
};

#[test]
fn start_assigns_the_lowest_free_slot() {
    let mut daemon = ProcessDaemonIntl::new();
    assert_eq!(daemon.start(&"alpha".to_string(), true), Ok(0));
    assert_eq!(daemon.start(&"beta".to_string(), true), Ok(1));
}

#[test]
fn start_twice_yields_one_running_and_one_already_running() {
    let mut daemon = ProcessDaemonIntl::new();
    let first = daemon.start(&"alpha".to_string(), true);
    let second = daemon.start(&"alpha".to_string(), true);
    assert_eq!(first, Ok(0));
    assert_eq!(second, Err(ProcessDaemonError::AlreadyRunning));
}

#[test]
fn start_without_install_dir_is_not_found() {
    let mut daemon = ProcessDaemonIntl::new();
    assert_eq!(
        daemon.start(&"ghost".to_string(), false),
        Err(ProcessDaemonError::NotFound)
    );
    // nothing was reserved
    assert_eq!(daemon.start(&"ghost".to_string(), true), Ok(0));
}

#[test]
fn full_registry_refuses_the_next_name_and_exit_frees_one_slot() {
    let mut daemon = ProcessDaemonIntl::new();
    for i in 0..256 {
        assert_eq!(daemon.start(&format!("app-{}", i), true), Ok(i as u8));
    }
    assert_eq!(
        daemon.start(&"one-more".to_string(), true),
        Err(ProcessDaemonError::RegistryFull)
    );
    // one process exits cleanly; exactly its slot is free again
    let respawns = daemon.run_supervision(17, &vec![ProcessOutcome::Exited(0)]);
    assert_eq!(respawns, 0);
    assert_eq!(daemon.start(&"one-more".to_string(), true), Ok(17));
}

#[test]
fn sentinel_exits_respawn_then_clean_exit_releases() {
    let mut daemon = ProcessDaemonIntl::new();
    let slot = daemon.start(&"alpha".to_string(), true).unwrap();
    let outcomes = vec![
        ProcessOutcome::Exited(52),
        ProcessOutcome::Exited(52),
        ProcessOutcome::Exited(52),
        ProcessOutcome::Exited(0),
    ];
    let respawns = daemon.run_supervision(slot, &outcomes);
    assert_eq!(respawns, 3);
    // the slot is empty afterward: the name can start again
    assert_eq!(daemon.start(&"alpha".to_string(), true), Ok(slot));
}

#[test]
fn nonzero_exit_ends_supervision_without_respawn() {
    let mut daemon = ProcessDaemonIntl::new();
    let slot = daemon.start(&"alpha".to_string(), true).unwrap();
    let respawns = daemon.run_supervision(slot, &vec![ProcessOutcome::Exited(1)]);
    assert_eq!(respawns, 0);
}

#[test]
fn classification_only_respawns_on_the_sentinel() {
    assert_eq!(
        classify_exit(&ProcessOutcome::Exited(52)),
        SupervisorDecision::Respawn
    );
    assert_eq!(
        classify_exit(&ProcessOutcome::Exited(0)),
        SupervisorDecision::Release
    );
    assert_eq!(
        classify_exit(&ProcessOutcome::Exited(1)),
        SupervisorDecision::Release
    );
    assert_eq!(
        classify_exit(&ProcessOutcome::Signaled),
        SupervisorDecision::Release
    );
    assert_eq!(
        classify_exit(&ProcessOutcome::SpawnFailed),
        SupervisorDecision::Release
    );
}

#[test]
fn claim_resolves_only_while_the_process_lives() {
    let mut daemon = ProcessDaemonIntl::new();
    let slot = daemon.start(&"alpha".to_string(), true).unwrap();
    let token = slot.to_string();
    assert!(daemon.claim(&token).is_some());
    daemon.run_supervision(slot, &vec![ProcessOutcome::Exited(0)]);
    assert!(daemon.claim(&token).is_none());
}

#[test]
fn claim_rejects_empty_and_foreign_slots() {
    let mut daemon = ProcessDaemonIntl::new();
    assert!(daemon.claim(&"0".to_string()).is_none());
    daemon.start(&"alpha".to_string(), true).unwrap();
    assert!(daemon.claim(&"1".to_string()).is_none());
}

#[test]
fn token_parsing_matches_slot_range() {
    assert_eq!(parse_claim_token("0"), Some(0));
    assert_eq!(parse_claim_token("255"), Some(255));
    assert_eq!(parse_claim_token("256"), None);
    assert_eq!(parse_claim_token("+5"), Some(5));
    assert_eq!(parse_claim_token("007"), Some(7));
    assert_eq!(parse_claim_token("99999999999999999999"), None);
    assert_eq!(parse_claim_token(""), None);
    assert_eq!(parse_claim_token("+"), None);
    assert_eq!(parse_claim_token("-1"), None);
    assert_eq!(parse_claim_token("12x"), None);
    assert_eq!(parse_claim_token(" 5"), None);
}

#[test]
fn issued_tokens_parse_back_to_their_slot() {
    for index in [0u8, 1, 9, 10, 52, 99, 100, 200, 255] {
        assert_eq!(slot_token(index), index.to_string());
        assert_eq!(parse_claim_token(&slot_token(index)), Some(index));
    }
}

#[test]
fn issued_tokens_claim_their_own_slot() {
    let mut daemon = ProcessDaemonIntl::new();
    let slot = daemon.start(&"alpha".to_string(), true).unwrap();
    assert!(daemon.claim(&slot_token(slot)).is_some());
    assert!(daemon.claim(&slot_token(slot + 1)).is_none());
}

#[test]
fn token_parsing_agrees_with_the_claim_route() {
    let mut daemon = ProcessDaemonIntl::new();
    let slot = daemon.start(&"alpha".to_string(), true).unwrap();
    assert_eq!(slot, 0);
    // leading zeros and a plus sign still name the same slot
    assert!(daemon.claim(&"+0".to_string()).is_some());
    assert!(daemon.claim(&"00".to_string()).is_some());
    assert!(daemon.claim(&"0x".to_string()).is_none());
}
