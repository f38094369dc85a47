use group_import::ledger::{NextBatchResult, TransferStatus};
use group_import::scheduler::{next_batch, run, start_job_if_required, RunAction};
use group_import::state::CommunityState;

#[test]
fn start_is_refused_without_work() {
    let mut state = CommunityState::new("c".to_string());
    assert!(!start_job_if_required(&mut state));
    assert!(!state.import_job_running);
}

#[test]
fn start_is_idempotent() {
    let mut state = CommunityState::new("c".to_string());
    state.groups_being_imported.add(1, 10, 100);
    assert!(start_job_if_required(&mut state));
    assert!(state.import_job_running);
    assert!(!start_job_if_required(&mut state));
    assert!(state.import_job_running);
}

#[test]
fn run_hands_out_ready_groups() {
    let mut state = CommunityState::new("c".to_string());
    state.groups_being_imported.add(1, 10, 100);
    state.groups_being_imported.add(2, 20, 100);
    state.groups_being_imported.mark_batch_complete(2, &[0; 40]);
    start_job_if_required(&mut state);
    match run(&mut state, 5) {
        RunAction::Import(batch) => assert_eq!(batch, vec![(1, 0), (2, 40)]),
        other => panic!("unexpected action {:?}", other),
    }
    assert!(state.import_job_running);
    assert!(matches!(run(&mut state, 6), RunAction::Wait));
    assert!(state.import_job_running);
}

#[test]
fn run_stops_exactly_when_ledger_is_empty() {
    let mut state = CommunityState::new("c".to_string());
    state.groups_being_imported.add(1, 10, 1);
    assert!(start_job_if_required(&mut state));
    assert!(matches!(run(&mut state, 1), RunAction::Import(_)));
    state.groups_being_imported.mark_batch_complete(1, &[1]);
    assert!(matches!(run(&mut state, 2), RunAction::Wait));
    assert!(state.import_job_running);
    state.groups_being_imported.take(1);
    assert!(matches!(run(&mut state, 3), RunAction::Stop));
    assert!(!state.import_job_running);
}

#[test]
fn start_after_stop_arms_again() {
    let mut state = CommunityState::new("c".to_string());
    state.groups_being_imported.add(1, 10, 1);
    start_job_if_required(&mut state);
    state.groups_being_imported.take(1);
    assert!(matches!(run(&mut state, 3), RunAction::Stop));
    assert!(!start_job_if_required(&mut state));
    state.groups_being_imported.add(2, 20, 1);
    assert!(start_job_if_required(&mut state));
    assert!(state.import_job_running);
    assert!(matches!(run(&mut state, 4), RunAction::Import(_)));
}

#[test]
fn next_batch_reports_exit_continue_and_success() {
    let mut state = CommunityState::new("c".to_string());
    assert!(matches!(next_batch(&mut state, 1), NextBatchResult::Exit));
    state.groups_being_imported.add(1, 10, 8);
    match next_batch(&mut state, 2) {
        NextBatchResult::Success(batch) => assert_eq!(batch, vec![(1, 0)]),
        other => panic!("unexpected result {:?}", other),
    }
    assert!(matches!(next_batch(&mut state, 3), NextBatchResult::Continue));
    assert!(matches!(
        state.groups_being_imported.get(1).unwrap().status(),
        TransferStatus::InFlight { since: 2 }
    ));
}
