use group_import::jobs::TimerJob;
use group_import::ledger::TransferStatus;
use group_import::scheduler::{run, start_job_if_required, RunAction};
use group_import::state::CommunityState;
use group_import::transfer::{
    export_args, import_group, is_contract_violation, trigger_upgrade_to_finalize_import,
    ExportResponse, ImportOutcome,
};
use group_import::types::{FINALIZE_FALLBACK_MILLIS, PAGE_SIZE};

fn importing(total: u64) -> CommunityState {
    let mut state = CommunityState::new("c".to_string());
    state.groups_being_imported.add(1, 10, total);
    start_job_if_required(&mut state);
    state
}

#[test]
fn page_size_is_nineteen_times_one_hundred_and_two_kibibytes() {
    assert_eq!(PAGE_SIZE, 1_984_512);
    assert_eq!(FINALIZE_FALLBACK_MILLIS, 10_000);
    let args = export_args(3_800_000);
    assert_eq!(args.from, 3_800_000);
    assert_eq!(args.page_size, 1_984_512);
}

#[test]
fn violation_marker_is_found_anywhere_in_the_text() {
    assert!(is_contract_violation("violated contract"));
    assert!(is_contract_violation("IC0504: canister violated contract: ic0.msg_reply"));
    assert!(is_contract_violation("xxviolated contract"));
    assert!(!is_contract_violation(""));
    assert!(!is_contract_violation("violated  contract"));
    assert!(!is_contract_violation("Violated Contract"));
    assert!(!is_contract_violation("violated contrac"));
    assert!(!is_contract_violation("timeout"));
}

#[test]
fn chunk_before_the_last_is_pending() {
    let mut state = importing(5);
    run(&mut state, 1);
    let outcome = import_group(&mut state, 1, ExportResponse::Success(vec![1, 2]), 2);
    assert_eq!(outcome, ImportOutcome::Pending);
    assert_eq!(state.timer_jobs.len(), 0);
    let entry = state.groups_being_imported.get(1).unwrap();
    assert_eq!(entry.offset(), 2);
    assert!(matches!(entry.status(), TransferStatus::Idle));
}

#[test]
fn last_chunk_schedules_finalization_now() {
    let mut state = importing(3);
    run(&mut state, 1);
    import_group(&mut state, 1, ExportResponse::Success(vec![1, 2]), 2);
    run(&mut state, 3);
    let outcome = import_group(&mut state, 1, ExportResponse::Success(vec![3]), 4);
    assert_eq!(outcome, ImportOutcome::Complete { fallback_after: 10_000 });
    assert_eq!(state.timer_jobs.len(), 1);
    let job = state.timer_jobs.get(0).unwrap();
    assert_eq!(job.due, 4);
    assert!(matches!(job.job, TimerJob::FinalizeGroupImport { group_id: 1 }));
    assert!(state.groups_being_imported.contains(1));
    assert_eq!(state.groups_being_imported.get(1).unwrap().bytes(), &vec![1, 2, 3]);
}

#[test]
fn answer_for_unknown_group_changes_nothing() {
    let mut state = importing(3);
    let outcome = import_group(&mut state, 9, ExportResponse::Success(vec![1, 2, 3]), 2);
    assert_eq!(outcome, ImportOutcome::Pending);
    assert_eq!(state.timer_jobs.len(), 0);
    assert!(!state.groups_being_imported.contains(9));
}

#[test]
fn violation_drops_the_group_for_good() {
    let mut state = importing(5);
    run(&mut state, 1);
    import_group(&mut state, 1, ExportResponse::Success(vec![1, 2]), 2);
    run(&mut state, 3);
    let outcome = import_group(
        &mut state,
        1,
        ExportResponse::Failure("canister violated contract".to_string()),
        4,
    );
    assert_eq!(outcome, ImportOutcome::Abandoned);
    assert!(!state.groups_being_imported.contains(1));
    assert_eq!(state.timer_jobs.len(), 0);
    assert!(matches!(run(&mut state, 5), RunAction::Stop));
    let late = import_group(&mut state, 1, ExportResponse::Success(vec![3, 4, 5]), 6);
    assert_eq!(late, ImportOutcome::Pending);
    assert_eq!(state.timer_jobs.len(), 0);
    assert!(!trigger_upgrade_to_finalize_import(&state, 1));
}

#[test]
fn transient_failure_keeps_offset_and_is_retried_on_next_tick() {
    let mut state = importing(5);
    run(&mut state, 1);
    import_group(&mut state, 1, ExportResponse::Success(vec![1, 2]), 2);
    run(&mut state, 3);
    let outcome = import_group(&mut state, 1, ExportResponse::Failure("timeout".to_string()), 4);
    assert_eq!(outcome, ImportOutcome::Retry { start_job: false });
    {
        let entry = state.groups_being_imported.get(1).unwrap();
        assert_eq!(entry.offset(), 2);
        match entry.status() {
            TransferStatus::Failed { reason } => assert_eq!(reason, "timeout"),
            other => panic!("unexpected status {:?}", other),
        }
    }
    match run(&mut state, 5) {
        RunAction::Import(batch) => assert_eq!(batch, vec![(1, 2)]),
        other => panic!("unexpected action {:?}", other),
    }
}

#[test]
fn transient_failure_asks_for_the_trigger_when_it_is_not_running() {
    let mut state = CommunityState::new("c".to_string());
    state.groups_being_imported.add(1, 10, 5);
    let outcome = import_group(&mut state, 1, ExportResponse::Failure("busy".to_string()), 4);
    assert_eq!(outcome, ImportOutcome::Retry { start_job: true });
    assert!(state.import_job_running);
}

#[test]
fn transient_failure_for_unknown_group_starts_nothing() {
    let mut state = CommunityState::new("c".to_string());
    let outcome = import_group(&mut state, 1, ExportResponse::Failure("busy".to_string()), 4);
    assert_eq!(outcome, ImportOutcome::Retry { start_job: false });
    assert!(!state.import_job_running);
    assert!(state.groups_being_imported.is_empty());
}

#[test]
fn fallback_asks_for_upgrade_only_while_group_waits() {
    let mut state = importing(1);
    import_group(&mut state, 1, ExportResponse::Success(vec![1]), 2);
    assert!(trigger_upgrade_to_finalize_import(&state, 1));
    assert!(!trigger_upgrade_to_finalize_import(&state, 2));
    state.groups_being_imported.take(1);
    assert!(!trigger_upgrade_to_finalize_import(&state, 1));
}
