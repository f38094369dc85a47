//! The chunked transfer: the request for a group's next chunk and what the
//! answer to it does to the ledger.

use crate::jobs::{JobModel, ScheduledJobModel, TimerJob};
use crate::ledger::{ledger_after_chunk, ledger_after_failure};
use crate::scheduler::{after_start, should_start, start_job_if_required};
use crate::state::{CommunityState, StateModel};
use crate::types::{
    violation_marker, GroupId, TimestampMillis, FINALIZE_FALLBACK_MILLIS, PAGE_SIZE,
};
use vstd::prelude::*;

verus! {

/// The request sent to a group actor for one chunk of its exported state.
#[derive(Clone, Copy, Debug)]
pub struct ExportArgs {
    /// Offset of the first byte wanted.
    pub from: u64,
    /// Largest number of bytes the answer may carry.
    pub page_size: u32,
}

/// The request for the chunk that starts at `from`.
pub fn export_args(from: u64) -> (args: ExportArgs)
    ensures
        args.from == from,
        args.page_size == PAGE_SIZE,
{
    ExportArgs { from, page_size: PAGE_SIZE }
}

/// `pat` occurs in `text` as a run of consecutive characters.
pub open spec fn has_infix(text: Seq<char>, pat: Seq<char>) -> bool {
    exists|i: int|
        0 <= i && i + pat.len() <= text.len() && #[trigger] text.subrange(i, i + pat.len()) == pat
}

/// The failure text says that the source group rejected the call because an
/// invariant of its own is broken, so that no retry can succeed.
pub open spec fn is_violation(text: Seq<char>) -> bool {
    has_infix(text, violation_marker())
}

/// Calls `str::contains` with a string pattern. Trusted: the result is taken
/// to be true exactly when the characters of `pat` occur consecutively in
/// `text`, which is what the standard library documents for a `&str` pattern.
#[verifier::external_body]
fn str_contains(text: &str, pat: &str) -> (r: bool)
    ensures
        r == has_infix(text@, pat@),
{
    text.contains(pat)
}

/// Whether an export failure with this text is permanent.
pub fn is_contract_violation(text: &str) -> (r: bool)
    ensures
        r == is_violation(text@),
{
    str_contains(text, "violated contract")
}

/// The answer to an export call.
#[derive(Debug)]
pub enum ExportResponse {
    /// The bytes of the chunk.
    Success(Vec<u8>),
    /// The call failed; the text says why.
    Failure(String),
}

/// Mathematical value of an [`ExportResponse`].
pub enum ResponseModel {
    Success(Seq<u8>),
    Failure(Seq<char>),
}

impl View for ExportResponse {
    type V = ResponseModel;

    open spec fn view(&self) -> ResponseModel {
        match self {
            ExportResponse::Success(bytes) => ResponseModel::Success(bytes@),
            ExportResponse::Failure(text) => ResponseModel::Failure(text@),
        }
    }
}

/// What the answer to an export call meant for the group's import.
#[derive(Clone, Copy, Debug, PartialEq, Eq, Structural)]
pub enum ImportOutcome {
    /// The chunk, if the group is being imported, was stored; the transfer is
    /// not complete. Nothing else to do.
    Pending,
    /// The last chunk arrived and finalization is scheduled. The caller arms
    /// the one-shot fallback trigger for this group, to fire after
    /// `fallback_after` milliseconds.
    Complete { fallback_after: u64 },
    /// The source group is unrecoverable; its import was dropped for good.
    Abandoned,
    /// The fetch failed and will be repeated. If `start_job` is set, the
    /// caller must arm the repeating trigger.
    Retry { start_job: bool },
}

/// A successful answer carrying `bytes` completes the transfer of `group_id`.
pub open spec fn completes(s: StateModel, group_id: GroupId, bytes: Seq<u8>) -> bool {
    s.ledger.contains_key(group_id) && s.ledger[group_id].received(bytes).is_complete()
}

/// The state after the answer `response` to the export call for `group_id`
/// was handled at `now`.
pub open spec fn after_export(
    s: StateModel,
    group_id: GroupId,
    response: ResponseModel,
    now: TimestampMillis,
) -> StateModel {
    match response {
        ResponseModel::Success(bytes) => {
            let ledger = ledger_after_chunk(s.ledger, group_id, bytes);
            if completes(s, group_id, bytes) {
                StateModel {
                    ledger,
                    jobs: s.jobs.push(
                        ScheduledJobModel { job: JobModel::FinalizeGroupImport { group_id }, due: now },
                    ),
                    ..s
                }
            } else {
                StateModel { ledger, ..s }
            }
        },
        ResponseModel::Failure(text) => {
            if is_violation(text) {
                StateModel { ledger: s.ledger.remove(group_id), ..s }
            } else {
                after_start(
                    StateModel { ledger: ledger_after_failure(s.ledger, group_id, text), ..s },
                )
            }
        },
    }
}

/// The outcome reported for the answer `response`.
pub open spec fn export_outcome(s: StateModel, group_id: GroupId, response: ResponseModel)
    -> ImportOutcome {
    match response {
        ResponseModel::Success(bytes) => {
            if completes(s, group_id, bytes) {
                ImportOutcome::Complete { fallback_after: FINALIZE_FALLBACK_MILLIS }
            } else {
                ImportOutcome::Pending
            }
        },
        ResponseModel::Failure(text) => {
            if is_violation(text) {
                ImportOutcome::Abandoned
            } else {
                ImportOutcome::Retry {
                    start_job: should_start(
                        StateModel { ledger: ledger_after_failure(s.ledger, group_id, text), ..s },
                    ),
                }
            }
        },
    }
}

/// Handles the answer to the export call that was made for `group_id`.
///
/// Bytes are appended to the group's record; when they complete the
/// transfer, finalization is scheduled for `now`. A permanent failure drops
/// the record. Any other failure is noted in the record, which keeps its
/// offset, and the repeating trigger is asked for again.
pub fn import_group(
    state: &mut CommunityState,
    group_id: GroupId,
    response: ExportResponse,
    now: TimestampMillis,
) -> (outcome: ImportOutcome)
    requires
        old(state).wf(),
    ensures
        final(state).wf(),
        final(state)@ == after_export(old(state)@, group_id, response@, now),
        outcome == export_outcome(old(state)@, group_id, response@),
{
    match response {
        ExportResponse::Success(bytes) => {
            if state.groups_being_imported.mark_batch_complete(group_id, bytes.as_slice()) {
                state.timer_jobs.enqueue_job(TimerJob::FinalizeGroupImport { group_id }, now, now);
                ImportOutcome::Complete { fallback_after: FINALIZE_FALLBACK_MILLIS }
            } else {
                ImportOutcome::Pending
            }
        },
        ExportResponse::Failure(text) => {
            if is_contract_violation(text.as_str()) {
                state.groups_being_imported.take(group_id);
                ImportOutcome::Abandoned
            } else {
                state.groups_being_imported.mark_batch_failed(group_id, text);
                let start_job = start_job_if_required(state);
                ImportOutcome::Retry { start_job }
            }
        },
    }
}

/// What the fallback trigger does when it fires for `group_id`: returns
/// whether the group is still waiting to be finalized, in which case the
/// caller asks the group's registry to force a refresh of this community.
pub fn trigger_upgrade_to_finalize_import(state: &CommunityState, group_id: GroupId) -> (send:
    bool)
    requires
        state.wf(),
    ensures
        send == state@.ledger.contains_key(group_id),
{
    state.groups_being_imported.contains(group_id)
}

} // verus!
