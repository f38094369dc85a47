//! The batch scheduler: whether the repeating trigger has to be armed, and
//! what one firing of it does.

use crate::ledger::{is_batch_of, ledger_after_batch, LedgerModel, NextBatchResult};
use crate::state::{CommunityState, StateModel};
use crate::types::{GroupId, TimestampMillis};
use vstd::prelude::*;

verus! {

/// No group is being imported.
pub open spec fn no_imports(m: LedgerModel) -> bool {
    m == LedgerModel::empty()
}

/// Some group of the ledger is ready for its next chunk.
pub open spec fn some_ready(m: LedgerModel) -> bool {
    exists|g: GroupId| m.contains_key(g) && #[trigger] m[g].is_ready()
}

/// The repeating trigger must be armed: it is not running and there is work.
pub open spec fn should_start(s: StateModel) -> bool {
    !s.job_running && !no_imports(s.ledger)
}

/// The state after `start_job_if_required`.
pub open spec fn after_start(s: StateModel) -> StateModel {
    StateModel { job_running: s.job_running || should_start(s), ..s }
}

/// The state after the ledger was asked for the next batch at `now`.
pub open spec fn after_next_batch(s: StateModel, now: TimestampMillis) -> StateModel {
    StateModel { ledger: ledger_after_batch(s.ledger, now), ..s }
}

/// The state after one firing of the trigger at `now`: ready groups are in
/// flight, and the trigger is stopped if nothing is being imported.
pub open spec fn after_run(s: StateModel, now: TimestampMillis) -> StateModel {
    StateModel {
        ledger: ledger_after_batch(s.ledger, now),
        job_running: s.job_running && !no_imports(s.ledger),
        ..s
    }
}

/// What the caller has to do after one firing of the trigger.
#[derive(Debug)]
pub enum RunAction {
    /// Fetch the next chunk of each listed group, from the given offset.
    Import(Vec<(GroupId, u64)>),
    /// Nothing to do until the next firing.
    Wait,
    /// Cancel the repeating trigger.
    Stop,
}

/// Decides whether the repeating trigger has to be armed, and records it as
/// running if so. Returns whether the caller must arm it.
pub fn start_job_if_required(state: &mut CommunityState) -> (started: bool)
    requires
        old(state).wf(),
    ensures
        final(state).wf(),
        started == should_start(old(state)@),
        final(state)@ == after_start(old(state)@),
{
    if !state.import_job_running && !state.groups_being_imported.is_empty() {
        state.import_job_running = true;
        true
    } else {
        false
    }
}

/// Asks the ledger which groups are ready for their next chunk at `now` and
/// marks them in flight.
pub fn next_batch(state: &mut CommunityState, now: TimestampMillis) -> (r: NextBatchResult)
    requires
        old(state).wf(),
    ensures
        final(state).wf(),
        final(state)@ == after_next_batch(old(state)@, now),
        r is Exit <==> no_imports(old(state)@.ledger),
        r is Continue <==> !no_imports(old(state)@.ledger) && !some_ready(old(state)@.ledger),
        r is Success <==> some_ready(old(state)@.ledger),
        r matches NextBatchResult::Success(batch) ==> batch@.len() > 0 && is_batch_of(
            batch@,
            old(state)@.ledger,
        ),
{
    let r = state.groups_being_imported.next_batch(now);
    proof {
        let m = old(state)@.ledger;
        if r is Success {
            let batch = r->Success_0;
            assert(m.contains_key(batch@[0].0) && m[batch@[0].0].is_ready());
            assert(m.dom().contains(batch@[0].0));
        }
    }
    r
}

/// One firing of the repeating trigger at `now`.
pub fn run(state: &mut CommunityState, now: TimestampMillis) -> (action: RunAction)
    requires
        old(state).wf(),
    ensures
        final(state).wf(),
        final(state)@ == after_run(old(state)@, now),
        action is Stop <==> no_imports(old(state)@.ledger),
        action is Wait <==> !no_imports(old(state)@.ledger) && !some_ready(old(state)@.ledger),
        action is Import <==> some_ready(old(state)@.ledger),
        action matches RunAction::Import(batch) ==> batch@.len() > 0 && is_batch_of(
            batch@,
            old(state)@.ledger,
        ),
{
    match next_batch(state, now) {
        NextBatchResult::Success(groups) => RunAction::Import(groups),
        NextBatchResult::Continue => RunAction::Wait,
        NextBatchResult::Exit => {
            state.import_job_running = false;
            RunAction::Stop
        },
    }
}

} // verus!
