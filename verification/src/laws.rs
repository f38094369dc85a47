//! Properties of the import pipeline as a whole, proved from the transition
//! functions that the contracts of the executable code are stated with.

use crate::channels::{channels_wf, ChannelsModel};
use crate::chat::{lemma_joined, lemma_removed, ChatMember, ChatModel};
use crate::events::EventModel;
use crate::finalize::after_finalize;
use crate::complete::after_complete;
use crate::jobs::{JobModel, ScheduledJobModel};
use crate::ledger::{is_batch_of, ledger_after_batch, EntryModel, LedgerModel, StatusModel};
use crate::members::AddResult;
use crate::reconcile::{
    admitted, after_lookup, after_members, after_prepare, bot_flag, members_outcome,
    resolved_users, LookupModel, MembersOutcome, UserPrincipalModel,
};
use crate::scheduler::{after_run, after_start, no_imports, should_start};
use crate::state::StateModel;
use crate::transfer::{after_export, export_outcome, is_violation, ImportOutcome, ResponseModel};
use crate::types::{
    ChannelId, GroupId, TimestampMillis, UserId, FINALIZE_FALLBACK_MILLIS, MAX_LOOKUP_RETRIES,
    SYSTEM_USER_ID,
};
use vstd::prelude::*;

verus! {

/// The chunks of `chunks` joined end to end, first chunk first.
pub open spec fn concat(chunks: Seq<Seq<u8>>) -> Seq<u8>
    decreases chunks.len(),
{
    if chunks.len() == 0 {
        Seq::empty()
    } else {
        concat(chunks.drop_last()) + chunks.last()
    }
}

/// The state after the export calls for `group_id` were answered with the
/// chunks of `chunks`, one after the other, the `k`-th at time `times[k]`.
pub open spec fn after_chunks(
    s: StateModel,
    group_id: GroupId,
    chunks: Seq<Seq<u8>>,
    times: Seq<TimestampMillis>,
) -> StateModel
    decreases chunks.len(),
{
    if chunks.len() == 0 {
        s
    } else {
        after_export(
            after_chunks(s, group_id, chunks.drop_last(), times.drop_last()),
            group_id,
            ResponseModel::Success(chunks.last()),
            times.last(),
        )
    }
}

/// Chunks are assembled in the order of their offsets: after any run of
/// successful answers the group's record holds what it held before followed
/// by the chunks joined end to end, so each chunk lies at the offset that was
/// requested for it, and the record is complete exactly when that many bytes
/// make up the group's whole state. These are the bytes that finalization
/// hands to the decoder.
pub proof fn law_chunks_are_concatenated(
    s: StateModel,
    group_id: GroupId,
    chunks: Seq<Seq<u8>>,
    times: Seq<TimestampMillis>,
)
    requires
        s.ledger.contains_key(group_id),
        chunks.len() == times.len(),
    ensures
        after_chunks(s, group_id, chunks, times).ledger.contains_key(group_id),
        after_chunks(s, group_id, chunks, times).ledger[group_id].bytes
            == s.ledger[group_id].bytes + concat(chunks),
        after_chunks(s, group_id, chunks, times).ledger[group_id].channel_id
            == s.ledger[group_id].channel_id,
        after_chunks(s, group_id, chunks, times).ledger[group_id].total_bytes
            == s.ledger[group_id].total_bytes,
        after_chunks(s, group_id, chunks, times).ledger[group_id].is_complete() <==> (
        s.ledger[group_id].bytes + concat(chunks)).len() == s.ledger[group_id].total_bytes,
        s.ledger[group_id].bytes.len() == 0 ==> after_chunks(
            s,
            group_id,
            chunks,
            times,
        ).ledger[group_id].bytes == concat(chunks),
    decreases chunks.len(),
{
    assert(s.ledger[group_id].bytes.len() == 0 ==> s.ledger[group_id].bytes + concat(chunks)
        =~= concat(chunks));
    if chunks.len() == 0 {
        assert(s.ledger[group_id].bytes + concat(chunks) =~= s.ledger[group_id].bytes);
    } else {
        law_chunks_are_concatenated(s, group_id, chunks.drop_last(), times.drop_last());
        let s1 = after_chunks(s, group_id, chunks.drop_last(), times.drop_last());
        assert(s1.ledger[group_id].bytes + chunks.last() =~= s.ledger[group_id].bytes + concat(
            chunks,
        ));
    }
}

/// The answer that brings the last missing bytes schedules finalization, and
/// no answer before it does.
pub proof fn law_last_chunk_schedules_finalization(
    s: StateModel,
    group_id: GroupId,
    bytes: Seq<u8>,
    now: TimestampMillis,
)
    requires
        s.ledger.contains_key(group_id),
    ensures
        s.ledger[group_id].bytes.len() + bytes.len() == s.ledger[group_id].total_bytes ==> {
            &&& export_outcome(s, group_id, ResponseModel::Success(bytes))
                == (ImportOutcome::Complete { fallback_after: FINALIZE_FALLBACK_MILLIS })
            &&& after_export(s, group_id, ResponseModel::Success(bytes), now).jobs == s.jobs.push(
                ScheduledJobModel { job: JobModel::FinalizeGroupImport { group_id }, due: now },
            )
        },
        s.ledger[group_id].bytes.len() + bytes.len() != s.ledger[group_id].total_bytes ==> {
            &&& export_outcome(s, group_id, ResponseModel::Success(bytes))
                == ImportOutcome::Pending
            &&& after_export(s, group_id, ResponseModel::Success(bytes), now).jobs == s.jobs
        },
{
}

/// Every group in `flights` has a record that is marked in flight.
pub open spec fn flights_recorded(m: LedgerModel, flights: Set<GroupId>) -> bool {
    forall|g: GroupId| #[trigger]
        flights.contains(g) ==> m.contains_key(g) && m[g].status is InFlight
}

/// The groups named in a batch.
pub open spec fn batch_groups(batch: Seq<(GroupId, u64)>) -> Set<GroupId> {
    Set::new(|g: GroupId| exists|i: int| 0 <= i < batch.len() && #[trigger] batch[i].0 == g)
}

/// At most one fetch per group, at a tick: if every outstanding fetch is
/// recorded in the ledger, a tick issues no fetch for a group that has one
/// outstanding, names no group twice, and records every fetch it issues.
pub proof fn law_tick_issues_one_fetch_per_group(
    m: LedgerModel,
    flights: Set<GroupId>,
    batch: Seq<(GroupId, u64)>,
    now: TimestampMillis,
)
    requires
        flights_recorded(m, flights),
        is_batch_of(batch, m),
    ensures
        forall|i: int| 0 <= i < batch.len() ==> !flights.contains(#[trigger] batch[i].0),
        forall|i: int, j: int|
            0 <= i < batch.len() && 0 <= j < batch.len() && i != j ==> batch[i].0 != batch[j].0,
        flights_recorded(ledger_after_batch(m, now), flights.union(batch_groups(batch))),
{
    let m2 = ledger_after_batch(m, now);
    assert forall|g: GroupId| #[trigger]
        flights.union(batch_groups(batch)).contains(g) implies m2.contains_key(g)
        && m2[g].status is InFlight by {
        if !flights.contains(g) {
            let i = choose|i: int| 0 <= i < batch.len() && #[trigger] batch[i].0 == g;
            assert(m.contains_key(batch[i].0));
        }
    }
}

/// Right after a tick no group is ready, so a second tick before any answer
/// has been handled issues nothing.
pub proof fn law_second_tick_issues_nothing(
    m: LedgerModel,
    now: TimestampMillis,
    batch: Seq<(GroupId, u64)>,
)
    requires
        is_batch_of(batch, ledger_after_batch(m, now)),
    ensures
        batch.len() == 0,
{
    if batch.len() > 0 {
        let m2 = ledger_after_batch(m, now);
        assert(m2.contains_key(batch[0].0));
        assert(m.contains_key(batch[0].0));
    }
}

/// At most one fetch per group, at an answer: handling the answer to the
/// fetch for `group_id` leaves every other outstanding fetch recorded.
pub proof fn law_answer_keeps_other_flights(
    s: StateModel,
    flights: Set<GroupId>,
    group_id: GroupId,
    response: ResponseModel,
    now: TimestampMillis,
)
    requires
        flights_recorded(s.ledger, flights),
    ensures
        flights_recorded(
            after_export(s, group_id, response, now).ledger,
            flights.remove(group_id),
        ),
{
}

/// A group whose whole state has arrived is never fetched again, and neither
/// is a group that is not in the ledger.
pub proof fn law_only_incomplete_groups_are_fetched(
    m: LedgerModel,
    batch: Seq<(GroupId, u64)>,
    i: int,
)
    requires
        is_batch_of(batch, m),
        0 <= i < batch.len(),
    ensures
        m.contains_key(batch[i].0),
        !m[batch[i].0].is_complete(),
        batch[i].1 == m[batch[i].0].bytes.len(),
{
}

/// `a` is an initial stretch of `b`.
pub open spec fn is_prefix(a: Seq<u8>, b: Seq<u8>) -> bool {
    a.len() <= b.len() && b.subrange(0, a.len() as int) == a
}

/// Offsets only advance: neither a tick nor the answer to an export call
/// takes back a byte that a record holds, and only a successful answer adds
/// any, at the end.
pub proof fn law_received_bytes_are_kept(
    s: StateModel,
    group_id: GroupId,
    response: ResponseModel,
    now: TimestampMillis,
    g: GroupId,
)
    requires
        after_export(s, group_id, response, now).ledger.contains_key(g),
    ensures
        s.ledger.contains_key(g),
        after_run(s, now).ledger.contains_key(g),
        after_run(s, now).ledger[g].bytes == s.ledger[g].bytes,
        is_prefix(s.ledger[g].bytes, after_export(s, group_id, response, now).ledger[g].bytes),
        !(g == group_id && response is Success) ==> after_export(
            s,
            group_id,
            response,
            now,
        ).ledger[g].bytes == s.ledger[g].bytes,
        g == group_id ==> (forall|bytes: Seq<u8>|
            response == ResponseModel::Success(bytes) ==> after_export(
                s,
                group_id,
                response,
                now,
            ).ledger[g].bytes == s.ledger[g].bytes + bytes),
{
    let s2 = after_export(s, group_id, response, now);
    assert(s2.ledger[g].bytes.subrange(0, s.ledger[g].bytes.len() as int) =~= s.ledger[g].bytes);
}

/// A permanent failure ends the import for good: the group leaves the
/// ledger, no job is scheduled, later ticks do not fetch it, a late answer
/// for it changes nothing, and finalizing it does nothing.
pub proof fn law_violation_abandons_import(
    s: StateModel,
    group_id: GroupId,
    text: Seq<char>,
    now: TimestampMillis,
)
    requires
        is_violation(text),
    ensures
        export_outcome(s, group_id, ResponseModel::Failure(text)) == ImportOutcome::Abandoned,
        !after_export(s, group_id, ResponseModel::Failure(text), now).ledger.contains_key(
            group_id,
        ),
        after_export(s, group_id, ResponseModel::Failure(text), now) == (StateModel {
            ledger: s.ledger.remove(group_id),
            ..s
        }),
        forall|later: TimestampMillis|
            !(#[trigger] after_run(
                after_export(s, group_id, ResponseModel::Failure(text), now),
                later,
            )).ledger.contains_key(group_id),
        forall|batch: Seq<(GroupId, u64)>, i: int|
            is_batch_of(batch, after_export(s, group_id, ResponseModel::Failure(text), now).ledger)
                && 0 <= i < batch.len() ==> (#[trigger] batch[i]).0 != group_id,
        forall|bytes: Seq<u8>, later: TimestampMillis| #[trigger]
            after_export(
                after_export(s, group_id, ResponseModel::Failure(text), now),
                group_id,
                ResponseModel::Success(bytes),
                later,
            ) == after_export(s, group_id, ResponseModel::Failure(text), now),
        forall|chat: ChatModel, later: TimestampMillis| #[trigger]
            after_finalize(
                after_export(s, group_id, ResponseModel::Failure(text), now),
                group_id,
                chat,
                later,
            ) == after_export(s, group_id, ResponseModel::Failure(text), now),
{
    let s2 = after_export(s, group_id, ResponseModel::Failure(text), now);
    assert forall|batch: Seq<(GroupId, u64)>, i: int|
        is_batch_of(batch, s2.ledger) && 0 <= i < batch.len() implies (#[trigger] batch[i]).0
        != group_id by {
        assert(s2.ledger.contains_key(batch[i].0));
    }
}

/// A failure that is not permanent costs nothing but time: the record keeps
/// its bytes, and with them its offset, it notes the reason, the repeating
/// trigger is armed, and unless the transfer was complete already the next
/// tick fetches the same chunk again.
pub proof fn law_transient_failure_is_retried(
    s: StateModel,
    group_id: GroupId,
    text: Seq<char>,
    now: TimestampMillis,
    later: TimestampMillis,
    batch: Seq<(GroupId, u64)>,
)
    requires
        !is_violation(text),
        s.ledger.contains_key(group_id),
        is_batch_of(batch, after_export(s, group_id, ResponseModel::Failure(text), now).ledger),
    ensures
        after_export(s, group_id, ResponseModel::Failure(text), now).ledger.contains_key(group_id),
        after_export(s, group_id, ResponseModel::Failure(text), now).ledger[group_id] == (
        EntryModel { status: StatusModel::Failed { reason: text }, ..s.ledger[group_id] }),
        after_export(s, group_id, ResponseModel::Failure(text), now).job_running,
        after_export(s, group_id, ResponseModel::Failure(text), now).jobs == s.jobs,
        export_outcome(s, group_id, ResponseModel::Failure(text)) == (ImportOutcome::Retry {
            start_job: !s.job_running,
        }),
        !s.ledger[group_id].is_complete() ==> exists|i: int|
            0 <= i < batch.len() && #[trigger] batch[i] == (
                group_id,
                s.ledger[group_id].bytes.len() as u64,
            ),
{
    let s2 = after_export(s, group_id, ResponseModel::Failure(text), now);
    assert(s2.ledger.contains_key(group_id));
    assert(!no_imports(s2.ledger)) by {
        assert(s2.ledger.dom().contains(group_id));
    }
    if !s.ledger[group_id].is_complete() {
        assert(s2.ledger[group_id].is_ready());
        let i = choose|i: int| 0 <= i < batch.len() && #[trigger] batch[i].0 == group_id;
        assert(s2.ledger.contains_key(batch[i].0));
        assert(batch[i] == (group_id, s.ledger[group_id].bytes.len() as u64));
    }
}

/// The scheduler stops exactly when nothing is being imported, and a request
/// to start it afterwards arms it again as soon as there is work.
pub proof fn law_scheduler_stops_and_restarts(
    s: StateModel,
    now: TimestampMillis,
    group_id: GroupId,
    entry: EntryModel,
)
    requires
        s.job_running,
    ensures
        after_run(s, now).job_running <==> !no_imports(s.ledger),
        no_imports(s.ledger) ==> {
            let stopped = after_run(s, now);
            let busy = StateModel { ledger: stopped.ledger.insert(group_id, entry), ..stopped };
            &&& !should_start(stopped)
            &&& after_start(stopped) == stopped
            &&& should_start(busy)
            &&& after_start(busy).job_running
            &&& !should_start(after_start(busy))
        },
{
    if no_imports(s.ledger) {
        let stopped = after_run(s, now);
        assert(stopped.ledger =~= s.ledger);
        let busy = StateModel { ledger: stopped.ledger.insert(group_id, entry), ..stopped };
        assert(busy.ledger.dom().contains(group_id));
    }
}

/// The attempt count with which reconciliation is scheduled after `n` lookups
/// in a row have failed, counted from a first attempt numbered zero; `None`
/// once reconciliation has completed instead of being scheduled again.
pub open spec fn attempt_after_failures(n: nat) -> Option<u32>
    decreases n,
{
    if n == 0 {
        Some(0)
    } else {
        match attempt_after_failures((n - 1) as nat) {
            Some(attempt) => match members_outcome(attempt, LookupModel::Failed) {
                MembersOutcome::Retry { attempt } => Some(attempt),
                MembersOutcome::Completed => None,
            },
            None => None,
        }
    }
}

/// Retries are bounded: each of the first thirty failed lookups schedules
/// the next attempt, and the thirty-first completes the reconciliation.
pub proof fn law_lookup_retries_are_bounded(n: nat)
    ensures
        n <= MAX_LOOKUP_RETRIES ==> attempt_after_failures(n) == Some(n as u32),
        n > MAX_LOOKUP_RETRIES ==> attempt_after_failures(n) is None,
    decreases n,
{
    if n > 0 {
        law_lookup_retries_are_bounded((n - 1) as nat);
    }
}

/// A failed lookup either schedules the step again and changes nothing
/// else, or, when the retries are used up, completes the reconciliation
/// with nobody added: the import event is logged with an empty list.
pub proof fn law_failed_lookup(
    s: StateModel,
    group_id: GroupId,
    channel_id: ChannelId,
    attempt: u32,
    to_add: Seq<ChatMember>,
    now: TimestampMillis,
)
    ensures
        attempt < MAX_LOOKUP_RETRIES ==> {
            &&& members_outcome(attempt, LookupModel::Failed) == (MembersOutcome::Retry {
                attempt: (attempt + 1) as u32,
            })
            &&& after_members(s, group_id, channel_id, attempt, to_add, LookupModel::Failed, now)
                == (StateModel {
                jobs: s.jobs.push(
                    ScheduledJobModel {
                        job: JobModel::ProcessGroupImportChannelMembers {
                            group_id,
                            channel_id,
                            attempt: (attempt + 1) as u32,
                        },
                        due: now,
                    },
                ),
                ..s
            })
        },
        attempt >= MAX_LOOKUP_RETRIES ==> {
            &&& members_outcome(attempt, LookupModel::Failed) == MembersOutcome::Completed
            &&& after_members(s, group_id, channel_id, attempt, to_add, LookupModel::Failed, now)
                == (StateModel {
                events: s.events.push(
                    EventModel {
                        group_id,
                        channel_id,
                        members_added: Seq::empty(),
                        timestamp: now,
                    },
                ),
                ..s
            })
        },
{
}

/// What processing resolved users keeps and achieves.
pub open spec fn lookup_effects(
    s: StateModel,
    s2: StateModel,
    added: Seq<UserId>,
    channel_id: ChannelId,
    users: Seq<UserPrincipalModel>,
) -> bool {
    &&& s2.name == s.name
    &&& s2.frozen == s.frozen
    &&& s2.job_running == s.job_running
    &&& s2.ledger == s.ledger
    &&& s2.jobs == s.jobs
    &&& s2.events == s.events
    &&& s2.members.blocked == s.members.blocked
    &&& channels_wf(s2.channels)
    &&& forall|id: ChannelId| s2.channels.contains_key(id) == s.channels.contains_key(id)
    &&& forall|id: ChannelId|
        s.channels.contains_key(id) ==> (#[trigger] s2.channels[id]).date_imported
            == s.channels[id].date_imported
    &&& forall|u: UserId|
        s.members.members.contains_key(u) ==> #[trigger] s2.members.members.contains_key(u)
    &&& forall|i: int|
        0 <= i < users.len() && !s.members.blocked.contains((#[trigger] users[i]).user_id)
            ==> s2.members.members.contains_key(users[i].user_id)
    &&& forall|i: int|
        0 <= i < users.len() && s.members.blocked.contains((#[trigger] users[i]).user_id)
            ==> !s2.channels[channel_id].chat.has_member(users[i].user_id)
    &&& forall|k: int|
        0 <= k < added.len() ==> {
            &&& !s.members.members.contains_key(#[trigger] added[k])
            &&& s2.members.members.contains_key(added[k])
            &&& s2.members.members[added[k]].channels.contains(channel_id)
            &&& exists|i: int| 0 <= i < users.len() && (#[trigger] users[i]).user_id == added[k]
        }
    &&& forall|i: int|
        0 <= i < users.len() && !s.members.blocked.contains((#[trigger] users[i]).user_id)
            && !s.members.members.contains_key(users[i].user_id) ==> added.contains(
            users[i].user_id,
        )
}

/// When the lookup succeeds, everybody it resolved who is not barred from
/// the community is a member afterwards, and the imported channel is in the
/// record of each user who joined through the import; those are exactly the
/// resolved users who were neither barred nor members before. Everybody it
/// resolved who is barred is gone from the imported channel. Members stay
/// members, no channel's import date changes, and the ledger, the job queue
/// and the event log are untouched.
pub proof fn law_resolved_members_join(
    s: StateModel,
    channel_id: ChannelId,
    to_add: Seq<ChatMember>,
    users: Seq<UserPrincipalModel>,
    now: TimestampMillis,
)
    requires
        channels_wf(s.channels),
        s.channels.contains_key(channel_id),
    ensures
        lookup_effects(
            s,
            after_lookup(s, channel_id, to_add, users, now).0,
            after_lookup(s, channel_id, to_add, users, now).1,
            channel_id,
            users,
        ),
    decreases users.len(),
{
    if users.len() > 0 {
        let head = users.drop_last();
        law_resolved_members_join(s, channel_id, to_add, head, now);
        let (s1, added1) = after_lookup(s, channel_id, to_add, head, now);
        let (s2, added) = after_lookup(s, channel_id, to_add, users, now);
        let user = users.last();
        let u = user.user_id;
        let is_bot = bot_flag(to_add, u);
        let joins = s1.members.add_result(u) == AddResult::Success;
        assert(s2 == admitted(s1, channel_id, user, is_bot, now));
        assert(added == if joins { added1.push(u) } else { added1 });
        assert forall|i: int| 0 <= i < head.len() implies head[i] == users[i] by {}
        // every channel keeps its date and, but for `u`, its members
        assert forall|id: ChannelId| s1.channels.contains_key(id) implies (
        #[trigger] s2.channels[id]).chat.wf() && s2.channels.contains_key(id) && (forall|v: UserId|
            v != u ==> (s2.channels[id].chat.has_member(v) == s1.channels[id].chat.has_member(v)))
            && s2.channels[id].date_imported == s1.channels[id].date_imported by {
            lemma_joined(s1.channels[id].chat, u, is_bot);
            lemma_removed(s1.channels[id].chat, u, SYSTEM_USER_ID);
        }
        lemma_removed(s1.channels[channel_id].chat, u, SYSTEM_USER_ID);
        // those who joined
        assert forall|k: int| 0 <= k < added.len() implies {
            &&& !s.members.members.contains_key(#[trigger] added[k])
            &&& s2.members.members.contains_key(added[k])
            &&& s2.members.members[added[k]].channels.contains(channel_id)
            &&& exists|i: int| 0 <= i < users.len() && (#[trigger] users[i]).user_id == added[k]
        } by {
            if k < added1.len() {
                let i = choose|i: int|
                    0 <= i < head.len() && (#[trigger] head[i]).user_id == added1[k];
                assert(users[i].user_id == added[k]);
                assert(s1.members.members.contains_key(added1[k]));
            } else {
                assert(users[users.len() - 1].user_id == added[k]);
            }
        }
        // nobody who should have joined is missing
        assert forall|i: int|
            0 <= i < users.len() && !s.members.blocked.contains((#[trigger] users[i]).user_id)
                && !s.members.members.contains_key(users[i].user_id) implies added.contains(
            users[i].user_id,
        ) by {
            if i < head.len() {
                let k = added1.index_of(head[i].user_id);
                assert(added[k] == users[i].user_id);
            } else if joins {
                assert(added[added1.len() as int] == u);
            } else {
                lemma_member_since(s, channel_id, to_add, head, now, u);
            }
        }
        // those who are barred stay out of the channel
        assert forall|i: int|
            0 <= i < users.len() && s.members.blocked.contains(
                (#[trigger] users[i]).user_id,
            ) implies !s2.channels[channel_id].chat.has_member(users[i].user_id) by {
            if i < head.len() {
                assert(head[i] == users[i]);
            }
        }
    }
}

/// A lookup that succeeds completes the reconciliation at once, whatever the
/// attempt count: the import event lists the users who joined the community,
/// everybody the lookup resolved who is not barred is a member, everybody
/// who joined has the imported channel in their record, and everybody it
/// resolved who is barred is gone from the imported channel.
pub proof fn law_resolved_lookup_completes(
    s: StateModel,
    group_id: GroupId,
    channel_id: ChannelId,
    attempt: u32,
    to_add: Seq<ChatMember>,
    users: Seq<UserPrincipalModel>,
    now: TimestampMillis,
)
    requires
        channels_wf(s.channels),
        s.channels.contains_key(channel_id),
    ensures
        members_outcome(attempt, LookupModel::Resolved(users)) == MembersOutcome::Completed,
        ({
            let s2 = after_members(
                s,
                group_id,
                channel_id,
                attempt,
                to_add,
                LookupModel::Resolved(users),
                now,
            );
            let added = after_lookup(s, channel_id, to_add, users, now).1;
            &&& s2.events == s.events.push(
                EventModel { group_id, channel_id, members_added: added, timestamp: now },
            )
            &&& s2.jobs == s.jobs
            &&& forall|i: int|
                0 <= i < users.len() && !s.members.blocked.contains((#[trigger] users[i]).user_id)
                    ==> s2.members.members.contains_key(users[i].user_id)
            &&& forall|k: int|
                0 <= k < added.len() ==> s2.members.members.contains_key(#[trigger] added[k])
                    && s2.members.members[added[k]].channels.contains(channel_id)
            &&& forall|i: int|
                0 <= i < users.len() && s.members.blocked.contains((#[trigger] users[i]).user_id)
                    ==> !s2.channels[channel_id].chat.has_member(users[i].user_id)
        }),
{
    law_resolved_members_join(s, channel_id, to_add, users, now);
}

/// Somebody who is a member after the resolved users were processed, was not
/// one before and is not barred, is listed among those who joined.
proof fn lemma_member_since(
    s: StateModel,
    channel_id: ChannelId,
    to_add: Seq<ChatMember>,
    users: Seq<UserPrincipalModel>,
    now: TimestampMillis,
    u: UserId,
)
    requires
        after_lookup(s, channel_id, to_add, users, now).0.members.members.contains_key(u),
        !s.members.members.contains_key(u),
    ensures
        after_lookup(s, channel_id, to_add, users, now).1.contains(u),
    decreases users.len(),
{
    if users.len() > 0 {
        let head = users.drop_last();
        let (s1, added1) = after_lookup(s, channel_id, to_add, head, now);
        let (s2, added) = after_lookup(s, channel_id, to_add, users, now);
        let user = users.last();
        if s1.members.members.contains_key(u) {
            lemma_member_since(s, channel_id, to_add, head, now, u);
            let k = added1.index_of(u);
            assert(added[k] == u);
        } else {
            assert(user.user_id == u);
            assert(added == added1.push(u));
            assert(added[added1.len() as int] == u);
        }
    }
}

/// A channel's import date stays unset until completion: finalization
/// installs the channel without a date, neither half of a reconciliation
/// step changes any channel's date, and only the completion step sets it.
pub proof fn law_import_date_set_only_on_completion(
    s: StateModel,
    group_id: GroupId,
    channel_id: ChannelId,
    chat: ChatModel,
    attempt: u32,
    to_add: Seq<ChatMember>,
    lookup: LookupModel,
    now: TimestampMillis,
)
    requires
        channels_wf(s.channels),
        s.channels.contains_key(channel_id),
    ensures
        s.ledger.contains_key(group_id) ==> after_finalize(
            s,
            group_id,
            chat,
            now,
        ).channels[s.ledger[group_id].channel_id].date_imported is None,
        after_prepare(s, channel_id).channels == s.channels,
        forall|id: ChannelId|
            s.channels.contains_key(id) ==> (#[trigger] after_members(
                s,
                group_id,
                channel_id,
                attempt,
                to_add,
                lookup,
                now,
            ).channels[id]).date_imported == s.channels[id].date_imported,
        after_complete(s, channel_id, now).channels[channel_id].date_imported == Some(now),
{
    let users = resolved_users(lookup);
    law_resolved_members_join(s, channel_id, to_add, users, now);
}

/// The transfer of a group never touches a channel: neither a tick nor the
/// answer to an export call changes the channel table.
pub proof fn law_transfer_leaves_channels_alone(
    s: StateModel,
    group_id: GroupId,
    response: ResponseModel,
    now: TimestampMillis,
)
    ensures
        after_run(s, now).channels == s.channels,
        after_start(s).channels == s.channels,
        after_export(s, group_id, response, now).channels == s.channels,
{
}

/// Finalizing a group a second time changes nothing, whatever the decoder
/// would return and whenever it happens.
pub proof fn law_finalize_is_idempotent(
    s: StateModel,
    group_id: GroupId,
    chat: ChatModel,
    now: TimestampMillis,
    chat_again: ChatModel,
    later: TimestampMillis,
)
    ensures
        after_finalize(after_finalize(s, group_id, chat, now), group_id, chat_again, later)
            == after_finalize(s, group_id, chat, now),
{
}

} // verus!
