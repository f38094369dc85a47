//! Deferred jobs and the queue that holds them until they are due.

use crate::types::{BlobReference, ChannelId, GroupId, MessageIndex, TimestampMillis};
use vstd::prelude::*;

verus! {

/// A follow-up step that runs in a call of its own.
#[derive(Debug)]
pub enum TimerJob {
    /// Turn the bytes received for `group_id` into a channel.
    FinalizeGroupImport { group_id: GroupId },
    /// Bring the community's membership in line with the imported channel.
    /// `attempt` counts the principal lookups that have failed so far.
    ProcessGroupImportChannelMembers { group_id: GroupId, channel_id: ChannelId, attempt: u32 },
    /// Close the poll in the given message.
    EndPoll {
        channel_id: ChannelId,
        thread_root_message_index: Option<MessageIndex>,
        message_index: MessageIndex,
    },
    /// Release the files of a message that has expired.
    DeleteFileReferences { files: Vec<BlobReference> },
}

/// Mathematical value of a [`TimerJob`].
pub enum JobModel {
    FinalizeGroupImport { group_id: GroupId },
    ProcessGroupImportChannelMembers { group_id: GroupId, channel_id: ChannelId, attempt: u32 },
    EndPoll {
        channel_id: ChannelId,
        thread_root_message_index: Option<MessageIndex>,
        message_index: MessageIndex,
    },
    DeleteFileReferences { files: Seq<BlobReference> },
}

impl View for TimerJob {
    type V = JobModel;

    open spec fn view(&self) -> JobModel {
        match self {
            TimerJob::FinalizeGroupImport { group_id } => JobModel::FinalizeGroupImport {
                group_id: *group_id,
            },
            TimerJob::ProcessGroupImportChannelMembers {
                group_id,
                channel_id,
                attempt,
            } => JobModel::ProcessGroupImportChannelMembers {
                group_id: *group_id,
                channel_id: *channel_id,
                attempt: *attempt,
            },
            TimerJob::EndPoll {
                channel_id,
                thread_root_message_index,
                message_index,
            } => JobModel::EndPoll {
                channel_id: *channel_id,
                thread_root_message_index: *thread_root_message_index,
                message_index: *message_index,
            },
            TimerJob::DeleteFileReferences { files } => JobModel::DeleteFileReferences {
                files: files@,
            },
        }
    }
}

/// A job together with the time from which it may run.
#[derive(Debug)]
pub struct ScheduledJob {
    pub job: TimerJob,
    pub due: TimestampMillis,
}

/// Mathematical value of a [`ScheduledJob`].
pub struct ScheduledJobModel {
    pub job: JobModel,
    pub due: TimestampMillis,
}

impl View for ScheduledJob {
    type V = ScheduledJobModel;

    open spec fn view(&self) -> ScheduledJobModel {
        ScheduledJobModel { job: self.job@, due: self.due }
    }
}

/// The position of the first job of `q` that may run at `now`, or the length
/// of `q` if there is none.
pub open spec fn first_due(q: Seq<ScheduledJobModel>, now: TimestampMillis) -> int
    decreases q.len(),
{
    if q.len() == 0 {
        0
    } else if q[0].due <= now {
        0
    } else {
        1 + first_due(q.skip(1), now)
    }
}

/// `first_due` is the least position whose job is due.
pub proof fn lemma_first_due(q: Seq<ScheduledJobModel>, now: TimestampMillis)
    ensures
        0 <= first_due(q, now) <= q.len(),
        first_due(q, now) < q.len() ==> q[first_due(q, now)].due <= now,
        forall|j: int| 0 <= j < first_due(q, now) ==> q[j].due > now,
    decreases q.len(),
{
    if q.len() != 0 && q[0].due > now {
        lemma_first_due(q.skip(1), now);
        assert forall|j: int| 0 <= j < first_due(q, now) implies q[j].due > now by {
            if j > 0 {
                assert(q.skip(1)[j - 1] == q[j]);
            }
        }
        if first_due(q, now) < q.len() {
            assert(q.skip(1)[first_due(q, now) - 1] == q[first_due(q, now)]);
        }
    }
}

/// Any position that bounds the not-yet-due prefix and is itself due (or the
/// end) is `first_due`.
pub proof fn lemma_first_due_is(q: Seq<ScheduledJobModel>, now: TimestampMillis, i: int)
    requires
        0 <= i <= q.len(),
        forall|j: int| 0 <= j < i ==> q[j].due > now,
        i < q.len() ==> q[i].due <= now,
    ensures
        first_due(q, now) == i,
{
    lemma_first_due(q, now);
    let f = first_due(q, now);
    if f < i {
        assert(q[f].due > now);
    } else if i < f {
        assert(q[i].due > now);
    }
}

/// Jobs waiting to run, in the order in which they were enqueued.
#[derive(Debug)]
pub struct TimerJobs {
    queue: Vec<ScheduledJob>,
}

impl View for TimerJobs {
    type V = Seq<ScheduledJobModel>;

    closed spec fn view(&self) -> Seq<ScheduledJobModel> {
        self.queue@.map_values(|j: ScheduledJob| j@)
    }
}

impl TimerJobs {
    pub fn new() -> (r: TimerJobs)
        ensures
            r@ == Seq::<ScheduledJobModel>::empty(),
    {
        let r = TimerJobs { queue: Vec::new() };
        assert(r@ =~= Seq::<ScheduledJobModel>::empty());
        r
    }

    pub fn len(&self) -> (r: usize)
        ensures
            r == self@.len(),
    {
        self.queue.len()
    }

    /// The job at position `i`.
    pub fn get(&self, i: usize) -> (r: Option<&ScheduledJob>)
        ensures
            r is Some == (i < self@.len()),
            r matches Some(j) ==> j@ == self@[i as int],
    {
        if i < self.queue.len() {
            Some(&self.queue[i])
        } else {
            None
        }
    }

    /// Schedules `job` to run at or after `due`. `now` is the time of the
    /// call: a job that is due by then may be taken out at once.
    pub fn enqueue_job(&mut self, job: TimerJob, due: TimestampMillis, now: TimestampMillis)
        ensures
            final(self)@ == old(self)@.push(ScheduledJobModel { job: job@, due }),
    {
        let scheduled = ScheduledJob { job, due };
        self.queue.push(scheduled);
        assert(self@ =~= old(self)@.push(scheduled@));
    }

    /// Takes out the job that has waited longest among those due at `now`.
    pub fn take_due(&mut self, now: TimestampMillis) -> (r: Option<TimerJob>)
        ensures
            r is Some == (first_due(old(self)@, now) < old(self)@.len()),
            r matches Some(job) ==> job@ == old(self)@[first_due(old(self)@, now)].job,
            r is Some ==> final(self)@ == old(self)@.remove(first_due(old(self)@, now)),
            r is None ==> final(self)@ == old(self)@,
    {
        let mut i: usize = 0;
        while i < self.queue.len()
            invariant
                self.queue@ == old(self).queue@,
                i <= self.queue@.len(),
                forall|j: int| 0 <= j < i ==> self.queue@[j].due > now,
            decreases self.queue@.len() - i,
        {
            if self.queue[i].due <= now {
                proof {
                    assert forall|j: int| 0 <= j < i implies self@[j].due > now by {
                        assert(self.queue@[j].due > now);
                    }
                    lemma_first_due_is(self@, now, i as int);
                }
                let s = self.queue.remove(i);
                assert(self@ =~= old(self)@.remove(i as int));
                return Some(s.job);
            }
            i += 1;
        }
        proof {
            assert forall|j: int| 0 <= j < i implies self@[j].due > now by {
                assert(self.queue@[j].due > now);
            }
            lemma_first_due_is(self@, now, i as int);
        }
        None
    }
}

} // verus!
