//! The import ledger: one record per group whose history is being transferred.

use crate::keyed::{
    keyed_map, lemma_keyed_at, lemma_keyed_empty, lemma_keyed_push, lemma_keyed_remove,
    lemma_keyed_update,
};
use crate::types::{ChannelId, GroupId, TimestampMillis};
use vstd::prelude::*;

verus! {

/// Where a group's transfer stands between two scheduler ticks.
#[derive(Debug)]
pub enum TransferStatus {
    /// No fetch is outstanding; the next chunk may be requested.
    Idle,
    /// A fetch was issued at `since` and has not been answered yet.
    InFlight { since: TimestampMillis },
    /// The last fetch failed for the given reason; the chunk may be requested again.
    Failed { reason: String },
}

/// Mathematical value of a [`TransferStatus`].
pub enum StatusModel {
    Idle,
    InFlight { since: TimestampMillis },
    Failed { reason: Seq<char> },
}

impl View for TransferStatus {
    type V = StatusModel;

    open spec fn view(&self) -> StatusModel {
        match self {
            TransferStatus::Idle => StatusModel::Idle,
            TransferStatus::InFlight { since } => StatusModel::InFlight { since: *since },
            TransferStatus::Failed { reason } => StatusModel::Failed { reason: reason@ },
        }
    }
}

/// Mathematical value of a ledger record.
pub struct EntryModel {
    /// The channel that will receive the group.
    pub channel_id: ChannelId,
    /// The size of the group's exported state.
    pub total_bytes: u64,
    /// The bytes received so far; their number is the transfer offset.
    pub bytes: Seq<u8>,
    pub status: StatusModel,
}

impl EntryModel {
    /// The record of a transfer that has not started.
    pub open spec fn fresh(channel_id: ChannelId, total_bytes: u64) -> EntryModel {
        EntryModel { channel_id, total_bytes, bytes: Seq::empty(), status: StatusModel::Idle }
    }

    /// The whole exported state has arrived.
    pub open spec fn is_complete(self) -> bool {
        self.bytes.len() == self.total_bytes
    }

    /// The scheduler may request the next chunk: nothing is outstanding and
    /// something is still missing.
    pub open spec fn is_ready(self) -> bool {
        !(self.status is InFlight) && !self.is_complete()
    }

    /// The record once a fetch has been issued at `now`.
    pub open spec fn started(self, now: TimestampMillis) -> EntryModel {
        EntryModel { status: StatusModel::InFlight { since: now }, ..self }
    }

    /// The record once `data` has been received in answer to a fetch.
    pub open spec fn received(self, data: Seq<u8>) -> EntryModel {
        EntryModel { bytes: self.bytes + data, status: StatusModel::Idle, ..self }
    }

    /// The record once a fetch has failed with `reason`.
    pub open spec fn failed(self, reason: Seq<char>) -> EntryModel {
        EntryModel { status: StatusModel::Failed { reason }, ..self }
    }
}

/// The ledger's mathematical value: its records by group.
pub type LedgerModel = Map<GroupId, EntryModel>;

/// The ledger after a scheduler tick at `now`: every ready record is in flight.
pub open spec fn ledger_after_batch(m: LedgerModel, now: TimestampMillis) -> LedgerModel {
    m.map_values(
        |e: EntryModel|
            if e.is_ready() {
                e.started(now)
            } else {
                e
            },
    )
}

/// The ledger after `data` arrived for `group_id`; a group that is not being
/// imported is ignored.
pub open spec fn ledger_after_chunk(m: LedgerModel, group_id: GroupId, data: Seq<u8>)
    -> LedgerModel {
    if m.contains_key(group_id) {
        m.insert(group_id, m[group_id].received(data))
    } else {
        m
    }
}

/// The ledger after a fetch for `group_id` failed with `reason`.
pub open spec fn ledger_after_failure(m: LedgerModel, group_id: GroupId, reason: Seq<char>)
    -> LedgerModel {
    if m.contains_key(group_id) {
        m.insert(group_id, m[group_id].failed(reason))
    } else {
        m
    }
}

/// `batch` lists, once each, the groups of `m` that are ready, each with its offset.
pub open spec fn is_batch_of(batch: Seq<(GroupId, u64)>, m: LedgerModel) -> bool {
    &&& forall|i: int, j: int|
        0 <= i < batch.len() && 0 <= j < batch.len() && i != j ==> batch[i].0 != batch[j].0
    &&& forall|i: int|
        0 <= i < batch.len() ==> {
            &&& m.contains_key(#[trigger] batch[i].0)
            &&& m[batch[i].0].is_ready()
            &&& batch[i].1 == m[batch[i].0].bytes.len()
        }
    &&& forall|g: GroupId|
        m.contains_key(g) && #[trigger] m[g].is_ready() ==> exists|i: int|
            0 <= i < batch.len() && #[trigger] batch[i].0 == g
}

/// One group's record in the ledger.
#[derive(Debug)]
pub struct LedgerEntry {
    group_id: GroupId,
    channel_id: ChannelId,
    total_bytes: u64,
    bytes: Vec<u8>,
    status: TransferStatus,
}

impl View for LedgerEntry {
    type V = EntryModel;

    closed spec fn view(&self) -> EntryModel {
        EntryModel {
            channel_id: self.channel_id,
            total_bytes: self.total_bytes,
            bytes: self.bytes@,
            status: self.status@,
        }
    }
}

impl LedgerEntry {
    /// The group this record belongs to.
    pub closed spec fn group(&self) -> GroupId {
        self.group_id
    }

    pub fn group_id(&self) -> (r: GroupId)
        ensures
            r == self.group(),
    {
        self.group_id
    }

    pub fn channel_id(&self) -> (r: ChannelId)
        ensures
            r == self@.channel_id,
    {
        self.channel_id
    }

    pub fn total_bytes(&self) -> (r: u64)
        ensures
            r == self@.total_bytes,
    {
        self.total_bytes
    }

    pub fn bytes(&self) -> (r: &Vec<u8>)
        ensures
            r@ == self@.bytes,
    {
        &self.bytes
    }

    pub fn status(&self) -> (r: &TransferStatus)
        ensures
            r@ == self@.status,
    {
        &self.status
    }

    /// The offset from which the next chunk is requested.
    pub fn offset(&self) -> (r: u64)
        ensures
            r == self@.bytes.len(),
    {
        self.bytes.len() as u64
    }

    pub fn is_complete(&self) -> (r: bool)
        ensures
            r == self@.is_complete(),
    {
        self.bytes.len() as u64 == self.total_bytes
    }

    pub fn is_in_flight(&self) -> (r: bool)
        ensures
            r == (self@.status is InFlight),
    {
        match self.status {
            TransferStatus::InFlight { .. } => true,
            _ => false,
        }
    }

    fn is_ready(&self) -> (r: bool)
        ensures
            r == self@.is_ready(),
    {
        !self.is_in_flight() && !self.is_complete()
    }
}

/// What a scheduler tick found in the ledger.
#[derive(Debug)]
pub enum NextBatchResult {
    /// These groups were ready and are now in flight; each comes with the offset
    /// of its next chunk.
    Success(Vec<(GroupId, u64)>),
    /// Groups are being imported but none of them is ready.
    Continue,
    /// No group is being imported.
    Exit,
}

/// The groups being imported, at most one record for each.
#[derive(Debug)]
pub struct ImportLedger {
    entries: Vec<LedgerEntry>,
}

impl View for ImportLedger {
    type V = LedgerModel;

    closed spec fn view(&self) -> LedgerModel {
        keyed_map(self.keys(), self.vals())
    }
}

impl ImportLedger {
    closed spec fn keys(&self) -> Seq<u64> {
        self.entries@.map_values(|e: LedgerEntry| e.group_id)
    }

    closed spec fn vals(&self) -> Seq<EntryModel> {
        self.entries@.map_values(|e: LedgerEntry| e@)
    }

    /// No group has two records.
    pub closed spec fn wf(&self) -> bool {
        self.keys().no_duplicates()
    }

    proof fn lemma_row(&self, i: int)
        requires
            self.wf(),
            0 <= i < self.entries@.len(),
        ensures
            self@.contains_key(self.entries@[i].group_id),
            self@[self.entries@[i].group_id] == self.entries@[i]@,
    {
        lemma_keyed_at(self.keys(), self.vals(), i);
    }

    proof fn lemma_key_has_row(&self, g: GroupId)
        requires
            self@.contains_key(g),
        ensures
            exists|i: int| 0 <= i < self.entries@.len() && #[trigger] self.entries@[i].group_id == g,
    {
        let i = self.keys().index_of(g);
        assert(self.keys()[i] == g);
        assert(self.entries@[i].group_id == g);
    }

    pub fn new() -> (r: ImportLedger)
        ensures
            r.wf(),
            r@ == LedgerModel::empty(),
    {
        let r = ImportLedger { entries: Vec::new() };
        proof {
            lemma_keyed_empty(r.keys(), r.vals());
        }
        r
    }

    fn position(&self, group_id: GroupId) -> (r: Option<usize>)
        requires
            self.wf(),
        ensures
            match r {
                Some(i) => i < self.entries@.len() && self.entries@[i as int].group_id == group_id,
                None => forall|j: int|
                    0 <= j < self.entries@.len() ==> self.entries@[j].group_id != group_id,
            },
            r is Some == self@.contains_key(group_id),
            r matches Some(i) ==> self@[group_id] == self.entries@[i as int]@,
    {
        let mut i: usize = 0;
        while i < self.entries.len()
            invariant
                self.wf(),
                i <= self.entries@.len(),
                forall|j: int| 0 <= j < i ==> self.entries@[j].group_id != group_id,
            decreases self.entries@.len() - i,
        {
            if self.entries[i].group_id == group_id {
                proof {
                    self.lemma_row(i as int);
                }
                return Some(i);
            }
            i += 1;
        }
        proof {
            if self@.contains_key(group_id) {
                self.lemma_key_has_row(group_id);
            }
        }
        None
    }

    /// Whether `group_id` is being imported.
    pub fn contains(&self, group_id: GroupId) -> (r: bool)
        requires
            self.wf(),
        ensures
            r == self@.contains_key(group_id),
    {
        self.position(group_id).is_some()
    }

    /// Whether no group is being imported.
    pub fn is_empty(&self) -> (r: bool)
        requires
            self.wf(),
        ensures
            r == (self@ == LedgerModel::empty()),
            r == (forall|g: GroupId| !self@.contains_key(g)),
    {
        let r = self.entries.len() == 0;
        proof {
            if r {
                lemma_keyed_empty(self.keys(), self.vals());
            } else {
                self.lemma_row(0);
            }
        }
        r
    }

    /// The record of `group_id`, if it is being imported.
    pub fn get(&self, group_id: GroupId) -> (r: Option<&LedgerEntry>)
        requires
            self.wf(),
        ensures
            r is Some == self@.contains_key(group_id),
            r matches Some(e) ==> e@ == self@[group_id] && e.group() == group_id,
    {
        match self.position(group_id) {
            Some(i) => Some(&self.entries[i]),
            None => None,
        }
    }

    /// Starts the import of `group_id` into `channel_id`, unless the group is
    /// already being imported. `total_bytes` is the size of the state that the
    /// group will export; the transfer is complete when that many bytes have
    /// arrived. Returns whether a record was created.
    pub fn add(&mut self, group_id: GroupId, channel_id: ChannelId, total_bytes: u64) -> (added:
        bool)
        requires
            old(self).wf(),
        ensures
            final(self).wf(),
            added == !old(self)@.contains_key(group_id),
            added ==> final(self)@ == old(self)@.insert(
                group_id,
                EntryModel::fresh(channel_id, total_bytes),
            ),
            !added ==> final(self)@ == old(self)@,
    {
        if self.position(group_id).is_some() {
            return false;
        }
        let entry = LedgerEntry {
            group_id,
            channel_id,
            total_bytes,
            bytes: Vec::new(),
            status: TransferStatus::Idle,
        };
        proof {
            assert(!self.keys().contains(group_id));
            lemma_keyed_push(self.keys(), self.vals(), group_id, entry@);
        }
        let ghost before = *self;
        self.entries.push(entry);
        proof {
            assert(self.keys() =~= before.keys().push(group_id));
            assert(self.vals() =~= before.vals().push(entry@));
        }
        true
    }

    /// Removes the record of `group_id` and hands it to the caller.
    pub fn take(&mut self, group_id: GroupId) -> (r: Option<LedgerEntry>)
        requires
            old(self).wf(),
        ensures
            final(self).wf(),
            r is Some == old(self)@.contains_key(group_id),
            r matches Some(e) ==> e@ == old(self)@[group_id] && e.group() == group_id,
            final(self)@ == old(self)@.remove(group_id),
            r is None ==> final(self)@ == old(self)@,
    {
        match self.position(group_id) {
            Some(i) => {
                proof {
                    lemma_keyed_remove(self.keys(), self.vals(), i as int);
                }
                let ghost before = *self;
                let e = self.entries.remove(i);
                proof {
                    assert(self.keys() =~= before.keys().remove(i as int));
                    assert(self.vals() =~= before.vals().remove(i as int));
                }
                Some(e)
            },
            None => {
                proof {
                    assert(self@.remove(group_id) =~= self@);
                }
                None
            },
        }
    }

    /// Records that `data` arrived for `group_id` and clears any failure.
    /// Returns whether the group's whole state has now arrived.
    pub fn mark_batch_complete(&mut self, group_id: GroupId, data: &[u8]) -> (complete: bool)
        requires
            old(self).wf(),
        ensures
            final(self).wf(),
            final(self)@ == ledger_after_chunk(old(self)@, group_id, data@),
            complete == (old(self)@.contains_key(group_id) && final(self)@[group_id].is_complete()),
    {
        match self.position(group_id) {
            Some(i) => {
                let ghost before = *self;
                self.entries[i].status = TransferStatus::Idle;
                self.entries[i].bytes.extend_from_slice(data);
                proof {
                    let v = before.entries@[i as int]@.received(data@);
                    assert(self.entries@[i as int].bytes@ == before.entries@[i as int].bytes@ + data@);
                    assert(self.entries@[i as int]@ == v);
                    assert(self.keys() =~= before.keys());
                    assert(self.vals() =~= before.vals().update(i as int, v));
                    lemma_keyed_update(before.keys(), before.vals(), i as int, v);
                }
                self.entries[i].is_complete()
            },
            None => false,
        }
    }

    /// Records that the fetch for `group_id` failed; the offset is untouched.
    pub fn mark_batch_failed(&mut self, group_id: GroupId, reason: String)
        requires
            old(self).wf(),
        ensures
            final(self).wf(),
            final(self)@ == ledger_after_failure(old(self)@, group_id, reason@),
    {
        match self.position(group_id) {
            Some(i) => {
                let ghost before = *self;
                self.entries[i].status = TransferStatus::Failed { reason };
                proof {
                    let v = before.entries@[i as int]@.failed(reason@);
                    assert(self.entries@[i as int]@ == v);
                    assert(self.keys() =~= before.keys());
                    assert(self.vals() =~= before.vals().update(i as int, v));
                    lemma_keyed_update(before.keys(), before.vals(), i as int, v);
                }
            },
            None => {},
        }
    }

    /// One scheduler tick: marks every ready group in flight and lists them.
    pub fn next_batch(&mut self, now: TimestampMillis) -> (r: NextBatchResult)
        requires
            old(self).wf(),
        ensures
            final(self).wf(),
            final(self)@ == ledger_after_batch(old(self)@, now),
            r is Exit <==> old(self)@ == LedgerModel::empty(),
            r is Continue <==> old(self)@ != LedgerModel::empty() && forall|g: GroupId|
                old(self)@.contains_key(g) ==> !#[trigger] old(self)@[g].is_ready(),
            r matches NextBatchResult::Success(batch) ==> batch@.len() > 0 && is_batch_of(
                batch@,
                old(self)@,
            ),
    {
        if self.entries.len() == 0 {
            proof {
                lemma_keyed_empty(self.keys(), self.vals());
                assert(ledger_after_batch(self@, now) =~= self@);
            }
            return NextBatchResult::Exit;
        }
        proof {
            self.lemma_row(0);
        }
        let ghost before = *self;
        let mut batch: Vec<(GroupId, u64)> = Vec::new();
        let mut i: usize = 0;
        while i < self.entries.len()
            invariant
                before.wf(),
                i <= self.entries@.len(),
                self.entries@.len() == before.entries@.len(),
                self.keys() == before.keys(),
                forall|j: int|
                    0 <= j < i ==> #[trigger] self.entries@[j]@ == (if before.entries@[j]@.is_ready() {
                        before.entries@[j]@.started(now)
                    } else {
                        before.entries@[j]@
                    }),
                forall|j: int| i <= j < self.entries@.len() ==> self.entries@[j] == before.entries@[j],
                forall|k: int|
                    #![trigger batch@[k]]
                    0 <= k < batch@.len() ==> exists|j: int|
                        0 <= j < i && #[trigger] before.entries@[j].group_id == batch@[k].0,
                forall|k: int|
                    0 <= k < batch@.len() ==> {
                        &&& before@.contains_key(#[trigger] batch@[k].0)
                        &&& before@[batch@[k].0].is_ready()
                        &&& batch@[k].1 == before@[batch@[k].0].bytes.len()
                    },
                forall|k: int, l: int|
                    0 <= k < batch@.len() && 0 <= l < batch@.len() && k != l ==> batch@[k].0
                        != batch@[l].0,
                forall|j: int|
                    0 <= j < i && before.entries@[j]@.is_ready() ==> exists|k: int|
                        0 <= k < batch@.len() && #[trigger] batch@[k].0
                            == before.entries@[j].group_id,
            decreases self.entries@.len() - i,
        {
            proof {
                before.lemma_row(i as int);
            }
            if self.entries[i].is_ready() {
                let ghost prev_batch = batch@;
                let ghost prev = *self;
                let g: GroupId = self.entries[i].group_id;
                let offset: u64 = self.entries[i].offset();
                self.entries[i].status = TransferStatus::InFlight { since: now };
                batch.push((g, offset));
                proof {
                    assert(self.keys() =~= prev.keys());
                    let n = prev_batch.len() as int;
                    assert(batch@[n].0 == g);
                    assert forall|k: int| 0 <= k < n implies batch@[k].0 != g by {
                        let j = choose|j: int|
                            0 <= j < i && #[trigger] before.entries@[j].group_id == prev_batch[k].0;
                        assert(before.keys()[j] == prev_batch[k].0);
                        assert(before.keys()[i as int] == g);
                    }
                    assert forall|j: int|
                        0 <= j < i + 1 && before.entries@[j]@.is_ready() implies exists|k: int|
                        0 <= k < batch@.len() && #[trigger] batch@[k].0
                            == before.entries@[j].group_id by {
                        if j < i {
                            let k = choose|k: int|
                                0 <= k < prev_batch.len() && #[trigger] prev_batch[k].0
                                    == before.entries@[j].group_id;
                            assert(batch@[k].0 == before.entries@[j].group_id);
                        } else {
                            assert(batch@[n].0 == before.entries@[j].group_id);
                        }
                    }
                    assert forall|k: int|
                        #![trigger batch@[k]]
                        0 <= k < batch@.len() implies exists|j: int|
                        0 <= j < i + 1 && #[trigger] before.entries@[j].group_id == batch@[k].0 by {
                        if k < n {
                            let j = choose|j: int|
                                0 <= j < i && #[trigger] before.entries@[j].group_id
                                    == prev_batch[k].0;
                            assert(before.entries@[j].group_id == batch@[k].0);
                        } else {
                            assert(before.entries@[i as int].group_id == batch@[k].0);
                        }
                    }
                }
            }
            i += 1;
        }
        proof {
            let after = ledger_after_batch(before@, now);
            assert forall|g: GroupId| #[trigger] self@.contains_key(g) == after.contains_key(g) by {
                assert(self.keys().contains(g) == before.keys().contains(g));
            }
            assert forall|g: GroupId| #[trigger] self@.contains_key(g) implies self@[g]
                == after[g] by {
                let j = self.keys().index_of(g);
                assert(self.entries@[j].group_id == g);
                self.lemma_row(j);
                before.lemma_row(j);
            }
            assert(self@ =~= after);
            assert forall|g: GroupId|
                before@.contains_key(g) && #[trigger] before@[g].is_ready() implies exists|k: int|
                0 <= k < batch@.len() && #[trigger] batch@[k].0 == g by {
                before.lemma_key_has_row(g);
                let j = choose|j: int|
                    0 <= j < before.entries@.len() && #[trigger] before.entries@[j].group_id == g;
                before.lemma_row(j);
            }
        }
        if batch.len() == 0 {
            proof {
                assert forall|g: GroupId| before@.contains_key(g) implies !#[trigger] before@[g].is_ready() by {
                    if before@[g].is_ready() {
                        let k = choose|k: int| 0 <= k < batch@.len() && #[trigger] batch@[k].0 == g;
                    }
                }
            }
            NextBatchResult::Continue
        } else {
            proof {
                assert(before@.contains_key(batch@[0].0));
            }
            NextBatchResult::Success(batch)
        }
    }
}

} // verus!
