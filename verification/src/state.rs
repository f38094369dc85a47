//! The state of a community that the import pipeline works on.

use crate::channels::{channels_wf, Channels, ChannelsModel};
use crate::events::{CommunityEvents, EventModel};
use crate::jobs::{ScheduledJobModel, TimerJobs};
use crate::ledger::{ImportLedger, LedgerModel};
use crate::members::{CommunityMembers, InvitedUsers, MembersModel};
use crate::types::UserId;
use vstd::prelude::*;

verus! {

/// Mathematical value of a community's state.
pub struct StateModel {
    /// The community's name.
    pub name: Seq<char>,
    /// Whether the community is frozen: a frozen community takes no messages.
    pub frozen: bool,
    /// Whether the repeating trigger that drives the transfers is armed.
    pub job_running: bool,
    pub ledger: LedgerModel,
    pub channels: ChannelsModel,
    pub members: MembersModel,
    pub invited: Set<UserId>,
    pub events: Seq<EventModel>,
    pub jobs: Seq<ScheduledJobModel>,
}

/// A community's state.
#[derive(Debug)]
pub struct CommunityState {
    pub name: String,
    /// Whether the community is frozen: a frozen community takes no messages.
    pub frozen: bool,
    /// Whether the repeating trigger that drives the transfers is armed.
    pub import_job_running: bool,
    pub groups_being_imported: ImportLedger,
    pub channels: Channels,
    pub members: CommunityMembers,
    pub invited_users: InvitedUsers,
    pub events: CommunityEvents,
    pub timer_jobs: TimerJobs,
}

impl View for CommunityState {
    type V = StateModel;

    open spec fn view(&self) -> StateModel {
        StateModel {
            name: self.name@,
            frozen: self.frozen,
            job_running: self.import_job_running,
            ledger: self.groups_being_imported@,
            channels: self.channels@,
            members: self.members@,
            invited: self.invited_users@,
            events: self.events@,
            jobs: self.timer_jobs@,
        }
    }
}

impl CommunityState {
    /// Every table of the state is well formed, and so is every channel.
    pub open spec fn wf(&self) -> bool {
        &&& self.groups_being_imported.wf()
        &&& self.channels.wf()
        &&& channels_wf(self.channels@)
        &&& self.members.wf()
    }

    /// The state of a community called `name` that has no channels, no
    /// members and imports nothing.
    pub fn new(name: String) -> (r: CommunityState)
        ensures
            r.wf(),
            r@ == (StateModel {
                name: name@,
                frozen: false,
                job_running: false,
                ledger: Map::empty(),
                channels: Map::empty(),
                members: MembersModel { members: Map::empty(), blocked: Set::empty() },
                invited: Set::empty(),
                events: Seq::empty(),
                jobs: Seq::empty(),
            }),
    {
        CommunityState {
            name,
            frozen: false,
            import_job_running: false,
            groups_being_imported: ImportLedger::new(),
            channels: Channels::new(),
            members: CommunityMembers::new(),
            invited_users: InvitedUsers::new(),
            events: CommunityEvents::new(),
            timer_jobs: TimerJobs::new(),
        }
    }
}

} // verus!
