//! The coordinator's record of each node and of the jobs it waits on.
use std::collections::BTreeMap;

use vstd::prelude::*;

use crate::machine::MachineStatus;
use crate::protocol::ClientMsg;

verus! {

broadcast use vstd::std_specs::btree::group_btree_axioms, vstd::laws_cmp::group_laws_cmp;

/// How a job ended, as its node reported.
#[derive(Debug, Clone, Copy, PartialEq, Eq, Structural)]
pub struct JobDone {
    pub success: bool,
    pub code: Option<u8>,
}

/// The jobs the coordinator waits on, each with the channel that takes its end.
pub struct PendingJobs<T> {
    jobs: BTreeMap<u64, T>,
}

impl<T> PendingJobs<T> {
    /// The waiting channel of each job.
    pub closed spec fn pending(&self) -> Map<u64, T> {
        self.jobs@
    }

    pub fn new() -> (p: PendingJobs<T>)
        ensures
            p.pending() == Map::<u64, T>::empty(),
    {
        PendingJobs { jobs: BTreeMap::new() }
    }

    /// Starts waiting on job `id`.
    pub fn register(&mut self, id: u64, ch: T)
        ensures
            final(self).pending() == old(self).pending().insert(id, ch),
    {
        self.jobs.insert(id, ch);
    }

    /// Stops waiting on job `id`, giving back its channel if it was waited on.
    pub fn take(&mut self, id: u64) -> (r: Option<T>)
        ensures
            final(self).pending() == old(self).pending().remove(id),
            match r {
                Some(ch) => old(self).pending().contains_key(id) && ch == old(self).pending()[id],
                None => !old(self).pending().contains_key(id),
            },
    {
        self.jobs.remove(&id)
    }
}

/// Taking a job after registering it gives back its channel and leaves the
/// other jobs as they were.
pub proof fn lemma_register_take<T>(p: Map<u64, T>, id: u64, ch: T)
    ensures
        p.insert(id, ch).contains_key(id),
        p.insert(id, ch)[id] == ch,
        p.insert(id, ch).remove(id) == p.remove(id),
{
    assert(p.insert(id, ch).remove(id) =~= p.remove(id));
}

/// What the coordinator keeps about a node between messages.
pub struct MutableClientState<I, T> {
    /// when the node said it shuts down
    pub shutdown: Option<T>,
    pub status: MachineStatus,
    pub last_heard_from: I,
}

impl<I, T> MutableClientState<I, T> {
    pub fn new(now: I) -> (s: MutableClientState<I, T>)
        ensures
            s.shutdown is None,
            s.status.mem_used@ == 0,
            s.status.avg_avail_cpu == 0,
            s.last_heard_from == now,
    {
        MutableClientState { shutdown: None, status: MachineStatus::default(), last_heard_from: now }
    }

    /// Takes a message from the node, heard at `now` (`wall_now` on the
    /// wall clock): a status replaces the last one, a shutdown is recorded
    /// with its time, and a finished job is handed back to be reported.
    pub fn on_client_msg(&mut self, msg: ClientMsg, now: I, wall_now: T) -> (done: Option<(u64, JobDone)>)
        ensures
            final(self).last_heard_from == now,
            match msg {
                ClientMsg::JobDone { id, success, code } => {
                    &&& done == Some((id, JobDone { success, code }))
                    &&& final(self).status == old(self).status
                    &&& final(self).shutdown == old(self).shutdown
                },
                ClientMsg::Status(s) => {
                    &&& done is None
                    &&& final(self).status == s
                    &&& final(self).shutdown == old(self).shutdown
                },
                ClientMsg::Shutdown => {
                    &&& done is None
                    &&& final(self).status == old(self).status
                    &&& final(self).shutdown == Some(wall_now)
                },
            },
    {
        match msg {
            ClientMsg::JobDone { id, success, code } => {
                self.last_heard_from = now;
                Some((id, JobDone { success, code }))
            },
            ClientMsg::Status(s) => {
                self.status = s;
                self.last_heard_from = now;
                None
            },
            ClientMsg::Shutdown => {
                self.last_heard_from = now;
                self.shutdown = Some(wall_now);
                None
            },
        }
    }

    /// Records that a job was sent to the node at `now`.
    pub fn on_job_sent(&mut self, now: I)
        ensures
            final(self).last_heard_from == now,
            final(self).status == old(self).status,
            final(self).shutdown == old(self).shutdown,
    {
        self.last_heard_from = now;
    }
}

} // verus!
