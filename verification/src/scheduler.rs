//! Per-backend serialized job scheduler. Queued operations (send, delete,
//! edit) run strictly one at a time in FIFO order; at most one is in
//! flight. Cancelling aborts the in-flight task without popping the queue
//! and relaunches the same front job ("retry now"); losing the connection
//! leaves the queue dormant until the link is re-established.

use vstd::prelude::*;

verus! {

/// A queued operation on one record, named by the caller's handle for it.
#[derive(Debug, Clone, Copy, PartialEq, Eq, Structural)]
pub enum Job {
    Send(usize),
    Delete(usize),
    Edit(usize),
}

/// Requests handled by a backend worker. Only `SendMessage` enters the
/// job queue; the others run as independent fire-and-forget tasks because
/// they only set up state that queued jobs read.
#[derive(Debug, Clone, PartialEq, Eq, Hash)]
pub enum SignalAction {
    LinkBegin,
    Sync,
    GetGroups,
    SendMessage(String),
}

impl SignalAction {
    /// Whether this request goes through the serialized job queue.
    pub fn queued(&self) -> (r: bool)
        ensures
            r == (self is SendMessage),
    {
        matches!(self, SignalAction::SendMessage(_))
    }
}

/// What the caller must do after a scheduler transition: nothing, or
/// launch the given job as the one in-flight task.
#[derive(Debug, Clone, Copy, PartialEq, Eq, Structural)]
pub enum SchedulerAction {
    Idle,
    Start(Job),
}

/// Spec-level state of a scheduler.
pub struct SchedulerModel {
    pub queue: Seq<Job>,
    pub in_flight: bool,
    pub connected: bool,
}

impl SchedulerModel {
    /// A job can only be in flight while the queue holds it at the front
    /// and the backend connection is established.
    pub open spec fn wf(self) -> bool {
        self.in_flight ==> self.queue.len() > 0 && self.connected
    }

    /// Start the front job if nothing is in flight, the connection is up,
    /// and a job is waiting.
    pub open spec fn launch_spec(self) -> (SchedulerModel, SchedulerAction) {
        if !self.in_flight && self.connected && self.queue.len() > 0 {
            (
                SchedulerModel { in_flight: true, ..self },
                SchedulerAction::Start(self.queue[0]),
            )
        } else {
            (self, SchedulerAction::Idle)
        }
    }

    /// Append a job at the tail, then launch if possible.
    pub open spec fn enqueue_spec(self, job: Job) -> (SchedulerModel, SchedulerAction) {
        SchedulerModel { queue: self.queue.push(job), ..self }.launch_spec()
    }

    /// Natural completion of the in-flight job: pop it from the front and
    /// launch the next one if the connection is still up.
    pub open spec fn finished_spec(self) -> (SchedulerModel, SchedulerAction) {
        let popped = SchedulerModel {
            queue: if self.queue.len() > 0 {
                self.queue.drop_first()
            } else {
                self.queue
            },
            in_flight: false,
            ..self
        };
        popped.launch_spec()
    }

    /// Cancellation: abort the in-flight task but keep the queue as it is;
    /// if the connection is still up, relaunch the same front job.
    pub open spec fn cancel_spec(self) -> (SchedulerModel, SchedulerAction) {
        SchedulerModel { in_flight: false, ..self }.launch_spec()
    }

    /// Connection loss: abort the in-flight task and go dormant; queued
    /// jobs stay queued.
    pub open spec fn disconnect_spec(self) -> SchedulerModel {
        SchedulerModel { in_flight: false, connected: false, ..self }
    }

    /// The connection is (re-)established: resume with the front job if
    /// one is waiting.
    pub open spec fn connect_spec(self) -> (SchedulerModel, SchedulerAction) {
        SchedulerModel { connected: true, ..self }.launch_spec()
    }
}

/// One scheduler instance per backend, owning that backend's job queue.
#[derive(Debug)]
pub struct TaskScheduler {
    pub queue: Vec<Job>,
    pub in_flight: bool,
    pub connected: bool,
}

impl View for TaskScheduler {
    type V = SchedulerModel;

    open spec fn view(&self) -> SchedulerModel {
        SchedulerModel {
            queue: self.queue@,
            in_flight: self.in_flight,
            connected: self.connected,
        }
    }
}

impl TaskScheduler {
    pub fn new() -> (r: TaskScheduler)
        ensures
            r@.queue == Seq::<Job>::empty(),
            !r@.in_flight,
            !r@.connected,
            r@.wf(),
    {
        TaskScheduler { queue: Vec::new(), in_flight: false, connected: false }
    }

    /// Launch the front job if idle, connected and nonempty.
    fn launch(&mut self) -> (r: SchedulerAction)
        requires
            old(self)@.wf(),
        ensures
            final(self)@ == old(self)@.launch_spec().0,
            r == old(self)@.launch_spec().1,
            final(self)@.wf(),
    {
        if !self.in_flight && self.connected && self.queue.len() > 0 {
            self.in_flight = true;
            SchedulerAction::Start(self.queue[0])
        } else {
            SchedulerAction::Idle
        }
    }

    /// Append `job` at the queue tail; if nothing is in flight and the
    /// connection is established, the job (or an earlier one still at the
    /// front) is started immediately.
    pub fn enqueue(&mut self, job: Job) -> (r: SchedulerAction)
        requires
            old(self)@.wf(),
        ensures
            final(self)@ == old(self)@.enqueue_spec(job).0,
            r == old(self)@.enqueue_spec(job).1,
            final(self)@.wf(),
    {
        self.queue.push(job);
        self.launch()
    }

    /// The in-flight job reported natural completion: pop it and start the
    /// next queued job if the connection is available.
    pub fn finished(&mut self) -> (r: SchedulerAction)
        requires
            old(self)@.wf(),
        ensures
            final(self)@ == old(self)@.finished_spec().0,
            r == old(self)@.finished_spec().1,
            final(self)@.wf(),
    {
        if self.queue.len() > 0 {
            self.queue.remove(0);
        }
        self.in_flight = false;
        proof {
            if old(self)@.queue.len() > 0 {
                assert(self.queue@ =~= old(self)@.queue.drop_first());
            }
        }
        self.launch()
    }

    /// Cancel the in-flight job without popping the queue; if the
    /// connection is still available the same front job is relaunched at
    /// once. This models "retry now" rather than "abandon".
    pub fn cancel(&mut self) -> (r: SchedulerAction)
        requires
            old(self)@.wf(),
        ensures
            final(self)@ == old(self)@.cancel_spec().0,
            r == old(self)@.cancel_spec().1,
            final(self)@.queue == old(self)@.queue,
            final(self)@.wf(),
    {
        self.in_flight = false;
        self.launch()
    }

    /// The backend connection was lost: abort the in-flight task and keep
    /// the queued jobs dormant.
    pub fn disconnect(&mut self)
        requires
            old(self)@.wf(),
        ensures
            final(self)@ == old(self)@.disconnect_spec(),
            final(self)@.queue == old(self)@.queue,
            final(self)@.wf(),
    {
        self.in_flight = false;
        self.connected = false;
    }

    /// The backend connection is established: resume the queue.
    pub fn connect(&mut self) -> (r: SchedulerAction)
        requires
            old(self)@.wf(),
        ensures
            final(self)@ == old(self)@.connect_spec().0,
            r == old(self)@.connect_spec().1,
            final(self)@.queue == old(self)@.queue,
            final(self)@.wf(),
    {
        self.connected = true;
        self.launch()
    }
}

/// Cancellation never abandons work: the queue is unchanged, the front job
/// is the same one that was in flight, and while the connection is up that
/// same job is relaunched immediately.
pub proof fn lemma_cancel_retries_same_job(m: SchedulerModel)
    requires
        m.wf(),
        m.in_flight,
    ensures
        m.cancel_spec().0.queue == m.queue,
        m.cancel_spec().1 == SchedulerAction::Start(m.queue[0]),
{
}

/// Jobs leave the queue only through natural completion, and they leave
/// from the front: finishing pops exactly the front job and everything
/// behind it keeps its order.
pub proof fn lemma_fifo_order(m: SchedulerModel)
    requires
        m.wf(),
        m.queue.len() > 0,
    ensures
        m.finished_spec().0.queue == m.queue.drop_first(),
        forall|i: int|
            0 <= i < m.queue.len() - 1 ==> m.finished_spec().0.queue[i] == m.queue[i + 1],
{
}

} // verus!
