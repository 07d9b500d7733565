//! A fixed-size worker pool: the job channel, the workers and the pool that owns them.
//!
//! The pool is a state machine. Submitting a job, shutting down and a worker
//! asking for its next job are its transitions; a host runs one thread per worker,
//! keeps the pool behind a lock, and performs what the transitions hand back.

use vstd::prelude::*;
use std::collections::VecDeque;

verus! {

/// The error of a submission to a closed channel. It hands the job back.
pub struct Closed<J>(pub J);

/// What a worker gets when it asks for a job.
pub enum Received<J> {
    /// The next job, now owned by the worker.
    Job(J),
    /// No job is queued and the channel is open: wait and ask again.
    Pending,
    /// No job is queued and the channel is closed: none will ever come.
    Exhausted,
}

/// A job channel as a value: the queued jobs, oldest first, and whether it is closed.
pub struct ChannelState<J> {
    pub jobs: Seq<J>,
    pub closed: bool,
}

impl<J> ChannelState<J> {
    /// An open channel with nothing queued.
    pub open spec fn empty() -> Self {
        ChannelState { jobs: Seq::empty(), closed: false }
    }

    /// The channel after `job` was sent: queued last if the channel is open, refused otherwise.
    pub open spec fn send(self, job: J) -> Self {
        if self.closed {
            self
        } else {
            ChannelState { jobs: self.jobs.push(job), closed: self.closed }
        }
    }

    /// What a receive yields: the oldest job, else exhaustion if closed, else nothing yet.
    pub open spec fn received(self) -> Received<J> {
        if self.jobs.len() > 0 {
            Received::Job(self.jobs[0])
        } else if self.closed {
            Received::Exhausted
        } else {
            Received::Pending
        }
    }

    /// The channel after a receive: without its oldest job, if it had one.
    pub open spec fn receive(self) -> Self {
        if self.jobs.len() > 0 {
            ChannelState { jobs: self.jobs.drop_first(), closed: self.closed }
        } else {
            self
        }
    }

    /// The channel after it was closed. What is queued stays queued.
    pub open spec fn close(self) -> Self {
        ChannelState { jobs: self.jobs, closed: true }
    }
}

/// A first-in-first-out queue of jobs that can be closed.
///
/// Each job that was sent is received exactly once, in the order of sending. Closing
/// refuses further jobs and loses none: exhaustion is reported only once the
/// queue has run empty.
pub struct JobChannel<J> {
    jobs: VecDeque<J>,
    closed: bool,
}

impl<J> View for JobChannel<J> {
    type V = ChannelState<J>;

    closed spec fn view(&self) -> ChannelState<J> {
        ChannelState { jobs: self.jobs@, closed: self.closed }
    }
}

impl<J> JobChannel<J> {
    /// An open channel with nothing queued.
    pub fn new() -> (channel: Self)
        ensures
            channel@ == ChannelState::<J>::empty(),
    {
        JobChannel { jobs: VecDeque::new(), closed: false }
    }

    /// Queues `job` behind all jobs sent before. A closed channel refuses it
    /// and hands it back.
    pub fn send(&mut self, job: J) -> (r: Result<(), Closed<J>>)
        ensures
            final(self)@ == old(self)@.send(job),
            r == (if old(self)@.closed {
                Err(Closed(job))
            } else {
                Ok(())
            }),
    {
        if self.closed {
            Err(Closed(job))
        } else {
            self.jobs.push_back(job);
            Ok(())
        }
    }

    /// Takes the oldest queued job, if there is one; else reports whether more may come.
    pub fn receive(&mut self) -> (r: Received<J>)
        ensures
            final(self)@ == old(self)@.receive(),
            r == old(self)@.received(),
    {
        match self.jobs.pop_front() {
            Some(job) => Received::Job(job),
            None => if self.closed {
                Received::Exhausted
            } else {
                Received::Pending
            },
        }
    }

    /// Closes the channel. Closing a closed channel changes nothing.
    pub fn close(&mut self)
        ensures
            final(self)@ == old(self)@.close(),
    {
        self.closed = true;
    }

    /// Whether the channel is closed.
    pub fn is_closed(&self) -> (r: bool)
        ensures
            r == self@.closed,
    {
        self.closed
    }

    /// The number of queued jobs.
    pub fn len(&self) -> (n: usize)
        ensures
            n == self@.jobs.len(),
    {
        self.jobs.len()
    }
}

/// Where a worker is in its loop.
#[derive(Clone, Copy, Debug, PartialEq, Eq, Structural)]
pub enum WorkerStatus {
    /// It holds no job and waits for one.
    Waiting,
    /// It holds a job and runs it.
    Running,
    /// It has left its loop for good.
    Exited,
}

/// The status of a worker after it was handed `received`.
pub open spec fn status_after<J>(received: Received<J>) -> WorkerStatus {
    match received {
        Received::Job(_) => WorkerStatus::Running,
        Received::Pending => WorkerStatus::Waiting,
        Received::Exhausted => WorkerStatus::Exited,
    }
}

/// One worker of a pool: its id, which serves diagnostics only, and its place in the loop.
#[derive(Clone, Copy, Debug)]
pub struct Worker {
    id: usize,
    status: WorkerStatus,
}

impl Worker {
    /// The id that the worker was made with.
    pub closed spec fn id_spec(&self) -> usize {
        self.id
    }

    /// Where the worker is in its loop.
    pub closed spec fn status_spec(&self) -> WorkerStatus {
        self.status
    }

    /// A worker that waits for its first job.
    pub fn new(id: usize) -> (worker: Worker)
        ensures
            worker.id_spec() == id,
            worker.status_spec() == WorkerStatus::Waiting,
    {
        Worker { id, status: WorkerStatus::Waiting }
    }

    /// The id that the worker was made with.
    #[verifier::when_used_as_spec(id_spec)]
    pub fn id(&self) -> (id: usize)
        ensures
            id == self.id_spec(),
    {
        self.id
    }

    /// Where the worker is in its loop.
    #[verifier::when_used_as_spec(status_spec)]
    pub fn status(&self) -> (status: WorkerStatus)
        ensures
            status == self.status_spec(),
    {
        self.status
    }

    /// One turn of the worker's loop, taken when the worker is free: the job it
    /// held, if any, is done, and it receives from `channel`. A job makes it run,
    /// exhaustion makes it exit, and otherwise it waits. A worker that has exited
    /// receives nothing and stays so.
    pub fn step<J>(&mut self, channel: &mut JobChannel<J>) -> (r: Received<J>)
        ensures
            final(self).id() == old(self).id(),
            old(self).status() == WorkerStatus::Exited ==> {
                &&& r == Received::<J>::Exhausted
                &&& final(channel)@ == old(channel)@
                &&& final(self).status() == WorkerStatus::Exited
            },
            old(self).status() != WorkerStatus::Exited ==> {
                &&& r == old(channel)@.received()
                &&& final(channel)@ == old(channel)@.receive()
                &&& final(self).status() == status_after(r)
            },
    {
        match self.status {
            WorkerStatus::Exited => Received::Exhausted,
            _ => {
                let r = channel.receive();
                match &r {
                    Received::Job(_) => {
                        self.status = WorkerStatus::Running;
                    },
                    Received::Pending => {
                        self.status = WorkerStatus::Waiting;
                    },
                    Received::Exhausted => {
                        self.status = WorkerStatus::Exited;
                    },
                }
                r
            },
        }
    }
}

/// The number of workers among `workers` that run a job.
pub open spec fn running(workers: Seq<WorkerStatus>) -> nat
    decreases workers.len(),
{
    if workers.len() == 0 {
        0
    } else {
        running(workers.drop_last()) + if workers.last() == WorkerStatus::Running {
            1nat
        } else {
            0nat
        }
    }
}

/// The number of workers among `workers` that are still in their loop.
pub open spec fn active(workers: Seq<WorkerStatus>) -> nat
    decreases workers.len(),
{
    if workers.len() == 0 {
        0
    } else {
        active(workers.drop_last()) + if workers.last() != WorkerStatus::Exited {
            1nat
        } else {
            0nat
        }
    }
}

/// A pool as a value: its channel, where each worker stands, and the record of
/// what happened to it so far.
pub struct PoolState<J> {
    /// The job channel.
    pub channel: ChannelState<J>,
    /// The status of each worker, by id.
    pub workers: Seq<WorkerStatus>,
    /// Every job that was accepted, in the order of submission.
    pub submitted: Seq<J>,
    /// Every job that was handed to a worker, in the order of handing out.
    pub started: Seq<J>,
    /// The number of jobs whose worker has come back from them.
    pub completed: nat,
}

impl<J> PoolState<J> {
    /// A fresh pool of `size` waiting workers.
    pub open spec fn init(size: nat) -> Self {
        PoolState {
            channel: ChannelState::empty(),
            workers: Seq::new(size, |i: int| WorkerStatus::Waiting),
            submitted: Seq::empty(),
            started: Seq::empty(),
            completed: 0,
        }
    }

    /// The pool after `job` was submitted: accepted and queued while the pool is
    /// open, refused without a trace once shutdown has begun.
    pub open spec fn execute(self, job: J) -> Self {
        if self.channel.closed {
            self
        } else {
            PoolState {
                channel: self.channel.send(job),
                submitted: self.submitted.push(job),
                ..self
            }
        }
    }

    /// The pool after shutdown began: the channel is closed, all else is as before.
    pub open spec fn shutdown(self) -> Self {
        PoolState { channel: self.channel.close(), ..self }
    }

    /// The workers whose threads a shutdown asks its caller to join: all of them
    /// the first time, none once shutdown has begun.
    pub open spec fn to_join(self) -> Seq<usize> {
        if self.channel.closed {
            Seq::empty()
        } else {
            Seq::new(self.workers.len(), |i: int| i as usize)
        }
    }

    /// Whether `id` names a worker that is still in its loop.
    pub open spec fn is_active(self, id: int) -> bool {
        0 <= id < self.workers.len() && self.workers[id] != WorkerStatus::Exited
    }

    /// What worker `id` is handed when it asks for its next job.
    pub open spec fn handed_out(self, id: int) -> Received<J> {
        if self.is_active(id) {
            self.channel.received()
        } else {
            Received::Exhausted
        }
    }

    /// The pool after worker `id` asked for its next job: the job it held, if
    /// any, counts as completed, and it takes the oldest queued job, or exits if
    /// the channel is exhausted, or waits.
    pub open spec fn next_job(self, id: int) -> Self {
        if self.is_active(id) {
            let received = self.channel.received();
            PoolState {
                channel: self.channel.receive(),
                workers: self.workers.update(id, status_after(received)),
                submitted: self.submitted,
                started: match received {
                    Received::Job(job) => self.started.push(job),
                    _ => self.started,
                },
                completed: if self.workers[id] == WorkerStatus::Running {
                    self.completed + 1
                } else {
                    self.completed
                },
            }
        } else {
            self
        }
    }

    /// How far a pool that is shutting down is from being shut down: the
    /// number of jobs still queued and of workers still in their loop.
    pub open spec fn remaining(self) -> nat {
        self.channel.jobs.len() + active(self.workers)
    }

    /// Whether every worker has left its loop, which is when shutdown is complete.
    pub open spec fn is_shut_down(self) -> bool {
        forall|i: int| 0 <= i < self.workers.len() ==> self.workers[i] == WorkerStatus::Exited
    }

    /// What holds of every pool, whatever happened to it:
    /// it has a worker; every accepted job was handed out once or is still
    /// queued, in the order of submission; the jobs handed out are those completed
    /// and those that run now, one per running worker; and a worker exits only
    /// when the channel is closed and empty.
    pub open spec fn inv(self) -> bool {
        &&& self.workers.len() > 0
        &&& self.submitted == self.started + self.channel.jobs
        &&& self.started.len() == self.completed + running(self.workers)
        &&& forall|i: int|
            0 <= i < self.workers.len() && self.workers[i] == WorkerStatus::Exited ==> {
                &&& self.channel.closed
                &&& self.channel.jobs.len() == 0
            }
    }
}

/// Changing the status of one worker changes the number of running workers by
/// that worker alone.
pub proof fn lemma_running_update(workers: Seq<WorkerStatus>, id: int, status: WorkerStatus)
    requires
        0 <= id < workers.len(),
    ensures
        running(workers.update(id, status)) + (if workers[id] == WorkerStatus::Running {
            1nat
        } else {
            0nat
        }) == running(workers) + (if status == WorkerStatus::Running {
            1nat
        } else {
            0nat
        }),
    decreases workers.len(),
{
    let updated = workers.update(id, status);
    if id == workers.len() - 1 {
        assert(updated.drop_last() == workers.drop_last());
    } else {
        lemma_running_update(workers.drop_last(), id, status);
        assert(updated.drop_last() == workers.drop_last().update(id, status));
    }
}

/// No more workers run than there are, and none runs where none is in the state `Running`.
pub proof fn lemma_running_bounds(workers: Seq<WorkerStatus>)
    ensures
        running(workers) <= workers.len(),
        (forall|i: int| 0 <= i < workers.len() ==> workers[i] != WorkerStatus::Running)
            ==> running(workers) == 0,
    decreases workers.len(),
{
    if workers.len() > 0 {
        lemma_running_bounds(workers.drop_last());
    }
}

/// A fresh pool with at least one worker is in order.
pub proof fn lemma_init_inv<J>(size: nat)
    requires
        size > 0,
    ensures
        PoolState::<J>::init(size).inv(),
{
    let state = PoolState::<J>::init(size);
    lemma_running_bounds(state.workers);
}

/// A submission keeps the pool in order.
pub proof fn lemma_execute_inv<J>(state: PoolState<J>, job: J)
    requires
        state.inv(),
    ensures
        state.execute(job).inv(),
{
}

/// The beginning of shutdown keeps the pool in order.
pub proof fn lemma_shutdown_inv<J>(state: PoolState<J>)
    requires
        state.inv(),
    ensures
        state.shutdown().inv(),
{
}

/// A worker's asking for its next job keeps the pool in order.
pub proof fn lemma_next_job_inv<J>(state: PoolState<J>, id: int)
    requires
        state.inv(),
    ensures
        state.next_job(id).inv(),
{
    if state.is_active(id) {
        let received = state.channel.received();
        lemma_running_update(state.workers, id, status_after(received));
        if let Received::Job(job) = received {
            assert(state.started.push(job) + state.channel.jobs.drop_first() == state.started
                + state.channel.jobs);
        }
    }
}

/// What can happen to a pool.
pub enum Event<J> {
    /// A job is submitted.
    Execute(J),
    /// Shutdown begins, or is asked for again.
    Shutdown,
    /// The worker with this id asks for its next job.
    NextJob(int),
}

/// Whether a shutdown is among `events`.
pub open spec fn has_shutdown<J>(events: Seq<Event<J>>) -> bool {
    exists|i: int| 0 <= i < events.len() && events[i] is Shutdown
}

/// The jobs that a fresh pool accepts when `events` happen to it in order: those
/// submitted before the first shutdown.
pub open spec fn accepted<J>(events: Seq<Event<J>>) -> Seq<J>
    decreases events.len(),
{
    if events.len() == 0 {
        Seq::empty()
    } else {
        let before = accepted(events.drop_last());
        match events.last() {
            Event::Execute(job) => if has_shutdown(events.drop_last()) {
                before
            } else {
                before.push(job)
            },
            _ => before,
        }
    }
}

impl<J> PoolState<J> {
    /// The pool after `event`.
    pub open spec fn apply(self, event: Event<J>) -> Self {
        match event {
            Event::Execute(job) => self.execute(job),
            Event::Shutdown => self.shutdown(),
            Event::NextJob(id) => self.next_job(id),
        }
    }

    /// The pool after `events`, in order.
    pub open spec fn run(self, events: Seq<Event<J>>) -> Self
        decreases events.len(),
    {
        if events.len() == 0 {
            self
        } else {
            self.run(events.drop_last()).apply(events.last())
        }
    }
}

/// Every job runs exactly once. Take a fresh pool of any size above zero and let
/// anything happen to it, in any order: submissions, shutdowns, workers asking
/// for jobs. Then the pool still has its workers, it has accepted exactly the jobs
/// submitted before shutdown began, and each of them is either still queued or was
/// handed to a worker once, in the order of submission. Of the jobs handed out,
/// each is completed or runs on a worker of its own. Once every worker has
/// exited, the jobs that were run are the jobs that were accepted, all completed.
pub proof fn lemma_every_job_runs_exactly_once<J>(size: nat, events: Seq<Event<J>>)
    requires
        size > 0,
    ensures
        ({
            let end = PoolState::<J>::init(size).run(events);
            &&& end.inv()
            &&& end.workers.len() == size
            &&& end.channel.closed == has_shutdown(events)
            &&& end.submitted == accepted(events)
            &&& end.submitted == end.started + end.channel.jobs
            &&& end.started.len() == end.completed + running(end.workers)
            &&& running(end.workers) <= size
            &&& end.is_shut_down() ==> end.started == end.submitted && end.completed
                == end.submitted.len()
        }),
    decreases events.len(),
{
    let start = PoolState::<J>::init(size);
    let end = start.run(events);
    if events.len() == 0 {
        lemma_init_inv::<J>(size);
    } else {
        let earlier = events.drop_last();
        let before = start.run(earlier);
        lemma_every_job_runs_exactly_once(size, earlier);
        match events.last() {
            Event::Execute(job) => {
                lemma_execute_inv(before, job);
            },
            Event::Shutdown => {
                lemma_shutdown_inv(before);
            },
            Event::NextJob(id) => {
                lemma_next_job_inv(before, id);
            },
        }
        if !has_shutdown(earlier) && !(events.last() is Shutdown) {
            assert forall|i: int| 0 <= i < events.len() implies !(events[i] is Shutdown) by {
                if i < earlier.len() {
                    assert(earlier[i] == events[i]);
                }
            }
        }
    }
    lemma_running_bounds(end.workers);
    if end.is_shut_down() {
        lemma_shut_down_means_done(end);
    }
}

/// After shutdown nothing is left to do. In a pool whose workers have all exited,
/// every job that was ever accepted has been run and is completed, the queue is
/// empty, and the channel is closed, so that any further submission is refused.
pub proof fn lemma_shut_down_means_done<J>(state: PoolState<J>)
    requires
        state.inv(),
        state.is_shut_down(),
    ensures
        state.started == state.submitted,
        state.completed == state.submitted.len(),
        state.channel.jobs.len() == 0,
        state.channel.closed,
        forall|job: J| #[trigger] state.execute(job) == state,
{
    lemma_running_bounds(state.workers);
}

/// Once shutdown has begun the pool stays closed, whatever happens, and accepts
/// no further job.
pub proof fn lemma_closed_for_good<J>(state: PoolState<J>, events: Seq<Event<J>>)
    requires
        state.channel.closed,
    ensures
        state.run(events).channel.closed,
        state.run(events).submitted == state.submitted,
    decreases events.len(),
{
    if events.len() > 0 {
        lemma_closed_for_good(state, events.drop_last());
    }
}

/// Changing the status of one worker changes the number of workers in their
/// loop by that worker alone.
pub proof fn lemma_active_update(workers: Seq<WorkerStatus>, id: int, status: WorkerStatus)
    requires
        0 <= id < workers.len(),
    ensures
        active(workers.update(id, status)) + (if workers[id] != WorkerStatus::Exited {
            1nat
        } else {
            0nat
        }) == active(workers) + (if status != WorkerStatus::Exited {
            1nat
        } else {
            0nat
        }),
    decreases workers.len(),
{
    let updated = workers.update(id, status);
    if id == workers.len() - 1 {
        assert(updated.drop_last() == workers.drop_last());
    } else {
        lemma_active_update(workers.drop_last(), id, status);
        assert(updated.drop_last() == workers.drop_last().update(id, status));
    }
}

/// No worker is in its loop exactly when every worker has exited.
pub proof fn lemma_none_active(workers: Seq<WorkerStatus>)
    ensures
        active(workers) == 0 <==> forall|i: int|
            0 <= i < workers.len() ==> workers[i] == WorkerStatus::Exited,
    decreases workers.len(),
{
    if workers.len() > 0 {
        let front = workers.drop_last();
        lemma_none_active(front);
        if active(workers) == 0 {
            assert forall|i: int| 0 <= i < workers.len() implies workers[i]
                == WorkerStatus::Exited by {
                if i < front.len() {
                    assert(front[i] == workers[i]);
                }
            }
        }
    }
}

/// Shutdown comes to an end. Once shutdown has begun, each turn of a worker that
/// is still in its loop takes a job off the queue or, when the queue is empty,
/// takes the worker out of its loop. Either way the pool is one step nearer to
/// being shut down, and the worker is never told to wait.
pub proof fn lemma_shutdown_makes_progress<J>(state: PoolState<J>, id: int)
    requires
        state.channel.closed,
        state.is_active(id),
    ensures
        state.next_job(id).remaining() + 1 == state.remaining(),
        state.next_job(id).channel.closed,
        !(state.handed_out(id) is Pending),
{
    lemma_active_update(state.workers, id, status_after(state.channel.received()));
}

/// Nothing remains to be done exactly when the queue is empty and every worker
/// has exited.
pub proof fn lemma_nothing_remains<J>(state: PoolState<J>)
    ensures
        state.remaining() == 0 <==> state.is_shut_down() && state.channel.jobs.len() == 0,
{
    lemma_none_active(state.workers);
}

/// Shutting down twice is shutting down once: the second shutdown leaves the pool
/// as the first left it and names no thread to join.
pub proof fn lemma_shutdown_is_idempotent<J>(state: PoolState<J>)
    ensures
        state.shutdown().shutdown() == state.shutdown(),
        state.shutdown().to_join() == Seq::<usize>::empty(),
{
}

/// A pool of a fixed number of workers that share one job channel.
///
/// The pool records what it decides; it runs nothing itself. A worker's thread
/// calls [`ThreadPool::next_job`] whenever it is free and runs what it is
/// handed; submitters call [`ThreadPool::execute`]; the owner calls
/// [`ThreadPool::shutdown`] and joins the threads it names.
pub struct ThreadPool<J> {
    workers: Vec<Worker>,
    channel: JobChannel<J>,
    submitted: Ghost<Seq<J>>,
    started: Ghost<Seq<J>>,
    completed: Ghost<nat>,
}

impl<J> View for ThreadPool<J> {
    type V = PoolState<J>;

    closed spec fn view(&self) -> PoolState<J> {
        PoolState {
            channel: self.channel@,
            workers: Seq::new(self.workers@.len(), |i: int| self.workers@[i].status()),
            submitted: self.submitted@,
            started: self.started@,
            completed: self.completed@,
        }
    }
}

impl<J> ThreadPool<J> {
    /// Whether each worker carries its position in the pool as its id.
    pub closed spec fn ids_in_order(&self) -> bool {
        forall|i: int| 0 <= i < self.workers@.len() ==> (#[trigger] self.workers@[i]).id() == i
    }

    /// Whether the pool is well formed: its workers are numbered in order and its
    /// state is in order.
    pub open spec fn wf(&self) -> bool {
        &&& self.ids_in_order()
        &&& self@.inv()
    }

    /// A pool of `size` workers, all waiting, with an open and empty channel.
    /// A pool without workers could never run a job, so `size` must not be zero.
    pub fn new(size: usize) -> (pool: ThreadPool<J>)
        requires
            size > 0,
        ensures
            pool.wf(),
            pool@ == PoolState::<J>::init(size as nat),
    {
        let mut workers: Vec<Worker> = Vec::with_capacity(size);
        let mut id: usize = 0;
        while id < size
            invariant
                id <= size,
                workers@.len() == id,
                forall|i: int| 0 <= i < id ==> (#[trigger] workers@[i]).id() == i,
                forall|i: int|
                    0 <= i < id ==> (#[trigger] workers@[i]).status() == WorkerStatus::Waiting,
            decreases size - id,
        {
            workers.push(Worker::new(id));
            id = id + 1;
        }
        let pool = ThreadPool {
            workers,
            channel: JobChannel::new(),
            submitted: Ghost(Seq::empty()),
            started: Ghost(Seq::empty()),
            completed: Ghost(0),
        };
        proof {
            assert(pool@.workers == PoolState::<J>::init(size as nat).workers);
            lemma_init_inv::<J>(size as nat);
        }
        pool
    }

    /// Submits `job`: it is queued behind all jobs submitted before and will be
    /// handed to exactly one worker. Once shutdown has begun the job is refused
    /// and handed back, and the pool stays as it is.
    pub fn execute(&mut self, job: J) -> (r: Result<(), Closed<J>>)
        requires
            old(self).wf(),
        ensures
            final(self).wf(),
            final(self)@ == old(self)@.execute(job),
            r == (if old(self)@.channel.closed {
                Err(Closed(job))
            } else {
                Ok(())
            }),
    {
        proof {
            lemma_execute_inv(self@, job);
        }
        let r = self.channel.send(job);
        if r.is_ok() {
            self.submitted = Ghost(self.submitted@.push(job));
        }
        r
    }

    /// Begins shutdown: closes the channel, so that each worker exits once the
    /// queue has run empty, and returns the ids of the workers whose threads the
    /// caller must now join: every worker the first time, none afterwards.
    /// Shutdown is complete when the last worker has exited.
    pub fn shutdown(&mut self) -> (ids: Vec<usize>)
        requires
            old(self).wf(),
        ensures
            final(self).wf(),
            final(self)@ == old(self)@.shutdown(),
            ids@ == old(self)@.to_join(),
    {
        proof {
            lemma_shutdown_inv(self@);
        }
        let mut ids: Vec<usize> = Vec::new();
        if !self.channel.is_closed() {
            let size: usize = self.workers.len();
            let mut id: usize = 0;
            while id < size
                invariant
                    id <= size,
                    ids@.len() == id,
                    forall|i: int| 0 <= i < id ==> ids@[i] == i,
                decreases size - id,
            {
                ids.push(id);
                id = id + 1;
            }
            self.channel.close();
        }
        ids
    }

    /// Called by the thread of worker `id` whenever it is free. The job that the
    /// worker held, if any, counts as completed. The worker is handed the oldest
    /// queued job, which it must run; or `Pending`, on which it must wait for a
    /// submission or a shutdown and ask again; or `Exhausted`, on which it must
    /// leave its loop. An id that names no worker, or a worker that has exited,
    /// gets `Exhausted` and changes nothing.
    pub fn next_job(&mut self, id: usize) -> (r: Received<J>)
        requires
            old(self).wf(),
        ensures
            final(self).wf(),
            final(self)@ == old(self)@.next_job(id as int),
            r == old(self)@.handed_out(id as int),
    {
        proof {
            lemma_next_job_inv(self@, id as int);
        }
        if id >= self.workers.len() {
            return Received::Exhausted;
        }
        let mut worker = self.workers[id];
        let r = worker.step(&mut self.channel);
        self.workers.set(id, worker);
        self.started = Ghost(old(self)@.next_job(id as int).started);
        self.completed = Ghost(old(self)@.next_job(id as int).completed);
        assert(self@.workers == old(self)@.next_job(id as int).workers);
        r
    }

    /// The number of workers, fixed when the pool was made.
    pub fn size(&self) -> (n: usize)
        ensures
            n == self@.workers.len(),
    {
        self.workers.len()
    }

    /// The number of jobs that wait in the queue.
    pub fn queued(&self) -> (n: usize)
        ensures
            n == self@.channel.jobs.len(),
    {
        self.channel.len()
    }

    /// Whether shutdown has begun.
    pub fn is_closed(&self) -> (r: bool)
        ensures
            r == self@.channel.closed,
    {
        self.channel.is_closed()
    }

    /// Where worker `id` is in its loop, if there is such a worker.
    pub fn worker_status(&self, id: usize) -> (r: Option<WorkerStatus>)
        ensures
            r == (if id < self@.workers.len() {
                Some(self@.workers[id as int])
            } else {
                None
            }),
    {
        if id < self.workers.len() {
            Some(self.workers[id].status())
        } else {
            None
        }
    }

    /// Whether shutdown is complete: every worker has left its loop.
    pub fn is_shut_down(&self) -> (r: bool)
        ensures
            r == self@.is_shut_down(),
    {
        let mut id: usize = 0;
        while id < self.workers.len()
            invariant
                id <= self.workers@.len(),
                forall|i: int| 0 <= i < id ==> self@.workers[i] == WorkerStatus::Exited,
            decreases self.workers@.len() - id,
        {
            match self.workers[id].status() {
                WorkerStatus::Exited => {},
                _ => {
                    assert(self@.workers[id as int] != WorkerStatus::Exited);
                    return false;
                },
            }
            id = id + 1;
        }
        true
    }
}

} // verus!
