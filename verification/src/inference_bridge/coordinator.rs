use vstd::prelude::*;

verus! {

/// Configuration of the batching coordinator.
#[derive(Debug, Clone, Copy)]
pub struct CoordinatorConfig {
    /// Largest number of evaluations per network call.
    pub batch_size: usize,
    /// Longest wait, in microseconds, for a batch to fill after its first job.
    pub max_batch_wait_us: u64,
    /// Size of a single state observation in bytes: `OBS_CHANNELS * H * W`.
    pub obs_size: usize,
}

/// A backend that answers every evaluation with a zero value and a uniform policy.
pub struct StubBackend;

/// Where the coordinator stands between network calls.
#[derive(Debug, Clone, Copy, PartialEq, Eq, Structural)]
pub enum BatchPhase {
    /// No job is waiting; the coordinator blocks for the first one.
    Idle,
    /// This many jobs are waiting and the batch can still grow.
    Collecting(usize),
}

/// What the coordinator observed while waiting.
#[derive(Debug, Clone, Copy, PartialEq, Eq, Structural)]
pub enum BatchEvent {
    /// A job came in.
    JobArrived,
    /// Every sender is gone.
    ChannelClosed,
    /// The wait for the current batch ran out.
    DeadlinePassed,
}

/// What the coordinator does next.
#[derive(Debug, Clone, Copy, PartialEq, Eq, Structural)]
pub enum BatchAction {
    /// Block until the first job of a batch arrives.
    AwaitFirstJob,
    /// Wait, until the deadline, for another job.
    AwaitMoreJobs,
    /// Evaluate the waiting jobs, this many, in one network call and answer each.
    Dispatch(usize),
    /// Stop: no job is waiting and none can come.
    Shutdown,
}

/// The batching rule. Jobs are collected until the batch holds `batch_size` of them or
/// the wait after the first one runs out or the senders are gone; then they are
/// evaluated together. With nothing waiting, a closed channel stops the coordinator.
pub open spec fn batch_step(batch_size: usize, phase: BatchPhase, event: BatchEvent) -> (BatchPhase, BatchAction) {
    match phase {
        BatchPhase::Idle => match event {
            BatchEvent::JobArrived => if 1 < batch_size {
                (BatchPhase::Collecting(1), BatchAction::AwaitMoreJobs)
            } else {
                (BatchPhase::Idle, BatchAction::Dispatch(1))
            },
            BatchEvent::ChannelClosed => (BatchPhase::Idle, BatchAction::Shutdown),
            BatchEvent::DeadlinePassed => (BatchPhase::Idle, BatchAction::AwaitFirstJob),
        },
        BatchPhase::Collecting(n) => match event {
            BatchEvent::JobArrived => if n + 1 < batch_size {
                (BatchPhase::Collecting((n + 1) as usize), BatchAction::AwaitMoreJobs)
            } else {
                (BatchPhase::Idle, BatchAction::Dispatch((n + 1) as usize))
            },
            _ => (BatchPhase::Idle, BatchAction::Dispatch(n)),
        },
    }
}

/// The phase's invariant: a batch being collected holds at least one job and is not
/// full yet.
pub open spec fn batch_phase_ok(batch_size: usize, phase: BatchPhase) -> bool {
    match phase {
        BatchPhase::Idle => true,
        BatchPhase::Collecting(n) => 1 <= n < batch_size,
    }
}

/// Number of jobs waiting in a phase.
pub open spec fn waiting_jobs(phase: BatchPhase) -> nat {
    match phase {
        BatchPhase::Idle => 0,
        BatchPhase::Collecting(n) => n as nat,
    }
}

/// Number of jobs that an action evaluates.
pub open spec fn dispatched_jobs(action: BatchAction) -> nat {
    match action {
        BatchAction::Dispatch(n) => n as nat,
        _ => 0,
    }
}

/// Decides the coordinator's next phase and action; see `batch_step`.
pub fn coordinator_step(config: &CoordinatorConfig, phase: BatchPhase, event: BatchEvent) -> (r: (
    BatchPhase,
    BatchAction,
))
    requires
        batch_phase_ok(config.batch_size, phase),
    ensures
        r == batch_step(config.batch_size, phase, event),
        batch_phase_ok(config.batch_size, r.0),
{
    match phase {
        BatchPhase::Idle => match event {
            BatchEvent::JobArrived => if 1 < config.batch_size {
                (BatchPhase::Collecting(1), BatchAction::AwaitMoreJobs)
            } else {
                (BatchPhase::Idle, BatchAction::Dispatch(1))
            },
            BatchEvent::ChannelClosed => (BatchPhase::Idle, BatchAction::Shutdown),
            BatchEvent::DeadlinePassed => (BatchPhase::Idle, BatchAction::AwaitFirstJob),
        },
        BatchPhase::Collecting(n) => match event {
            BatchEvent::JobArrived => if n + 1 < config.batch_size {
                (BatchPhase::Collecting(n + 1), BatchAction::AwaitMoreJobs)
            } else {
                (BatchPhase::Idle, BatchAction::Dispatch(n + 1))
            },
            _ => (BatchPhase::Idle, BatchAction::Dispatch(n)),
        },
    }
}

/// A batch grows with each arriving job until it holds `batch_size` jobs (at least one),
/// and is dispatched by the arrival that fills it, never earlier: a job arriving while
/// `n` jobs wait dispatches exactly when `n + 1` reaches `batch_size`, and then all
/// `batch_size` of them; otherwise `n + 1` jobs wait. A first job is dispatched alone
/// exactly when batches hold at most one job.
pub proof fn lemma_batch_fills_to_size(batch_size: usize, phase: BatchPhase)
    requires
        batch_phase_ok(batch_size, phase),
    ensures
        ({
            let n = waiting_jobs(phase);
            let (next, action) = batch_step(batch_size, phase, BatchEvent::JobArrived);
            &&& (action is Dispatch) <==> n + 1 >= batch_size
            &&& action is Dispatch ==> next == BatchPhase::Idle && dispatched_jobs(action) == n + 1
                && (dispatched_jobs(action) == batch_size || (batch_size <= 1 && n == 0))
            &&& !(action is Dispatch) ==> next == BatchPhase::Collecting((n + 1) as usize)
                && action == BatchAction::AwaitMoreJobs
        }),
{
}

/// Only an arrival can fill a batch: when the wait runs out or the senders are gone, the
/// jobs waiting are dispatched as they are, and an idle coordinator dispatches nothing.
pub proof fn lemma_batch_sent_early_only_by_wait_or_close(batch_size: usize, phase: BatchPhase, event: BatchEvent)
    requires
        batch_phase_ok(batch_size, phase),
        event != BatchEvent::JobArrived,
    ensures
        ({
            let (next, action) = batch_step(batch_size, phase, event);
            &&& next == BatchPhase::Idle
            &&& dispatched_jobs(action) == waiting_jobs(phase)
        }),
{
}

/// The observations of a batch's jobs, as values.
pub open spec fn observation_views(observations: Seq<Vec<u8>>) -> Seq<Seq<u8>> {
    observations.map_values(|v: Vec<u8>| v@)
}

/// The network input of a batch: the observations of its jobs one after another, in
/// the order in which the jobs arrived.
pub fn batch_observations(observations: &Vec<Vec<u8>>) -> (batch: Vec<u8>)
    ensures
        batch@ == observation_views(observations@).flatten(),
{
    let ghost views = observation_views(observations@);
    let n = observations.len();
    let mut batch: Vec<u8> = Vec::new();
    let mut i: usize = 0;
    while i < n
        invariant
            n == observations@.len(),
            i <= n,
            views == observation_views(observations@),
            batch@ == views.subrange(0, i as int).flatten(),
        decreases n - i,
    {
        let obs = &observations[i];
        let m = obs.len();
        let mut j: usize = 0;
        assert(obs@.subrange(0, 0) =~= Seq::<u8>::empty());
        assert(views.subrange(0, i as int).flatten() + Seq::<u8>::empty() =~= views.subrange(0, i as int).flatten());
        while j < m
            invariant
                n == observations@.len(),
                i < n,
                views == observation_views(observations@),
                m == obs@.len(),
                obs@ == views[i as int],
                j <= m,
                batch@ == views.subrange(0, i as int).flatten() + obs@.subrange(0, j as int),
            decreases m - j,
        {
            batch.push(obs[j]);
            proof {
                assert(obs@.subrange(0, j as int + 1) =~= obs@.subrange(0, j as int).push(obs@[j as int]));
            }
            j = j + 1;
        }
        proof {
            assert(views.subrange(0, i as int + 1) =~= views.subrange(0, i as int).push(views[i as int]));
            views.subrange(0, i as int).lemma_flatten_push(views[i as int]);
            assert(obs@.subrange(0, m as int) =~= obs@);
        }
        i = i + 1;
    }
    proof {
        assert(views.subrange(0, n as int) =~= views);
    }
    batch
}

/// No job is lost or evaluated twice: every job that arrives is waiting or dispatched
/// after the step, and a batch holds between one job and `max(batch_size, 1)`.
pub proof fn lemma_batching_conserves_jobs(batch_size: usize, phase: BatchPhase, event: BatchEvent)
    requires
        batch_phase_ok(batch_size, phase),
    ensures
        ({
            let (next, action) = batch_step(batch_size, phase, event);
            &&& waiting_jobs(next) + dispatched_jobs(action) == waiting_jobs(phase) + (if event
                == BatchEvent::JobArrived { 1nat } else { 0nat })
            &&& action matches BatchAction::Dispatch(n) ==> 1 <= n && (n <= batch_size || n == 1)
            &&& action == BatchAction::Shutdown ==> phase == BatchPhase::Idle && event
                == BatchEvent::ChannelClosed
        }),
{
}

} // verus!
