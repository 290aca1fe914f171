//! Shared data model: job lifecycle states, queue statistics, listing
//! filters, worker descriptions and the structured results of the read API.

use vstd::prelude::*;

verus! {

/// Lifecycle state of one persisted job record.
///
/// `Success` and `Dead` are terminal; `Failed` may be retried by the backend
/// store until it becomes `Dead`.
#[derive(Clone, Copy, Debug, PartialEq, Eq, Structural)]
pub enum JobState {
    Pending,
    Scheduled,
    Running,
    Dead,
    Failed,
    Success,
}

impl JobState {
    /// Variant name, as the read API and the listing filter spell it.
    pub fn name(&self) -> (r: &'static str)
        ensures
            r@ == self.name_spec(),
    {
        match self {
            JobState::Pending => "Pending",
            JobState::Scheduled => "Scheduled",
            JobState::Running => "Running",
            JobState::Dead => "Dead",
            JobState::Failed => "Failed",
            JobState::Success => "Success",
        }
    }

    pub open spec fn name_spec(self) -> Seq<char> {
        match self {
            JobState::Pending => "Pending"@,
            JobState::Scheduled => "Scheduled"@,
            JobState::Running => "Running"@,
            JobState::Dead => "Dead"@,
            JobState::Failed => "Failed"@,
            JobState::Success => "Success"@,
        }
    }

    /// Whether a job in this state has finished for good.
    pub fn is_terminal(&self) -> (r: bool)
        ensures
            r == self.is_terminal_spec(),
    {
        match self {
            JobState::Dead => true,
            JobState::Success => true,
            _ => false,
        }
    }

    pub open spec fn is_terminal_spec(self) -> bool {
        self is Dead || self is Success
    }
}

impl Default for JobState {
    /// A freshly pushed job starts out pending.
    fn default() -> (r: Self)
        ensures
            r is Pending,
    {
        JobState::Pending
    }
}

/// A point-in-time snapshot of how many jobs sit in each lifecycle state.
/// Always computed on demand, never cached.
#[derive(Clone, Copy, Debug, PartialEq, Eq, Structural)]
pub struct Stat {
    pub pending: usize,
    pub running: usize,
    pub dead: usize,
    pub failed: usize,
    pub success: usize,
}

impl Stat {
    pub open spec fn total_spec(self) -> int {
        self.pending + self.running + self.dead + self.failed + self.success
    }

    /// Sum of the five counts.
    pub fn total(&self) -> (r: usize)
        requires
            self.total_spec() <= usize::MAX,
        ensures
            r == self.total_spec(),
    {
        self.pending + self.running + self.dead + self.failed + self.success
    }
}

impl Default for Stat {
    fn default() -> (r: Self)
        ensures
            r.total_spec() == 0,
    {
        Stat { pending: 0, running: 0, dead: 0, failed: 0, success: 0 }
    }
}

/// Selects which jobs a paginated listing returns: records in `status`,
/// on 1-indexed page `page`.
#[derive(Clone, Copy, Debug)]
pub struct Filter {
    pub status: JobState,
    pub page: i32,
}

/// The page a listing starts from when the caller names none.
pub fn default_page() -> (r: i32)
    ensures
        r == 1,
{
    1
}

impl Default for Filter {
    fn default() -> (r: Self)
        ensures
            r.status is Pending,
            r.page == 1,
    {
        Filter { status: JobState::Pending, page: default_page() }
    }
}

/// How long in-flight step executions get to finish after an interrupt
/// before the process force-terminates. A container-mode run must reach its
/// removal action within this grace, or its container leaks and must be
/// reaped out of band.
pub const SHUTDOWN_GRACE_MS: u64 = 3000;

/// A resilience or throttling layer a worker was configured with.
/// Durations are carried as whole milliseconds.
#[derive(Clone, Debug)]
pub enum Layer {
    Retry { retries: u64 },
    Timeout { duration_ms: u64 },
    LoadShed,
    RateLimit { num: u64, per_ms: u64 },
    ConcurrencyLimit { max: usize },
    Buffer { bound: usize },
    Sentry { dsn: usize },
    Prometheus,
}

/// One live poller, as the worker roster reports it.
#[derive(Clone, Debug)]
pub struct Worker {
    /// The worker's identifier within its backend store.
    pub worker_id: String,
    /// The kind of task the worker consumes, for display and filtering.
    pub task_kind: String,
    /// The kind of job stream the worker pulls from.
    pub source: String,
    /// The layers the worker was loaded with.
    pub layers: Vec<Layer>,
}

impl Worker {
    pub fn new(worker_id: String, task_kind: String, source: String) -> (r: Self)
        ensures
            r.worker_id@ == worker_id@,
            r.task_kind@ == task_kind@,
            r.source@ == source@,
            r.layers@.len() == 0,
    {
        Worker { worker_id, task_kind, source, layers: Vec::new() }
    }
}

/// What one call of the job listing endpoint returns: the snapshot
/// statistics beside the requested page of jobs.
#[derive(Clone, Debug)]
pub struct GetJobsResult<T> {
    pub stats: Stat,
    pub jobs: Vec<T>,
}

/// Top-level configuration of the read API.
#[derive(Clone, Debug)]
pub enum Config {
    Board(BoardConfig),
}

/// Which backend store a board reads, with its connection string.
#[derive(Clone, Debug)]
pub enum BoardConfig {
    Redis(String),
    Postgres(String),
    Mysql(String),
    Sqlite(String),
}

/// One text message delivered to a live subscriber.
#[derive(Clone, Debug)]
pub struct WsMessage(pub String);

} // verus!
