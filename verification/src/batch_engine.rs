//! Running a batch: every prompt against every repository, as one session
//! each, under a limit on how many run at once.
//!
//! The engine is the bookkeeping of such runs. It neither creates sessions
//! nor waits for them: a driver does that, and tells the engine what
//! happened. [`BatchEngine::begin_batch`] hands the driver its plan, the
//! `session_*` methods record each event, and [`BatchEngine::finish_batch`]
//! settles the status of the batch. Every snapshot of progress that the
//! engine emits is appended to the batch's log, from which a
//! [`ProgressReceiver`] reads them in order.

use crate::domain::AgentMode;
use vstd::prelude::*;
use vstd::string::StringExecFns;

verus! {

pub type BatchId = String;

pub type SessionId = String;

/// How many sessions any batch may run at once, whatever it asks for.
pub const DEFAULT_CONCURRENCY_LIMIT: usize = 8;

/// How many characters an id has that the engine draws.
pub const ID_LENGTH: usize = 36;

/// What to run: every prompt against every repository.
#[derive(Debug, Clone)]
pub struct BatchConfig {
    pub name: String,
    pub prompts: Vec<String>,
    pub repositories: Vec<String>,
    /// How many sessions may run at once.
    pub concurrency: usize,
    pub timeout_sec: u64,
    pub retry_policy: Option<RetryPolicy>,
    pub agent_mode: Option<String>,
    pub toolbox_path: Option<String>,
}

#[derive(Debug, Clone, Copy, PartialEq, Eq, Structural)]
pub struct RetryPolicy {
    pub max_attempts: u32,
    pub backoff_ms: u64,
}

/// A snapshot of how far a batch has come.
#[derive(Debug, Clone)]
pub struct BatchProgress {
    pub batch_id: BatchId,
    /// How many sessions the batch has recorded.
    pub total_sessions: usize,
    pub completed_sessions: usize,
    pub failed_sessions: usize,
    pub running_sessions: usize,
    /// The share of recorded sessions that have ended, in percent, rounded
    /// down; zero where none is recorded.
    pub progress_percent: u32,
    pub status: BatchStatus,
}

#[derive(Debug, Clone, Copy, PartialEq, Eq, Structural)]
pub enum BatchStatus {
    Pending,
    Running,
    Completed,
    Failed,
    Cancelled,
}

/// What a batch came to, once it has ended.
#[derive(Debug)]
pub struct BatchResult {
    pub batch_id: BatchId,
    pub total_sessions: usize,
    pub successful_sessions: usize,
    pub failed_sessions: usize,
    pub execution_time: std::time::Duration,
    pub session_results: Vec<BatchSessionResult>,
}

/// What is known of one session of a batch.
#[derive(Debug, Clone)]
pub struct BatchSessionResult {
    pub session_id: SessionId,
    pub status: SessionStatus,
    /// When the session started, in milliseconds on the driver's clock.
    pub start_time: Option<u64>,
    /// When the session ended, in milliseconds on the driver's clock.
    pub end_time: Option<u64>,
    pub error_message: Option<String>,
    pub metrics: Option<SessionMetrics>,
}

#[derive(Debug, Clone, Copy, PartialEq, Eq, Structural)]
pub enum SessionStatus {
    Pending,
    Running,
    Completed,
    Failed,
}

#[derive(Debug, Clone, Copy, PartialEq, Eq, Structural)]
pub struct SessionMetrics {
    pub iterations: u32,
    pub tokens_used: u32,
    pub tools_invoked: u32,
    pub execution_time_ms: u64,
}

/// One batch as the engine keeps it.
#[derive(Debug, Clone)]
pub struct BatchExecution {
    pub id: BatchId,
    pub config: BatchConfig,
    pub status: BatchStatus,
    /// The sessions recorded so far, each id once, in the order in which they
    /// were first recorded.
    pub sessions: Vec<BatchSessionResult>,
    /// When the driver began, in milliseconds on its clock.
    pub start_time: Option<u64>,
    /// Every snapshot emitted so far, oldest first.
    pub progress: Vec<BatchProgress>,
}

/// A reader of a batch's snapshots: it remembers how many it has seen.
#[derive(Debug)]
pub struct ProgressReceiver {
    pub batch_id: BatchId,
    pub seen: usize,
}

/// What [`BatchEngine::start_batch`] hands back.
#[derive(Debug)]
pub struct BatchHandle {
    pub batch_id: BatchId,
    pub progress_rx: Option<ProgressReceiver>,
    pub total_sessions: usize,
}

#[derive(Debug)]
pub struct SessionErrorWrapper(pub String);

#[derive(Debug)]
pub enum BatchError {
    InvalidConfig(String),
    BatchNotFound(String),
    SessionError(SessionErrorWrapper),
    DatabaseError(String),
}

/// One session to create: a prompt against a repository, under an id of its
/// own.
#[derive(Debug, Clone)]
pub struct SessionTask {
    pub session_id: SessionId,
    pub prompt: String,
    pub repository: String,
}

/// What the driver of a batch is to do.
#[derive(Debug)]
pub struct BatchPlan {
    /// The name under which every session of the batch is created.
    pub session_name: String,
    /// The branch that every session starts from.
    pub base_branch: String,
    pub agent_mode: Option<AgentMode>,
    /// How many sessions may run at once.
    pub permits: usize,
    /// The sessions to create, in order: prompt by prompt, and for each
    /// prompt repository by repository.
    pub tasks: Vec<SessionTask>,
}

/// The registry of batches.
pub struct BatchEngine {
    active_batches: Vec<BatchExecution>,
    concurrency_limit: usize,
}

/// How many of `sessions` have the status `status`.
pub open spec fn count_status(sessions: Seq<BatchSessionResult>, status: SessionStatus) -> nat
    decreases sessions.len(),
{
    if sessions.len() == 0 {
        0
    } else {
        count_status(sessions.drop_last(), status) + if sessions.last().status == status {
            1nat
        } else {
            0nat
        }
    }
}

/// The share of `total` that `done` is, in percent, rounded down; zero where
/// `total` is zero.
pub open spec fn percent_of(done: nat, total: nat) -> nat {
    if total > 0 {
        done * 100 / total
    } else {
        0
    }
}

/// Whether `p` is the snapshot of `batch` under the id `batch_id`: the
/// sessions counted by status, and the share of them that have ended.
pub open spec fn is_progress_of(p: BatchProgress, batch_id: Seq<char>, batch: BatchExecution)
    -> bool {
    &&& p.batch_id@ == batch_id
    &&& p.total_sessions == batch.sessions@.len()
    &&& p.completed_sessions == count_status(batch.sessions@, SessionStatus::Completed)
    &&& p.failed_sessions == count_status(batch.sessions@, SessionStatus::Failed)
    &&& p.running_sessions == count_status(batch.sessions@, SessionStatus::Running)
    &&& p.progress_percent == percent_of(
        (p.completed_sessions + p.failed_sessions) as nat,
        p.total_sessions as nat,
    )
    &&& p.status == batch.status
}

/// Sessions counted by three different statuses are no more than there are
/// sessions.
pub proof fn lemma_counts_fit(sessions: Seq<BatchSessionResult>)
    ensures
        count_status(sessions, SessionStatus::Completed) + count_status(
            sessions,
            SessionStatus::Failed,
        ) + count_status(sessions, SessionStatus::Running) <= sessions.len(),
    decreases sessions.len(),
{
    if sessions.len() > 0 {
        lemma_counts_fit(sessions.drop_last());
    }
}

/// The snapshot of `batch` under the id `batch_id`.
pub fn calculate_progress(batch_id: &str, batch: &BatchExecution) -> (p: BatchProgress)
    ensures
        is_progress_of(p, batch_id@, *batch),
        p.completed_sessions + p.failed_sessions + p.running_sessions <= p.total_sessions,
        p.progress_percent <= 100,
{
    let total = batch.sessions.len();
    let mut completed: usize = 0;
    let mut failed: usize = 0;
    let mut running: usize = 0;
    let mut i: usize = 0;
    while i < total
        invariant
            i <= total,
            total == batch.sessions.len(),
            completed == count_status(batch.sessions@.take(i as int), SessionStatus::Completed),
            failed == count_status(batch.sessions@.take(i as int), SessionStatus::Failed),
            running == count_status(batch.sessions@.take(i as int), SessionStatus::Running),
            completed + failed + running <= i,
        decreases total - i,
    {
        proof {
            assert(batch.sessions@.take(i + 1).drop_last() == batch.sessions@.take(i as int));
            assert(batch.sessions@.take(i + 1).last() == batch.sessions@[i as int]);
        }
        match batch.sessions[i].status {
            SessionStatus::Completed => {
                completed += 1;
            },
            SessionStatus::Failed => {
                failed += 1;
            },
            SessionStatus::Running => {
                running += 1;
            },
            SessionStatus::Pending => {},
        }
        i += 1;
    }
    assert(batch.sessions@.take(total as int) == batch.sessions@);
    let done = completed + failed;
    let percent: u32 = if total > 0 {
        assert(done * 100 / (total as int) <= 100) by (nonlinear_arith)
            requires
                0 <= done <= total,
                total > 0,
        ;
        ((done as u128) * 100 / (total as u128)) as u32
    } else {
        0
    };
    BatchProgress {
        batch_id: String::from_str(batch_id),
        total_sessions: total,
        completed_sessions: completed,
        failed_sessions: failed,
        running_sessions: running,
        progress_percent: percent,
        status: batch.status,
    }
}

fn copy_progress(p: &BatchProgress) -> (copy: BatchProgress)
    ensures
        copy == *p,
{
    BatchProgress {
        batch_id: p.batch_id.clone(),
        total_sessions: p.total_sessions,
        completed_sessions: p.completed_sessions,
        failed_sessions: p.failed_sessions,
        running_sessions: p.running_sessions,
        progress_percent: p.progress_percent,
        status: p.status,
    }
}

/// The status of a batch whose driver begins: `Running`, unless the batch
/// was cancelled before, which it then stays.
pub open spec fn begun_status(status: BatchStatus) -> BatchStatus {
    if status == BatchStatus::Cancelled {
        BatchStatus::Cancelled
    } else {
        BatchStatus::Running
    }
}

/// The status that a batch ends with: what it has where it was cancelled,
/// else `Completed` where no session failed and `Failed` where one did.
pub open spec fn final_status(batch: BatchExecution) -> BatchStatus {
    if batch.status == BatchStatus::Cancelled {
        BatchStatus::Cancelled
    } else if count_status(batch.sessions@, SessionStatus::Failed) == 0 {
        BatchStatus::Completed
    } else {
        BatchStatus::Failed
    }
}

/// The kind of agent that the text `mode` names: `geppetto:main` and
/// `default` their own, any other text a custom one of that name.
pub open spec fn agent_mode_named(mode: Seq<char>, parsed: AgentMode) -> bool {
    if mode == "geppetto:main"@ {
        parsed == AgentMode::Geppetto
    } else if mode == "default"@ {
        parsed == AgentMode::Default
    } else {
        parsed matches AgentMode::Custom(name) && name@ == mode
    }
}

/// Reads the kind of agent that a batch asks for.
pub fn parse_agent_mode(mode: &str) -> (parsed: AgentMode)
    ensures
        agent_mode_named(mode@, parsed),
{
    if mode.eq("geppetto:main") {
        AgentMode::Geppetto
    } else if mode.eq("default") {
        AgentMode::Default
    } else {
        AgentMode::Custom(String::from_str(mode))
    }
}

/// `uuid::Uuid::new_v4` draws a random UUID; written out with hyphens it has
/// 36 characters.
#[verifier::external_body]
fn fresh_id() -> (id: String)
    ensures
        id@.len() == ID_LENGTH,
{
    uuid::Uuid::new_v4().to_string()
}

/// Whether task `k` is the prompt `k / n` against the repository `k % n`,
/// where `n` is the number of repositories, under an id of the engine's
/// own.
pub open spec fn pairs_at(
    tasks: Seq<SessionTask>,
    prompts: Seq<String>,
    repositories: Seq<String>,
    k: int,
) -> bool {
    let n = repositories.len() as int;
    &&& 0 <= k / n < prompts.len()
    &&& 0 <= k % n < n
    &&& tasks[k].prompt@ == prompts[k / n]@
    &&& tasks[k].repository@ == repositories[k % n]@
    &&& tasks[k].session_id@.len() == ID_LENGTH
}

/// Whether `tasks` pairs the prompts with the repositories in order: prompt
/// by prompt, and for each prompt repository by repository.
pub open spec fn is_product(
    tasks: Seq<SessionTask>,
    prompts: Seq<String>,
    repositories: Seq<String>,
) -> bool {
    &&& tasks.len() == prompts.len() * repositories.len()
    &&& forall|k: int|
        0 <= k < tasks.len() ==> #[trigger] pairs_at(tasks, prompts, repositories, k)
}

/// The sessions of a batch, in order, each under a fresh id.
pub fn cartesian_tasks(prompts: &Vec<String>, repositories: &Vec<String>) -> (tasks: Vec<
    SessionTask,
>)
    ensures
        is_product(tasks@, prompts@, repositories@),
{
    let width = repositories.len();
    let mut tasks: Vec<SessionTask> = Vec::new();
    let mut i: usize = 0;
    assert(0 * width == 0) by (nonlinear_arith);
    while i < prompts.len()
        invariant
            i <= prompts.len(),
            width == repositories.len(),
            tasks.len() == i * width,
            forall|k: int|
                0 <= k < tasks.len() ==> #[trigger] pairs_at(tasks@, prompts@, repositories@, k),
        decreases prompts.len() - i,
    {
        let mut j: usize = 0;
        while j < width
            invariant
                i < prompts.len(),
                j <= width,
                width == repositories.len(),
                tasks.len() == i * width + j,
                forall|k: int|
                    0 <= k < tasks.len() ==> #[trigger] pairs_at(
                        tasks@,
                        prompts@,
                        repositories@,
                        k,
                    ),
            decreases width - j,
        {
            let ghost before = tasks@;
            tasks.push(
                SessionTask {
                    session_id: fresh_id(),
                    prompt: prompts[i].clone(),
                    repository: repositories[j].clone(),
                },
            );
            proof {
                assert forall|k: int| 0 <= k < tasks.len() implies #[trigger] pairs_at(
                    tasks@,
                    prompts@,
                    repositories@,
                    k,
                ) by {
                    if k < before.len() {
                        assert(pairs_at(before, prompts@, repositories@, k));
                        assert(tasks@[k] == before[k]);
                    } else {
                        vstd::arithmetic::div_mod::lemma_fundamental_div_mod_converse(
                            k,
                            width as int,
                            i as int,
                            j as int,
                        );
                    }
                }
            }
            j += 1;
        }
        proof {
            assert((i + 1) * width == i * width + width) by (nonlinear_arith);
        }
        i += 1;
    }
    tasks
}

/// Whether `r` refuses a configuration with the reason `message`.
pub open spec fn refuses<T>(r: Result<T, BatchError>, message: Seq<char>) -> bool {
    r matches Err(BatchError::InvalidConfig(text)) && text@ == message
}

/// Whether `r` says that no batch has the id `id`.
pub open spec fn misses<T>(r: Result<T, BatchError>, id: Seq<char>) -> bool {
    r matches Err(BatchError::BatchNotFound(text)) && text@ == id
}

/// No id stands twice among `batches`.
pub open spec fn distinct_batches(batches: Seq<BatchExecution>) -> bool {
    forall|i: int, j: int|
        0 <= i < j < batches.len() ==> (#[trigger] batches[i]).id@ != (#[trigger] batches[j]).id@
}

/// No id stands twice among `sessions`.
pub open spec fn distinct_sessions(sessions: Seq<BatchSessionResult>) -> bool {
    forall|i: int, j: int|
        0 <= i < j < sessions.len() ==> (#[trigger] sessions[i]).session_id@ != (
        #[trigger] sessions[j]).session_id@
}

/// Whether `batches` holds a batch with the id `id`.
pub open spec fn has_batch(batches: Seq<BatchExecution>, id: Seq<char>) -> bool {
    exists|i: int| 0 <= i < batches.len() && (#[trigger] batches[i]).id@ == id
}

/// Whether `sessions` holds a session with the id `id`.
pub open spec fn has_session(sessions: Seq<BatchSessionResult>, id: Seq<char>) -> bool {
    exists|i: int| 0 <= i < sessions.len() && (#[trigger] sessions[i]).session_id@ == id
}

/// Whether `after` is `before` but for the element at `i`.
pub open spec fn same_but<T>(before: Seq<T>, after: Seq<T>, i: int) -> bool {
    &&& after.len() == before.len()
    &&& forall|j: int| 0 <= j < before.len() && j != i ==> #[trigger] after[j] == before[j]
}

/// Whether `after` is `before` with what only the bookkeeping of sessions
/// and snapshots may change left as it was: id and configuration.
pub open spec fn same_batch(before: BatchExecution, after: BatchExecution) -> bool {
    after.id == before.id && after.config == before.config
}

/// Whether `after` is `before` with one more snapshot emitted: that of
/// `after` itself.
pub open spec fn emitted(before: BatchExecution, after: BatchExecution) -> bool {
    &&& after.progress@.len() == before.progress@.len() + 1
    &&& after.progress@.drop_last() == before.progress@
    &&& is_progress_of(after.progress@.last(), after.id@, after)
}

/// A batch as it is registered: pending, with no session, no start time and
/// no snapshot.
pub open spec fn is_registered(batch: BatchExecution, id: Seq<char>, config: BatchConfig)
    -> bool {
    &&& batch.id@ == id
    &&& batch.config == config
    &&& batch.status == BatchStatus::Pending
    &&& batch.sessions@.len() == 0
    &&& batch.start_time is None
    &&& batch.progress@.len() == 0
}

/// Whether `after` is `before` with a batch registered at its end.
pub open spec fn appended(
    before: Seq<BatchExecution>,
    after: Seq<BatchExecution>,
    id: Seq<char>,
    config: BatchConfig,
) -> bool {
    &&& after.len() == before.len() + 1
    &&& after.drop_last() == before
    &&& is_registered(after.last(), id, config)
}

/// A session as it is recorded when it was created: pending, with nothing
/// else known.
pub open spec fn is_pending(session: BatchSessionResult, id: Seq<char>) -> bool {
    &&& session.session_id@ == id
    &&& session.status == SessionStatus::Pending
    &&& session.start_time is None
    &&& session.end_time is None
    &&& session.error_message is None
    &&& session.metrics is None
}

/// A session as it is recorded when it could not be created: failed, with
/// the reason.
pub open spec fn is_stillborn(session: BatchSessionResult, id: Seq<char>, reason: Seq<char>)
    -> bool {
    &&& session.session_id@ == id
    &&& session.status == SessionStatus::Failed
    &&& session.start_time is None
    &&& session.end_time is None
    &&& session.error_message is Some
    &&& session.error_message->0@ == "Failed to create session: "@ + reason
    &&& session.metrics is None
}

/// Whether `after` is `before` put into `sessions`: in the place of the
/// session with that id where there is one, else at the end.
pub open spec fn put_session(
    before: Seq<BatchSessionResult>,
    after: Seq<BatchSessionResult>,
    session: BatchSessionResult,
) -> bool {
    if has_session(before, session.session_id@) {
        exists|k: int|
            0 <= k < before.len() && (#[trigger] before[k]).session_id@ == session.session_id@
                && after == before.update(k, session)
    } else {
        after == before.push(session)
    }
}

/// A session marked as running since `now`.
pub open spec fn is_started(before: BatchSessionResult, after: BatchSessionResult, now: u64)
    -> bool {
    &&& after.session_id == before.session_id
    &&& after.status == SessionStatus::Running
    &&& after.start_time == Some(now)
    &&& after.end_time == before.end_time
    &&& after.error_message == before.error_message
    &&& after.metrics == before.metrics
}

/// A session marked as ended at `now`: completed, or failed with the
/// reason.
pub open spec fn is_ended(
    before: BatchSessionResult,
    after: BatchSessionResult,
    outcome: Result<(), String>,
    now: u64,
) -> bool {
    &&& after.session_id == before.session_id
    &&& after.start_time == before.start_time
    &&& after.end_time == Some(now)
    &&& after.metrics == before.metrics
    &&& match outcome {
        Ok(_) => after.status == SessionStatus::Completed && after.error_message
            == before.error_message,
        Err(reason) => after.status == SessionStatus::Failed && after.error_message is Some
            && after.error_message->0@ == reason@,
    }
}

/// Whether `plan` is the plan of a batch with the configuration `config`
/// under the id `batch_id`, in an engine that lets `limit` sessions run at
/// once: the sessions are named after the batch and start from `main`, as
/// many may run at once as the batch asks for and the engine lets, and there
/// is one task for each prompt and repository, in order.
pub open spec fn is_plan_of(plan: BatchPlan, config: BatchConfig, batch_id: Seq<char>, limit: usize)
    -> bool {
    &&& plan.session_name@ == "Batch_"@ + batch_id + "_Session"@
    &&& plan.base_branch@ == "main"@
    &&& plan.permits == if config.concurrency <= limit {
        config.concurrency
    } else {
        limit
    }
    &&& match config.agent_mode {
        None => plan.agent_mode is None,
        Some(mode) => plan.agent_mode is Some && agent_mode_named(mode@, plan.agent_mode->0),
    }
    &&& is_product(plan.tasks@, config.prompts@, config.repositories@)
}

/// Whether `after` is `before` but for status, start time, sessions and
/// snapshots.
pub open spec fn kept_but_sessions(before: BatchExecution, after: BatchExecution) -> bool {
    &&& same_batch(before, after)
    &&& after.status == before.status
    &&& after.start_time == before.start_time
    &&& after.progress == before.progress
}

/// Whether `after` is `before` with a pending session `id` put in.
pub open spec fn put_pending(
    before: Seq<BatchSessionResult>,
    after: Seq<BatchSessionResult>,
    id: Seq<char>,
) -> bool {
    exists|session: BatchSessionResult| #[trigger]
        is_pending(session, id) && put_session(before, after, session)
}

/// Whether `after` is `before` with a session `id` put in that could not be
/// created, for the reason `reason`.
pub open spec fn put_stillborn(
    before: Seq<BatchSessionResult>,
    after: Seq<BatchSessionResult>,
    id: Seq<char>,
    reason: Seq<char>,
) -> bool {
    exists|session: BatchSessionResult| #[trigger]
        is_stillborn(session, id, reason) && put_session(before, after, session)
}

/// Whether `after` is `before` with the session `id`, where there is one,
/// marked as running since `now`.
pub open spec fn marked_started(
    before: Seq<BatchSessionResult>,
    after: Seq<BatchSessionResult>,
    id: Seq<char>,
    now: u64,
) -> bool {
    &&& !has_session(before, id) ==> after == before
    &&& forall|k: int|
        0 <= k < before.len() && (#[trigger] before[k]).session_id@ == id ==> same_but(
            before,
            after,
            k,
        ) && is_started(before[k], after[k], now)
}

/// Whether `after` is `before` with the session `id`, where there is one,
/// marked as ended at `now` with `outcome`.
pub open spec fn marked_ended(
    before: Seq<BatchSessionResult>,
    after: Seq<BatchSessionResult>,
    id: Seq<char>,
    outcome: Result<(), String>,
    now: u64,
) -> bool {
    &&& !has_session(before, id) ==> after == before
    &&& forall|k: int|
        0 <= k < before.len() && (#[trigger] before[k]).session_id@ == id ==> same_but(
            before,
            after,
            k,
        ) && is_ended(before[k], after[k], outcome, now)
}

proof fn lemma_only_session(sessions: Seq<BatchSessionResult>, k: int)
    requires
        distinct_sessions(sessions),
        0 <= k < sessions.len(),
    ensures
        forall|j: int|
            0 <= j < sessions.len() && (#[trigger] sessions[j]).session_id@
                == sessions[k].session_id@ ==> j == k,
        has_session(sessions, sessions[k].session_id@),
{
    assert forall|j: int| 0 <= j < sessions.len() && (#[trigger] sessions[j]).session_id@
        == sessions[k].session_id@ implies j == k by {
        if j < k {
            assert(sessions[j].session_id@ != sessions[k].session_id@);
        } else if k < j {
            assert(sessions[k].session_id@ != sessions[j].session_id@);
        }
    }
}

proof fn lemma_put_keeps_distinct(
    sessions: Seq<BatchSessionResult>,
    k: int,
    session: BatchSessionResult,
)
    requires
        distinct_sessions(sessions),
        0 <= k < sessions.len(),
        sessions[k].session_id@ == session.session_id@,
    ensures
        distinct_sessions(sessions.update(k, session)),
{
    let after = sessions.update(k, session);
    assert forall|i: int, j: int| 0 <= i < j < after.len() implies (
    #[trigger] after[i]).session_id@ != (#[trigger] after[j]).session_id@ by {
        assert(after[i].session_id@ == sessions[i].session_id@);
        assert(after[j].session_id@ == sessions[j].session_id@);
        assert(sessions[i].session_id@ != sessions[j].session_id@);
    }
}

proof fn lemma_push_keeps_distinct(sessions: Seq<BatchSessionResult>, session: BatchSessionResult)
    requires
        distinct_sessions(sessions),
        !has_session(sessions, session.session_id@),
    ensures
        distinct_sessions(sessions.push(session)),
{
    let after = sessions.push(session);
    assert forall|i: int, j: int| 0 <= i < j < after.len() implies (
    #[trigger] after[i]).session_id@ != (#[trigger] after[j]).session_id@ by {
        if j == sessions.len() {
            assert(sessions[i].session_id@ != session.session_id@);
        } else {
            assert(sessions[i].session_id@ != sessions[j].session_id@);
        }
    }
}

fn find_session(sessions: &Vec<BatchSessionResult>, id: &str) -> (r: Option<usize>)
    ensures
        match r {
            Some(k) => k < sessions.len() && sessions[k as int].session_id@ == id@,
            None => !has_session(sessions@, id@),
        },
{
    let mut k: usize = 0;
    while k < sessions.len()
        invariant
            k <= sessions.len(),
            forall|j: int| 0 <= j < k ==> (#[trigger] sessions[j]).session_id@ != id@,
        decreases sessions.len() - k,
    {
        if sessions[k].session_id.as_str().eq(id) {
            return Some(k);
        }
        k += 1;
    }
    None
}

fn store_session(sessions: &mut Vec<BatchSessionResult>, session: BatchSessionResult)
    requires
        distinct_sessions(old(sessions)@),
    ensures
        distinct_sessions(final(sessions)@),
        put_session(old(sessions)@, final(sessions)@, session),
{
    match find_session(sessions, session.session_id.as_str()) {
        Some(k) => {
            proof {
                lemma_put_keeps_distinct(sessions@, k as int, session);
            }
            sessions.set(k, session);
        },
        None => {
            proof {
                lemma_push_keeps_distinct(sessions@, session);
            }
            sessions.push(session);
        },
    }
}

fn mark_started(sessions: &mut Vec<BatchSessionResult>, id: &str, now: u64)
    requires
        distinct_sessions(old(sessions)@),
    ensures
        distinct_sessions(final(sessions)@),
        marked_started(old(sessions)@, final(sessions)@, id@, now),
{
    match find_session(sessions, id) {
        None => {},
        Some(k) => {
            let ghost before = sessions@;
            let mut session = sessions.remove(k);
            session.status = SessionStatus::Running;
            session.start_time = Some(now);
            proof {
                lemma_put_keeps_distinct(before, k as int, session);
                lemma_only_session(before, k as int);
            }
            sessions.insert(k, session);
            assert(sessions@ =~= before.update(k as int, session));
        },
    }
}

fn mark_ended(
    sessions: &mut Vec<BatchSessionResult>,
    id: &str,
    outcome: Result<(), String>,
    now: u64,
)
    requires
        distinct_sessions(old(sessions)@),
    ensures
        distinct_sessions(final(sessions)@),
        marked_ended(old(sessions)@, final(sessions)@, id@, outcome, now),
{
    match find_session(sessions, id) {
        None => {},
        Some(k) => {
            let ghost before = sessions@;
            let mut session = sessions.remove(k);
            session.end_time = Some(now);
            match outcome {
                Ok(_) => {
                    session.status = SessionStatus::Completed;
                },
                Err(reason) => {
                    session.status = SessionStatus::Failed;
                    session.error_message = Some(reason);
                },
            }
            proof {
                lemma_put_keeps_distinct(before, k as int, session);
                lemma_only_session(before, k as int);
            }
            sessions.insert(k, session);
            assert(sessions@ =~= before.update(k as int, session));
        },
    }
}

impl BatchError {
    /// The error in words.
    pub open spec fn text(&self) -> Seq<char> {
        match self {
            BatchError::InvalidConfig(message) => "Invalid batch configuration: "@ + message@,
            BatchError::BatchNotFound(id) => "Batch not found: "@ + id@,
            BatchError::SessionError(error) => "Session management error: "@ + error.0@,
            BatchError::DatabaseError(message) => "Database error: "@ + message@,
        }
    }

    /// The error in words.
    pub fn to_string(&self) -> (text: String)
        ensures
            text@ == self.text(),
    {
        match self {
            BatchError::InvalidConfig(message) => {
                let mut text = String::from_str("Invalid batch configuration: ");
                text.append(message.as_str());
                text
            },
            BatchError::BatchNotFound(id) => {
                let mut text = String::from_str("Batch not found: ");
                text.append(id.as_str());
                text
            },
            BatchError::SessionError(error) => {
                let mut text = String::from_str("Session management error: ");
                text.append(error.0.as_str());
                text
            },
            BatchError::DatabaseError(message) => {
                let mut text = String::from_str("Database error: ");
                text.append(message.as_str());
                text
            },
        }
    }
}

impl BatchHandle {
    pub fn batch_id(&self) -> (id: &str)
        ensures
            id@ == self.batch_id@,
    {
        self.batch_id.as_str()
    }

    pub fn total_sessions(&self) -> (total: usize)
        ensures
            total == self.total_sessions,
    {
        self.total_sessions
    }

    /// Hands the receiver to the caller. Only the first call returns it.
    pub fn take_progress_receiver(&mut self) -> (receiver: Option<ProgressReceiver>)
        ensures
            receiver == old(self).progress_rx,
            final(self).progress_rx is None,
            final(self).batch_id == old(self).batch_id,
            final(self).total_sessions == old(self).total_sessions,
    {
        self.progress_rx.take()
    }
}

impl BatchEngine {
    /// The batches of the registry, in the order in which they were
    /// registered.
    pub closed spec fn batches(&self) -> Seq<BatchExecution> {
        self.active_batches@
    }

    /// How many sessions any batch may run at once.
    pub closed spec fn limit(&self) -> usize {
        self.concurrency_limit
    }

    /// The invariant of the type: no batch id stands twice, and within a
    /// batch no session id.
    pub open spec fn wf(&self) -> bool {
        &&& distinct_batches(self.batches())
        &&& forall|i: int|
            0 <= i < self.batches().len() ==> distinct_sessions(
                (#[trigger] self.batches()[i]).sessions@,
            )
    }

    /// An engine with no batch.
    pub fn new() -> (engine: Self)
        ensures
            engine.wf(),
            engine.batches().len() == 0,
            engine.limit() == DEFAULT_CONCURRENCY_LIMIT,
    {
        BatchEngine { active_batches: Vec::new(), concurrency_limit: DEFAULT_CONCURRENCY_LIMIT }
    }

    fn find(&self, batch_id: &str) -> (r: Option<usize>)
        ensures
            match r {
                Some(i) => i < self.batches().len() && self.batches()[i as int].id@ == batch_id@,
                None => !has_batch(self.batches(), batch_id@),
            },
    {
        let mut i: usize = 0;
        while i < self.active_batches.len()
            invariant
                i <= self.active_batches.len(),
                forall|j: int| 0 <= j < i ==> (#[trigger] self.active_batches[j]).id@ != batch_id@,
            decreases self.active_batches.len() - i,
        {
            if self.active_batches[i].id.as_str().eq(batch_id) {
                return Some(i);
            }
            i += 1;
        }
        None
    }

    fn take_out(&mut self, i: usize) -> (batch: BatchExecution)
        requires
            i < old(self).batches().len(),
        ensures
            batch == old(self).batches()[i as int],
            final(self).batches() == old(self).batches().remove(i as int),
            final(self).limit() == old(self).limit(),
    {
        self.active_batches.remove(i)
    }

    fn put_back(&mut self, i: usize, batch: BatchExecution, Ghost(before): Ghost<
        Seq<BatchExecution>,
    >)
        requires
            i < before.len(),
            old(self).batches() == before.remove(i as int),
            distinct_batches(before),
            forall|j: int|
                0 <= j < before.len() ==> distinct_sessions((#[trigger] before[j]).sessions@),
            batch.id@ == before[i as int].id@,
            distinct_sessions(batch.sessions@),
        ensures
            final(self).batches() == before.update(i as int, batch),
            same_but(before, final(self).batches(), i as int),
            final(self).batches()[i as int] == batch,
            final(self).limit() == old(self).limit(),
            final(self).wf(),
    {
        self.active_batches.insert(i, batch);
        proof {
            let after = before.update(i as int, batch);
            assert(self.active_batches@ =~= after);
            assert forall|a: int, b: int| 0 <= a < b < after.len() implies (
            #[trigger] after[a]).id@ != (#[trigger] after[b]).id@ by {
                assert(after[a].id@ == before[a].id@);
                assert(after[b].id@ == before[b].id@);
                assert(before[a].id@ != before[b].id@);
            }
            assert forall|j: int| 0 <= j < after.len() implies distinct_sessions(
                (#[trigger] after[j]).sessions@,
            ) by {
                if j != i {
                    assert(after[j] == before[j]);
                    assert(distinct_sessions(before[j].sessions@));
                }
            }
        }
    }

    /// Registers a batch under the id `batch_id`, after checking its
    /// configuration. A batch without a prompt or without a repository is
    /// refused and nothing changes. Else the batch is registered as pending,
    /// in the place of the batch with that id where there is one and at the
    /// end where there is none, and the handle counts one session for each
    /// pair of a prompt and a repository.
    pub fn register_batch(&mut self, batch_id: String, config: BatchConfig) -> (r: Result<
        BatchHandle,
        BatchError,
    >)
        requires
            old(self).wf(),
            config.prompts.len() * config.repositories.len() <= usize::MAX,
        ensures
            final(self).wf(),
            final(self).limit() == old(self).limit(),
            config.prompts.len() == 0 ==> final(self).batches() == old(self).batches()
                && refuses(r, "No prompts provided"@),
            config.prompts.len() > 0 && config.repositories.len() == 0 ==> final(self).batches()
                == old(self).batches() && refuses(r, "No repositories provided"@),
            config.prompts.len() > 0 && config.repositories.len() > 0 ==> {
                &&& r is Ok
                &&& r->Ok_0.batch_id@ == batch_id@
                &&& r->Ok_0.total_sessions == config.prompts.len() * config.repositories.len()
                &&& r->Ok_0.progress_rx matches Some(receiver) && receiver.batch_id@ == batch_id@
                    && receiver.seen == 0
                &&& has_batch(final(self).batches(), batch_id@)
                &&& !has_batch(old(self).batches(), batch_id@) ==> appended(
                    old(self).batches(),
                    final(self).batches(),
                    batch_id@,
                    config,
                )
                &&& forall|i: int|
                    0 <= i < old(self).batches().len() && (#[trigger] old(self).batches()[i]).id@
                        == batch_id@ ==> same_but(
                        old(self).batches(),
                        final(self).batches(),
                        i,
                    ) && is_registered(final(self).batches()[i], batch_id@, config)
            },
    {
        if config.prompts.len() == 0 {
            return Err(BatchError::InvalidConfig(String::from_str("No prompts provided")));
        }
        if config.repositories.len() == 0 {
            return Err(BatchError::InvalidConfig(String::from_str("No repositories provided")));
        }
        let total = config.prompts.len() * config.repositories.len();
        let handle = BatchHandle {
            batch_id: batch_id.clone(),
            progress_rx: Some(ProgressReceiver { batch_id: batch_id.clone(), seen: 0 }),
            total_sessions: total,
        };
        let batch = BatchExecution {
            id: batch_id,
            config,
            status: BatchStatus::Pending,
            sessions: Vec::new(),
            start_time: None,
            progress: Vec::new(),
        };
        let ghost before = self.batches();
        match self.find(batch.id.as_str()) {
            Some(i) => {
                let _ = self.take_out(i);
                self.put_back(i, batch, Ghost(before));
                proof {
                    assert(self.batches()[i as int].id@ == batch_id@);
                }
            },
            None => {
                self.active_batches.push(batch);
                proof {
                    let after = self.batches();
                    assert(after.drop_last() == before);
                    assert(after[before.len() as int].id@ == batch_id@);
                    assert forall|a: int, b: int| 0 <= a < b < after.len() implies (
                    #[trigger] after[a]).id@ != (#[trigger] after[b]).id@ by {
                        if b == before.len() {
                            assert(before[a].id@ != batch_id@);
                        } else {
                            assert(before[a].id@ != before[b].id@);
                        }
                    }
                    assert forall|j: int| 0 <= j < after.len() implies distinct_sessions(
                        (#[trigger] after[j]).sessions@,
                    ) by {
                        if j < before.len() {
                            assert(after[j] == before[j]);
                            assert(distinct_sessions(before[j].sessions@));
                        }
                    }
                }
            },
        }
        Ok(handle)
    }

    /// Registers a batch under a fresh id of [`ID_LENGTH`] characters; see
    /// [`BatchEngine::register_batch`], which says what is registered and
    /// when a configuration is refused.
    pub fn start_batch(&mut self, config: BatchConfig) -> (r: Result<BatchHandle, BatchError>)
        requires
            old(self).wf(),
            config.prompts.len() * config.repositories.len() <= usize::MAX,
        ensures
            final(self).wf(),
            final(self).limit() == old(self).limit(),
            r is Ok <==> config.prompts.len() > 0 && config.repositories.len() > 0,
            r is Err ==> final(self).batches() == old(self).batches() && r->Err_0
                is InvalidConfig,
            r matches Ok(handle) ==> {
                &&& handle.batch_id@.len() == ID_LENGTH
                &&& handle.total_sessions == config.prompts.len() * config.repositories.len()
                &&& handle.progress_rx matches Some(receiver) && receiver.batch_id@
                    == handle.batch_id@ && receiver.seen == 0
                &&& has_batch(final(self).batches(), handle.batch_id@)
                &&& !has_batch(old(self).batches(), handle.batch_id@) ==> appended(
                    old(self).batches(),
                    final(self).batches(),
                    handle.batch_id@,
                    config,
                )
            },
    {
        let batch_id = fresh_id();
        let r = self.register_batch(batch_id, config);
        r
    }

    /// Begins a batch: its status becomes `Running`, unless it was cancelled
    /// before, which it then stays; its start time becomes `now`, and the
    /// driver gets its plan. Fails, and changes nothing, where no batch has
    /// the id.
    pub fn begin_batch(&mut self, batch_id: &str, now: u64) -> (r: Result<BatchPlan, BatchError>)
        requires
            old(self).wf(),
        ensures
            final(self).wf(),
            final(self).limit() == old(self).limit(),
            !has_batch(old(self).batches(), batch_id@) ==> final(self).batches() == old(
                self,
            ).batches() && misses(r, batch_id@),
            forall|i: int|
                0 <= i < old(self).batches().len() && (#[trigger] old(self).batches()[i]).id@
                    == batch_id@ ==> {
                    let before = old(self).batches()[i];
                    let after = final(self).batches()[i];
                    &&& r is Ok
                    &&& same_but(old(self).batches(), final(self).batches(), i)
                    &&& same_batch(before, after)
                    &&& after.status == begun_status(before.status)
                    &&& after.start_time == Some(now)
                    &&& after.sessions == before.sessions
                    &&& after.progress == before.progress
                    &&& is_plan_of(r->Ok_0, before.config, batch_id@, old(self).limit())
                },
    {
        match self.find(batch_id) {
            None => Err(BatchError::BatchNotFound(String::from_str(batch_id))),
            Some(i) => {
                let ghost before = self.batches();
                let mut batch = self.take_out(i);
                if batch.status != BatchStatus::Cancelled {
                    batch.status = BatchStatus::Running;
                }
                batch.start_time = Some(now);
                let mut session_name = String::from_str("Batch_");
                session_name.append(batch_id);
                session_name.append("_Session");
                let agent_mode = match &batch.config.agent_mode {
                    Some(mode) => Some(parse_agent_mode(mode.as_str())),
                    None => None,
                };
                let permits = if batch.config.concurrency <= self.concurrency_limit {
                    batch.config.concurrency
                } else {
                    self.concurrency_limit
                };
                let plan = BatchPlan {
                    session_name,
                    base_branch: String::from_str("main"),
                    agent_mode,
                    permits,
                    tasks: cartesian_tasks(&batch.config.prompts, &batch.config.repositories),
                };
                proof {
                    assert(distinct_sessions(before[i as int].sessions@));
                    assert(plan.session_name@ =~= "Batch_"@ + batch_id@ + "_Session"@);
                }
                self.put_back(i, batch, Ghost(before));
                proof {
                    lemma_only_place(before, i as int);
                }
                Ok(plan)
            },
        }
    }

    /// Records that the session `session_id` of a batch was created: it is
    /// pending. Changes nothing where no batch has the id.
    pub fn session_created(&mut self, batch_id: &str, session_id: String)
        requires
            old(self).wf(),
        ensures
            final(self).wf(),
            final(self).limit() == old(self).limit(),
            !has_batch(old(self).batches(), batch_id@) ==> final(self).batches() == old(
                self,
            ).batches(),
            forall|i: int|
                0 <= i < old(self).batches().len() && (#[trigger] old(self).batches()[i]).id@
                    == batch_id@ ==> {
                    let before = old(self).batches()[i];
                    let after = final(self).batches()[i];
                    &&& same_but(old(self).batches(), final(self).batches(), i)
                    &&& kept_but_sessions(before, after)
                    &&& put_pending(before.sessions@, after.sessions@, session_id@)
                },
    {
        match self.find(batch_id) {
            None => {},
            Some(i) => {
                let ghost before = self.batches();
                let mut batch = self.take_out(i);
                let session = BatchSessionResult {
                    session_id,
                    status: SessionStatus::Pending,
                    start_time: None,
                    end_time: None,
                    error_message: None,
                    metrics: None,
                };
                proof {
                    assert(distinct_sessions(before[i as int].sessions@));
                    assert(is_pending(session, session_id@));
                }
                store_session(&mut batch.sessions, session);
                self.put_back(i, batch, Ghost(before));
                proof {
                    lemma_only_place(before, i as int);
                }
            },
        }
    }

    /// Records that the session `session_id` of a batch could not be
    /// created: it has failed, for the reason `error`, and takes no permit.
    /// Changes nothing where no batch has the id.
    pub fn session_creation_failed(&mut self, batch_id: &str, session_id: String, error: &str)
        requires
            old(self).wf(),
        ensures
            final(self).wf(),
            final(self).limit() == old(self).limit(),
            !has_batch(old(self).batches(), batch_id@) ==> final(self).batches() == old(
                self,
            ).batches(),
            forall|i: int|
                0 <= i < old(self).batches().len() && (#[trigger] old(self).batches()[i]).id@
                    == batch_id@ ==> {
                    let before = old(self).batches()[i];
                    let after = final(self).batches()[i];
                    &&& same_but(old(self).batches(), final(self).batches(), i)
                    &&& kept_but_sessions(before, after)
                    &&& put_stillborn(before.sessions@, after.sessions@, session_id@, error@)
                },
    {
        match self.find(batch_id) {
            None => {},
            Some(i) => {
                let ghost before = self.batches();
                let mut batch = self.take_out(i);
                let mut message = String::from_str("Failed to create session: ");
                message.append(error);
                let session = BatchSessionResult {
                    session_id,
                    status: SessionStatus::Failed,
                    start_time: None,
                    end_time: None,
                    error_message: Some(message),
                    metrics: None,
                };
                proof {
                    assert(distinct_sessions(before[i as int].sessions@));
                    assert(is_stillborn(session, session_id@, error@));
                }
                store_session(&mut batch.sessions, session);
                self.put_back(i, batch, Ghost(before));
                proof {
                    lemma_only_place(before, i as int);
                }
            },
        }
    }

    /// Records that the session `session_id` of a batch runs since `now`.
    /// Changes nothing where no batch has the id, or the batch no such
    /// session.
    pub fn session_started(&mut self, batch_id: &str, session_id: &str, now: u64)
        requires
            old(self).wf(),
        ensures
            final(self).wf(),
            final(self).limit() == old(self).limit(),
            !has_batch(old(self).batches(), batch_id@) ==> final(self).batches() == old(
                self,
            ).batches(),
            forall|i: int|
                0 <= i < old(self).batches().len() && (#[trigger] old(self).batches()[i]).id@
                    == batch_id@ ==> {
                    let before = old(self).batches()[i];
                    let after = final(self).batches()[i];
                    &&& same_but(old(self).batches(), final(self).batches(), i)
                    &&& kept_but_sessions(before, after)
                    &&& marked_started(before.sessions@, after.sessions@, session_id@, now)
                },
    {
        match self.find(batch_id) {
            None => {},
            Some(i) => {
                let ghost before = self.batches();
                let mut batch = self.take_out(i);
                proof {
                    assert(distinct_sessions(before[i as int].sessions@));
                }
                mark_started(&mut batch.sessions, session_id, now);
                self.put_back(i, batch, Ghost(before));
                proof {
                    lemma_only_place(before, i as int);
                }
            },
        }
    }

    /// Records that the session `session_id` of a batch ended at `now`,
    /// completed or failed with a reason, and emits one snapshot, which it
    /// returns. The snapshot is emitted also where the batch has no such
    /// session. Changes nothing and returns nothing where no batch has the
    /// id.
    pub fn session_finished(
        &mut self,
        batch_id: &str,
        session_id: &str,
        outcome: Result<(), String>,
        now: u64,
    ) -> (snapshot: Option<BatchProgress>)
        requires
            old(self).wf(),
        ensures
            final(self).wf(),
            final(self).limit() == old(self).limit(),
            !has_batch(old(self).batches(), batch_id@) ==> final(self).batches() == old(
                self,
            ).batches() && snapshot is None,
            forall|i: int|
                0 <= i < old(self).batches().len() && (#[trigger] old(self).batches()[i]).id@
                    == batch_id@ ==> {
                    let before = old(self).batches()[i];
                    let after = final(self).batches()[i];
                    &&& same_but(old(self).batches(), final(self).batches(), i)
                    &&& same_batch(before, after)
                    &&& after.status == before.status
                    &&& after.start_time == before.start_time
                    &&& marked_ended(before.sessions@, after.sessions@, session_id@, outcome, now)
                    &&& emitted(before, after)
                    &&& snapshot == Some(after.progress@.last())
                },
    {
        match self.find(batch_id) {
            None => None,
            Some(i) => {
                let ghost before = self.batches();
                let mut batch = self.take_out(i);
                proof {
                    assert(distinct_sessions(before[i as int].sessions@));
                }
                mark_ended(&mut batch.sessions, session_id, outcome, now);
                let snapshot = calculate_progress(batch.id.as_str(), &batch);
                let copy = copy_progress(&snapshot);
                let ghost quiet = batch;
                batch.progress.push(snapshot);
                proof {
                    assert(batch.progress@.drop_last() == quiet.progress@);
                }
                self.put_back(i, batch, Ghost(before));
                proof {
                    lemma_only_place(before, i as int);
                }
                Some(copy)
            },
        }
    }

    /// Settles a batch once all its sessions have ended: a cancelled batch
    /// stays cancelled, any other is `Completed` where no session failed and
    /// `Failed` where one did. Emits one snapshot, which it returns. Changes
    /// nothing and returns nothing where no batch has the id.
    pub fn finish_batch(&mut self, batch_id: &str) -> (snapshot: Option<BatchProgress>)
        requires
            old(self).wf(),
        ensures
            final(self).wf(),
            final(self).limit() == old(self).limit(),
            !has_batch(old(self).batches(), batch_id@) ==> final(self).batches() == old(
                self,
            ).batches() && snapshot is None,
            forall|i: int|
                0 <= i < old(self).batches().len() && (#[trigger] old(self).batches()[i]).id@
                    == batch_id@ ==> {
                    let before = old(self).batches()[i];
                    let after = final(self).batches()[i];
                    &&& same_but(old(self).batches(), final(self).batches(), i)
                    &&& same_batch(before, after)
                    &&& after.status == final_status(before)
                    &&& after.start_time == before.start_time
                    &&& after.sessions == before.sessions
                    &&& emitted(before, after)
                    &&& snapshot == Some(after.progress@.last())
                },
    {
        match self.find(batch_id) {
            None => None,
            Some(i) => {
                let ghost before = self.batches();
                let mut batch = self.take_out(i);
                let tally = calculate_progress(batch.id.as_str(), &batch);
                if batch.status != BatchStatus::Cancelled {
                    batch.status = if tally.failed_sessions == 0 {
                        BatchStatus::Completed
                    } else {
                        BatchStatus::Failed
                    };
                }
                let snapshot = calculate_progress(batch.id.as_str(), &batch);
                let copy = copy_progress(&snapshot);
                let ghost quiet = batch;
                batch.progress.push(snapshot);
                proof {
                    assert(batch.progress@.drop_last() == quiet.progress@);
                    assert(distinct_sessions(before[i as int].sessions@));
                }
                self.put_back(i, batch, Ghost(before));
                proof {
                    lemma_only_place(before, i as int);
                }
                Some(copy)
            },
        }
    }

    /// Cancels a batch: its status becomes `Cancelled` and one snapshot with
    /// that status is emitted. Sessions that run are not stopped. Fails, and
    /// changes nothing, where no batch has the id.
    pub fn cancel_batch(&mut self, batch_id: &str) -> (r: Result<(), BatchError>)
        requires
            old(self).wf(),
        ensures
            final(self).wf(),
            final(self).limit() == old(self).limit(),
            !has_batch(old(self).batches(), batch_id@) ==> {
                &&& final(self).batches() == old(self).batches()
                &&& misses(r, batch_id@)
            },
            forall|i: int|
                0 <= i < old(self).batches().len() && (#[trigger] old(self).batches()[i]).id@
                    == batch_id@ ==> {
                    let before = old(self).batches()[i];
                    let after = final(self).batches()[i];
                    &&& r is Ok
                    &&& same_but(old(self).batches(), final(self).batches(), i)
                    &&& same_batch(before, after)
                    &&& after.status == BatchStatus::Cancelled
                    &&& after.sessions == before.sessions
                    &&& after.start_time == before.start_time
                    &&& emitted(before, after)
                },
    {
        match self.find(batch_id) {
            None => Err(BatchError::BatchNotFound(String::from_str(batch_id))),
            Some(i) => {
                let ghost before = self.batches();
                let mut batch = self.take_out(i);
                batch.status = BatchStatus::Cancelled;
                let snapshot = calculate_progress(batch.id.as_str(), &batch);
                let ghost quiet = batch;
                batch.progress.push(snapshot);
                proof {
                    assert(batch.progress@.drop_last() == quiet.progress@);
                    assert(distinct_sessions(before[i as int].sessions@));
                }
                self.put_back(i, batch, Ghost(before));
                proof {
                    lemma_only_place(before, i as int);
                }
                Ok(())
            },
        }
    }

    /// The snapshot of a batch as it stands. Fails where no batch has the
    /// id.
    pub fn get_batch_status(&self, batch_id: &str) -> (r: Result<BatchProgress, BatchError>)
        requires
            self.wf(),
        ensures
            !has_batch(self.batches(), batch_id@) ==> misses(r, batch_id@),
            forall|i: int|
                0 <= i < self.batches().len() && (#[trigger] self.batches()[i]).id@ == batch_id@
                    ==> r is Ok && is_progress_of(r->Ok_0, batch_id@, self.batches()[i]),
    {
        match self.find(batch_id) {
            None => Err(BatchError::BatchNotFound(String::from_str(batch_id))),
            Some(i) => {
                proof {
                    lemma_only_place(self.batches(), i as int);
                }
                Ok(calculate_progress(batch_id, &self.active_batches[i]))
            },
        }
    }

    /// The snapshots of all batches as they stand, in the order in which the
    /// batches were registered.
    pub fn list_active_batches(&self) -> (list: Vec<BatchProgress>)
        ensures
            list.len() == self.batches().len(),
            forall|i: int|
                0 <= i < list.len() ==> is_progress_of(
                    #[trigger] list[i],
                    self.batches()[i].id@,
                    self.batches()[i],
                ),
    {
        let mut list: Vec<BatchProgress> = Vec::new();
        let mut i: usize = 0;
        while i < self.active_batches.len()
            invariant
                i <= self.active_batches.len(),
                list.len() == i,
                forall|j: int|
                    0 <= j < i ==> is_progress_of(
                        #[trigger] list[j],
                        self.active_batches[j].id@,
                        self.active_batches[j],
                    ),
            decreases self.active_batches.len() - i,
        {
            let batch = &self.active_batches[i];
            list.push(calculate_progress(batch.id.as_str(), batch));
            i += 1;
        }
        list
    }

    /// The next snapshot of the receiver's batch that the receiver has not
    /// seen, if there is one; the receiver then has seen it. Snapshots come
    /// in the order in which they were emitted.
    pub fn poll_progress(&self, receiver: &mut ProgressReceiver) -> (next: Option<BatchProgress>)
        requires
            self.wf(),
        ensures
            final(receiver).batch_id == old(receiver).batch_id,
            !has_batch(self.batches(), old(receiver).batch_id@) ==> {
                &&& next is None
                &&& final(receiver).seen == old(receiver).seen
            },
            forall|i: int|
                0 <= i < self.batches().len() && (#[trigger] self.batches()[i]).id@ == old(
                    receiver,
                ).batch_id@ ==> {
                    let log = self.batches()[i].progress@;
                    if old(receiver).seen < log.len() {
                        next == Some(log[old(receiver).seen as int]) && final(receiver).seen
                            == old(receiver).seen + 1
                    } else {
                        next is None && final(receiver).seen == old(receiver).seen
                    }
                },
    {
        match self.find(receiver.batch_id.as_str()) {
            None => None,
            Some(i) => {
                proof {
                    lemma_only_place(self.batches(), i as int);
                }
                let log = &self.active_batches[i].progress;
                if receiver.seen < log.len() {
                    let next = copy_progress(&log[receiver.seen]);
                    receiver.seen = receiver.seen + 1;
                    Some(next)
                } else {
                    None
                }
            },
        }
    }
}

/// Where no id stands twice, a batch is the only one with its id.
pub proof fn lemma_only_place(batches: Seq<BatchExecution>, i: int)
    requires
        distinct_batches(batches),
        0 <= i < batches.len(),
    ensures
        forall|j: int|
            0 <= j < batches.len() && (#[trigger] batches[j]).id@ == batches[i].id@ ==> j == i,
        has_batch(batches, batches[i].id@),
{
    assert forall|j: int| 0 <= j < batches.len() && (#[trigger] batches[j]).id@
        == batches[i].id@ implies j == i by {
        if j < i {
            assert(batches[j].id@ != batches[i].id@);
        } else if i < j {
            assert(batches[i].id@ != batches[j].id@);
        }
    }
}

} // verus!
