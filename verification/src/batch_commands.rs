//! The requests and responses of the batch commands, and how they map to
//! the engine's own types.

use crate::batch_engine::{BatchConfig, BatchProgress, BatchStatus, RetryPolicy};
use vstd::prelude::*;
use vstd::std_specs::convert::FromSpecImpl;
use vstd::string::StringExecFns;

verus! {

/// How many sessions a batch runs at once where the request does not say.
pub const DEFAULT_CONCURRENCY: usize = 4;

/// How many seconds a batch may take where the request does not say: half
/// an hour.
pub const DEFAULT_TIMEOUT_SEC: u64 = 1800;

#[derive(Debug)]
pub struct StartBatchRequest {
    pub name: String,
    pub prompts: Vec<String>,
    pub repositories: Vec<String>,
    pub concurrency: Option<usize>,
    pub timeout_sec: Option<u64>,
    pub retry_policy: Option<RetryPolicyRequest>,
    pub agent_mode: Option<String>,
    pub toolbox_path: Option<String>,
}

#[derive(Debug, Clone, Copy, PartialEq, Eq, Structural)]
pub struct RetryPolicyRequest {
    pub max_attempts: u32,
    pub backoff_ms: u64,
}

#[derive(Debug)]
pub struct StartBatchResponse {
    pub batch_id: String,
    pub total_sessions: usize,
    pub status: String,
}

#[derive(Debug)]
pub struct BatchProgressResponse {
    pub batch_id: String,
    pub total_sessions: usize,
    pub completed_sessions: usize,
    pub failed_sessions: usize,
    pub running_sessions: usize,
    pub progress_percent: u32,
    pub status: String,
}

#[derive(Debug)]
pub struct CancelBatchRequest {
    pub batch_id: String,
}

#[derive(Debug)]
pub struct GetBatchStatusRequest {
    pub batch_id: String,
}

#[derive(Debug)]
pub struct BatchResultsResponse {
    pub batch_id: String,
    pub total_sessions: usize,
    pub successful_sessions: usize,
    pub failed_sessions: usize,
    pub status: String,
    pub session_results: Vec<SessionResultResponse>,
}

#[derive(Debug)]
pub struct SessionResultResponse {
    pub session_id: String,
    pub status: String,
    pub execution_time_ms: Option<u64>,
    pub error_message: Option<String>,
    pub metrics: Option<SessionMetricsResponse>,
}

#[derive(Debug, Clone, Copy, PartialEq, Eq, Structural)]
pub struct SessionMetricsResponse {
    pub iterations: u32,
    pub tokens_used: u32,
    pub tools_invoked: u32,
    pub execution_time_ms: u64,
}

/// The name of a batch status.
pub open spec fn status_text(status: BatchStatus) -> Seq<char> {
    match status {
        BatchStatus::Pending => "Pending"@,
        BatchStatus::Running => "Running"@,
        BatchStatus::Completed => "Completed"@,
        BatchStatus::Failed => "Failed"@,
        BatchStatus::Cancelled => "Cancelled"@,
    }
}

/// The name of a batch status.
pub fn status_name(status: BatchStatus) -> (name: String)
    ensures
        name@ == status_text(status),
{
    match status {
        BatchStatus::Pending => String::from_str("Pending"),
        BatchStatus::Running => String::from_str("Running"),
        BatchStatus::Completed => String::from_str("Completed"),
        BatchStatus::Failed => String::from_str("Failed"),
        BatchStatus::Cancelled => String::from_str("Cancelled"),
    }
}

impl From<StartBatchRequest> for BatchConfig {
    fn from(request: StartBatchRequest) -> (config: BatchConfig) {
        BatchConfig {
            name: request.name,
            prompts: request.prompts,
            repositories: request.repositories,
            concurrency: match request.concurrency {
                Some(n) => n,
                None => DEFAULT_CONCURRENCY,
            },
            timeout_sec: match request.timeout_sec {
                Some(n) => n,
                None => DEFAULT_TIMEOUT_SEC,
            },
            retry_policy: match request.retry_policy {
                Some(policy) => Some(
                    RetryPolicy { max_attempts: policy.max_attempts, backoff_ms: policy.backoff_ms },
                ),
                None => None,
            },
            agent_mode: request.agent_mode,
            toolbox_path: request.toolbox_path,
        }
    }
}

impl FromSpecImpl<StartBatchRequest> for BatchConfig {
    open spec fn obeys_from_spec() -> bool {
        true
    }

    /// The configuration that a request asks for: what it names, with four
    /// sessions at once and half an hour where it names neither.
    open spec fn from_spec(request: StartBatchRequest) -> BatchConfig {
        BatchConfig {
            name: request.name,
            prompts: request.prompts,
            repositories: request.repositories,
            concurrency: match request.concurrency {
                Some(n) => n,
                None => DEFAULT_CONCURRENCY,
            },
            timeout_sec: match request.timeout_sec {
                Some(n) => n,
                None => DEFAULT_TIMEOUT_SEC,
            },
            retry_policy: match request.retry_policy {
                Some(policy) => Some(
                    RetryPolicy { max_attempts: policy.max_attempts, backoff_ms: policy.backoff_ms },
                ),
                None => None,
            },
            agent_mode: request.agent_mode,
            toolbox_path: request.toolbox_path,
        }
    }
}

impl From<BatchProgress> for BatchProgressResponse {
    fn from(progress: BatchProgress) -> (response: BatchProgressResponse) {
        progress_response(progress)
    }
}

impl FromSpecImpl<BatchProgress> for BatchProgressResponse {
    /// The conversion builds a text, which no specification function can
    /// name: what it returns is stated at [`progress_response`].
    open spec fn obeys_from_spec() -> bool {
        false
    }

    open spec fn from_spec(progress: BatchProgress) -> BatchProgressResponse {
        arbitrary()
    }
}

/// Whether `response` shows the snapshot `progress`: the same counts, and
/// the status by its name.
pub open spec fn shows(response: BatchProgressResponse, progress: BatchProgress) -> bool {
    &&& response.batch_id == progress.batch_id
    &&& response.total_sessions == progress.total_sessions
    &&& response.completed_sessions == progress.completed_sessions
    &&& response.failed_sessions == progress.failed_sessions
    &&& response.running_sessions == progress.running_sessions
    &&& response.progress_percent == progress.progress_percent
    &&& response.status@ == status_text(progress.status)
}

/// The response that shows a snapshot.
pub fn progress_response(progress: BatchProgress) -> (response: BatchProgressResponse)
    ensures
        shows(response, progress),
{
    let status = status_name(progress.status);
    BatchProgressResponse {
        batch_id: progress.batch_id,
        total_sessions: progress.total_sessions,
        completed_sessions: progress.completed_sessions,
        failed_sessions: progress.failed_sessions,
        running_sessions: progress.running_sessions,
        progress_percent: progress.progress_percent,
        status,
    }
}

/// The results of a batch as far as a snapshot knows them: the counts, the
/// completed sessions as the successful ones, and no detail of any session.
pub fn batch_results(progress: BatchProgress) -> (response: BatchResultsResponse)
    ensures
        response.batch_id == progress.batch_id,
        response.total_sessions == progress.total_sessions,
        response.successful_sessions == progress.completed_sessions,
        response.failed_sessions == progress.failed_sessions,
        response.status@ == status_text(progress.status),
        response.session_results@.len() == 0,
{
    let status = status_name(progress.status);
    BatchResultsResponse {
        batch_id: progress.batch_id,
        total_sessions: progress.total_sessions,
        successful_sessions: progress.completed_sessions,
        failed_sessions: progress.failed_sessions,
        status,
        session_results: Vec::new(),
    }
}

/// The response to a batch that was started.
pub fn start_response(batch_id: String, total_sessions: usize) -> (response: StartBatchResponse)
    ensures
        response.batch_id == batch_id,
        response.total_sessions == total_sessions,
        response.status@ == "Started"@,
{
    StartBatchResponse { batch_id, total_sessions, status: String::from_str("Started") }
}

} // verus!
