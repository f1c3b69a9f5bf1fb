//! The vocabulary of sessions, batches and benchmarks.

use vstd::prelude::*;

verus! {

pub type SessionId = String;

pub type BatchId = String;

pub type BenchmarkId = String;

#[derive(Debug, Clone)]
pub enum SessionStatus {
    Initializing,
    Idle,
    Running,
    AwaitingInput,
    Evaluating,
    Error(String),
    Completed,
}

/// The kind of agent that runs a session.
#[derive(Debug, Clone)]
pub enum AgentMode {
    Default,
    Geppetto,
    Claudetto,
    GronkFast,
    Bolt,
    Custom(String),
}

#[derive(Debug, Clone)]
pub struct McpServerConfig {
    pub name: String,
    pub endpoint: String,
    pub auth_config: Option<AuthConfig>,
    pub capabilities: Vec<McpCapability>,
}

#[derive(Debug, Clone)]
pub struct AuthConfig {
    pub auth_type: String,
    /// Names with their secrets.
    pub credentials: Vec<(String, String)>,
}

#[derive(Debug, Clone, Copy, PartialEq, Eq, Structural)]
pub enum McpCapability {
    Tools,
    Resources,
    Prompts,
    Logging,
}

#[derive(Debug, Clone)]
pub struct ToolboxConfig {
    pub toolbox_paths: Vec<String>,
    pub security_constraints: SecurityConstraints,
}

#[derive(Debug, Clone)]
pub struct SecurityConstraints {
    pub max_file_size: u64,
    pub max_total_size: u64,
    pub max_file_count: usize,
    pub allowed_extensions: Vec<String>,
    pub forbidden_paths: Vec<String>,
}

#[derive(Debug, Clone)]
pub enum MetricType {
    SuccessRate,
    ExecutionTime,
    TokenUsage,
    CostAnalysis,
    ToolUsageStats,
    Custom(String),
}

#[derive(Debug, Clone, Copy, PartialEq, Eq, Structural)]
pub enum BatchStatus {
    Pending,
    Running,
    Completed,
    Failed,
    Cancelled,
}

#[derive(Debug, Clone, Copy, PartialEq, Eq, Structural)]
pub struct RetryPolicy {
    pub max_attempts: u32,
    pub backoff_ms: u64,
    pub retry_on_failure: bool,
}

#[derive(Debug, Clone)]
pub struct EnvironmentConfig {
    pub amp_server_url: Option<String>,
    pub amp_cli_path: Option<String>,
    pub agent_modes: Vec<AgentMode>,
    pub toolbox_paths: Vec<String>,
}

#[derive(Debug, Clone, Copy, PartialEq, Eq, Structural)]
pub enum TaskType {
    Evaluation,
    Batch,
    Benchmark,
}

#[derive(Debug, Clone, Copy, PartialEq, Eq, Structural)]
pub enum BenchmarkType {
    SweBench,
    Custom,
    Performance,
}

#[derive(Debug)]
pub struct CaseResult {
    pub case_id: String,
    pub success: bool,
    pub iterations: u32,
    pub tokens_used: u64,
    pub execution_time: std::time::Duration,
    pub error_message: Option<String>,
}

} // verus!
