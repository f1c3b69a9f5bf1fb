//! The environment of a session's process: where it runs, which agent runs
//! it, which server it talks to, and its toolboxes.

use crate::domain::AgentMode;
use crate::env_composer::{
    compose_runtime_env_internal, composed, EnvComposeResult, SpawnContext,
};
use crate::env_map::{lookup, EnvMap};
use crate::paths::{lemma_nonempty_push, nonempty};
use crate::text::{
    chars_of, contains, cut, join, joined, occurs_in, parse_u64, parsed_u64, split, split_ranges,
    string_of_range, texts, view_of,
};
use crate::toolbox_profiles::ToolboxProfile;
use crate::toolbox_resolver::{
    Platform, ResolvedToolbox, ToolboxError, ToolboxGuard, BYTES_PER_MB,
};
use vstd::prelude::*;
use vstd::string::StringExecFns;

verus! {

/// What composing an environment hands back: the owner of the runtime
/// directory, where one was made.
#[derive(Debug)]
pub struct ComposeResult {
    pub guard: Option<ToolboxGuard>,
}

/// Where the application runs.
#[derive(Debug, Clone, Copy, PartialEq, Eq, Structural)]
pub enum EnvKind {
    Production,
    LocalDevelopment,
    CI,
}

#[derive(Debug, Clone)]
pub struct AmpConfig {
    pub server_url: Option<String>,
    pub cli_path: Option<String>,
    pub agent_mode: Option<String>,
}

#[derive(Debug, Clone)]
pub struct ToolboxConfig {
    pub toolbox_paths: Vec<String>,
    pub max_file_count: usize,
    pub max_total_size: u64,
}

/// What a session's process is to find in its environment.
#[derive(Debug, Clone)]
pub struct RuntimeEnvironment {
    pub env_kind: EnvKind,
    pub amp_config: AmpConfig,
    pub agent_mode: Option<AgentMode>,
    pub toolbox_config: ToolboxConfig,
    pub worktree_path: Option<String>,
}

/// The number of files that a toolbox configuration admits by default.
pub const DEFAULT_MAX_FILE_COUNT: usize = 10000;

/// The number of bytes that a toolbox configuration admits by default: 500
/// megabytes.
pub const DEFAULT_MAX_TOTAL_SIZE: u64 = 524288000;

impl Default for ToolboxConfig {
    fn default() -> (config: Self)
        ensures
            config.toolbox_paths@.len() == 0,
            config.max_file_count == DEFAULT_MAX_FILE_COUNT,
            config.max_total_size == DEFAULT_MAX_TOTAL_SIZE,
    {
        ToolboxConfig {
            toolbox_paths: Vec::new(),
            max_file_count: DEFAULT_MAX_FILE_COUNT,
            max_total_size: DEFAULT_MAX_TOTAL_SIZE,
        }
    }
}

/// The result of the composer as a [`ComposeResult`].
pub open spec fn as_composed(r: Result<ComposeResult, ToolboxError>) -> Result<
    EnvComposeResult,
    ToolboxError,
> {
    match r {
        Ok(result) => Ok(EnvComposeResult { guard: result.guard }),
        Err(error) => Err(error),
    }
}

fn hand_on(r: Result<EnvComposeResult, ToolboxError>) -> (out: Result<ComposeResult, ToolboxError>)
    ensures
        as_composed(out) == r,
{
    match r {
        Ok(result) => Ok(ComposeResult { guard: result.guard }),
        Err(error) => Err(error),
    }
}

/// Composes `env` on `platform` as for a chat session, without a profile;
/// see [`composed`].
pub fn compose_runtime_env<F>(env: &mut EnvMap, platform: Platform, resolve: F) -> (r: Result<
    ComposeResult,
    ToolboxError,
>) where F: FnOnce(Vec<String>) -> Result<ResolvedToolbox, ToolboxError>
    requires
        old(env).wf(),
        forall|roots: Vec<String>| roots.len() > 0 ==> #[trigger] resolve.requires((roots,)),
    ensures
        final(env).wf(),
        composed(old(env)@, None, platform, resolve, final(env)@, as_composed(r)),
{
    hand_on(compose_runtime_env_internal(env, None, SpawnContext::Chat, platform, resolve))
}

/// Composes `env` on `platform` as for a chat session, with the variables
/// of `profile` where there is one; see [`composed`].
pub fn compose_runtime_env_with_profile<F>(
    env: &mut EnvMap,
    profile: Option<&ToolboxProfile>,
    platform: Platform,
    resolve: F,
) -> (r: Result<ComposeResult, ToolboxError>) where
    F: FnOnce(Vec<String>) -> Result<ResolvedToolbox, ToolboxError>,

    requires
        old(env).wf(),
        forall|roots: Vec<String>| roots.len() > 0 ==> #[trigger] resolve.requires((roots,)),
    ensures
        final(env).wf(),
        composed(old(env)@, profile, platform, resolve, final(env)@, as_composed(r)),
{
    hand_on(compose_runtime_env_internal(env, profile, SpawnContext::Chat, platform, resolve))
}

/// The text that names `mode` in the environment.
pub open spec fn agent_mode_text(mode: AgentMode) -> Seq<char> {
    match mode {
        AgentMode::Default => "default"@,
        AgentMode::Geppetto => "geppetto:main"@,
        AgentMode::Claudetto => "claudetto:main"@,
        AgentMode::GronkFast => "gronk:fast"@,
        AgentMode::Bolt => "bolt"@,
        AgentMode::Custom(name) => name@,
    }
}

/// `env` with `name` set to `value`, where there is a value.
pub open spec fn with_optional(
    env: Map<Seq<char>, Seq<char>>,
    name: Seq<char>,
    value: Option<Seq<char>>,
) -> Map<Seq<char>, Seq<char>> {
    match value {
        Some(value) => env.insert(name, value),
        None => env,
    }
}

/// `env` with the settings of `runtime` written into it, in this order: the
/// worktree as `PWD`, the agent mode, the server, the command-line tool,
/// and, where the configuration names toolboxes, their list joined with `:`
/// and the switch that turns toolboxes on.
pub open spec fn with_runtime(
    env: Map<Seq<char>, Seq<char>>,
    runtime: RuntimeEnvironment,
) -> Map<Seq<char>, Seq<char>> {
    let placed = with_optional(env, "PWD"@, view_of(runtime.worktree_path));
    let moded = with_optional(
        placed,
        "AMP_EXPERIMENTAL_AGENT_MODE"@,
        match runtime.agent_mode {
            Some(mode) => Some(agent_mode_text(mode)),
            None => None,
        },
    );
    let served = with_optional(moded, "AMP_URL"@, view_of(runtime.amp_config.server_url));
    let tooled = with_optional(served, "AMP_CLI_PATH"@, view_of(runtime.amp_config.cli_path));
    if runtime.toolbox_config.toolbox_paths@.len() > 0 {
        tooled.insert(
            "AMP_TOOLBOX_PATHS"@,
            joined(texts(runtime.toolbox_config.toolbox_paths@), ":"@),
        ).insert("AMP_ENABLE_TOOLBOXES"@, "1"@)
    } else {
        tooled
    }
}

fn set_optional(env: &mut EnvMap, name: &str, value: &Option<String>)
    requires
        old(env).wf(),
    ensures
        final(env).wf(),
        final(env)@ == with_optional(old(env)@, name@, view_of(*value)),
{
    match value {
        Some(value) => {
            env.insert(String::from_str(name), value.clone());
        },
        None => {},
    }
}

/// The text that names `mode` in the environment.
pub fn agent_mode_name(mode: &AgentMode) -> (name: String)
    ensures
        name@ == agent_mode_text(*mode),
{
    match mode {
        AgentMode::Default => String::from_str("default"),
        AgentMode::Geppetto => String::from_str("geppetto:main"),
        AgentMode::Claudetto => String::from_str("claudetto:main"),
        AgentMode::GronkFast => String::from_str("gronk:fast"),
        AgentMode::Bolt => String::from_str("bolt"),
        AgentMode::Custom(name) => name.clone(),
    }
}

/// The kind of place that the process environment `vars` shows: continuous
/// integration where `CI` is set; else local development where a local
/// command-line tool is named or the server is on `localhost`; else
/// production.
pub open spec fn kind_of(vars: Map<Seq<char>, Seq<char>>) -> EnvKind {
    if vars.contains_key("CI"@) {
        EnvKind::CI
    } else if vars.contains_key("AMP_CLI_PATH"@) || (vars.contains_key("AMP_URL"@) && occurs_in(
        vars["AMP_URL"@],
        "localhost"@,
    )) {
        EnvKind::LocalDevelopment
    } else {
        EnvKind::Production
    }
}

/// The directories of a list with `:` between them, empty ones left out.
pub open spec fn listed_paths(list: Option<Seq<char>>) -> Seq<Seq<char>> {
    match list {
        Some(list) => nonempty(split(list, ':', ':')),
        None => nonempty(split(Seq::empty(), ':', ':')),
    }
}

/// The number that the text `value` writes, where there is a text and it
/// writes a number.
pub open spec fn number_in(value: Option<Seq<char>>) -> Option<u64> {
    match value {
        Some(text) => parsed_u64(text),
        None => None,
    }
}

/// The limit on files that `vars` configures: the number of
/// `AMP_TOOLBOX_MAX_FILES` where it fits, else the default.
pub open spec fn file_count_in(vars: Map<Seq<char>, Seq<char>>) -> usize {
    match number_in(lookup(vars, "AMP_TOOLBOX_MAX_FILES"@)) {
        Some(n) => if n <= usize::MAX {
            n as usize
        } else {
            DEFAULT_MAX_FILE_COUNT
        },
        None => DEFAULT_MAX_FILE_COUNT,
    }
}

/// The limit on bytes that `vars` configures: the megabytes of
/// `AMP_TOOLBOX_MAX_MB` in bytes, else the default.
pub open spec fn total_size_in(vars: Map<Seq<char>, Seq<char>>) -> int {
    match number_in(lookup(vars, "AMP_TOOLBOX_MAX_MB"@)) {
        Some(mb) => mb * BYTES_PER_MB,
        None => DEFAULT_MAX_TOTAL_SIZE as int,
    }
}

/// Whether the limit on bytes that `vars` configures can be held: toolboxes
/// are not configured at all, or the limit fits in 64 bits.
pub open spec fn size_fits(vars: Map<Seq<char>, Seq<char>>) -> bool {
    vars.contains_key("AMP_ENABLE_TOOLBOXES"@) ==> total_size_in(vars) <= u64::MAX
}

/// Whether `runtime` is what the process environment `vars` configures.
/// Toolboxes are read only where `AMP_ENABLE_TOOLBOXES` is set, whatever its
/// value; the agent mode and the worktree are left open for the session.
pub open spec fn is_configured(runtime: RuntimeEnvironment, vars: Map<Seq<char>, Seq<char>>)
    -> bool {
    &&& runtime.env_kind == kind_of(vars)
    &&& view_of(runtime.amp_config.server_url) == lookup(vars, "AMP_URL"@)
    &&& view_of(runtime.amp_config.cli_path) == lookup(vars, "AMP_CLI_PATH"@)
    &&& view_of(runtime.amp_config.agent_mode) == lookup(vars, "AMP_EXPERIMENTAL_AGENT_MODE"@)
    &&& runtime.agent_mode is None
    &&& runtime.worktree_path is None
    &&& if vars.contains_key("AMP_ENABLE_TOOLBOXES"@) {
        &&& texts(runtime.toolbox_config.toolbox_paths@) == listed_paths(
            lookup(vars, "AMP_TOOLBOX_PATHS"@),
        )
        &&& runtime.toolbox_config.max_file_count == file_count_in(vars)
        &&& runtime.toolbox_config.max_total_size == total_size_in(vars)
    } else {
        &&& runtime.toolbox_config.toolbox_paths@.len() == 0
        &&& runtime.toolbox_config.max_file_count == DEFAULT_MAX_FILE_COUNT
        &&& runtime.toolbox_config.max_total_size == DEFAULT_MAX_TOTAL_SIZE
    }
}

fn number_of(vars: &EnvMap, name: &str) -> (n: Option<u64>)
    requires
        vars.wf(),
    ensures
        n == number_in(lookup(vars@, name@)),
{
    match vars.get(name) {
        Some(text) => parse_u64(text.as_str()),
        None => None,
    }
}

fn paths_in(list: &str) -> (paths: Vec<String>)
    ensures
        texts(paths@) == nonempty(split(list@, ':', ':')),
{
    let v = chars_of(list);
    let ranges = split_ranges(&v, ':', ':');
    let mut paths: Vec<String> = Vec::new();
    let mut i: usize = 0;
    proof {
        assert(cut(v@, ranges@.take(0)) =~= Seq::<Seq<char>>::empty());
        assert(texts(paths@) =~= Seq::<Seq<char>>::empty());
        reveal(Seq::filter);
    }
    while i < ranges.len()
        invariant
            i <= ranges.len(),
            forall|k: int|
                0 <= k < ranges.len() ==> (#[trigger] ranges[k]).0 <= ranges[k].1 <= v.len(),
            texts(paths@) == nonempty(cut(v@, ranges@.take(i as int))),
        decreases ranges.len() - i,
    {
        let r = ranges[i];
        proof {
            let before = cut(v@, ranges@.take(i as int));
            let raw = v@.subrange(r.0 as int, r.1 as int);
            assert(cut(v@, ranges@.take(i + 1)) =~= before.push(raw));
            lemma_nonempty_push(before, raw);
        }
        if r.0 < r.1 {
            let piece = string_of_range(&v, r.0, r.1);
            proof {
                assert(texts(paths@.push(piece)) =~= texts(paths@).push(piece@));
            }
            paths.push(piece);
        }
        i += 1;
    }
    assert(ranges@.take(ranges.len() as int) == ranges@);
    paths
}

/// Whether the limit on bytes that `vars` configures can be held; see
/// [`size_fits`].
pub fn environment_fits(vars: &EnvMap) -> (fits: bool)
    requires
        vars.wf(),
    ensures
        fits == size_fits(vars@),
{
    if !vars.contains_key("AMP_ENABLE_TOOLBOXES") {
        return true;
    }
    match number_of(vars, "AMP_TOOLBOX_MAX_MB") {
        Some(mb) => mb.checked_mul(BYTES_PER_MB).is_some(),
        None => true,
    }
}

impl RuntimeEnvironment {
    /// A runtime environment of the kind `env_kind` with nothing configured
    /// and the default toolbox limits.
    pub fn new(env_kind: EnvKind) -> (runtime: Self)
        ensures
            runtime.env_kind == env_kind,
            runtime.amp_config.server_url is None,
            runtime.amp_config.cli_path is None,
            runtime.amp_config.agent_mode is None,
            runtime.agent_mode is None,
            runtime.toolbox_config.toolbox_paths@.len() == 0,
            runtime.toolbox_config.max_file_count == DEFAULT_MAX_FILE_COUNT,
            runtime.toolbox_config.max_total_size == DEFAULT_MAX_TOTAL_SIZE,
            runtime.worktree_path is None,
    {
        RuntimeEnvironment {
            env_kind,
            amp_config: AmpConfig { server_url: None, cli_path: None, agent_mode: None },
            agent_mode: None,
            toolbox_config: ToolboxConfig::default(),
            worktree_path: None,
        }
    }

    /// The runtime that the process environment `vars` configures; see
    /// [`is_configured`].
    pub fn from_environment(vars: &EnvMap) -> (runtime: Self)
        requires
            vars.wf(),
            size_fits(vars@),
        ensures
            is_configured(runtime, vars@),
    {
        let env_kind = if vars.contains_key("CI") {
            EnvKind::CI
        } else if vars.contains_key("AMP_CLI_PATH") {
            EnvKind::LocalDevelopment
        } else {
            let local = match vars.get("AMP_URL") {
                Some(url) => contains(url.as_str(), "localhost"),
                None => false,
            };
            if local {
                EnvKind::LocalDevelopment
            } else {
                EnvKind::Production
            }
        };
        let amp_config = AmpConfig {
            server_url: vars.value_of("AMP_URL"),
            cli_path: vars.value_of("AMP_CLI_PATH"),
            agent_mode: vars.value_of("AMP_EXPERIMENTAL_AGENT_MODE"),
        };
        let toolbox_config = if vars.contains_key("AMP_ENABLE_TOOLBOXES") {
            let toolbox_paths = match vars.get("AMP_TOOLBOX_PATHS") {
                Some(list) => paths_in(list.as_str()),
                None => paths_in(""),
            };
            proof {
                reveal_strlit("");
                assert(""@ =~= Seq::<char>::empty());
            }
            let max_file_count = match number_of(vars, "AMP_TOOLBOX_MAX_FILES") {
                Some(n) => if n <= usize::MAX as u64 {
                    n as usize
                } else {
                    DEFAULT_MAX_FILE_COUNT
                },
                None => DEFAULT_MAX_FILE_COUNT,
            };
            let max_total_size = match number_of(vars, "AMP_TOOLBOX_MAX_MB") {
                Some(mb) => mb * BYTES_PER_MB,
                None => DEFAULT_MAX_TOTAL_SIZE,
            };
            ToolboxConfig { toolbox_paths, max_file_count, max_total_size }
        } else {
            ToolboxConfig::default()
        };
        RuntimeEnvironment {
            env_kind,
            amp_config,
            agent_mode: None,
            toolbox_config,
            worktree_path: None,
        }
    }

    /// Writes the settings of this runtime into `env`, see [`with_runtime`],
    /// and then composes it on `platform` as for a chat session without a
    /// profile, see [`composed`]. The session id plays no part.
    pub fn compose_environment<F>(
        &self,
        env: &mut EnvMap,
        _session_id: Option<&str>,
        platform: Platform,
        resolve: F,
    ) -> (r: Result<ComposeResult, ToolboxError>) where
        F: FnOnce(Vec<String>) -> Result<ResolvedToolbox, ToolboxError>,

        requires
            old(env).wf(),
            forall|roots: Vec<String>| roots.len() > 0 ==> #[trigger] resolve.requires((roots,)),
        ensures
            final(env).wf(),
            composed(
                with_runtime(old(env)@, *self),
                None,
                platform,
                resolve,
                final(env)@,
                as_composed(r),
            ),
    {
        set_optional(env, "PWD", &self.worktree_path);
        match &self.agent_mode {
            Some(mode) => {
                env.insert(String::from_str("AMP_EXPERIMENTAL_AGENT_MODE"), agent_mode_name(mode));
            },
            None => {},
        }
        set_optional(env, "AMP_URL", &self.amp_config.server_url);
        set_optional(env, "AMP_CLI_PATH", &self.amp_config.cli_path);
        if self.toolbox_config.toolbox_paths.len() > 0 {
            let list = join(&self.toolbox_config.toolbox_paths, ":");
            env.insert(String::from_str("AMP_TOOLBOX_PATHS"), list);
            env.insert(String::from_str("AMP_ENABLE_TOOLBOXES"), String::from_str("1"));
        }
        hand_on(compose_runtime_env_internal(env, None, SpawnContext::Chat, platform, resolve))
    }
}

} // verus!
