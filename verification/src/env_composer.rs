//! Composing the environment of a spawned process: the toolbox variables of
//! a profile, the switch that turns toolboxes off, and the merged `bin/` in
//! front of `PATH`.
//!
//! Resolving the toolboxes touches the file system, so the composer takes
//! the resolver as a function: it decides whether to call it and with which
//! roots, and puts what came back into the environment.

use crate::env_map::EnvMap;
use crate::paths::{lemma_nonempty_push, nonempty};
use crate::text::{
    chars_of, cut, join, joined, lemma_space_bounds, lemma_split_pieces, lemma_trimmed_edges,
    lowercase_of, split, split_ranges, texts, trim_range, trimmed, white_space,
};
use crate::toolbox_profiles::ToolboxProfile;
use crate::toolbox_resolver::{Platform, ResolvedToolbox, ToolboxError, ToolboxGuard};
use vstd::prelude::*;
use vstd::string::StringExecFns;

verus! {

/// What composing an environment hands back: the owner of the runtime
/// directory, where one was made.
#[derive(Debug)]
pub struct EnvComposeResult {
    pub guard: Option<ToolboxGuard>,
}

/// For which kind of process an environment is composed. The kinds differ in
/// name only: all are composed alike.
#[derive(Debug, Clone, Copy, PartialEq, Eq, Structural)]
pub enum SpawnContext {
    Chat,
    Tui,
    ExternalTool,
}

/// Every piece of `pieces`, trimmed.
pub open spec fn trimmed_all(pieces: Seq<Seq<char>>) -> Seq<Seq<char>> {
    pieces.map_values(|piece: Seq<char>| trimmed(piece))
}

/// The two characters that part the directories of a list: `;` on Windows;
/// elsewhere `:` and, for convenience, `,`.
pub open spec fn path_separators(platform: Platform) -> (char, char) {
    if platform == Platform::Windows {
        (';', ';')
    } else {
        (':', ',')
    }
}

/// What stands between the directories of a list that is written out: `;`
/// on Windows, `:` elsewhere.
pub open spec fn list_separator(platform: Platform) -> Seq<char> {
    if platform == Platform::Windows {
        ";"@
    } else {
        ":"@
    }
}

/// The directories that the list `s` names on `platform`: its pieces between
/// the separators, trimmed, the empty ones left out.
pub open spec fn split_paths_of(s: Seq<char>, platform: Platform) -> Seq<Seq<char>> {
    nonempty(trimmed_all(split(s, path_separators(platform).0, path_separators(platform).1)))
}

/// The environment with the variables of `profile` written into it: its
/// paths, joined with the separator of the platform, and its name.
pub open spec fn with_profile(
    env: Map<Seq<char>, Seq<char>>,
    profile: Option<&ToolboxProfile>,
    platform: Platform,
) -> Map<Seq<char>, Seq<char>> {
    match profile {
        Some(profile) => env.insert(
            "AMP_TOOLBOX_PATHS"@,
            joined(texts(profile.paths@), list_separator(platform)),
        ).insert("AMP_ACTIVE_TOOLBOX_PROFILE"@, profile.name@),
        None => env,
    }
}

/// Whether a switch leaves toolboxes on, given its value and the value in
/// lower case: the value is not `0`, and in lower case it is not `false`.
pub open spec fn flag_allows(value: Seq<char>, lowered: Seq<char>) -> bool {
    value != "0"@ && lowered != "false"@
}

/// Whether `value` leaves toolboxes on: it is neither `0` nor, in lower
/// case, `false`.
pub open spec fn flag_enables(value: Seq<char>) -> bool {
    flag_allows(value, lowercase_of(value))
}

/// Whether toolboxes are on in `env`: the switch is unset, or set to a value
/// that leaves them on.
pub open spec fn toolboxes_enabled(env: Map<Seq<char>, Seq<char>>) -> bool {
    env.contains_key("AMP_ENABLE_TOOLBOXES"@) ==> flag_enables(env["AMP_ENABLE_TOOLBOXES"@])
}

/// The toolbox roots that `env` asks for: none where toolboxes are off or no
/// list is set, else the directories of the list.
pub open spec fn requested_roots(env: Map<Seq<char>, Seq<char>>, platform: Platform) -> Seq<
    Seq<char>,
> {
    if toolboxes_enabled(env) && env.contains_key("AMP_TOOLBOX_PATHS"@) {
        split_paths_of(env["AMP_TOOLBOX_PATHS"@], platform)
    } else {
        Seq::empty()
    }
}

/// The environment with a resolved toolbox put in: `bin` in front of
/// `PATH`, with the separator of the platform before what `PATH` held where
/// that was not empty, and the runtime directory in `AMP_TOOLBOX`.
pub open spec fn with_toolbox(
    env: Map<Seq<char>, Seq<char>>,
    bin: Seq<char>,
    root: Seq<char>,
    platform: Platform,
) -> Map<Seq<char>, Seq<char>> {
    let previous = if env.contains_key("PATH"@) {
        env["PATH"@]
    } else {
        Seq::empty()
    };
    let path = if previous.len() == 0 {
        bin
    } else {
        bin + list_separator(platform) + previous
    };
    env.insert("PATH"@, path).insert("AMP_TOOLBOX"@, root)
}

/// Whether `after` and `r` are what composing leaves of the prepared
/// environment once the resolver has returned `out`: its error and nothing
/// changed, or its toolbox put in and its guard handed on.
pub open spec fn settled(
    prepared: Map<Seq<char>, Seq<char>>,
    out: Result<ResolvedToolbox, ToolboxError>,
    after: Map<Seq<char>, Seq<char>>,
    r: Result<EnvComposeResult, ToolboxError>,
    platform: Platform,
) -> bool {
    match out {
        Err(error) => after == prepared && r is Err && r->Err_0 == error,
        Ok(toolbox) => after == with_toolbox(prepared, toolbox.bin@, toolbox.root@, platform)
            && r is Ok && r->Ok_0.guard == toolbox.guard,
    }
}

/// Whether `after` and `r` are what composing `before` with `profile` and
/// the resolver `resolve` gives on `platform`. The profile's variables are written first.
/// Where the environment then asks for no root, nothing else changes, the
/// resolver is not called and there is no guard. Else the resolver is called
/// once, with the roots asked for, and what it returns settles the rest.
pub open spec fn composed<F: FnOnce(Vec<String>) -> Result<ResolvedToolbox, ToolboxError>>(
    before: Map<Seq<char>, Seq<char>>,
    profile: Option<&ToolboxProfile>,
    platform: Platform,
    resolve: F,
    after: Map<Seq<char>, Seq<char>>,
    r: Result<EnvComposeResult, ToolboxError>,
) -> bool {
    let prepared = with_profile(before, profile, platform);
    let wanted = requested_roots(prepared, platform);
    if wanted.len() == 0 {
        after == prepared && r is Ok && r->Ok_0.guard is None
    } else {
        exists|roots: Vec<String>, out: Result<ResolvedToolbox, ToolboxError>|
            texts(roots@) == wanted && #[trigger] resolve.ensures((roots,), out) && settled(
                prepared,
                out,
                after,
                r,
                platform,
            )
    }
}

/// Whether `path` is clean: not empty, without the separators `a` and `b`,
/// and without white space at its start and at its end.
pub open spec fn is_clean(path: Seq<char>, a: char, b: char) -> bool {
    &&& path.len() > 0
    &&& forall|i: int| 0 <= i < path.len() ==> #[trigger] path[i] != a && path[i] != b
    &&& !white_space(path.first())
    &&& !white_space(path.last())
}

proof fn lemma_kept_are_clean(pieces: Seq<Seq<char>>, a: char, b: char)
    requires
        forall|k: int, i: int|
            0 <= k < pieces.len() && 0 <= i < pieces[k].len() ==> #[trigger] pieces[k][i] != a
                && pieces[k][i] != b,
    ensures
        forall|k: int|
            0 <= k < nonempty(trimmed_all(pieces)).len() ==> is_clean(
                #[trigger] nonempty(trimmed_all(pieces))[k],
                a,
                b,
            ),
    decreases pieces.len(),
{
    reveal(Seq::filter);
    if pieces.len() > 0 {
        let head = pieces.drop_last();
        let last = pieces.last();
        assert forall|k: int, i: int|
            0 <= k < head.len() && 0 <= i < head[k].len() implies #[trigger] head[k][i] != a
            && head[k][i] != b by {
            assert(head[k] == pieces[k]);
            assert(pieces[k][i] != a);
        }
        lemma_kept_are_clean(head, a, b);
        lemma_trimmed_all_push(head, last);
        assert(pieces == head.push(last));
        lemma_nonempty_push(trimmed_all(head), trimmed(last));
        lemma_trimmed_edges(last);
        lemma_space_bounds(last);
        let part = trimmed(last);
        if part.len() > 0 {
            let (from, to) = choose|from: int, to: int|
                0 <= from <= to <= last.len() && trimmed(last) == last.subrange(from, to);
            assert forall|i: int| 0 <= i < part.len() implies #[trigger] part[i] != a && part[i]
                != b by {
                assert(part[i] == last[from + i]);
                assert(pieces[pieces.len() - 1][from + i] != a);
            }
            assert(is_clean(part, a, b));
        }
    } else {
        assert(trimmed_all(pieces) =~= Seq::<Seq<char>>::empty());
    }
}

/// Every directory that a list of paths names is clean: none is empty, none
/// holds a separator of the platform, and none starts or ends with white
/// space.
pub proof fn lemma_split_paths_clean(s: Seq<char>, platform: Platform)
    ensures
        forall|k: int|
            0 <= k < split_paths_of(s, platform).len() ==> is_clean(
                #[trigger] split_paths_of(s, platform)[k],
                path_separators(platform).0,
                path_separators(platform).1,
            ),
{
    let (a, b) = path_separators(platform);
    lemma_split_pieces(s, a, b);
    lemma_kept_are_clean(split(s, a, b), a, b);
}

/// Trimming one more piece adds what it leaves.
proof fn lemma_trimmed_all_push(pieces: Seq<Seq<char>>, piece: Seq<char>)
    ensures
        trimmed_all(pieces.push(piece)) == trimmed_all(pieces).push(trimmed(piece)),
{
    assert(trimmed_all(pieces.push(piece)) =~= trimmed_all(pieces).push(trimmed(piece)));
}

fn separators_of(platform: Platform) -> (separators: (char, char))
    ensures
        separators == path_separators(platform),
{
    match platform {
        Platform::Windows => (';', ';'),
        _ => (':', ','),
    }
}

fn separator_of(platform: Platform) -> (separator: &'static str)
    ensures
        separator@ == list_separator(platform),
{
    match platform {
        Platform::Windows => ";",
        _ => ":",
    }
}

/// The directories that a list of paths names on `platform`: the list is
/// cut at every `;` on Windows and at every `:` and `,` elsewhere, each
/// piece is trimmed, and empty pieces are dropped.
pub fn split_paths(s: &str, platform: Platform) -> (paths: Vec<String>)
    ensures
        texts(paths@) == split_paths_of(s@, platform),
{
    let v = chars_of(s);
    let separators = separators_of(platform);
    let ranges = split_ranges(&v, separators.0, separators.1);
    let mut paths: Vec<String> = Vec::new();
    let mut i: usize = 0;
    proof {
        assert(cut(v@, ranges@.take(0)) =~= Seq::<Seq<char>>::empty());
        assert(trimmed_all(Seq::<Seq<char>>::empty()) =~= Seq::<Seq<char>>::empty());
        assert(texts(paths@) =~= Seq::<Seq<char>>::empty());
        reveal(Seq::filter);
    }
    while i < ranges.len()
        invariant
            i <= ranges.len(),
            forall|k: int|
                0 <= k < ranges.len() ==> (#[trigger] ranges[k]).0 <= ranges[k].1 <= v.len(),
            texts(paths@) == nonempty(trimmed_all(cut(v@, ranges@.take(i as int)))),
        decreases ranges.len() - i,
    {
        let r = ranges[i];
        let piece = trim_range(&v, r.0, r.1);
        proof {
            let before = cut(v@, ranges@.take(i as int));
            let raw = v@.subrange(r.0 as int, r.1 as int);
            assert(cut(v@, ranges@.take(i + 1)) =~= before.push(raw));
            lemma_trimmed_all_push(before, raw);
            lemma_nonempty_push(trimmed_all(before), trimmed(raw));
            if piece@.len() > 0 {
                assert(texts(paths@.push(piece)) =~= texts(paths@).push(piece@));
            }
        }
        if !piece.as_str().is_empty() {
            paths.push(piece);
        }
        i += 1;
    }
    assert(ranges@.take(ranges.len() as int) == ranges@);
    paths
}

/// Whether a switch leaves toolboxes on, given its value and the value in
/// lower case.
pub fn flag_allows_toolboxes(value: &str, lowered: &str) -> (on: bool)
    ensures
        on == flag_allows(value@, lowered@),
{
    !value.eq("0") && !lowered.eq("false")
}

fn flag_leaves_on(value: &str) -> (on: bool)
    ensures
        on == flag_enables(value@),
{
    let lowered = value.to_lowercase();
    flag_allows_toolboxes(value, lowered.as_str())
}

/// Puts a resolved toolbox into the environment and takes over its guard:
/// the toolbox's `bin` goes in front of `PATH`, with the separator of the
/// platform before what `PATH` held where that was not empty, and the
/// runtime directory goes into `AMP_TOOLBOX`.
pub fn apply_toolbox(env: &mut EnvMap, resolved: ResolvedToolbox, platform: Platform) -> (result:
    EnvComposeResult)
    requires
        old(env).wf(),
    ensures
        final(env).wf(),
        final(env)@ == with_toolbox(old(env)@, resolved.bin@, resolved.root@, platform),
        result.guard == resolved.guard,
{
    let mut resolved = resolved;
    let previous: String = match env.get("PATH") {
        Some(path) => path.clone(),
        None => String::new(),
    };
    let mut path = resolved.bin.clone();
    if !previous.as_str().is_empty() {
        path.append(separator_of(platform));
        path.append(previous.as_str());
    }
    env.insert(String::from_str("PATH"), path);
    env.insert(String::from_str("AMP_TOOLBOX"), resolved.root.clone());
    let guard = resolved.take_guard();
    EnvComposeResult { guard }
}

/// Composes `env` for a process of kind `context` on `platform`; see
/// [`composed`].
pub fn compose_runtime_env_internal<F>(
    env: &mut EnvMap,
    profile: Option<&ToolboxProfile>,
    context: SpawnContext,
    platform: Platform,
    resolve: F,
) -> (r: Result<EnvComposeResult, ToolboxError>) where
    F: FnOnce(Vec<String>) -> Result<ResolvedToolbox, ToolboxError>,

    requires
        old(env).wf(),
        forall|roots: Vec<String>| roots.len() > 0 ==> #[trigger] resolve.requires((roots,)),
    ensures
        final(env).wf(),
        composed(old(env)@, profile, platform, resolve, final(env)@, r),
{
    match profile {
        Some(profile) => {
            let paths = join(&profile.paths, separator_of(platform));
            env.insert(String::from_str("AMP_TOOLBOX_PATHS"), paths);
            env.insert(String::from_str("AMP_ACTIVE_TOOLBOX_PROFILE"), profile.name.clone());
        },
        None => {},
    }
    let ghost prepared = env@;
    let enabled = match env.get("AMP_ENABLE_TOOLBOXES") {
        Some(value) => flag_leaves_on(value.as_str()),
        None => true,
    };
    if !enabled {
        return Ok(EnvComposeResult { guard: None });
    }
    let roots = match env.get("AMP_TOOLBOX_PATHS") {
        Some(list) => split_paths(list.as_str(), platform),
        None => Vec::new(),
    };
    proof {
        assert(texts(roots@) =~= requested_roots(prepared, platform));
    }
    if roots.len() == 0 {
        return Ok(EnvComposeResult { guard: None });
    }
    let ghost asked = roots;
    let out = resolve(roots);
    let r = match out {
        Err(error) => Err(error),
        Ok(resolved) => Ok(apply_toolbox(env, resolved, platform)),
    };
    proof {
        assert(resolve.ensures((asked,), out));
        assert(settled(prepared, out, env@, r, platform));
    }
    r
}

/// A strategy for composing the environment of one kind of process.
pub trait EnvComposer {
    /// The kind of process that the strategy is for.
    spec fn context(&self) -> SpawnContext;

    /// Composes `env` on `platform`; see [`composed`].
    fn compose_env<F>(
        &self,
        env: &mut EnvMap,
        profile: Option<&ToolboxProfile>,
        platform: Platform,
        resolve: F,
    ) -> (r: Result<EnvComposeResult, ToolboxError>) where
        F: FnOnce(Vec<String>) -> Result<ResolvedToolbox, ToolboxError>,

        requires
            old(env).wf(),
            forall|roots: Vec<String>| roots.len() > 0 ==> #[trigger] resolve.requires((roots,)),
        ensures
            final(env).wf(),
            composed(old(env)@, profile, platform, resolve, final(env)@, r),
    ;

    /// The name of the strategy.
    fn strategy_name(&self) -> (name: &'static str)
        ensures
            name@ == strategy_text(self.context()),
    ;
}

/// The name of the strategy for `context`.
pub open spec fn strategy_text(context: SpawnContext) -> Seq<char> {
    match context {
        SpawnContext::Chat => "ChatSpawn"@,
        SpawnContext::Tui => "TuiSpawn"@,
        SpawnContext::ExternalTool => "ExternalToolSpawn"@,
    }
}

/// The strategy for chat sessions.
#[derive(Debug, Clone, Copy)]
pub struct ChatSpawnComposer;

/// The strategy for terminal sessions.
#[derive(Debug, Clone, Copy)]
pub struct TuiSpawnComposer;

/// The strategy for external tools.
#[derive(Debug, Clone, Copy)]
pub struct ExternalToolSpawnComposer;

impl EnvComposer for ChatSpawnComposer {
    open spec fn context(&self) -> SpawnContext {
        SpawnContext::Chat
    }

    fn compose_env<F>(
        &self,
        env: &mut EnvMap,
        profile: Option<&ToolboxProfile>,
        platform: Platform,
        resolve: F,
    ) -> (r: Result<EnvComposeResult, ToolboxError>) where
        F: FnOnce(Vec<String>) -> Result<ResolvedToolbox, ToolboxError>,
     {
        compose_runtime_env_internal(env, profile, SpawnContext::Chat, platform, resolve)
    }

    fn strategy_name(&self) -> (name: &'static str) {
        "ChatSpawn"
    }
}

impl EnvComposer for TuiSpawnComposer {
    open spec fn context(&self) -> SpawnContext {
        SpawnContext::Tui
    }

    fn compose_env<F>(
        &self,
        env: &mut EnvMap,
        profile: Option<&ToolboxProfile>,
        platform: Platform,
        resolve: F,
    ) -> (r: Result<EnvComposeResult, ToolboxError>) where
        F: FnOnce(Vec<String>) -> Result<ResolvedToolbox, ToolboxError>,
     {
        compose_runtime_env_internal(env, profile, SpawnContext::Tui, platform, resolve)
    }

    fn strategy_name(&self) -> (name: &'static str) {
        "TuiSpawn"
    }
}

impl EnvComposer for ExternalToolSpawnComposer {
    open spec fn context(&self) -> SpawnContext {
        SpawnContext::ExternalTool
    }

    fn compose_env<F>(
        &self,
        env: &mut EnvMap,
        profile: Option<&ToolboxProfile>,
        platform: Platform,
        resolve: F,
    ) -> (r: Result<EnvComposeResult, ToolboxError>) where
        F: FnOnce(Vec<String>) -> Result<ResolvedToolbox, ToolboxError>,
     {
        compose_runtime_env_internal(env, profile, SpawnContext::ExternalTool, platform, resolve)
    }

    fn strategy_name(&self) -> (name: &'static str) {
        "ExternalToolSpawn"
    }
}

/// One of the three strategies.
#[derive(Debug, Clone, Copy)]
pub enum Composer {
    Chat(ChatSpawnComposer),
    Tui(TuiSpawnComposer),
    ExternalTool(ExternalToolSpawnComposer),
}

impl EnvComposer for Composer {
    open spec fn context(&self) -> SpawnContext {
        match self {
            Composer::Chat(_) => SpawnContext::Chat,
            Composer::Tui(_) => SpawnContext::Tui,
            Composer::ExternalTool(_) => SpawnContext::ExternalTool,
        }
    }

    fn compose_env<F>(
        &self,
        env: &mut EnvMap,
        profile: Option<&ToolboxProfile>,
        platform: Platform,
        resolve: F,
    ) -> (r: Result<EnvComposeResult, ToolboxError>) where
        F: FnOnce(Vec<String>) -> Result<ResolvedToolbox, ToolboxError>,
     {
        match self {
            Composer::Chat(composer) => composer.compose_env(env, profile, platform, resolve),
            Composer::Tui(composer) => composer.compose_env(env, profile, platform, resolve),
            Composer::ExternalTool(composer) => composer.compose_env(
                env,
                profile,
                platform,
                resolve,
            ),
        }
    }

    fn strategy_name(&self) -> (name: &'static str) {
        match self {
            Composer::Chat(composer) => composer.strategy_name(),
            Composer::Tui(composer) => composer.strategy_name(),
            Composer::ExternalTool(composer) => composer.strategy_name(),
        }
    }
}

/// The kind of process that a name in lower case stands for: `tui` the
/// terminal, `external` and `external_tool` the external tool, and any other
/// text, `chat` among them, the chat session.
pub open spec fn context_of(lowered: Seq<char>) -> SpawnContext {
    if lowered == "tui"@ {
        SpawnContext::Tui
    } else if lowered == "external"@ || lowered == "external_tool"@ {
        SpawnContext::ExternalTool
    } else {
        SpawnContext::Chat
    }
}

/// The kind of process that the text `context` names, whatever its case.
pub open spec fn context_named(context: Seq<char>) -> SpawnContext {
    context_of(lowercase_of(context))
}

/// The strategy for the kind of process that a name in lower case stands
/// for.
pub fn composer_for(lowered: &str) -> (composer: Composer)
    ensures
        composer.context() == context_of(lowered@),
{
    if lowered.eq("tui") {
        Composer::Tui(TuiSpawnComposer)
    } else if lowered.eq("external") || lowered.eq("external_tool") {
        Composer::ExternalTool(ExternalToolSpawnComposer)
    } else {
        Composer::Chat(ChatSpawnComposer)
    }
}

/// The strategy for the kind of process that `context` names, whatever its
/// case.
pub fn create_composer(context: &str) -> (composer: Composer)
    ensures
        composer.context() == context_named(context@),
{
    let lowered = context.to_lowercase();
    composer_for(lowered.as_str())
}

/// Composes `env` on `platform` with the strategy that `strategy` names;
/// see [`composed`].
pub fn compose_env_with_strategy<F>(
    env: &mut EnvMap,
    profile: Option<&ToolboxProfile>,
    strategy: &str,
    platform: Platform,
    resolve: F,
) -> (r: Result<EnvComposeResult, ToolboxError>) where
    F: FnOnce(Vec<String>) -> Result<ResolvedToolbox, ToolboxError>,

    requires
        old(env).wf(),
        forall|roots: Vec<String>| roots.len() > 0 ==> #[trigger] resolve.requires((roots,)),
    ensures
        final(env).wf(),
        composed(old(env)@, profile, platform, resolve, final(env)@, r),
{
    let composer = create_composer(strategy);
    composer.compose_env(env, profile, platform, resolve)
}

/// Toolboxes switched off. Where the switch is set to `0`, or to a value
/// that is `false` in lower case, composing writes the variables of the
/// profile and nothing else: without a profile the environment stays as it
/// was, `PATH` included, and there is no guard.
pub proof fn lemma_switched_off<F: FnOnce(Vec<String>) -> Result<ResolvedToolbox, ToolboxError>>(
    before: Map<Seq<char>, Seq<char>>,
    profile: Option<&ToolboxProfile>,
    platform: Platform,
    resolve: F,
    after: Map<Seq<char>, Seq<char>>,
    r: Result<EnvComposeResult, ToolboxError>,
)
    requires
        composed(before, profile, platform, resolve, after, r),
        with_profile(before, profile, platform).contains_key("AMP_ENABLE_TOOLBOXES"@),
        with_profile(before, profile, platform)["AMP_ENABLE_TOOLBOXES"@] == "0"@ || lowercase_of(
            with_profile(before, profile, platform)["AMP_ENABLE_TOOLBOXES"@],
        ) == "false"@,
    ensures
        after == with_profile(before, profile, platform),
        profile is None ==> after == before,
        r is Ok,
        r->Ok_0.guard is None,
{
}

/// Toolboxes switched on. Where the prepared environment asks for roots,
/// the resolver is called with them; where it returns a toolbox, `PATH`
/// starts with the toolbox's `bin`, followed by the separator of the
/// platform and what `PATH` held where that was not empty, `AMP_TOOLBOX`
/// holds the runtime directory, and the toolbox's guard is handed on.
pub proof fn lemma_switched_on<F: FnOnce(Vec<String>) -> Result<ResolvedToolbox, ToolboxError>>(
    before: Map<Seq<char>, Seq<char>>,
    profile: Option<&ToolboxProfile>,
    platform: Platform,
    resolve: F,
    after: Map<Seq<char>, Seq<char>>,
    r: Result<EnvComposeResult, ToolboxError>,
)
    requires
        composed(before, profile, platform, resolve, after, r),
        requested_roots(with_profile(before, profile, platform), platform).len() > 0,
        r is Ok,
    ensures
        exists|roots: Vec<String>, toolbox: ResolvedToolbox|
            {
                let prepared = with_profile(before, profile, platform);
                let previous = if prepared.contains_key("PATH"@) {
                    prepared["PATH"@]
                } else {
                    Seq::empty()
                };
                &&& texts(roots@) == requested_roots(prepared, platform)
                &&& #[trigger] resolve.ensures((roots,), Ok(toolbox))
                &&& after.contains_key("PATH"@)
                &&& after["PATH"@] == if previous.len() == 0 {
                    toolbox.bin@
                } else {
                    toolbox.bin@ + list_separator(platform) + previous
                }
                &&& after.contains_key("AMP_TOOLBOX"@)
                &&& after["AMP_TOOLBOX"@] == toolbox.root@
                &&& r->Ok_0.guard == toolbox.guard
            },
{
    let prepared = with_profile(before, profile, platform);
    let (roots, out) = choose|roots: Vec<String>, out: Result<ResolvedToolbox, ToolboxError>|
        texts(roots@) == requested_roots(prepared, platform) && #[trigger] resolve.ensures(
            (roots,),
            out,
        ) && settled(prepared, out, after, r, platform);
    let toolbox = out->Ok_0;
    reveal_strlit("PATH");
    reveal_strlit("AMP_TOOLBOX");
    assert("PATH"@ != "AMP_TOOLBOX"@) by {
        assert("PATH"@.len() != "AMP_TOOLBOX"@.len());
    }
    assert(resolve.ensures((roots,), Ok(toolbox)));
}

} // verus!
