use amp_orchestra::env_composer::{
    apply_toolbox, compose_env_with_strategy, ChatSpawnComposer, EnvComposer,
    ExternalToolSpawnComposer, TuiSpawnComposer,
};
use amp_orchestra::env_map::EnvMap;
use amp_orchestra::runtime_env::{
    compose_runtime_env, compose_runtime_env_with_profile, EnvKind, RuntimeEnvironment,
};
use amp_orchestra::domain::AgentMode;
use amp_orchestra::toolbox_profiles::ToolboxProfile;
use amp_orchestra::toolbox_resolver::{
    resolve_toolboxes, EntryKind, Platform, ResolveSettings, ResolvedToolbox, ToolboxError,
    ToolboxRoot, WalkEntry,
};

/// A resolver over a made-up file system in which every root holds one
/// tool named after the root.
fn resolver(roots: Vec<String>) -> Result<ResolvedToolbox, ToolboxError> {
    let listings: Vec<ToolboxRoot> = roots
        .iter()
        .map(|root| ToolboxRoot {
            path: root.clone(),
            len: Some(4096),
            modified_ms: Some(1_700_000_000_000),
            bin: Some(vec![WalkEntry {
                rel: "tool".to_string(),
                kind: EntryKind::File,
                size: 10,
                target: None,
                fault: None,
            }]),
        })
        .collect();
    let settings = ResolveSettings {
        base: "/home/u/.amp-orchestra/runtime_toolboxes".to_string(),
        max_files: 5000,
        max_bytes: 250 * 1024 * 1024,
        copy_mode: false,
    };
    resolve_toolboxes(&listings, false, &settings)
}

fn never(_roots: Vec<String>) -> Result<ResolvedToolbox, ToolboxError> {
    panic!("the resolver must not be called")
}

fn failing(_roots: Vec<String>) -> Result<ResolvedToolbox, ToolboxError> {
    Err(ToolboxError::Io { message: "canonicalize \"/nowhere\": not found".to_string() })
}

fn base_env() -> EnvMap {
    let mut env = EnvMap::new();
    env.insert("PATH".into(), "/usr/bin:/bin".to_string());
    env
}

#[test]
fn test_chat_spawn_with_toolbox() {
    let composer = ChatSpawnComposer;
    let mut env = base_env();
    env.insert("AMP_TOOLBOX_PATHS".into(), "/tmp/t/test_toolbox".to_string());

    let result = composer.compose_env(&mut env, None, Platform::Unix, resolver).unwrap();

    assert!(result.guard.is_some());
    assert!(env.contains_key("AMP_TOOLBOX"));

    let path = env.get("PATH").unwrap();
    assert!(path.contains("/bin:"));
    assert!(path.contains("/usr/bin:/bin"));
}

#[test]
fn test_tui_spawn_with_toolbox() {
    let composer = TuiSpawnComposer;
    let mut env = base_env();
    env.insert("AMP_TOOLBOX_PATHS".into(), "/tmp/t/test_toolbox".to_string());

    let result = composer.compose_env(&mut env, None, Platform::Unix, resolver).unwrap();

    assert!(result.guard.is_some());
    assert!(env.contains_key("AMP_TOOLBOX"));
    let path = env.get("PATH").unwrap();
    assert!(path.contains("/bin:"));
    assert!(path.contains("/usr/bin:/bin"));
}

#[test]
fn test_external_tool_spawn_with_toolbox() {
    let composer = ExternalToolSpawnComposer;
    let mut env = base_env();
    env.insert("AMP_TOOLBOX_PATHS".into(), "/tmp/t/test_toolbox".to_string());

    let result = composer.compose_env(&mut env, None, Platform::Unix, resolver).unwrap();

    assert!(result.guard.is_some());
    assert!(env.contains_key("AMP_TOOLBOX"));
    let path = env.get("PATH").unwrap();
    assert!(path.contains("/bin:"));
    assert!(path.contains("/usr/bin:/bin"));
}

#[test]
fn test_chat_spawn_with_toolbox_profile() {
    let profile = ToolboxProfile {
        id: 1,
        name: "test_profile".to_string(),
        created_at: "2023-01-01T00:00:00Z".to_string(),
        paths: vec!["/tmp/t/profile_toolbox".to_string()],
    };

    let composer = ChatSpawnComposer;
    let mut env = base_env();

    let result = composer.compose_env(&mut env, Some(&profile), Platform::Unix, resolver).unwrap();

    assert!(result.guard.is_some());
    assert!(env.contains_key("AMP_TOOLBOX"));
    assert_eq!(env.get("AMP_ACTIVE_TOOLBOX_PROFILE").unwrap(), "test_profile");
    assert_eq!(env.get("AMP_TOOLBOX_PATHS").unwrap(), "/tmp/t/profile_toolbox");

    let path = env.get("PATH").unwrap();
    assert!(path.contains("/bin:"));
    assert!(path.contains("/usr/bin:/bin"));
}

#[test]
fn test_multi_path_profile() {
    let profile = ToolboxProfile {
        id: 2,
        name: "multi_path_profile".to_string(),
        created_at: "2023-01-01T00:00:00Z".to_string(),
        paths: vec!["/tmp/t/toolbox1".to_string(), "/tmp/t/toolbox2".to_string()],
    };

    let composer = ChatSpawnComposer;
    let mut env = base_env();
    let mut asked: Vec<String> = Vec::new();

    let result = composer
        .compose_env(&mut env, Some(&profile), Platform::Unix, |roots: Vec<String>| {
            asked = roots.clone();
            resolver(roots)
        })
        .unwrap();

    assert!(result.guard.is_some());
    assert!(env.contains_key("AMP_TOOLBOX"));
    assert_eq!(env.get("AMP_ACTIVE_TOOLBOX_PROFILE").unwrap(), "multi_path_profile");
    assert_eq!(env.get("AMP_TOOLBOX_PATHS").unwrap(), "/tmp/t/toolbox1:/tmp/t/toolbox2");
    assert_eq!(asked, vec!["/tmp/t/toolbox1", "/tmp/t/toolbox2"]);
}

#[test]
fn test_path_precedence_in_composition() {
    let composer = ChatSpawnComposer;
    let mut env = base_env();
    env.insert("AMP_TOOLBOX_PATHS".into(), "/tmp/t/precedence_toolbox".to_string());

    let result = composer.compose_env(&mut env, None, Platform::Unix, resolver).unwrap();

    assert!(result.guard.is_some());

    let path = env.get("PATH").unwrap();
    let toolbox_bin_path = format!("{}/bin", env.get("AMP_TOOLBOX").unwrap());

    assert!(path.starts_with(&toolbox_bin_path));
    assert_eq!(path, &format!("{}:/usr/bin:/bin", toolbox_bin_path));

    let toolbox_pos = path.find(&toolbox_bin_path).unwrap();
    let system_pos = path.find("/usr/bin").unwrap();
    assert!(toolbox_pos < system_pos, "Toolbox path should precede system paths");

    let guard = result.guard.unwrap();
    assert_eq!(guard.root(), env.get("AMP_TOOLBOX").unwrap());
    assert!(!guard.keep());
}

#[test]
fn test_toolboxes_disabled_flag() {
    let mut names = Vec::new();
    for strategy in ["chat", "tui", "external_tool"] {
        let mut env = base_env();
        env.insert("AMP_ENABLE_TOOLBOXES".into(), "0".into());
        env.insert("AMP_TOOLBOX_PATHS".into(), "/tmp/t/disabled_toolbox".to_string());

        let result = compose_env_with_strategy(&mut env, None, strategy, Platform::Unix, never).unwrap();

        assert!(result.guard.is_none());
        assert!(!env.contains_key("AMP_TOOLBOX"));
        assert_eq!(env.get("PATH").unwrap(), "/usr/bin:/bin");
        assert_eq!(env.len(), 3);
        names.push(strategy);
    }
    assert_eq!(names.len(), 3);
}

#[test]
fn test_toolboxes_disabled_flag_false_string() {
    for flag in ["false", "FALSE", "False"] {
        let composer = ChatSpawnComposer;
        let mut env = base_env();
        env.insert("AMP_ENABLE_TOOLBOXES".into(), flag.into());
        env.insert("AMP_TOOLBOX_PATHS".into(), "/tmp/t/disabled_toolbox".to_string());

        let result = composer.compose_env(&mut env, None, Platform::Unix, never).unwrap();

        assert!(result.guard.is_none());
        assert!(!env.contains_key("AMP_TOOLBOX"));
        assert_eq!(env.get("PATH").unwrap(), "/usr/bin:/bin");
    }
}

#[test]
fn other_flag_values_leave_toolboxes_on() {
    for flag in ["1", "true", "no", "", "00", "off"] {
        let mut env = base_env();
        env.insert("AMP_ENABLE_TOOLBOXES".into(), flag.into());
        env.insert("AMP_TOOLBOX_PATHS".into(), "/tmp/t/box".to_string());
        let result = ChatSpawnComposer.compose_env(&mut env, None, Platform::Unix, resolver).unwrap();
        assert!(result.guard.is_some(), "flag {:?}", flag);
    }
}

#[test]
fn disabled_with_profile_writes_the_profile_only() {
    let profile = ToolboxProfile {
        id: 3,
        name: "p".to_string(),
        created_at: String::new(),
        paths: vec!["/a".to_string(), "/b".to_string()],
    };
    let mut env = base_env();
    env.insert("AMP_ENABLE_TOOLBOXES".into(), "0".into());
    let result = ChatSpawnComposer.compose_env(&mut env, Some(&profile), Platform::Unix, never).unwrap();
    assert!(result.guard.is_none());
    assert_eq!(env.get("AMP_TOOLBOX_PATHS").unwrap(), "/a:/b");
    assert_eq!(env.get("AMP_ACTIVE_TOOLBOX_PROFILE").unwrap(), "p");
    assert_eq!(env.get("PATH").unwrap(), "/usr/bin:/bin");
    assert!(!env.contains_key("AMP_TOOLBOX"));
    assert_eq!(env.len(), 4);
}

#[test]
fn test_all_composers_produce_consistent_results() {
    let mut results = Vec::new();
    for strategy in ["chat", "tui", "external"] {
        let mut env = base_env();
        env.insert("AMP_TOOLBOX_PATHS".into(), "/tmp/t/consistent_toolbox".to_string());

        let result = compose_env_with_strategy(&mut env, None, strategy, Platform::Unix, resolver).unwrap();

        assert!(result.guard.is_some());
        assert!(env.contains_key("AMP_TOOLBOX"));

        let path = env.get("PATH").unwrap().clone();
        let toolbox_env = env.get("AMP_TOOLBOX").unwrap().clone();
        results.push((path, toolbox_env));
    }

    let first_result = &results[0];
    for result in &results[1..] {
        assert_eq!(result.0, first_result.0, "PATH should be identical across all composers");
        assert_eq!(result.1, first_result.1, "AMP_TOOLBOX should be identical across all composers");
    }
}

#[test]
fn resolver_failure_is_handed_on() {
    let mut env = base_env();
    env.insert("AMP_TOOLBOX_PATHS".into(), "/nowhere".to_string());
    let error = ChatSpawnComposer.compose_env(&mut env, None, Platform::Unix, failing).unwrap_err();
    assert!(error.to_string().contains("canonicalize"));
    assert_eq!(env.get("PATH").unwrap(), "/usr/bin:/bin");
    assert!(!env.contains_key("AMP_TOOLBOX"));
}

#[test]
fn empty_path_list_asks_for_nothing() {
    let mut env = base_env();
    env.insert("AMP_TOOLBOX_PATHS".into(), " : ,, ".to_string());
    let result = ChatSpawnComposer.compose_env(&mut env, None, Platform::Unix, never).unwrap();
    assert!(result.guard.is_none());
    assert_eq!(env.get("PATH").unwrap(), "/usr/bin:/bin");
}

#[test]
fn path_without_previous_value_is_the_bin_alone() {
    let mut env = EnvMap::new();
    let resolved = resolver(vec!["/tmp/t/box".to_string()]).unwrap();
    let bin = resolved.bin.clone();
    let root = resolved.root.clone();
    let result = apply_toolbox(&mut env, resolved, Platform::Unix);
    assert!(result.guard.is_some());
    assert_eq!(env.get("PATH").unwrap(), &bin);
    assert_eq!(env.get("AMP_TOOLBOX").unwrap(), &root);

    let mut env = EnvMap::new();
    env.insert("PATH".into(), String::new());
    let resolved = resolver(vec!["/tmp/t/box".to_string()]).unwrap();
    apply_toolbox(&mut env, resolved, Platform::Unix);
    assert_eq!(env.get("PATH").unwrap(), &bin);
}

#[test]
fn compose_sets_env_and_path() {
    let mut env = EnvMap::new();
    env.insert("AMP_TOOLBOX_PATHS".into(), "/tmp/t/toolbox".to_string());
    env.insert("PATH".into(), "/usr/bin".to_string());

    let result = compose_runtime_env(&mut env, Platform::Unix, resolver).unwrap();
    assert!(result.guard.is_some());
    assert!(env.contains_key("AMP_TOOLBOX"));
    let toolbox_root = env.get("AMP_TOOLBOX").unwrap().clone();
    assert_eq!(env.get("PATH").unwrap(), &format!("{}/bin:/usr/bin", toolbox_root));
}

#[test]
fn integration_toolbox_disabled() {
    let mut env = EnvMap::new();
    env.insert("AMP_ENABLE_TOOLBOXES".into(), "0".to_string());
    env.insert("AMP_TOOLBOX_PATHS".into(), "/tmp/t/toolbox".to_string());
    env.insert("PATH".into(), "/usr/bin".to_string());

    let result = compose_runtime_env(&mut env, Platform::Unix, never).unwrap();
    assert!(result.guard.is_none());
    assert!(!env.contains_key("AMP_TOOLBOX"));
    assert_eq!(env.get("PATH").unwrap(), "/usr/bin");
}

#[test]
fn integration_toolbox_path_prepending() {
    let profile = ToolboxProfile {
        id: 7,
        name: "dev".to_string(),
        created_at: String::new(),
        paths: vec!["/tmp/t/one".to_string()],
    };
    let mut env = EnvMap::new();
    env.insert("PATH".into(), "/usr/local/bin:/usr/bin".to_string());
    let result = compose_runtime_env_with_profile(&mut env, Some(&profile), Platform::Unix, resolver).unwrap();
    assert!(result.guard.is_some());
    let path = env.get("PATH").unwrap();
    assert!(path.ends_with(":/usr/local/bin:/usr/bin"));
    assert!(path.starts_with("/home/u/.amp-orchestra/runtime_toolboxes/"));
}

#[test]
fn runtime_environment_defaults() {
    let runtime = RuntimeEnvironment::new(EnvKind::Production);
    assert_eq!(runtime.env_kind, EnvKind::Production);
    assert!(runtime.amp_config.server_url.is_none());
    assert!(runtime.amp_config.cli_path.is_none());
    assert!(runtime.amp_config.agent_mode.is_none());
    assert!(runtime.agent_mode.is_none());
    assert!(runtime.toolbox_config.toolbox_paths.is_empty());
    assert_eq!(runtime.toolbox_config.max_file_count, 10000);
    assert_eq!(runtime.toolbox_config.max_total_size, 500 * 1024 * 1024);
    assert!(runtime.worktree_path.is_none());
}

#[test]
fn runtime_environment_composes_its_settings() {
    let mut runtime = RuntimeEnvironment::new(EnvKind::LocalDevelopment);
    runtime.worktree_path = Some("/repo/.amp-worktrees/abcdefgh".to_string());
    runtime.agent_mode = Some(AgentMode::GronkFast);
    runtime.amp_config.server_url = Some("https://localhost:7002".to_string());
    runtime.amp_config.cli_path = Some("/home/u/amp/cli/dist/main.js".to_string());
    runtime.toolbox_config.toolbox_paths = vec!["/tmp/t/one".to_string(), "/tmp/t/two".to_string()];

    let mut env = base_env();
    env.insert("AMP_ENABLE_TOOLBOXES".into(), "0".to_string());
    let result = runtime.compose_environment(&mut env, Some("session-1"), Platform::Unix, resolver).unwrap();

    assert!(result.guard.is_some());
    assert_eq!(env.get("PWD").unwrap(), "/repo/.amp-worktrees/abcdefgh");
    assert_eq!(env.get("AMP_EXPERIMENTAL_AGENT_MODE").unwrap(), "gronk:fast");
    assert_eq!(env.get("AMP_URL").unwrap(), "https://localhost:7002");
    assert_eq!(env.get("AMP_CLI_PATH").unwrap(), "/home/u/amp/cli/dist/main.js");
    assert_eq!(env.get("AMP_TOOLBOX_PATHS").unwrap(), "/tmp/t/one:/tmp/t/two");
    assert_eq!(env.get("AMP_ENABLE_TOOLBOXES").unwrap(), "1");
    assert!(env.get("PATH").unwrap().ends_with("/bin:/usr/bin:/bin"));
}

#[test]
fn runtime_environment_agent_mode_names() {
    let cases = vec![
        (AgentMode::Default, "default"),
        (AgentMode::Geppetto, "geppetto:main"),
        (AgentMode::Claudetto, "claudetto:main"),
        (AgentMode::GronkFast, "gronk:fast"),
        (AgentMode::Bolt, "bolt"),
        (AgentMode::Custom("mine:v2".to_string()), "mine:v2"),
    ];
    for (mode, name) in cases {
        let mut runtime = RuntimeEnvironment::new(EnvKind::CI);
        runtime.agent_mode = Some(mode);
        let mut env = EnvMap::new();
        let result = runtime.compose_environment(&mut env, None, Platform::Unix, never).unwrap();
        assert!(result.guard.is_none());
        assert_eq!(env.get("AMP_EXPERIMENTAL_AGENT_MODE").unwrap(), name);
        assert_eq!(env.len(), 1);
    }
}

#[test]
fn env_map_keeps_each_name_once_in_first_set_order() {
    let mut env = EnvMap::new();
    assert_eq!(env.len(), 0);
    assert_eq!(env.insert("A".to_string(), "1".to_string()), None);
    assert_eq!(env.insert("B".to_string(), "2".to_string()), None);
    assert_eq!(env.insert("A".to_string(), "3".to_string()), Some("1".to_string()));
    assert_eq!(env.len(), 2);
    assert_eq!(env.get("A"), Some(&"3".to_string()));
    assert_eq!(env.get("C"), None);
    assert!(env.contains_key("B"));
    assert!(!env.contains_key("b"));
    assert_eq!(
        env.pairs(),
        &vec![("A".to_string(), "3".to_string()), ("B".to_string(), "2".to_string())]
    );
}

#[test]
fn windows_lists_are_parted_by_semicolons() {
    let profile = ToolboxProfile {
        id: 9,
        name: "win".to_string(),
        created_at: String::new(),
        paths: vec!["C:\\tools\\one".to_string(), "D:\\two".to_string()],
    };
    let mut env = EnvMap::new();
    env.insert("PATH".into(), "C:\\Windows;C:\\Windows\\System32".to_string());
    let mut asked: Vec<String> = Vec::new();

    let result = ChatSpawnComposer
        .compose_env(&mut env, Some(&profile), Platform::Windows, |roots: Vec<String>| {
            asked = roots.clone();
            resolver(roots)
        })
        .unwrap();

    assert!(result.guard.is_some());
    assert_eq!(env.get("AMP_TOOLBOX_PATHS").unwrap(), "C:\\tools\\one;D:\\two");
    assert_eq!(asked, vec!["C:\\tools\\one", "D:\\two"]);
    let root = env.get("AMP_TOOLBOX").unwrap().clone();
    assert_eq!(
        env.get("PATH").unwrap(),
        &format!("{}/bin;C:\\Windows;C:\\Windows\\System32", root)
    );
}

#[test]
fn a_colon_does_not_part_a_windows_list() {
    let mut env = EnvMap::new();
    env.insert("AMP_TOOLBOX_PATHS".into(), "C:\\a, C:\\b".to_string());
    let mut asked: Vec<String> = Vec::new();
    ChatSpawnComposer
        .compose_env(&mut env, None, Platform::Windows, |roots: Vec<String>| {
            asked = roots.clone();
            resolver(roots)
        })
        .unwrap();
    assert_eq!(asked, vec!["C:\\a, C:\\b"]);
}
