use amp_orchestra::amp_auth::ResolvedConfig;
use amp_orchestra::domain::{BatchStatus, SessionStatus};
use amp_orchestra::env_map::EnvMap;
use amp_orchestra::error::{GitError, PersistenceError, SessionError};
use amp_orchestra::keychain_auth::{
    parse_token_type, KeychainAuth, KeychainChange, ProfileChanges, ProfileLookups, TokenLookup,
    TokenType,
};
use amp_orchestra::legacy_node::{
    batch_status_from_legacy, session_status_from_legacy, session_status_to_legacy,
    LegacyNodeCompat,
};
use amp_orchestra::modern::ModernArchitecture;
use amp_orchestra::paths::{is_within, join, parent, symlink_destination};
use amp_orchestra::text::{contains, decimal_string, parse_u64};
use amp_orchestra::worktree::path_for;

#[test]
fn test_token_type_serialization() {
    assert_eq!(TokenType::RefreshToken.to_string(), "refresh_token");
    assert_eq!(TokenType::AccessToken.to_string(), "access_token");
    assert_eq!(TokenType::ApiKey.to_string(), "api_key");
}

#[test]
fn test_token_type_parsing() {
    assert_eq!("refresh_token".parse::<TokenType>().unwrap(), TokenType::RefreshToken);
    assert_eq!("access_token".parse::<TokenType>().unwrap(), TokenType::AccessToken);
    assert_eq!("api_key".parse::<TokenType>().unwrap(), TokenType::ApiKey);

    assert!("invalid".parse::<TokenType>().is_err());
    assert_eq!(parse_token_type("Api_Key").unwrap_err(), "Unknown token type: Api_Key");
}

#[test]
fn test_account_generation() {
    let keychain = KeychainAuth::new();
    let account = keychain.account_for_token("profile-123", &TokenType::RefreshToken);
    assert_eq!(account, "profile-123-refresh_token");
    assert_eq!(keychain.service_name(), "amp-orchestra");
    assert_eq!(KeychainAuth::default().service_name(), "amp-orchestra");
}

#[test]
fn keychain_answers() {
    let keychain = KeychainAuth::new();
    assert_eq!(
        keychain.get_token("work", &TokenType::ApiKey, TokenLookup::Found("secret".to_string())),
        Ok("secret".to_string())
    );
    assert_eq!(
        keychain.get_token("work", &TokenType::ApiKey, TokenLookup::NoEntry),
        Err("No api_key found for profile work".to_string())
    );
    assert_eq!(
        keychain.get_token("work", &TokenType::ApiKey, TokenLookup::EntryFailed("bad name".to_string())),
        Err("Failed to create keychain entry: bad name".to_string())
    );
    assert_eq!(
        keychain.get_token("work", &TokenType::ApiKey, TokenLookup::Failed("locked".to_string())),
        Err("Failed to retrieve token from keychain: locked".to_string())
    );
    assert_eq!(keychain.delete_token(KeychainChange::Done), Ok(()));
    assert_eq!(keychain.delete_token(KeychainChange::NoEntry), Ok(()));
    assert_eq!(
        keychain.delete_token(KeychainChange::Failed("locked".to_string())),
        Err("Failed to delete token from keychain: locked".to_string())
    );
    assert_eq!(keychain.store_token(KeychainChange::Done), Ok(()));
    assert_eq!(
        keychain.store_token(KeychainChange::Failed("full".to_string())),
        Err("Failed to store token in keychain: full".to_string())
    );
    assert_eq!(
        keychain.store_token(KeychainChange::EntryFailed("bad".to_string())),
        Err("Failed to create keychain entry: bad".to_string())
    );
}

#[test]
fn keychain_profiles() {
    let keychain = KeychainAuth::new();
    let lookups = ProfileLookups {
        refresh_token: TokenLookup::Found("r".to_string()),
        access_token: TokenLookup::Failed("locked".to_string()),
        api_key: TokenLookup::Found("k".to_string()),
    };
    assert_eq!(
        keychain.list_profile_tokens(&lookups).unwrap(),
        vec![TokenType::RefreshToken, TokenType::ApiKey]
    );
    assert!(keychain.has_profile_tokens(&lookups));
    assert_eq!(
        keychain.get_all_tokens(lookups).unwrap(),
        vec![(TokenType::RefreshToken, "r".to_string()), (TokenType::ApiKey, "k".to_string())]
    );
    let none = ProfileLookups {
        refresh_token: TokenLookup::NoEntry,
        access_token: TokenLookup::NoEntry,
        api_key: TokenLookup::EntryFailed("x".to_string()),
    };
    assert!(keychain.list_profile_tokens(&none).unwrap().is_empty());
    assert!(!keychain.has_profile_tokens(&none));

    let clean = ProfileChanges {
        refresh_token: KeychainChange::Done,
        access_token: KeychainChange::NoEntry,
        api_key: KeychainChange::Done,
    };
    assert_eq!(keychain.clear_profile_tokens(clean), Ok(()));
    let dirty = ProfileChanges {
        refresh_token: KeychainChange::Done,
        access_token: KeychainChange::Failed("first".to_string()),
        api_key: KeychainChange::Failed("second".to_string()),
    };
    assert_eq!(
        keychain.clear_profile_tokens(dirty),
        Err("Failed to delete token from keychain: first".to_string())
    );
}

#[test]
fn test_legacy_node_compat() {
    let compat = LegacyNodeCompat::new();
    assert!(compat.is_enabled());
    assert!(LegacyNodeCompat::default().is_enabled());
    assert!(!LegacyNodeCompat { enabled: false }.is_enabled());
}

#[test]
fn legacy_statuses() {
    assert!(matches!(session_status_from_legacy("idle"), SessionStatus::Idle));
    assert!(matches!(session_status_from_legacy("running"), SessionStatus::Running));
    assert!(matches!(session_status_from_legacy("completed"), SessionStatus::Completed));
    assert!(matches!(session_status_from_legacy("whatever"), SessionStatus::Idle));
    assert_eq!(session_status_to_legacy(&SessionStatus::Running), "running");
    assert_eq!(session_status_to_legacy(&SessionStatus::Completed), "completed");
    assert_eq!(session_status_to_legacy(&SessionStatus::Idle), "idle");
    assert_eq!(session_status_to_legacy(&SessionStatus::Evaluating), "idle");
    assert_eq!(session_status_to_legacy(&SessionStatus::Error("x".to_string())), "error: x");
    assert_eq!(batch_status_from_legacy("pending"), BatchStatus::Pending);
    assert_eq!(batch_status_from_legacy("running"), BatchStatus::Running);
    assert_eq!(batch_status_from_legacy("completed"), BatchStatus::Completed);
    assert_eq!(batch_status_from_legacy("failed"), BatchStatus::Failed);
    assert_eq!(batch_status_from_legacy("cancelled"), BatchStatus::Pending);
}

#[test]
fn test_modern_architecture() {
    let modern = ModernArchitecture::new();
    assert_eq!(modern.get_version(), "unified-v1");
    assert_eq!(ModernArchitecture::default().get_version(), "unified-v1");
}

#[test]
fn test_path_for() {
    let actual_path = path_for("/test/repo", "test-session-12345678");
    assert_eq!(actual_path, "/test/repo/.amp-worktrees/test-ses");
}

#[test]
fn test_path_for_short_session() {
    let actual_path = path_for("/test/repo", "short12");
    assert_eq!(actual_path, "/test/repo/.amp-worktrees/short12");
    assert_eq!(path_for("/test/repo/", ""), "/test/repo/.amp-worktrees/");
    assert_eq!(path_for("", "\u{e9}\u{e9}\u{e9}\u{e9}\u{e9}"), ".amp-worktrees/\u{e9}\u{e9}\u{e9}\u{e9}");
}

#[test]
fn errors_in_words() {
    assert_eq!(SessionError::NotFound { id: "s1".to_string() }.to_string(), "Session not found: s1");
    assert_eq!(SessionError::AlreadyExists { id: "s1".to_string() }.to_string(), "Session already exists: s1");
    assert_eq!(SessionError::InvalidStatus { status: "x".to_string() }.to_string(), "Invalid session status: x");
    assert_eq!(SessionError::Timeout { id: "s1".to_string() }.to_string(), "Session timeout: s1");
    assert_eq!(SessionError::CreationFailed { reason: "r".to_string() }.to_string(), "Session creation failed: r");
    assert_eq!(
        GitError::OperationFailed { operation: "worktree add".to_string(), reason: "exists".to_string() }.to_string(),
        "Git operation failed: worktree add - exists"
    );
    assert_eq!(GitError::BranchNotFound { branch: "b".to_string() }.to_string(), "Branch not found: b");
    assert_eq!(GitError::WorktreeNotFound { path: "/w".to_string() }.to_string(), "Worktree not found at path: /w");
    assert_eq!(GitError::Io("denied".to_string()).to_string(), "IO error: denied");
    assert_eq!(
        PersistenceError::RecordNotFound { table: "sessions".to_string(), id: "7".to_string() }.to_string(),
        "Record not found: sessions with id 7"
    );
    assert_eq!(PersistenceError::Database("d".to_string()).to_string(), "Database error: d");
    assert_eq!(PersistenceError::NotImplemented("n".to_string()).to_string(), "Not implemented: n");
}

#[test]
fn decimal_numbers_both_ways() {
    assert_eq!(decimal_string(0), "0");
    assert_eq!(decimal_string(9), "9");
    assert_eq!(decimal_string(10), "10");
    assert_eq!(decimal_string(1234567890), "1234567890");
    assert_eq!(decimal_string(u64::MAX), "18446744073709551615");
    for text in ["0", "7", "+7", "007", "18446744073709551615", "", "+", "-1", "1 ", " 1", "1_0", "0x10", "18446744073709551616", "99999999999999999999999", "++1", "1+", "\u{663}"] {
        assert_eq!(parse_u64(text), text.parse::<u64>().ok(), "{:?}", text);
    }
}

#[test]
fn text_search() {
    assert!(contains("https://localhost:7002", "localhost"));
    assert!(contains("localhost", "localhost"));
    assert!(!contains("localhos", "localhost"));
    assert!(contains("anything", ""));
    assert!(contains("", ""));
    assert!(!contains("", "a"));
    assert!(contains("aab", "ab"));
}

#[test]
fn paths_as_text() {
    assert_eq!(join("/a", "b"), "/a/b");
    assert_eq!(join("/a/", "b"), "/a/b");
    assert_eq!(join("/a", "/b"), "/b");
    assert_eq!(join("", "b"), "b");
    assert_eq!(join("/", "b"), "/b");
    assert_eq!(join("/a", ""), "/a/");
    assert_eq!(parent("/a/b/c"), "/a/b");
    assert_eq!(parent("/a"), "/");
    assert_eq!(parent("a"), "");
    assert_eq!(parent(""), "");
    assert_eq!(parent("a/b"), "a");
    assert_eq!(symlink_destination("/r/bin/sub/link", "../../secret"), "/r/bin/sub/../../secret");
    assert_eq!(symlink_destination("/r/bin/link", "/etc/passwd"), "/etc/passwd");
    assert_eq!(symlink_destination("/r/bin/link", "real"), "/r/bin/real");
    assert!(is_within("/r/bin/x", "/r"));
    assert!(is_within("/r", "/r"));
    assert!(is_within("/r/", "/r"));
    assert!(is_within("/r//bin", "/r/"));
    assert!(!is_within("/rx", "/r"));
    assert!(!is_within("/", "/r"));
    assert!(is_within("/r", "/"));
    assert!(!is_within("r/x", "/r"));
    assert!(is_within("r/x", "r"));
    assert!(!is_within("/a/r/x", "/r"));
}

fn env_of(pairs: &[(&str, &str)]) -> EnvMap {
    let mut env = EnvMap::new();
    for (name, value) in pairs {
        env.insert(name.to_string(), value.to_string());
    }
    env
}

#[test]
fn connection_production_defaults() {
    let config = ResolvedConfig::from_env(env_of(&[("HOME", "/home/u")]), None, "/work".to_string());
    assert_eq!(config.amp_bin.as_deref(), Some("amp"));
    assert!(config.amp_cli_path.is_none());
    assert!(config.server_url.is_none());
    assert!(config.amp_token.is_none());
    assert_eq!(config.cwd, "/work");
    assert_eq!(config.connection_mode(), "production");
    assert_eq!(config.connection_description(), "Production mode");
    assert_eq!(config.env().len(), 1);
}

#[test]
fn connection_local_cli() {
    let config = ResolvedConfig::from_env(
        env_of(&[("AMP_CLI_PATH", "/x/main.js"), ("AMP_TOKEN", "t"), ("AMP_AUTH_CMD", "login")]),
        Some("/home/u/amp/cli/dist/main.js".to_string()),
        ".".to_string(),
    );
    assert_eq!(config.amp_cli_path.as_deref(), Some("/x/main.js"));
    assert_eq!(config.server_url.as_deref(), Some("https://localhost:7002"));
    assert_eq!(config.env().get("NODE_TLS_REJECT_UNAUTHORIZED").unwrap(), "0");
    assert!(config.amp_bin.is_none());
    assert_eq!(config.amp_token.as_deref(), Some("t"));
    assert_eq!(config.auth_cmd.as_deref(), Some("login"));
    assert_eq!(config.connection_mode(), "local-cli");
    assert_eq!(config.connection_description(), "Development mode");
}

#[test]
fn connection_found_cli_and_explicit_binary() {
    let found = Some("/home/u/amp/cli/dist/main.js".to_string());
    let config = ResolvedConfig::from_env(env_of(&[]), found.clone(), ".".to_string());
    assert_eq!(config.amp_cli_path, found);
    assert_eq!(config.server_url.as_deref(), Some("https://localhost:7002"));

    let config = ResolvedConfig::from_env(env_of(&[("AMP_BIN", "/opt/amp")]), found.clone(), ".".to_string());
    assert!(config.amp_cli_path.is_none());
    assert!(config.server_url.is_none());
    assert_eq!(config.amp_bin.as_deref(), Some("/opt/amp"));
    assert_eq!(config.connection_description(), "Using system binary: /opt/amp");

    let config = ResolvedConfig::from_env(env_of(&[("AMP_BIN", "")]), found.clone(), ".".to_string());
    assert_eq!(config.amp_cli_path, found);
    assert_eq!(config.amp_bin.as_deref(), Some(""));

    let config = ResolvedConfig::from_env(
        env_of(&[("AMP_CLI_PATH", "/x/main.js"), ("AMP_URL", "https://ampcode.com")]),
        None,
        ".".to_string(),
    );
    assert_eq!(config.server_url.as_deref(), Some("https://ampcode.com"));
    assert!(!config.env().contains_key("NODE_TLS_REJECT_UNAUTHORIZED"));
    assert_eq!(config.connection_description(), "Production mode");
}

#[test]
fn connection_overrides_and_mode() {
    let overrides = env_of(&[("AMP_URL", "https://override"), ("EXTRA", "1")]);
    let mut config = ResolvedConfig::from_env_with_overrides(
        env_of(&[("AMP_URL", "https://localhost:1"), ("KEEP", "k")]),
        &overrides,
        None,
        ".".to_string(),
    );
    assert_eq!(config.server_url.as_deref(), Some("https://override"));
    assert_eq!(config.env().get("KEEP").unwrap(), "k");
    assert_eq!(config.env().get("EXTRA").unwrap(), "1");
    config.override_connection_mode("custom".to_string());
    assert_eq!(config.connection_mode(), "custom");

    let mut bare = ResolvedConfig::from_env(env_of(&[]), None, ".".to_string());
    bare.amp_bin = None;
    assert_eq!(bare.connection_description(), "No connection configured");
    bare.amp_cli_path = Some("/c".to_string());
    assert_eq!(bare.connection_description(), "Using local CLI: /c (development)");
}
