use amp_orchestra::toolbox_resolver::{
    copy_mode, hex_string, limits, limits_fit, link_or_copy_file, resolve_toolboxes,
    runtime_digest, validate_directory_symlinks, validate_symlink_security, EntryKind, LinkMethod,
    LinkStep, Platform, ResolveSettings, ResolvedToolbox, ToolboxError, ToolboxGuard, ToolboxRoot,
    WalkEntry,
};
use std::collections::HashMap;

fn file(rel: &str, content: &str) -> WalkEntry {
    WalkEntry {
        rel: rel.to_string(),
        kind: EntryKind::File,
        size: content.len() as u64,
        target: None,
        fault: None,
    }
}

fn dir(rel: &str) -> WalkEntry {
    WalkEntry { rel: rel.to_string(), kind: EntryKind::Other, size: 0, target: None, fault: None }
}

fn symlink(rel: &str, canonical_target: &str) -> WalkEntry {
    WalkEntry {
        rel: rel.to_string(),
        kind: EntryKind::Symlink,
        size: 0,
        target: Some(canonical_target.to_string()),
        fault: None,
    }
}

fn broken_symlink(rel: &str, fault: &str) -> WalkEntry {
    WalkEntry {
        rel: rel.to_string(),
        kind: EntryKind::Symlink,
        size: 0,
        target: None,
        fault: Some(fault.to_string()),
    }
}

fn toolbox(path: &str, entries: Vec<WalkEntry>) -> ToolboxRoot {
    let mut bin = vec![dir("")];
    bin.extend(entries);
    ToolboxRoot { path: path.to_string(), len: Some(4096), modified_ms: Some(1_700_000_000_000), bin: Some(bin) }
}

fn settings(max_files: u64, max_bytes: u64) -> ResolveSettings {
    ResolveSettings {
        base: "/home/u/.amp-orchestra/runtime_toolboxes".to_string(),
        max_files,
        max_bytes,
        copy_mode: false,
    }
}

fn roomy() -> ResolveSettings {
    settings(5000, 10 * 1024 * 1024)
}

/// What the runtime directory holds once the links are made in order: for
/// each relative path the source that was linked last.
fn materialize(links: &[LinkStep]) -> HashMap<String, String> {
    let mut merged = HashMap::new();
    for step in links {
        merged.insert(step.rel.clone(), step.source.clone());
    }
    merged
}

fn message(result: Result<ResolvedToolbox, ToolboxError>) -> String {
    result.unwrap_err().to_string()
}

#[test]
fn merges_bin_last_wins() {
    let a = toolbox("/tmp/t/a", vec![file("hello", "A")]);
    let b = toolbox("/tmp/t/b", vec![file("hello", "B")]);

    let resolved = resolve_toolboxes(&vec![a.clone(), b.clone()], true, &roomy()).unwrap();
    let merged = materialize(&resolved.links);
    assert_eq!(merged.get("hello").unwrap(), "/tmp/t/b/bin/hello");

    let reversed = resolve_toolboxes(&vec![b, a], true, &roomy()).unwrap();
    let merged = materialize(&reversed.links);
    assert_eq!(merged.get("hello").unwrap(), "/tmp/t/a/bin/hello");
}

#[test]
fn single_root_basic() {
    let toolbox_a = toolbox(
        "/tmp/t/toolbox_a",
        vec![file("echo_hi.sh", "#!/bin/bash\necho hello"), file("curl", "#!/bin/bash\necho fake curl")],
    );

    let resolved = resolve_toolboxes(&vec![toolbox_a], true, &roomy()).unwrap();

    assert_eq!(resolved.manifest.files_count, 2);
    let merged = materialize(&resolved.links);
    assert!(merged.contains_key("echo_hi.sh"));
    assert!(merged.contains_key("curl"));
    assert_eq!(merged.get("echo_hi.sh").unwrap(), "/tmp/t/toolbox_a/bin/echo_hi.sh");
    assert_eq!(
        resolved.links[0].destination,
        format!("{}/echo_hi.sh", resolved.bin)
    );
}

#[test]
fn multi_root_precedence() {
    let toolbox_a = toolbox(
        "/tmp/t/toolbox_a",
        vec![file("common_tool", "version A"), file("tool_a", "exclusive to A")],
    );
    let toolbox_b = toolbox(
        "/tmp/t/toolbox_b",
        vec![file("common_tool", "version B"), file("tool_b", "exclusive to B")],
    );

    let resolved =
        resolve_toolboxes(&vec![toolbox_a, toolbox_b], true, &settings(10000, 10 * 1024 * 1024))
            .unwrap();

    assert_eq!(resolved.manifest.files_count, 4);
    let merged = materialize(&resolved.links);
    assert_eq!(merged.len(), 3);
    assert_eq!(merged.get("common_tool").unwrap(), "/tmp/t/toolbox_b/bin/common_tool");
    assert_eq!(merged.get("tool_a").unwrap(), "/tmp/t/toolbox_a/bin/tool_a");
    assert_eq!(merged.get("tool_b").unwrap(), "/tmp/t/toolbox_b/bin/tool_b");
}

#[test]
fn empty_roots_error() {
    let result = resolve_toolboxes(&vec![], false, &roomy());
    assert!(result.is_err());
    assert!(message(result).contains("no toolbox roots provided"));
}

#[test]
fn file_limit_exceeded() {
    let big = toolbox(
        "/tmp/t/big_toolbox",
        vec![
            file("tool_0", "tool 0 content"),
            file("tool_1", "tool 1 content"),
            file("tool_2", "tool 2 content"),
        ],
    );

    let result = resolve_toolboxes(&vec![big], false, &settings(2, 10 * 1024 * 1024));

    assert!(result.is_err());
    let error = result.unwrap_err();
    assert!(matches!(error, ToolboxError::FileLimit { limit: 2 }));
    assert!(error.to_string().contains("file limit exceeded"));
}

#[test]
fn file_limit_is_reached_but_not_exceeded() {
    let exact = toolbox("/tmp/t/exact", vec![file("a", "1"), file("b", "22")]);
    let resolved = resolve_toolboxes(&vec![exact], false, &settings(2, 3)).unwrap();
    assert_eq!(resolved.manifest.files_count, 2);
    assert_eq!(resolved.manifest.bytes_total, 3);
}

#[test]
fn size_limit_exceeded() {
    let big = toolbox(
        "/tmp/t/big_toolbox",
        vec![file("big_tool", "This content is definitely more than 0 bytes")],
    );

    let result = resolve_toolboxes(&vec![big], false, &settings(5000, 1));

    assert!(result.is_err());
    let error = result.unwrap_err();
    assert!(matches!(error, ToolboxError::SizeLimit { limit: 1 }));
    assert!(error.to_string().contains("size limit exceeded"));
}

#[test]
fn size_limit_counts_without_overflow() {
    let mut huge = file("huge", "");
    huge.size = u64::MAX;
    let mut more = file("more", "");
    more.size = 2;
    let root = toolbox("/tmp/t/huge", vec![more, huge]);
    let result = resolve_toolboxes(&vec![root], false, &settings(5000, u64::MAX));
    assert!(matches!(result.unwrap_err(), ToolboxError::SizeLimit { limit: u64::MAX }));
}

#[test]
fn skips_symlinks() {
    let root = toolbox(
        "/tmp/t/symlink_toolbox",
        vec![
            file("regular_tool", "regular content"),
            file("target", "target content"),
            symlink("symlink_tool", "/tmp/t/symlink_toolbox/bin/target"),
        ],
    );

    let resolved = resolve_toolboxes(&vec![root], true, &roomy()).unwrap();

    assert_eq!(resolved.manifest.files_count, 2);
    let merged = materialize(&resolved.links);
    assert!(merged.contains_key("regular_tool"));
    assert!(merged.contains_key("target"));
    assert!(!merged.contains_key("symlink_tool"));
}

#[test]
fn guard_cleanup() {
    let root = toolbox("/tmp/t/cleanup_test", vec![file("test_tool", "test content")]);

    let mut resolved = resolve_toolboxes(&vec![root.clone()], false, &roomy()).unwrap();
    let dir = resolved.root.clone();
    let guard = resolved.take_guard().unwrap();
    assert!(resolved.take_guard().is_none());
    assert_eq!(guard.root(), &dir);
    assert!(!guard.keep());
    assert_eq!(guard.release(), Some(dir));

    let mut kept = resolve_toolboxes(&vec![root], true, &roomy()).unwrap();
    let guard = kept.take_guard().unwrap();
    assert!(guard.keep());
    assert_eq!(guard.release(), None);
}

#[test]
fn guard_made_by_hand() {
    let guard = ToolboxGuard::new("/x/y".to_string(), false);
    assert_eq!(guard.root(), "/x/y");
    assert_eq!(guard.release(), Some("/x/y".to_string()));
}

#[test]
fn deterministic_hash() {
    let root = toolbox("/tmp/t/hash_test", vec![file("tool", "content")]);

    let resolved1 = resolve_toolboxes(&vec![root.clone()], true, &roomy()).unwrap();
    let resolved2 = resolve_toolboxes(&vec![root.clone()], true, &roomy()).unwrap();
    assert_eq!(resolved1.root, resolved2.root);

    let mut other_content = root.clone();
    other_content.bin = Some(vec![file("other", "other content")]);
    let resolved3 = resolve_toolboxes(&vec![other_content], true, &roomy()).unwrap();
    assert_eq!(resolved1.root, resolved3.root);

    let mut touched = root.clone();
    touched.modified_ms = Some(1_700_000_000_001);
    let resolved4 = resolve_toolboxes(&vec![touched], true, &roomy()).unwrap();
    assert_ne!(resolved1.root, resolved4.root);
}

#[test]
fn digest_is_the_start_of_the_blake3_hash() {
    let a = ToolboxRoot {
        path: "/tmp/t/a".to_string(),
        len: Some(4096),
        modified_ms: Some(1_700_000_000_123),
        bin: None,
    };
    let b = ToolboxRoot { path: "/tmp/t/b\u{e9}".to_string(), len: Some(7), modified_ms: None, bin: None };
    let c = ToolboxRoot { path: "/tmp/t/c".to_string(), len: None, modified_ms: Some(5), bin: None };

    let mut hasher = blake3::Hasher::new();
    hasher.update("/tmp/t/a".as_bytes());
    hasher.update(&4096u64.to_le_bytes());
    hasher.update(&1_700_000_000_123u128.to_le_bytes());
    hasher.update("/tmp/t/b\u{e9}".as_bytes());
    hasher.update(&7u64.to_le_bytes());
    hasher.update("/tmp/t/c".as_bytes());
    let expected: String = hasher.finalize().to_hex().chars().take(16).collect();

    let digest = runtime_digest(&vec![a, b, c]);
    assert_eq!(digest.len(), 16);
    assert_eq!(digest, expected);
}

#[test]
fn runtime_directory_layout() {
    let root = toolbox("/tmp/t/layout", vec![file("nested/deep/tool", "x")]);
    let digest = runtime_digest(&vec![root.clone()]);
    let resolved = resolve_toolboxes(&vec![root], false, &roomy()).unwrap();
    assert_eq!(digest.len(), 16);
    assert!(digest.chars().all(|c| c.is_ascii_digit() || ('a'..='f').contains(&c)));
    assert_eq!(resolved.root, format!("/home/u/.amp-orchestra/runtime_toolboxes/{}", digest));
    assert_eq!(resolved.bin, format!("{}/bin", resolved.root));
    assert_eq!(resolved.links.len(), 1);
    assert_eq!(resolved.links[0].root_index, 0);
    assert_eq!(resolved.links[0].source, "/tmp/t/layout/bin/nested/deep/tool");
    assert_eq!(resolved.links[0].rel, "nested/deep/tool");
    assert_eq!(resolved.links[0].destination, format!("{}/nested/deep/tool", resolved.bin));
}

#[test]
fn hex_of_bytes() {
    assert_eq!(hex_string(&vec![0x00, 0x0f, 0xa5, 0xff], 4), "000fa5ff");
    assert_eq!(hex_string(&vec![0xde, 0xad, 0xbe, 0xef], 2), "dead");
    assert_eq!(hex_string(&vec![], 0), "");
}

#[test]
fn manifest_metadata() {
    let toolbox_a = toolbox("/tmp/t/meta_test_a", vec![file("tool_a", "content a")]);
    let toolbox_b = toolbox("/tmp/t/meta_test_b", vec![file("tool_b", "content b")]);

    let resolved = resolve_toolboxes(&vec![toolbox_a, toolbox_b], true, &roomy()).unwrap();

    assert_eq!(resolved.manifest.files_count, 2);
    assert_eq!(resolved.manifest.sources.len(), 2);
    assert!(resolved.manifest.sources.contains(&"/tmp/t/meta_test_a".to_string()));
    assert!(resolved.manifest.sources.contains(&"/tmp/t/meta_test_b".to_string()));
    assert_eq!(resolved.manifest.bin_entries.len(), 2);
    assert_eq!(resolved.manifest.bin_entries[0], "0:/tmp/t/meta_test_a:tool_a");
    assert_eq!(resolved.manifest.bin_entries[1], "1:/tmp/t/meta_test_b:tool_b");
    assert_eq!(resolved.manifest.bytes_total, 18);
    assert!(!resolved.manifest.copy_mode);
}

#[test]
fn root_without_bin_is_skipped() {
    let bare = ToolboxRoot { path: "/tmp/t/bare".to_string(), len: Some(1), modified_ms: None, bin: None };
    let full = toolbox("/tmp/t/full", vec![file("tool", "x")]);
    let resolved = resolve_toolboxes(&vec![bare, full], false, &roomy()).unwrap();
    assert_eq!(resolved.manifest.files_count, 1);
    assert_eq!(resolved.manifest.sources, vec!["/tmp/t/bare", "/tmp/t/full"]);
    assert_eq!(resolved.manifest.bin_entries, vec!["1:/tmp/t/full:tool"]);
}

#[test]
fn blocks_absolute_path_traversal() {
    let evil = toolbox("/tmp/t/evil_toolbox", vec![symlink("evil_tool", "/tmp/t/etc_passwd")]);

    let result = resolve_toolboxes(&vec![evil], false, &roomy());
    assert!(result.is_err());
    let error = result.unwrap_err();
    assert!(error.to_string().contains("symlink target escapes toolbox root"));
    match error {
        ToolboxError::SymlinkEscape { symlink, target, root } => {
            assert_eq!(symlink, "/tmp/t/evil_toolbox/bin/evil_tool");
            assert_eq!(target, "/tmp/t/etc_passwd");
            assert_eq!(root, "/tmp/t/evil_toolbox");
        }
        other => panic!("unexpected error {:?}", other),
    }
}

#[test]
fn blocks_relative_path_traversal() {
    // bin/evil_tool -> ../../secret_file, which the file system resolves to
    // a sibling of the toolbox.
    let evil = toolbox("/tmp/t/evil_toolbox", vec![symlink("evil_tool", "/tmp/t/secret_file")]);
    let error_msg = message(resolve_toolboxes(&vec![evil], false, &roomy()));
    assert!(error_msg.contains("symlink target escapes toolbox root"));
}

#[test]
fn blocks_complex_path_traversal() {
    let evil = toolbox(
        "/tmp/t/evil_toolbox",
        vec![dir("subdir"), symlink("subdir/evil_tool", "/tmp/t/sensitive")],
    );
    let error_msg = message(resolve_toolboxes(&vec![evil], false, &roomy()));
    assert!(error_msg.contains("symlink target escapes toolbox root"));
    assert!(error_msg.contains("/tmp/t/evil_toolbox/bin/subdir/evil_tool"));
    assert!(error_msg.contains("/tmp/t/sensitive"));
}

#[test]
fn blocks_sibling_with_the_root_as_prefix_of_its_name() {
    let evil = toolbox("/tmp/t/box", vec![symlink("tool", "/tmp/t/box-evil/tool")]);
    assert!(matches!(
        resolve_toolboxes(&vec![evil], false, &roomy()).unwrap_err(),
        ToolboxError::SymlinkEscape { .. }
    ));
}

#[test]
fn allows_safe_internal_symlinks() {
    let safe = toolbox(
        "/tmp/t/safe_toolbox",
        vec![
            file("real_tool", "#!/bin/bash\necho safe"),
            symlink("alias_tool", "/tmp/t/safe_toolbox/bin/real_tool"),
        ],
    );

    let result = resolve_toolboxes(&vec![safe], true, &roomy());
    assert!(result.is_ok());
    let resolved = result.unwrap();

    assert_eq!(resolved.manifest.files_count, 1);
    let merged = materialize(&resolved.links);
    assert!(merged.contains_key("real_tool"));
    assert!(!merged.contains_key("alias_tool"));
}

#[test]
fn blocks_symlink_chain_attack() {
    let chain = toolbox("/tmp/t/chain_toolbox", vec![symlink("intermediate", "/tmp/t/external_secret")]);
    let error_msg = message(resolve_toolboxes(&vec![chain], false, &roomy()));
    assert!(error_msg.contains("symlink target escapes toolbox root"));
}

#[test]
fn handles_broken_symlinks_gracefully() {
    let broken = toolbox(
        "/tmp/t/broken_toolbox",
        vec![broken_symlink(
            "broken_tool",
            "failed to canonicalize symlink target \"/tmp/t/broken_toolbox/bin/nonexistent_file\": No such file or directory (os error 2)",
        )],
    );

    let result = resolve_toolboxes(&vec![broken], false, &roomy());
    assert!(result.is_err());
    let error = result.unwrap_err();
    assert!(matches!(error, ToolboxError::Io { .. }));
    assert!(error.to_string().contains("failed to canonicalize"));
}

#[test]
fn validates_all_symlinks_in_nested_dirs() {
    let nested = toolbox(
        "/tmp/t/nested_toolbox",
        vec![
            file("good_tool", "good content"),
            dir("nested"),
            dir("nested/deep"),
            symlink("nested/deep/evil_tool", "/tmp/t/external"),
        ],
    );
    let error_msg = message(resolve_toolboxes(&vec![nested], false, &roomy()));
    assert!(error_msg.contains("symlink target escapes toolbox root"));
}

#[test]
fn symlinks_are_checked_before_any_file_of_the_root_counts() {
    // The limit would trip on the first file, but the escaping symlink that
    // follows it is found first.
    let root = toolbox(
        "/tmp/t/order",
        vec![file("a", "1"), symlink("evil", "/etc/passwd")],
    );
    let result = resolve_toolboxes(&vec![root], false, &settings(0, 10));
    assert!(matches!(result.unwrap_err(), ToolboxError::SymlinkEscape { .. }));
}

#[test]
fn an_earlier_root_fails_first() {
    let first = toolbox("/tmp/t/first", vec![file("a", "1"), file("b", "2")]);
    let second = toolbox("/tmp/t/second", vec![symlink("evil", "/etc/passwd")]);
    let result = resolve_toolboxes(&vec![first, second], false, &settings(1, 10));
    assert!(matches!(result.unwrap_err(), ToolboxError::FileLimit { limit: 1 }));
}

#[test]
fn unreadable_entries_fail_the_check_and_unread_files_the_merge() {
    let unreadable = WalkEntry {
        rel: String::new(),
        kind: EntryKind::Unreadable,
        size: 0,
        target: None,
        fault: Some("walkdir error in \"/tmp/t/u/bin\": permission denied".to_string()),
    };
    let root = toolbox("/tmp/t/u", vec![unreadable]);
    let error = resolve_toolboxes(&vec![root], false, &roomy()).unwrap_err();
    assert_eq!(error.to_string(), "walkdir error in \"/tmp/t/u/bin\": permission denied");

    let mut unread = file("tool", "x");
    unread.fault = Some("metadata: permission denied".to_string());
    let root = toolbox("/tmp/t/u", vec![unread]);
    let error = resolve_toolboxes(&vec![root], false, &roomy()).unwrap_err();
    assert_eq!(error.to_string(), "metadata: permission denied");
}

#[test]
fn symlink_checks_one_by_one() {
    assert!(validate_symlink_security("/r/bin/l", "/r/bin/x", "/r").is_ok());
    assert!(validate_symlink_security("/r/bin/l", "/r", "/r").is_ok());
    assert!(validate_symlink_security("/r/bin/l", "/rr/x", "/r").is_err());
    assert!(validate_symlink_security("/r/bin/l", "/", "/r").is_err());
    assert!(validate_symlink_security("/r/bin/l", "/anything", "/").is_ok());
    assert!(validate_symlink_security("/r/bin/l", "r/bin/x", "/r").is_err());

    let entries = vec![file("a", "1"), symlink("ok", "/r/bin/a"), symlink("bad", "/s/a")];
    let error = validate_directory_symlinks("/r", &entries).unwrap_err();
    assert_eq!(
        error.to_string(),
        "symlink target escapes toolbox root: \"/r/bin/bad\" -> \"/s/a\" (root: \"/r\")"
    );
    assert!(validate_directory_symlinks("/r", &entries[..2].to_vec()).is_ok());
}

#[test]
fn security_limits_are_tighter() {
    let (max_files, max_bytes) = limits(None, None, None);
    assert_eq!(max_files, 5_000u64);
    assert_eq!(max_bytes, 250u64 * 1024 * 1024);
}

#[test]
fn limits_from_configuration() {
    assert_eq!(limits(Some("2"), None, Some("10")), (2, 10 * 1024 * 1024));
    assert_eq!(limits(None, Some("1"), Some("10")), (5000, 1));
    assert_eq!(limits(Some("many"), Some("-1"), Some("")), (5000, 250 * 1024 * 1024));
    assert_eq!(limits(Some("+7"), Some("007"), None), (7, 7));
    assert_eq!(limits(Some(" 7"), None, Some("1.5")), (5000, 250 * 1024 * 1024));
    assert_eq!(limits(Some("18446744073709551615"), Some("18446744073709551616"), Some("1")), (u64::MAX, 1024 * 1024));
    assert!(limits_fit(None, Some("17592186044415")));
    assert!(!limits_fit(None, Some("17592186044416")));
    assert!(limits_fit(Some("5"), Some("17592186044416")));
    assert_eq!(limits(None, None, Some("17592186044415")).1, 17592186044415 * 1024 * 1024);
}

#[test]
fn link_methods() {
    assert_eq!(link_or_copy_file(false, Platform::Unix), LinkMethod::Symlink);
    assert_eq!(link_or_copy_file(false, Platform::Windows), LinkMethod::Copy);
    assert_eq!(link_or_copy_file(false, Platform::Other), LinkMethod::Copy);
    assert_eq!(link_or_copy_file(true, Platform::Unix), LinkMethod::Copy);
    assert_eq!(link_or_copy_file(true, Platform::Windows), LinkMethod::HardLinkThenCopy);
    assert_eq!(link_or_copy_file(true, Platform::Other), LinkMethod::Copy);
    assert!(copy_mode(Platform::Windows, true));
    assert!(!copy_mode(Platform::Windows, false));
    assert!(!copy_mode(Platform::Unix, true));
    assert!(!copy_mode(Platform::Other, true));
}

#[test]
fn copy_mode_is_recorded() {
    let root = toolbox("/tmp/t/copy", vec![file("tool", "x")]);
    let mut copying = roomy();
    copying.copy_mode = true;
    let resolved = resolve_toolboxes(&vec![root], false, &copying).unwrap();
    assert!(resolved.manifest.copy_mode);
}

#[test]
fn only_the_exceeded_limit_is_reported() {
    let root = toolbox("/tmp/t/both", vec![file("a", "1234"), file("b", "5678")]);
    let files_only = resolve_toolboxes(&vec![root.clone()], false, &settings(1, 8));
    assert!(matches!(files_only.unwrap_err(), ToolboxError::FileLimit { limit: 1 }));
    let bytes_only = resolve_toolboxes(&vec![root.clone()], false, &settings(2, 7));
    assert!(matches!(bytes_only.unwrap_err(), ToolboxError::SizeLimit { limit: 7 }));
    let bytes_first = resolve_toolboxes(&vec![root], false, &settings(1, 3));
    assert!(matches!(bytes_first.unwrap_err(), ToolboxError::SizeLimit { limit: 3 }));
}
