use microbox::duration::Duration;
use microbox::errors::{PolicyError, SandboxError};
use microbox::glob::{matches_glob, matches_glob_any};
use microbox::grants::parse_allow_fs_entry;
use microbox::launch::HostOs;
use microbox::layers::{
    ConfigFile, ConfigSource, EnvironmentConfig, FilesystemConfig, NetworkConfig, PolicyOverrides,
    PolicySpec, SandboxConfig,
};
use microbox::levels::{IsolationLevel, PresetKind};
use microbox::lists::{list_holds, without_repetitions, Sameness};
use microbox::paths::{
    has_one_part, is_absolute, join_path, keep_present, parent, path_components, path_covers,
    paths_equal, PathKind,
};
use microbox::policy::{resolve_policy, ResolvedPolicy};

fn strings(list: &[&str]) -> Vec<String> {
    list.iter().map(|s| s.to_string()).collect()
}

fn open_policy() -> ResolvedPolicy {
    ResolvedPolicy {
        working_dir: ".".to_string(),
        level: IsolationLevel::Safe,
        allow_net: vec!["api.openai.com:443".to_string()],
        network_deny_all_other: true,
        filesystem_writable: Vec::new(),
        filesystem_readonly: Vec::new(),
        filesystem_deny: Vec::new(),
        env_passthrough: Vec::new(),
        env_deny: Vec::new(),
        max_cpu: 1,
        max_ram_bytes: 1024,
        max_disk_bytes: 1024,
        timeout: Duration::from_secs(1),
    }
}

#[test]
fn resolves_ai_agent_preset() {
    let preset = PresetKind::AiAgent.default_spec("/tmp");
    assert!(preset
        .allow_net
        .as_ref()
        .unwrap()
        .contains(&"api.openai.com:443".to_string()));
}

#[test]
fn parses_allow_fs_entries() {
    let (writable, readonly) = parse_allow_fs_entry("/tmp:rw,/data:ro").unwrap();
    assert_eq!(writable.len(), 1);
    assert_eq!(readonly.len(), 1);
}

#[test]
fn allow_fs_entries_take_every_mode() {
    let (writable, readonly) =
        parse_allow_fs_entry(" a , b:WRITE, c : Writable ,, d:read, e:readonly,f:read-only,C:\\x:rw")
            .unwrap();
    assert_eq!(writable, strings(&["a", "b", "c", "C:\\x"]));
    assert_eq!(readonly, strings(&["d", "e", "f"]));
}

#[test]
fn allow_fs_entries_refuse_unknown_modes() {
    match parse_allow_fs_entry("/tmp:rw,/data: RX ,/x:yz") {
        Err(PolicyError::InvalidFilesystemAllowSpec(mode)) => assert_eq!(mode, "rx"),
        other => panic!("unexpected {other:?}"),
    }
}

#[test]
fn glob_matching_is_reasonable() {
    assert!(matches_glob("AWS_SECRET_*", "AWS_SECRET_KEY"));
    assert!(matches_glob("*TOKEN*", "OPENAI_TOKEN"));
    assert!(!matches_glob("NODE_ENV", "DATABASE_URL"));
}

#[test]
fn glob_edges() {
    assert!(matches_glob("*", ""));
    assert!(matches_glob("  node_env ", "NODE_ENV"));
    assert!(!matches_glob("aws_*", "AWS_KEY"));
    assert!(matches_glob("A*B*C", "AxBxC"));
    assert!(!matches_glob("A*B*C", "AxBxCx"));
    assert!(!matches_glob("a*a", "a"));
    assert!(matches_glob("*b", "abab"));
    assert!(matches_glob("ab*", "ab"));
    assert!(!matches_glob("", "x"));
    assert!(matches_glob_any("DATABASE_URL", &strings(&["X", "DATABASE_*"])));
    assert!(!matches_glob_any("DATABASE_URL", &strings(&[])));
}

#[test]
fn rejects_open_network_without_allowlist() {
    let policy = ResolvedPolicy {
        working_dir: ".".to_string(),
        level: IsolationLevel::Safe,
        allow_net: Vec::new(),
        network_deny_all_other: false,
        filesystem_writable: Vec::new(),
        filesystem_readonly: Vec::new(),
        filesystem_deny: Vec::new(),
        env_passthrough: Vec::new(),
        env_deny: Vec::new(),
        max_cpu: 1,
        max_ram_bytes: 1024,
        max_disk_bytes: 1024,
        timeout: Duration::from_secs(1),
    };

    let err = policy.validate(HostOs::Linux).unwrap_err();
    assert!(err.message().contains("open network"));
}

#[test]
fn rejects_unsupported_config_version() {
    let parsed = ConfigFile { version: Some(2), ..ConfigFile::default() };
    let err = ConfigFile::load("microbox.toml", ConfigSource::Parsed(parsed)).unwrap_err();
    assert!(err.message().contains("unsupported config version"));
    assert_eq!(err.message(), "failed to parse config file: unsupported config version: 2");
}

#[test]
fn config_errors_are_told() {
    let err = ConfigFile::load("x.toml", ConfigSource::Unreadable("gone".to_string())).unwrap_err();
    assert_eq!(err.message(), "failed to read config file x.toml: gone");
    let err = ConfigFile::load("x.toml", ConfigSource::Malformed("bad".to_string())).unwrap_err();
    assert_eq!(err.message(), "failed to parse config file: bad");
    for version in [None, Some(1)] {
        let parsed = ConfigFile { version, ..ConfigFile::default() };
        assert!(ConfigFile::load("x.toml", ConfigSource::Parsed(parsed)).is_ok());
    }
}

#[test]
fn defaults_workspace_to_writable() {
    let policy =
        ResolvedPolicy::from_spec(HostOs::Linux, "/workspace", "/tmp", PolicySpec::default()).unwrap();

    assert!(policy.filesystem_writable.contains(&"/workspace".to_string()));
    assert!(policy.filesystem_writable.contains(&"/tmp".to_string()));
    assert!(policy.filesystem_readonly.is_empty());
}

#[test]
fn every_level_has_limits() {
    for (level, ram, disk, time) in [
        (IsolationLevel::Fast, 268_435_456u64, 536_870_912u64, 60u64),
        (IsolationLevel::Safe, 536_870_912, 1_073_741_824, 300),
        (IsolationLevel::Paranoid, 268_435_456, 536_870_912, 300),
    ] {
        let spec = PolicySpec { level: Some(level), ..PolicySpec::default() };
        let policy = ResolvedPolicy::from_spec(HostOs::Linux, "/w", "/tmp", spec).unwrap();
        assert_eq!(policy.max_cpu, 1);
        assert_eq!(policy.max_ram_bytes, ram);
        assert_eq!(policy.max_disk_bytes, disk);
        assert_eq!(policy.timeout, Duration::from_secs(time));
        assert_eq!(policy.env_passthrough[0], "PATH");
        assert_eq!(policy.env_passthrough.len(), 11);
    }
}

#[test]
fn rejects_conflicting_filesystem_rules() {
    let policy = ResolvedPolicy {
        working_dir: ".".to_string(),
        level: IsolationLevel::Safe,
        allow_net: vec!["api.openai.com:443".to_string()],
        network_deny_all_other: true,
        filesystem_writable: vec!["/workspace".to_string()],
        filesystem_readonly: vec!["/workspace".to_string()],
        filesystem_deny: vec![],
        env_passthrough: vec![],
        env_deny: vec![],
        max_cpu: 1,
        max_ram_bytes: 1024,
        max_disk_bytes: 1024,
        timeout: Duration::from_secs(1),
    };

    let err = policy.validate(HostOs::Linux).unwrap_err();
    assert!(err.message().contains("conflicts"));
}

#[test]
fn every_rule_is_told() {
    let text = |policy: &ResolvedPolicy| policy.validate(HostOs::Linux).unwrap_err().message();
    let prefix = "invalid policy configuration: ";
    let mut p = open_policy();
    assert!(p.validate(HostOs::Linux).is_ok());
    p.max_cpu = 0;
    assert_eq!(text(&p), format!("{prefix}max_cpu must be greater than zero"));
    p = open_policy();
    p.max_ram_bytes = 0;
    assert_eq!(text(&p), format!("{prefix}max_ram must be greater than zero"));
    p = open_policy();
    p.max_disk_bytes = 0;
    assert_eq!(text(&p), format!("{prefix}max_disk must be greater than zero"));
    p = open_policy();
    p.timeout = Duration::from_secs(0);
    assert_eq!(text(&p), format!("{prefix}timeout must be greater than zero"));
    p = open_policy();
    p.working_dir = "/w".to_string();
    p.filesystem_writable = strings(&["a", "./b/", "c"]);
    p.filesystem_deny = strings(&["/w/b", "/w//a"]);
    assert_eq!(
        text(&p),
        format!("{prefix}filesystem writable conflicts with filesystem deny for: /w/a, /w/./b/")
    );
    p = open_policy();
    p.filesystem_readonly = strings(&["/x"]);
    p.filesystem_deny = strings(&["/x"]);
    assert_eq!(
        text(&p),
        format!("{prefix}filesystem readonly conflicts with filesystem deny for: /x")
    );
}

#[test]
fn layers_stack_with_the_command_line_on_top() {
    let config = ConfigFile {
        version: Some(1),
        sandbox: Some(SandboxConfig {
            level: Some(IsolationLevel::Fast),
            timeout: Some("9s".to_string()),
            max_cpu: Some(4),
            max_ram: None,
            max_disk: Some("3g".to_string()),
        }),
        network: Some(NetworkConfig {
            allow: Some(strings(&["example.com:80", "api.openai.com:443"])),
            deny_all_other: None,
        }),
        filesystem: Some(FilesystemConfig {
            writable: Some(strings(&["./", "/srv"])),
            readonly: None,
            deny: Some(strings(&["/proc/"])),
        }),
        environment: Some(EnvironmentConfig {
            passthrough: Some(strings(&["EDITOR"])),
            deny: None,
        }),
    };
    let overrides = PolicyOverrides {
        max_cpu: Some(8),
        ..PolicyOverrides::default()
    };
    let policy =
        resolve_policy(HostOs::Linux, "/w", "/tmp", Some(PresetKind::AiAgent), Some(config), overrides).unwrap();
    assert_eq!(policy.level, IsolationLevel::Fast);
    assert_eq!(policy.max_cpu, 8);
    assert_eq!(policy.max_ram_bytes, 1_073_741_824);
    assert_eq!(policy.max_disk_bytes, 3_221_225_472);
    assert_eq!(policy.timeout, Duration::from_secs(9));
    assert_eq!(
        policy.allow_net,
        strings(&["api.openai.com:443", "api.anthropic.com:443", "example.com:80"])
    );
    assert_eq!(policy.filesystem_writable, strings(&[".", "/tmp", "/srv"]));
    assert_eq!(policy.filesystem_deny, strings(&["/etc/passwd", "/proc", "/sys"]));
    assert_eq!(
        policy.env_passthrough,
        strings(&["OPENAI_API_KEY", "ANTHROPIC_API_KEY", "NODE_ENV", "EDITOR"])
    );
}

#[test]
fn merging_groups_as_it_likes() {
    let layer = |cpu: Option<u32>, net: &[&str], dirs: &[&str]| PolicySpec {
        max_cpu: cpu,
        allow_net: Some(strings(net)),
        filesystem_writable: Some(strings(dirs)),
        ..PolicySpec::default()
    };
    let a = || layer(Some(1), &["x", "x", "y"], &["/a", "/a/"]);
    let b = || layer(None, &["y", "z"], &["/b/./c"]);
    let c = || layer(Some(3), &["x", "w"], &["/b/c", "/a"]);
    let left = a().merge(b(), HostOs::Linux).merge(c(), HostOs::Linux);
    let right = a().merge(b().merge(c(), HostOs::Linux), HostOs::Linux);
    assert_eq!(left.max_cpu, Some(3));
    assert_eq!(left.allow_net, Some(strings(&["x", "y", "z", "w"])));
    assert_eq!(left.filesystem_writable, Some(strings(&["/a", "/b/./c"])));
    assert_eq!(left.allow_net, right.allow_net);
    assert_eq!(left.filesystem_writable, right.filesystem_writable);
    assert_eq!(left.max_cpu, right.max_cpu);
    let alone = PolicySpec::default()
        .merge(a(), HostOs::Linux)
        .merge(PolicySpec::default(), HostOs::Linux);
    assert_eq!(alone.allow_net, Some(strings(&["x", "x", "y"])));
}

#[test]
fn denied_names_are_not_passed_through() {
    let spec = PolicySpec {
        env_passthrough: Some(strings(&["HOME", "AWS_SECRET_KEY", " HOME ", "", "node_env"])),
        env_deny: Some(strings(&[" aws_* ", "AWS_*", "NODE_ENV", " "])),
        ..PolicySpec::default()
    };
    let policy = ResolvedPolicy::from_spec(HostOs::Linux, "/w", "/tmp", spec).unwrap();
    assert_eq!(policy.env_passthrough, strings(&["HOME"]));
    assert_eq!(policy.env_deny, strings(&["aws_*", "AWS_*", "NODE_ENV"]));
}

#[test]
fn the_environment_is_filtered() {
    let mut policy = open_policy();
    policy.env_passthrough = strings(&["APP_*", "HOME"]);
    policy.env_deny = strings(&["*_SECRET"]);
    let vars: Vec<(String, String)> = [
        ("HOME", "/root"),
        ("APP_NAME", "box"),
        ("APP_SECRET", "x"),
        ("OTHER", "y"),
    ]
    .iter()
    .map(|(k, v)| (k.to_string(), v.to_string()))
    .collect();
    let kept = policy.filtered_env_pairs(&vars);
    assert_eq!(kept, vec![vars[0].clone(), vars[1].clone()]);
}

#[test]
fn the_hermetic_preset_passes_nothing() {
    let config = ConfigFile {
        environment: Some(EnvironmentConfig {
            passthrough: Some(strings(&["*"])),
            deny: None,
        }),
        ..ConfigFile::default()
    };
    let policy = resolve_policy(
        HostOs::Linux,
        "/w",
        "/tmp",
        Some(PresetKind::Hermetic),
        Some(config),
        PolicyOverrides::default(),
    )
    .unwrap();
    let vars = vec![("HOME".to_string(), "/root".to_string())];
    assert!(policy.filtered_env_pairs(&vars).is_empty());
    assert!(policy.allow_net.is_empty());
}

#[test]
fn bad_limits_stop_resolution() {
    let ram = PolicySpec { max_ram: Some("lots".to_string()), ..PolicySpec::default() };
    match ResolvedPolicy::from_spec(HostOs::Linux, "/w", "/tmp", ram) {
        Err(PolicyError::InvalidSize(text)) => assert_eq!(text, "lots"),
        other => panic!("unexpected {other:?}"),
    }
    let disk = PolicySpec { max_disk: Some("".to_string()), ..PolicySpec::default() };
    assert!(matches!(
        ResolvedPolicy::from_spec(HostOs::Linux, "/w", "/tmp", disk),
        Err(PolicyError::InvalidSize(_))
    ));
    let time = PolicySpec { timeout: Some("soon".to_string()), ..PolicySpec::default() };
    assert!(matches!(
        ResolvedPolicy::from_spec(HostOs::Linux, "/w", "/tmp", time),
        Err(PolicyError::InvalidDuration(_))
    ));
    let proc_dir = resolve_policy(
        HostOs::Linux,
        "/proc",
        "/tmp",
        Some(PresetKind::WebServer),
        None,
        PolicyOverrides::default(),
    );
    assert!(proc_dir.unwrap_err().message().contains("conflicts"));
}

#[test]
fn the_summary_tells_the_policy() {
    let spec = PolicySpec {
        allow_net: Some(strings(&[" a:1 ", "b:2", "a:1"])),
        ..PresetKind::WebServer.default_spec("/tmp")
    };
    let policy = ResolvedPolicy::from_spec(HostOs::Linux, "/w", "/tmp", spec).unwrap();
    assert_eq!(
        policy.summary_lines(),
        strings(&[
            "level = safe",
            "allow_net = [a:1, b:2]",
            "deny_all_other = true",
            "fs_writable = [., /tmp]",
            "fs_readonly = []",
            "env_passthrough = [NODE_ENV]",
            "max_cpu = 2",
            "max_ram = 1g",
            "max_disk = 2g",
            "timeout = 30m",
        ])
    );
}

#[test]
fn names_of_levels_and_presets_read_back() {
    for level in [IsolationLevel::Fast, IsolationLevel::Safe, IsolationLevel::Paranoid] {
        assert_eq!(IsolationLevel::from_str(level.label()).unwrap(), level);
    }
    for preset in [PresetKind::AiAgent, PresetKind::WebServer, PresetKind::Hermetic] {
        assert_eq!(PresetKind::from_str(preset.label()).unwrap(), preset);
    }
    assert_eq!(PresetKind::from_str(" AGENT ").unwrap(), PresetKind::AiAgent);
    assert_eq!(PresetKind::from_str("webserver").unwrap(), PresetKind::WebServer);
    assert_eq!(
        IsolationLevel::from_str(" Mild").unwrap_err().message(),
        "invalid isolation level: mild"
    );
    assert_eq!(PresetKind::from_str("X").unwrap_err().message(), "invalid preset: x");
    assert_eq!(IsolationLevel::default(), IsolationLevel::Safe);
}

#[test]
fn sandbox_errors_are_told() {
    assert_eq!(SandboxError::EmptyCommand.message(), "empty command");
    assert_eq!(SandboxError::LaunchFailed("x".to_string()).message(), "launch failed: x");
    assert_eq!(
        SandboxError::BackendUnavailable("x".to_string()).message(),
        "backend unavailable: x"
    );
    assert_eq!(SandboxError::Policy("x".to_string()).message(), "policy error: x");
    assert_eq!(SandboxError::Io("x".to_string()).message(), "io error: x");
    assert_eq!(SandboxError::TimedOut.message(), "timed out");
}

#[test]
fn paths_follow_their_components() {
    assert!(is_absolute(HostOs::Linux, "/a"));
    assert!(!is_absolute(HostOs::Linux, "a"));
    assert_eq!(join_path(HostOs::Linux, "/a", "b"), "/a/b");
    assert_eq!(join_path(HostOs::Linux, "/a/", "b"), "/a/b");
    assert_eq!(join_path(HostOs::Linux, "", "b"), "b");
    assert_eq!(join_path(HostOs::Linux, "/a", "/b"), "/b");
    assert_eq!(join_path(HostOs::Linux, "/a", ""), "/a/");
    assert!(paths_equal(HostOs::Linux, "/a//b/", "/a/./b"));
    assert!(!paths_equal(HostOs::Linux, "./a", "a"));
    assert!(!paths_equal(HostOs::Linux, "/a", "a"));
    assert!(paths_equal(HostOs::Linux, "a/.", "a"));
    assert!(!paths_equal(HostOs::Linux, "a/..", "a"));
}

#[test]
fn parents_drop_the_last_component() {
    assert_eq!(parent("/a/b/").as_deref(), Some("/a"));
    assert_eq!(parent("/a").as_deref(), Some("/"));
    assert_eq!(parent("a//b").as_deref(), Some("a"));
    assert_eq!(parent("a/./b").as_deref(), Some("a"));
    assert_eq!(parent("./a").as_deref(), Some("."));
    assert_eq!(parent("a").as_deref(), Some(""));
    assert_eq!(parent(".").as_deref(), Some(""));
    assert_eq!(parent("//a").as_deref(), Some("/"));
    assert_eq!(parent("/"), None);
    assert_eq!(parent("/."), None);
    assert_eq!(parent(""), None);
}

#[test]
fn lists_keep_first_occurrences() {
    let list = strings(&["b", "a", "b", "a/", "./a"]);
    assert_eq!(without_repetitions(Sameness::Text, &list), strings(&["b", "a", "a/", "./a"]));
    assert_eq!(without_repetitions(Sameness::Path(HostOs::Linux), &list), strings(&["b", "a", "./a"]));
    assert!(list_holds(Sameness::Path(HostOs::Linux), &list, "a/."));
    assert!(!list_holds(Sameness::Text, &list, "a/."));
}

#[test]
fn paths_follow_the_rules_of_windows() {
    let os = HostOs::Windows;
    assert!(is_absolute(os, "C:\\a"));
    assert!(is_absolute(os, "c:/a"));
    assert!(is_absolute(os, "\\\\server\\share"));
    assert!(!is_absolute(os, "\\a"));
    assert!(!is_absolute(os, "C:a"));
    assert!(!is_absolute(os, "/a"));
    assert_eq!(join_path(os, "C:\\w", "data"), "C:\\w\\data");
    assert_eq!(join_path(os, "C:\\w\\", "data"), "C:\\w\\data");
    assert_eq!(join_path(os, "C:\\w", "D:\\x"), "D:\\x");
    assert_eq!(join_path(os, "C:\\w", "D:x"), "D:x");
    assert_eq!(join_path(os, "C:\\w", "\\x"), "C:\\x");
    assert_eq!(join_path(os, "C:", "x"), "C:x");
    assert_eq!(join_path(os, "\\\\s\\v\\w", "/x"), "\\\\s\\v/x");
    assert!(paths_equal(os, "c:\\a/b\\", "C:/a\\.\\b"));
    assert!(!paths_equal(os, "C:a", "C:\\a"));
    assert!(!paths_equal(os, "C:\\a", "D:\\a"));
    assert!(paths_equal(os, "//s/v/x", "\\\\s\\v\\x"));
    assert!(!paths_equal(HostOs::Linux, "a\\b", "a/b"));
    assert_eq!(path_components(os, "C:\\a\\b"), strings(&["a", "b"]));
    assert_eq!(path_components(HostOs::Linux, "C:\\a\\b"), strings(&["C:\\a\\b"]));
    assert!(has_one_part(os, "tool"));
    assert!(!has_one_part(os, "C:tool"));
    assert!(!has_one_part(os, "\\tool"));
    assert!(!has_one_part(os, "a\\tool"));
    assert!(has_one_part(HostOs::Linux, "a\\tool"));
}

#[test]
fn conflicts_are_found_by_the_rules_of_the_system() {
    let mut p = open_policy();
    p.allow_net = strings(&["a:1"]);
    p.working_dir = "C:\\w".to_string();
    p.filesystem_writable = strings(&["data"]);
    p.filesystem_readonly = vec![];
    p.filesystem_deny = strings(&["C:\\w\\data"]);
    assert_eq!(
        p.validate(HostOs::Windows).unwrap_err().message(),
        "invalid policy configuration: filesystem writable conflicts with filesystem deny for: C:\\w\\data"
    );
    assert!(p.validate(HostOs::Linux).is_ok());
}

#[test]
fn paths_cover_what_lies_below() {
    let os = HostOs::Linux;
    assert!(path_covers(os, "/", "/etc"));
    assert!(path_covers(os, "/etc", "/etc/"));
    assert!(path_covers(os, "/etc", "/etc/hosts"));
    assert!(path_covers(os, "/w/../etc", "/etc/hosts"));
    assert!(path_covers(os, "/w/.", "/w/a"));
    assert!(!path_covers(os, "/etc", "/etcetera"));
    assert!(!path_covers(os, "/etc/hosts", "/etc"));
    assert!(!path_covers(os, "etc", "/etc"));
    let paths = strings(&["/a", "/b", "/c"]);
    let kinds = vec![PathKind::File, PathKind::Missing, PathKind::Directory];
    assert_eq!(keep_present(&paths, &kinds), strings(&["/a", "/c"]));
}

#[test]
fn verbatim_paths_are_taken_as_they_stand() {
    let os = HostOs::Windows;
    let same = |a: &str, b: &str| paths_equal(os, a, b);
    assert!(same(r"\\?\C:\a\b", r"\\?\c:\a\\b\"));
    assert!(!same(r"\\?\C:\a\b", r"\\?\C:\a/b"));
    assert!(!same(r"\\?\C:\a\.\b", r"\\?\C:\a\b"));
    assert!(!same(r"\\?\C:\a", r"C:\a"));
    assert!(!same(r"\\?\C:\a", r"\\?\D:\a"));
    assert!(!same(r"\\?\C:", r"\\?\C:\"));
    assert!(!same(r"\\?\a\x", r"\\?\A\x"));
    assert!(!same(r"\\?\C:\a", "//?/C:/a"));
    assert!(same(r"\\?\UNC\s\v\x", r"\\?\UNC\s\v\\x"));
    assert!(!same(r"\\?\UNC\s\v\x", r"\\s\v\x"));
    assert!(same("//s/v", r"\\s\v\"));
    assert!(same(r"\\.\COM42", "//./COM42"));
    assert_eq!(path_components(os, r"\\?\C:\a/b\.\..\c"), strings(&["a/b", ".", "..", "c"]));
    assert_eq!(path_components(os, r"\\?\C:/x"), strings(&["x"]));
    assert_eq!(path_components(os, r"\\?\UNC\s\v\x\y"), strings(&["x", "y"]));
    for path in [r"\\?\C:\a", r"\\?\C:", r"\\?\name", r"\\?\UNC\s\v", r"\\.\COM1", r"\\s\v"] {
        assert!(is_absolute(os, path));
    }
    assert!(!is_absolute(os, r"\\s"));
    assert!(!is_absolute(HostOs::Linux, r"\\?\C:\a"));
}

#[test]
fn joins_onto_verbatim_paths_drop_the_dots() {
    let os = HostOs::Windows;
    let join = |base: &str, path: &str| join_path(os, base, path);
    assert_eq!(join(r"\\?\C:\w", "data"), r"\\?\C:\w\data");
    assert_eq!(join(r"\\?\C:\w", "a/./b"), r"\\?\C:\w\a\b");
    assert_eq!(join(r"\\?\C:\w\x", r"..\y"), r"\\?\C:\w\y");
    assert_eq!(join(r"\\?\C:\w", r"..\..\.."), r"\\?\C:\");
    assert_eq!(join(r"\\?\C:\w", r"\x"), r"\\?\C:\x");
    assert_eq!(join(r"\\?\C:", "x"), r"\\?\C:\x");
    assert_eq!(join(r"\\?\C:\w", "."), r"\\?\C:\w");
    assert_eq!(join(r"\\?\C:\w", ""), r"\\?\C:\w\");
    assert_eq!(join(r"\\?\C:\w", r"D:\x"), r"D:\x");
    assert_eq!(join(r"C:\w", r"\\?\D:\x"), r"\\?\D:\x");
}

#[test]
fn verbatim_paths_conflict_only_where_they_are_the_same() {
    let mut p = open_policy();
    p.allow_net = strings(&["a:1"]);
    p.working_dir = r"C:\w".to_string();
    p.filesystem_writable = strings(&[r"\\?\C:\w\a/b"]);
    p.filesystem_readonly = vec![];
    p.filesystem_deny = strings(&[r"\\?\C:\w\a\b"]);
    assert!(p.validate(HostOs::Windows).is_ok());
    p.filesystem_deny = strings(&[r"\\?\c:\w\a/b"]);
    assert!(p.validate(HostOs::Windows).is_err());
}
