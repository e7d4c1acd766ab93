use microbox::args::{PolicyArgs, RunArgs};
use microbox::backend::{BackendPreference, CompatBackend, LinuxSecureBackend, SandboxBackend};
use microbox::command::CommandPlan;
use microbox::diagnose::{
    availability_flag, diagnose, e2b_mode, given, render, render_validation, validate,
    validation_exit_code, MachineFacts,
};
use microbox::duration::Duration;
use microbox::errors::SandboxError;
use microbox::launch::HostOs;
use microbox::layers::{ConfigFile, ConfigSource, EnvironmentConfig, SandboxConfig};
use microbox::levels::{IsolationLevel, PresetKind};
use microbox::request::ExecutionResult;
use microbox::runner::{
    config_path, discover_config, error_exit_code, prepare_context_in_dir, prepare_run, print_plan,
    select_backend_for_policy,
};

fn strings(list: &[&str]) -> Vec<String> {
    list.iter().map(|s| s.to_string()).collect()
}

fn facts(os: HostOs) -> MachineFacts {
    MachineFacts {
        os_name: "linux".to_string(),
        arch_name: "x86_64".to_string(),
        os,
        kernel_features: true,
        config_exists: false,
        docker: true,
        podman: true,
        bwrap: true,
        firejail: false,
        python: true,
        docker_answers: true,
        podman_answers: false,
        e2b_api_key: Some("key".to_string()),
        e2b_domain: None,
    }
}

fn prepare(args: &PolicyArgs, found: Option<ConfigSource>) -> Result<microbox::runner::RunContext, SandboxError> {
    prepare_context_in_dir(args, "/w".to_string(), "/tmp", found, HostOs::Linux)
}

#[test]
fn configuration_is_discovered() {
    assert_eq!(config_path(&None), "microbox.toml");
    assert_eq!(config_path(&Some("x.toml".to_string())), "x.toml");
    assert!(discover_config(None, None).unwrap().is_none());
    let parsed = ConfigFile { version: Some(1), ..ConfigFile::default() };
    let found = discover_config(None, Some(ConfigSource::Parsed(parsed))).unwrap();
    assert_eq!(found.unwrap().version, Some(1));
    assert_eq!(
        discover_config(
            Some("x.toml".to_string()),
            Some(ConfigSource::Unreadable("denied".to_string()))
        )
        .unwrap_err()
        .message(),
        "failed to read config file x.toml: denied"
    );
}

#[test]
fn command_line_overrides_configuration() {
    let config = ConfigFile {
        sandbox: Some(SandboxConfig {
            max_cpu: Some(3),
            max_ram: Some("1g".to_string()),
            ..SandboxConfig::default()
        }),
        environment: Some(EnvironmentConfig {
            passthrough: Some(strings(&["A"])),
            ..EnvironmentConfig::default()
        }),
        ..ConfigFile::default()
    };
    let args = PolicyArgs {
        level: Some(IsolationLevel::Paranoid),
        max_cpu: Some(5),
        allow_fs: Some(strings(&["/data:ro", "out:rw"])),
        allow_env: Some(strings(&["B"])),
        ..PolicyArgs::default()
    };
    let context = prepare(&args, Some(ConfigSource::Parsed(config))).unwrap();
    assert_eq!(context.working_dir, "/w");
    assert_eq!(context.policy.level, IsolationLevel::Paranoid);
    assert_eq!(context.policy.max_cpu, 5);
    assert_eq!(context.policy.max_ram_bytes, 1 << 30);
    assert!(context.policy.filesystem_readonly.contains(&"/data".to_string()));
    assert!(context.policy.filesystem_writable.contains(&"out".to_string()));
    assert!(context.policy.env_passthrough.contains(&"A".to_string()));
    assert!(context.policy.env_passthrough.contains(&"B".to_string()));
}

#[test]
fn contexts_tell_what_is_wrong() {
    let bad_grant = PolicyArgs {
        allow_fs: Some(strings(&["/a:rw", "/b:zz"])),
        ..PolicyArgs::default()
    };
    assert_eq!(
        prepare(&bad_grant, None).unwrap_err().message(),
        "policy error: invalid filesystem allow spec: zz"
    );
    let bad_time = PolicyArgs { timeout: Some("soon".to_string()), ..PolicyArgs::default() };
    assert_eq!(
        prepare(&bad_time, None).unwrap_err().message(),
        "policy error: invalid human-readable duration: soon"
    );
    let malformed = Some(ConfigSource::Malformed("line 1".to_string()));
    assert_eq!(
        prepare(&PolicyArgs::default(), malformed).unwrap_err().message(),
        "policy error: failed to parse config file: line 1"
    );
}

#[test]
fn agents_get_a_policy() {
    let args = PolicyArgs { preset: Some(PresetKind::AiAgent), ..PolicyArgs::default() };
    let policy = prepare(&args, None).unwrap().policy;
    assert_eq!(policy.allow_net, strings(&["api.openai.com:443", "api.anthropic.com:443"]));
    assert!(policy.env_passthrough.contains(&"OPENAI_API_KEY".to_string()));
    assert!(policy.env_passthrough.contains(&"ANTHROPIC_API_KEY".to_string()));
}

#[test]
fn runs_are_prepared_or_refused() {
    let run = |command: &[&str], backend, os| {
        prepare_run(
            RunArgs {
                policy: PolicyArgs { backend, ..PolicyArgs::default() },
                command: strings(command),
            },
            "/w".to_string(),
            "/tmp",
            None,
            os,
        )
    };
    let prepared = run(&["echo", "hi"], BackendPreference::Auto, HostOs::Linux).unwrap();
    assert_eq!(
        prepared.request.command,
        CommandPlan::Direct { argv: strings(&["echo", "hi"]) }
    );
    assert_eq!(prepared.backend.name(), "linux-secure");
    assert_eq!(
        run(&[], BackendPreference::Auto, HostOs::Linux).unwrap_err().message(),
        "empty command"
    );
    assert_eq!(
        run(&["x"], BackendPreference::Secure, HostOs::Other).unwrap_err().message(),
        "backend unavailable: secure backend is only available on Linux"
    );
    let chosen = select_backend_for_policy(BackendPreference::Compat, HostOs::Linux).unwrap();
    assert_eq!(chosen.name(), "compat-local-exec");
}

#[test]
fn results_are_printed_where_there_are_any() {
    let mut result = ExecutionResult {
        status: Some(0),
        stdout: "out".to_string(),
        stderr: String::new(),
        duration: Duration::from_secs(1),
        timed_out: false,
    };
    let plan = print_plan(&result);
    assert_eq!((plan.stdout, plan.stderr, plan.late), (true, false, false));
    result.stdout.clear();
    result.stderr.push('e');
    result.timed_out = true;
    let plan = print_plan(&result);
    assert_eq!((plan.stdout, plan.stderr, plan.late), (false, true, true));
    assert_eq!(error_exit_code(&SandboxError::TimedOut), 124);
    assert_eq!(error_exit_code(&SandboxError::EmptyCommand), 1);
}

#[test]
fn validation_is_told() {
    let outcome = prepare(&PolicyArgs::default(), None);
    let report = validate("microbox-cli", &CompatBackend.capabilities(), &outcome);
    assert!(report.valid);
    assert_eq!(validation_exit_code(&report), 0);
    assert_eq!(report.policy_summary, Some(outcome.unwrap().policy.summary_lines()));
    let told = render_validation(&report);
    assert!(told.starts_with(
        "MicroBox validate\nbackend = compat-local-exec\nsecure_enforcement = no\nvalid = yes\n"
    ));
    assert!(told.contains("\nnotes:\n  - local execution fallback for non-Linux hosts\n  - "));
}

#[test]
fn refused_policies_are_told() {
    let args = PolicyArgs { max_ram: Some("lots".to_string()), ..PolicyArgs::default() };
    let report =
        validate("microbox-cli", &LinuxSecureBackend.capabilities(), &prepare(&args, None));
    assert!(!report.valid);
    assert_eq!(validation_exit_code(&report), 1);
    assert_eq!(report.policy_summary, None);
    assert_eq!(
        report.policy_error.as_deref(),
        Some("policy error: invalid human-readable size: lots")
    );
    assert!(render_validation(&report).starts_with(
        "MicroBox validate\nbackend = linux-secure\nsecure_enforcement = yes\nvalid = no\n\
         policy_error = policy error: invalid human-readable size: lots\nnotes:\n"
    ));
}

#[test]
fn readiness_is_told() {
    let outcome = prepare(&PolicyArgs::default(), None);
    let lines = diagnose(&facts(HostOs::Linux), &outcome).lines;
    assert_eq!(
        lines[..7],
        strings(&[
            "MicroBox doctor",
            "platform = linux-x86_64",
            "backend = linux-secure",
            "production_ready = yes",
            "secure_enforcement = yes",
            "config_found = no",
            "policy_resolved = yes",
        ])
    );
    assert_eq!(lines[8], "policy_summary:");
    assert!(lines.contains(
        &"peer_targets = docker:yes, podman:no, bwrap:yes, firejail:no, e2b:yes".to_string()
    ));
    assert!(lines.contains(&"e2b_mode = hosted".to_string()));
    assert_eq!(
        lines[lines.len() - 1],
        "linux_support = secure backend with namespaces, Landlock, seccomp, and cgroup best-effort"
    );
    assert_eq!(render(&facts(HostOs::Linux), &outcome), lines.join("\n"));
}

#[test]
fn machines_that_are_not_ready() {
    let outcome = Err(SandboxError::Io("gone".to_string()));
    let told = render(&facts(HostOs::Windows), &outcome);
    assert!(told.contains("\nbackend = compat-local-exec\nproduction_ready = no\n"));
    assert!(told.contains("\npolicy_resolved = no\n"));
    assert!(told.contains("\npolicy_error = io error: gone\npeer_targets = docker:yes"));
    assert!(told.contains("bwrap:no, firejail:no"));
    assert!(told.ends_with("\nlinux_support = build on Linux for full sandbox enforcement"));
    let mut bare = facts(HostOs::Linux);
    bare.kernel_features = false;
    assert!(render(&bare, &outcome).contains("\nproduction_ready = no\nsecure_enforcement = yes"));
}

#[test]
fn hosted_sandboxes_have_modes() {
    let mut f = facts(HostOs::Other);
    assert_eq!(e2b_mode(&f), "hosted");
    f.e2b_domain = Some("  ".to_string());
    assert_eq!(e2b_mode(&f), "hosted");
    f.e2b_domain = Some("example.org".to_string());
    assert_eq!(e2b_mode(&f), "self-hosted");
    f.e2b_domain = None;
    f.python = false;
    assert_eq!(e2b_mode(&f), "unavailable");
    assert!(!given(&None));
    assert!(!given(&Some("\u{a0}\n".to_string())));
    assert_eq!(availability_flag(true), "yes");
    assert_eq!(availability_flag(false), "no");
}
