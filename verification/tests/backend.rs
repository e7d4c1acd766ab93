use microbox::backend::{
    build_bubblewrap_command, default_backend, fallback_plan, join_pipe, launch_error,
    launcher_missing, receive_listener_fd, retries_in_shell, select_backend, wait_step, Backend,
    BackendPreference, CompatBackend, LinuxSecureBackend, ListenerTransfer, PipeRead,
    SandboxBackend, WaitAction,
};
use microbox::command::CommandPlan;
use microbox::duration::Duration;
use microbox::hardening::{
    cgroup_plan, ends_group, hardening_steps, id_map, launcher_limits, set_resource_limits, HardeningStep,
    LinuxHardeningPlan, Resource, RunMode,
};
use microbox::launch::{
    build_command, needs_search, resolve_executable_path, search_candidates, Host, HostOs,
    SearchPath,
};
use microbox::layers::PolicyOverrides;
use microbox::levels::IsolationLevel;
use microbox::paths::PathKind;
use microbox::policy::{resolve_policy, safe_infra_env_keys, ResolvedPolicy};
use microbox::request::RunRequest;

fn strings(list: &[&str]) -> Vec<String> {
    list.iter().map(|s| s.to_string()).collect()
}

fn policy() -> ResolvedPolicy {
    let overrides = PolicyOverrides {
        env_passthrough: Some(strings(&["APP_*"])),
        filesystem_writable: Some(strings(&["out", "/srv"])),
        filesystem_readonly: Some(strings(&["data"])),
        max_cpu: Some(2),
        ..PolicyOverrides::default()
    };
    resolve_policy(HostOs::Linux, "/w", "/tmp", None, None, overrides).unwrap()
}

fn host(os: HostOs) -> Host {
    let mut infra_vars: Vec<Option<String>> = vec![None; safe_infra_env_keys().len()];
    infra_vars[0] = Some("/bin".to_string());
    Host {
        os,
        comspec: None,
        infra_vars,
        vars: vec![
            ("APP_MODE".to_string(), "on".to_string()),
            ("SECRET".to_string(), "x".to_string()),
        ],
    }
}

fn nowhere() -> SearchPath {
    SearchPath { entries: Some(strings(&["/usr/bin"])), present: vec![false] }
}

fn direct(argv: &[&str]) -> RunRequest {
    RunRequest::new(CommandPlan::Direct { argv: strings(argv) }, "/w".to_string(), policy())
}

fn shell(line: &str) -> RunRequest {
    RunRequest::new(CommandPlan::Shell { command: line.to_string() }, "/w".to_string(), policy())
}

#[test]
fn auto_backend_is_available() {
    for os in [HostOs::Linux, HostOs::Windows, HostOs::Other] {
        let backend = default_backend(os);
        assert!(!backend.name().is_empty());
    }
    assert_eq!(default_backend(HostOs::Linux).name(), "linux-secure");
    assert_eq!(default_backend(HostOs::Other).name(), "compat-local-exec");
}

#[test]
fn compat_backend_reports_expected_capabilities() {
    let backend = CompatBackend;
    let caps = backend.capabilities();
    assert!(!caps.secure_enforcement);
    assert!(caps.name.contains("compat"));
}

#[test]
fn secure_backend_reports_what_it_enforces() {
    let caps = LinuxSecureBackend.capabilities();
    assert!(caps.secure_enforcement);
    assert_eq!(caps.name, "linux-secure");
    assert_eq!(caps.notes.len(), 4);
}

#[test]
fn secure_preference_fails_off_linux() {
    for os in [HostOs::Windows, HostOs::Other] {
        match select_backend(BackendPreference::Secure, os) {
            Ok(_) => panic!("expected secure backend selection to fail off Linux"),
            Err(err) => assert!(err.message().contains("Linux")),
        }
    }
}

#[test]
fn preferences_choose_backends() {
    let pick = |p, os| select_backend(p, os).unwrap();
    assert!(matches!(pick(BackendPreference::Secure, HostOs::Linux), Backend::LinuxSecure(_)));
    assert!(matches!(pick(BackendPreference::Auto, HostOs::Linux), Backend::LinuxSecure(_)));
    assert!(matches!(pick(BackendPreference::Compat, HostOs::Linux), Backend::Compat(_)));
    assert!(matches!(pick(BackendPreference::Auto, HostOs::Windows), Backend::Compat(_)));
    assert_eq!(BackendPreference::Auto.label(), "auto");
    assert_eq!(BackendPreference::Compat.label(), "compat");
    assert_eq!(BackendPreference::Secure.label(), "secure");
}

#[test]
fn secure_backends_never_run_plainly() {
    let secure = select_backend(BackendPreference::Secure, HostOs::Linux).unwrap();
    assert_eq!(secure.run_mode(HostOs::Linux, true, false), RunMode::Launcher);
    assert_eq!(secure.run_mode(HostOs::Linux, false, false), RunMode::Hardened);
    assert_eq!(secure.run_mode(HostOs::Linux, true, true), RunMode::Supervised);
    assert_eq!(secure.run_mode(HostOs::Linux, false, true), RunMode::Supervised);
    assert_eq!(secure.run_mode(HostOs::Other, true, true), RunMode::Hardened);
    let compat = select_backend(BackendPreference::Compat, HostOs::Linux).unwrap();
    assert_eq!(compat.run_mode(HostOs::Linux, true, true), RunMode::Plain);
}

#[test]
fn request_can_be_run_through_policy() {
    let policy = resolve_policy(
        HostOs::Linux,
        ".",
        "/tmp",
        None,
        None,
        PolicyOverrides {
            level: Some(IsolationLevel::Safe),
            ..Default::default()
        },
    )
    .unwrap();
    assert_eq!(policy.level, IsolationLevel::Safe);
}

#[test]
fn programs_are_found() {
    let search = SearchPath {
        entries: Some(strings(&["/a", "/b/", "/c"])),
        present: vec![false, true, true],
    };
    assert_eq!(resolve_executable_path(HostOs::Linux, "ls", "/w", &search).unwrap(), "/b/ls");
    assert_eq!(resolve_executable_path(HostOs::Linux, "/bin/ls", "/w", &search).unwrap(), "/bin/ls");
    assert_eq!(resolve_executable_path(HostOs::Linux, "./ls", "/w", &search).unwrap(), "/w/./ls");
    assert_eq!(resolve_executable_path(HostOs::Linux, "sub/ls", "/w", &search).unwrap(), "/w/sub/ls");
    assert_eq!(
        resolve_executable_path(HostOs::Linux, "ls", "/w", &nowhere()).unwrap_err().message(),
        "launch failed: executable `ls` not found in PATH"
    );
    let none = SearchPath { entries: None, present: vec![] };
    assert_eq!(
        resolve_executable_path(HostOs::Linux, "ls", "/w", &none).unwrap_err().message(),
        "launch failed: unable to resolve executable `ls` without PATH"
    );
    assert!(needs_search(HostOs::Linux, "ls"));
    assert!(!needs_search(HostOs::Linux, "a/ls"));
    assert_eq!(search_candidates(HostOs::Linux, "ls", &strings(&["/a", ""])), strings(&["/a/ls", "ls"]));
}

#[test]
fn direct_commands_keep_arguments_and_environment() {
    let request = direct(&["/bin/echo", "a b", "c"]);
    let spec =
        build_command(&request.command, &request, true, &host(HostOs::Linux), &nowhere()).unwrap();
    assert_eq!(spec.program, "/bin/echo");
    assert_eq!(spec.args, strings(&["a b", "c"]));
    assert_eq!(spec.current_dir, "/w");
    assert_eq!(
        spec.env,
        vec![
            ("PATH".to_string(), "/bin".to_string()),
            ("APP_MODE".to_string(), "on".to_string()),
        ]
    );
}

#[test]
fn shell_lines_go_to_the_shell() {
    let request = shell("echo hi");
    let spec =
        build_command(&request.command, &request, true, &host(HostOs::Linux), &nowhere()).unwrap();
    assert_eq!(spec.program, "/bin/sh");
    assert_eq!(spec.args, strings(&["-c", "echo hi"]));
    let spec =
        build_command(&request.command, &request, false, &host(HostOs::Windows), &nowhere())
            .unwrap();
    assert_eq!(spec.program, "cmd.exe");
    assert_eq!(spec.args, strings(&["/C", "echo hi"]));
    let mut windows = host(HostOs::Windows);
    windows.comspec = Some("C:\\cmd.exe".to_string());
    let spec = build_command(&request.command, &request, false, &windows, &nowhere()).unwrap();
    assert_eq!(spec.program, "C:\\cmd.exe");
}

#[test]
fn unknown_programs_are_left_to_windows() {
    let request = direct(&["tool", "x"]);
    let spec =
        build_command(&request.command, &request, false, &host(HostOs::Windows), &nowhere())
            .unwrap();
    assert_eq!(spec.program, "tool");
    assert!(
        build_command(&request.command, &request, true, &host(HostOs::Windows), &nowhere())
            .is_err()
    );
    assert!(
        build_command(&request.command, &request, false, &host(HostOs::Linux), &nowhere())
            .is_err()
    );
    assert!(retries_in_shell(false, HostOs::Windows, true));
    assert!(!retries_in_shell(true, HostOs::Windows, true));
    assert!(!retries_in_shell(false, HostOs::Linux, true));
    assert!(!retries_in_shell(false, HostOs::Windows, false));
    assert_eq!(
        fallback_plan(&request.command),
        CommandPlan::Shell { command: "tool x".to_string() }
    );
}

#[test]
fn the_launcher_gets_every_option() {
    let request = direct(&["/bin/echo", "hi"]);
    let args = build_bubblewrap_command(&request, &host(HostOs::Linux), &nowhere(), &vec![])
        .unwrap();
    let expected = strings(&[
        "--die-with-parent",
        "--new-session",
        "--unshare-user",
        "--unshare-pid",
        "--unshare-ipc",
        "--unshare-uts",
        "--unshare-cgroup",
        "--unshare-net",
        "--clearenv",
        "--ro-bind",
        "/",
        "/",
        "--dev",
        "/dev",
        "--proc",
        "/proc",
        "--tmpfs",
        "/tmp",
        "--dir",
        "/var/tmp",
        "--chdir",
        "/w",
        "--bind",
        "/w/out",
        "/w/out",
        "--bind",
        "/srv",
        "/srv",
        "--setenv",
        "PATH",
        "/bin",
        "--setenv",
        "APP_MODE",
        "on",
        "--",
        "/bin/echo",
        "hi",
    ]);
    assert_eq!(args, expected);
    let args =
        build_bubblewrap_command(&shell("a && b"), &host(HostOs::Linux), &nowhere(), &vec![])
            .unwrap();
    assert_eq!(args[args.len() - 4..], strings(&["--", "/bin/sh", "-c", "a && b"]));
    assert!(
        build_bubblewrap_command(&direct(&["x"]), &host(HostOs::Linux), &nowhere(), &vec![])
            .is_err()
    );
    assert_eq!(
        launcher_missing().message(),
        "launch failed: bubblewrap is not installed or not on PATH"
    );
}

#[test]
fn hardening_follows_the_request() {
    let plan = LinuxHardeningPlan::from_request(&direct(&["/bin/echo"]), &nowhere(), &vec![]).unwrap();
    assert_eq!(plan.working_dir, "/w");
    assert_eq!(plan.read_only_paths.len(), 17);
    assert_eq!(plan.read_only_paths[0], "/w/data");
    assert_eq!(plan.read_only_paths[1], "/bin");
    assert_eq!(plan.read_only_paths[16], "/etc/resolv.conf");
    assert_eq!(plan.writable_paths, strings(&["/w/out", "/srv"]));
    assert_eq!(plan.executable_path.as_deref(), Some("/bin/echo"));
    assert_eq!(plan.timeout_secs, 300);
    assert_eq!(
        set_resource_limits(&plan),
        vec![
            (Resource::CpuTime, 300),
            (Resource::AddressSpace, 536_870_912),
            (Resource::FileSize, 1_073_741_824),
            (Resource::OpenFiles, 256),
            (Resource::Processes, 128),
        ]
    );
    let plan = LinuxHardeningPlan::from_request(&shell("x | y"), &nowhere(), &vec![]).unwrap();
    assert_eq!(plan.executable_path.as_deref(), Some("/bin/sh"));
    assert!(LinuxHardeningPlan::from_request(&direct(&["gone"]), &nowhere(), &vec![]).is_err());
}

#[test]
fn limits_have_a_floor_and_a_ceiling() {
    let mut request = direct(&["/bin/echo"]);
    request.policy.max_cpu = 0;
    request.policy.timeout = Duration::from_millis(5);
    let plan = LinuxHardeningPlan::from_request(&request, &nowhere(), &vec![]).unwrap();
    assert_eq!(plan.max_cpu, 1);
    assert_eq!(plan.timeout_secs, 1);
    request.policy.max_cpu = u32::MAX;
    assert_eq!(launcher_limits(&request)[4], (Resource::Processes, u32::MAX as u64));
    assert_eq!(launcher_limits(&request)[0], (Resource::CpuTime, 1));
}

#[test]
fn hardening_steps_come_in_order() {
    let steps = hardening_steps(RunMode::Hardened);
    assert_eq!(steps.len(), 8);
    assert_eq!(steps[2], HardeningStep::NoNewPrivileges);
    assert_eq!(steps[6], HardeningStep::Landlock);
    assert_eq!(steps[7], HardeningStep::DenyFilter);
    assert_eq!(hardening_steps(RunMode::Supervised)[7], HardeningStep::SupervisedFilter);
    assert_eq!(hardening_steps(RunMode::Launcher).len(), 4);
    assert!(hardening_steps(RunMode::Plain).is_empty());
}

#[test]
fn control_groups_are_planned() {
    let plan = cgroup_plan(77, &direct(&["/bin/echo"]));
    assert_eq!(plan.dir, "/sys/fs/cgroup/microbox-77");
    let pair = |file: &str, text: &str| {
        (format!("/sys/fs/cgroup/microbox-77/{file}"), text.to_string())
    };
    assert_eq!(
        plan.limits,
        vec![
            pair("memory.max", "536870912"),
            pair("cpu.max", "200000 100000"),
            pair("pids.max", "128"),
        ]
    );
    assert_eq!(plan.procs_file, "/sys/fs/cgroup/microbox-77/cgroup.procs");
    assert_eq!(plan.pid, "77");
    assert_eq!(id_map(1000), "0 1000 1");
}

#[test]
fn waiting_ends_on_exit_or_deadline() {
    let limit = Duration::from_secs(2);
    assert_eq!(wait_step(true, Duration::from_secs(9), limit), WaitAction::Collect);
    assert_eq!(wait_step(false, Duration::from_secs(2), limit), WaitAction::Terminate);
    assert_eq!(wait_step(false, Duration::from_millis(1999), limit), WaitAction::Sleep);
}

#[test]
fn outputs_and_listeners_are_taken_over() {
    assert_eq!(join_pipe(PipeRead::NoPipe).unwrap(), Vec::<u8>::new());
    assert_eq!(join_pipe(PipeRead::Bytes(vec![1, 2])).unwrap(), vec![1, 2]);
    assert_eq!(
        join_pipe(PipeRead::ReaderLost).unwrap_err().message(),
        "launch failed: output reader thread panicked"
    );
    assert_eq!(
        join_pipe(PipeRead::Failed("eof".to_string())).unwrap_err().message(),
        "launch failed: eof"
    );
    assert_eq!(receive_listener_fd(ListenerTransfer::Descriptor(7)).unwrap(), 7);
    assert_eq!(
        receive_listener_fd(ListenerTransfer::Empty).unwrap_err().message(),
        "launch failed: seccomp listener fd transfer did not include SCM_RIGHTS"
    );
    assert_eq!(
        receive_listener_fd(ListenerTransfer::Failed("x".to_string())).unwrap_err().message(),
        "launch failed: failed to receive seccomp listener fd: x"
    );
    assert_eq!(launch_error("linux-secure", "no").message(), "launch failed: linux-secure: no");
}

#[test]
fn denied_variables_are_stripped() {
    let mut request = direct(&["/bin/echo"]);
    request.policy.env_deny = strings(&["PATH"]);
    let names = |request: &RunRequest| {
        build_command(&request.command, request, true, &host(HostOs::Linux), &nowhere())
            .unwrap()
            .env
            .into_iter()
            .map(|(name, _)| name)
            .collect::<Vec<_>>()
    };
    assert_eq!(names(&request), strings(&["APP_MODE"]));
    request.policy.env_deny = strings(&["APP_*"]);
    assert_eq!(names(&request), strings(&["PATH"]));
    request.policy.env_deny = strings(&["*"]);
    assert_eq!(names(&request), Vec::<String>::new());
}

#[test]
fn denied_paths_are_masked_behind_the_binds() {
    let mut request = direct(&["/bin/echo", "hi"]);
    request.policy.filesystem_deny = strings(&["/etc", "out/key", "/gone"]);
    let kinds = vec![PathKind::Directory, PathKind::File, PathKind::Missing];
    let args =
        build_bubblewrap_command(&request, &host(HostOs::Linux), &nowhere(), &kinds).unwrap();
    let last_bind = args.iter().rposition(|arg| arg == "--bind").unwrap();
    assert_eq!(
        args[last_bind + 3..last_bind + 9],
        strings(&["--tmpfs", "/etc", "--ro-bind", "/dev/null", "/w/out/key", "--setenv"])
    );
    assert!(!args.contains(&"/gone".to_string()));
}

#[test]
fn denied_paths_are_not_granted() {
    let mut request = direct(&["/bin/echo"]);
    request.policy.filesystem_deny = strings(&["/etc", "/srv/private", "/bin/echo", "/gone"]);
    request.policy.filesystem_writable = strings(&["out", "/srv/private/x"]);
    let file = PathKind::File;
    let kinds = vec![PathKind::Directory, PathKind::Missing, PathKind::Missing, file];
    let plan = LinuxHardeningPlan::from_request(&request, &nowhere(), &kinds).unwrap();
    assert_eq!(plan.hidden_paths, strings(&["/etc", "/gone"]));
    assert!(plan.read_only_paths.iter().all(|path| !path.starts_with("/etc")));
    assert_eq!(plan.read_only_paths.len(), 13);
    assert_eq!(plan.writable_paths, strings(&["/w/out", "/srv/private/x"]));
    assert_eq!(plan.executable_path.as_deref(), Some("/bin/echo"));

    let kinds = vec![PathKind::Directory, PathKind::Directory, PathKind::Missing, file];
    let plan = LinuxHardeningPlan::from_request(&request, &nowhere(), &kinds).unwrap();
    assert_eq!(plan.writable_paths, strings(&["/w/out"]));

    let kinds = vec![PathKind::Directory, PathKind::Directory, file, PathKind::Missing];
    assert_eq!(
        LinuxHardeningPlan::from_request(&request, &nowhere(), &kinds).unwrap_err().message(),
        "launch failed: denied paths cannot be hidden beneath: /bin"
    );
    request.policy.filesystem_writable = strings(&["/srv", "."]);
    request.policy.filesystem_deny = strings(&["/srv/private", "/w/.env"]);
    assert_eq!(
        LinuxHardeningPlan::from_request(&request, &nowhere(), &vec![file, file])
            .unwrap_err()
            .message(),
        "launch failed: denied paths cannot be hidden beneath: /srv, /w/."
    );
}

#[test]
fn a_group_is_ended_where_there_is_one() {
    assert!(!ends_group(RunMode::Plain));
    assert!(ends_group(RunMode::Hardened));
    assert!(ends_group(RunMode::Supervised));
    assert!(ends_group(RunMode::Launcher));
}

#[test]
fn programs_are_searched_by_the_rules_of_the_system() {
    assert!(needs_search(HostOs::Linux, "a\\tool"));
    assert!(!needs_search(HostOs::Windows, "a\\tool"));
    assert!(!needs_search(HostOs::Windows, "C:tool"));
    assert!(needs_search(HostOs::Windows, "tool"));
    assert_eq!(
        resolve_executable_path(HostOs::Windows, "bin\\tool", "C:\\w", &nowhere()).unwrap(),
        "C:\\w\\bin\\tool"
    );
}
