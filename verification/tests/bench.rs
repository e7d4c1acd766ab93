use microbox::args::{
    BaselineSource, BenchArgs, BenchmarkProfile, OutputFormat, PeerTarget, PolicyArgs,
};
use microbox::backend::{BackendPreference, CompatBackend, SandboxBackend};
use microbox::command::CommandPlan;
use microbox::duration::Duration;
use microbox::errors::SandboxError;
use microbox::launch::{Host, HostOs};
use microbox::layers::PolicyOverrides;
use microbox::peers::{
    accept_remote_report, build_e2b_peer_report, build_peer_report, bwrap_gate, check_api_key,
    check_remote_run, container_gate, ensure_e2b_venv, find_python_executable, firejail_gate,
    load_report, peer_command, peer_outcome, peer_unavailable, python_candidates, remote_files,
    remote_request, resolve_peer_targets, target_label, venv_python_path, which, which_program,
    PeerAvailability, RemoteStep, ReportSource, WhichReply,
};
use microbox::policy::{resolve_policy, safe_infra_env_keys};
use microbox::render::{escape_md, format_opt_u64, render_markdown, render_report, render_text};
use microbox::report::{
    attach_comparisons, benchmark_exit_code, build_benchmark_report, build_profile_report,
    count_explicit_benchmark_flags, count_explicit_policy_flags, signed_difference, summarize,
    BenchmarkReport, ReportFacts,
};
use microbox::request::{ExecutionResult, RunRequest};
use microbox::sampling::{
    average_of, micros_u64, portable_labels, sample_of, scenario_labels, FirstSuccess, Ratio,
    RunSample, SampleTally, ScenarioLabels, ScenarioReport, ScenarioRun,
};
use microbox::scenario::{
    build_portable_scenarios, build_scenarios, check_baseline, effective_iterations,
    extra_profiles, main_profile, pauses_after, portable_command_string,
    portable_scenarios_to_specs, schedule, Schedule,
};

fn strings(list: &[&str]) -> Vec<String> {
    list.iter().map(|s| s.to_string()).collect()
}

fn bench_args() -> BenchArgs {
    BenchArgs {
        policy: PolicyArgs::default(),
        profile: BenchmarkProfile::Sequential,
        iterations: 1,
        warmups: 0,
        format: OutputFormat::Text,
        baseline_source: BaselineSource::Report,
        baseline_label: "E2B-style".to_string(),
        baseline_report: None,
        baseline_output: None,
        peer_targets: None,
        peer_image: "alpine:3.20".to_string(),
        stagger_delay_ms: 200,
        output: None,
        e2b_timeout_secs: 300,
        command: Vec::new(),
    }
}

fn nothing_here() -> PeerAvailability {
    PeerAvailability { e2b: false, docker: false, podman: false, bwrap: false, firejail: false }
}

fn labels(name: &str) -> ScenarioLabels {
    ScenarioLabels {
        name: name.to_string(),
        description: "d".to_string(),
        command: "c".to_string(),
        notes: strings(&["n"]),
    }
}

fn sample(micros: u64, exit_code: i32) -> Result<RunSample, SandboxError> {
    Ok(RunSample {
        duration: Duration::from_micros(micros),
        exit_code,
        timed_out: false,
        stdout_bytes: 3,
        stderr_bytes: 1,
    })
}

fn late() -> Result<RunSample, SandboxError> {
    Ok(RunSample {
        duration: Duration::from_secs(2),
        exit_code: 124,
        timed_out: true,
        stdout_bytes: 7,
        stderr_bytes: 8,
    })
}

/// Hands the runs in as long as more are wanted, and tells how many were.
fn measure(
    warmups: u32,
    iterations: u32,
    runs: Vec<Result<RunSample, SandboxError>>,
) -> (ScenarioReport, usize) {
    let mut run = ScenarioRun::start(labels("s"), iterations, warmups);
    let mut taken = 0;
    for sample in &runs {
        if !run.wants_run() {
            break;
        }
        assert!(run.room_for(sample));
        assert_eq!(run.is_warming_up(), taken < warmups as usize);
        run.hand_in(sample);
        taken += 1;
    }
    (run.finish(), taken)
}

fn scenario_report(name: &str, micros: &[u64]) -> ScenarioReport {
    let mut tally = SampleTally::new();
    for m in micros {
        assert!(tally.count(&sample(*m, 0)));
    }
    tally.report(labels(name))
}

fn facts() -> ReportFacts {
    ReportFacts {
        tool: "microbox-cli".to_string(),
        version: "0.1.0".to_string(),
        generated_at_unix: 9,
        os_name: "linux".to_string(),
        arch_name: "x86_64".to_string(),
        family_name: "unix".to_string(),
        policy_resolution_us: 42,
    }
}

fn report(args: &BenchArgs, scenarios: Vec<ScenarioReport>) -> BenchmarkReport {
    build_profile_report(
        &facts(),
        args,
        &CompatBackend.capabilities(),
        main_profile(args.profile),
        scenarios,
        None,
        vec![],
        &FirstSuccess::new(),
    )
}

fn host(os: HostOs) -> Host {
    let mut infra_vars: Vec<Option<String>> = vec![None; safe_infra_env_keys().len()];
    infra_vars[0] = Some("/bin".to_string());
    Host { os, comspec: None, infra_vars, vars: vec![] }
}

fn request() -> RunRequest {
    let policy = resolve_policy(HostOs::Linux, "/w", "/tmp", None, None, PolicyOverrides::default()).unwrap();
    RunRequest::new(CommandPlan::Direct { argv: strings(&["echo", "a b"]) }, "/w".to_string(), policy)
}

#[test]
fn portable_scenarios_use_linux_shell_commands() {
    let args = bench_args();
    let portable = build_portable_scenarios(&args).unwrap();
    assert!(portable
        .iter()
        .any(|scenario| scenario.command.contains("rm -f")));
}

#[test]
fn portable_scenarios_are_the_scenarios() {
    let mut args = bench_args();
    for command in [&[][..], &["echo", "a b"][..], &["a && b"][..]] {
        args.command = strings(command);
        let scenarios = build_scenarios(&args, HostOs::Linux).unwrap();
        let portable = build_portable_scenarios(&args).unwrap();
        let specs = portable_scenarios_to_specs(&portable);
        assert_eq!(scenarios.len(), portable.len());
        for i in 0..scenarios.len() {
            assert_eq!(scenarios[i].name, portable[i].name);
            assert_eq!(portable_command_string(&scenarios[i].command), portable[i].command);
            assert_eq!(specs[i].command, portable[i].command);
            assert_eq!(specs[i].notes, scenarios[i].notes);
            assert_eq!(scenario_labels(&scenarios[i]).command, portable_labels(&portable[i]).command);
        }
    }
}

#[test]
fn scenarios_are_the_suite_or_the_command() {
    let mut args = bench_args();
    let names: Vec<String> =
        build_scenarios(&args, HostOs::Linux).unwrap().into_iter().map(|s| s.name).collect();
    assert_eq!(names, strings(&["startup-noop", "shell-echo", "workspace-write"]));
    let windows = build_scenarios(&args, HostOs::Windows).unwrap();
    assert_eq!(
        windows[0].command,
        CommandPlan::Direct { argv: strings(&["cmd.exe", "/C", "exit", "0"]) }
    );
    args.command = strings(&["echo", "benchmark"]);
    let custom = build_scenarios(&args, HostOs::Linux).unwrap();
    assert_eq!(custom.len(), 1);
    assert_eq!(custom[0].name, "custom-command");
    assert_eq!(custom[0].command, CommandPlan::Direct { argv: strings(&["echo", "benchmark"]) });
}

#[test]
fn profiles_are_scheduled() {
    assert_eq!(
        extra_profiles(BenchmarkProfile::All),
        vec![BenchmarkProfile::Sequential, BenchmarkProfile::Staggered, BenchmarkProfile::Burst]
    );
    assert!(extra_profiles(BenchmarkProfile::Burst).is_empty());
    assert_eq!(main_profile(BenchmarkProfile::All), BenchmarkProfile::Sequential);
    assert_eq!(main_profile(BenchmarkProfile::Staggered), BenchmarkProfile::Staggered);
    assert_eq!(schedule(BenchmarkProfile::Sequential, 9), Schedule::InTurn { pause_ms: 0 });
    assert_eq!(schedule(BenchmarkProfile::Staggered, 9), Schedule::InTurn { pause_ms: 9 });
    assert_eq!(schedule(BenchmarkProfile::Burst, 9), Schedule::AtOnce);
    assert!(pauses_after(0, 2));
    assert!(!pauses_after(1, 2));
    assert!(!pauses_after(u32::MAX, u32::MAX));
    assert_eq!(effective_iterations(0), 1);
    assert_eq!(effective_iterations(7), 7);
}

#[test]
fn hosted_baselines_take_the_suite_only() {
    let mut args = bench_args();
    args.baseline_source = BaselineSource::E2b;
    assert!(check_baseline(&args).is_ok());
    args.command = strings(&["x"]);
    assert_eq!(
        check_baseline(&args).unwrap_err().message(),
        "backend unavailable: E2B baseline comparison currently supports the built-in benchmark suite only"
    );
    args.baseline_source = BaselineSource::Report;
    assert!(check_baseline(&args).is_ok());
}

#[test]
fn runs_are_tallied() {
    let (report, taken) = measure(1, 3, vec![sample(9, 5), sample(10, 0), sample(30, 0), sample(21, 0)]);
    assert_eq!(taken, 4);
    assert_eq!(report.samples_us, vec![10, 30, 21]);
    assert_eq!(report.average_us, Some(20));
    assert_eq!(report.best_us, Some(10));
    assert_eq!(report.worst_us, Some(30));
    assert!(report.success && !report.timed_out);
    assert_eq!(report.exit_code, Some(0));
    assert_eq!((report.stdout_bytes, report.stderr_bytes), (9, 3));
    assert_eq!(report.error, None);
    assert_eq!(report.name, "s");
    assert_eq!(report.notes, strings(&["n"]));
}

#[test]
fn the_first_failure_is_the_last_run() {
    let (report, taken) = measure(0, 5, vec![sample(4, 0), sample(6, 2), sample(1, 0)]);
    assert_eq!(taken, 2);
    assert_eq!(report.samples_us, vec![4, 6]);
    assert_eq!(report.error.as_deref(), Some("command exited with 2"));
    assert!(!report.success);
    let (report, taken) = measure(0, 2, vec![Err(SandboxError::EmptyCommand), sample(1, 0)]);
    assert_eq!(taken, 1);
    assert_eq!(report.error.as_deref(), Some("empty command"));
    assert_eq!(report.average_us, None);
    assert_eq!(report.exit_code, None);
}

#[test]
fn warmups_can_stop_a_scenario() {
    let (report, taken) = measure(2, 3, vec![sample(1, 0), late(), sample(1, 0)]);
    assert_eq!(taken, 2);
    assert_eq!(report.error.as_deref(), Some("warmup 1 timed out"));
    assert!(report.timed_out && !report.success);
    assert_eq!(report.exit_code, Some(124));
    assert_eq!((report.stdout_bytes, report.stderr_bytes), (7, 8));
    let (report, taken) = measure(2, 3, vec![Err(SandboxError::Io("x".to_string()))]);
    assert_eq!(taken, 1);
    assert_eq!(report.error.as_deref(), Some("warmup 0 failed: io error: x"));
    assert!(!report.timed_out);
    assert_eq!(report.exit_code, None);
}

#[test]
fn averages_are_whole_and_positive() {
    assert_eq!(average_of(&vec![]), None);
    assert_eq!(average_of(&vec![0, 0]), Some(1));
    assert_eq!(average_of(&vec![1, 2]), Some(1));
    assert_eq!(average_of(&vec![u64::MAX, u64::MAX]), Some(u64::MAX));
    assert_eq!(micros_u64(Duration::from_millis(2)), 2_000);
    assert_eq!(micros_u64(Duration::from_secs(u64::MAX)), u64::MAX);
}

#[test]
fn samples_count_bytes() {
    let result = ExecutionResult {
        status: Some(3),
        stdout: "é!".to_string(),
        stderr: String::new(),
        duration: Duration::from_micros(5),
        timed_out: false,
    };
    let kept = sample_of(&result);
    assert_eq!((kept.stdout_bytes, kept.stderr_bytes), (3, 0));
    assert_eq!(kept.exit_code, 3);
}

#[test]
fn only_the_first_success_counts() {
    let mut first = FirstSuccess::new();
    first.note(&sample(1, 1), Duration::from_micros(1), "a");
    first.note(&late(), Duration::from_micros(2), "b");
    assert_eq!(first.run_us, None);
    first.note(&sample(1, 0), Duration::from_micros(3), "c");
    first.note(&sample(1, 0), Duration::from_micros(4), "d");
    assert_eq!(first.run_us, Some(3));
    assert_eq!(first.scenario.as_deref(), Some("c"));
}

#[test]
fn differences_are_signed() {
    assert_eq!(signed_difference(5, 9), -4);
    assert_eq!(signed_difference(9, 5), 4);
    for (a, b) in [(0, u64::MAX), (u64::MAX, 0), (0, 1 << 63), (1 << 63, 0), (3, (1 << 63) + 5)] {
        assert_eq!(signed_difference(a, b), (a as i64).wrapping_sub(b as i64));
    }
}

#[test]
fn scenarios_are_compared_by_name() {
    let baseline = vec![
        scenario_report("a", &[10]),
        scenario_report("b", &[]),
        scenario_report("a", &[20]),
    ];
    let reports = vec![
        scenario_report("a", &[15]),
        scenario_report("b", &[1]),
        scenario_report("c", &[1]),
    ];
    let compared = attach_comparisons(reports, Some(&baseline), "base");
    let c = compared[0].comparison.as_ref().unwrap();
    assert_eq!(c.baseline_label, "base");
    assert_eq!((c.baseline_average_us, c.delta_us), (20, -5));
    assert!(compared[1].comparison.is_none() && compared[2].comparison.is_none());
    assert_eq!(summarize(&compared, None).matched_baseline_scenarios, 1);
    let alone = attach_comparisons(vec![scenario_report("a", &[15])], None, "base");
    assert!(alone[0].comparison.is_none());
}

#[test]
fn summaries_have_all_figures() {
    let mut broken = scenario_report("broken", &[]);
    broken.error = Some("x".to_string());
    let summary = summarize(
        &vec![
            scenario_report("a", &[10, 30]),
            scenario_report("b", &[5]),
            broken,
            scenario_report("c", &[20]),
        ],
        Some(77),
    );
    assert_eq!(summary.scenario_count, 4);
    assert_eq!((summary.passed_scenarios, summary.failed_scenarios), (3, 1));
    assert_eq!(summary.average_of_averages_us, Some(15));
    assert_eq!(summary.fastest_scenario.as_deref(), Some("b"));
    assert_eq!(summary.fastest_average_us, Some(5));
    assert_eq!(summary.slowest_scenario.as_deref(), Some("a"));
    assert_eq!(summary.slowest_average_us, Some(20));
    assert_eq!((summary.best_overall_us, summary.worst_overall_us), (Some(5), Some(30)));
    assert_eq!(summary.first_successful_run_us, Some(77));
    let none = summarize(&vec![], None);
    assert_eq!(none.average_of_averages_us, None);
    assert_eq!(none.fastest_scenario, None);
}

#[test]
fn sums_of_averages_are_capped() {
    let mut huge = scenario_report("h", &[1]);
    huge.average_us = Some(u64::MAX);
    let summary = summarize(&vec![huge.clone(), huge], None);
    assert_eq!(summary.average_of_averages_us, Some(u64::MAX / 2));
}

#[test]
fn explicit_settings_are_counted() {
    let mut args = bench_args();
    assert_eq!(count_explicit_policy_flags(&args.policy), 0);
    assert_eq!(count_explicit_benchmark_flags(&args), 0);
    args.policy.backend = BackendPreference::Secure;
    args.policy.allow_net = Some(vec![]);
    args.policy.allow_env = Some(strings(&["A"]));
    args.policy.timeout = Some("1s".to_string());
    assert_eq!(count_explicit_policy_flags(&args.policy), 3);
    args.profile = BenchmarkProfile::All;
    args.stagger_delay_ms = 1;
    args.format = OutputFormat::Json;
    args.baseline_source = BaselineSource::E2b;
    args.baseline_label = "x".to_string();
    args.baseline_report = Some("r".to_string());
    args.baseline_output = Some("o".to_string());
    args.output = Some("p".to_string());
    args.peer_targets = Some(vec![PeerTarget::Auto]);
    args.peer_image = "i".to_string();
    args.e2b_timeout_secs = 1;
    assert_eq!(count_explicit_benchmark_flags(&args), 11);
    let report = report(&args, vec![]);
    assert_eq!(report.adoption.setup_steps, 15);
    assert_eq!(report.adoption.friction_score, 15);
    assert_eq!(report.baseline_report_path.as_deref(), Some("o"));
}

#[test]
fn all_profiles_are_kept() {
    let mut args = bench_args();
    args.profile = BenchmarkProfile::All;
    args.iterations = 0;
    let runs = vec![report(&args, vec![scenario_report("a", &[1])]), report(&args, vec![])];
    let whole = build_benchmark_report(args.profile, report(&args, vec![]), runs);
    assert_eq!(whole.profile, "all");
    assert_eq!(whole.iterations, 1);
    assert_eq!(whole.profile_reports.len(), 2);
    assert_eq!(whole.profile_reports[0].profile, "sequential");
    assert_eq!(whole.profile_reports[0].scenarios.len(), 1);
    let single = build_benchmark_report(
        BenchmarkProfile::Burst,
        report(&bench_args(), vec![]),
        vec![report(&args, vec![])],
    );
    assert_eq!(single.profile, "sequential");
    assert!(single.profile_reports.is_empty());
}

#[test]
fn benchmarks_fail_with_their_scenarios() {
    let good = report(&bench_args(), vec![scenario_report("a", &[1])]);
    assert_eq!(benchmark_exit_code(&good), 0);
    let bad = report(&bench_args(), vec![scenario_report("a", &[])]);
    assert_eq!(benchmark_exit_code(&bad), 1);
}

#[test]
fn reports_are_told_as_text() {
    let mut scenario = scenario_report("a", &[10]);
    scenario.error = Some("oops".to_string());
    let mut whole = report(&bench_args(), vec![scenario]);
    whole.peer_reports.push(peer_unavailable("docker", "no".to_string()));
    let told = render_text(&whole);
    assert!(told.starts_with(
        "MicroBox benchmark report\ntool = microbox-cli\nversion = 0.1.0\nprofile = sequential\n\
         platform = linux-x86_64-unix\nbackend_requested = auto\n\
         backend_selected = compat-local-exec\nbackend_secure_enforcement = false\n\
         backend_note = local execution fallback for non-Linux hosts\n"
    ));
    assert!(told.contains(
        "\ncomparison_baseline = E2B-style\nmode = suite\npolicy_resolution_us = 42\n\
         iterations = 1\nwarmups = 0\n\nAdoption\ncommand_surface = microbox run <command>\n\
         explicit_policy_flags = 0\nexplicit_benchmark_flags = 0\nsetup_steps = 1\n\
         friction_score = 1\nfirst_successful_run_us = -\nfirst_successful_scenario = -\n\n\
         Summary\nscenario_count = 1\n"
    ));
    assert!(told.ends_with(
        "\nScenarios\n- a\n  description = d\n  command = c\n  success = true\n\
         \x20 timed_out = false\n  exit_code = 0\n  average_us = 10\n  best_us = 10\n\
         \x20 worst_us = 10\n  stdout_bytes = 3\n  stderr_bytes = 1\n  error = oops\n  note = n\n\
         \nPeer targets\n- target = docker available = no\n  reason = no\n"
    ));
    assert_eq!(render_report(&whole, OutputFormat::Text), Some(told));
    assert_eq!(render_report(&whole, OutputFormat::Json), None);
}

#[test]
fn reports_are_told_in_markdown() {
    let mut args = bench_args();
    args.profile = BenchmarkProfile::All;
    let baseline = vec![scenario_report("a|b", &[20])];
    let compared = attach_comparisons(
        vec![scenario_report("a|b", &[10]), scenario_report("c", &[7])],
        Some(&baseline),
        "base",
    );
    let mut main_report = report(&args, compared);
    if let Some(c) = main_report.scenarios[0].comparison.as_mut() {
        c.speedup = Some(Ratio::Written("2.00x".to_string()));
    }
    let whole = build_benchmark_report(
        args.profile,
        main_report,
        vec![report(&args, vec![scenario_report("c", &[7])])],
    );
    let told = render_markdown(&whole);
    assert!(told.starts_with(
        "# MicroBox benchmark report\n\n- Tool: `microbox-cli`\n- Version: `0.1.0`\n\
         - Profile: `all`\n- Platform: `linux-x86_64-unix`\n- Backend requested: `auto`\n"
    ));
    assert!(told.contains(
        "- Policy resolution: `42` us\n- Iterations: `1`\n- Warmups: `0`\n\n### Backend notes\n\
         - local execution fallback for non-Linux hosts\n"
    ));
    assert!(told.ends_with(
        "## Scenarios\n\n\
         | Scenario | Success | Avg (us) | Best (us) | Worst (us) | Baseline (us) | Delta (us) | Speedup | Notes |\n\
         | --- | --- | ---: | ---: | ---: | ---: | ---: | ---: | --- |\n\
         | a\\|b | yes | 10 | 10 | 10 | 20 | -10 | 2.00x | n |\n\
         | c | yes | 7 | 7 | 7 | - | - | - | n |\n\
         \n## Profile Runs\n\n\
         | Profile | Scenarios | Passed | Failed | Avg of avgs (us) | Fastest | Slowest |\n\
         | --- | ---: | ---: | ---: | ---: | --- | --- |\n\
         | sequential | 1 | 1 | 0 | 7 | c | c |\n"
    ));
    assert_eq!(render_report(&whole, OutputFormat::Markdown), Some(told));
}

#[test]
fn cells_stay_in_their_rows() {
    assert_eq!(escape_md("a|b\nc|"), "a\\|b c\\|");
    assert_eq!(escape_md(""), "");
    assert_eq!(format_opt_u64(Some(12)), "12");
    assert_eq!(format_opt_u64(None), "-");
}

#[test]
fn peer_targets_deduplicate_explicit_values() {
    let targets = resolve_peer_targets(
        Some(&vec![PeerTarget::Docker, PeerTarget::Docker]),
        &nothing_here(),
        HostOs::Linux,
    );
    assert_eq!(targets.len(), 1);
    assert_eq!(targets[0], PeerTarget::Docker);
}

#[test]
fn auto_stands_for_what_is_here() {
    let here =
        PeerAvailability { e2b: true, docker: false, podman: true, bwrap: true, firejail: true };
    let all = vec![PeerTarget::Firejail, PeerTarget::Auto, PeerTarget::Docker];
    assert_eq!(
        resolve_peer_targets(Some(&all), &here, HostOs::Linux),
        vec![
            PeerTarget::Firejail,
            PeerTarget::E2b,
            PeerTarget::Podman,
            PeerTarget::Bubblewrap,
            PeerTarget::Docker,
        ]
    );
    assert_eq!(
        resolve_peer_targets(Some(&vec![PeerTarget::Auto]), &here, HostOs::Windows),
        vec![PeerTarget::E2b, PeerTarget::Podman]
    );
    assert!(resolve_peer_targets(None, &here, HostOs::Linux).is_empty());
}

#[test]
fn peers_may_stand_in_the_way() {
    let no_net = "peer sandbox comparison currently supports the built-in no-network suite only";
    let told = |s: &str| Some(s.to_string());
    assert_eq!(container_gate("docker", false, &None, false), told("docker daemon is not reachable"));
    assert_eq!(
        container_gate("docker", false, &told(" \n"), false),
        told("docker daemon is not reachable")
    );
    assert_eq!(container_gate("docker", false, &told(" broken \n"), true), told("broken"));
    assert_eq!(container_gate("podman", true, &None, true), told(no_net));
    assert_eq!(container_gate("podman", true, &told("x"), false), None);
    assert_eq!(
        bwrap_gate(HostOs::Other, true),
        told("bubblewrap peer target is only available on Linux")
    );
    assert_eq!(bwrap_gate(HostOs::Linux, true), told(no_net));
    assert_eq!(bwrap_gate(HostOs::Linux, false), None);
    assert_eq!(
        firejail_gate(HostOs::Windows, true, false),
        told("firejail peer target is only available on Linux")
    );
    assert_eq!(firejail_gate(HostOs::Linux, false, true), told("firejail is not installed"));
    assert_eq!(firejail_gate(HostOs::Linux, true, true), told(no_net));
    assert_eq!(firejail_gate(HostOs::Linux, true, false), None);
}

#[test]
fn peers_are_reported() {
    let docker = build_peer_report(
        &facts(),
        PeerTarget::Docker,
        "alpine:3.20",
        vec![scenario_report("a", &[3])],
        4,
        1,
    );
    assert_eq!(docker.backend_selected, "docker");
    assert!(!docker.backend_secure_enforcement);
    assert_eq!(
        docker.backend_notes,
        strings(&["docker peer target benchmark", "container image: alpine:3.20"])
    );
    assert_eq!((docker.iterations, docker.warmups), (4, 1));
    assert_eq!(docker.adoption.command_surface, "docker peer target");
    assert_eq!(docker.summary.passed_scenarios, 1);
    let bwrap = build_peer_report(&facts(), PeerTarget::Bubblewrap, "", vec![], 1, 0);
    assert!(bwrap.backend_secure_enforcement);
    assert_eq!(bwrap.backend_notes, strings(&["bubblewrap peer target benchmark"]));
    let measured = peer_outcome(PeerTarget::Docker, Some(docker));
    assert!(measured.available && measured.report.is_some());
    let reason = |target| peer_outcome(target, None).reason.unwrap();
    assert_eq!(reason(PeerTarget::Podman), "podman is not available");
    assert_eq!(reason(PeerTarget::Bubblewrap), "bubblewrap is not available");
    assert_eq!(reason(PeerTarget::Firejail), "firejail could not launch the peer scenario");
    let failed = build_e2b_peer_report(Err(SandboxError::EmptyCommand));
    assert_eq!((failed.target.as_str(), failed.available), ("e2b", false));
    assert_eq!(failed.reason.as_deref(), Some("empty command"));
    assert!(build_e2b_peer_report(Ok(bwrap)).available);
    assert_eq!(target_label(PeerTarget::Bubblewrap), "bwrap");
    assert_eq!(target_label(PeerTarget::Auto), "auto");
}

#[test]
fn peers_run_the_same_line() {
    let linux = host(HostOs::Linux);
    let docker = peer_command(PeerTarget::Docker, "img", &request(), &linux).unwrap();
    assert_eq!(docker.program, "docker");
    assert_eq!(
        docker.args,
        strings(&[
            "run", "--rm", "--network", "none", "-v", "/w:/work", "-w", "/work", "-e",
            "PATH=/bin", "img", "sh", "-lc", "echo \"a b\"",
        ])
    );
    let bwrap = peer_command(PeerTarget::Bubblewrap, "", &request(), &linux).unwrap();
    assert_eq!(bwrap.program, "bwrap");
    assert_eq!(
        bwrap.args[20..],
        strings(&[
            "--chdir", "/w", "--bind", "/w", "/w", "--setenv", "PATH", "/bin", "--", "/bin/sh",
            "-lc", "echo \"a b\"",
        ])
    );
    let firejail = peer_command(PeerTarget::Firejail, "", &request(), &linux).unwrap();
    assert_eq!(
        firejail.args,
        strings(&[
            "--quiet", "--noprofile", "--private", "--net=none", "--nosound", "--caps.drop=all",
            "--chdir", "/w", "--", "/bin/sh", "-lc", "echo \"a b\"",
        ])
    );
    assert_eq!(firejail.env, vec![("PATH".to_string(), "/bin".to_string())]);
    assert!(peer_command(PeerTarget::Bubblewrap, "", &request(), &host(HostOs::Other)).is_err());
    assert_eq!(
        peer_command(PeerTarget::E2b, "", &request(), &linux).unwrap_err().message(),
        "backend unavailable: unsupported peer runtime: e2b"
    );
}

#[test]
fn programs_are_asked_for() {
    let found = |s: &str| WhichReply::Found(s.to_string());
    assert_eq!(which_program(HostOs::Windows), "where");
    assert_eq!(which_program(HostOs::Other), "which");
    assert_eq!(which("x", &found("/bin/x \r\n/usr/bin/x\n")).unwrap(), "/bin/x");
    assert_eq!(
        which("x", &found("\n/bin/x")).unwrap_err().message(),
        "backend unavailable: could not locate x"
    );
    assert_eq!(
        which("x", &WhichReply::Unknown).unwrap_err().message(),
        "backend unavailable: could not locate x"
    );
    assert_eq!(
        which("x", &WhichReply::Failed("no".to_string())).unwrap_err().message(),
        "launch failed: failed to locate x: no"
    );
    assert_eq!(python_candidates(HostOs::Linux), strings(&["python3", "python"]));
    assert_eq!(python_candidates(HostOs::Windows), strings(&["python.exe", "python"]));
    assert_eq!(
        find_python_executable(HostOs::Linux, &vec![WhichReply::Unknown, found("/p")]).unwrap(),
        "/p"
    );
    assert_eq!(
        find_python_executable(HostOs::Linux, &vec![WhichReply::Unknown, WhichReply::Unknown])
            .unwrap_err()
            .message(),
        "backend unavailable: python is required to run E2B benchmarks"
    );
}

#[test]
fn hosted_runs_are_prepared_and_checked() {
    assert_eq!(
        check_api_key(&None).unwrap_err().message(),
        "backend unavailable: E2B_API_KEY is required for --baseline-source e2b"
    );
    assert_eq!(
        check_api_key(&Some(" ".to_string())).unwrap_err().message(),
        "backend unavailable: E2B_API_KEY is empty"
    );
    assert_eq!(check_api_key(&Some(" k".to_string())).unwrap(), " k");
    let files = remote_files(HostOs::Linux, "/tmp", 100, 23);
    assert_eq!(files.root, "/tmp/microbox-e2b-123");
    assert_eq!(files.script, "/tmp/microbox-e2b-123/e2b_benchmark.py");
    assert_eq!(remote_files(HostOs::Linux, "/t", u64::MAX, 9).root, format!("/t/microbox-e2b-{}", u64::MAX));
    assert_eq!(venv_python_path(HostOs::Linux, &files.venv), "/tmp/microbox-e2b-123/venv/bin/python");
    assert!(venv_python_path(HostOs::Windows, "v").ends_with("python.exe"));
    let mut args = bench_args();
    args.iterations = 0;
    let sent = remote_request(&args, vec![], Some("d".to_string()));
    assert_eq!((sent.iterations, sent.warmups, sent.timeout_secs), (1, 0, 300));
    assert_eq!(sent.e2b_domain.as_deref(), Some("d"));
    let done = RemoteStep::Done;
    let failed = RemoteStep::Failed(" bad \n".to_string());
    let not_started = RemoteStep::NotStarted("no".to_string());
    assert!(ensure_e2b_venv(&done, &done).is_ok());
    let venv = |a, b| ensure_e2b_venv(a, b).unwrap_err().message();
    assert_eq!(venv(&not_started, &done), "launch failed: failed to create E2B venv: no");
    assert_eq!(
        venv(&failed, &done),
        "launch failed: failed to create E2B benchmark virtual environment"
    );
    assert_eq!(venv(&done, &not_started), "launch failed: failed to install E2B SDK: no");
    assert_eq!(
        venv(&done, &failed),
        "launch failed: failed to install E2B SDK into the benchmark virtual environment"
    );
    assert!(check_remote_run(&done).is_ok());
    assert_eq!(
        check_remote_run(&failed).unwrap_err().message(),
        "launch failed: E2B benchmark failed: bad"
    );
    assert_eq!(
        check_remote_run(&not_started).unwrap_err().message(),
        "launch failed: failed to run E2B benchmark: no"
    );
}

#[test]
fn reports_are_read() {
    let unreadable = || ReportSource::Unreadable("gone".to_string());
    let malformed = || ReportSource::Malformed("eof".to_string());
    assert_eq!(load_report("r.json", unreadable()).unwrap_err().message(), "io error: gone");
    assert_eq!(
        load_report("r.json", malformed()).unwrap_err().message(),
        "launch failed: failed to parse baseline benchmark report r.json: eof"
    );
    assert_eq!(
        accept_remote_report(unreadable()).unwrap_err().message(),
        "launch failed: failed to read E2B report: gone"
    );
    assert_eq!(
        accept_remote_report(malformed()).unwrap_err().message(),
        "launch failed: failed to parse E2B report: eof"
    );
    let whole = report(&bench_args(), vec![]);
    assert_eq!(load_report("r.json", ReportSource::Parsed(whole)).unwrap().mode, "suite");
}

#[test]
fn ratios_are_owed_unless_they_divide_by_zero() {
    let at = |average: Option<u64>| {
        let mut scenario = scenario_report("a", &[10]);
        scenario.average_us = average;
        scenario
    };
    let compare = |current: u64, base: u64| {
        attach_comparisons(vec![at(Some(current))], Some(&vec![at(Some(base))]), "b")
            .remove(0)
            .comparison
            .unwrap()
    };
    let c = compare(100, 50);
    assert_eq!(c.delta_us, 50);
    assert!(matches!(c.delta_percent, Some(Ratio::Owed)));
    assert!(matches!(c.speedup, Some(Ratio::Owed)));
    let c = compare(100, 0);
    assert!(c.delta_percent.is_none());
    assert!(c.speedup.is_some());
    let c = compare(0, 50);
    assert!(c.delta_percent.is_some());
    assert!(c.speedup.is_none());
    assert!(attach_comparisons(vec![at(None)], Some(&vec![at(Some(1))]), "b")[0]
        .comparison
        .is_none());
}
