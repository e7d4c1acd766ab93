//! Other sandboxes that a benchmark is run in for comparison.
use crate::args::{BenchArgs, PeerTarget};
use crate::backend::{
    bind_options, env_options, fixed_options, launcher_options, push_binds, push_env,
};
use crate::command::written_plan;
use crate::errors::{sandbox_message, SandboxError, SandboxFault};
use crate::launch::{command_environment, CommandModel, CommandSpec, Host, HostOs};
use crate::lists::{append_list, one_text, two_texts};
use crate::number::{decimal, decimal_text};
use crate::paths::{join_path, joined_path};
use crate::policy::pair_texts;
use crate::report::{
    summarize, sums_up, AdoptionMetrics, BenchmarkReport, PeerBenchmarkReport, ReportFacts,
};
use crate::request::{RequestModel, RunRequest};
use crate::sampling::ScenarioReport;
use crate::scenario::{effective_iterations, RemoteScenarioSpec};
use crate::text::{
    concat, is_empty, lemma_pieces_nonempty, opt_text, pieces, split, texts, trim, trimmed,
};
use vstd::prelude::*;

verus! {

broadcast use vstd::seq::group_seq_axioms;

// ---------------------------------------------------------------------------
// Which sandboxes

/// Which other sandboxes can be used here. The last two are looked for on Linux only.
#[derive(Debug, Clone, Copy, PartialEq, Eq, Structural)]
pub struct PeerAvailability {
    pub e2b: bool,
    pub docker: bool,
    pub podman: bool,
    pub bwrap: bool,
    pub firejail: bool,
}

/// A list of one target, or none.
pub open spec fn target_if(present: bool, target: PeerTarget) -> Seq<PeerTarget> {
    if present {
        seq![target]
    } else {
        Seq::<PeerTarget>::empty()
    }
}

/// What a target stands for: `Auto` for all that can be used here, every other for itself.
pub open spec fn meant_targets(target: PeerTarget, here: PeerAvailability, os: HostOs) -> Seq<
    PeerTarget,
> {
    let linux = os == HostOs::Linux;
    match target {
        PeerTarget::Auto => target_if(here.e2b, PeerTarget::E2b) + target_if(
            here.docker,
            PeerTarget::Docker,
        ) + target_if(here.podman, PeerTarget::Podman) + target_if(
            linux && here.bwrap,
            PeerTarget::Bubblewrap,
        ) + target_if(linux && here.firejail, PeerTarget::Firejail),
        _ => seq![target],
    }
}

/// `list` followed by the targets of `more` that are not there yet.
pub open spec fn with_targets(list: Seq<PeerTarget>, more: Seq<PeerTarget>) -> Seq<PeerTarget>
    decreases more.len(),
{
    if more.len() == 0 {
        list
    } else {
        let before = with_targets(list, more.drop_last());
        if before.contains(more.last()) {
            before
        } else {
            before.push(more.last())
        }
    }
}

/// The targets that a list stands for, each once, in the order in which they come up.
pub open spec fn chosen_targets(raw: Seq<PeerTarget>, here: PeerAvailability, os: HostOs) -> Seq<
    PeerTarget,
>
    decreases raw.len(),
{
    if raw.len() == 0 {
        Seq::<PeerTarget>::empty()
    } else {
        with_targets(
            chosen_targets(raw.drop_last(), here, os),
            meant_targets(raw.last(), here, os),
        )
    }
}

/// No target twice, and none that stands for others.
pub open spec fn is_chosen(list: Seq<PeerTarget>) -> bool {
    list.no_duplicates() && !list.contains(PeerTarget::Auto)
}

proof fn lemma_with_targets(list: Seq<PeerTarget>, more: Seq<PeerTarget>)
    requires
        is_chosen(list),
        !more.contains(PeerTarget::Auto),
    ensures
        is_chosen(with_targets(list, more)),
    decreases more.len(),
{
    if more.len() > 0 {
        let rest = more.drop_last();
        assert(!rest.contains(PeerTarget::Auto)) by {
            if rest.contains(PeerTarget::Auto) {
                let i = choose|i: int| 0 <= i < rest.len() && rest[i] == PeerTarget::Auto;
                assert(more[i] == PeerTarget::Auto);
            }
        }
        lemma_with_targets(list, rest);
        let before = with_targets(list, rest);
        let last = more.last();
        assert(last != PeerTarget::Auto) by {
            assert(more[more.len() - 1] == last);
        }
        if !before.contains(last) {
            let all = before.push(last);
            assert forall|i: int, j: int| 0 <= i < all.len() && 0 <= j < all.len() && i != j implies all[i]
                != all[j] by {
                if i < before.len() && j < before.len() {
                    assert(before[i] != before[j]);
                }
            }
            if all.contains(PeerTarget::Auto) {
                let i = choose|i: int| 0 <= i < all.len() && all[i] == PeerTarget::Auto;
                assert(before[i] == PeerTarget::Auto);
            }
        }
    }
}

/// A benchmark runs in each other sandbox once at most, and `auto` is always spelled out.
pub proof fn lemma_targets_chosen_once(raw: Seq<PeerTarget>, here: PeerAvailability, os: HostOs)
    ensures
        is_chosen(chosen_targets(raw, here, os)),
    decreases raw.len(),
{
    if raw.len() > 0 {
        lemma_targets_chosen_once(raw.drop_last(), here, os);
        let more = meant_targets(raw.last(), here, os);
        assert(!more.contains(PeerTarget::Auto));
        lemma_with_targets(chosen_targets(raw.drop_last(), here, os), more);
    }
}

fn has_target(list: &Vec<PeerTarget>, target: PeerTarget) -> (r: bool)
    ensures
        r == list@.contains(target),
{
    for i in 0..list.len()
        invariant
            forall|j: int| 0 <= j < i ==> list@[j] != target,
    {
        if list[i] == target {
            assert(list@[i as int] == target);
            return true;
        }
    }
    false
}

fn push_if(list: Vec<PeerTarget>, present: bool, target: PeerTarget) -> (out: Vec<PeerTarget>)
    ensures
        out@ == list@ + target_if(present, target),
{
    let mut out = list;
    if present {
        out.push(target);
    }
    assert(out@ =~= list@ + target_if(present, target));
    out
}

fn expand_target(target: PeerTarget, here: &PeerAvailability, os: HostOs) -> (out: Vec<PeerTarget>)
    ensures
        out@ == meant_targets(target, *here, os),
{
    match target {
        PeerTarget::Auto => {
            let linux = match os {
                HostOs::Linux => true,
                _ => false,
            };
            let none: Vec<PeerTarget> = Vec::new();
            let out = push_if(none, here.e2b, PeerTarget::E2b);
            let out = push_if(out, here.docker, PeerTarget::Docker);
            let out = push_if(out, here.podman, PeerTarget::Podman);
            let out = push_if(out, linux && here.bwrap, PeerTarget::Bubblewrap);
            let out = push_if(out, linux && here.firejail, PeerTarget::Firejail);
            assert(out@ =~= meant_targets(target, *here, os));
            out
        },
        other => {
            let out: Vec<PeerTarget> = vec![other];
            assert(out@ =~= seq![target]);
            out
        },
    }
}

/// The targets that the command line stands for.
pub fn resolve_peer_targets(
    raw: Option<&Vec<PeerTarget>>,
    here: &PeerAvailability,
    os: HostOs,
) -> (out: Vec<PeerTarget>)
    ensures
        out@ == match raw {
            Some(list) => chosen_targets(list@, *here, os),
            None => Seq::<PeerTarget>::empty(),
        },
{
    let raw = match raw {
        Some(raw) => raw,
        None => return Vec::new(),
    };
    let mut out: Vec<PeerTarget> = Vec::new();
    for i in 0..raw.len()
        invariant
            out@ == chosen_targets(raw@.take(i as int), *here, os),
    {
        assert(raw@.take(i + 1).drop_last() =~= raw@.take(i as int));
        let more = expand_target(raw[i], here, os);
        let ghost start = out@;
        for j in 0..more.len()
            invariant
                out@ == with_targets(start, more@.take(j as int)),
        {
            assert(more@.take(j + 1).drop_last() =~= more@.take(j as int));
            if !has_target(&out, more[j]) {
                out.push(more[j]);
            }
        }
        assert(more@.take(more@.len() as int) =~= more@);
    }
    assert(raw@.take(raw@.len() as int) =~= raw@);
    out
}

// ---------------------------------------------------------------------------
// Whether a sandbox is measured

/// The name of a target in reports.
pub open spec fn target_name(target: PeerTarget) -> Seq<char> {
    match target {
        PeerTarget::Auto => "auto"@,
        PeerTarget::E2b => "e2b"@,
        PeerTarget::Docker => "docker"@,
        PeerTarget::Podman => "podman"@,
        PeerTarget::Bubblewrap => "bwrap"@,
        PeerTarget::Firejail => "firejail"@,
    }
}

/// The name of a target in reports.
pub fn target_label(target: PeerTarget) -> (out: &'static str)
    ensures
        out@ == target_name(target),
{
    match target {
        PeerTarget::Auto => "auto",
        PeerTarget::E2b => "e2b",
        PeerTarget::Docker => "docker",
        PeerTarget::Podman => "podman",
        PeerTarget::Bubblewrap => "bwrap",
        PeerTarget::Firejail => "firejail",
    }
}

/// What is told where the policy lists endpoints: other sandboxes run without network.
pub open spec fn needs_no_network() -> Seq<char> {
    "peer sandbox comparison currently supports the built-in no-network suite only"@
}

/// Why a container runtime is not measured, given what it says of itself on its error
/// output, where it says something.
pub open spec fn container_obstacle(
    runtime: Seq<char>,
    ready: bool,
    complaint: Option<Seq<char>>,
    network: bool,
) -> Option<Seq<char>> {
    if !ready {
        match complaint {
            Some(text) if trimmed(text).len() > 0 => Some(trimmed(text)),
            _ => Some(runtime + " daemon is not reachable"@),
        }
    } else if network {
        Some(needs_no_network())
    } else {
        None
    }
}

/// Why the launcher is not measured.
pub open spec fn bwrap_obstacle(os: HostOs, network: bool) -> Option<Seq<char>> {
    if os != HostOs::Linux {
        Some("bubblewrap peer target is only available on Linux"@)
    } else if network {
        Some(needs_no_network())
    } else {
        None
    }
}

/// Why Firejail is not measured.
pub open spec fn firejail_obstacle(os: HostOs, installed: bool, network: bool) -> Option<Seq<char>> {
    if os != HostOs::Linux {
        Some("firejail peer target is only available on Linux"@)
    } else if !installed {
        Some("firejail is not installed"@)
    } else if network {
        Some(needs_no_network())
    } else {
        None
    }
}

fn no_network_text() -> (out: String)
    ensures
        out@ == needs_no_network(),
{
    "peer sandbox comparison currently supports the built-in no-network suite only".to_string()
}

/// Why a container runtime is not measured; none where it is.
pub fn container_gate(runtime: &str, ready: bool, complaint: &Option<String>, network: bool) -> (out:
    Option<String>)
    ensures
        opt_text(out) == container_obstacle(runtime@, ready, opt_text(*complaint), network),
{
    if !ready {
        if let Some(text) = complaint {
            let told = trim(text.as_str());
            if !is_empty(told.as_str()) {
                return Some(told);
            }
        }
        return Some(concat(runtime, " daemon is not reachable"));
    }
    if network {
        return Some(no_network_text());
    }
    None
}

/// Why the launcher is not measured; none where it is.
pub fn bwrap_gate(os: HostOs, network: bool) -> (out: Option<String>)
    ensures
        opt_text(out) == bwrap_obstacle(os, network),
{
    match os {
        HostOs::Linux => {},
        _ => return Some("bubblewrap peer target is only available on Linux".to_string()),
    }
    if network {
        return Some(no_network_text());
    }
    None
}

/// Why Firejail is not measured; none where it is.
pub fn firejail_gate(os: HostOs, installed: bool, network: bool) -> (out: Option<String>)
    ensures
        opt_text(out) == firejail_obstacle(os, installed, network),
{
    match os {
        HostOs::Linux => {},
        _ => return Some("firejail peer target is only available on Linux".to_string()),
    }
    if !installed {
        return Some("firejail is not installed".to_string());
    }
    if network {
        return Some(no_network_text());
    }
    None
}

/// The report of a sandbox that was measured.
pub fn peer_available(target: &str, report: BenchmarkReport) -> (out: PeerBenchmarkReport)
    ensures
        out.target@ == target@,
        out.available,
        out.reason is None,
        out.report == Some(Box::new(report)),
{
    PeerBenchmarkReport {
        target: target.to_string(),
        available: true,
        reason: None,
        report: Some(Box::new(report)),
    }
}

/// The report of a sandbox that was not measured.
pub fn peer_unavailable(target: &str, reason: String) -> (out: PeerBenchmarkReport)
    ensures
        out.target@ == target@,
        !out.available,
        out.reason == Some(reason),
        out.report is None,
{
    PeerBenchmarkReport {
        target: target.to_string(),
        available: false,
        reason: Some(reason),
        report: None,
    }
}

/// What is told of a sandbox that went away before it was measured.
pub open spec fn lost_reason(target: PeerTarget) -> Seq<char> {
    match target {
        PeerTarget::Bubblewrap => "bubblewrap is not available"@,
        PeerTarget::Firejail => "firejail could not launch the peer scenario"@,
        _ => target_name(target) + " is not available"@,
    }
}

/// The report of a sandbox that was to be measured.
pub fn peer_outcome(target: PeerTarget, report: Option<BenchmarkReport>) -> (out:
    PeerBenchmarkReport)
    ensures
        out.target@ == target_name(target),
        match report {
            Some(r) => out.available && out.reason is None && out.report == Some(Box::new(r)),
            None => !out.available && opt_text(out.reason) == Some(lost_reason(target))
                && out.report is None,
        },
{
    match report {
        Some(r) => peer_available(target_label(target), r),
        None => {
            let reason = match target {
                PeerTarget::Bubblewrap => "bubblewrap is not available".to_string(),
                PeerTarget::Firejail => "firejail could not launch the peer scenario".to_string(),
                _ => concat(target_label(target), " is not available"),
            };
            peer_unavailable(target_label(target), reason)
        },
    }
}

/// The report of a hosted sandbox.
pub fn build_e2b_peer_report(outcome: Result<BenchmarkReport, SandboxError>) -> (out:
    PeerBenchmarkReport)
    ensures
        out.target@ == "e2b"@,
        match outcome {
            Ok(r) => out.available && out.reason is None && out.report == Some(Box::new(r)),
            Err(e) => !out.available && opt_text(out.reason) == Some(sandbox_message(e@))
                && out.report is None,
        },
{
    match outcome {
        Ok(r) => peer_available("e2b", r),
        Err(e) => peer_unavailable("e2b", e.message()),
    }
}

// ---------------------------------------------------------------------------
// The report of a sandbox that was measured

/// What a report says about a target: whether it enforces, and notes on it.
pub open spec fn peer_notes(target: PeerTarget, image: Seq<char>) -> Seq<Seq<char>> {
    match target {
        PeerTarget::Bubblewrap => seq!["bubblewrap peer target benchmark"@],
        PeerTarget::Firejail => seq!["firejail peer target benchmark"@],
        _ => seq![target_name(target) + " peer target benchmark"@, "container image: "@ + image],
    }
}

/// Launcher and Firejail enforce; container runtimes are not counted as enforcing.
pub open spec fn peer_enforces(target: PeerTarget) -> bool {
    target == PeerTarget::Bubblewrap || target == PeerTarget::Firejail
}

/// What is told of a sandbox that was measured.
pub open spec fn tells_peer(
    report: BenchmarkReport,
    facts: ReportFacts,
    target: PeerTarget,
    image: Seq<char>,
    iterations: u32,
    warmups: u32,
) -> bool {
    &&& facts.stands_in(report)
    &&& report.profile@ == "peer"@
    &&& report.backend_requested@ == target_name(target)
    &&& report.backend_selected@ == target_name(target)
    &&& report.backend_secure_enforcement == peer_enforces(target)
    &&& texts(report.backend_notes@) == peer_notes(target, image)
    &&& report.comparison_baseline@ == "microbox-peer"@
    &&& report.iterations == iterations
    &&& report.warmups == warmups
    &&& report.mode@ == "suite"@
    &&& report.adoption.command_surface@ == target_name(target) + " peer target"@
    &&& report.adoption.explicit_policy_flags == 0
    &&& report.adoption.explicit_benchmark_flags == 0
    &&& report.adoption.setup_steps == 1
    &&& report.adoption.friction_score == 1
    &&& report.adoption.first_successful_run_us is None
    &&& report.adoption.first_successful_scenario is None
    &&& sums_up(report.summary, report.scenarios@, None)
    &&& report.peer_reports@.len() == 0
    &&& report.profile_reports@.len() == 0
    &&& report.baseline_report_path is None
}

/// The report of a sandbox that was measured.
pub fn build_peer_report(
    facts: &ReportFacts,
    target: PeerTarget,
    image: &str,
    scenarios: Vec<ScenarioReport>,
    iterations: u32,
    warmups: u32,
) -> (report: BenchmarkReport)
    ensures
        tells_peer(report, *facts, target, image@, iterations, warmups),
        report.scenarios == scenarios,
{
    let name = target_label(target);
    let backend_notes = match target {
        PeerTarget::Bubblewrap => one_text("bubblewrap peer target benchmark"),
        PeerTarget::Firejail => one_text("firejail peer target benchmark"),
        _ => {
            let first = concat(name, " peer target benchmark");
            let second = concat("container image: ", image);
            two_texts(first.as_str(), second.as_str())
        },
    };
    let enforces = match target {
        PeerTarget::Bubblewrap => true,
        PeerTarget::Firejail => true,
        _ => false,
    };
    let summary = summarize(&scenarios, None);
    BenchmarkReport {
        tool: facts.tool.clone(),
        version: facts.version.clone(),
        generated_at_unix: facts.generated_at_unix,
        platform: facts.platform_name(),
        profile: "peer".to_string(),
        backend_requested: name.to_string(),
        backend_selected: name.to_string(),
        backend_secure_enforcement: enforces,
        backend_notes,
        comparison_baseline: "microbox-peer".to_string(),
        policy_resolution_us: facts.policy_resolution_us,
        iterations,
        warmups,
        mode: "suite".to_string(),
        adoption: AdoptionMetrics {
            command_surface: concat(name, " peer target"),
            explicit_policy_flags: 0,
            explicit_benchmark_flags: 0,
            setup_steps: 1,
            friction_score: 1,
            first_successful_run_us: None,
            first_successful_scenario: None,
        },
        summary,
        scenarios,
        peer_reports: Vec::new(),
        profile_reports: Vec::new(),
        baseline_report_path: None,
    }
}

// ---------------------------------------------------------------------------
// Commands

/// The options that set variables of a container.
pub open spec fn container_env(vars: Seq<(Seq<char>, Seq<char>)>) -> Seq<Seq<char>>
    decreases vars.len(),
{
    if vars.len() == 0 {
        Seq::<Seq<char>>::empty()
    } else {
        container_env(vars.drop_last()) + seq!["-e"@, vars.last().0 + "="@ + vars.last().1]
    }
}

/// The arguments that run a command in a fresh container without network, in the working
/// directory of the request.
pub open spec fn container_args(
    image: Seq<char>,
    request: RequestModel,
    env: Seq<(Seq<char>, Seq<char>)>,
) -> Seq<Seq<char>> {
    seq![
        "run"@,
        "--rm"@,
        "--network"@,
        "none"@,
        "-v"@,
        request.working_dir + ":/work"@,
        "-w"@,
        "/work"@,
    ] + container_env(env) + seq![image, "sh"@, "-lc"@, written_plan(request.command)]
}

/// The arguments that run a command by the launcher, with the working directory writable.
pub open spec fn bwrap_args(request: RequestModel, env: Seq<(Seq<char>, Seq<char>)>) -> Seq<
    Seq<char>,
> {
    launcher_options() + seq!["--chdir"@, request.working_dir] + bind_options(
        seq![request.working_dir],
    ) + env_options(env) + seq!["--"@, "/bin/sh"@, "-lc"@, written_plan(request.command)]
}

/// The arguments that run a command in Firejail without network.
pub open spec fn firejail_args(request: RequestModel) -> Seq<Seq<char>> {
    seq![
        "--quiet"@,
        "--noprofile"@,
        "--private"@,
        "--net=none"@,
        "--nosound"@,
        "--caps.drop=all"@,
        "--chdir"@,
        request.working_dir,
        "--"@,
        "/bin/sh"@,
        "-lc"@,
        written_plan(request.command),
    ]
}

fn push_container_env(args: Vec<String>, vars: &Vec<(String, String)>) -> (out: Vec<String>)
    ensures
        texts(out@) == texts(args@) + container_env(pair_texts(vars@)),
{
    let ghost start = texts(args@);
    let ghost all = pair_texts(vars@);
    let mut out = args;
    assert(texts(out@) =~= start + container_env(all.take(0)));
    for i in 0..vars.len()
        invariant
            all == pair_texts(vars@),
            texts(out@) == start + container_env(all.take(i as int)),
    {
        assert(all.take(i + 1).drop_last() =~= all.take(i as int));
        assert(all.take(i + 1).last() == all[i as int]);
        let mut setting = concat(vars[i].0.as_str(), "=");
        setting.append(vars[i].1.as_str());
        out = append_list(out, &two_texts("-e", setting.as_str()));
        assert(texts(out@) =~= start + container_env(all.take(i + 1)));
    }
    assert(all.take(all.len() as int) =~= all);
    out
}

/// The process that runs a request in a fresh container.
pub fn build_container_command(runtime: &str, image: &str, request: &RunRequest, host: &Host) -> (
    spec: CommandSpec)
    requires
        host.wf(),
    ensures
        spec@ == (CommandModel {
            program: runtime@,
            args: container_args(image@, request@, host.env_under(request.policy@)),
            current_dir: request.working_dir@,
            env: host.env_under(request.policy@),
        }),
{
    let env = command_environment(&request.policy, host);
    let first: Vec<String> = vec![
        "run".to_string(),
        "--rm".to_string(),
        "--network".to_string(),
        "none".to_string(),
        "-v".to_string(),
        concat(request.working_dir.as_str(), ":/work"),
        "-w".to_string(),
        "/work".to_string(),
    ];
    let last: Vec<String> = vec![
        image.to_string(),
        "sh".to_string(),
        "-lc".to_string(),
        request.command.display(),
    ];
    let args = append_list(push_container_env(first, &env), &last);
    assert(texts(args@) =~= container_args(image@, request@, host.env_under(request.policy@)));
    CommandSpec {
        program: runtime.to_string(),
        args,
        current_dir: request.working_dir.clone(),
        env,
    }
}

/// The process that runs a request by the launcher; there is one on Linux only.
pub fn build_bwrap_command(request: &RunRequest, host: &Host) -> (r: Result<
    CommandSpec,
    SandboxError,
>)
    requires
        host.wf(),
    ensures
        if host.os == HostOs::Linux {
            r matches Ok(spec) && spec@ == (CommandModel {
                program: "bwrap"@,
                args: bwrap_args(request@, host.env_under(request.policy@)),
                current_dir: request.working_dir@,
                env: host.env_under(request.policy@),
            })
        } else {
            r matches Err(e) && e@ == SandboxFault::BackendUnavailable(
                "bubblewrap peer target is only available on Linux"@,
            )
        },
{
    match host.os {
        HostOs::Linux => {},
        _ => return Err(
            SandboxError::BackendUnavailable(
                "bubblewrap peer target is only available on Linux".to_string(),
            ),
        ),
    }
    let env = command_environment(&request.policy, host);
    let args = append_list(fixed_options(), &two_texts("--chdir", request.working_dir.as_str()));
    let args = push_binds(args, &one_text(request.working_dir.as_str()));
    let args = push_env(args, &env);
    let last: Vec<String> = vec![
        "--".to_string(),
        "/bin/sh".to_string(),
        "-lc".to_string(),
        request.command.display(),
    ];
    assert(texts(last@) =~= seq!["--"@, "/bin/sh"@, "-lc"@, written_plan(request@.command)]);
    let args = append_list(args, &last);
    Ok(
        CommandSpec {
            program: "bwrap".to_string(),
            args,
            current_dir: request.working_dir.clone(),
            env,
        },
    )
}

/// The process that runs a request in Firejail.
pub fn build_firejail_command(request: &RunRequest, host: &Host) -> (spec: CommandSpec)
    requires
        host.wf(),
    ensures
        spec@ == (CommandModel {
            program: "firejail"@,
            args: firejail_args(request@),
            current_dir: request.working_dir@,
            env: host.env_under(request.policy@),
        }),
{
    let args: Vec<String> = vec![
        "--quiet".to_string(),
        "--noprofile".to_string(),
        "--private".to_string(),
        "--net=none".to_string(),
        "--nosound".to_string(),
        "--caps.drop=all".to_string(),
        "--chdir".to_string(),
        request.working_dir.clone(),
        "--".to_string(),
        "/bin/sh".to_string(),
        "-lc".to_string(),
        request.command.display(),
    ];
    assert(texts(args@) =~= firejail_args(request@));
    CommandSpec {
        program: "firejail".to_string(),
        args,
        current_dir: request.working_dir.clone(),
        env: command_environment(&request.policy, host),
    }
}

/// The process that runs a request in a target that is measured on this machine.
pub fn peer_command(target: PeerTarget, image: &str, request: &RunRequest, host: &Host) -> (r:
    Result<CommandSpec, SandboxError>)
    requires
        host.wf(),
    ensures
        match target {
            PeerTarget::Docker | PeerTarget::Podman => r matches Ok(spec) && spec@ == (
            CommandModel {
                program: target_name(target),
                args: container_args(image@, request@, host.env_under(request.policy@)),
                current_dir: request.working_dir@,
                env: host.env_under(request.policy@),
            }),
            PeerTarget::Bubblewrap => if host.os == HostOs::Linux {
                r matches Ok(spec) && spec@ == (CommandModel {
                    program: "bwrap"@,
                    args: bwrap_args(request@, host.env_under(request.policy@)),
                    current_dir: request.working_dir@,
                    env: host.env_under(request.policy@),
                })
            } else {
                r matches Err(e) && e@ == SandboxFault::BackendUnavailable(
                    "bubblewrap peer target is only available on Linux"@,
                )
            },
            PeerTarget::Firejail => r matches Ok(spec) && spec@ == (CommandModel {
                program: "firejail"@,
                args: firejail_args(request@),
                current_dir: request.working_dir@,
                env: host.env_under(request.policy@),
            }),
            _ => r matches Err(e) && e@ == SandboxFault::BackendUnavailable(
                "unsupported peer runtime: "@ + target_name(target),
            ),
        },
{
    match target {
        PeerTarget::Docker => Ok(build_container_command("docker", image, request, host)),
        PeerTarget::Podman => Ok(build_container_command("podman", image, request, host)),
        PeerTarget::Bubblewrap => build_bwrap_command(request, host),
        PeerTarget::Firejail => Ok(build_firejail_command(request, host)),
        _ => Err(
            SandboxError::BackendUnavailable(
                concat("unsupported peer runtime: ", target_label(target)),
            ),
        ),
    }
}

// ---------------------------------------------------------------------------
// Finding programs by asking the system

/// What asking the system for a program came to.
#[derive(Debug, Clone)]
pub enum WhichReply {
    /// The system could not be asked; the text tells why.
    Failed(String),
    /// The system does not know the program.
    Unknown,
    /// What the system says.
    Found(String),
}

/// The program that asks the system for programs.
pub fn which_program(os: HostOs) -> (out: &'static str)
    ensures
        out@ == if os == HostOs::Windows {
            "where"@
        } else {
            "which"@
        },
{
    match os {
        HostOs::Windows => "where",
        _ => "which",
    }
}

/// The path of a program: the first line of what the system says.
pub open spec fn which_path(executable: Seq<char>, reply: WhichReply) -> Result<
    Seq<char>,
    SandboxFault,
> {
    match reply {
        WhichReply::Failed(reason) => Err(
            SandboxFault::LaunchFailed("failed to locate "@ + executable + ": "@ + reason@),
        ),
        WhichReply::Unknown => Err(
            SandboxFault::BackendUnavailable("could not locate "@ + executable),
        ),
        WhichReply::Found(text) => {
            let line = trimmed(pieces(text@, '\n')[0]);
            if line.len() == 0 {
                Err(SandboxFault::BackendUnavailable("could not locate "@ + executable))
            } else {
                Ok(line)
            }
        },
    }
}

/// The path of a program, given what asking the system for it came to.
pub fn which(executable: &str, reply: &WhichReply) -> (r: Result<String, SandboxError>)
    ensures
        match which_path(executable@, *reply) {
            Ok(path) => r matches Ok(text) && text@ == path,
            Err(fault) => r matches Err(e) && e@ == fault,
        },
{
    match reply {
        WhichReply::Failed(reason) => {
            let mut text = concat("failed to locate ", executable);
            text.append(": ");
            text.append(reason.as_str());
            Err(SandboxError::LaunchFailed(text))
        },
        WhichReply::Unknown => Err(
            SandboxError::BackendUnavailable(concat("could not locate ", executable)),
        ),
        WhichReply::Found(text) => {
            let lines = split(text.as_str(), '\n');
            proof {
                lemma_pieces_nonempty(text@, '\n');
            }
            assert(texts(lines@).len() == lines.len());
            assert(texts(lines@)[0] == lines@[0]@);
            let line = trim(lines[0].as_str());
            if is_empty(line.as_str()) {
                Err(SandboxError::BackendUnavailable(concat("could not locate ", executable)))
            } else {
                Ok(line)
            }
        },
    }
}

/// The names that the Python interpreter goes by, in the order in which they are tried.
pub open spec fn python_names(os: HostOs) -> Seq<Seq<char>> {
    if os == HostOs::Windows {
        seq!["python.exe"@, "python"@]
    } else {
        seq!["python3"@, "python"@]
    }
}

/// The names that the Python interpreter goes by.
pub fn python_candidates(os: HostOs) -> (out: Vec<String>)
    ensures
        texts(out@) == python_names(os),
{
    match os {
        HostOs::Windows => two_texts("python.exe", "python"),
        _ => two_texts("python3", "python"),
    }
}

/// The first of the programs that was found, from the `i`th on.
pub open spec fn first_found(
    names: Seq<Seq<char>>,
    replies: Seq<WhichReply>,
    i: int,
) -> Option<Seq<char>>
    decreases names.len() - i,
{
    if i < 0 || i >= names.len() {
        None
    } else {
        match which_path(names[i], replies[i]) {
            Ok(path) => Some(path),
            Err(_) => first_found(names, replies, i + 1),
        }
    }
}

/// The Python interpreter, given what asking the system for each of its names came to.
pub fn find_python_executable(os: HostOs, replies: &Vec<WhichReply>) -> (r: Result<
    String,
    SandboxError,
>)
    requires
        replies.len() == python_names(os).len(),
    ensures
        match first_found(python_names(os), replies@, 0) {
            Some(path) => r matches Ok(text) && text@ == path,
            None => r matches Err(e) && e@ == SandboxFault::BackendUnavailable(
                "python is required to run E2B benchmarks"@,
            ),
        },
{
    let names = python_candidates(os);
    let ghost all = python_names(os);
    assert(names.len() == all.len()) by {
        assert(texts(names@).len() == names.len());
    }
    for i in 0..names.len()
        invariant
            texts(names@) == all,
            all == python_names(os),
            names.len() == all.len(),
            replies.len() == all.len(),
            first_found(all, replies@, 0) == first_found(all, replies@, i as int),
    {
        assert(all[i as int] == names@[i as int]@);
        if let Ok(path) = which(names[i].as_str(), &replies[i]) {
            return Ok(path);
        }
    }
    Err(SandboxError::BackendUnavailable("python is required to run E2B benchmarks".to_string()))
}

// ---------------------------------------------------------------------------
// The hosted sandbox

/// Checks the key for the hosted sandbox.
pub fn check_api_key(key: &Option<String>) -> (r: Result<String, SandboxError>)
    ensures
        match *key {
            None => r matches Err(e) && e@ == SandboxFault::BackendUnavailable(
                "E2B_API_KEY is required for --baseline-source e2b"@,
            ),
            Some(text) => if trimmed(text@).len() == 0 {
                r matches Err(e) && e@ == SandboxFault::BackendUnavailable("E2B_API_KEY is empty"@)
            } else {
                r matches Ok(same) && same@ == text@
            },
        },
{
    match key {
        None => Err(
            SandboxError::BackendUnavailable(
                "E2B_API_KEY is required for --baseline-source e2b".to_string(),
            ),
        ),
        Some(text) => {
            if is_empty(trim(text.as_str()).as_str()) {
                Err(SandboxError::BackendUnavailable("E2B_API_KEY is empty".to_string()))
            } else {
                Ok(text.clone())
            }
        },
    }
}

/// The interpreter of a virtual environment.
pub fn venv_python_path(os: HostOs, venv: &str) -> (out: String)
    ensures
        out@ == if os == HostOs::Windows {
            joined_path(os, joined_path(os, venv@, "Scripts"@), "python.exe"@)
        } else {
            joined_path(os, joined_path(os, venv@, "bin"@), "python"@)
        },
{
    match os {
        HostOs::Windows => join_path(os, join_path(os, venv, "Scripts").as_str(), "python.exe"),
        _ => join_path(os, join_path(os, venv, "bin").as_str(), "python"),
    }
}

/// The number of a run: the time and the process, or the largest number where the sum is
/// larger.
pub open spec fn run_number(now: u64, pid: u32) -> nat {
    if now + pid <= u64::MAX {
        (now + pid) as nat
    } else {
        u64::MAX as nat
    }
}

/// The files of a run in the hosted sandbox.
#[derive(Debug, Clone)]
pub struct RemoteFiles {
    pub root: String,
    pub request: String,
    pub report: String,
    pub script: String,
    pub venv: String,
}

/// The files of a run in the hosted sandbox.
pub fn remote_files(os: HostOs, temp_dir: &str, now: u64, pid: u32) -> (files: RemoteFiles)
    ensures
        files.root@ == joined_path(os, temp_dir@, "microbox-e2b-"@ + decimal(run_number(now, pid))),
        files.request@ == joined_path(os, files.root@, "request.json"@),
        files.report@ == joined_path(os, files.root@, "report.json"@),
        files.script@ == joined_path(os, files.root@, "e2b_benchmark.py"@),
        files.venv@ == joined_path(os, files.root@, "venv"@),
{
    let stamp = now.saturating_add(pid as u64);
    let name = concat("microbox-e2b-", decimal_text(stamp as u128).as_str());
    let root = join_path(os, temp_dir, name.as_str());
    let request = join_path(os, root.as_str(), "request.json");
    let report = join_path(os, root.as_str(), "report.json");
    let script = join_path(os, root.as_str(), "e2b_benchmark.py");
    let venv = join_path(os, root.as_str(), "venv");
    RemoteFiles { root, request, report, script, venv }
}

/// What is sent to the hosted sandbox.
#[derive(Debug, Clone)]
pub struct RemoteBenchmarkRequest {
    pub iterations: u32,
    pub warmups: u32,
    pub timeout_secs: u64,
    pub e2b_domain: Option<String>,
    pub scenarios: Vec<RemoteScenarioSpec>,
}

/// What is sent to the hosted sandbox.
pub fn remote_request(
    args: &BenchArgs,
    scenarios: Vec<RemoteScenarioSpec>,
    e2b_domain: Option<String>,
) -> (request: RemoteBenchmarkRequest)
    ensures
        request.iterations == if args.iterations == 0 {
            1
        } else {
            args.iterations
        },
        request.warmups == args.warmups,
        request.timeout_secs == args.e2b_timeout_secs,
        request.e2b_domain == e2b_domain,
        request.scenarios == scenarios,
{
    RemoteBenchmarkRequest {
        iterations: effective_iterations(args.iterations),
        warmups: args.warmups,
        timeout_secs: args.e2b_timeout_secs,
        e2b_domain,
        scenarios,
    }
}

/// What a step of a run in the hosted sandbox came to.
#[derive(Debug, Clone)]
pub enum RemoteStep {
    /// It could not be started; the text tells why.
    NotStarted(String),
    /// It failed, with this on its error output.
    Failed(String),
    /// It was done.
    Done,
}

/// What is told of the virtual environment.
pub open spec fn venv_fault(created: RemoteStep, installed: RemoteStep) -> Option<Seq<char>> {
    match created {
        RemoteStep::NotStarted(reason) => Some("failed to create E2B venv: "@ + reason@),
        RemoteStep::Failed(_) => Some("failed to create E2B benchmark virtual environment"@),
        RemoteStep::Done => match installed {
            RemoteStep::NotStarted(reason) => Some("failed to install E2B SDK: "@ + reason@),
            RemoteStep::Failed(_) => Some(
                "failed to install E2B SDK into the benchmark virtual environment"@,
            ),
            RemoteStep::Done => None,
        },
    }
}

/// Checks that the virtual environment was made and the library installed in it.
pub fn ensure_e2b_venv(created: &RemoteStep, installed: &RemoteStep) -> (r: Result<
    (),
    SandboxError,
>)
    ensures
        match venv_fault(*created, *installed) {
            Some(text) => r matches Err(e) && e@ == SandboxFault::LaunchFailed(text),
            None => r == Ok::<(), SandboxError>(()),
        },
{
    match created {
        RemoteStep::NotStarted(reason) => return Err(
            SandboxError::LaunchFailed(concat("failed to create E2B venv: ", reason.as_str())),
        ),
        RemoteStep::Failed(_) => return Err(
            SandboxError::LaunchFailed(
                "failed to create E2B benchmark virtual environment".to_string(),
            ),
        ),
        RemoteStep::Done => {},
    }
    match installed {
        RemoteStep::NotStarted(reason) => Err(
            SandboxError::LaunchFailed(concat("failed to install E2B SDK: ", reason.as_str())),
        ),
        RemoteStep::Failed(_) => Err(
            SandboxError::LaunchFailed(
                "failed to install E2B SDK into the benchmark virtual environment".to_string(),
            ),
        ),
        RemoteStep::Done => Ok(()),
    }
}

/// Checks that the hosted run was done.
pub fn check_remote_run(step: &RemoteStep) -> (r: Result<(), SandboxError>)
    ensures
        match *step {
            RemoteStep::NotStarted(reason) => r matches Err(e) && e@ == SandboxFault::LaunchFailed(
                "failed to run E2B benchmark: "@ + reason@,
            ),
            RemoteStep::Failed(text) => r matches Err(e) && e@ == SandboxFault::LaunchFailed(
                "E2B benchmark failed: "@ + trimmed(text@),
            ),
            RemoteStep::Done => r == Ok::<(), SandboxError>(()),
        },
{
    match step {
        RemoteStep::NotStarted(reason) => Err(
            SandboxError::LaunchFailed(concat("failed to run E2B benchmark: ", reason.as_str())),
        ),
        RemoteStep::Failed(text) => Err(
            SandboxError::LaunchFailed(
                concat("E2B benchmark failed: ", trim(text.as_str()).as_str()),
            ),
        ),
        RemoteStep::Done => Ok(()),
    }
}

/// What reading a report came to.
#[derive(Debug)]
pub enum ReportSource {
    /// The file could not be read; the text tells why.
    Unreadable(String),
    /// The file is no report; the text tells why.
    Malformed(String),
    /// The report.
    Parsed(BenchmarkReport),
}

/// The report of the hosted run.
pub fn accept_remote_report(source: ReportSource) -> (r: Result<BenchmarkReport, SandboxError>)
    ensures
        match source {
            ReportSource::Unreadable(reason) => r matches Err(e) && e@
                == SandboxFault::LaunchFailed("failed to read E2B report: "@ + reason@),
            ReportSource::Malformed(reason) => r matches Err(e) && e@ == SandboxFault::LaunchFailed(
                "failed to parse E2B report: "@ + reason@,
            ),
            ReportSource::Parsed(report) => r == Ok::<BenchmarkReport, SandboxError>(report),
        },
{
    match source {
        ReportSource::Unreadable(reason) => Err(
            SandboxError::LaunchFailed(concat("failed to read E2B report: ", reason.as_str())),
        ),
        ReportSource::Malformed(reason) => Err(
            SandboxError::LaunchFailed(concat("failed to parse E2B report: ", reason.as_str())),
        ),
        ReportSource::Parsed(report) => Ok(report),
    }
}

/// The report of an earlier benchmark, read from `path`.
pub fn load_report(path: &str, source: ReportSource) -> (r: Result<BenchmarkReport, SandboxError>)
    ensures
        match source {
            ReportSource::Unreadable(reason) => r matches Err(e) && e@ == SandboxFault::Io(reason@),
            ReportSource::Malformed(reason) => r matches Err(e) && e@ == SandboxFault::LaunchFailed(
                "failed to parse baseline benchmark report "@ + path@ + ": "@ + reason@,
            ),
            ReportSource::Parsed(report) => r == Ok::<BenchmarkReport, SandboxError>(report),
        },
{
    match source {
        ReportSource::Unreadable(reason) => Err(SandboxError::Io(reason)),
        ReportSource::Malformed(reason) => {
            let mut text = concat("failed to parse baseline benchmark report ", path);
            text.append(": ");
            text.append(reason.as_str());
            Err(SandboxError::LaunchFailed(text))
        },
        ReportSource::Parsed(report) => Ok(report),
    }
}

} // verus!
