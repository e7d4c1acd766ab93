//! What holds of the other sandboxes that a benchmark runs in.
use crate::args::PeerTarget;
use crate::backend::{bind_options, env_options, launcher_options};
use crate::command::written_plan;
use crate::errors::SandboxFault;
use crate::launch::HostOs;
use crate::peers::{
    bwrap_args, bwrap_obstacle, chosen_targets, container_args, container_env, container_obstacle,
    first_found, firejail_args, firejail_obstacle, lost_reason, meant_targets,
    python_names, run_number, target_name, tells_peer, venv_fault, which_path,
    with_targets, PeerAvailability, RemoteStep, WhichReply,
};
use crate::report::{BenchmarkReport, ReportFacts};
use crate::request::RequestModel;
use crate::text::{pieces, texts, trimmed};
use vstd::prelude::*;

verus! {

broadcast use vstd::seq::group_seq_axioms;

// ---------------------------------------------------------------------------
// Which ones

/// What `auto` stands for: every sandbox that can be used here; the launcher and Firejail only
/// on Linux. Any other target stands for itself.
pub proof fn lemma_what_targets_mean(
    target: PeerTarget,
    here: PeerAvailability,
    os: HostOs,
    x: PeerTarget,
)
    ensures
        target == PeerTarget::Auto ==> (meant_targets(target, here, os).contains(x) <==> {
            ||| x == PeerTarget::E2b && here.e2b
            ||| x == PeerTarget::Docker && here.docker
            ||| x == PeerTarget::Podman && here.podman
            ||| x == PeerTarget::Bubblewrap && os == HostOs::Linux && here.bwrap
            ||| x == PeerTarget::Firejail && os == HostOs::Linux && here.firejail
        }),
        target != PeerTarget::Auto ==> (meant_targets(target, here, os).contains(x) <==> x
            == target),
{
    let m = meant_targets(target, here, os);
    if target != PeerTarget::Auto {
        assert(m[0] == target);
    } else {
        let linux = os == HostOs::Linux;
        let a = if here.e2b {
            1int
        } else {
            0
        };
        let b = a + if here.docker {
            1int
        } else {
            0
        };
        let c = b + if here.podman {
            1int
        } else {
            0
        };
        let d = c + if linux && here.bwrap {
            1int
        } else {
            0
        };
        if here.e2b {
            assert(m[0] == PeerTarget::E2b);
        }
        if here.docker {
            assert(m[a] == PeerTarget::Docker);
        }
        if here.podman {
            assert(m[b] == PeerTarget::Podman);
        }
        if linux && here.bwrap {
            assert(m[c] == PeerTarget::Bubblewrap);
        }
        if linux && here.firejail {
            assert(m[d] == PeerTarget::Firejail);
        }
    }
}

proof fn lemma_with_members(list: Seq<PeerTarget>, more: Seq<PeerTarget>, x: PeerTarget)
    ensures
        with_targets(list, more).contains(x) <==> list.contains(x) || more.contains(x),
    decreases more.len(),
{
    if more.len() > 0 {
        let t = more.drop_last();
        lemma_with_members(list, t, x);
        let before = with_targets(list, t);
        let all = with_targets(list, more);
        if more.contains(x) {
            let k = choose|k: int| 0 <= k < more.len() && more[k] == x;
            if k < t.len() {
                assert(t[k] == x);
            } else if !before.contains(x) {
                assert(all[before.len() as int] == x);
            }
        }
        if t.contains(x) {
            let k = choose|k: int| 0 <= k < t.len() && t[k] == x;
            assert(more[k] == x);
        }
        if before.contains(x) {
            let k = choose|k: int| 0 <= k < before.len() && before[k] == x;
            assert(all[k] == x);
        }
        if all.contains(x) {
            let k = choose|k: int| 0 <= k < all.len() && all[k] == x;
            if k < before.len() {
                assert(before[k] == x);
            } else {
                assert(more[more.len() - 1] == x);
            }
        }
    }
}

/// Which sandboxes a benchmark runs in: those that some entry of the list stands for, and no
/// others.
pub proof fn lemma_which_targets(
    raw: Seq<PeerTarget>,
    here: PeerAvailability,
    os: HostOs,
    x: PeerTarget,
)
    ensures
        chosen_targets(raw, here, os).contains(x) <==> exists|i: int|
            0 <= i < raw.len() && meant_targets(#[trigger] raw[i], here, os).contains(x),
    decreases raw.len(),
{
    if raw.len() > 0 {
        let t = raw.drop_last();
        lemma_which_targets(t, here, os, x);
        lemma_with_members(chosen_targets(t, here, os), meant_targets(raw.last(), here, os), x);
        if exists|i: int| 0 <= i < t.len() && meant_targets(#[trigger] t[i], here, os).contains(x) {
            let i = choose|i: int|
                0 <= i < t.len() && meant_targets(#[trigger] t[i], here, os).contains(x);
            assert(meant_targets(raw[i], here, os).contains(x));
        }
        if exists|i: int|
            0 <= i < raw.len() && meant_targets(#[trigger] raw[i], here, os).contains(x) {
            let i = choose|i: int|
                0 <= i < raw.len() && meant_targets(#[trigger] raw[i], here, os).contains(x);
            if i < t.len() {
                assert(meant_targets(t[i], here, os).contains(x));
            }
        }
        if meant_targets(raw.last(), here, os).contains(x) {
            assert(meant_targets(raw[raw.len() - 1], here, os).contains(x));
        }
    }
}

/// What the sandboxes are called.
pub proof fn lemma_target_names()
    ensures
        target_name(PeerTarget::Auto) == "auto"@,
        target_name(PeerTarget::E2b) == "e2b"@,
        target_name(PeerTarget::Docker) == "docker"@,
        target_name(PeerTarget::Podman) == "podman"@,
        target_name(PeerTarget::Bubblewrap) == "bwrap"@,
        target_name(PeerTarget::Firejail) == "firejail"@,
{
}

/// When a sandbox is measured: it must be there and ready, the launcher and Firejail on Linux
/// only; and the policy must list no endpoint, since the others run without network. A
/// container runtime that is not ready is quoted where it says why.
pub proof fn lemma_when_measured(
    runtime: Seq<char>,
    ready: bool,
    complaint: Option<Seq<char>>,
    network: bool,
    os: HostOs,
    installed: bool,
)
    ensures
        container_obstacle(runtime, ready, complaint, network) is None <==> ready && !network,
        bwrap_obstacle(os, network) is None <==> os == HostOs::Linux && !network,
        firejail_obstacle(os, installed, network) is None <==> os == HostOs::Linux && installed
            && !network,
        !ready && complaint is Some && trimmed(complaint->0).len() > 0 ==> container_obstacle(
            runtime,
            ready,
            complaint,
            network,
        ) == Some(trimmed(complaint->0)),
        !ready && (complaint is None || trimmed(complaint->0).len() == 0) ==> container_obstacle(
            runtime,
            ready,
            complaint,
            network,
        ) == Some(runtime + " daemon is not reachable"@),
        ready && network ==> container_obstacle(runtime, ready, complaint, network) == Some(
            "peer sandbox comparison currently supports the built-in no-network suite only"@,
        ),
        os != HostOs::Linux ==> bwrap_obstacle(os, network) == Some(
            "bubblewrap peer target is only available on Linux"@,
        ) && firejail_obstacle(os, installed, network) == Some(
            "firejail peer target is only available on Linux"@,
        ),
        os == HostOs::Linux && !installed ==> firejail_obstacle(os, installed, network) == Some(
            "firejail is not installed"@,
        ),
        os == HostOs::Linux && network ==> bwrap_obstacle(os, network) == Some(
            "peer sandbox comparison currently supports the built-in no-network suite only"@,
        ),
        lost_reason(PeerTarget::Bubblewrap) == "bubblewrap is not available"@,
        lost_reason(PeerTarget::Firejail) == "firejail could not launch the peer scenario"@,
{
}

/// What is told of a sandbox that was measured: its own name, whether it enforces, how often it
/// was run, and no effort of the user's.
pub proof fn lemma_peer_reports(
    report: BenchmarkReport,
    facts: ReportFacts,
    target: PeerTarget,
    image: Seq<char>,
    iterations: u32,
    warmups: u32,
)
    requires
        tells_peer(report, facts, target, image, iterations, warmups),
    ensures
        report.profile@ == "peer"@,
        report.backend_selected@ == target_name(target),
        report.backend_requested@ == target_name(target),
        report.backend_secure_enforcement <==> target == PeerTarget::Bubblewrap || target
            == PeerTarget::Firejail,
        report.comparison_baseline@ == "microbox-peer"@,
        report.iterations == iterations,
        report.warmups == warmups,
        report.mode@ == "suite"@,
        report.adoption.setup_steps == 1,
        report.adoption.friction_score == 1,
        report.adoption.explicit_policy_flags == 0,
        report.adoption.explicit_benchmark_flags == 0,
        report.adoption.first_successful_run_us is None,
        report.adoption.first_successful_scenario is None,
        report.summary.scenario_count == report.scenarios@.len(),
        report.tool@ == facts.tool@,
        report.version@ == facts.version@,
        report.generated_at_unix == facts.generated_at_unix,
        report.policy_resolution_us == facts.policy_resolution_us,
        report.baseline_report_path is None,
        target == PeerTarget::Docker || target == PeerTarget::Podman ==> texts(
            report.backend_notes@,
        ) == seq![target_name(target) + " peer target benchmark"@, "container image: "@ + image],
{
}

// ---------------------------------------------------------------------------
// Commands

proof fn lemma_container_settings(vars: Seq<(Seq<char>, Seq<char>)>, i: int)
    requires
        0 <= i < vars.len(),
    ensures
        container_env(vars).len() == 2 * vars.len(),
        container_env(vars)[2 * i] == "-e"@,
        container_env(vars)[2 * i + 1] == vars[i].0 + "="@ + vars[i].1,
    decreases vars.len(),
{
    let t = vars.drop_last();
    if t.len() > 0 {
        lemma_container_settings(t, if i < t.len() {
            i
        } else {
            0
        });
    }
    assert(t.len() == 0 ==> container_env(t).len() == 0);
    if i < t.len() {
        assert(t[i] == vars[i]);
    }
}

/// How a command runs in a container: one that is removed afterwards, without network, with
/// the working directory as its own, each variable set to its value, and the command as one
/// line for the shell of the image.
pub proof fn lemma_container_commands(
    image: Seq<char>,
    request: RequestModel,
    env: Seq<(Seq<char>, Seq<char>)>,
    i: int,
)
    ensures
        ({
            let a = container_args(image, request, env);
            let n = 2 * (env.len() as int);
            &&& a.len() == 12 + n
            &&& a[0] == "run"@ && a[1] == "--rm"@
            &&& a[2] == "--network"@ && a[3] == "none"@
            &&& a[4] == "-v"@ && a[5] == request.working_dir + ":/work"@
            &&& a[6] == "-w"@ && a[7] == "/work"@
            &&& a[8 + n] == image
            &&& a[9 + n] == "sh"@ && a[10 + n] == "-lc"@
            &&& a[11 + n] == written_plan(request.command)
            &&& 0 <= i < env.len() ==> a[8 + 2 * i] == "-e"@ && a[9 + 2 * i] == env[i].0 + "="@
                + env[i].1
        }),
{
    let a = container_args(image, request, env);
    let e = container_env(env);
    if env.len() > 0 {
        lemma_container_settings(env, 0);
    }
    let n = 2 * (env.len() as int);
    assert(e.len() == n);
    let tail = seq![image, "sh"@, "-lc"@, written_plan(request.command)];
    assert(a[8 + n] == tail[0] && a[9 + n] == tail[1] && a[10 + n] == tail[2] && a[11 + n]
        == tail[3]);
    if 0 <= i < env.len() {
        lemma_container_settings(env, i);
        assert(a[8 + 2 * i] == e[2 * i]);
        assert(a[9 + 2 * i] == e[2 * i + 1]);
    }
}

/// How a command runs by the launcher: confined as always, in the working directory, which
/// alone is writable, with its variables, and as one line for the shell.
pub proof fn lemma_launcher_commands(request: RequestModel, env: Seq<(Seq<char>, Seq<char>)>)
    ensures
        ({
            let a = bwrap_args(request, env);
            &&& a.take(20) == launcher_options()
            &&& a[20] == "--chdir"@ && a[21] == request.working_dir
            &&& a[22] == "--bind"@ && a[23] == request.working_dir && a[24] == request.working_dir
            &&& a.len() == 29 + env_options(env).len()
            &&& a[a.len() - 4] == "--"@
            &&& a[a.len() - 3] == "/bin/sh"@
            &&& a[a.len() - 2] == "-lc"@
            &&& a[a.len() - 1] == written_plan(request.command)
        }),
{
    let a = bwrap_args(request, env);
    let one = seq![request.working_dir];
    reveal_with_fuel(bind_options, 2);
    assert(one.drop_last() =~= Seq::<Seq<char>>::empty());
    assert(bind_options(one) =~= seq!["--bind"@, request.working_dir, request.working_dir]);
    assert(a.take(20) =~= launcher_options());
}

/// How a command runs in Firejail: without a profile, network, sound and capabilities, in a
/// private home and in the working directory, as one line for the shell.
pub proof fn lemma_firejail_commands(request: RequestModel)
    ensures
        ({
            let a = firejail_args(request);
            &&& a.len() == 12
            &&& a[0] == "--quiet"@ && a[1] == "--noprofile"@ && a[2] == "--private"@
            &&& a[3] == "--net=none"@ && a[4] == "--nosound"@ && a[5] == "--caps.drop=all"@
            &&& a[6] == "--chdir"@ && a[7] == request.working_dir
            &&& a[8] == "--"@ && a[9] == "/bin/sh"@ && a[10] == "-lc"@
            &&& a[11] == written_plan(request.command)
        }),
{
}

// ---------------------------------------------------------------------------
// The hosted sandbox

/// Where the system says a program is: in the first line of its answer. A blank line, no
/// answer and a failure each name the program in the fault.
pub proof fn lemma_where_the_system_says(executable: Seq<char>, reply: WhichReply)
    ensures
        reply matches WhichReply::Found(text) ==> {
            let line = trimmed(pieces(text@, '\n')[0]);
            &&& line.len() > 0 ==> which_path(executable, reply) == Ok::<Seq<char>, SandboxFault>(
                line,
            )
            &&& line.len() == 0 ==> which_path(executable, reply) == Err::<Seq<char>, SandboxFault>(
                SandboxFault::BackendUnavailable("could not locate "@ + executable),
            )
        },
        reply is Unknown ==> which_path(executable, reply) == Err::<Seq<char>, SandboxFault>(
            SandboxFault::BackendUnavailable("could not locate "@ + executable),
        ),
        reply matches WhichReply::Failed(reason) ==> which_path(executable, reply) == Err::<
            Seq<char>,
            SandboxFault,
        >(SandboxFault::LaunchFailed("failed to locate "@ + executable + ": "@ + reason@)),
{
}

/// Which interpreter is used: the first of the names that the system finds.
pub proof fn lemma_which_interpreter(
    names: Seq<Seq<char>>,
    replies: Seq<WhichReply>,
    from: int,
)
    requires
        0 <= from <= names.len(),
        names.len() == replies.len(),
    ensures
        first_found(names, replies, from) is Some ==> exists|i: int|
            from <= i < names.len() && which_path(#[trigger] names[i], replies[i]) == Ok::<
                Seq<char>,
                SandboxFault,
            >(first_found(names, replies, from)->0) && forall|j: int|
                from <= j < i ==> which_path(#[trigger] names[j], replies[j]) is Err,
        first_found(names, replies, from) is None ==> forall|j: int|
            from <= j < names.len() ==> which_path(#[trigger] names[j], replies[j]) is Err,
    decreases names.len() - from,
{
    if from < names.len() {
        if which_path(names[from], replies[from]) is Err {
            lemma_which_interpreter(names, replies, from + 1);
            if first_found(names, replies, from + 1) is Some {
                let i = choose|i: int|
                    from + 1 <= i < names.len() && which_path(#[trigger] names[i], replies[i])
                        == Ok::<Seq<char>, SandboxFault>(
                        first_found(names, replies, from + 1)->0,
                    ) && forall|j: int|
                        from + 1 <= j < i ==> which_path(#[trigger] names[j], replies[j]) is Err;
                assert(which_path(names[i], replies[i]) == Ok::<Seq<char>, SandboxFault>(
                    first_found(names, replies, from)->0,
                ));
            }
        } else {
            assert(which_path(names[from], replies[from]) is Ok);
        }
    }
}

/// The names that the interpreter goes by.
pub proof fn lemma_interpreter_names(os: HostOs)
    ensures
        os == HostOs::Windows ==> python_names(os) == seq!["python.exe"@, "python"@],
        os != HostOs::Windows ==> python_names(os) == seq!["python3"@, "python"@],
{
}

/// When the virtual environment is ready: it was made, and the library was installed in it.
/// What went wrong first is told.
pub proof fn lemma_virtual_environment(created: RemoteStep, installed: RemoteStep)
    ensures
        venv_fault(created, installed) is None <==> created is Done && installed is Done,
        created matches RemoteStep::NotStarted(reason) ==> venv_fault(created, installed) == Some(
            "failed to create E2B venv: "@ + reason@,
        ),
        created is Failed ==> venv_fault(created, installed) == Some(
            "failed to create E2B benchmark virtual environment"@,
        ),
        created is Done ==> (installed matches RemoteStep::NotStarted(reason) ==> venv_fault(
            created,
            installed,
        ) == Some("failed to install E2B SDK: "@ + reason@)),
        created is Done && installed is Failed ==> venv_fault(created, installed) == Some(
            "failed to install E2B SDK into the benchmark virtual environment"@,
        ),
{
}

/// The number of a run is the sum of time and process, as far as it fits.
pub proof fn lemma_run_numbers(now: u64, pid: u32)
    ensures
        now + pid <= 0xffff_ffff_ffff_ffff ==> run_number(now, pid) == now + pid,
        now + pid > 0xffff_ffff_ffff_ffff ==> run_number(now, pid) == 0xffff_ffff_ffff_ffff,
{
}

} // verus!
