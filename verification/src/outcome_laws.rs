//! What the functions of the library hand back, stated of their results.
use crate::args::{BaselineSource, BenchArgs, BenchmarkProfile, OutputFormat, PeerTarget};
use crate::backend::{
    fallback_plan, join_pipe, launch_error, receive_listener_fd, retries_in_shell, select_backend,
    Backend, BackendPreference, ListenerTransfer, PipeRead,
};
use crate::command::{written_plan, CommandPlan};
use crate::config_laws::{file_lists, lemma_config_reaches_policy};
use crate::duration::Duration;
use crate::diagnose::{validation_exit_code, ValidationReport};
use crate::errors::{sandbox_message, PolicyError, SandboxError, SandboxFault};
use crate::glob::any_pattern_matches;
use crate::hardening::{
    cgroup_plan, ends_group, id_map, launcher_limits, set_resource_limits, CgroupPlan, HardeningStep,
    LinuxHardeningPlan, Resource, RunMode,
};
use crate::hardening_laws::lemma_steps_of_modes;
use crate::launch::{command_env, opt_list, CommandSpec, Host, HostOs};
use crate::layers::{ConfigFile, PolicyOverrides, PolicySpec};
use crate::levels::PresetKind;
use crate::network::{
    answer_call, call_kind, network_addr_allowed, network_addr_is_loopback,
    resolve_network_allowlist, socket_params_allowed, CallKind, LinuxNetworkPolicy, NetworkCall,
    NotifResponse, Resolution, SocketAddress,
};
use crate::network_laws::{
    lemma_allowlist_is_what_was_found, lemma_allowlist_or_first_fault,
};
use crate::number::decimal;
use crate::paths::joined_path;
use crate::peers::{
    accept_remote_report, build_e2b_peer_report, check_api_key, check_remote_run, load_report,
    peer_command, peer_outcome, remote_files, remote_request, venv_python_path, which_program,
    RemoteBenchmarkRequest, RemoteFiles, RemoteStep, ReportSource,
};
use crate::policy::{pair_texts, resolve_policy, ResolvedPolicy};
use crate::render::{ended, md_lines, render_report, text_lines};
use crate::report::{
    benchmark_exit_code, build_benchmark_report, BenchmarkReport, PeerBenchmarkReport,
};
use crate::request::{ExecutionResult, ProcessOutput, RunRequest};
use crate::runner::{config_path, error_exit_code, print_plan, PrintPlan};
use crate::sampling::{
    counted, micros_u64, portable_labels, sample_of, scenario_labels, stopped_at, RunSample,
    ScenarioLabels, ScenarioReport, ScenarioRun,
};
use crate::sampling_laws::{counts, lemma_late_if_a_run_was, lemma_report_of_runs};
use crate::scenario::{
    check_baseline, effective_iterations, pauses_after, portable_scenarios_to_specs, portable_views,
    remote_views, schedule, BenchmarkScenario, PortableScenario, RemoteScenarioSpec, Schedule,
};
use crate::seccomp::{
    denied_syscalls, seccomp_filter_allowlist, seccomp_filter_hermetic, user_notif_syscalls,
    verdict, CallData, MachineArch, SockFilter, SyscallNumbers,
};
use crate::seccomp_laws::{
    lemma_allowlist_verdicts, lemma_hermetic_verdicts, lemma_refused_by_name,
    lemma_supervised_by_name,
};
use crate::text::{opt_text, opt_texts, texts, trimmed};
use crate::workspace::{
    add_snapshot, copy_action, new_record, restore_source, slug, snapshot_note, summarize_run, touch,
    CopyAction, EntryKind, WorkspacePlan, WorkspaceRecord, WorkspaceRunSummary,
    WorkspaceSnapshotRecord, WorkspaceStore,
};
use crate::workspace_laws::{lemma_first_snapshot, lemma_left_out, lemma_when_made};
use vstd::prelude::*;
use vstd::utf8::{decode_utf8, encode_utf8, valid_utf8};

verus! {

broadcast use vstd::seq::group_seq_axioms;

// ---------------------------------------------------------------------------
// Network

/// The policy that the look-ups come to holds every address that they found, none that they
/// did not, and there is one if and only if every entry has an address.
pub proof fn lemma_resolved_allowlist(
    entries: &Vec<String>,
    found: &Vec<Resolution>,
    r: Result<LinuxNetworkPolicy, SandboxError>,
)
    requires
        entries.len() == found.len(),
        call_ensures(resolve_network_allowlist, (entries, found), r),
    ensures
        r matches Ok(policy) ==> {
            &&& forall|i: int|
                0 <= i < found.len() ==> (#[trigger] found@[i]) is Addresses
                    && found@[i]->Addresses_0@.len() > 0
            &&& forall|i: int, j: int|
                0 <= i < found.len() && 0 <= j < found@[i]->Addresses_0@.len()
                    ==> policy.allowed_addrs@.contains(#[trigger] found@[i]->Addresses_0@[j])
            &&& forall|a: SocketAddress| #[trigger]
                policy.allowed_addrs@.contains(a) ==> exists|i: int, j: int|
                    0 <= i < found.len() && 0 <= j < found@[i]->Addresses_0@.len()
                        && #[trigger] found@[i]->Addresses_0@[j] == a
            &&& policy.allowed_addrs@.no_duplicates()
        },
        (forall|i: int|
            0 <= i < found.len() ==> (#[trigger] found@[i]) is Addresses
                && found@[i]->Addresses_0@.len() > 0) ==> r is Ok,
{
    let all = texts(entries@);
    if let Ok(policy) = r {
        lemma_allowlist_is_what_was_found(all, found@, policy);
    }
    if forall|i: int|
        0 <= i < found.len() ==> (#[trigger] found@[i]) is Addresses
            && found@[i]->Addresses_0@.len() > 0 {
        lemma_allowlist_or_first_fault(all, found@, found.len() as int);
    }
}

/// Whether an address may be reached: where the policy lists it, or it is one of the machine
/// itself.
pub proof fn lemma_reached_addresses(policy: &LinuxNetworkPolicy, a: SocketAddress, r: bool, l: bool)
    requires
        call_ensures(network_addr_allowed, (policy, a), r),
        call_ensures(network_addr_is_loopback, (a,), l),
    ensures
        r <==> policy.allowed_addrs@.contains(a) || l,
        l <==> {
            ||| a matches SocketAddress::V4 { address, .. } && 0x7f00_0000 <= address
                <= 0x7fff_ffff
            ||| a matches SocketAddress::V6 { address, .. } && address == 1
        },
{
    assert(policy@.contains(a) == policy.allowed_addrs@.contains(a));
}

/// Which sockets may be opened.
pub proof fn lemma_socket_outcome(domain: i32, ty: i32, r: bool)
    requires
        call_ensures(socket_params_allowed, (domain, ty), r),
    ensures
        r <==> (domain == 1 || domain == 2 || domain == 10) && (ty & 0xf == 1 || ty & 0xf == 2 || ty
            & 3 == 0),
{
}

/// An answer bears the number of its call; it either lets the call go on without an error or
/// fails it with one, never both.
pub proof fn lemma_answer_outcome(
    policy: &LinuxNetworkPolicy,
    id: u64,
    call: NetworkCall,
    answer: NotifResponse,
)
    requires
        call_ensures(answer_call, (policy, id, call), answer),
    ensures
        answer.id == id,
        answer.val == 0,
        answer.flags == 1 && answer.error == 0 || answer.flags == 0 && answer.error == 13,
{
}

/// Which supervised call a number stands for, by name.
pub proof fn lemma_call_kinds(n: &SyscallNumbers, nr: u32, kind: CallKind)
    requires
        call_ensures(call_kind, (n, nr), kind),
    ensures
        nr == n.socket ==> kind == CallKind::Socket,
        nr == n.bind && nr != n.socket ==> kind == CallKind::Bind,
        nr == n.connect && nr != n.socket && nr != n.bind ==> kind == CallKind::Connect,
        nr == n.sendto && nr != n.socket && nr != n.bind && nr != n.connect ==> kind
            == CallKind::SendTo,
        nr == n.sendmsg && nr != n.socket && nr != n.bind && nr != n.connect && nr != n.sendto
            ==> kind == CallKind::SendMsg,
        kind == CallKind::Other <==> nr != n.socket && nr != n.bind && nr != n.connect && nr
            != n.sendto && nr != n.sendmsg,
{
}

// ---------------------------------------------------------------------------
// System call filters

/// The lists of calls, by name.
pub proof fn lemma_listed_calls(
    n: &SyscallNumbers,
    denied: Vec<u32>,
    supervised: Vec<u32>,
    nr: u32,
)
    requires
        call_ensures(denied_syscalls, (n,), denied),
        call_ensures(user_notif_syscalls, (n,), supervised),
    ensures
        denied@.contains(nr) <==> {
            ||| nr == n.listen
            ||| nr == n.accept
            ||| nr == n.accept4
            ||| nr == n.recvfrom
            ||| nr == n.recvmsg
            ||| nr == n.setsockopt
            ||| nr == n.getsockopt
            ||| nr == n.shutdown
            ||| nr == n.unshare
            ||| nr == n.mount
            ||| nr == n.umount2
            ||| nr == n.pivot_root
            ||| nr == n.chroot
            ||| nr == n.ptrace
            ||| nr == n.bpf
            ||| nr == n.perf_event_open
            ||| nr == n.keyctl
            ||| nr == n.add_key
            ||| nr == n.request_key
            ||| nr == n.kexec_load
            ||| nr == n.init_module
            ||| nr == n.finit_module
            ||| nr == n.delete_module
            ||| nr == n.reboot
            ||| nr == n.clone3
        },
        supervised@.contains(nr) <==> {
            ||| nr == n.socket
            ||| nr == n.bind
            ||| nr == n.connect
            ||| nr == n.sendto
            ||| nr == n.sendmsg
        },
{
    lemma_refused_by_name(*n, nr);
    lemma_supervised_by_name(*n, nr);
}

/// The filters of the two machines: both are made for them and for no other. On the machine of
/// the filter a call to listen, to trace or to mount fails under both, unless the one with an
/// allowlist hands calls of the same number to its supervisor, as it does with a call to
/// connect. A call of another machine ends the process.
pub proof fn lemma_filters(
    arch: MachineArch,
    n: &SyscallNumbers,
    hermetic: Result<Vec<SockFilter>, &'static str>,
    supervised: Result<Vec<SockFilter>, &'static str>,
    call: CallData,
)
    requires
        call_ensures(seccomp_filter_hermetic, (arch, n), hermetic),
        call_ensures(seccomp_filter_allowlist, (arch, n), supervised),
    ensures
        hermetic is Ok <==> arch == MachineArch::X86_64 || arch == MachineArch::Aarch64,
        supervised is Ok <==> arch == MachineArch::X86_64 || arch == MachineArch::Aarch64,
        (arch == MachineArch::X86_64 && call.arch == 0xC000_003E || arch == MachineArch::Aarch64
            && call.arch == 0xC000_00B7) ==> {
            let opened = call.nr == n.socket || call.nr == n.bind || call.nr == n.connect || call.nr
                == n.sendto || call.nr == n.sendmsg;
            let refused = call.nr == n.listen || call.nr == n.accept || call.nr == n.ptrace
                || call.nr == n.mount || call.nr == n.unshare || call.nr == n.bpf || call.nr
                == n.reboot;
            &&& refused ==> verdict(hermetic->Ok_0@, call) == Some(0x0005_0001u32)
            &&& opened ==> verdict(supervised->Ok_0@, call) == Some(0x7fc0_0000u32)
            &&& refused && !opened ==> verdict(supervised->Ok_0@, call) == Some(0x0005_0001u32)
        },
        (arch == MachineArch::X86_64 && call.arch != 0xC000_003E || arch == MachineArch::Aarch64
            && call.arch != 0xC000_00B7) ==> verdict(hermetic->Ok_0@, call) == Some(0x8000_0000u32)
            && verdict(supervised->Ok_0@, call) == Some(0x8000_0000u32),
{
    let a: u32 = if arch == MachineArch::X86_64 {
        0xC000_003E
    } else {
        0xC000_00B7
    };
    if arch == MachineArch::X86_64 || arch == MachineArch::Aarch64 {
        lemma_hermetic_verdicts(a, *n, hermetic->Ok_0@, call);
        lemma_allowlist_verdicts(a, *n, supervised->Ok_0@, call);
    }
}

// ---------------------------------------------------------------------------
// Policy

/// The layer of a configuration file has each of its settings, and none that it does not have.
pub proof fn lemma_config_layer_fields(file: &ConfigFile, spec: PolicySpec)
    requires
        call_ensures(ConfigFile::to_spec, (file,), spec),
    ensures
        file.sandbox matches Some(s) ==> {
            &&& spec.level == s.level
            &&& opt_text(spec.timeout) == opt_text(s.timeout)
            &&& spec.max_cpu == s.max_cpu
            &&& opt_text(spec.max_ram) == opt_text(s.max_ram)
            &&& opt_text(spec.max_disk) == opt_text(s.max_disk)
        },
        file.sandbox is None ==> spec.level is None && spec.timeout is None && spec.max_cpu is None
            && spec.max_ram is None && spec.max_disk is None,
        file.network matches Some(n) ==> {
            &&& opt_texts(spec.allow_net) == opt_texts(n.allow)
            &&& spec.network_deny_all_other == n.deny_all_other
        },
        file.network is None ==> spec.allow_net is None && spec.network_deny_all_other is None,
        file.filesystem matches Some(f) ==> {
            &&& opt_texts(spec.filesystem_writable) == opt_texts(f.writable)
            &&& opt_texts(spec.filesystem_readonly) == opt_texts(f.readonly)
            &&& opt_texts(spec.filesystem_deny) == opt_texts(f.deny)
        },
        file.filesystem is None ==> spec.filesystem_writable is None && spec.filesystem_readonly
            is None && spec.filesystem_deny is None,
        file.environment matches Some(e) ==> {
            &&& opt_texts(spec.env_passthrough) == opt_texts(e.passthrough)
            &&& opt_texts(spec.env_deny) == opt_texts(e.deny)
        },
        file.environment is None ==> spec.env_passthrough is None && spec.env_deny is None,
{
    assert(spec@.allow_net == opt_texts(spec.allow_net));
    assert(spec@.env_deny == opt_texts(spec.env_deny));
}

/// The layer of the command line has each of its settings.
pub proof fn lemma_override_layer_fields(overrides: PolicyOverrides, spec: PolicySpec)
    requires
        call_ensures(PolicyOverrides::to_spec, (overrides,), spec),
    ensures
        spec.level == overrides.level,
        opt_texts(spec.allow_net) == opt_texts(overrides.allow_net),
        spec.network_deny_all_other == overrides.network_deny_all_other,
        opt_texts(spec.filesystem_writable) == opt_texts(overrides.filesystem_writable),
        opt_texts(spec.filesystem_readonly) == opt_texts(overrides.filesystem_readonly),
        opt_texts(spec.filesystem_deny) == opt_texts(overrides.filesystem_deny),
        opt_texts(spec.env_passthrough) == opt_texts(overrides.env_passthrough),
        opt_texts(spec.env_deny) == opt_texts(overrides.env_deny),
        spec.max_cpu == overrides.max_cpu,
        opt_text(spec.max_ram) == opt_text(overrides.max_ram),
        opt_text(spec.max_disk) == opt_text(overrides.max_disk),
        opt_text(spec.timeout) == opt_text(overrides.timeout),
{
}

/// A pattern that the configuration file denies is among the patterns of the policy that is
/// handed back, and so are its endpoints; a level of the file is the policy's where the command
/// line has none.
pub proof fn lemma_resolved_policy_has_the_config(
    os: HostOs,
    working_dir: &str,
    temp_dir: &str,
    preset: Option<PresetKind>,
    file: ConfigFile,
    overrides: PolicyOverrides,
    policy: ResolvedPolicy,
    x: Seq<char>,
)
    requires
        call_ensures(
            resolve_policy,
            (os, working_dir, temp_dir, preset, Some(file), overrides),
            Ok::<ResolvedPolicy, PolicyError>(policy),
        ),
    ensures
        file.environment matches Some(e) ==> (x.len() > 0 && file_lists(e.deny, x) ==> texts(
            policy.env_deny@,
        ).contains(x)),
        file.environment matches Some(e) ==> (x.len() > 0 && file_lists(e.passthrough, x)
            && !any_pattern_matches(texts(policy.env_deny@), x) ==> texts(
            policy.env_passthrough@,
        ).contains(x)),
        file.network matches Some(n) ==> (x.len() > 0 && file_lists(n.allow, x) ==> texts(
            policy.allow_net@,
        ).contains(x)),
        file.sandbox matches Some(s) ==> (s.level is Some && overrides.level is None
            ==> policy.level == s.level->0),
        policy.working_dir@ == working_dir@,
{
    lemma_config_reaches_policy(
        os,
        working_dir@,
        temp_dir@,
        preset,
        file,
        overrides@,
        policy@,
        x,
    );
}

// ---------------------------------------------------------------------------
// Runs

/// What a report keeps of a run.
pub proof fn lemma_sample_of_a_run(result: &ExecutionResult, s: RunSample)
    requires
        call_ensures(sample_of, (result,), s),
    ensures
        s.duration == result.duration,
        s.timed_out == result.timed_out,
        result.timed_out ==> s.exit_code == 124,
        !result.timed_out && result.status is Some ==> s.exit_code == result.status->0,
        !result.timed_out && result.status is None ==> s.exit_code == 1,
        s.stdout_bytes == encode_utf8(result.stdout@).len(),
        s.stderr_bytes == encode_utf8(result.stderr@).len(),
{
}

/// A span in microseconds.
pub proof fn lemma_micros(d: Duration, micros: u64)
    requires
        call_ensures(micros_u64, (d,), micros),
    ensures
        d@ / 1_000 <= 0xffff_ffff_ffff_ffff ==> micros == d@ / 1_000,
        d@ / 1_000 > 0xffff_ffff_ffff_ffff ==> micros == 0xffff_ffff_ffff_ffff,
{
}

/// The report on a measured scenario bears its labels, and says that it was late if and only if
/// a run that counts was, and that it succeeded if and only if every run behind the warmups
/// did and there was one.
pub proof fn lemma_finished_scenario(run: ScenarioRun, report: ScenarioReport)
    requires
        call_ensures(ScenarioRun::finish, (run,), report),
        stopped_at(run.runs(), run.warmup_count()) is None,
    ensures
        report.name@ == run.scenario().name,
        report.description@ == run.scenario().description,
        report.command@ == run.scenario().command,
        texts(report.notes@) == run.scenario().notes,
        report.comparison is None,
        ({
            let runs = counted(run.runs(), run.warmup_count());
            &&& report.timed_out <==> exists|i: int|
                counts(runs, i) && (#[trigger] runs[i]) is Ok && runs[i]->Ok_0.timed_out
            &&& report.success <==> runs.len() > 0 && forall|i: int|
                0 <= i < runs.len() ==> (#[trigger] runs[i]) is Ok && runs[i]->Ok_0.exit_code == 0
                    && !runs[i]->Ok_0.timed_out
        }),
{
    let runs = counted(run.runs(), run.warmup_count());
    lemma_late_if_a_run_was(runs);
    lemma_report_of_runs(report, runs);
}

/// What a process left behind is kept: its code, its output and its error output, each as
/// text, and how long it took; it was not late.
pub proof fn lemma_result_of_a_process(
    output: ProcessOutput,
    duration: Duration,
    r: ExecutionResult,
)
    requires
        call_ensures(ExecutionResult::from_output, (output, duration), r),
    ensures
        r.status == output.status,
        valid_utf8(output.stdout@) ==> r.stdout@ == decode_utf8(output.stdout@),
        valid_utf8(output.stderr@) ==> r.stderr@ == decode_utf8(output.stderr@),
        r.duration == duration,
        !r.timed_out,
{
}

/// What a process that was waited for left behind is kept, and whether it was late.
pub proof fn lemma_result_of_waiting(
    status: Option<i32>,
    stdout: Vec<u8>,
    stderr: Vec<u8>,
    duration: Duration,
    timed_out: bool,
    r: ExecutionResult,
)
    requires
        call_ensures(
            ExecutionResult::from_status,
            (status, stdout, stderr, duration, timed_out),
            r,
        ),
    ensures
        r.status == status,
        valid_utf8(stdout@) ==> r.stdout@ == decode_utf8(stdout@),
        valid_utf8(stderr@) ==> r.stderr@ == decode_utf8(stderr@),
        r.duration == duration,
        r.timed_out == timed_out,
{
}

/// What is printed of a run: what it wrote, where it wrote something, and that it was late,
/// where it was.
pub proof fn lemma_printed(result: &ExecutionResult, plan: PrintPlan)
    requires
        call_ensures(print_plan, (result,), plan),
    ensures
        plan.stdout <==> result.stdout@.len() > 0,
        plan.stderr <==> result.stderr@.len() > 0,
        plan.late <==> result.timed_out,
{
}

/// The exit code of a run that came to nothing, and of a benchmark.
pub proof fn lemma_failure_codes(
    error: &SandboxError,
    code: i32,
    report: &BenchmarkReport,
    bench: i32,
)
    requires
        call_ensures(error_exit_code, (error,), code),
        call_ensures(benchmark_exit_code, (report,), bench),
    ensures
        *error is TimedOut ==> code == 124,
        !(*error is TimedOut) ==> code == 1,
        bench == 0 <==> report.summary.failed_scenarios == 0,
        bench == 0 || bench == 1,
{
}

/// Which backend is handed back.
pub proof fn lemma_selected_backend(
    preference: BackendPreference,
    os: HostOs,
    r: Result<Backend, SandboxError>,
)
    requires
        call_ensures(select_backend, (preference, os), r),
    ensures
        preference == BackendPreference::Compat ==> r is Ok && r->Ok_0 is Compat,
        preference != BackendPreference::Compat && os == HostOs::Linux ==> r is Ok && r->Ok_0
            is LinuxSecure,
        preference == BackendPreference::Secure && os != HostOs::Linux ==> r is Err,
        preference == BackendPreference::Auto && os != HostOs::Linux ==> r is Ok && r->Ok_0
            is Compat,
{
}

/// When a command is tried again in the shell, and as what: on Windows alone, where it is not
/// hardened and was not found, as the line that it is written as.
pub proof fn lemma_second_try(
    harden: bool,
    os: HostOs,
    not_found: bool,
    again: bool,
    plan: &CommandPlan,
    line: CommandPlan,
)
    requires
        call_ensures(retries_in_shell, (harden, os, not_found), again),
        call_ensures(fallback_plan, (plan,), line),
    ensures
        again <==> os == HostOs::Windows && !harden && not_found,
        line@ is Shell,
        line@->command == written_plan(plan@),
{
}

/// What reading an output comes to: nothing where there was no pipe, the bytes that were read,
/// or what went wrong.
pub proof fn lemma_pipes(read: PipeRead, r: Result<Vec<u8>, SandboxError>)
    requires
        call_ensures(join_pipe, (read,), r),
    ensures
        read is NoPipe ==> r is Ok && r->Ok_0@.len() == 0,
        read matches PipeRead::Bytes(bytes) ==> r is Ok && r->Ok_0 == bytes,
        read is ReaderLost || read is Failed ==> r is Err,
        read matches PipeRead::Failed(reason) ==> r->Err_0@ == SandboxFault::LaunchFailed(reason@),
        read is ReaderLost ==> r->Err_0@ == SandboxFault::LaunchFailed(
            "output reader thread panicked"@,
        ),
{
}

/// The listener of a supervised process is the descriptor that came; without one there is an
/// error.
pub proof fn lemma_listeners(transfer: ListenerTransfer, r: Result<i32, SandboxError>)
    requires
        call_ensures(receive_listener_fd, (transfer,), r),
    ensures
        transfer matches ListenerTransfer::Descriptor(fd) ==> r == Ok::<i32, SandboxError>(fd),
        transfer is Empty ==> r is Err && r->Err_0@ == SandboxFault::LaunchFailed(
            "seccomp listener fd transfer did not include SCM_RIGHTS"@,
        ),
        transfer matches ListenerTransfer::Failed(reason) ==> r is Err && r->Err_0@
            == SandboxFault::LaunchFailed("failed to receive seccomp listener fd: "@ + reason@),
{
}

/// A process that cannot be started is told with the backend and the reason.
pub proof fn lemma_launch_errors(backend: &str, reason: &str, e: SandboxError)
    requires
        call_ensures(launch_error, (backend, reason), e),
    ensures
        e@ == SandboxFault::LaunchFailed(backend@ + ": "@ + reason@),
{
}

/// Which configuration file is read.
pub proof fn lemma_config_paths(path: &Option<String>, out: String)
    requires
        call_ensures(config_path, (path,), out),
    ensures
        path matches Some(p) ==> out@ == p@,
        *path is None ==> out@ == "microbox.toml"@,
{
}

/// How iterations are run: in turn without a pause, in turn with the pause that was asked for,
/// or all at once; there is always one, and a pause behind each but the last.
pub proof fn lemma_schedules(
    profile: BenchmarkProfile,
    delay: u64,
    s: Schedule,
    index: u32,
    iterations: u32,
    pause: bool,
    n: u32,
)
    requires
        profile != BenchmarkProfile::All,
        call_ensures(schedule, (profile, delay), s),
        call_ensures(pauses_after, (index, iterations), pause),
        call_ensures(effective_iterations, (iterations,), n),
    ensures
        profile == BenchmarkProfile::Sequential ==> s == (Schedule::InTurn { pause_ms: 0 }),
        profile == BenchmarkProfile::Staggered ==> s == (Schedule::InTurn { pause_ms: delay }),
        profile == BenchmarkProfile::Burst ==> s == Schedule::AtOnce,
        pause <==> index + 1 < iterations,
        iterations >= 1 ==> n == iterations,
        iterations == 0 ==> n == 1,
{
}

// ---------------------------------------------------------------------------
// Workspaces

/// What copying does with an entry: it leaves out whatever is neither file nor directory and
/// the three names that belong to tools, goes through every other directory, and copies every
/// other file.
pub proof fn lemma_copy_actions(name: &Option<String>, kind: EntryKind, action: CopyAction)
    requires
        call_ensures(copy_action, (name, kind), action),
    ensures
        ({
            let of_a_tool = name matches Some(n) && (n@ == ".microbox"@ || n@ == ".git"@ || n@
                == "target"@);
            &&& action == CopyAction::Skip <==> kind == EntryKind::Other || of_a_tool
            &&& action == CopyAction::Descend <==> kind == EntryKind::Directory && !of_a_tool
            &&& action == CopyAction::Copy <==> kind == EntryKind::File && !of_a_tool
        }),
{
    lemma_left_out(opt_text(*name), kind);
}

/// A new workspace: the identifier and the root of its plan, its name and its source, made and
/// changed now, without a snapshot.
pub proof fn lemma_new_workspace(
    plan: WorkspacePlan,
    name: String,
    source: String,
    now: u64,
    w: WorkspaceRecord,
)
    requires
        call_ensures(new_record, (plan, name, source, now), w),
    ensures
        w.id == plan.id,
        w.name == name,
        w.source == Some(source),
        w.root == plan.root,
        w.created_at_unix == now,
        w.updated_at_unix == now,
        w.snapshots@.len() == 0,
{
}

/// One snapshot more changes nothing of a workspace but its snapshots and the time of its last
/// change; the snapshots before it stay, and it is the last.
pub proof fn lemma_snapshot_is_added(
    w: WorkspaceRecord,
    s: WorkspaceSnapshotRecord,
    at: u64,
    out: WorkspaceRecord,
)
    requires
        call_ensures(add_snapshot, (w, s, at), out),
    ensures
        out.snapshots@.len() == w.snapshots@.len() + 1,
        out.snapshots@.last() == s,
        out.snapshots@.drop_last() == w.snapshots@,
        out.updated_at_unix == at,
        out.id == w.id && out.name == w.name && out.source == w.source && out.root == w.root
            && out.created_at_unix == w.created_at_unix,
{
    assert(w.snapshots@.push(s).drop_last() =~= w.snapshots@);
}

/// A change of a workspace sets the time of its last change, and nothing else.
pub proof fn lemma_touched(w: WorkspaceRecord, at: u64, out: WorkspaceRecord)
    requires
        call_ensures(touch, (w, at), out),
    ensures
        out.updated_at_unix == at,
        out.id == w.id && out.name == w.name && out.source == w.source && out.root == w.root
            && out.created_at_unix == w.created_at_unix && out.snapshots == w.snapshots,
{
}

/// Where a workspace is restored from: the first snapshot of that name; where there is none, it
/// is told.
pub proof fn lemma_restored_from(w: &WorkspaceRecord, name: &str, r: Result<String, SandboxError>)
    requires
        call_ensures(restore_source, (w, name), r),
    ensures
        r matches Ok(path) ==> exists|i: int|
            0 <= i < w.snapshots@.len() && (#[trigger] w.snapshots@[i]).name@ == name@
                && w.snapshots@[i].path@ == path@ && forall|j: int|
                0 <= j < i ==> (#[trigger] w.snapshots@[j]).name@ != name@,
        r is Err <==> forall|i: int|
            0 <= i < w.snapshots@.len() ==> (#[trigger] w.snapshots@[i]).name@ != name@,
        r matches Err(e) ==> e@ == SandboxFault::Policy("snapshot not found: "@ + name@),
{
    lemma_first_snapshot(w.snapshots@, name@);
}

/// The note on a snapshot.
pub proof fn lemma_snapshot_notes(name: &str, restored: bool, out: String)
    requires
        call_ensures(snapshot_note, (name, restored), out),
    ensures
        restored ==> out@ == "snapshot "@ + name@ + " restored"@,
        !restored ==> out@ == "snapshot "@ + name@ + " created"@,
{
}

/// What is kept of a run in a workspace.
pub proof fn lemma_run_summary(
    command: String,
    execution: &ExecutionResult,
    s: WorkspaceRunSummary,
)
    requires
        call_ensures(summarize_run, (command, execution), s),
    ensures
        s.command == command,
        s.timed_out == execution.timed_out,
        s.duration_ms == execution.duration@ / 1_000_000,
        execution.timed_out ==> s.exit_code == 124,
        !execution.timed_out && execution.status is Some ==> s.exit_code == execution.status->0,
        !execution.timed_out && execution.status is None ==> s.exit_code == 1,
{
}

/// Where the parts of a workspace stand: in its directory under names of their own.
pub proof fn lemma_workspace_parts(
    store: &WorkspaceStore,
    id: &str,
    dir: String,
    root: String,
    snapshots: String,
    runs: String,
    metadata: String,
)
    requires
        call_ensures(WorkspaceStore::workspace_dir, (store, id), dir),
        call_ensures(WorkspaceStore::workspace_root, (store, id), root),
        call_ensures(WorkspaceStore::snapshots_dir, (store, id), snapshots),
        call_ensures(WorkspaceStore::runs_dir, (store, id), runs),
        call_ensures(WorkspaceStore::metadata_path, (store, id), metadata),
    ensures
        dir@ == joined_path(store.os, joined_path(store.os, store.home@, "workspaces"@), id@),
        root@ == joined_path(store.os, dir@, "root"@),
        snapshots@ == joined_path(store.os, dir@, "snapshots"@),
        runs@ == joined_path(store.os, dir@, "runs"@),
        metadata@ == joined_path(store.os, dir@, "workspace.json"@),
{
}

/// Where the record of a run stands: with the runs of its workspace, under its time.
pub proof fn lemma_run_records(
    store: &WorkspaceStore,
    id: &str,
    now: u64,
    runs: String,
    path: String,
)
    requires
        call_ensures(WorkspaceStore::runs_dir, (store, id), runs),
        call_ensures(WorkspaceStore::run_record_path, (store, id, now), path),
    ensures
        path@ == joined_path(store.os, runs@, "run-"@ + decimal(now as nat) + ".json"@),
{
}

/// The plan for a new workspace: an identifier of the name and the time, and the parts of the
/// workspace of that identifier.
pub proof fn lemma_planned_workspace(
    store: &WorkspaceStore,
    existing: &Vec<WorkspaceRecord>,
    name: &str,
    source: &str,
    source_exists: bool,
    now: u64,
    plan: WorkspacePlan,
)
    requires
        call_ensures(
            WorkspaceStore::plan_create,
            (store, existing, name, source, source_exists, now),
            Ok::<WorkspacePlan, SandboxError>(plan),
        ),
    ensures
        source_exists,
        forall|i: int| 0 <= i < existing@.len() ==> (#[trigger] existing@[i]).name@ != name@,
        plan.id@ == slug(name@) + "-"@ + decimal(now as nat),
        plan.dir@ == joined_path(
            store.os,
            joined_path(store.os, store.home@, "workspaces"@),
            plan.id@,
        ),
        plan.root@ == joined_path(store.os, plan.dir@, "root"@),
        plan.snapshots_dir@ == joined_path(store.os, plan.dir@, "snapshots"@),
        plan.runs_dir@ == joined_path(store.os, plan.dir@, "runs"@),
{
    lemma_when_made(existing@, name@, source@, source_exists);
    assert forall|i: int| 0 <= i < existing@.len() implies (#[trigger] existing@[i]).name@ != name@ by {
        assert(existing@[i].name@ != name@);
    }
}

// ---------------------------------------------------------------------------
// Confinement

/// The limits of a launcher: the time of the policy in seconds and a second at least, its
/// memory and its disk, and 64 processes for each of its processors.
pub proof fn lemma_launcher_limits(request: &RunRequest, l: Vec<(Resource, u64)>)
    requires
        call_ensures(launcher_limits, (request,), l),
    ensures
        l@.len() == 5,
        l@[0].0 == Resource::CpuTime,
        1_000_000_000 <= request.policy@.timeout < 0x1_0000_0000_0000_0000 * 1_000_000_000
            ==> l@[0].1 == request.policy@.timeout / 1_000_000_000,
        request.policy@.timeout < 1_000_000_000 ==> l@[0].1 == 1,
        l@[1] == (Resource::AddressSpace, request.policy.max_ram_bytes),
        l@[2] == (Resource::FileSize, request.policy.max_disk_bytes),
        l@[3] == (Resource::OpenFiles, 256u64),
        l@[4].0 == Resource::Processes,
        1 <= request.policy.max_cpu && request.policy.max_cpu * 64 <= 0xffff_ffff ==> l@[4].1
            == request.policy.max_cpu * 64,
        request.policy.max_cpu == 0 ==> l@[4].1 == 64,
{
}

/// The limits of a hardened process are those of its plan.
pub proof fn lemma_hardened_limits(plan: &LinuxHardeningPlan, l: Vec<(Resource, u64)>)
    requires
        call_ensures(set_resource_limits, (plan,), l),
    ensures
        l@.len() == 5,
        l@[0] == (Resource::CpuTime, plan.timeout_secs),
        l@[1] == (Resource::AddressSpace, plan.max_ram_bytes),
        l@[2] == (Resource::FileSize, plan.max_disk_bytes),
        l@[3] == (Resource::OpenFiles, 256u64),
        l@[4].0 == Resource::Processes,
        plan.max_cpu * 64 <= 0xffff_ffff ==> l@[4].1 == plan.max_cpu * 64,
{
}

/// What is written to the control group of a process: its limits under their names, and its
/// own number.
pub proof fn lemma_control_group(pid: u32, request: &RunRequest, plan: CgroupPlan)
    requires
        call_ensures(cgroup_plan, (pid, request), plan),
    ensures
        plan.dir@ == joined_path(
            HostOs::Linux,
            "/sys/fs/cgroup"@,
            "microbox-"@ + decimal(pid as nat),
        ),
        plan.procs_file@ == joined_path(HostOs::Linux, plan.dir@, "cgroup.procs"@),
        plan.pid@ == decimal(pid as nat),
        plan.limits@.len() == 3,
        plan.limits@[0].0@ == joined_path(HostOs::Linux, plan.dir@, "memory.max"@),
        plan.limits@[0].1@ == decimal(request.policy.max_ram_bytes as nat),
        plan.limits@[1].0@ == joined_path(HostOs::Linux, plan.dir@, "cpu.max"@),
        plan.limits@[2].0@ == joined_path(HostOs::Linux, plan.dir@, "pids.max"@),
        1 <= request.policy.max_cpu <= 42_949 ==> plan.limits@[1].1@ == decimal(
            request.policy.max_cpu as nat * 100_000,
        ) + " 100000"@ && plan.limits@[2].1@ == decimal(request.policy.max_cpu as nat * 64),
{
    let l = pair_texts(plan.limits@);
    assert(l.len() == plan.limits@.len());
    assert(l[0] == (plan.limits@[0].0@, plan.limits@[0].1@));
    assert(l[1] == (plan.limits@[1].0@, plan.limits@[1].1@));
    assert(l[2] == (plan.limits@[2].0@, plan.limits@[2].1@));
}

/// The user of a namespace of its own, and who is ended when the time is up: a whole group
/// wherever the process leads one, which it does in every mode but the plain one.
pub proof fn lemma_namespace_and_group(id: u32, line: String, mode: RunMode, group: bool)
    requires
        call_ensures(id_map, (id,), line),
        call_ensures(ends_group, (mode,), group),
    ensures
        line@ == "0 "@ + decimal(id as nat) + " 1"@,
        group <==> !(mode is Plain),
{
    lemma_steps_of_modes(HardeningStep::ProcessGroup);
}

// ---------------------------------------------------------------------------
// Benchmarks

/// The report on all profiles: where all were asked for it bears that name and keeps of each
/// run its profile, its summary and its scenarios, in order; else it is the main report.
pub proof fn lemma_report_of_profiles(
    requested: BenchmarkProfile,
    main_report: BenchmarkReport,
    runs: Vec<BenchmarkReport>,
    report: BenchmarkReport,
    i: int,
)
    requires
        call_ensures(build_benchmark_report, (requested, main_report, runs), report),
    ensures
        requested != BenchmarkProfile::All ==> report == main_report,
        requested == BenchmarkProfile::All ==> {
            &&& report.profile@ == "all"@
            &&& report.profile_reports@.len() == runs@.len()
            &&& 0 <= i < runs@.len() ==> report.profile_reports@[i].profile == runs@[i].profile
                && report.profile_reports@[i].summary == runs@[i].summary
                && report.profile_reports@[i].scenarios == runs@[i].scenarios
            &&& report.scenarios == main_report.scenarios
            &&& report.summary == main_report.summary
            &&& report.peer_reports == main_report.peer_reports
            &&& report.adoption == main_report.adoption
        },
{
    if requested == BenchmarkProfile::All && 0 <= i < runs@.len() {
        assert(report.profile_reports@[i].profile == runs@[i].profile);
    }
}

/// A command of the user's is not compared with the hosted sandbox; anything else may be.
pub proof fn lemma_hosted_baseline(args: &BenchArgs, r: Result<(), SandboxError>)
    requires
        call_ensures(check_baseline, (args,), r),
    ensures
        r is Err <==> args.baseline_source == BaselineSource::E2b && args.command@.len() > 0,
        r matches Err(e) ==> e@ == SandboxFault::BackendUnavailable(
            "E2B baseline comparison currently supports the built-in benchmark suite only"@,
        ),
{
}

/// What is sent to the hosted sandbox: how often, how long, and every scenario in full.
pub proof fn lemma_remote_requests(
    args: &BenchArgs,
    scenarios: Vec<RemoteScenarioSpec>,
    domain: Option<String>,
    request: RemoteBenchmarkRequest,
)
    requires
        call_ensures(remote_request, (args, scenarios, domain), request),
    ensures
        args.iterations >= 1 ==> request.iterations == args.iterations,
        args.iterations == 0 ==> request.iterations == 1,
        request.warmups == args.warmups,
        request.timeout_secs == args.e2b_timeout_secs,
        request.e2b_domain == domain,
        request.scenarios == scenarios,
{
}

/// A scenario is sent to the hosted sandbox as it is.
pub proof fn lemma_remote_scenarios(
    scenarios: &Vec<PortableScenario>,
    out: Vec<RemoteScenarioSpec>,
    i: int,
)
    requires
        call_ensures(portable_scenarios_to_specs, (scenarios,), out),
    ensures
        out@.len() == scenarios@.len(),
        0 <= i < out@.len() ==> out@[i].name@ == scenarios@[i].name@ && out@[i].description@
            == scenarios@[i].description@ && out@[i].command@ == scenarios@[i].command@ && texts(
            out@[i].notes@,
        ) == texts(scenarios@[i].notes@),
{
    assert(remote_views(out@).len() == out@.len());
    assert(portable_views(scenarios@).len() == scenarios@.len());
    if 0 <= i < out@.len() {
        assert(remote_views(out@)[i] == portable_views(scenarios@)[i]);
    }
}

/// What a scenario is called in reports: its own name and description, its command as it is
/// written, and its notes.
pub proof fn lemma_labels(
    scenario: &BenchmarkScenario,
    labels: ScenarioLabels,
    portable: &PortableScenario,
    others: ScenarioLabels,
)
    requires
        call_ensures(scenario_labels, (scenario,), labels),
        call_ensures(portable_labels, (portable,), others),
    ensures
        labels.name@ == scenario.name@,
        labels.description@ == scenario.description@,
        labels.command@ == written_plan(scenario.command@),
        texts(labels.notes@) == texts(scenario.notes@),
        others.name@ == portable.name@,
        others.description@ == portable.description@,
        others.command@ == portable.command@,
        texts(others.notes@) == texts(portable.notes@),
{
}

/// A key is needed for the hosted sandbox, and is used as it is.
pub proof fn lemma_keys(key: &Option<String>, r: Result<String, SandboxError>)
    requires
        call_ensures(check_api_key, (key,), r),
    ensures
        r is Ok <==> *key is Some && trimmed((*key)->0@).len() > 0,
        r matches Ok(same) ==> same@ == (*key)->0@,
        *key is None ==> r->Err_0@ == SandboxFault::BackendUnavailable(
            "E2B_API_KEY is required for --baseline-source e2b"@,
        ),
        *key is Some && r is Err ==> r->Err_0@ == SandboxFault::BackendUnavailable(
            "E2B_API_KEY is empty"@,
        ),
{
}

/// The files of a run in the hosted sandbox stand together in a directory of its own.
pub proof fn lemma_remote_files(os: HostOs, temp_dir: &str, now: u64, pid: u32, f: RemoteFiles)
    requires
        call_ensures(remote_files, (os, temp_dir, now, pid), f),
    ensures
        now + pid <= 0xffff_ffff_ffff_ffff ==> f.root@ == joined_path(
            os,
            temp_dir@,
            "microbox-e2b-"@ + decimal((now + pid) as nat),
        ),
        f.request@ == joined_path(os, f.root@, "request.json"@),
        f.report@ == joined_path(os, f.root@, "report.json"@),
        f.script@ == joined_path(os, f.root@, "e2b_benchmark.py"@),
        f.venv@ == joined_path(os, f.root@, "venv"@),
{
}

/// Whether the hosted run was done, and its report; what went wrong is told.
pub proof fn lemma_remote_outcome(
    step: &RemoteStep,
    r: Result<(), SandboxError>,
    source: ReportSource,
    report: Result<BenchmarkReport, SandboxError>,
)
    requires
        call_ensures(check_remote_run, (step,), r),
        call_ensures(accept_remote_report, (source,), report),
    ensures
        r is Ok <==> *step is Done,
        *step matches RemoteStep::NotStarted(reason) ==> r->Err_0@ == SandboxFault::LaunchFailed(
            "failed to run E2B benchmark: "@ + reason@,
        ),
        *step matches RemoteStep::Failed(text) ==> r->Err_0@ == SandboxFault::LaunchFailed(
            "E2B benchmark failed: "@ + trimmed(text@),
        ),
        source matches ReportSource::Parsed(parsed) ==> report == Ok::<
            BenchmarkReport,
            SandboxError,
        >(parsed),
        !(source is Parsed) ==> report is Err,
{
}

/// The report to compare with: the one that was read, or what went wrong with its path.
pub proof fn lemma_loaded_reports(
    path: &str,
    source: ReportSource,
    r: Result<BenchmarkReport, SandboxError>,
)
    requires
        call_ensures(load_report, (path, source), r),
    ensures
        source matches ReportSource::Parsed(parsed) ==> r == Ok::<BenchmarkReport, SandboxError>(
            parsed,
        ),
        source matches ReportSource::Unreadable(reason) ==> r is Err && r->Err_0@
            == SandboxFault::Io(reason@),
        source matches ReportSource::Malformed(reason) ==> r is Err && r->Err_0@
            == SandboxFault::LaunchFailed(
            "failed to parse baseline benchmark report "@ + path@ + ": "@ + reason@,
        ),
{
}

/// The report of another sandbox: with a report it is available, without one it is not and
/// says why; it always bears its name.
pub proof fn lemma_peer_outcomes(
    target: PeerTarget,
    report: Option<BenchmarkReport>,
    out: PeerBenchmarkReport,
    hosted: Result<BenchmarkReport, SandboxError>,
    e2b: PeerBenchmarkReport,
)
    requires
        call_ensures(peer_outcome, (target, report), out),
        call_ensures(build_e2b_peer_report, (hosted,), e2b),
    ensures
        target == PeerTarget::Docker ==> out.target@ == "docker"@,
        target == PeerTarget::Podman ==> out.target@ == "podman"@,
        target == PeerTarget::Bubblewrap ==> out.target@ == "bwrap"@,
        target == PeerTarget::Firejail ==> out.target@ == "firejail"@,
        out.available <==> report is Some,
        report is Some ==> out.reason is None && out.report == Some(Box::new(report->0)),
        report is None ==> out.reason is Some && out.report is None,
        e2b.target@ == "e2b"@,
        e2b.available <==> hosted is Ok,
        hosted is Ok ==> e2b.reason is None && e2b.report == Some(Box::new(hosted->Ok_0)),
        hosted matches Err(e) ==> opt_text(e2b.reason) == Some(sandbox_message(e@)) && e2b.report
            is None,
{
}

/// How a request runs in another sandbox: each program under its own name, in the working
/// directory of the request, with the environment that the policy leaves of the machine's.
pub proof fn lemma_peer_commands(
    target: PeerTarget,
    image: &str,
    request: &RunRequest,
    host: &Host,
    r: Result<CommandSpec, SandboxError>,
)
    requires
        call_ensures(peer_command, (target, image, request, host), r),
    ensures
        r is Ok <==> target == PeerTarget::Docker || target == PeerTarget::Podman || target
            == PeerTarget::Firejail || (target == PeerTarget::Bubblewrap && host.os
            == HostOs::Linux),
        r matches Ok(spec) ==> {
            &&& target == PeerTarget::Docker ==> spec.program@ == "docker"@
            &&& target == PeerTarget::Podman ==> spec.program@ == "podman"@
            &&& target == PeerTarget::Bubblewrap ==> spec.program@ == "bwrap"@
            &&& target == PeerTarget::Firejail ==> spec.program@ == "firejail"@
            &&& spec.current_dir@ == request.working_dir@
            &&& pair_texts(spec.env@) == command_env(
                request.policy@,
                opt_list(host.infra_vars@),
                pair_texts(host.vars@),
            )
        },
{
    if let Ok(spec) = r {
        assert(spec@.program == spec.program@);
        assert(spec@.env == pair_texts(spec.env@));
    }
}

/// How a report is rendered: as text, as Markdown, or not here; each line ends with a line end.
pub proof fn lemma_rendered(report: &BenchmarkReport, format: OutputFormat, out: Option<String>)
    requires
        call_ensures(render_report, (report, format), out),
    ensures
        format == OutputFormat::Text ==> out is Some && out->0@ == ended(text_lines(*report)),
        format == OutputFormat::Markdown ==> out is Some && out->0@ == ended(md_lines(*report)),
        format == OutputFormat::Json ==> out is None,
{
}

/// The exit code of a validation, and who is asked for programs.
pub proof fn lemma_validation_codes(
    report: &ValidationReport,
    code: i32,
    os: HostOs,
    program: &'static str,
)
    requires
        call_ensures(validation_exit_code, (report,), code),
        call_ensures(which_program, (os,), program),
    ensures
        report.valid ==> code == 0,
        !report.valid ==> code == 1,
        os == HostOs::Windows ==> program@ == "where"@,
        os != HostOs::Windows ==> program@ == "which"@,
{
}

/// The interpreter of a virtual environment.
pub proof fn lemma_venv_interpreter(os: HostOs, venv: &str, out: String)
    requires
        call_ensures(venv_python_path, (os, venv), out),
    ensures
        os == HostOs::Windows ==> out@ == joined_path(
            os,
            joined_path(os, venv@, "Scripts"@),
            "python.exe"@,
        ),
        os != HostOs::Windows ==> out@ == joined_path(os, joined_path(os, venv@, "bin"@), "python"@),
{
}

// ---------------------------------------------------------------------------
// Spans of time

/// Spans of time count in nanoseconds, and come back in whole larger units.
pub proof fn lemma_spans(
    n: u64,
    secs: Duration,
    millis: Duration,
    micros: Duration,
    d: &Duration,
    as_secs: u64,
    as_millis: u128,
    as_micros: u128,
)
    requires
        call_ensures(Duration::from_secs, (n,), secs),
        call_ensures(Duration::from_millis, (n,), millis),
        call_ensures(Duration::from_micros, (n,), micros),
        call_ensures(Duration::as_secs, (d,), as_secs),
        call_ensures(Duration::as_millis, (d,), as_millis),
        call_ensures(Duration::as_micros, (d,), as_micros),
    ensures
        secs@ == 1_000_000_000 * n,
        millis@ == 1_000_000 * n,
        micros@ == 1_000 * n,
        1_000_000_000 * as_secs <= d@ < 1_000_000_000 * (as_secs + 1),
        1_000_000 * as_millis <= d@ < 1_000_000 * (as_millis + 1),
        1_000 * as_micros <= d@ < 1_000 * (as_micros + 1),
{
}

} // verus!
