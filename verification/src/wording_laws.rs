//! What is told to the user, word for word.
use crate::args::PeerTarget;
use crate::backend::{launcher_missing, Backend, CapabilityModel, SandboxBackend};
use crate::diagnose::{readiness_head, MachineFacts};
use crate::errors::{SandboxError, SandboxFault};
use crate::landlock::{landlock_rules, LandlockRule};
use crate::launch::HostOs;
use crate::number::decimal;
use crate::paths::joined_path;
use crate::peers::{
    accept_remote_report, build_peer_report, find_python_executable, peer_outcome, python_names,
    ReportSource, WhichReply,
};
use crate::policy::{broken_rule, conflicts, PolicyModel};
use crate::render::{
    any_comparison, md_head, md_lines, md_peer_heading, md_profile_heading, md_scenario_heading, row,
    scenario_alignment,
};
use crate::report::{BenchmarkReport, PeerBenchmarkReport, ReportFacts};
use crate::sampling::ScenarioReport;
use crate::scenario::{portable_scenarios_of, scenarios_of};
use crate::seccomp::{audit_arch, MachineArch};
use crate::text::{joined, opt_text, texts};
use crate::workspace::{slug, WorkspaceRecord, WorkspaceStore};
use crate::workspace_laws::lemma_first_snapshot;
use vstd::prelude::*;

verus! {

/// What the backends say of themselves.
pub proof fn lemma_notes_on_backends(backend: Backend)
    ensures
        backend is Compat ==> backend.promise().notes == seq![
            "local execution fallback for non-Linux hosts"@,
            "policy model and CLI are production-shaped; kernel enforcement is limited on this backend"@,
        ],
        backend is LinuxSecure ==> backend.promise().notes == seq![
            "namespace isolation is attempted when the kernel allows it"@,
            "Landlock filesystem confinement is applied to the command and its direct runtime dependencies"@,
            "seccomp denies escape-oriented syscalls and supervises outbound allowlists"@,
            "cgroups v2 are applied best-effort when delegation is available"@,
        ],
{
}

/// What is told where the launcher, the confinement of the kernel or a filter for the machine
/// is missing, and only there.
pub proof fn lemma_what_is_missing(
    missing: SandboxError,
    arch: MachineArch,
    number: Result<u32, &'static str>,
    version: u32,
    readonly: &Vec<String>,
    readonly_exist: &Vec<bool>,
    writable: &Vec<String>,
    writable_exist: &Vec<bool>,
    program: &Option<String>,
    program_exists: bool,
    hidden: &Vec<String>,
    rules: Result<Vec<LandlockRule>, &'static str>,
)
    requires
        call_ensures(launcher_missing, (), missing),
        call_ensures(audit_arch, (arch,), number),
        call_ensures(
            landlock_rules,
            (
                version,
                readonly,
                readonly_exist,
                writable,
                writable_exist,
                program,
                program_exists,
                hidden,
            ),
            rules,
        ),
    ensures
        missing@ == SandboxFault::LaunchFailed("bubblewrap is not installed or not on PATH"@),
        number is Ok <==> arch != MachineArch::Other,
        number matches Err(text) ==> text@ == "unsupported linux architecture for seccomp filter"@,
        rules is Ok <==> version > 0,
        rules matches Err(text) ==> text@ == "Landlock is not available on this kernel"@,
{
}

/// What the readiness report says the tool can do.
pub proof fn lemma_told_features(facts: MachineFacts, m: CapabilityModel, resolved: bool)
    ensures
        readiness_head(facts, m, resolved).len() == 8,
        readiness_head(facts, m, resolved)[7]
            == "features = cli, validate, bench, benchmark reports, peer sandbox comparisons, policy compiler, preset resolution, config discovery, cross-platform compat backend, Linux outbound allowlists"@,
{
}

/// What is told of a policy whose limits and network are in order but which names a path in
/// two lists: the first two such lists by their names, and every path that stands in both.
pub proof fn lemma_told_conflicts(os: HostOs, m: PolicyModel)
    requires
        m.max_cpu > 0,
        m.max_ram_bytes > 0,
        m.max_disk_bytes > 0,
        m.timeout > 0,
        m.network_deny_all_other || m.allow_net.len() > 0,
    ensures
        ({
            let wr = conflicts(os, m.working_dir, m.filesystem_writable, m.filesystem_readonly);
            let wd = conflicts(os, m.working_dir, m.filesystem_writable, m.filesystem_deny);
            let rd = conflicts(os, m.working_dir, m.filesystem_readonly, m.filesystem_deny);
            &&& wr.len() > 0 ==> broken_rule(os, m) == Some(
                "filesystem writable"@ + " conflicts with "@ + "filesystem readonly"@ + " for: "@
                    + joined(wr, ", "@),
            )
            &&& wr.len() == 0 && wd.len() > 0 ==> broken_rule(os, m) == Some(
                "filesystem writable"@ + " conflicts with "@ + "filesystem deny"@ + " for: "@
                    + joined(wd, ", "@),
            )
            &&& wr.len() == 0 && wd.len() == 0 && rd.len() > 0 ==> broken_rule(os, m) == Some(
                "filesystem readonly"@ + " conflicts with "@ + "filesystem deny"@ + " for: "@
                    + joined(rd, ", "@),
            )
            &&& wr.len() == 0 && wd.len() == 0 && rd.len() == 0 ==> broken_rule(os, m) is None
        }),
{
}

/// What the scenarios are for, in the words of the reports.
pub proof fn lemma_told_scenarios(command: Seq<Seq<char>>, os: HostOs)
    ensures
        command.len() > 0 ==> {
            let s = scenarios_of(command, os);
            &&& s[0].description == "User-supplied benchmark command"@
            &&& s[0].notes == seq!["Benchmarks the exact command path the user provided."@]
        },
        command.len() == 0 ==> {
            let s = scenarios_of(command, os);
            &&& s[0].description == "Pure launch overhead for a successful no-op command"@
            &&& s[0].notes == seq![
                "Approximates the minimum cost of launching a sandboxed command."@,
                "Useful for comparing spawn overhead across backends."@,
            ]
            &&& s[1].description == "Shell entrypoint and stdout roundtrip"@
            &&& s[1].notes == seq![
                "Represents zero-change DX where users keep their original shell workflow."@,
                "Exercises shell parsing and output plumbing."@,
            ]
            &&& s[2].description == "Writable workspace roundtrip"@
            &&& s[2].notes == seq![
                "Confirms the default code-edit friendly workspace policy."@,
                "Matches the 'run code without modifying source' onboarding path."@,
            ]
        },
        portable_scenarios_of(command).len() == scenarios_of(command, os).len(),
        forall|i: int|
            0 <= i < portable_scenarios_of(command).len() ==> (#[trigger] portable_scenarios_of(
                command,
            )[i]).description == scenarios_of(command, os)[i].description
                && portable_scenarios_of(command)[i].notes == scenarios_of(command, os)[i].notes,
{
}

/// What is told of another sandbox: why it was lost, and what was measured with it.
pub proof fn lemma_told_peers(
    target: PeerTarget,
    lost: PeerBenchmarkReport,
    facts: &ReportFacts,
    image: &str,
    scenarios: Vec<ScenarioReport>,
    iterations: u32,
    warmups: u32,
    report: BenchmarkReport,
)
    requires
        call_ensures(peer_outcome, (target, None::<BenchmarkReport>), lost),
        call_ensures(
            build_peer_report,
            (facts, target, image, scenarios, iterations, warmups),
            report,
        ),
    ensures
        target == PeerTarget::Docker ==> opt_text(lost.reason) == Some(
            "docker"@ + " is not available"@,
        ) && texts(report.backend_notes@) == seq![
            "docker"@ + " peer target benchmark"@,
            "container image: "@ + image@,
        ] && report.adoption.command_surface@ == "docker"@ + " peer target"@,
        target == PeerTarget::Podman ==> opt_text(lost.reason) == Some(
            "podman"@ + " is not available"@,
        ) && texts(report.backend_notes@) == seq![
            "podman"@ + " peer target benchmark"@,
            "container image: "@ + image@,
        ] && report.adoption.command_surface@ == "podman"@ + " peer target"@,
        target == PeerTarget::Bubblewrap ==> opt_text(lost.reason) == Some(
            "bubblewrap is not available"@,
        ) && texts(report.backend_notes@) == seq!["bubblewrap peer target benchmark"@]
            && report.adoption.command_surface@ == "bwrap"@ + " peer target"@,
        target == PeerTarget::Firejail ==> opt_text(lost.reason) == Some(
            "firejail could not launch the peer scenario"@,
        ) && texts(report.backend_notes@) == seq!["firejail peer target benchmark"@]
            && report.adoption.command_surface@ == "firejail"@ + " peer target"@,
        report.backend_secure_enforcement <==> target == PeerTarget::Bubblewrap || target
            == PeerTarget::Firejail,
        report.scenarios == scenarios,
        report.iterations == iterations,
        report.warmups == warmups,
{
}

/// What is told of a hosted run that goes wrong.
pub proof fn lemma_told_remote_faults(
    reason: String,
    unread: Result<BenchmarkReport, SandboxError>,
    unparsed: Result<BenchmarkReport, SandboxError>,
    os: HostOs,
    replies: &Vec<WhichReply>,
    python: Result<String, SandboxError>,
)
    requires
        call_ensures(
            accept_remote_report,
            (ReportSource::Unreadable(reason),),
            unread,
        ),
        call_ensures(
            accept_remote_report,
            (ReportSource::Malformed(reason),),
            unparsed,
        ),
        replies.len() == python_names(os).len(),
        call_ensures(find_python_executable, (os, replies), python),
    ensures
        unread is Err && unread->Err_0@ == SandboxFault::LaunchFailed(
            "failed to read E2B report: "@ + reason@,
        ),
        unparsed is Err && unparsed->Err_0@ == SandboxFault::LaunchFailed(
            "failed to parse E2B report: "@ + reason@,
        ),
        python matches Err(e) ==> e@ == SandboxFault::BackendUnavailable(
            "python is required to run E2B benchmarks"@,
        ),
{
}

/// A snapshot of a name that is taken is refused, and one of another name stands with the
/// snapshots of its workspace.
pub proof fn lemma_planned_snapshot(
    store: &WorkspaceStore,
    workspace: &WorkspaceRecord,
    id: &str,
    name: &str,
    now: u64,
    r: Result<String, SandboxError>,
    dir: String,
)
    requires
        call_ensures(WorkspaceStore::plan_snapshot, (store, workspace, id, name, now), r),
        call_ensures(WorkspaceStore::snapshots_dir, (store, id), dir),
    ensures
        r is Err <==> exists|k: int|
            0 <= k < workspace.snapshots@.len() && (#[trigger] workspace.snapshots@[k]).name@ == name@,
        r matches Err(e) ==> e@ == SandboxFault::Policy("snapshot already exists: "@ + name@),
        r matches Ok(path) ==> path@ == joined_path(
            store.os,
            dir@,
            slug(name@) + "-"@ + decimal(now as nat),
        ),
{
    lemma_first_snapshot(workspace.snapshots@, name@);
}

/// The headings of the tables in Markdown, and how their columns are aligned.
pub proof fn lemma_md_headings(r: BenchmarkReport)
    ensures
        ({
            let l = md_lines(r);
            let s = md_head(r).len() as int + 22;
            let n = s + 4 + r.scenarios@.len();
            let p = if r.peer_reports@.len() > 0 {
                n + 5 + r.peer_reports@.len()
            } else {
                n
            };
            let compared = exists|k: int|
                0 <= k < r.scenarios@.len() && (#[trigger] r.scenarios@[k]).comparison is Some;
            &&& l[s + 1] == ""@
            &&& compared ==> l[s + 3] == row(
                seq!["---"@, "---"@, "---:"@, "---:"@, "---:"@, "---:"@, "---:"@, "---:"@, "---"@],
            )
            &&& !compared ==> l[s + 3] == row(seq!["---"@, "---"@, "---:"@, "---:"@, "---:"@, "---"@])
            &&& r.peer_reports@.len() > 0 ==> {
                &&& l[n] == ""@
                &&& l[n + 1] == "## Peer Targets"@
                &&& l[n + 2] == ""@
                &&& l[n + 3] == row(
                    seq!["Target"@, "Available"@, "Passed"@, "Failed"@, "Avg of avgs (us)"@, "Notes"@],
                )
                &&& l[n + 4] == row(seq!["---"@, "---"@, "---:"@, "---:"@, "---:"@, "---"@])
            }
            &&& r.profile_reports@.len() > 0 ==> {
                &&& l[p] == ""@
                &&& l[p + 1] == "## Profile Runs"@
                &&& l[p + 2] == ""@
                &&& l[p + 3] == row(
                    seq![
                        "Profile"@,
                        "Scenarios"@,
                        "Passed"@,
                        "Failed"@,
                        "Avg of avgs (us)"@,
                        "Fastest"@,
                        "Slowest"@,
                    ],
                )
                &&& l[p + 4] == row(seq!["---"@, "---:"@, "---:"@, "---:"@, "---:"@, "---"@, "---"@])
            }
        }),
{
    let l = md_lines(r);
    let compared = any_comparison(r.scenarios@);
    let s = md_head(r).len() as int + 22;
    let n = s + 4 + r.scenarios@.len();
    let p = if r.peer_reports@.len() > 0 {
        n + 5 + r.peer_reports@.len()
    } else {
        n
    };
    let h = md_scenario_heading(compared);
    assert(l[s + 1] == h[1] && l[s + 3] == h[3]);
    assert(scenario_alignment(true) =~= seq![
        "---"@,
        "---"@,
        "---:"@,
        "---:"@,
        "---:"@,
        "---:"@,
        "---:"@,
        "---:"@,
        "---"@,
    ]);
    assert(scenario_alignment(false) =~= seq!["---"@, "---"@, "---:"@, "---:"@, "---:"@, "---"@]);
    if r.peer_reports@.len() > 0 {
        assert forall|k: int| 0 <= k < 5 implies l[n + k] == #[trigger] md_peer_heading()[k] by {}
        assert(l[n + 0] == md_peer_heading()[0] && l[n + 1] == md_peer_heading()[1]);
        assert(l[n + 2] == md_peer_heading()[2] && l[n + 3] == md_peer_heading()[3]);
        assert(l[n + 4] == md_peer_heading()[4]);
    }
    if r.profile_reports@.len() > 0 {
        assert forall|k: int| 0 <= k < 5 implies l[p + k] == #[trigger] md_profile_heading()[k] by {}
        assert(l[p + 0] == md_profile_heading()[0] && l[p + 1] == md_profile_heading()[1]);
        assert(l[p + 2] == md_profile_heading()[2] && l[p + 3] == md_profile_heading()[3]);
        assert(l[p + 4] == md_profile_heading()[4]);
    }
}

} // verus!
