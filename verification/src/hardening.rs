//! Hardening on Linux: what a process gives up before it runs the command.
use crate::command::{CommandPlan, PlanModel};
use crate::errors::{SandboxError, SandboxFault};
use crate::landlock::{lemma_no_rule_for_hidden, sandbox_rules};
use crate::launch::{executable_path, resolve_executable_path, startable, HostOs, SearchPath};
use crate::lists::{append_list, copy_list};
use crate::number::{decimal, decimal_text};
use crate::paths::{
    any_covers, covers, covers_any, is_above, is_covered, join_path, joined_path, keep_present,
    lemma_present_paths, present_paths, PathKind,
};
use crate::policy::{pair_texts, place_paths, placed, PolicyModel};
use crate::request::{RequestModel, RunRequest};
use crate::text::{concat, join, joined, lemma_texts_push, opt_text, texts};
use vstd::prelude::*;

verus! {

broadcast use vstd::seq::group_seq_axioms;

/// What a process is confined to.
#[derive(Debug, Clone)]
pub struct LinuxHardeningPlan {
    pub working_dir: String,
    pub read_only_paths: Vec<String>,
    pub writable_paths: Vec<String>,
    pub executable_path: Option<String>,
    /// The denied paths that are there.
    pub hidden_paths: Vec<String>,
    pub max_cpu: u32,
    pub max_ram_bytes: u64,
    pub max_disk_bytes: u64,
    pub timeout_secs: u64,
}

/// The contents of a `LinuxHardeningPlan`.
pub struct HardeningModel {
    pub working_dir: Seq<char>,
    pub read_only_paths: Seq<Seq<char>>,
    pub writable_paths: Seq<Seq<char>>,
    pub executable_path: Option<Seq<char>>,
    pub hidden_paths: Seq<Seq<char>>,
    pub max_cpu: u32,
    pub max_ram_bytes: u64,
    pub max_disk_bytes: u64,
    pub timeout_secs: nat,
}

impl View for LinuxHardeningPlan {
    type V = HardeningModel;

    open spec fn view(&self) -> HardeningModel {
        HardeningModel {
            working_dir: self.working_dir@,
            read_only_paths: texts(self.read_only_paths@),
            writable_paths: texts(self.writable_paths@),
            executable_path: opt_text(self.executable_path),
            hidden_paths: texts(self.hidden_paths@),
            max_cpu: self.max_cpu,
            max_ram_bytes: self.max_ram_bytes,
            max_disk_bytes: self.max_disk_bytes,
            timeout_secs: self.timeout_secs as nat,
        }
    }
}

/// The paths that programs need to start at all.
pub open spec fn runtime_paths() -> Seq<Seq<char>> {
    seq![
        "/bin"@,
        "/usr/bin"@,
        "/sbin"@,
        "/usr/sbin"@,
        "/lib"@,
        "/lib64"@,
        "/usr/lib"@,
        "/usr/lib64"@,
        "/usr/local/bin"@,
        "/usr/local/lib"@,
        "/usr/share"@,
        "/dev"@,
        "/etc/ld.so.cache"@,
        "/etc/nsswitch.conf"@,
        "/etc/hosts"@,
        "/etc/resolv.conf"@,
    ]
}

/// The larger of two numbers.
pub open spec fn larger(a: int, b: int) -> int {
    if a >= b {
        a
    } else {
        b
    }
}

/// The denied paths of a request that are there.
pub open spec fn hidden_of(request: RequestModel, kinds: Seq<PathKind>) -> Seq<Seq<char>> {
    present_paths(
        placed(HostOs::Linux, request.working_dir, request.policy.filesystem_deny),
        kinds,
    )
}

/// The paths without those at or below a hidden one.
pub open spec fn unhidden(paths: Seq<Seq<char>>, hidden: Seq<Seq<char>>) -> Seq<Seq<char>> {
    paths.filter(|path: Seq<char>| !any_covers(HostOs::Linux, hidden, path))
}

/// Of the paths, those above a hidden one. The kernel grants everything beneath a path, so
/// it cannot grant these and hide the other.
pub open spec fn exposing(paths: Seq<Seq<char>>, hidden: Seq<Seq<char>>) -> Seq<Seq<char>> {
    paths.filter(|path: Seq<char>| covers_any(HostOs::Linux, path, hidden))
}

/// The paths that the process of a request may read, as far as nothing hides them.
pub open spec fn readable_of(request: RequestModel, hidden: Seq<Seq<char>>) -> Seq<Seq<char>> {
    unhidden(
        placed(HostOs::Linux, request.working_dir, request.policy.filesystem_readonly)
            + runtime_paths(),
        hidden,
    )
}

/// The paths that the process of a request may write, as far as nothing hides them.
pub open spec fn writable_of(request: RequestModel, hidden: Seq<Seq<char>>) -> Seq<Seq<char>> {
    unhidden(
        placed(HostOs::Linux, request.working_dir, request.policy.filesystem_writable),
        hidden,
    )
}

/// What is told of paths that cannot be granted without a denied one.
pub open spec fn exposure(paths: Seq<Seq<char>>) -> SandboxFault {
    SandboxFault::LaunchFailed("denied paths cannot be hidden beneath: "@ + joined(paths, ", "@))
}

/// What the process of a request is confined to; the paths of the policy are seen from
/// the working directory of the request. What is denied and there is hidden: no path at or
/// below it is granted, and a path above it is refused.
pub open spec fn hardening_of(
    request: RequestModel,
    dirs: Option<Seq<Seq<char>>>,
    present: Seq<bool>,
    kinds: Seq<PathKind>,
) -> Result<HardeningModel, SandboxFault> {
    let program = match request.command {
        PlanModel::Direct { argv } => executable_path(
            HostOs::Linux,
            argv[0],
            request.working_dir,
            dirs,
            present,
        ),
        PlanModel::Shell { .. } => Ok("/bin/sh"@),
    };
    let hidden = hidden_of(request, kinds);
    let readable = readable_of(request, hidden);
    let writable = writable_of(request, hidden);
    let exposed = exposing(writable + readable, hidden);
    match program {
        Err(fault) => Err(fault),
        Ok(path) => if exposed.len() > 0 {
            Err(exposure(exposed))
        } else {
            Ok(
                HardeningModel {
                    working_dir: request.working_dir,
                    read_only_paths: readable,
                    writable_paths: writable,
                    executable_path: if any_covers(HostOs::Linux, hidden, path) {
                        None
                    } else {
                        Some(path)
                    },
                    hidden_paths: hidden,
                    max_cpu: larger(request.policy.max_cpu as int, 1) as u32,
                    max_ram_bytes: request.policy.max_ram_bytes,
                    max_disk_bytes: request.policy.max_disk_bytes,
                    timeout_secs: larger((request.policy.timeout / 1_000_000_000) as int, 1) as nat,
                },
            )
        },
    }
}

/// The rules that the kernel gets for a hardened process; the flags tell which of its paths
/// exist.
pub open spec fn rules_of(
    plan: HardeningModel,
    version: u32,
    readonly_exist: Seq<bool>,
    writable_exist: Seq<bool>,
    program_exists: bool,
) -> Seq<(Seq<char>, u64)> {
    sandbox_rules(
        version,
        plan.read_only_paths,
        readonly_exist,
        plan.writable_paths,
        writable_exist,
        plan.executable_path,
        program_exists,
        plan.hidden_paths,
    )
}

/// A denied path is never granted: whatever exists and whatever version the kernel has, no
/// rule of a hardened process is attached to a denied path that is there, above it or below
/// it.
pub proof fn lemma_denied_paths_get_no_rule(
    request: RequestModel,
    dirs: Option<Seq<Seq<char>>>,
    present: Seq<bool>,
    kinds: Seq<PathKind>,
    plan: HardeningModel,
    version: u32,
    readonly_exist: Seq<bool>,
    writable_exist: Seq<bool>,
    program_exists: bool,
    rule: int,
    denied: int,
)
    requires
        hardening_of(request, dirs, present, kinds) == Ok::<HardeningModel, SandboxFault>(plan),
        0 <= rule < rules_of(plan, version, readonly_exist, writable_exist, program_exists).len(),
        0 <= denied < request.policy.filesystem_deny.len(),
        kinds[denied] != PathKind::Missing,
    ensures
        ({
            let target = rules_of(
                plan,
                version,
                readonly_exist,
                writable_exist,
                program_exists,
            )[rule].0;
            let path = joined_path(
                HostOs::Linux,
                request.working_dir,
                request.policy.filesystem_deny[denied],
            );
            !covers(HostOs::Linux, target, path) && !covers(HostOs::Linux, path, target)
        }),
{
    let all = placed(HostOs::Linux, request.working_dir, request.policy.filesystem_deny);
    lemma_present_paths(all, kinds, denied);
    lemma_no_rule_for_hidden(
        version,
        plan.read_only_paths,
        readonly_exist,
        plan.writable_paths,
        writable_exist,
        plan.executable_path,
        program_exists,
        plan.hidden_paths,
        rule,
        all[denied],
    );
}

/// The paths that programs need to start at all.
pub fn default_secure_readonly_paths() -> (out: Vec<String>)
    ensures
        texts(out@) == runtime_paths(),
{
    let out: Vec<String> = vec![
        "/bin".to_string(),
        "/usr/bin".to_string(),
        "/sbin".to_string(),
        "/usr/sbin".to_string(),
        "/lib".to_string(),
        "/lib64".to_string(),
        "/usr/lib".to_string(),
        "/usr/lib64".to_string(),
        "/usr/local/bin".to_string(),
        "/usr/local/lib".to_string(),
        "/usr/share".to_string(),
        "/dev".to_string(),
        "/etc/ld.so.cache".to_string(),
        "/etc/nsswitch.conf".to_string(),
        "/etc/hosts".to_string(),
        "/etc/resolv.conf".to_string(),
    ];
    assert(texts(out@) =~= runtime_paths());
    out
}

/// At least one processor.
pub fn at_least_one(n: u32) -> (r: u32)
    ensures
        r == larger(n as int, 1),
{
    if n >= 1 {
        n
    } else {
        1
    }
}

/// At least one second.
pub fn at_least_one_second(n: u64) -> (r: u64)
    ensures
        r == larger(n as int, 1),
{
    if n >= 1 {
        n
    } else {
        1
    }
}

fn drop_hidden(paths: &Vec<String>, hidden: &Vec<String>) -> (out: Vec<String>)
    ensures
        texts(out@) == unhidden(texts(paths@), texts(hidden@)),
{
    let mut out: Vec<String> = Vec::new();
    let ghost all = texts(paths@);
    let ghost keep = |path: Seq<char>| !any_covers(HostOs::Linux, texts(hidden@), path);
    assert(all.take(0).filter(keep) =~= Seq::<Seq<char>>::empty()) by {
        reveal(Seq::filter);
    }
    assert(texts(out@) =~= all.take(0).filter(keep));
    for i in 0..paths.len()
        invariant
            all == texts(paths@),
            keep == (|path: Seq<char>| !any_covers(HostOs::Linux, texts(hidden@), path)),
            texts(out@) == all.take(i as int).filter(keep),
    {
        proof {
            reveal(Seq::filter);
        }
        assert(all.take(i + 1).drop_last() =~= all.take(i as int));
        if !is_covered(HostOs::Linux, hidden, paths[i].as_str()) {
            proof {
                lemma_texts_push(out@, paths@[i as int]);
            }
            out.push(paths[i].clone());
        }
    }
    assert(all.take(all.len() as int) =~= all);
    out
}

fn keep_exposing(paths: &Vec<String>, hidden: &Vec<String>) -> (out: Vec<String>)
    ensures
        texts(out@) == exposing(texts(paths@), texts(hidden@)),
{
    let mut out: Vec<String> = Vec::new();
    let ghost all = texts(paths@);
    let ghost keep = |path: Seq<char>| covers_any(HostOs::Linux, path, texts(hidden@));
    assert(all.take(0).filter(keep) =~= Seq::<Seq<char>>::empty()) by {
        reveal(Seq::filter);
    }
    assert(texts(out@) =~= all.take(0).filter(keep));
    for i in 0..paths.len()
        invariant
            all == texts(paths@),
            keep == (|path: Seq<char>| covers_any(HostOs::Linux, path, texts(hidden@))),
            texts(out@) == all.take(i as int).filter(keep),
    {
        proof {
            reveal(Seq::filter);
        }
        assert(all.take(i + 1).drop_last() =~= all.take(i as int));
        if is_above(HostOs::Linux, paths[i].as_str(), hidden) {
            proof {
                lemma_texts_push(out@, paths@[i as int]);
            }
            out.push(paths[i].clone());
        }
    }
    assert(all.take(all.len() as int) =~= all);
    out
}

impl LinuxHardeningPlan {
    /// What the process of a request is confined to. The search path is about the program
    /// of the request, and `kinds` tells what the denied paths are.
    pub fn from_request(request: &RunRequest, search: &SearchPath, kinds: &Vec<PathKind>) -> (r:
        Result<LinuxHardeningPlan, SandboxError>)
        requires
            startable(request@.command),
            search.wf(),
            kinds.len() == request.policy.filesystem_deny.len(),
        ensures
            match hardening_of(request@, search.dirs(), search.present@, kinds@) {
                Ok(model) => r matches Ok(plan) && plan@ == model,
                Err(fault) => r matches Err(e) && e@ == fault,
            },
    {
        let os = HostOs::Linux;
        let working_dir = request.working_dir.as_str();
        let denied = place_paths(os, working_dir, &request.policy.filesystem_deny);
        assert(texts(denied@).len() == denied.len());
        let hidden_paths = keep_present(&denied, kinds);
        let own = place_paths(os, working_dir, &request.policy.filesystem_readonly);
        let readable = append_list(own, &default_secure_readonly_paths());
        let read_only_paths = drop_hidden(&readable, &hidden_paths);
        let writable = place_paths(os, working_dir, &request.policy.filesystem_writable);
        let writable_paths = drop_hidden(&writable, &hidden_paths);
        let program = match &request.command {
            CommandPlan::Direct { argv } => {
                assert(texts(argv@).len() == argv.len());
                assert(texts(argv@)[0] == argv@[0]@);
                match resolve_executable_path(os, argv[0].as_str(), working_dir, search) {
                    Ok(path) => path,
                    Err(e) => return Err(e),
                }
            },
            CommandPlan::Shell { .. } => "/bin/sh".to_string(),
        };
        let granted = append_list(copy_list(&writable_paths), &read_only_paths);
        let exposed = keep_exposing(&granted, &hidden_paths);
        assert(texts(exposed@).len() == exposed.len());
        if exposed.len() > 0 {
            return Err(
                SandboxError::LaunchFailed(
                    concat(
                        "denied paths cannot be hidden beneath: ",
                        join(&exposed, ", ").as_str(),
                    ),
                ),
            );
        }
        let executable_path = if is_covered(os, &hidden_paths, program.as_str()) {
            None
        } else {
            Some(program)
        };
        Ok(
            LinuxHardeningPlan {
                working_dir: request.working_dir.clone(),
                read_only_paths,
                writable_paths,
                executable_path,
                hidden_paths,
                max_cpu: at_least_one(request.policy.max_cpu),
                max_ram_bytes: request.policy.max_ram_bytes,
                max_disk_bytes: request.policy.max_disk_bytes,
                timeout_secs: at_least_one_second(request.policy.timeout.as_secs()),
            },
        )
    }
}

// ---------------------------------------------------------------------------
// Limits

/// The resources that the kernel limits for a process.
#[derive(Debug, Clone, Copy, PartialEq, Eq, Structural)]
pub enum Resource {
    /// Processor time in seconds.
    CpuTime,
    /// Address space in bytes.
    AddressSpace,
    /// The size of a written file in bytes.
    FileSize,
    /// Open files.
    OpenFiles,
    /// Processes of the user.
    Processes,
}

/// The number of files that a process may have open.
pub const MAX_OPEN_FILES: u64 = 256;

/// The number of processes that come with each processor.
pub const PROCESSES_PER_CPU: u32 = 64;

/// The product of two numbers, or the largest `u32` where that is smaller.
pub open spec fn capped_u32(a: u32, b: u32) -> u32 {
    if a * b <= u32::MAX {
        (a * b) as u32
    } else {
        u32::MAX
    }
}

/// The limits, soft and hard alike, in the order in which they are set.
pub open spec fn process_limits(timeout_secs: u64, ram: u64, disk: u64, cpus: u32) -> Seq<
    (Resource, u64),
> {
    seq![
        (Resource::CpuTime, timeout_secs),
        (Resource::AddressSpace, ram),
        (Resource::FileSize, disk),
        (Resource::OpenFiles, MAX_OPEN_FILES),
        (Resource::Processes, capped_u32(cpus, PROCESSES_PER_CPU) as u64),
    ]
}

fn saturating_u32(a: u32, b: u32) -> (r: u32)
    ensures
        r == capped_u32(a, b),
{
    match a.checked_mul(b) {
        Some(n) => n,
        None => u32::MAX,
    }
}

/// The limits of a process.
pub fn resource_limits(timeout_secs: u64, ram: u64, disk: u64, cpus: u32) -> (out: Vec<
    (Resource, u64),
>)
    ensures
        out@ == process_limits(timeout_secs, ram, disk, cpus),
{
    let out: Vec<(Resource, u64)> = vec![
        (Resource::CpuTime, timeout_secs),
        (Resource::AddressSpace, ram),
        (Resource::FileSize, disk),
        (Resource::OpenFiles, MAX_OPEN_FILES),
        (Resource::Processes, saturating_u32(cpus, PROCESSES_PER_CPU) as u64),
    ];
    assert(out@ =~= process_limits(timeout_secs, ram, disk, cpus));
    out
}

/// The limits of a hardened process.
pub fn set_resource_limits(plan: &LinuxHardeningPlan) -> (out: Vec<(Resource, u64)>)
    ensures
        out@ == process_limits(
            plan.timeout_secs,
            plan.max_ram_bytes,
            plan.max_disk_bytes,
            plan.max_cpu,
        ),
{
    resource_limits(plan.timeout_secs, plan.max_ram_bytes, plan.max_disk_bytes, plan.max_cpu)
}

/// The limits of a launcher, which confines the command by itself.
pub fn launcher_limits(request: &RunRequest) -> (out: Vec<(Resource, u64)>)
    ensures
        out@ == process_limits(
            larger((request.policy@.timeout / 1_000_000_000) as int, 1) as u64,
            request.policy.max_ram_bytes,
            request.policy.max_disk_bytes,
            larger(request.policy.max_cpu as int, 1) as u32,
        ),
{
    resource_limits(
        at_least_one_second(request.policy.timeout.as_secs()),
        request.policy.max_ram_bytes,
        request.policy.max_disk_bytes,
        at_least_one(request.policy.max_cpu),
    )
}

// ---------------------------------------------------------------------------
// Steps

/// What a process does to itself between its start and the command, in order.
#[derive(Debug, Clone, Copy, PartialEq, Eq, Structural)]
pub enum HardeningStep {
    /// Lead a process group of its own.
    ProcessGroup,
    /// Enter namespaces of its own, as far as the kernel lets it.
    Namespaces,
    /// Give up gaining privileges.
    NoNewPrivileges,
    /// Give up being dumped and traced.
    NotDumpable,
    /// Create files for the owner alone.
    PrivateUmask,
    /// Set the limits.
    ResourceLimits,
    /// Confine the filesystem.
    Landlock,
    /// Install the filter that denies.
    DenyFilter,
    /// Install the filter that denies and asks the supervisor, and hand the listener over.
    SupervisedFilter,
}

/// How a command is run.
#[derive(Debug, Clone, Copy, PartialEq, Eq, Structural)]
pub enum RunMode {
    /// As it is.
    Plain,
    /// Hardened, without network.
    Hardened,
    /// Hardened, with a supervised network.
    Supervised,
    /// By a launcher that confines it.
    Launcher,
}

/// The steps of a mode. Filters come last: they would refuse what the others need.
pub open spec fn steps_of(mode: RunMode) -> Seq<HardeningStep> {
    match mode {
        RunMode::Plain => Seq::<HardeningStep>::empty(),
        RunMode::Hardened => seq![
            HardeningStep::ProcessGroup,
            HardeningStep::Namespaces,
            HardeningStep::NoNewPrivileges,
            HardeningStep::NotDumpable,
            HardeningStep::PrivateUmask,
            HardeningStep::ResourceLimits,
            HardeningStep::Landlock,
            HardeningStep::DenyFilter,
        ],
        RunMode::Supervised => seq![
            HardeningStep::ProcessGroup,
            HardeningStep::Namespaces,
            HardeningStep::NoNewPrivileges,
            HardeningStep::NotDumpable,
            HardeningStep::PrivateUmask,
            HardeningStep::ResourceLimits,
            HardeningStep::Landlock,
            HardeningStep::SupervisedFilter,
        ],
        RunMode::Launcher => seq![
            HardeningStep::ProcessGroup,
            HardeningStep::NotDumpable,
            HardeningStep::PrivateUmask,
            HardeningStep::ResourceLimits,
        ],
    }
}

/// The steps of a mode.
pub fn hardening_steps(mode: RunMode) -> (out: Vec<HardeningStep>)
    ensures
        out@ == steps_of(mode),
{
    let out: Vec<HardeningStep> = match mode {
        RunMode::Plain => Vec::new(),
        RunMode::Hardened => vec![
            HardeningStep::ProcessGroup,
            HardeningStep::Namespaces,
            HardeningStep::NoNewPrivileges,
            HardeningStep::NotDumpable,
            HardeningStep::PrivateUmask,
            HardeningStep::ResourceLimits,
            HardeningStep::Landlock,
            HardeningStep::DenyFilter,
        ],
        RunMode::Supervised => vec![
            HardeningStep::ProcessGroup,
            HardeningStep::Namespaces,
            HardeningStep::NoNewPrivileges,
            HardeningStep::NotDumpable,
            HardeningStep::PrivateUmask,
            HardeningStep::ResourceLimits,
            HardeningStep::Landlock,
            HardeningStep::SupervisedFilter,
        ],
        RunMode::Launcher => vec![
            HardeningStep::ProcessGroup,
            HardeningStep::NotDumpable,
            HardeningStep::PrivateUmask,
            HardeningStep::ResourceLimits,
        ],
    };
    assert(out@ =~= steps_of(mode));
    out
}

/// Whether a process of that mode leads a process group of its own. Where it does, the whole
/// group is ended when its time is up; else the process alone, since the group is that of
/// whoever started it.
pub fn ends_group(mode: RunMode) -> (r: bool)
    ensures
        r == steps_of(mode).contains(HardeningStep::ProcessGroup),
{
    let ghost steps = steps_of(mode);
    match mode {
        RunMode::Plain => false,
        _ => {
            assert(steps[0] == HardeningStep::ProcessGroup);
            true
        },
    }
}

/// A hardened process gives up gaining privileges before it confines its files and
/// installs a filter, as the kernel asks; and the filter is the last step.
pub proof fn lemma_filter_comes_last(mode: RunMode)
    requires
        mode is Hardened || mode is Supervised,
    ensures
        ({
            let steps = steps_of(mode);
            &&& steps.last() is DenyFilter || steps.last() is SupervisedFilter
            &&& exists|i: int, j: int|
                0 <= i < j < steps.len() - 1 && #[trigger] steps[i] is NoNewPrivileges
                    && #[trigger] steps[j] is Landlock
        }),
{
    let steps = steps_of(mode);
    assert(steps[2] is NoNewPrivileges && steps[6] is Landlock);
}

/// The line that makes the user `id` the superuser of its own namespace.
pub fn id_map(id: u32) -> (out: String)
    ensures
        out@ == "0 "@ + decimal(id as nat) + " 1"@,
{
    let mut out = concat("0 ", decimal_text(id as u128).as_str());
    out.append(" 1");
    out
}

// ---------------------------------------------------------------------------
// Control groups

/// What is written to the control group of a process: the limits, best-effort, and then
/// the process itself.
#[derive(Debug, Clone)]
pub struct CgroupPlan {
    pub dir: String,
    /// Files and what is written to them.
    pub limits: Vec<(String, String)>,
    /// The file that the number of the process is written to.
    pub procs_file: String,
    pub pid: String,
}

/// Where control groups stand.
pub open spec fn cgroup_base() -> Seq<char> {
    "/sys/fs/cgroup"@
}

/// The control group of a process.
pub open spec fn cgroup_dir(pid: u32) -> Seq<char> {
    joined_path(HostOs::Linux, cgroup_base(), "microbox-"@ + decimal(pid as nat))
}

/// The limits of a control group: memory, processor time per 100 milliseconds, and
/// processes.
pub open spec fn cgroup_limits(dir: Seq<char>, m: PolicyModel) -> Seq<(Seq<char>, Seq<char>)> {
    let cpus = larger(m.max_cpu as int, 1) as u32;
    seq![
        (joined_path(HostOs::Linux, dir, "memory.max"@), decimal(m.max_ram_bytes as nat)),
        (joined_path(HostOs::Linux, dir, "cpu.max"@), decimal(capped_u32(cpus, 100_000) as nat) + " 100000"@),
        (joined_path(HostOs::Linux, dir, "pids.max"@), decimal(capped_u32(cpus, PROCESSES_PER_CPU) as nat)),
    ]
}

/// What is written to the control group of a process.
pub fn cgroup_plan(pid: u32, request: &RunRequest) -> (plan: CgroupPlan)
    ensures
        plan.dir@ == cgroup_dir(pid),
        pair_texts(plan.limits@) == cgroup_limits(cgroup_dir(pid), request.policy@),
        plan.procs_file@ == joined_path(HostOs::Linux, cgroup_dir(pid), "cgroup.procs"@),
        plan.pid@ == decimal(pid as nat),
{
    let name = concat("microbox-", decimal_text(pid as u128).as_str());
    let dir = join_path(HostOs::Linux, "/sys/fs/cgroup", name.as_str());
    let cpus = at_least_one(request.policy.max_cpu);
    let quota = decimal_text(saturating_u32(cpus, 100_000) as u128);
    let limits: Vec<(String, String)> = vec![
        (
            join_path(HostOs::Linux, dir.as_str(), "memory.max"),
            decimal_text(request.policy.max_ram_bytes as u128),
        ),
        (join_path(HostOs::Linux, dir.as_str(), "cpu.max"), concat(quota.as_str(), " 100000")),
        (
            join_path(HostOs::Linux, dir.as_str(), "pids.max"),
            decimal_text(saturating_u32(cpus, PROCESSES_PER_CPU) as u128),
        ),
    ];
    assert(pair_texts(limits@) =~= cgroup_limits(dir@, request.policy@));
    let procs_file = join_path(HostOs::Linux, dir.as_str(), "cgroup.procs");
    CgroupPlan { dir, limits, procs_file, pid: decimal_text(pid as u128) }
}

} // verus!
