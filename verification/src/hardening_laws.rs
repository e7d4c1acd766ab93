//! What a hardened process is confined to.
use crate::command::PlanModel;
use crate::errors::SandboxFault;
use crate::hardening::{
    cgroup_dir, cgroup_limits, exposing, hardening_of, hidden_of, process_limits, readable_of,
    runtime_paths, steps_of, writable_of, HardeningModel, HardeningStep,
    Resource, RunMode,
};
use crate::landlock::{
    grant_rules, handled_rights, reading_rights, rule_target, sandbox_rules, touches_hidden,
};
use crate::launch::{executable_path, HostOs};
use crate::number::decimal;
use crate::path_laws::lemma_paths_that_are_there;
use crate::paths::{any_covers, covers, covers_any, joined_path, parent_path, PathKind};
use crate::policy::{placed, PolicyModel};
use crate::request::RequestModel;
use crate::text::joined;
use vstd::prelude::*;

verus! {

broadcast use vstd::seq::group_seq_axioms;

// ---------------------------------------------------------------------------
// Paths

/// The paths that programs need to start at all, one by one.
pub proof fn lemma_runtime_paths(x: Seq<char>)
    ensures
        runtime_paths().contains(x) <==> {
            ||| x == "/bin"@
            ||| x == "/usr/bin"@
            ||| x == "/sbin"@
            ||| x == "/usr/sbin"@
            ||| x == "/lib"@
            ||| x == "/lib64"@
            ||| x == "/usr/lib"@
            ||| x == "/usr/lib64"@
            ||| x == "/usr/local/bin"@
            ||| x == "/usr/local/lib"@
            ||| x == "/usr/share"@
            ||| x == "/dev"@
            ||| x == "/etc/ld.so.cache"@
            ||| x == "/etc/nsswitch.conf"@
            ||| x == "/etc/hosts"@
            ||| x == "/etc/resolv.conf"@
        },
{
    let r = runtime_paths();
    assert(r.len() == 16);
    assert(r[0] == "/bin"@ && r[1] == "/usr/bin"@ && r[2] == "/sbin"@ && r[3] == "/usr/sbin"@
        && r[4] == "/lib"@ && r[5] == "/lib64"@ && r[6] == "/usr/lib"@ && r[7] == "/usr/lib64"@);
    assert(r[8] == "/usr/local/bin"@ && r[9] == "/usr/local/lib"@ && r[10] == "/usr/share"@ && r[11]
        == "/dev"@ && r[12] == "/etc/ld.so.cache"@ && r[13] == "/etc/nsswitch.conf"@ && r[14]
        == "/etc/hosts"@ && r[15] == "/etc/resolv.conf"@);
}

proof fn lemma_filtered(s: Seq<Seq<char>>, p: spec_fn(Seq<char>) -> bool, x: Seq<char>)
    ensures
        s.filter(p).contains(x) <==> s.contains(x) && p(x),
    decreases s.len(),
{
    reveal(Seq::filter);
    if s.len() > 0 {
        let t = s.drop_last();
        lemma_filtered(t, p, x);
        let (f, g) = (t.filter(p), s.filter(p));
        if s.contains(x) {
            let j = choose|j: int| 0 <= j < s.len() && s[j] == x;
            if j < t.len() {
                assert(t[j] == x);
            }
        }
        if t.contains(x) {
            let j = choose|j: int| 0 <= j < t.len() && t[j] == x;
            assert(s[j] == x);
        }
        if f.contains(x) {
            let j = choose|j: int| 0 <= j < f.len() && f[j] == x;
            assert(g[j] == x);
        }
        if g.contains(x) {
            let j = choose|j: int| 0 <= j < g.len() && g[j] == x;
            if j < f.len() {
                assert(f[j] == x);
            } else {
                assert(s[s.len() - 1] == x);
            }
        }
        if x == s.last() && p(x) {
            assert(g[f.len() as int] == x);
        }
    }
}

/// A path of the list, as seen from the working directory, is `x`.
pub open spec fn places(working_dir: Seq<char>, list: Seq<Seq<char>>, x: Seq<char>) -> bool {
    exists|i: int|
        0 <= i < list.len() && joined_path(HostOs::Linux, working_dir, #[trigger] list[i]) == x
}

proof fn lemma_places(working_dir: Seq<char>, list: Seq<Seq<char>>, x: Seq<char>)
    ensures
        placed(HostOs::Linux, working_dir, list).contains(x) == places(working_dir, list, x),
{
    let p = placed(HostOs::Linux, working_dir, list);
    if p.contains(x) {
        let i = choose|i: int| 0 <= i < p.len() && p[i] == x;
        assert(joined_path(HostOs::Linux, working_dir, list[i]) == x);
    }
    if places(working_dir, list, x) {
        let i = choose|i: int|
            0 <= i < list.len() && joined_path(HostOs::Linux, working_dir, #[trigger] list[i]) == x;
        assert(p[i] == x);
    }
}

/// Which paths are hidden: the denied ones, as seen from the working directory, that are
/// there.
pub proof fn lemma_hidden_paths(request: RequestModel, kinds: Seq<PathKind>, x: Seq<char>)
    requires
        kinds.len() == request.policy.filesystem_deny.len(),
    ensures
        hidden_of(request, kinds).contains(x) <==> exists|i: int|
            0 <= i < kinds.len() && kinds[i] != PathKind::Missing && joined_path(
                HostOs::Linux,
                request.working_dir,
                #[trigger] request.policy.filesystem_deny[i],
            ) == x,
{
    let deny = request.policy.filesystem_deny;
    let all = placed(HostOs::Linux, request.working_dir, deny);
    lemma_paths_that_are_there(all, kinds, x);
    if hidden_of(request, kinds).contains(x) {
        let i = choose|i: int|
            0 <= i < all.len() && #[trigger] all[i] == x && kinds[i] != PathKind::Missing;
        assert(joined_path(HostOs::Linux, request.working_dir, deny[i]) == x);
    }
    if exists|i: int|
        0 <= i < kinds.len() && kinds[i] != PathKind::Missing && joined_path(
            HostOs::Linux,
            request.working_dir,
            #[trigger] deny[i],
        ) == x {
        let i = choose|i: int|
            0 <= i < kinds.len() && kinds[i] != PathKind::Missing && joined_path(
                HostOs::Linux,
                request.working_dir,
                #[trigger] deny[i],
            ) == x;
        assert(all[i] == x);
    }
}

/// What a process may read and write: the read-only paths of the policy and the paths that
/// programs need, and the writable paths of the policy; of each those that no hidden path
/// lies at or above.
pub proof fn lemma_granted_to_a_process(
    request: RequestModel,
    hidden: Seq<Seq<char>>,
    x: Seq<char>,
)
    ensures
        readable_of(request, hidden).contains(x) <==> (places(
            request.working_dir,
            request.policy.filesystem_readonly,
            x,
        ) || runtime_paths().contains(x)) && !any_covers(HostOs::Linux, hidden, x),
        writable_of(request, hidden).contains(x) <==> places(
            request.working_dir,
            request.policy.filesystem_writable,
            x,
        ) && !any_covers(HostOs::Linux, hidden, x),
{
    let own = placed(HostOs::Linux, request.working_dir, request.policy.filesystem_readonly);
    let all = own + runtime_paths();
    let writable = placed(HostOs::Linux, request.working_dir, request.policy.filesystem_writable);
    let keep = |path: Seq<char>| !any_covers(HostOs::Linux, hidden, path);
    lemma_filtered(all, keep, x);
    lemma_filtered(writable, keep, x);
    lemma_places(request.working_dir, request.policy.filesystem_readonly, x);
    lemma_places(request.working_dir, request.policy.filesystem_writable, x);
    if all.contains(x) {
        let k = choose|k: int| 0 <= k < all.len() && all[k] == x;
        if k < own.len() {
            assert(own[k] == x);
        } else {
            assert(runtime_paths()[k - own.len()] == x);
        }
    }
    if own.contains(x) {
        let k = choose|k: int| 0 <= k < own.len() && own[k] == x;
        assert(all[k] == x);
    }
    if runtime_paths().contains(x) {
        let k = choose|k: int| 0 <= k < runtime_paths().len() && runtime_paths()[k] == x;
        assert(all[own.len() + k] == x);
    }
}

/// What a hardened process is confined to: the working directory and the limits of the
/// request, a processor and a second at least; the program that was found, or the shell,
/// unless a hidden path is in the way; and nothing that lies above a hidden path.
pub proof fn lemma_confinement(
    request: RequestModel,
    dirs: Option<Seq<Seq<char>>>,
    present: Seq<bool>,
    kinds: Seq<PathKind>,
    plan: HardeningModel,
)
    requires
        hardening_of(request, dirs, present, kinds) == Ok::<HardeningModel, SandboxFault>(plan),
    ensures
        plan.working_dir == request.working_dir,
        plan.max_ram_bytes == request.policy.max_ram_bytes,
        plan.max_disk_bytes == request.policy.max_disk_bytes,
        request.policy.max_cpu >= 1 ==> plan.max_cpu == request.policy.max_cpu,
        request.policy.max_cpu == 0 ==> plan.max_cpu == 1,
        request.policy.timeout >= 1_000_000_000 ==> plan.timeout_secs == request.policy.timeout
            / 1_000_000_000,
        request.policy.timeout < 1_000_000_000 ==> plan.timeout_secs == 1,
        plan.hidden_paths == hidden_of(request, kinds),
        plan.read_only_paths == readable_of(request, plan.hidden_paths),
        plan.writable_paths == writable_of(request, plan.hidden_paths),
        forall|x: Seq<char>, h: Seq<char>|
            (plan.read_only_paths.contains(x) || plan.writable_paths.contains(x))
                && plan.hidden_paths.contains(h) ==> !#[trigger] covers(HostOs::Linux, x, h)
                && !covers(HostOs::Linux, h, x),
        request.command is Shell && !any_covers(HostOs::Linux, plan.hidden_paths, "/bin/sh"@)
            ==> plan.executable_path == Some("/bin/sh"@),
        request.command matches PlanModel::Direct { argv } ==> (executable_path(
            HostOs::Linux,
            argv[0],
            request.working_dir,
            dirs,
            present,
        ) matches Ok(path) && (plan.executable_path == Some(path) || (plan.executable_path is None
            && any_covers(HostOs::Linux, plan.hidden_paths, path)))),
        plan.executable_path matches Some(path) ==> !any_covers(
            HostOs::Linux,
            plan.hidden_paths,
            path,
        ),
{
    let hidden = plan.hidden_paths;
    let granted = plan.writable_paths + plan.read_only_paths;
    let above = |path: Seq<char>| covers_any(HostOs::Linux, path, hidden);
    assert forall|x: Seq<char>, h: Seq<char>|
        (plan.read_only_paths.contains(x) || plan.writable_paths.contains(x))
            && hidden.contains(h) implies !#[trigger] covers(HostOs::Linux, x, h) && !covers(
        HostOs::Linux,
        h,
        x,
    ) by {
        lemma_granted_to_a_process(request, hidden, x);
        let j = choose|j: int| 0 <= j < hidden.len() && hidden[j] == h;
        if covers(HostOs::Linux, h, x) {
            assert(covers(HostOs::Linux, hidden[j], x));
            assert(any_covers(HostOs::Linux, hidden, x));
        }
        if covers(HostOs::Linux, x, h) {
            assert(covers(HostOs::Linux, x, hidden[j]));
            assert(covers_any(HostOs::Linux, x, hidden));
            if plan.writable_paths.contains(x) {
                let k = choose|k: int|
                    0 <= k < plan.writable_paths.len() && plan.writable_paths[k] == x;
                assert(granted[k] == x);
            } else {
                let k = choose|k: int|
                    0 <= k < plan.read_only_paths.len() && plan.read_only_paths[k] == x;
                assert(granted[plan.writable_paths.len() + k] == x);
            }
            assert(granted.contains(x));
            lemma_filtered(granted, above, x);
            assert(exposing(granted, hidden).contains(x));
        }
    }
}

/// When a process is hardened: its program is found, and no path that it would be granted
/// lies above a hidden one. Where one does, all such paths are told.
pub proof fn lemma_when_hardened(
    request: RequestModel,
    dirs: Option<Seq<Seq<char>>>,
    present: Seq<bool>,
    kinds: Seq<PathKind>,
)
    ensures
        ({
            let hidden = hidden_of(request, kinds);
            let granted = writable_of(request, hidden) + readable_of(request, hidden);
            let r = hardening_of(request, dirs, present, kinds);
            let found = request.command is Shell || executable_path(
                HostOs::Linux,
                request.command->argv[0],
                request.working_dir,
                dirs,
                present,
            ) is Ok;
            &&& found && (forall|x: Seq<char>|
                granted.contains(x) ==> !#[trigger] covers_any(HostOs::Linux, x, hidden)) ==> r
                is Ok
            &&& found && (exists|x: Seq<char>|
                granted.contains(x) && #[trigger] covers_any(HostOs::Linux, x, hidden)) ==> r
                == Err::<HardeningModel, SandboxFault>(
                SandboxFault::LaunchFailed(
                    "denied paths cannot be hidden beneath: "@ + joined(
                        granted.filter(|x: Seq<char>| covers_any(HostOs::Linux, x, hidden)),
                        ", "@,
                    ),
                ),
            )
            &&& !found ==> r == Err::<HardeningModel, SandboxFault>(
                executable_path(
                    HostOs::Linux,
                    request.command->argv[0],
                    request.working_dir,
                    dirs,
                    present,
                )->Err_0,
            )
        }),
{
    let hidden = hidden_of(request, kinds);
    let granted = writable_of(request, hidden) + readable_of(request, hidden);
    let above = |path: Seq<char>| covers_any(HostOs::Linux, path, hidden);
    let exposed = exposing(granted, hidden);
    if exposed.len() > 0 {
        assert(exposed.contains(exposed[0]));
        lemma_filtered(granted, above, exposed[0]);
        assert(covers_any(HostOs::Linux, exposed[0], hidden));
    }
    if exists|x: Seq<char>| granted.contains(x) && #[trigger] covers_any(HostOs::Linux, x, hidden) {
        let x = choose|x: Seq<char>|
            granted.contains(x) && #[trigger] covers_any(HostOs::Linux, x, hidden);
        lemma_filtered(granted, above, x);
        assert(exposed.contains(x));
    }
}

// ---------------------------------------------------------------------------
// Kernel rules

/// The rights that a version of the kernel's interface handles, one by one: the first thirteen
/// always, referring from the second version on, truncating from the third, and device
/// control from the fourth; no other.
pub proof fn lemma_handled_rights(version: u32)
    ensures
        handled_rights(version) & 0x1fff == 0x1fff,
        handled_rights(version) & 0x2000 != 0 <==> version >= 2,
        handled_rights(version) & 0x4000 != 0 <==> version >= 3,
        handled_rights(version) & 0x8000 != 0 <==> version >= 4,
        handled_rights(version) <= 0xffff,
{
    assert(0x1fffu64 & 0x1fff == 0x1fff && 0x1fffu64 & 0x2000 == 0 && 0x1fffu64 & 0x4000 == 0
        && 0x1fffu64 & 0x8000 == 0) by (bit_vector);
    assert(0x3fffu64 & 0x1fff == 0x1fff && 0x3fffu64 & 0x2000 != 0 && 0x3fffu64 & 0x4000 == 0
        && 0x3fffu64 & 0x8000 == 0) by (bit_vector);
    assert(0x7fffu64 & 0x1fff == 0x1fff && 0x7fffu64 & 0x2000 != 0 && 0x7fffu64 & 0x4000 != 0
        && 0x7fffu64 & 0x8000 == 0) by (bit_vector);
    assert(0xffffu64 & 0x1fff == 0x1fff && 0xffffu64 & 0x2000 != 0 && 0xffffu64 & 0x4000 != 0
        && 0xffffu64 & 0x8000 != 0) by (bit_vector);
}

/// The rights on a read-only path, one by one: to execute, to read files and to read
/// directories, and from the second version on to refer; no other.
pub proof fn lemma_reading_rights(version: u32)
    ensures
        reading_rights(version) & 0x1 != 0,
        reading_rights(version) & 0x4 != 0,
        reading_rights(version) & 0x8 != 0,
        reading_rights(version) & 0x2000 != 0 <==> version >= 2,
        reading_rights(version) & 0xffff_ffff_ffff_dff2 == 0,
{
    assert(0x200du64 & 0x1 != 0 && 0x200du64 & 0x4 != 0 && 0x200du64 & 0x8 != 0 && 0x200du64 & 0x2000
        != 0 && 0x200du64 & 0xffff_ffff_ffff_dff2 == 0 && 0xdu64 & 0x1 != 0 && 0xdu64 & 0x4 != 0
        && 0xdu64 & 0x8 != 0 && 0xdu64 & 0x2000 == 0 && 0xdu64 & 0xffff_ffff_ffff_dff2 == 0)
        by (bit_vector);
}

/// What a rule is attached to: a path that is there itself, and for one that is not the
/// directory it would stand in.
pub proof fn lemma_rule_targets(path: Seq<char>)
    ensures
        rule_target(path, true) == Some(path),
        rule_target(path, false) == parent_path(path),
{
}

proof fn lemma_grants_complete(
    paths: Seq<Seq<char>>,
    exist: Seq<bool>,
    access: u64,
    hidden: Seq<Seq<char>>,
    i: int,
)
    requires
        0 <= i < paths.len(),
    ensures
        rule_target(paths[i], exist[i]) is Some && !touches_hidden(
            hidden,
            rule_target(paths[i], exist[i])->0,
        ) ==> grant_rules(paths, exist, access, hidden).contains(
            (rule_target(paths[i], exist[i])->0, access),
        ),
    decreases paths.len(),
{
    let t = paths.drop_last();
    let before = grant_rules(t, exist, access, hidden);
    let all = grant_rules(paths, exist, access, hidden);
    if let Some(target) = rule_target(paths[i], exist[i]) {
        if !touches_hidden(hidden, target) {
            if i < t.len() {
                assert(t[i] == paths[i]);
                lemma_grants_complete(t, exist, access, hidden, i);
                let k = choose|k: int| 0 <= k < before.len() && before[k] == (target, access);
                assert(all[k] == (target, access));
            } else {
                assert(all[before.len() as int] == (target, access));
            }
        }
    }
}

/// What is granted gets its rule: a readable path that is there gets the rights to read, a
/// writable path that is there every right that the kernel handles, and the program that is
/// there the rights to read, unless a hidden path is in the way.
pub proof fn lemma_grants_get_their_rules(
    version: u32,
    readonly: Seq<Seq<char>>,
    readonly_exist: Seq<bool>,
    writable: Seq<Seq<char>>,
    writable_exist: Seq<bool>,
    program: Option<Seq<char>>,
    program_exists: bool,
    hidden: Seq<Seq<char>>,
    i: int,
)
    ensures
        ({
            let rules = sandbox_rules(
                version,
                readonly,
                readonly_exist,
                writable,
                writable_exist,
                program,
                program_exists,
                hidden,
            );
            &&& 0 <= i < readonly.len() && readonly_exist[i] && !touches_hidden(hidden, readonly[i])
                ==> rules.contains((readonly[i], reading_rights(version)))
            &&& 0 <= i < writable.len() && writable_exist[i] && !touches_hidden(hidden, writable[i])
                ==> rules.contains((writable[i], handled_rights(version)))
            &&& program is Some && program_exists && !touches_hidden(hidden, program->0)
                ==> rules.contains((program->0, reading_rights(version)))
        }),
{
    let a = grant_rules(readonly, readonly_exist, reading_rights(version), hidden);
    let b = grant_rules(writable, writable_exist, handled_rights(version), hidden);
    let rules = sandbox_rules(
        version,
        readonly,
        readonly_exist,
        writable,
        writable_exist,
        program,
        program_exists,
        hidden,
    );
    if 0 <= i < readonly.len() && readonly_exist[i] && !touches_hidden(hidden, readonly[i]) {
        lemma_grants_complete(readonly, readonly_exist, reading_rights(version), hidden, i);
        let x = (readonly[i], reading_rights(version));
        let k = choose|k: int| 0 <= k < a.len() && a[k] == x;
        assert(rules[k] == x);
    }
    if 0 <= i < writable.len() && writable_exist[i] && !touches_hidden(hidden, writable[i]) {
        lemma_grants_complete(writable, writable_exist, handled_rights(version), hidden, i);
        let x = (writable[i], handled_rights(version));
        let k = choose|k: int| 0 <= k < b.len() && b[k] == x;
        assert(rules[a.len() + k] == x);
    }
    if program is Some && program_exists && !touches_hidden(hidden, program->0) {
        let one = seq![program->0];
        let flags = seq![program_exists];
        let c = grant_rules(one, flags, reading_rights(version), hidden);
        lemma_grants_complete(one, flags, reading_rights(version), hidden, 0);
        let x = (program->0, reading_rights(version));
        let k = choose|k: int| 0 <= k < c.len() && c[k] == x;
        assert(rules[a.len() + b.len() + k] == x);
    }
}

// ---------------------------------------------------------------------------
// Limits and steps

/// The limits of a process, resource by resource: its processor time is the timeout, its
/// memory and its files are bounded by the limits of the policy, it may have 256 files open,
/// and 64 processes for each processor.
pub proof fn lemma_limits_of_a_process(timeout_secs: u64, ram: u64, disk: u64, cpus: u32)
    ensures
        ({
            let l = process_limits(timeout_secs, ram, disk, cpus);
            &&& l.len() == 5
            &&& l[0] == (Resource::CpuTime, timeout_secs)
            &&& l[1] == (Resource::AddressSpace, ram)
            &&& l[2] == (Resource::FileSize, disk)
            &&& l[3] == (Resource::OpenFiles, 256u64)
            &&& l[4].0 == Resource::Processes
            &&& cpus * 64 <= 0xffff_ffff ==> l[4].1 == cpus * 64
            &&& cpus * 64 > 0xffff_ffff ==> l[4].1 == 0xffff_ffff
        }),
{
}

/// What a process gives up in each mode: nothing where it runs as it is; where it is hardened
/// everything, with the filter that denies or the one that is supervised; under the launcher
/// what the launcher does not do.
pub proof fn lemma_steps_of_modes(step: HardeningStep)
    ensures
        steps_of(RunMode::Plain).len() == 0,
        steps_of(RunMode::Hardened).contains(step) <==> !(step is SupervisedFilter),
        steps_of(RunMode::Supervised).contains(step) <==> !(step is DenyFilter),
        steps_of(RunMode::Launcher).contains(step) <==> step is ProcessGroup || step is NotDumpable
            || step is PrivateUmask || step is ResourceLimits,
        steps_of(RunMode::Hardened).len() == 8,
        steps_of(RunMode::Supervised).len() == 8,
        steps_of(RunMode::Launcher).len() == 4,
{
    let h = steps_of(RunMode::Hardened);
    assert(h[0] is ProcessGroup && h[1] is Namespaces && h[2] is NoNewPrivileges && h[3]
        is NotDumpable && h[4] is PrivateUmask && h[5] is ResourceLimits && h[6] is Landlock && h[7]
        is DenyFilter);
    let s = steps_of(RunMode::Supervised);
    assert(s[0] is ProcessGroup && s[1] is Namespaces && s[2] is NoNewPrivileges && s[3]
        is NotDumpable && s[4] is PrivateUmask && s[5] is ResourceLimits && s[6] is Landlock && s[7]
        is SupervisedFilter);
    let l = steps_of(RunMode::Launcher);
    assert(l[0] is ProcessGroup && l[1] is NotDumpable && l[2] is PrivateUmask && l[3]
        is ResourceLimits);
}

/// The control group of a process: a directory that bears its number, the memory of the
/// policy, 100 of every 100 milliseconds for each processor, and 64 processes for each.
pub proof fn lemma_control_groups(pid: u32, m: PolicyModel)
    ensures
        cgroup_dir(pid) == joined_path(
            HostOs::Linux,
            "/sys/fs/cgroup"@,
            "microbox-"@ + decimal(pid as nat),
        ),
        ({
            let dir = cgroup_dir(pid);
            let l = cgroup_limits(dir, m);
            let cpus = if m.max_cpu == 0 {
                1
            } else {
                m.max_cpu as nat
            };
            &&& l.len() == 3
            &&& l[0].0 == joined_path(HostOs::Linux, dir, "memory.max"@)
            &&& l[0].1 == decimal(m.max_ram_bytes as nat)
            &&& l[1].0 == joined_path(HostOs::Linux, dir, "cpu.max"@)
            &&& cpus * 100_000 <= 0xffff_ffff ==> l[1].1 == decimal(cpus * 100_000) + " 100000"@
            &&& l[2].0 == joined_path(HostOs::Linux, dir, "pids.max"@)
            &&& cpus * 64 <= 0xffff_ffff ==> l[2].1 == decimal(cpus * 64)
        }),
{
}

} // verus!
