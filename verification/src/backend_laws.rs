//! What the backends promise, and what the launcher is told.
use crate::backend::{
    bind_options, compat_promise, env_options, hiding_options, launched_words, launcher_args,
    launcher_options, mask_of, mask_options, mount_options, preference_name, secure_mode,
    secure_promise, selected, wait_step, Backend, BackendPreference, SandboxBackend, WaitAction,
};
use crate::command::PlanModel;
use crate::duration::Duration;
use crate::errors::SandboxFault;
use crate::launch::{executable_path, HostOs};
use crate::paths::{joined_path, PathKind};
use crate::policy::placed;
use crate::request::RequestModel;
use vstd::prelude::*;

verus! {

broadcast use vstd::seq::group_seq_axioms;

// ---------------------------------------------------------------------------
// Backends

/// Which backend a preference gets: the secure one on Linux unless compatibility is asked for,
/// the compatible one elsewhere unless security is asked for, and then an error.
pub proof fn lemma_which_backend(preference: BackendPreference, os: HostOs)
    ensures
        preference == BackendPreference::Compat ==> selected(preference, os) is Ok && selected(
            preference,
            os,
        )->Ok_0 is Compat,
        preference != BackendPreference::Compat && os == HostOs::Linux ==> selected(preference, os)
            is Ok && selected(preference, os)->Ok_0 is LinuxSecure,
        preference == BackendPreference::Auto && os != HostOs::Linux ==> selected(preference, os)
            is Ok && selected(preference, os)->Ok_0 is Compat,
        preference == BackendPreference::Secure && os != HostOs::Linux ==> selected(preference, os)
            == Err::<Backend, SandboxFault>(
            SandboxFault::BackendUnavailable("secure backend is only available on Linux"@),
        ),
        preference_name(BackendPreference::Auto) == "auto"@,
        preference_name(BackendPreference::Compat) == "compat"@,
        preference_name(BackendPreference::Secure) == "secure"@,
{
}

/// What the two backends call themselves, and which of them enforces a policy.
pub proof fn lemma_promises(backend: Backend)
    ensures
        backend is Compat ==> backend.promise().name == "compat-local-exec"@
            && !backend.promise().secure_enforcement,
        backend is LinuxSecure ==> backend.promise().name == "linux-secure"@
            && backend.promise().secure_enforcement,
        compat_promise().notes.len() == 2,
        secure_promise().notes.len() == 4,
{
}

/// How a backend runs a command. The compatible one runs it as it is. The secure one never
/// does: on Linux a command that may reach endpoints is supervised; one that may not goes to
/// the launcher where there is one, and else is hardened.
pub proof fn lemma_run_modes(backend: Backend, os: HostOs, launcher_present: bool, network: bool)
    ensures
        backend is Compat ==> backend.mode(os, launcher_present, network) is Plain,
        backend is LinuxSecure && os == HostOs::Linux && network ==> backend.mode(
            os,
            launcher_present,
            network,
        ) is Supervised,
        backend is LinuxSecure && os == HostOs::Linux && !network && launcher_present
            ==> backend.mode(os, launcher_present, network) is Launcher,
        backend is LinuxSecure && os == HostOs::Linux && !network && !launcher_present
            ==> backend.mode(os, launcher_present, network) is Hardened,
        backend is LinuxSecure && os != HostOs::Linux ==> backend.mode(
            os,
            launcher_present,
            network,
        ) is Hardened,
        !(secure_mode(os, launcher_present, network) is Plain),
{
}

// ---------------------------------------------------------------------------
// The launcher

/// What the launcher is always told: to end with its parent, to give the command a session,
/// users, processes, messages, a host name, control groups and a network of its own, to clear
/// the environment, and to show the machine's files for reading only, with devices, processes
/// and directories for temporary files of its own.
pub proof fn lemma_launcher_confines()
    ensures
        ({
            let o = launcher_options();
            &&& o.len() == 20
            &&& o[0] == "--die-with-parent"@
            &&& o[1] == "--new-session"@
            &&& o[2] == "--unshare-user"@
            &&& o[3] == "--unshare-pid"@
            &&& o[4] == "--unshare-ipc"@
            &&& o[5] == "--unshare-uts"@
            &&& o[6] == "--unshare-cgroup"@
            &&& o[7] == "--unshare-net"@
            &&& o[8] == "--clearenv"@
            &&& o[9] == "--ro-bind"@ && o[10] == "/"@ && o[11] == "/"@
            &&& o[12] == "--dev"@ && o[13] == "/dev"@
            &&& o[14] == "--proc"@ && o[15] == "/proc"@
            &&& o[16] == "--tmpfs"@ && o[17] == "/tmp"@
            &&& o[18] == "--dir"@ && o[19] == "/var/tmp"@
        }),
{
}

proof fn lemma_binds(paths: Seq<Seq<char>>, i: int)
    requires
        0 <= i < paths.len(),
    ensures
        bind_options(paths).len() == 3 * paths.len(),
        bind_options(paths)[3 * i] == "--bind"@,
        bind_options(paths)[3 * i + 1] == paths[i],
        bind_options(paths)[3 * i + 2] == paths[i],
    decreases paths.len(),
{
    let t = paths.drop_last();
    if t.len() > 0 {
        lemma_binds(t, if i < t.len() {
            i
        } else {
            0
        });
    }
    assert(t.len() == 0 ==> bind_options(t).len() == 0);
    if i < t.len() {
        assert(t[i] == paths[i]);
    }
}

proof fn lemma_settings(vars: Seq<(Seq<char>, Seq<char>)>, i: int)
    requires
        0 <= i < vars.len(),
    ensures
        env_options(vars).len() == 3 * vars.len(),
        env_options(vars)[3 * i] == "--setenv"@,
        env_options(vars)[3 * i + 1] == vars[i].0,
        env_options(vars)[3 * i + 2] == vars[i].1,
    decreases vars.len(),
{
    let t = vars.drop_last();
    if t.len() > 0 {
        lemma_settings(t, if i < t.len() {
            i
        } else {
            0
        });
    }
    assert(t.len() == 0 ==> env_options(t).len() == 0);
    if i < t.len() {
        assert(t[i] == vars[i]);
    }
}

/// What is writable under the launcher: each writable path of the policy, as seen from the
/// working directory, under its own name.
pub proof fn lemma_writable_paths_are_bound(
    os: HostOs,
    request: RequestModel,
    kinds: Seq<PathKind>,
    env: Seq<(Seq<char>, Seq<char>)>,
    words: Seq<Seq<char>>,
    i: int,
)
    requires
        0 <= i < request.policy.filesystem_writable.len(),
    ensures
        ({
            let args = launcher_args(os, request, kinds, env, words);
            let path = joined_path(os, request.working_dir, request.policy.filesystem_writable[i]);
            &&& args[20] == "--chdir"@
            &&& args[21] == request.working_dir
            &&& args[22 + 3 * i] == "--bind"@
            &&& args[22 + 3 * i + 1] == path
            &&& args[22 + 3 * i + 2] == path
        }),
{
    let paths = placed(os, request.working_dir, request.policy.filesystem_writable);
    lemma_binds(paths, i);
    let args = launcher_args(os, request, kinds, env, words);
    let binds = bind_options(paths);
    let head = mount_options(os, request);
    assert(head.len() == 22 + binds.len());
    assert(args[20] == head[20] && args[21] == head[21]);
    assert(args[22 + 3 * i] == head[22 + 3 * i] && head[22 + 3 * i] == binds[3 * i]);
    assert(args[22 + 3 * i + 1] == head[22 + 3 * i + 1] && head[22 + 3 * i + 1] == binds[3 * i + 1]);
    assert(args[22 + 3 * i + 2] == head[22 + 3 * i + 2] && head[22 + 3 * i + 2] == binds[3 * i + 2]);
}

/// The launcher shows nothing else for writing: its options up to the writable paths are as
/// many as its own options, the working directory and three for each writable path.
pub proof fn lemma_launcher_shows_no_more(os: HostOs, request: RequestModel)
    ensures
        mount_options(os, request).len() == 22 + 3 * request.policy.filesystem_writable.len(),
        mount_options(os, request).take(20) == launcher_options(),
{
    let paths = placed(os, request.working_dir, request.policy.filesystem_writable);
    if paths.len() > 0 {
        lemma_binds(paths, 0);
    }
    assert(mount_options(os, request).take(20) =~= launcher_options());
}

/// How a denied path is hidden: a directory by an empty one, a file by an empty one; what is
/// not there needs no hiding. The masks stand in the order of the denied paths.
pub proof fn lemma_masks(paths: Seq<Seq<char>>, kinds: Seq<PathKind>, path: Seq<char>)
    requires
        paths.len() <= kinds.len(),
    ensures
        mask_of(path, PathKind::Directory) == seq!["--tmpfs"@, path],
        mask_of(path, PathKind::File) == seq!["--ro-bind"@, "/dev/null"@, path],
        mask_of(path, PathKind::Missing).len() == 0,
        paths.len() < kinds.len() ==> mask_options(paths.push(path), kinds) == mask_options(
            paths,
            kinds,
        ) + mask_of(path, kinds[paths.len() as int]),
        mask_options(Seq::<Seq<char>>::empty(), kinds).len() == 0,
{
    assert(paths.push(path).drop_last() =~= paths);
}

/// The environment under the launcher: each variable of the command is set to its value.
pub proof fn lemma_launcher_sets_variables(
    os: HostOs,
    request: RequestModel,
    kinds: Seq<PathKind>,
    env: Seq<(Seq<char>, Seq<char>)>,
    words: Seq<Seq<char>>,
    i: int,
)
    requires
        0 <= i < env.len(),
    ensures
        ({
            let args = launcher_args(os, request, kinds, env, words);
            let at = mount_options(os, request).len() + hiding_options(os, request, kinds).len() + 3
                * i;
            &&& args[at] == "--setenv"@
            &&& args[at + 1] == env[i].0
            &&& args[at + 2] == env[i].1
        }),
{
    lemma_settings(env, i);
    let args = launcher_args(os, request, kinds, env, words);
    let e = env_options(env);
    let start = mount_options(os, request).len() + hiding_options(os, request, kinds).len();
    assert(args[start + 3 * i] == e[3 * i]);
    assert(args[start + 3 * i + 1] == e[3 * i + 1]);
    assert(args[start + 3 * i + 2] == e[3 * i + 2]);
}

/// The command under the launcher: it stands behind a separator at the end, word for word.
pub proof fn lemma_launcher_runs_the_command(
    os: HostOs,
    request: RequestModel,
    kinds: Seq<PathKind>,
    env: Seq<(Seq<char>, Seq<char>)>,
    words: Seq<Seq<char>>,
)
    ensures
        ({
            let args = launcher_args(os, request, kinds, env, words);
            &&& args.len() == mount_options(os, request).len() + hiding_options(
                os,
                request,
                kinds,
            ).len() + 3 * env.len() + 1 + words.len()
            &&& args[args.len() - words.len() - 1] == "--"@
            &&& args.skip(args.len() - words.len()) == words
        }),
{
    if env.len() > 0 {
        lemma_settings(env, 0);
    }
    let args = launcher_args(os, request, kinds, env, words);
    assert(args.skip(args.len() - words.len()) =~= words);
}

/// The words of the command: the program where it was found and the words behind it, or the
/// shell, its flag and the line.
pub proof fn lemma_launched_words(
    plan: PlanModel,
    working_dir: Seq<char>,
    os: HostOs,
    shell: Seq<char>,
    dirs: Option<Seq<Seq<char>>>,
    present: Seq<bool>,
)
    ensures
        ({
            let r = launched_words(plan, working_dir, os, shell, dirs, present);
            &&& plan is Shell && os != HostOs::Windows ==> r is Ok && r->Ok_0 == seq![
                shell,
                "-c"@,
                plan->command,
            ]
            &&& plan is Direct ==> (executable_path(os, plan->argv[0], working_dir, dirs, present)
                matches Ok(path) ==> r is Ok && r->Ok_0 == seq![path] + plan->argv.skip(1))
            &&& plan is Direct ==> (executable_path(os, plan->argv[0], working_dir, dirs, present)
                matches Err(fault) ==> r == Err::<Seq<Seq<char>>, SandboxFault>(fault))
        }),
{
    if plan is Shell && os != HostOs::Windows {
        let r = launched_words(plan, working_dir, os, shell, dirs, present);
        assert(r->Ok_0 =~= seq![shell, "-c"@, plan->command]);
    }
}

// ---------------------------------------------------------------------------
// Conducting a run

/// What is done with a process: one that has ended is gathered, however long it took; one that
/// runs is ended from the moment on at which its time is up, and not before.
pub proof fn lemma_waiting(exited: bool, elapsed: Duration, timeout: Duration, action: WaitAction)
    requires
        call_ensures(wait_step, (exited, elapsed, timeout), action),
    ensures
        exited <==> action == WaitAction::Collect,
        !exited && elapsed@ >= timeout@ ==> action == WaitAction::Terminate,
        !exited && elapsed@ < timeout@ ==> action == WaitAction::Sleep,
{
}

} // verus!
