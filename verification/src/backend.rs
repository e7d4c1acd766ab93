//! Backends: which one runs a command, what it promises, and how a run is conducted.
use crate::command::{written_plan, CommandPlan, PlanModel};
use crate::duration::Duration;
use crate::errors::{SandboxError, SandboxFault};
use crate::hardening::RunMode;
use crate::launch::{
    command_environment, executable_path, resolve_executable_path, rest_of, shell_args, shell_command,
    startable, Host, HostOs, SearchPath,
};
use crate::lists::{append_list, three_texts, two_texts};
use crate::paths::{joined_path, PathKind};
use crate::policy::{pair_texts, place_paths, placed};
use crate::request::{RequestModel, RunRequest};
use crate::text::{concat, lemma_texts_push, texts};
use vstd::prelude::*;

verus! {

broadcast use vstd::seq::group_seq_axioms;

/// The backend that the user asks for.
#[derive(Debug, Clone, Copy, PartialEq, Eq, Structural)]
pub enum BackendPreference {
    Auto,
    Compat,
    Secure,
}

/// The name of a preference.
pub open spec fn preference_name(preference: BackendPreference) -> Seq<char> {
    match preference {
        BackendPreference::Auto => "auto"@,
        BackendPreference::Compat => "compat"@,
        BackendPreference::Secure => "secure"@,
    }
}

impl BackendPreference {
    /// The name of the preference.
    pub fn label(&self) -> (out: &'static str)
        ensures
            out@ == preference_name(*self),
    {
        match self {
            BackendPreference::Auto => "auto",
            BackendPreference::Compat => "compat",
            BackendPreference::Secure => "secure",
        }
    }
}

/// What a backend promises.
#[derive(Debug)]
pub struct BackendCapabilities {
    pub name: &'static str,
    pub secure_enforcement: bool,
    pub notes: Vec<String>,
}

/// The contents of `BackendCapabilities`.
pub struct CapabilityModel {
    pub name: Seq<char>,
    pub secure_enforcement: bool,
    pub notes: Seq<Seq<char>>,
}

impl View for BackendCapabilities {
    type V = CapabilityModel;

    open spec fn view(&self) -> CapabilityModel {
        CapabilityModel {
            name: self.name@,
            secure_enforcement: self.secure_enforcement,
            notes: texts(self.notes@),
        }
    }
}

/// A way to run commands.
pub trait SandboxBackend {
    /// What the backend promises.
    spec fn promise(&self) -> CapabilityModel;

    /// How the backend runs a command.
    spec fn mode(&self, os: HostOs, launcher_present: bool, network: bool) -> RunMode;

    /// The name of the backend.
    fn name(&self) -> (out: &'static str)
        ensures
            out@ == self.promise().name,
    ;

    /// What the backend promises.
    fn capabilities(&self) -> (out: BackendCapabilities)
        ensures
            out@ == self.promise(),
    ;

    /// How the backend runs a command on a machine with or without the launcher; `network`
    /// tells whether the policy lists endpoints.
    fn run_mode(&self, os: HostOs, launcher_present: bool, network: bool) -> (mode: RunMode)
        ensures
            mode == self.mode(os, launcher_present, network),
    ;
}

/// Runs commands as they are.
#[derive(Debug, Default, Clone, Copy)]
pub struct CompatBackend;

/// Runs commands confined by the Linux kernel.
#[derive(Debug, Default, Clone, Copy)]
pub struct LinuxSecureBackend;

/// What the compatibility backend promises.
pub open spec fn compat_promise() -> CapabilityModel {
    CapabilityModel {
        name: "compat-local-exec"@,
        secure_enforcement: false,
        notes: seq![
            "local execution fallback for non-Linux hosts"@,
            "policy model and CLI are production-shaped; kernel enforcement is limited on this backend"@,
        ],
    }
}

/// What the secure backend promises.
pub open spec fn secure_promise() -> CapabilityModel {
    CapabilityModel {
        name: "linux-secure"@,
        secure_enforcement: true,
        notes: seq![
            "namespace isolation is attempted when the kernel allows it"@,
            "Landlock filesystem confinement is applied to the command and its direct runtime dependencies"@,
            "seccomp denies escape-oriented syscalls and supervises outbound allowlists"@,
            "cgroups v2 are applied best-effort when delegation is available"@,
        ],
    }
}

/// How the secure backend runs a command: on Linux by the launcher where there is one and
/// the policy lists no endpoints, supervised where it lists some.
pub open spec fn secure_mode(os: HostOs, launcher_present: bool, network: bool) -> RunMode {
    if os == HostOs::Linux && network {
        RunMode::Supervised
    } else if os == HostOs::Linux && launcher_present {
        RunMode::Launcher
    } else {
        RunMode::Hardened
    }
}

impl SandboxBackend for CompatBackend {
    open spec fn promise(&self) -> CapabilityModel {
        compat_promise()
    }

    open spec fn mode(&self, os: HostOs, launcher_present: bool, network: bool) -> RunMode {
        RunMode::Plain
    }

    fn name(&self) -> (out: &'static str) {
        "compat-local-exec"
    }

    fn capabilities(&self) -> (out: BackendCapabilities) {
        BackendCapabilities {
            name: self.name(),
            secure_enforcement: false,
            notes: two_texts(
                "local execution fallback for non-Linux hosts",
                "policy model and CLI are production-shaped; kernel enforcement is limited on this backend",
            ),
        }
    }

    fn run_mode(&self, os: HostOs, launcher_present: bool, network: bool) -> (mode: RunMode) {
        RunMode::Plain
    }
}

impl SandboxBackend for LinuxSecureBackend {
    open spec fn promise(&self) -> CapabilityModel {
        secure_promise()
    }

    open spec fn mode(&self, os: HostOs, launcher_present: bool, network: bool) -> RunMode {
        secure_mode(os, launcher_present, network)
    }

    fn name(&self) -> (out: &'static str) {
        "linux-secure"
    }

    fn capabilities(&self) -> (out: BackendCapabilities) {
        let notes: Vec<String> = vec![
            "namespace isolation is attempted when the kernel allows it".to_string(),
            "Landlock filesystem confinement is applied to the command and its direct runtime dependencies".to_string(),
            "seccomp denies escape-oriented syscalls and supervises outbound allowlists".to_string(),
            "cgroups v2 are applied best-effort when delegation is available".to_string(),
        ];
        assert(texts(notes@) =~= secure_promise().notes);
        BackendCapabilities { name: self.name(), secure_enforcement: true, notes }
    }

    fn run_mode(&self, os: HostOs, launcher_present: bool, network: bool) -> (mode: RunMode) {
        if let HostOs::Linux = os {
            if launcher_present && !network {
                return RunMode::Launcher;
            }
            if network {
                return RunMode::Supervised;
            }
        }
        RunMode::Hardened
    }
}

/// One of the backends.
#[derive(Debug, Clone, Copy)]
pub enum Backend {
    Compat(CompatBackend),
    LinuxSecure(LinuxSecureBackend),
}

impl SandboxBackend for Backend {
    open spec fn promise(&self) -> CapabilityModel {
        match *self {
            Backend::Compat(_) => compat_promise(),
            Backend::LinuxSecure(_) => secure_promise(),
        }
    }

    open spec fn mode(&self, os: HostOs, launcher_present: bool, network: bool) -> RunMode {
        match *self {
            Backend::Compat(_) => RunMode::Plain,
            Backend::LinuxSecure(_) => secure_mode(os, launcher_present, network),
        }
    }

    fn name(&self) -> (out: &'static str) {
        match self {
            Backend::Compat(backend) => backend.name(),
            Backend::LinuxSecure(backend) => backend.name(),
        }
    }

    fn capabilities(&self) -> (out: BackendCapabilities) {
        match self {
            Backend::Compat(backend) => backend.capabilities(),
            Backend::LinuxSecure(backend) => backend.capabilities(),
        }
    }

    fn run_mode(&self, os: HostOs, launcher_present: bool, network: bool) -> (mode: RunMode) {
        match self {
            Backend::Compat(backend) => backend.run_mode(os, launcher_present, network),
            Backend::LinuxSecure(backend) => backend.run_mode(os, launcher_present, network),
        }
    }
}

/// The backend of a preference: the strongest one of the machine unless the user asks for
/// the compatibility backend; the secure one is to be had on Linux only.
pub open spec fn selected(preference: BackendPreference, os: HostOs) -> Result<
    Backend,
    SandboxFault,
> {
    match preference {
        BackendPreference::Compat => Ok(Backend::Compat(CompatBackend)),
        BackendPreference::Auto => if os == HostOs::Linux {
            Ok(Backend::LinuxSecure(LinuxSecureBackend))
        } else {
            Ok(Backend::Compat(CompatBackend))
        },
        BackendPreference::Secure => if os == HostOs::Linux {
            Ok(Backend::LinuxSecure(LinuxSecureBackend))
        } else {
            Err(SandboxFault::BackendUnavailable("secure backend is only available on Linux"@))
        },
    }
}

/// The strongest backend of the machine.
pub fn default_backend(os: HostOs) -> (backend: Backend)
    ensures
        selected(BackendPreference::Auto, os) == Ok::<Backend, SandboxFault>(backend),
{
    match os {
        HostOs::Linux => Backend::LinuxSecure(LinuxSecureBackend),
        _ => Backend::Compat(CompatBackend),
    }
}

/// The backend of a preference.
pub fn select_backend(preference: BackendPreference, os: HostOs) -> (r: Result<
    Backend,
    SandboxError,
>)
    ensures
        match selected(preference, os) {
            Ok(backend) => r == Ok::<Backend, SandboxError>(backend),
            Err(fault) => r matches Err(e) && e@ == fault,
        },
{
    match preference {
        BackendPreference::Auto => Ok(default_backend(os)),
        BackendPreference::Compat => Ok(Backend::Compat(CompatBackend)),
        BackendPreference::Secure => match os {
            HostOs::Linux => Ok(Backend::LinuxSecure(LinuxSecureBackend)),
            _ => Err(
                SandboxError::BackendUnavailable(
                    "secure backend is only available on Linux".to_string(),
                ),
            ),
        },
    }
}

/// No hidden fallback: who asks for the secure backend gets one that enforces the policy
/// or an error, and a backend that enforces never runs a command as it is.
pub proof fn lemma_secure_means_enforced(
    os: HostOs,
    backend: Backend,
    launcher_present: bool,
    network: bool,
)
    requires
        selected(BackendPreference::Secure, os) == Ok::<Backend, SandboxFault>(backend),
    ensures
        backend.promise().secure_enforcement,
        !(backend.mode(os, launcher_present, network) is Plain),
{
}

// ---------------------------------------------------------------------------
// The launcher

/// The options of the launcher that do not depend on the request: namespaces of its own,
/// an empty environment, and the machine's files to read.
pub open spec fn launcher_options() -> Seq<Seq<char>> {
    seq![
        "--die-with-parent"@,
        "--new-session"@,
        "--unshare-user"@,
        "--unshare-pid"@,
        "--unshare-ipc"@,
        "--unshare-uts"@,
        "--unshare-cgroup"@,
        "--unshare-net"@,
        "--clearenv"@,
        "--ro-bind"@,
        "/"@,
        "/"@,
        "--dev"@,
        "/dev"@,
        "--proc"@,
        "/proc"@,
        "--tmpfs"@,
        "/tmp"@,
        "--dir"@,
        "/var/tmp"@,
    ]
}

/// The options that make paths writable, each under its own name.
pub open spec fn bind_options(paths: Seq<Seq<char>>) -> Seq<Seq<char>>
    decreases paths.len(),
{
    if paths.len() == 0 {
        Seq::<Seq<char>>::empty()
    } else {
        bind_options(paths.drop_last()) + seq!["--bind"@, paths.last(), paths.last()]
    }
}

/// The options that set variables.
pub open spec fn env_options(vars: Seq<(Seq<char>, Seq<char>)>) -> Seq<Seq<char>>
    decreases vars.len(),
{
    if vars.len() == 0 {
        Seq::<Seq<char>>::empty()
    } else {
        env_options(vars.drop_last()) + seq!["--setenv"@, vars.last().0, vars.last().1]
    }
}

/// The options that hide a path: an empty directory over a directory, an empty file over
/// anything else.
pub open spec fn mask_of(path: Seq<char>, kind: PathKind) -> Seq<Seq<char>> {
    match kind {
        PathKind::Directory => seq!["--tmpfs"@, path],
        PathKind::File => seq!["--ro-bind"@, "/dev/null"@, path],
        PathKind::Missing => Seq::<Seq<char>>::empty(),
    }
}

/// The options that hide paths.
pub open spec fn mask_options(paths: Seq<Seq<char>>, kinds: Seq<PathKind>) -> Seq<Seq<char>>
    decreases paths.len(),
{
    if paths.len() == 0 {
        Seq::<Seq<char>>::empty()
    } else {
        mask_options(paths.drop_last(), kinds) + mask_of(paths.last(), kinds[paths.len() - 1])
    }
}

/// The words of the command behind the options.
pub open spec fn launched_words(
    plan: PlanModel,
    working_dir: Seq<char>,
    os: HostOs,
    shell: Seq<char>,
    dirs: Option<Seq<Seq<char>>>,
    present: Seq<bool>,
) -> Result<Seq<Seq<char>>, SandboxFault> {
    match plan {
        PlanModel::Direct { argv } => match executable_path(os, argv[0], working_dir, dirs, present) {
            Ok(path) => Ok(seq![path] + argv.skip(1)),
            Err(fault) => Err(fault),
        },
        PlanModel::Shell { command } => Ok(seq![shell] + shell_args(os, command)),
    }
}

/// The options by which the launcher shows files: its own, and the writable paths.
pub open spec fn mount_options(os: HostOs, request: RequestModel) -> Seq<Seq<char>> {
    launcher_options() + seq!["--chdir"@, request.working_dir] + bind_options(
        placed(os, request.working_dir, request.policy.filesystem_writable),
    )
}

/// The options by which the launcher hides the denied paths.
pub open spec fn hiding_options(os: HostOs, request: RequestModel, kinds: Seq<PathKind>) -> Seq<
    Seq<char>,
> {
    mask_options(placed(os, request.working_dir, request.policy.filesystem_deny), kinds)
}

/// The arguments of the launcher: what it shows, what it hides, the environment, and behind
/// a separator the command.
pub open spec fn launcher_args(
    os: HostOs,
    request: RequestModel,
    kinds: Seq<PathKind>,
    env: Seq<(Seq<char>, Seq<char>)>,
    words: Seq<Seq<char>>,
) -> Seq<Seq<char>> {
    mount_options(os, request) + hiding_options(os, request, kinds) + env_options(env) + seq![
        "--"@,
    ] + words
}

proof fn lemma_mask_position(paths: Seq<Seq<char>>, kinds: Seq<PathKind>, i: int) -> (at: int)
    requires
        0 <= i < paths.len(),
    ensures
        0 <= at,
        at + mask_of(paths[i], kinds[i]).len() <= mask_options(paths, kinds).len(),
        mask_options(paths, kinds).subrange(at, at + mask_of(paths[i], kinds[i]).len())
            == mask_of(paths[i], kinds[i]),
    decreases paths.len(),
{
    let rest = paths.drop_last();
    let before = mask_options(rest, kinds);
    let all = mask_options(paths, kinds);
    let mask = mask_of(paths[i], kinds[i]);
    if i < rest.len() {
        let at = lemma_mask_position(rest, kinds, i);
        assert(rest[i] == paths[i]);
        assert(all.subrange(at, at + mask.len()) =~= before.subrange(at, at + mask.len()));
        at
    } else {
        let at = before.len() as int;
        assert(all.subrange(at, at + mask.len()) =~= mask);
        at
    }
}

/// A denied path is never visible to a command of the launcher: a denied path that is there
/// is hidden, and that behind every option by which the launcher shows files. Behind the
/// options that hide come only those that set variables, and the command.
pub proof fn lemma_denied_paths_are_masked(
    os: HostOs,
    request: RequestModel,
    kinds: Seq<PathKind>,
    env: Seq<(Seq<char>, Seq<char>)>,
    words: Seq<Seq<char>>,
    i: int,
)
    requires
        0 <= i < request.policy.filesystem_deny.len(),
        kinds[i] != PathKind::Missing,
    ensures
        ({
            let args = launcher_args(os, request, kinds, env, words);
            let path = joined_path(os, request.working_dir, request.policy.filesystem_deny[i]);
            let shown = mount_options(os, request).len() as int;
            let hidden = shown + hiding_options(os, request, kinds).len();
            &&& args.take(shown) == mount_options(os, request)
            &&& args.skip(hidden) == env_options(env) + seq!["--"@] + words
            &&& exists|at: int, end: int|
                shown <= at < end <= hidden && #[trigger] args.subrange(at, end) == mask_of(
                    path,
                    kinds[i],
                )
        }),
{
    let all = placed(os, request.working_dir, request.policy.filesystem_deny);
    let masks = mask_options(all, kinds);
    let args = launcher_args(os, request, kinds, env, words);
    let shown = mount_options(os, request).len() as int;
    let hidden = shown + masks.len();
    let mask = mask_of(all[i], kinds[i]);
    let at = lemma_mask_position(all, kinds, i);
    assert(args.take(shown) =~= mount_options(os, request));
    assert(args.skip(hidden) =~= env_options(env) + seq!["--"@] + words);
    assert(args.subrange(shown + at, shown + at + mask.len()) =~= masks.subrange(
        at,
        at + mask.len(),
    ));
}

fn push_option3(args: Vec<String>, a: &str, b: &str, c: &str) -> (out: Vec<String>)
    ensures
        texts(out@) == texts(args@) + seq![a@, b@, c@],
{
    append_list(args, &three_texts(a, b, c))
}

/// The options of the launcher that do not depend on the request.
pub fn fixed_options() -> (out: Vec<String>)
    ensures
        texts(out@) == launcher_options(),
{
    let out: Vec<String> = vec![
        "--die-with-parent".to_string(),
        "--new-session".to_string(),
        "--unshare-user".to_string(),
        "--unshare-pid".to_string(),
        "--unshare-ipc".to_string(),
        "--unshare-uts".to_string(),
        "--unshare-cgroup".to_string(),
        "--unshare-net".to_string(),
        "--clearenv".to_string(),
        "--ro-bind".to_string(),
        "/".to_string(),
        "/".to_string(),
        "--dev".to_string(),
        "/dev".to_string(),
        "--proc".to_string(),
        "/proc".to_string(),
        "--tmpfs".to_string(),
        "/tmp".to_string(),
        "--dir".to_string(),
        "/var/tmp".to_string(),
    ];
    assert(texts(out@) =~= launcher_options());
    out
}

/// `args` followed by the options that make paths writable.
pub fn push_binds(args: Vec<String>, paths: &Vec<String>) -> (out: Vec<String>)
    ensures
        texts(out@) == texts(args@) + bind_options(texts(paths@)),
{
    let ghost start = texts(args@);
    let ghost all = texts(paths@);
    let mut out = args;
    assert(texts(out@) =~= start + bind_options(all.take(0)));
    for i in 0..paths.len()
        invariant
            all == texts(paths@),
            texts(out@) == start + bind_options(all.take(i as int)),
    {
        assert(all.take(i + 1).drop_last() =~= all.take(i as int));
        out = push_option3(out, "--bind", paths[i].as_str(), paths[i].as_str());
        assert(texts(out@) =~= start + bind_options(all.take(i + 1)));
    }
    assert(all.take(all.len() as int) =~= all);
    out
}

/// `args` followed by the options that set variables.
pub fn push_env(args: Vec<String>, vars: &Vec<(String, String)>) -> (out: Vec<String>)
    ensures
        texts(out@) == texts(args@) + env_options(pair_texts(vars@)),
{
    let ghost start = texts(args@);
    let ghost all = pair_texts(vars@);
    let mut out = args;
    assert(texts(out@) =~= start + env_options(all.take(0)));
    for i in 0..vars.len()
        invariant
            all == pair_texts(vars@),
            texts(out@) == start + env_options(all.take(i as int)),
    {
        assert(all.take(i + 1).drop_last() =~= all.take(i as int));
        assert(all.take(i + 1).last() == all[i as int]);
        out = push_option3(out, "--setenv", vars[i].0.as_str(), vars[i].1.as_str());
        assert(texts(out@) =~= start + env_options(all.take(i + 1)));
    }
    assert(all.take(all.len() as int) =~= all);
    out
}

/// `args` followed by the options that hide paths.
pub fn push_masks(args: Vec<String>, paths: &Vec<String>, kinds: &Vec<PathKind>) -> (out: Vec<
    String,
>)
    requires
        paths.len() == kinds.len(),
    ensures
        texts(out@) == texts(args@) + mask_options(texts(paths@), kinds@),
{
    let ghost start = texts(args@);
    let ghost all = texts(paths@);
    let mut out = args;
    assert(texts(out@) =~= start + mask_options(all.take(0), kinds@));
    for i in 0..paths.len()
        invariant
            paths.len() == kinds.len(),
            all == texts(paths@),
            texts(out@) == start + mask_options(all.take(i as int), kinds@),
    {
        assert(all.take(i + 1).drop_last() =~= all.take(i as int));
        assert(all.take(i + 1).last() == paths@[i as int]@);
        out = match kinds[i] {
            PathKind::Directory => append_list(out, &two_texts("--tmpfs", paths[i].as_str())),
            PathKind::File => push_option3(out, "--ro-bind", "/dev/null", paths[i].as_str()),
            PathKind::Missing => out,
        };
        assert(texts(out@) =~= start + mask_options(all.take(i + 1), kinds@));
    }
    assert(all.take(all.len() as int) =~= all);
    out
}

fn prepend(first: String, rest: &Vec<String>) -> (out: Vec<String>)
    ensures
        texts(out@) == seq![first@] + texts(rest@),
{
    let one: Vec<String> = vec![first];
    assert(texts(one@) =~= seq![first@]);
    append_list(one, rest)
}

/// The arguments of the launcher for a request. The search path is about the program of
/// the request, and `kinds` tells what the denied paths are.
pub fn build_bubblewrap_command(
    request: &RunRequest,
    host: &Host,
    search: &SearchPath,
    kinds: &Vec<PathKind>,
) -> (r: Result<Vec<String>, SandboxError>)
    requires
        startable(request@.command),
        search.wf(),
        host.wf(),
        kinds.len() == request.policy.filesystem_deny.len(),
    ensures
        match launched_words(
            request@.command,
            request.working_dir@,
            host.os,
            host.shell(),
            search.dirs(),
            search.present@,
        ) {
            Ok(words) => r matches Ok(args) && texts(args@) == launcher_args(
                host.os,
                request@,
                kinds@,
                host.env_under(request.policy@),
                words,
            ),
            Err(fault) => r matches Err(e) && e@ == fault,
        },
{
    let words = match &request.command {
        CommandPlan::Direct { argv } => {
            assert(texts(argv@).len() == argv.len());
            assert(texts(argv@)[0] == argv@[0]@);
            match resolve_executable_path(
                host.os,
                argv[0].as_str(),
                request.working_dir.as_str(),
                search,
            ) {
                Ok(path) => prepend(path, &rest_of(argv)),
                Err(e) => return Err(e),
            }
        },
        CommandPlan::Shell { command } => {
            let (shell, args) = shell_command(host, command.as_str());
            prepend(shell, &args)
        },
    };
    let args = append_list(fixed_options(), &two_texts("--chdir", request.working_dir.as_str()));
    let writable = place_paths(
        host.os,
        request.working_dir.as_str(),
        &request.policy.filesystem_writable,
    );
    let args = push_binds(args, &writable);
    let denied = place_paths(
        host.os,
        request.working_dir.as_str(),
        &request.policy.filesystem_deny,
    );
    assert(texts(denied@).len() == denied.len());
    let args = push_masks(args, &denied, kinds);
    let args = push_env(args, &command_environment(&request.policy, host));
    let mut args = args;
    let separator = "--".to_string();
    proof {
        lemma_texts_push(args@, separator);
    }
    let ghost before = texts(args@);
    args.push(separator);
    assert(before.push("--"@) =~= before + seq!["--"@]);
    Ok(append_list(args, &words))
}

/// What is told where the launcher is gone.
pub fn launcher_missing() -> (e: SandboxError)
    ensures
        e@ == SandboxFault::LaunchFailed("bubblewrap is not installed or not on PATH"@),
{
    SandboxError::LaunchFailed("bubblewrap is not installed or not on PATH".to_string())
}

// ---------------------------------------------------------------------------
// Conducting a run

/// What is told of a process that a backend cannot start.
pub fn launch_error(backend_name: &str, reason: &str) -> (e: SandboxError)
    ensures
        e@ == SandboxFault::LaunchFailed(backend_name@ + ": "@ + reason@),
{
    let mut text = concat(backend_name, ": ");
    text.append(reason);
    SandboxError::LaunchFailed(text)
}

/// Whether a command that could not be started is tried again in the shell: on Windows,
/// where it is not hardened and was not found.
pub fn retries_in_shell(harden: bool, os: HostOs, not_found: bool) -> (r: bool)
    ensures
        r == (!harden && os == HostOs::Windows && not_found),
{
    match os {
        HostOs::Windows => !harden && not_found,
        _ => false,
    }
}

/// The plan that runs in the shell what `plan` runs.
pub fn fallback_plan(plan: &CommandPlan) -> (out: CommandPlan)
    ensures
        out@ == (PlanModel::Shell { command: written_plan(plan@) }),
{
    CommandPlan::Shell { command: plan.display() }
}

/// What is done next with a process that was started.
#[derive(Debug, Clone, Copy, PartialEq, Eq, Structural)]
pub enum WaitAction {
    /// It has ended: gather its output.
    Collect,
    /// Its time is up: end it.
    Terminate,
    /// Look again after a while.
    Sleep,
}

/// The pause between two looks at a process, in milliseconds.
pub const POLL_MILLIS: u64 = 10;

/// What is done with a process `elapsed` after its start. One that has ended is never
/// reported as late.
pub fn wait_step(exited: bool, elapsed: Duration, timeout: Duration) -> (action: WaitAction)
    ensures
        action == if exited {
            WaitAction::Collect
        } else if elapsed@ >= timeout@ {
            WaitAction::Terminate
        } else {
            WaitAction::Sleep
        },
{
    if exited {
        WaitAction::Collect
    } else if elapsed.at_least(&timeout) {
        WaitAction::Terminate
    } else {
        WaitAction::Sleep
    }
}

/// What reading an output of a process came to.
#[derive(Debug, Clone)]
pub enum PipeRead {
    /// There was no pipe to read.
    NoPipe,
    /// The reader did not come to an end.
    ReaderLost,
    /// Reading failed; the text tells why.
    Failed(String),
    /// What was read.
    Bytes(Vec<u8>),
}

/// The bytes of an output.
pub fn join_pipe(read: PipeRead) -> (r: Result<Vec<u8>, SandboxError>)
    ensures
        match read {
            PipeRead::NoPipe => r matches Ok(bytes) && bytes@ == Seq::<u8>::empty(),
            PipeRead::ReaderLost => r matches Err(e) && e@ == SandboxFault::LaunchFailed(
                "output reader thread panicked"@,
            ),
            PipeRead::Failed(reason) => r matches Err(e) && e@ == SandboxFault::LaunchFailed(
                reason@,
            ),
            PipeRead::Bytes(bytes) => r == Ok::<Vec<u8>, SandboxError>(bytes),
        },
{
    match read {
        PipeRead::NoPipe => Ok(Vec::new()),
        PipeRead::ReaderLost => Err(
            SandboxError::LaunchFailed("output reader thread panicked".to_string()),
        ),
        PipeRead::Failed(reason) => Err(SandboxError::LaunchFailed(reason)),
        PipeRead::Bytes(bytes) => Ok(bytes),
    }
}

/// What receiving the listener of a supervised process came to.
#[derive(Debug, Clone)]
pub enum ListenerTransfer {
    /// Receiving failed; the text tells why.
    Failed(String),
    /// A message without a descriptor.
    Empty,
    /// The descriptor.
    Descriptor(i32),
}

/// The descriptor of the listener.
pub fn receive_listener_fd(transfer: ListenerTransfer) -> (r: Result<i32, SandboxError>)
    ensures
        match transfer {
            ListenerTransfer::Failed(reason) => r matches Err(e) && e@
                == SandboxFault::LaunchFailed(
                "failed to receive seccomp listener fd: "@ + reason@,
            ),
            ListenerTransfer::Empty => r matches Err(e) && e@ == SandboxFault::LaunchFailed(
                "seccomp listener fd transfer did not include SCM_RIGHTS"@,
            ),
            ListenerTransfer::Descriptor(fd) => r == Ok::<i32, SandboxError>(fd),
        },
{
    match transfer {
        ListenerTransfer::Failed(reason) => Err(
            SandboxError::LaunchFailed(
                concat("failed to receive seccomp listener fd: ", reason.as_str()),
            ),
        ),
        ListenerTransfer::Empty => Err(
            SandboxError::LaunchFailed(
                "seccomp listener fd transfer did not include SCM_RIGHTS".to_string(),
            ),
        ),
        ListenerTransfer::Descriptor(fd) => Ok(fd),
    }
}

} // verus!
