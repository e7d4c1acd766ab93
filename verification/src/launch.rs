//! Launching: which program is started, with which arguments and which environment.
use crate::command::{CommandPlan, PlanModel};
use crate::errors::{SandboxError, SandboxFault};
use crate::glob::{any_pattern_matches, matches_glob_any};
use crate::lists::two_texts;
use crate::paths::{
    has_one_part, is_absolute, is_absolute_path, join_path, joined_path, part_count,
};
use crate::policy::{
    infra_env_keys, pair_texts, passed_env, passes_env, safe_infra_env_keys, PolicyModel,
    ResolvedPolicy,
};
use crate::request::RunRequest;
use crate::text::{concat, opt_text, opt_texts, texts};
use vstd::prelude::*;

verus! {

broadcast use vstd::seq::group_seq_axioms;

/// The operating system of this machine, as far as it matters.
#[derive(Debug, Clone, Copy, PartialEq, Eq, Structural)]
pub enum HostOs {
    Linux,
    Windows,
    Other,
}

// ---------------------------------------------------------------------------
// Finding programs

/// The search path for programs. The flags tell of the program that is looked for in
/// which of the directories it stands.
#[derive(Debug, Clone)]
pub struct SearchPath {
    /// The directories; none where the machine has no search path.
    pub entries: Option<Vec<String>>,
    pub present: Vec<bool>,
}

impl SearchPath {
    /// There is a flag for every directory.
    pub open spec fn wf(&self) -> bool {
        self.entries matches Some(dirs) ==> dirs.len() == self.present.len()
    }

    /// The directories.
    pub open spec fn dirs(&self) -> Option<Seq<Seq<char>>> {
        opt_texts(self.entries)
    }
}

/// A program name that is looked for in the search path: not absolute, and of at most
/// one part.
pub open spec fn is_searched(os: HostOs, executable: Seq<char>) -> bool {
    !is_absolute_path(os, executable) && part_count(os, executable) <= 1
}

/// The first of the directories from `i` on that has the program.
pub open spec fn first_present(present: Seq<bool>, i: int) -> Option<int>
    decreases present.len() - i,
{
    if i < 0 || i >= present.len() {
        None
    } else if present[i] {
        Some(i)
    } else {
        first_present(present, i + 1)
    }
}

/// The path of a program. A name with a directory in it is seen from the working
/// directory; a bare name is looked for in the search path.
pub open spec fn executable_path(
    os: HostOs,
    executable: Seq<char>,
    working_dir: Seq<char>,
    dirs: Option<Seq<Seq<char>>>,
    present: Seq<bool>,
) -> Result<Seq<char>, SandboxFault> {
    if !is_searched(os, executable) {
        Ok(joined_path(os, working_dir, executable))
    } else {
        match dirs {
            None => Err(
                SandboxFault::LaunchFailed(
                    "unable to resolve executable `"@ + executable + "` without PATH"@,
                ),
            ),
            Some(dirs) => match first_present(present, 0) {
                Some(i) => Ok(joined_path(os, dirs[i], executable)),
                None => Err(
                    SandboxFault::LaunchFailed(
                        "executable `"@ + executable + "` not found in PATH"@,
                    ),
                ),
            },
        }
    }
}

/// Whether a program is looked for in the search path.
pub fn needs_search(os: HostOs, executable: &str) -> (r: bool)
    ensures
        r == is_searched(os, executable@),
{
    if is_absolute(os, executable) {
        return false;
    }
    has_one_part(os, executable)
}

/// Where the program would stand in each of the directories.
pub fn search_candidates(os: HostOs, executable: &str, dirs: &Vec<String>) -> (out: Vec<String>)
    ensures
        texts(out@) == texts(dirs@).map_values(|dir: Seq<char>| joined_path(os, dir, executable@)),
{
    let mut out: Vec<String> = Vec::new();
    for i in 0..dirs.len()
        invariant
            out.len() == i,
            forall|j: int| 0 <= j < i ==> out@[j]@ == joined_path(os, #[trigger] dirs@[j]@, executable@),
    {
        out.push(join_path(os, dirs[i].as_str(), executable));
    }
    assert(texts(out@) =~= texts(dirs@).map_values(|dir: Seq<char>| joined_path(os, dir, executable@)));
    out
}

/// The first of the directories that has what is looked for.
pub fn find_in_path(os: HostOs, name: &str, search: &SearchPath) -> (out: Option<String>)
    requires
        search.wf(),
    ensures
        match (search.dirs(), first_present(search.present@, 0)) {
            (Some(dirs), Some(i)) => out matches Some(path) && path@ == joined_path(os, dirs[i], name@),
            _ => out is None,
        },
{
    let dirs = match &search.entries {
        Some(dirs) => dirs,
        None => return None,
    };
    for i in 0..dirs.len()
        invariant
            search.wf(),
            search.entries == Some(*dirs),
            first_present(search.present@, 0) == first_present(search.present@, i as int),
    {
        if search.present[i] {
            assert(texts(dirs@)[i as int] == dirs@[i as int]@);
            return Some(join_path(os, dirs[i].as_str(), name));
        }
    }
    None
}

/// The path of a program.
pub fn resolve_executable_path(os: HostOs, executable: &str, working_dir: &str, search: &SearchPath) -> (r:
    Result<String, SandboxError>)
    requires
        search.wf(),
    ensures
        match executable_path(os, executable@, working_dir@, search.dirs(), search.present@) {
            Ok(path) => r matches Ok(text) && text@ == path,
            Err(fault) => r matches Err(e) && e@ == fault,
        },
{
    if !needs_search(os, executable) {
        return Ok(join_path(os, working_dir, executable));
    }
    if search.entries.is_none() {
        let mut text = concat("unable to resolve executable `", executable);
        text.append("` without PATH");
        return Err(SandboxError::LaunchFailed(text));
    }
    match find_in_path(os, executable, search) {
        Some(path) => Ok(path),
        None => {
            let mut text = concat("executable `", executable);
            text.append("` not found in PATH");
            Err(SandboxError::LaunchFailed(text))
        },
    }
}

// ---------------------------------------------------------------------------
// The environment of a command

/// The machine that a command is built for.
#[derive(Debug, Clone)]
pub struct Host {
    pub os: HostOs,
    /// The command processor of Windows, where the environment names one.
    pub comspec: Option<String>,
    /// The values of the variables that a command needs to find its way around.
    pub infra_vars: Vec<Option<String>>,
    /// The environment of this process.
    pub vars: Vec<(String, String)>,
}

impl Host {
    /// There is a value, or none, for every variable that a command needs.
    pub open spec fn wf(&self) -> bool {
        self.infra_vars.len() == infra_env_keys().len()
    }

    /// The environment of a command on this machine under a policy.
    pub open spec fn env_under(&self, policy: PolicyModel) -> Seq<(Seq<char>, Seq<char>)> {
        command_env(policy, opt_list(self.infra_vars@), pair_texts(self.vars@))
    }

    /// The shell of this machine.
    pub open spec fn shell(&self) -> Seq<char> {
        shell_program(self.os, opt_text(self.comspec))
    }
}

/// The contents of a list of optional strings.
pub open spec fn opt_list(values: Seq<Option<String>>) -> Seq<Option<Seq<char>>> {
    Seq::new(values.len(), |i: int| opt_text(values[i]))
}

/// Of the variables `names`, those that have a value, with their values.
pub open spec fn set_variables(names: Seq<Seq<char>>, values: Seq<Option<Seq<char>>>) -> Seq<
    (Seq<char>, Seq<char>),
>
    decreases names.len(),
{
    if names.len() == 0 {
        Seq::<(Seq<char>, Seq<char>)>::empty()
    } else {
        let before = set_variables(names.drop_last(), values);
        match values[names.len() - 1] {
            Some(value) => before.push((names.last(), value)),
            None => before,
        }
    }
}

/// Of the variables `vars`, those that no deny pattern of the policy matches.
pub open spec fn undenied(policy: PolicyModel, vars: Seq<(Seq<char>, Seq<char>)>) -> Seq<
    (Seq<char>, Seq<char>),
> {
    vars.filter(|var: (Seq<char>, Seq<char>)| !any_pattern_matches(policy.env_deny, var.0))
}

/// The environment of a command, in the order in which it is set: the variables that a
/// command needs to find its way around, unless they are denied, then those that the policy
/// lets through.
pub open spec fn command_env(
    policy: PolicyModel,
    infra: Seq<Option<Seq<char>>>,
    vars: Seq<(Seq<char>, Seq<char>)>,
) -> Seq<(Seq<char>, Seq<char>)> {
    undenied(policy, set_variables(infra_env_keys(), infra)) + passed_env(policy, vars)
}

proof fn lemma_set_variable_names(
    names: Seq<Seq<char>>,
    values: Seq<Option<Seq<char>>>,
    i: int,
)
    requires
        0 <= i < set_variables(names, values).len(),
    ensures
        names.contains(set_variables(names, values)[i].0),
    decreases names.len(),
{
    let rest = names.drop_last();
    let before = set_variables(rest, values);
    if i < before.len() {
        lemma_set_variable_names(rest, values, i);
        let j = choose|j: int| 0 <= j < rest.len() && rest[j] == before[i].0;
        assert(names[j] == before[i].0);
    } else {
        assert(names[names.len() - 1] == names.last());
    }
}

/// What is denied is stripped, and nothing gets in unasked: no variable of a command matches
/// a deny pattern, and each is one that the command needs to find its way around, or one that
/// a passthrough pattern matches.
pub proof fn lemma_environment_is_explicit(
    policy: PolicyModel,
    infra: Seq<Option<Seq<char>>>,
    vars: Seq<(Seq<char>, Seq<char>)>,
)
    ensures
        forall|i: int|
            0 <= i < command_env(policy, infra, vars).len() ==> !any_pattern_matches(
                policy.env_deny,
                (#[trigger] command_env(policy, infra, vars)[i]).0,
            ),
        forall|i: int|
            0 <= i < command_env(policy, infra, vars).len() ==> {
                let name = (#[trigger] command_env(policy, infra, vars)[i]).0;
                infra_env_keys().contains(name) || any_pattern_matches(policy.env_passthrough, name)
            },
{
    let env = command_env(policy, infra, vars);
    let needed = set_variables(infra_env_keys(), infra);
    let first = undenied(policy, needed);
    let q = |var: (Seq<char>, Seq<char>)| !any_pattern_matches(policy.env_deny, var.0);
    let p = |var: (Seq<char>, Seq<char>)| passes_env(policy, var.0);
    assert forall|i: int| 0 <= i < env.len() implies !any_pattern_matches(
        policy.env_deny,
        (#[trigger] env[i]).0,
    ) && (infra_env_keys().contains(env[i].0) || any_pattern_matches(
        policy.env_passthrough,
        env[i].0,
    )) by {
        if i < first.len() {
            needed.lemma_filter_pred(q, i);
            assert(q(needed.filter(q)[i]));
            needed.lemma_filter_contains_rev(q, first[i]);
            let j = choose|j: int| 0 <= j < needed.len() && needed[j] == first[i];
            lemma_set_variable_names(infra_env_keys(), infra, j);
        } else {
            vars.lemma_filter_pred(p, i - first.len());
            assert(p(vars.filter(p)[i - first.len()]));
        }
    }
}

/// What the policy lets through survives: a variable that a passthrough pattern matches and
/// no deny pattern is in the environment of the command, with its value.
pub proof fn lemma_passthrough_survives(
    policy: PolicyModel,
    infra: Seq<Option<Seq<char>>>,
    vars: Seq<(Seq<char>, Seq<char>)>,
    i: int,
)
    requires
        0 <= i < vars.len(),
        passes_env(policy, vars[i].0),
    ensures
        command_env(policy, infra, vars).contains(vars[i]),
{
    let p = |var: (Seq<char>, Seq<char>)| passes_env(policy, var.0);
    let first = undenied(policy, set_variables(infra_env_keys(), infra));
    let passed = vars.filter(p);
    vars.lemma_filter_contains(p, i);
    let j = choose|j: int| 0 <= j < passed.len() && passed[j] == vars[i];
    assert(command_env(policy, infra, vars)[first.len() + j] == vars[i]);
}

/// The variables that a command needs to find its way around, as far as they are set.
/// The values are those of `safe_infra_env_keys`.
pub fn bootstrap_env_pairs(values: &Vec<Option<String>>) -> (out: Vec<(String, String)>)
    requires
        values.len() == infra_env_keys().len(),
    ensures
        pair_texts(out@) == set_variables(infra_env_keys(), opt_list(values@)),
{
    let names = safe_infra_env_keys();
    let mut out: Vec<(String, String)> = Vec::new();
    let ghost all = texts(names@);
    assert(pair_texts(out@) =~= set_variables(all.take(0), opt_list(values@)));
    for i in 0..names.len()
        invariant
            all == texts(names@),
            all == infra_env_keys(),
            values.len() == all.len(),
            pair_texts(out@) == set_variables(all.take(i as int), opt_list(values@)),
    {
        assert(all.take(i + 1).drop_last() =~= all.take(i as int));
        assert(all.take(i + 1).last() == names@[i as int]@);
        assert(opt_list(values@)[i as int] == opt_text(values@[i as int]));
        if let Some(value) = &values[i] {
            let pair = (names[i].clone(), value.clone());
            let ghost before = out@;
            out.push(pair);
            assert(pair_texts(out@) =~= pair_texts(before).push((pair.0@, pair.1@)));
        }
    }
    assert(all.take(all.len() as int) =~= all);
    out
}

fn strip_denied(vars: &Vec<(String, String)>, policy: &ResolvedPolicy) -> (out: Vec<
    (String, String),
>)
    ensures
        pair_texts(out@) == undenied(policy@, pair_texts(vars@)),
{
    let mut out: Vec<(String, String)> = Vec::new();
    let ghost all = pair_texts(vars@);
    let ghost keep = |var: (Seq<char>, Seq<char>)| !any_pattern_matches(policy@.env_deny, var.0);
    assert(all.take(0).filter(keep) =~= Seq::<(Seq<char>, Seq<char>)>::empty()) by {
        reveal(Seq::filter);
    }
    assert(pair_texts(out@) =~= all.take(0).filter(keep));
    for i in 0..vars.len()
        invariant
            all == pair_texts(vars@),
            keep == (|var: (Seq<char>, Seq<char>)|
                !any_pattern_matches(policy@.env_deny, var.0)),
            pair_texts(out@) == all.take(i as int).filter(keep),
    {
        proof {
            reveal(Seq::filter);
        }
        assert(all.take(i + 1).drop_last() =~= all.take(i as int));
        assert(all.take(i + 1).last() == all[i as int]);
        if !matches_glob_any(vars[i].0.as_str(), &policy.env_deny) {
            let pair = (vars[i].0.clone(), vars[i].1.clone());
            let ghost before = out@;
            out.push(pair);
            assert(pair_texts(out@) =~= pair_texts(before).push((pair.0@, pair.1@)));
        }
    }
    assert(all.take(all.len() as int) =~= all);
    out
}

/// The environment of a command.
pub fn command_environment(policy: &ResolvedPolicy, host: &Host) -> (out: Vec<(String, String)>)
    requires
        host.wf(),
    ensures
        pair_texts(out@) == host.env_under(policy@),
{
    let mut out = strip_denied(&bootstrap_env_pairs(&host.infra_vars), policy);
    let ghost first = pair_texts(out@);
    let passed = policy.filtered_env_pairs(&host.vars);
    let ghost more = pair_texts(passed@);
    assert(pair_texts(out@) =~= first + more.take(0));
    for i in 0..passed.len()
        invariant
            more == pair_texts(passed@),
            pair_texts(out@) == first + more.take(i as int),
    {
        let pair = (passed[i].0.clone(), passed[i].1.clone());
        let ghost before = out@;
        out.push(pair);
        assert(pair_texts(out@) =~= pair_texts(before).push((pair.0@, pair.1@)));
        assert(more.take(i + 1) =~= more.take(i as int).push(more[i as int]));
        assert(pair_texts(out@) =~= first + more.take(i + 1));
    }
    assert(more.take(more.len() as int) =~= more);
    out
}

// ---------------------------------------------------------------------------
// Commands

/// A process to be started: with this environment and no other, without input, its
/// output caught.
#[derive(Debug, Clone)]
pub struct CommandSpec {
    pub program: String,
    pub args: Vec<String>,
    pub current_dir: String,
    pub env: Vec<(String, String)>,
}

/// The contents of a `CommandSpec`.
pub struct CommandModel {
    pub program: Seq<char>,
    pub args: Seq<Seq<char>>,
    pub current_dir: Seq<char>,
    pub env: Seq<(Seq<char>, Seq<char>)>,
}

impl View for CommandSpec {
    type V = CommandModel;

    open spec fn view(&self) -> CommandModel {
        CommandModel {
            program: self.program@,
            args: texts(self.args@),
            current_dir: self.current_dir@,
            env: pair_texts(self.env@),
        }
    }
}

/// The shell of the machine.
pub open spec fn shell_program(os: HostOs, comspec: Option<Seq<char>>) -> Seq<char> {
    if os == HostOs::Windows {
        match comspec {
            Some(path) => path,
            None => "cmd.exe"@,
        }
    } else {
        "/bin/sh"@
    }
}

/// The arguments that make the shell run a line.
pub open spec fn shell_args(os: HostOs, line: Seq<char>) -> Seq<Seq<char>> {
    if os == HostOs::Windows {
        seq!["/C"@, line]
    } else {
        seq!["-c"@, line]
    }
}

/// The shell of the machine.
pub fn shell_binary(host: &Host) -> (out: String)
    ensures
        out@ == host.shell(),
{
    match host.os {
        HostOs::Windows => match &host.comspec {
            Some(path) => path.clone(),
            None => "cmd.exe".to_string(),
        },
        _ => "/bin/sh".to_string(),
    }
}

/// The shell and the arguments that make it run a line.
pub fn shell_command(host: &Host, line: &str) -> (out: (String, Vec<String>))
    ensures
        out.0@ == host.shell(),
        texts(out.1@) == shell_args(host.os, line@),
{
    let flag = match host.os {
        HostOs::Windows => "/C",
        _ => "-c",
    };
    (shell_binary(host), two_texts(flag, line))
}

/// A plan that can be started: a direct one names a program.
pub open spec fn startable(plan: PlanModel) -> bool {
    plan matches PlanModel::Direct { argv } ==> argv.len() > 0
}

/// The program and the arguments of a plan. On Windows, a program of a command that is
/// not hardened is left to the system to find where the search does not find it.
pub open spec fn plan_program(
    plan: PlanModel,
    working_dir: Seq<char>,
    harden: bool,
    os: HostOs,
    comspec: Option<Seq<char>>,
    dirs: Option<Seq<Seq<char>>>,
    present: Seq<bool>,
) -> Result<(Seq<char>, Seq<Seq<char>>), SandboxFault> {
    match plan {
        PlanModel::Direct { argv } => match executable_path(os, argv[0], working_dir, dirs, present) {
            Ok(path) => Ok((path, argv.skip(1))),
            Err(fault) => if !harden && os == HostOs::Windows {
                Ok((argv[0], argv.skip(1)))
            } else {
                Err(fault)
            },
        },
        PlanModel::Shell { command } => Ok((shell_program(os, comspec), shell_args(os, command))),
    }
}

/// The words behind the first.
pub fn rest_of(argv: &Vec<String>) -> (out: Vec<String>)
    requires
        argv.len() > 0,
    ensures
        texts(out@) == texts(argv@).skip(1),
{
    let mut out: Vec<String> = Vec::new();
    for i in 1..argv.len()
        invariant
            argv.len() > 0,
            out.len() == i - 1,
            forall|j: int| 0 <= j < i - 1 ==> out@[j]@ == #[trigger] argv@[j + 1]@,
    {
        out.push(argv[i].clone());
        assert forall|j: int| 0 <= j < i implies out@[j]@ == #[trigger] argv@[j + 1]@ by {
        }
    }
    assert(texts(out@) =~= texts(argv@).skip(1)) by {
        assert forall|j: int| 0 <= j < out.len() implies texts(out@)[j] == texts(argv@).skip(1)[j] by {
            assert(argv@[j + 1]@ == out@[j]@);
        }
    }
    out
}

/// The process that runs `plan` for `request`. The search path is about the program of
/// the plan.
pub fn build_command(
    plan: &CommandPlan,
    request: &RunRequest,
    harden: bool,
    host: &Host,
    search: &SearchPath,
) -> (r: Result<CommandSpec, SandboxError>)
    requires
        startable(plan@),
        search.wf(),
        host.wf(),
    ensures
        match plan_program(
            plan@,
            request.working_dir@,
            harden,
            host.os,
            opt_text(host.comspec),
            search.dirs(),
            search.present@,
        ) {
            Ok((program, args)) => r matches Ok(spec) && spec@ == (CommandModel {
                program,
                args,
                current_dir: request.working_dir@,
                env: host.env_under(request.policy@),
            }),
            Err(fault) => r matches Err(e) && e@ == fault,
        },
{
    let (program, args) = match plan {
        CommandPlan::Direct { argv } => {
            assert(texts(argv@).len() == argv.len());
            assert(texts(argv@)[0] == argv@[0]@);
            let program = match resolve_executable_path(
                host.os,
                argv[0].as_str(),
                request.working_dir.as_str(),
                search,
            ) {
                Ok(path) => path,
                Err(e) => {
                    if !harden && host.os == HostOs::Windows {
                        argv[0].clone()
                    } else {
                        return Err(e);
                    }
                },
            };
            (program, rest_of(argv))
        },
        CommandPlan::Shell { command } => shell_command(host, command.as_str()),
    };
    Ok(
        CommandSpec {
            program,
            args,
            current_dir: request.working_dir.clone(),
            env: command_environment(&request.policy, host),
        },
    )
}

} // verus!
