//! What is started, and with which environment.
use crate::command::{
    backslashed, escaped, is_plain, is_plain_word, is_shell_line, planned, written, written_plan,
    PlanModel,
};
use crate::errors::SandboxFault;
use crate::glob::any_pattern_matches;
use crate::launch::{
    command_env, executable_path, first_present, is_searched, plan_program, set_variables,
    shell_args, shell_program, undenied, HostOs,
};
use crate::paths::joined_path;
use crate::policy::{infra_env_keys, passed_env, passes_env, PolicyModel};
use crate::text::{occurs_at, occurs_in};
use vstd::prelude::*;

verus! {

broadcast use vstd::seq::group_seq_axioms;

// ---------------------------------------------------------------------------
// Plans

/// A character that makes a single word a line for the shell.
pub open spec fn is_shell_sign(c: char) -> bool {
    c == ' ' || c == '\t' || c == '\n' || c == '|' || c == ';' || c == '>' || c == '<'
}

/// Which words only a shell understands: those with a blank, a tab, a line end, a pipe, a
/// semicolon or an angle bracket in them, or with two ampersands next to each other. A single
/// ampersand is no sign.
pub proof fn lemma_lines_for_the_shell(s: Seq<char>)
    ensures
        is_shell_line(s) <==> (exists|i: int| 0 <= i < s.len() && is_shell_sign(#[trigger] s[i])) || (
        exists|i: int| 0 <= i < s.len() - 1 && #[trigger] s[i] == '&' && s[i + 1] == '&'),
{
    reveal_strlit("&&");
    let two = "&&"@;
    if occurs_in(s, two) {
        let i = choose|i: int| occurs_at(s, two, i);
        assert(s.subrange(i, i + 2)[0] == two[0] && s.subrange(i, i + 2)[1] == two[1]);
        assert(s[i] == '&' && s[i + 1] == '&');
    }
    if exists|i: int| 0 <= i < s.len() - 1 && #[trigger] s[i] == '&' && s[i + 1] == '&' {
        let i = choose|i: int| 0 <= i < s.len() - 1 && #[trigger] s[i] == '&' && s[i + 1] == '&';
        assert(s.subrange(i, i + 2) =~= two);
        assert(occurs_at(s, two, i));
    }
    if exists|i: int| 0 <= i < s.len() && is_shell_sign(#[trigger] s[i]) {
        let i = choose|i: int| 0 <= i < s.len() && is_shell_sign(#[trigger] s[i]);
        assert(s.contains(s[i]));
    }
    lemma_has_sign(s, ' ');
    lemma_has_sign(s, '\t');
    lemma_has_sign(s, '\n');
    lemma_has_sign(s, '|');
    lemma_has_sign(s, ';');
    lemma_has_sign(s, '>');
    lemma_has_sign(s, '<');
}

proof fn lemma_has_sign(s: Seq<char>, c: char)
    requires
        is_shell_sign(c),
    ensures
        s.contains(c) ==> exists|i: int| 0 <= i < s.len() && is_shell_sign(#[trigger] s[i]),
{
    if s.contains(c) {
        let i = choose|i: int| 0 <= i < s.len() && s[i] == c;
        assert(is_shell_sign(s[i]));
    }
}

/// How a command line is planned: several words are run as they are, whatever is in them; a
/// single word is a line for the shell if and only if only a shell understands it. No word is
/// changed.
pub proof fn lemma_plans(raw: Seq<Seq<char>>)
    ensures
        raw.len() != 1 ==> planned(raw) == (PlanModel::Direct { argv: raw }),
        raw.len() == 1 && is_shell_line(raw[0]) ==> planned(raw) == (PlanModel::Shell {
            command: raw[0],
        }),
        raw.len() == 1 && !is_shell_line(raw[0]) ==> planned(raw) == (PlanModel::Direct {
            argv: raw,
        }),
{
}

/// A word needs no quotes where it has a character and all of them are letters and digits of
/// ASCII or one of `_`, `-`, `.`, `/`, `:` and the backslash. Such a word is written as it is,
/// any other in quotes.
pub proof fn lemma_quoting(s: Seq<char>)
    ensures
        is_plain_word(s) <==> s.len() > 0 && forall|i: int|
            0 <= i < s.len() ==> {
                let c = #[trigger] s[i];
                ||| 'a' <= c <= 'z'
                ||| 'A' <= c <= 'Z'
                ||| '0' <= c <= '9'
                ||| c == '_'
                ||| c == '-'
                ||| c == '.'
                ||| c == '/'
                ||| c == ':'
                ||| c == '\\'
            },
        is_plain_word(s) ==> escaped(s) == s,
        !is_plain_word(s) ==> escaped(s).len() >= s.len() + 2 && escaped(s)[0] == '"'
            && escaped(s).last() == '"',
{
    lemma_backslashed_grows(s);
    if forall|i: int|
        0 <= i < s.len() ==> {
            let c = #[trigger] s[i];
            ||| 'a' <= c <= 'z'
            ||| 'A' <= c <= 'Z'
            ||| '0' <= c <= '9'
            ||| c == '_'
            ||| c == '-'
            ||| c == '.'
            ||| c == '/'
            ||| c == ':'
            ||| c == '\\'
        } {
        assert forall|i: int| 0 <= i < s.len() implies is_plain(#[trigger] s[i]) by {
            let c = s[i];
            assert('a' <= c <= 'z' || 'A' <= c <= 'Z' || '0' <= c <= '9' || c == '_' || c == '-'
                || c == '.' || c == '/' || c == ':' || c == '\\');
        }
    }
    if is_plain_word(s) {
        assert forall|i: int| 0 <= i < s.len() implies {
            let c = #[trigger] s[i];
            ||| 'a' <= c <= 'z'
            ||| 'A' <= c <= 'Z'
            ||| '0' <= c <= '9'
            ||| c == '_'
            ||| c == '-'
            ||| c == '.'
            ||| c == '/'
            ||| c == ':'
            ||| c == '\\'
        } by {
            assert(is_plain(s[i]));
        }
    }
}

proof fn lemma_backslashed_grows(s: Seq<char>)
    ensures
        backslashed(s).len() >= s.len(),
    decreases s.len(),
{
    if s.len() > 0 {
        lemma_backslashed_grows(s.drop_last());
    }
}

/// Quotes: a backslash goes before every backslash and every quote, and before nothing else.
pub proof fn lemma_backslashes(s: Seq<char>, c: char)
    ensures
        backslashed(Seq::<char>::empty()).len() == 0,
        c == '\\' || c == '"' ==> backslashed(s.push(c))
            == backslashed(s) + seq!['\\', c],
        c != '\\' && c != '"' ==> backslashed(s.push(c))
            == backslashed(s) + seq![c],
{
    assert(s.push(c).drop_last() =~= s);
    let b = backslashed(s);
    assert(b.push('\\').push(c) =~= b + seq!['\\', c]);
    assert(b.push(c) =~= b + seq![c]);
}

/// A line for the shell is written as it is; a program and its arguments with a blank between
/// neighbours, each as a word is written.
pub proof fn lemma_written_plans(argv: Seq<Seq<char>>, last: Seq<char>, line: Seq<char>)
    ensures
        written_plan(PlanModel::Shell { command: line }) == line,
        written_plan(PlanModel::Direct { argv }) == written(argv),
        written(seq![last]) == escaped(last),
        argv.len() > 0 ==> written(argv.push(last)) == written(argv) + " "@ + escaped(last),
{
    let f = |arg: Seq<char>| escaped(arg);
    assert(seq![last].map_values(f) =~= seq![escaped(last)]);
    assert(argv.push(last).map_values(f) =~= argv.map_values(f).push(escaped(last)));
    assert(argv.map_values(f).push(escaped(last)).drop_last() =~= argv.map_values(f));
}

// ---------------------------------------------------------------------------
// Programs

/// The first directory that has the program: it has it, and none before it does.
pub proof fn lemma_first_directory(present: Seq<bool>, from: int)
    requires
        0 <= from <= present.len(),
    ensures
        first_present(present, from) matches Some(i) ==> from <= i < present.len() && present[i] && (
        forall|j: int| from <= j < i ==> !#[trigger] present[j]),
        first_present(present, from) is None ==> forall|j: int|
            from <= j < present.len() ==> !#[trigger] present[j],
    decreases present.len() - from,
{
    if from < present.len() && !present[from] {
        lemma_first_directory(present, from + 1);
    }
}

/// Where a program is: one that is not looked for is seen from the working directory; one
/// that is stands in the first directory of the search path that has it. Without a search path
/// and where no directory has it, the program is named in the fault.
pub proof fn lemma_where_a_program_is(
    os: HostOs,
    executable: Seq<char>,
    working_dir: Seq<char>,
    dirs: Seq<Seq<char>>,
    present: Seq<bool>,
    i: int,
)
    requires
        dirs.len() == present.len(),
    ensures
        !is_searched(os, executable) ==> executable_path(
            os,
            executable,
            working_dir,
            Some(dirs),
            present,
        ) == Ok::<Seq<char>, SandboxFault>(joined_path(os, working_dir, executable)),
        is_searched(os, executable) && 0 <= i < present.len() && present[i] && (forall|j: int|
            0 <= j < i ==> !#[trigger] present[j]) ==> executable_path(
            os,
            executable,
            working_dir,
            Some(dirs),
            present,
        ) == Ok::<Seq<char>, SandboxFault>(joined_path(os, dirs[i], executable)),
        is_searched(os, executable) && (forall|j: int|
            0 <= j < present.len() ==> !#[trigger] present[j]) ==> executable_path(
            os,
            executable,
            working_dir,
            Some(dirs),
            present,
        ) == Err::<Seq<char>, SandboxFault>(
            SandboxFault::LaunchFailed("executable `"@ + executable + "` not found in PATH"@),
        ),
        is_searched(os, executable) ==> executable_path(
            os,
            executable,
            working_dir,
            None,
            present,
        ) == Err::<Seq<char>, SandboxFault>(
            SandboxFault::LaunchFailed(
                "unable to resolve executable `"@ + executable + "` without PATH"@,
            ),
        ),
{
    lemma_first_directory(present, 0);
    if 0 <= i < present.len() && present[i] && (forall|j: int|
        0 <= j < i ==> !#[trigger] present[j]) {
        match first_present(present, 0) {
            Some(k) => {
                if k < i {
                    assert(!present[k]);
                }
                if i < k {
                    assert(!present[i]);
                }
            },
            None => {
                assert(!present[i]);
            },
        }
    }
}

/// What is started: a line goes to the shell of the machine behind its flag; a program gets
/// the words behind it as they are. A program that is not found is left to the system only on
/// Windows and only where nothing is hardened.
pub proof fn lemma_what_is_started(
    plan: PlanModel,
    working_dir: Seq<char>,
    harden: bool,
    os: HostOs,
    comspec: Option<Seq<char>>,
    dirs: Option<Seq<Seq<char>>>,
    present: Seq<bool>,
)
    ensures
        ({
            let r = plan_program(plan, working_dir, harden, os, comspec, dirs, present);
            &&& plan is Shell && os != HostOs::Windows ==> r is Ok && r->Ok_0.0 == "/bin/sh"@
                && r->Ok_0.1 == seq!["-c"@, plan->command]
            &&& plan is Shell && os == HostOs::Windows ==> r is Ok && r->Ok_0.1 == seq![
                "/C"@,
                plan->command,
            ]
            &&& plan is Shell && os == HostOs::Windows && comspec is Some ==> r->Ok_0.0
                == comspec->0
            &&& plan is Shell && os == HostOs::Windows && comspec is None ==> r->Ok_0.0
                == "cmd.exe"@
            &&& plan is Direct && r is Ok ==> r->Ok_0.1 == plan->argv.skip(1)
            &&& plan is Direct ==> (executable_path(os, plan->argv[0], working_dir, dirs, present)
                matches Ok(path) ==> r is Ok && r->Ok_0.0 == path)
            &&& plan is Direct ==> (executable_path(os, plan->argv[0], working_dir, dirs, present)
                matches Err(fault) ==> if os == HostOs::Windows && !harden {
                r is Ok && r->Ok_0.0 == plan->argv[0]
            } else {
                r == Err::<(Seq<char>, Seq<Seq<char>>), SandboxFault>(fault)
            })
        }),
{
}

// ---------------------------------------------------------------------------
// The environment

proof fn lemma_set_variables(names: Seq<Seq<char>>, values: Seq<Option<Seq<char>>>, i: int)
    requires
        0 <= i < names.len(),
    ensures
        values[i] matches Some(value) ==> set_variables(names, values).contains((names[i], value)),
    decreases names.len(),
{
    let t = names.drop_last();
    let before = set_variables(t, values);
    let all = set_variables(names, values);
    if let Some(value) = values[i] {
        if i < t.len() {
            assert(t[i] == names[i]);
            lemma_set_variables(t, values, i);
            let k = choose|k: int| 0 <= k < before.len() && before[k] == (t[i], value);
            assert(all[k] == (names[i], value));
        } else {
            assert(all[before.len() as int] == (names[i], value));
        }
    }
}

proof fn lemma_set_from(names: Seq<Seq<char>>, values: Seq<Option<Seq<char>>>, k: int) -> (i: int)
    requires
        0 <= k < set_variables(names, values).len(),
    ensures
        0 <= i < names.len(),
        set_variables(names, values)[k].0 == names[i],
        values[i] == Some(set_variables(names, values)[k].1),
    decreases names.len(),
{
    let t = names.drop_last();
    let before = set_variables(t, values);
    if k < before.len() {
        assert(set_variables(names, values)[k] == before[k]);
        let i = lemma_set_from(t, values, k);
        assert(t[i] == names[i]);
        i
    } else {
        names.len() - 1
    }
}

proof fn lemma_kept(
    vars: Seq<(Seq<char>, Seq<char>)>,
    p: spec_fn((Seq<char>, Seq<char>)) -> bool,
    x: (Seq<char>, Seq<char>),
)
    ensures
        vars.filter(p).contains(x) <==> vars.contains(x) && p(x),
    decreases vars.len(),
{
    reveal(Seq::filter);
    if vars.len() > 0 {
        let t = vars.drop_last();
        lemma_kept(t, p, x);
        let (f, g) = (t.filter(p), vars.filter(p));
        if vars.contains(x) {
            let j = choose|j: int| 0 <= j < vars.len() && vars[j] == x;
            if j < t.len() {
                assert(t[j] == x);
            }
        }
        if t.contains(x) {
            let j = choose|j: int| 0 <= j < t.len() && t[j] == x;
            assert(vars[j] == x);
        }
        if f.contains(x) {
            let j = choose|j: int| 0 <= j < f.len() && f[j] == x;
            assert(g[j] == x);
        }
        if g.contains(x) {
            let j = choose|j: int| 0 <= j < g.len() && g[j] == x;
            if j < f.len() {
                assert(f[j] == x);
            } else {
                assert(vars[vars.len() - 1] == x);
            }
        }
        if x == vars.last() && p(x) {
            assert(g[f.len() as int] == x);
        }
    }
}

/// The environment of a command, variable by variable. A variable is in it, with its value, if
/// and only if no deny pattern matches it and it is one of two things: a variable that a
/// command needs to find its way around, as it is set on this machine, or a variable of this
/// process that a passthrough pattern matches.
pub proof fn lemma_environment_of_a_command(
    policy: PolicyModel,
    infra: Seq<Option<Seq<char>>>,
    vars: Seq<(Seq<char>, Seq<char>)>,
    x: (Seq<char>, Seq<char>),
)
    ensures
        command_env(policy, infra, vars).contains(x) <==> !any_pattern_matches(policy.env_deny, x.0)
            && ((exists|i: int|
            0 <= i < infra_env_keys().len() && #[trigger] infra_env_keys()[i] == x.0 && infra[i]
                == Some(x.1)) || (vars.contains(x) && any_pattern_matches(
            policy.env_passthrough,
            x.0,
        ))),
{
    let needed = set_variables(infra_env_keys(), infra);
    let first = undenied(policy, needed);
    let second = passed_env(policy, vars);
    let env = command_env(policy, infra, vars);
    let q = |var: (Seq<char>, Seq<char>)| !any_pattern_matches(policy.env_deny, var.0);
    let p = |var: (Seq<char>, Seq<char>)| passes_env(policy, var.0);
    lemma_kept(needed, q, x);
    lemma_kept(vars, p, x);
    if env.contains(x) {
        let k = choose|k: int| 0 <= k < env.len() && env[k] == x;
        if k < first.len() {
            assert(first[k] == x);
            assert(first.contains(x));
        } else {
            assert(second[k - first.len()] == x);
            assert(second.contains(x));
        }
    }
    if first.contains(x) {
        let k = choose|k: int| 0 <= k < first.len() && first[k] == x;
        assert(env[k] == x);
        let j = choose|j: int| 0 <= j < needed.len() && needed[j] == x;
        let i = lemma_set_from(infra_env_keys(), infra, j);
        assert(infra_env_keys()[i] == x.0);
    }
    if second.contains(x) {
        let k = choose|k: int| 0 <= k < second.len() && second[k] == x;
        assert(env[first.len() + k] == x);
    }
    if exists|i: int|
        0 <= i < infra_env_keys().len() && #[trigger] infra_env_keys()[i] == x.0 && infra[i] == Some(
            x.1,
        ) {
        let i = choose|i: int|
            0 <= i < infra_env_keys().len() && #[trigger] infra_env_keys()[i] == x.0 && infra[i]
                == Some(x.1);
        lemma_set_variables(infra_env_keys(), infra, i);
    }
}

/// Which variables the policy lets through: those that one of its passthrough patterns matches
/// and none of its deny patterns.
pub proof fn lemma_variables_let_through(policy: PolicyModel, name: Seq<char>)
    ensures
        any_pattern_matches(policy.env_deny, name) ==> !passes_env(policy, name),
        !any_pattern_matches(policy.env_passthrough, name) ==> !passes_env(policy, name),
        any_pattern_matches(policy.env_passthrough, name) && !any_pattern_matches(
            policy.env_deny,
            name,
        ) ==> passes_env(policy, name),
{
}

/// The shell of a machine, and how it is told to run a line.
pub proof fn lemma_shells(os: HostOs, comspec: Option<Seq<char>>, line: Seq<char>)
    ensures
        os != HostOs::Windows ==> shell_program(os, comspec) == "/bin/sh"@ && shell_args(os, line)
            == seq!["-c"@, line],
        os == HostOs::Windows ==> shell_args(os, line) == seq!["/C"@, line],
        os == HostOs::Windows && comspec is Some ==> shell_program(os, comspec) == comspec->0,
        os == HostOs::Windows && comspec is None ==> shell_program(os, comspec) == "cmd.exe"@,
{
}

} // verus!
