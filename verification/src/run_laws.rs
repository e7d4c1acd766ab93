//! From a command line to a run, and what is told of it.
use crate::args::RunArgs;
use crate::backend::{compat_promise, secure_promise, selected, Backend, CapabilityModel};
use crate::command::planned;
use crate::diagnose::{
    bulleted, e2b_mode_name, e2b_usable, noted, peer_line, readiness_head, readiness_lines,
    readiness_policy, validation, validation_lines, MachineFacts, ValidationModel,
};
use crate::errors::{policy_message, sandbox_message, PolicyFault, SandboxError, SandboxFault};
use crate::launch::HostOs;
use crate::layers::{ConfigFile, ConfigSource};
use crate::number::decimal;
use crate::policy::{policy_summary, resolved_layer, stacked_layers, PolicyModel};
use crate::request::{ExecutionResult, RequestModel};
use crate::runner::{context_policy, discovered, prepared, RunContext};
use crate::text::{texts, trimmed};
use vstd::prelude::*;

verus! {

broadcast use vstd::seq::group_seq_axioms;

// ---------------------------------------------------------------------------
// Preparing a run

/// Which configuration is in force: none where there is no file; the file's where it can be
/// read, is a configuration, and names version 1 or none. Else it is told what is wrong, of a
/// file that cannot be read with its name.
pub proof fn lemma_configuration_in_force(path: Option<String>, found: Option<ConfigSource>)
    ensures
        found is None ==> discovered(path, found) == Ok::<Option<ConfigFile>, PolicyFault>(None),
        found matches Some(ConfigSource::Parsed(config)) ==> {
            &&& config.version is None || config.version == Some(1u32) ==> discovered(path, found)
                == Ok::<Option<ConfigFile>, PolicyFault>(Some(config))
            &&& config.version is Some && config.version != Some(1u32) ==> discovered(path, found)
                == Err::<Option<ConfigFile>, PolicyFault>(
                PolicyFault::ConfigParse(
                    "unsupported config version: "@ + decimal(config.version->0 as nat),
                ),
            )
        },
        found matches Some(ConfigSource::Malformed(reason)) ==> discovered(path, found) == Err::<
            Option<ConfigFile>,
            PolicyFault,
        >(PolicyFault::ConfigParse(reason@)),
        found matches Some(ConfigSource::Unreadable(reason)) ==> discovered(path, found) == Err::<
            Option<ConfigFile>,
            PolicyFault,
        >(
            PolicyFault::ConfigRead {
                path: if path is Some {
                    path->0@
                } else {
                    "microbox.toml"@
                },
                source: reason@,
            },
        ),
{
}

/// What a prepared run is: the command of the command line in the directory, under the policy
/// that preset, configuration file and command line come to, by the backend that was asked
/// for.
pub proof fn lemma_prepared_run(
    args: RunArgs,
    working_dir: Seq<char>,
    temp_dir: Seq<char>,
    found: Option<ConfigSource>,
    os: HostOs,
    request: RequestModel,
    backend: Backend,
)
    requires
        prepared(args, working_dir, temp_dir, found, os) == Ok::<
            (RequestModel, Backend),
            SandboxFault,
        >((request, backend)),
    ensures
        args.command@.len() > 0,
        request.command == planned(texts(args.command@)),
        request.working_dir == working_dir,
        selected(args.policy.backend, os) == Ok::<Backend, SandboxFault>(backend),
        discovered(args.policy.config, found) is Ok,
        args.policy.layer() is Ok,
        resolved_layer(
            os,
            working_dir,
            temp_dir,
            stacked_layers(
                os,
                temp_dir,
                args.policy.preset,
                discovered(args.policy.config, found)->Ok_0,
                args.policy.layer()->Ok_0,
            ),
        ) == Ok::<PolicyModel, PolicyFault>(request.policy),
{
}

/// Why a run is not prepared: the configuration, the grants of the command line, the policy, an
/// empty command, the backend, in this order; and where none of them is at fault, it is.
pub proof fn lemma_why_not_prepared(
    args: RunArgs,
    working_dir: Seq<char>,
    temp_dir: Seq<char>,
    found: Option<ConfigSource>,
    os: HostOs,
)
    ensures
        ({
            let r = prepared(args, working_dir, temp_dir, found, os);
            let d = discovered(args.policy.config, found);
            let l = args.policy.layer();
            let p = resolved_layer(
                os,
                working_dir,
                temp_dir,
                stacked_layers(os, temp_dir, args.policy.preset, d->Ok_0, l->Ok_0),
            );
            let b = selected(args.policy.backend, os);
            let fault = |f: SandboxFault| r == Err::<(RequestModel, Backend), SandboxFault>(f);
            &&& d is Err ==> fault(SandboxFault::Policy(policy_message(d->Err_0)))
            &&& d is Ok && l is Err ==> fault(SandboxFault::Policy(l->Err_0))
            &&& d is Ok && l is Ok && p is Err ==> fault(
                SandboxFault::Policy(policy_message(p->Err_0)),
            )
            &&& d is Ok && l is Ok && p is Ok && args.command@.len() == 0 ==> fault(
                SandboxFault::EmptyCommand,
            )
            &&& d is Ok && l is Ok && p is Ok && args.command@.len() > 0 && b is Err ==> fault(
                b->Err_0,
            )
            &&& d is Ok && l is Ok && p is Ok && args.command@.len() > 0 && b is Ok ==> r is Ok
        }),
{
}

/// The policy of a context is the one that a run gets.
pub proof fn lemma_context_is_the_runs(
    args: RunArgs,
    working_dir: Seq<char>,
    temp_dir: Seq<char>,
    found: Option<ConfigSource>,
    os: HostOs,
)
    ensures
        prepared(args, working_dir, temp_dir, found, os) is Ok ==> context_policy(
            os,
            args.policy,
            working_dir,
            temp_dir,
            found,
        ) == Ok::<PolicyModel, SandboxFault>(
            prepared(args, working_dir, temp_dir, found, os)->Ok_0.0.policy,
        ),
        context_policy(os, args.policy, working_dir, temp_dir, found) is Err ==> prepared(
            args,
            working_dir,
            temp_dir,
            found,
            os,
        ) is Err,
{
}

/// The exit code of a run: 124 for one that was late, whatever it ended with; else the code of
/// the process; and 1 where a signal ended it.
pub proof fn lemma_exit_codes(result: ExecutionResult)
    ensures
        result.timed_out ==> result.code() == 124,
        !result.timed_out && result.status is Some ==> result.code() == result.status->0,
        !result.timed_out && result.status is None ==> result.code() == 1,
{
}

// ---------------------------------------------------------------------------
// Diagnoses

/// What is told of a policy: it is valid if and only if it resolved, with its lines; else with
/// the error. The backend speaks for itself.
pub proof fn lemma_validations(
    tool: Seq<char>,
    capabilities: CapabilityModel,
    outcome: Result<RunContext, SandboxError>,
)
    ensures
        ({
            let v = validation(tool, capabilities, outcome);
            &&& v.tool == tool
            &&& v.backend == capabilities.name
            &&& v.secure_enforcement == capabilities.secure_enforcement
            &&& v.notes == capabilities.notes
            &&& v.valid <==> outcome is Ok
            &&& outcome is Ok ==> v.policy_error is None && v.policy_summary == Some(
                policy_summary(outcome->Ok_0.policy@),
            )
            &&& outcome is Err ==> v.policy_summary is None && v.policy_error == Some(
                sandbox_message(outcome->Err_0@),
            )
        }),
{
}

/// A validation line by line.
pub proof fn lemma_validation_lines(m: ValidationModel)
    ensures
        ({
            let l = validation_lines(m);
            &&& l[0] == "MicroBox validate"@
            &&& l[1] == "backend = "@ + m.backend
            &&& m.secure_enforcement ==> l[2] == "secure_enforcement = "@ + "yes"@
            &&& !m.secure_enforcement ==> l[2] == "secure_enforcement = "@ + "no"@
            &&& m.valid ==> l[3] == "valid = "@ + "yes"@
            &&& !m.valid ==> l[3] == "valid = "@ + "no"@
            &&& m.policy_error is Some ==> l[4] == "policy_error = "@ + m.policy_error->0
            &&& m.policy_error is None && m.policy_summary is Some ==> forall|i: int|
                0 <= i < m.policy_summary->0.len() ==> l[4 + i] == #[trigger] m.policy_summary->0[i]
            &&& m.notes.len() > 0 ==> l.len() >= m.notes.len() + 5 && l[l.len() - m.notes.len() - 1]
                == "notes:"@ && forall|i: int|
                0 <= i < m.notes.len() ==> l[l.len() - m.notes.len() + i] == "  - "@
                    + #[trigger] m.notes[i]
        }),
{
    let l = validation_lines(m);
    let tail = noted(m.notes);
    if m.notes.len() > 0 {
        assert(l[l.len() - tail.len()] == tail[0]);
        assert forall|i: int| 0 <= i < m.notes.len() implies l[l.len() - m.notes.len() + i]
            == "  - "@ + #[trigger] m.notes[i] by {
            assert(l[l.len() - m.notes.len() + i] == tail[1 + i]);
            assert(tail[1 + i] == bulleted(m.notes)[i]);
        }
    }
}

/// When a machine is ready for production: on Linux, with a backend that enforces, and with a
/// kernel that has what it needs.
pub proof fn lemma_readiness(facts: MachineFacts, m: CapabilityModel, resolved: bool)
    ensures
        ({
            let l = readiness_head(facts, m, resolved);
            let ready = m.secure_enforcement && facts.os == HostOs::Linux && facts.kernel_features;
            &&& l.len() == 8
            &&& l[0] == "MicroBox doctor"@
            &&& l[1] == "platform = "@ + facts.os_name@ + "-"@ + facts.arch_name@
            &&& l[2] == "backend = "@ + m.name
            &&& ready ==> l[3] == "production_ready = "@ + "yes"@
            &&& !ready ==> l[3] == "production_ready = "@ + "no"@
            &&& m.secure_enforcement ==> l[4] == "secure_enforcement = "@ + "yes"@
            &&& !m.secure_enforcement ==> l[4] == "secure_enforcement = "@ + "no"@
            &&& facts.config_exists ==> l[5] == "config_found = "@ + "yes"@
            &&& !facts.config_exists ==> l[5] == "config_found = "@ + "no"@
            &&& resolved ==> l[6] == "policy_resolved = "@ + "yes"@
            &&& !resolved ==> l[6] == "policy_resolved = "@ + "no"@
        }),
{
}

/// The word for a fact.
pub open spec fn word_for(fact: bool) -> Seq<char> {
    if fact {
        "yes"@
    } else {
        "no"@
    }
}

/// Which other sandboxes a machine has: a container runtime that is there and answers, the
/// launcher and Firejail on Linux where they are there, and the hosted one with a key and an
/// interpreter.
pub proof fn lemma_other_sandboxes(facts: MachineFacts)
    ensures
        e2b_usable(facts) <==> facts.e2b_api_key is Some && trimmed(facts.e2b_api_key->0@).len() > 0
            && facts.python,
        peer_line(facts) == "peer_targets = docker:"@ + word_for(
            facts.docker && facts.docker_answers,
        ) + ", podman:"@ + word_for(facts.podman && facts.podman_answers) + ", bwrap:"@ + word_for(
            facts.os == HostOs::Linux && facts.bwrap,
        ) + ", firejail:"@ + word_for(facts.os == HostOs::Linux && facts.firejail) + ", e2b:"@
            + word_for(
            facts.e2b_api_key is Some && trimmed(facts.e2b_api_key->0@).len() > 0 && facts.python,
        ),
        facts.e2b_domain is Some && trimmed(facts.e2b_domain->0@).len() > 0 ==> e2b_mode_name(facts)
            == "self-hosted"@,
        !(facts.e2b_domain is Some && trimmed(facts.e2b_domain->0@).len() > 0) && e2b_usable(facts)
            ==> e2b_mode_name(facts) == "hosted"@,
        !(facts.e2b_domain is Some && trimmed(facts.e2b_domain->0@).len() > 0) && !e2b_usable(facts)
            ==> e2b_mode_name(facts) == "unavailable"@,
{
}

/// The parts of a readiness report: the head, the default policy or why there is none, the
/// other sandboxes, the notes of the default backend, and what is told of Linux.
pub proof fn lemma_readiness_report(facts: MachineFacts, outcome: Result<RunContext, SandboxError>)
    ensures
        ({
            let l = readiness_lines(facts, outcome);
            let m = if facts.os == HostOs::Linux {
                secure_promise()
            } else {
                compat_promise()
            };
            let p = readiness_policy(outcome);
            let n = 8 + p.len() as int;
            &&& l.take(8) == readiness_head(facts, m, outcome is Ok)
            &&& outcome is Err ==> p == seq!["policy_error = "@ + sandbox_message(outcome->Err_0@)]
            &&& outcome is Ok ==> p[0] == "policy_summary:"@ && p.len() == 1 + policy_summary(
                outcome->Ok_0.policy@,
            ).len() && forall|i: int|
                0 <= i < policy_summary(outcome->Ok_0.policy@).len() ==> p[1 + i] == "  - "@
                    + #[trigger] policy_summary(outcome->Ok_0.policy@)[i]
            &&& l.subrange(8, n) == p
            &&& l[n] == peer_line(facts)
            &&& l[n + 1] == "e2b_mode = "@ + e2b_mode_name(facts)
            &&& facts.os == HostOs::Linux ==> l.last()
                == "linux_support = secure backend with namespaces, Landlock, seccomp, and cgroup best-effort"@
            &&& facts.os != HostOs::Linux ==> l.last()
                == "linux_support = build on Linux for full sandbox enforcement"@
        }),
{
    let l = readiness_lines(facts, outcome);
    let m = if facts.os == HostOs::Linux {
        secure_promise()
    } else {
        compat_promise()
    };
    let p = readiness_policy(outcome);
    let n = 8 + p.len() as int;
    assert(l.take(8) =~= readiness_head(facts, m, outcome is Ok));
    assert(l.subrange(8, n) =~= p);
    if outcome is Ok {
        let s = policy_summary(outcome->Ok_0.policy@);
        assert forall|i: int| 0 <= i < s.len() implies p[1 + i] == "  - "@ + #[trigger] s[i] by {
            assert(p[1 + i] == bulleted(s)[i]);
        }
    }
}

} // verus!
