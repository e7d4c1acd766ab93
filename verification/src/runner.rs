//! From the command line to a request: finding the configuration, resolving the policy,
//! planning the command.
use crate::args::{PolicyArgs, RunArgs};
use crate::backend::{select_backend, selected, Backend, BackendPreference};
use crate::command::{planned, CommandPlan};
use crate::errors::{
    policy_message, PolicyError, PolicyFault, SandboxError, SandboxFault,
};
use crate::launch::{startable, HostOs};
use crate::layers::{ConfigFile, ConfigSource, CONFIG_VERSION};
use crate::number::decimal;
use crate::policy::{resolve_policy, resolved_layer, stacked_layers, PolicyModel, ResolvedPolicy};
use crate::request::{ExecutionResult, RequestModel, RunRequest, TIMEOUT_EXIT_CODE};
use crate::text::{is_empty, texts};
use vstd::prelude::*;

verus! {

broadcast use vstd::seq::group_seq_axioms;

/// The configuration file that is read: the one named, else the one of the directory.
pub fn config_path(path: &Option<String>) -> (out: String)
    ensures
        out@ == match *path {
            Some(p) => p@,
            None => "microbox.toml"@,
        },
{
    match path {
        Some(p) => p.clone(),
        None => "microbox.toml".to_string(),
    }
}

/// What a configuration file comes to; one that does not exist asks for nothing.
pub open spec fn discovered(path: Option<String>, found: Option<ConfigSource>) -> Result<
    Option<ConfigFile>,
    PolicyFault,
> {
    let name = match path {
        Some(p) => p@,
        None => "microbox.toml"@,
    };
    match found {
        None => Ok(None),
        Some(ConfigSource::Unreadable(reason)) => Err(
            PolicyFault::ConfigRead { path: name, source: reason@ },
        ),
        Some(ConfigSource::Malformed(reason)) => Err(PolicyFault::ConfigParse(reason@)),
        Some(ConfigSource::Parsed(config)) => match config.version {
            Some(version) if version != CONFIG_VERSION => Err(
                PolicyFault::ConfigParse(
                    "unsupported config version: "@ + decimal(version as nat),
                ),
            ),
            _ => Ok(Some(config)),
        },
    }
}

/// The configuration in force. `found` is what reading the file of `config_path` came to,
/// none where there is no such file.
pub fn discover_config(path: Option<String>, found: Option<ConfigSource>) -> (r: Result<
    Option<ConfigFile>,
    PolicyError,
>)
    ensures
        match discovered(path, found) {
            Ok(config) => r == Ok::<Option<ConfigFile>, PolicyError>(config),
            Err(fault) => r matches Err(e) && e@ == fault,
        },
{
    let name = config_path(&path);
    match found {
        None => Ok(None),
        Some(source) => match ConfigFile::load(name.as_str(), source) {
            Ok(config) => Ok(Some(config)),
            Err(e) => Err(e),
        },
    }
}

/// The directory and the policy of a run.
#[derive(Debug, Clone)]
pub struct RunContext {
    pub working_dir: String,
    pub policy: ResolvedPolicy,
}

/// The policy that the command line comes to in a directory, given the configuration file,
/// or what is told instead.
pub open spec fn context_policy(
    os: HostOs,
    args: PolicyArgs,
    working_dir: Seq<char>,
    temp_dir: Seq<char>,
    found: Option<ConfigSource>,
) -> Result<PolicyModel, SandboxFault> {
    match discovered(args.config, found) {
        Err(fault) => Err(SandboxFault::Policy(policy_message(fault))),
        Ok(config) => match args.layer() {
            Err(text) => Err(SandboxFault::Policy(text)),
            Ok(overrides) => match resolved_layer(
                os,
                working_dir,
                temp_dir,
                stacked_layers(os, temp_dir, args.preset, config, overrides),
            ) {
                Err(fault) => Err(SandboxFault::Policy(policy_message(fault))),
                Ok(policy) => Ok(policy),
            },
        },
    }
}

fn copy_path(path: &Option<String>) -> (out: Option<String>)
    ensures
        out == *path,
{
    match path {
        Some(p) => Some(p.clone()),
        None => None,
    }
}

/// The directory and the policy of a run in `working_dir`.
pub fn prepare_context_in_dir(
    args: &PolicyArgs,
    working_dir: String,
    temp_dir: &str,
    found: Option<ConfigSource>,
    os: HostOs,
) -> (r: Result<RunContext, SandboxError>)
    ensures
        match context_policy(os, *args, working_dir@, temp_dir@, found) {
            Ok(policy) => r matches Ok(context) && context.working_dir == working_dir
                && context.policy@ == policy,
            Err(fault) => r matches Err(e) && e@ == fault,
        },
{
    let config = match discover_config(copy_path(&args.config), found) {
        Ok(config) => config,
        Err(e) => return Err(SandboxError::Policy(e.message())),
    };
    let overrides = match args.to_overrides() {
        Ok(overrides) => overrides,
        Err(text) => return Err(SandboxError::Policy(text)),
    };
    match resolve_policy(os, working_dir.as_str(), temp_dir, args.preset, config, overrides) {
        Ok(policy) => Ok(RunContext { working_dir, policy }),
        Err(e) => Err(SandboxError::Policy(e.message())),
    }
}

/// The backend that the policy asks for.
pub fn select_backend_for_policy(preference: BackendPreference, os: HostOs) -> (r: Result<
    Backend,
    SandboxError,
>)
    ensures
        match selected(preference, os) {
            Ok(backend) => r == Ok::<Backend, SandboxError>(backend),
            Err(fault) => r matches Err(e) && e@ == fault,
        },
{
    select_backend(preference, os)
}

/// A run that is ready to start: what is run, and by which backend.
#[derive(Debug)]
pub struct PreparedRun {
    pub request: RunRequest,
    pub backend: Backend,
}

/// The run that a command line comes to, or the first thing that stands in its way: the
/// policy, an empty command, a backend that is not to be had.
pub open spec fn prepared(
    args: RunArgs,
    working_dir: Seq<char>,
    temp_dir: Seq<char>,
    found: Option<ConfigSource>,
    os: HostOs,
) -> Result<(RequestModel, Backend), SandboxFault> {
    match context_policy(os, args.policy, working_dir, temp_dir, found) {
        Err(fault) => Err(fault),
        Ok(policy) => if args.command@.len() == 0 {
            Err(SandboxFault::EmptyCommand)
        } else {
            match selected(args.policy.backend, os) {
                Err(fault) => Err(fault),
                Ok(backend) => Ok(
                    (
                        RequestModel {
                            command: planned(texts(args.command@)),
                            working_dir,
                            policy,
                        },
                        backend,
                    ),
                ),
            }
        },
    }
}

/// The run that a command line comes to.
pub fn prepare_run(
    args: RunArgs,
    working_dir: String,
    temp_dir: &str,
    found: Option<ConfigSource>,
    os: HostOs,
) -> (r: Result<PreparedRun, SandboxError>)
    ensures
        match prepared(args, working_dir@, temp_dir@, found, os) {
            Ok((request, backend)) => r matches Ok(run) && run.request@ == request && run.backend
                == backend && startable(run.request@.command),
            Err(fault) => r matches Err(e) && e@ == fault,
        },
{
    let preference = args.policy.backend;
    let context = match prepare_context_in_dir(&args.policy, working_dir, temp_dir, found, os) {
        Ok(context) => context,
        Err(e) => return Err(e),
    };
    assert(texts(args.command@).len() == args.command@.len());
    let command = match CommandPlan::from_raw(args.command) {
        Ok(command) => command,
        Err(e) => return Err(e),
    };
    let request = RunRequest::new(command, context.working_dir, context.policy);
    match select_backend_for_policy(preference, os) {
        Ok(backend) => Ok(PreparedRun { request, backend }),
        Err(e) => Err(e),
    }
}

/// What is printed of a run: its output, its error output, and whether it was late.
#[derive(Debug, Clone, Copy, PartialEq, Eq, Structural)]
pub struct PrintPlan {
    pub stdout: bool,
    pub stderr: bool,
    pub late: bool,
}

/// What is printed of a run.
pub fn print_plan(result: &ExecutionResult) -> (plan: PrintPlan)
    ensures
        plan.stdout == (result.stdout@.len() > 0),
        plan.stderr == (result.stderr@.len() > 0),
        plan.late == result.timed_out,
{
    PrintPlan {
        stdout: !is_empty(result.stdout.as_str()),
        stderr: !is_empty(result.stderr.as_str()),
        late: result.timed_out,
    }
}

/// The exit code of a run that came to nothing.
pub fn error_exit_code(error: &SandboxError) -> (code: i32)
    ensures
        code == if error@ is TimedOut {
            TIMEOUT_EXIT_CODE
        } else {
            1
        },
{
    match error {
        SandboxError::TimedOut => TIMEOUT_EXIT_CODE,
        _ => 1,
    }
}

} // verus!
