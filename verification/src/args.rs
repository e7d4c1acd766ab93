//! What the command line says.
use crate::backend::BackendPreference;
use crate::errors::{policy_message, PolicyFault};
use crate::grants::{grants, parse_allow_fs_entry};
use crate::layers::{empty_layer, PolicyLayer, PolicyOverrides};
use crate::levels::{IsolationLevel, PresetKind};
use crate::lists::{append_list, copy_list, no_texts};
use crate::text::{opt_text, opt_texts, pieces, texts};
use vstd::prelude::*;

verus! {

broadcast use vstd::seq::group_seq_axioms;

/// The command line.
#[derive(Debug)]
pub struct Cli {
    pub command: Commands,
}

/// What is to be done.
#[derive(Debug)]
pub enum Commands {
    /// Run a command.
    Run(RunArgs),
    /// Check configuration and policy.
    Validate(ValidateArgs),
    /// Measure.
    Bench(BenchArgs),
    /// Tell what the machine is ready for.
    Doctor(DoctorArgs),
    /// Manage workspaces.
    Workspace(WorkspaceArgs),
}

/// What the command line says about the policy.
#[derive(Debug, Clone)]
pub struct PolicyArgs {
    pub config: Option<String>,
    pub backend: BackendPreference,
    pub preset: Option<PresetKind>,
    pub level: Option<IsolationLevel>,
    pub allow_net: Option<Vec<String>>,
    pub allow_fs: Option<Vec<String>>,
    pub allow_env: Option<Vec<String>>,
    pub max_cpu: Option<u32>,
    pub max_ram: Option<String>,
    pub max_disk: Option<String>,
    pub timeout: Option<String>,
}

impl Default for PolicyArgs {
    fn default() -> (args: Self)
        ensures
            args.config is None,
            args.backend == BackendPreference::Auto,
            args.preset is None,
            args.allow_fs is None,
            args.layer() == Ok::<PolicyLayer, Seq<char>>(empty_layer()),
    {
        PolicyArgs {
            config: None,
            backend: BackendPreference::Auto,
            preset: None,
            level: None,
            allow_net: None,
            allow_fs: None,
            allow_env: None,
            max_cpu: None,
            max_ram: None,
            max_disk: None,
            timeout: None,
        }
    }
}

/// The writable and the read-only paths that all entries grant, or what is wrong with the
/// first one that is no grant.
pub open spec fn all_grants(entries: Seq<Seq<char>>) -> Result<
    (Seq<Seq<char>>, Seq<Seq<char>>),
    Seq<char>,
>
    decreases entries.len(),
{
    if entries.len() == 0 {
        Ok((Seq::<Seq<char>>::empty(), Seq::<Seq<char>>::empty()))
    } else {
        match all_grants(entries.drop_last()) {
            Err(text) => Err(text),
            Ok((writable, readonly)) => match grants(pieces(entries.last(), ',')) {
                Err(mode) => Err(policy_message(PolicyFault::InvalidFilesystemAllowSpec(mode))),
                Ok((w, r)) => Ok((writable + w, readonly + r)),
            },
        }
    }
}

proof fn lemma_all_grants_error(entries: Seq<Seq<char>>, n: int)
    requires
        0 <= n <= entries.len(),
        all_grants(entries.take(n)) is Err,
    ensures
        all_grants(entries) == all_grants(entries.take(n)),
    decreases entries.len(),
{
    if n == entries.len() {
        assert(entries.take(n) =~= entries);
    } else {
        assert(entries.drop_last().take(n) =~= entries.take(n));
        lemma_all_grants_error(entries.drop_last(), n);
    }
}

fn collect_grants(entries: &Vec<String>) -> (r: Result<(Vec<String>, Vec<String>), String>)
    ensures
        match all_grants(texts(entries@)) {
            Ok((writable, readonly)) => r matches Ok((w, o)) && texts(w@) == writable && texts(o@)
                == readonly,
            Err(text) => r matches Err(e) && e@ == text,
        },
{
    let ghost all = texts(entries@);
    let mut writable = no_texts();
    let mut readonly = no_texts();
    assert(all_grants(all.take(0)) == Ok::<(Seq<Seq<char>>, Seq<Seq<char>>), Seq<char>>(
        (texts(writable@), texts(readonly@)),
    ));
    for i in 0..entries.len()
        invariant
            all == texts(entries@),
            all_grants(all.take(i as int)) == Ok::<(Seq<Seq<char>>, Seq<Seq<char>>), Seq<char>>(
                (texts(writable@), texts(readonly@)),
            ),
    {
        assert(all.take(i + 1).drop_last() =~= all.take(i as int));
        assert(all.take(i + 1).last() == entries@[i as int]@);
        match parse_allow_fs_entry(entries[i].as_str()) {
            Ok((w, o)) => {
                writable = append_list(writable, &w);
                readonly = append_list(readonly, &o);
            },
            Err(e) => {
                proof {
                    lemma_all_grants_error(all, i + 1);
                }
                return Err(e.message());
            },
        }
    }
    assert(all.take(all.len() as int) =~= all);
    Ok((writable, readonly))
}

impl PolicyArgs {
    /// The layer that the command line asks for, or what is wrong with a grant of paths.
    pub open spec fn layer(&self) -> Result<PolicyLayer, Seq<char>> {
        let paths = match self.allow_fs {
            Some(entries) => match all_grants(texts(entries@)) {
                Ok((w, r)) => Ok((Some(w), Some(r))),
                Err(text) => Err(text),
            },
            None => Ok((None, None)),
        };
        match paths {
            Err(text) => Err(text),
            Ok((writable, readonly)) => Ok(
                PolicyLayer {
                    level: self.level,
                    allow_net: opt_texts(self.allow_net),
                    network_deny_all_other: None,
                    filesystem_writable: writable,
                    filesystem_readonly: readonly,
                    filesystem_deny: None,
                    env_passthrough: opt_texts(self.allow_env),
                    env_deny: None,
                    max_cpu: self.max_cpu,
                    max_ram: opt_text(self.max_ram),
                    max_disk: opt_text(self.max_disk),
                    timeout: opt_text(self.timeout),
                },
            ),
        }
    }

    /// What the command line asks for. It can neither deny nor open up the network.
    pub fn to_overrides(&self) -> (r: Result<PolicyOverrides, String>)
        ensures
            match self.layer() {
                Ok(layer) => r matches Ok(overrides) && overrides@ == layer,
                Err(text) => r matches Err(e) && e@ == text,
            },
    {
        let (writable, readonly) = match &self.allow_fs {
            Some(entries) => match collect_grants(entries) {
                Ok((w, o)) => (Some(w), Some(o)),
                Err(text) => return Err(text),
            },
            None => (None, None),
        };
        Ok(
            PolicyOverrides {
                level: self.level,
                allow_net: match &self.allow_net {
                    Some(list) => Some(copy_list(list)),
                    None => None,
                },
                network_deny_all_other: None,
                filesystem_writable: writable,
                filesystem_readonly: readonly,
                filesystem_deny: None,
                env_passthrough: match &self.allow_env {
                    Some(list) => Some(copy_list(list)),
                    None => None,
                },
                env_deny: None,
                max_cpu: self.max_cpu,
                max_ram: match &self.max_ram {
                    Some(text) => Some(text.clone()),
                    None => None,
                },
                max_disk: match &self.max_disk {
                    Some(text) => Some(text.clone()),
                    None => None,
                },
                timeout: match &self.timeout {
                    Some(text) => Some(text.clone()),
                    None => None,
                },
            },
        )
    }
}

/// `run`: the policy and the command.
#[derive(Debug, Clone)]
pub struct RunArgs {
    pub policy: PolicyArgs,
    pub command: Vec<String>,
}

/// `validate`: the policy, and how the outcome is told.
#[derive(Debug, Clone)]
pub struct ValidateArgs {
    pub policy: PolicyArgs,
    pub format: DiagnosticFormat,
}

/// `doctor`: how the outcome is told.
#[derive(Debug, Clone)]
pub struct DoctorArgs {
    pub format: DiagnosticFormat,
}

/// `bench`: what is measured, how often, against what, and how it is told.
#[derive(Debug, Clone)]
pub struct BenchArgs {
    pub policy: PolicyArgs,
    pub profile: BenchmarkProfile,
    pub iterations: u32,
    pub warmups: u32,
    pub format: OutputFormat,
    pub baseline_source: BaselineSource,
    pub baseline_label: String,
    pub baseline_report: Option<String>,
    pub baseline_output: Option<String>,
    pub e2b_timeout_secs: u64,
    pub output: Option<String>,
    pub peer_targets: Option<Vec<PeerTarget>>,
    pub peer_image: String,
    pub stagger_delay_ms: u64,
    pub command: Vec<String>,
}

/// How a diagnosis is told.
#[derive(Debug, Clone, Copy, PartialEq, Eq, Structural)]
pub enum DiagnosticFormat {
    Text,
    Json,
}

/// How a benchmark report is told.
#[derive(Debug, Clone, Copy, PartialEq, Eq, Structural)]
pub enum OutputFormat {
    Text,
    Json,
    Markdown,
}

/// How the iterations of a benchmark are spread over time.
#[derive(Debug, Clone, Copy, PartialEq, Eq, Structural)]
pub enum BenchmarkProfile {
    Sequential,
    Staggered,
    Burst,
    All,
}

/// Where the report to compare with comes from.
#[derive(Debug, Clone, Copy, PartialEq, Eq, Structural)]
pub enum BaselineSource {
    Report,
    E2b,
}

/// Another sandbox to measure alongside.
#[derive(Debug, Clone, Copy, PartialEq, Eq, Hash, Structural)]
pub enum PeerTarget {
    Auto,
    E2b,
    Docker,
    Podman,
    Bubblewrap,
    Firejail,
}

/// `workspace`: where workspaces are kept, and what is to be done with them.
#[derive(Debug, Clone)]
pub struct WorkspaceArgs {
    pub home: Option<String>,
    pub command: WorkspaceCommand,
}

/// What is to be done with workspaces.
#[derive(Debug, Clone)]
pub enum WorkspaceCommand {
    Init(WorkspaceInitArgs),
    List(WorkspaceListArgs),
    Run(WorkspaceRunArgs),
    Snapshot(WorkspaceSnapshotArgs),
    Restore(WorkspaceRestoreArgs),
}

/// How an action on a workspace is told.
#[derive(Debug, Clone, Copy, PartialEq, Eq, Structural)]
pub enum WorkspaceFormat {
    Text,
    Json,
}

/// Make a workspace of a directory.
#[derive(Debug, Clone)]
pub struct WorkspaceInitArgs {
    pub name: String,
    pub source: Option<String>,
    pub format: WorkspaceFormat,
}

/// List the workspaces.
#[derive(Debug, Clone)]
pub struct WorkspaceListArgs {
    pub format: WorkspaceFormat,
}

/// Run a command in a workspace.
#[derive(Debug, Clone)]
pub struct WorkspaceRunArgs {
    pub name: String,
    pub policy: PolicyArgs,
    pub format: WorkspaceFormat,
    pub command: Vec<String>,
}

/// Keep the state of a workspace.
#[derive(Debug, Clone)]
pub struct WorkspaceSnapshotArgs {
    pub name: String,
    pub snapshot: String,
    pub format: WorkspaceFormat,
}

/// Bring a kept state back.
#[derive(Debug, Clone)]
pub struct WorkspaceRestoreArgs {
    pub name: String,
    pub snapshot: String,
    pub format: WorkspaceFormat,
}

} // verus!
