//! What a benchmark runs.
use crate::args::{BaselineSource, BenchArgs, BenchmarkProfile};
use crate::command::{escaped, is_plain_word, planned, written, written_plan, CommandPlan, PlanModel};
use crate::errors::{SandboxError, SandboxFault};
use crate::launch::HostOs;
use crate::lists::{copy_list, one_text, two_texts};
use crate::text::{joined, texts};
use vstd::prelude::*;

verus! {

broadcast use vstd::seq::group_seq_axioms;

/// A scenario of the benchmark.
#[derive(Debug, Clone)]
pub struct BenchmarkScenario {
    pub name: String,
    pub description: String,
    pub command: CommandPlan,
    pub notes: Vec<String>,
}

/// A scenario as a line for the shell, to run in any sandbox.
#[derive(Debug, Clone)]
pub struct PortableScenario {
    pub name: String,
    pub description: String,
    pub command: String,
    pub notes: Vec<String>,
}

/// A scenario as it is sent to a hosted sandbox.
#[derive(Debug, Clone)]
pub struct RemoteScenarioSpec {
    pub name: String,
    pub description: String,
    pub command: String,
    pub notes: Vec<String>,
}

/// The contents of a scenario; `C` is its command.
pub struct ScenarioModel<C> {
    pub name: Seq<char>,
    pub description: Seq<char>,
    pub command: C,
    pub notes: Seq<Seq<char>>,
}

impl View for BenchmarkScenario {
    type V = ScenarioModel<PlanModel>;

    open spec fn view(&self) -> ScenarioModel<PlanModel> {
        ScenarioModel {
            name: self.name@,
            description: self.description@,
            command: self.command@,
            notes: texts(self.notes@),
        }
    }
}

impl View for PortableScenario {
    type V = ScenarioModel<Seq<char>>;

    open spec fn view(&self) -> ScenarioModel<Seq<char>> {
        ScenarioModel {
            name: self.name@,
            description: self.description@,
            command: self.command@,
            notes: texts(self.notes@),
        }
    }
}

impl View for RemoteScenarioSpec {
    type V = ScenarioModel<Seq<char>>;

    open spec fn view(&self) -> ScenarioModel<Seq<char>> {
        ScenarioModel {
            name: self.name@,
            description: self.description@,
            command: self.command@,
            notes: texts(self.notes@),
        }
    }
}

/// The contents of a list of scenarios.
pub open spec fn scenario_views(v: Seq<BenchmarkScenario>) -> Seq<ScenarioModel<PlanModel>> {
    Seq::new(v.len(), |i: int| v[i]@)
}

/// The contents of a list of portable scenarios.
pub open spec fn portable_views(v: Seq<PortableScenario>) -> Seq<ScenarioModel<Seq<char>>> {
    Seq::new(v.len(), |i: int| v[i]@)
}

/// The contents of a list of scenarios for a hosted sandbox.
pub open spec fn remote_views(v: Seq<RemoteScenarioSpec>) -> Seq<ScenarioModel<Seq<char>>> {
    Seq::new(v.len(), |i: int| v[i]@)
}

/// The command that only starts and ends.
pub open spec fn noop_plan(os: HostOs) -> PlanModel {
    if os == HostOs::Windows {
        PlanModel::Direct { argv: seq!["cmd.exe"@, "/C"@, "exit"@, "0"@] }
    } else {
        PlanModel::Direct { argv: seq!["true"@] }
    }
}

/// The command that writes a file and removes it.
pub open spec fn write_plan(os: HostOs) -> PlanModel {
    if os == HostOs::Windows {
        PlanModel::Shell {
            command: "echo microbox> .microbox-bench-write && del /F /Q .microbox-bench-write"@,
        }
    } else {
        PlanModel::Shell {
            command: "printf microbox > .microbox-bench-write && rm -f .microbox-bench-write"@,
        }
    }
}

/// The scenario of a command that the user gives.
pub open spec fn custom_scenario<C>(command: C) -> ScenarioModel<C> {
    ScenarioModel {
        name: "custom-command"@,
        description: "User-supplied benchmark command"@,
        command,
        notes: seq!["Benchmarks the exact command path the user provided."@],
    }
}

/// The three scenarios of the suite, with these commands.
pub open spec fn suite<C>(noop: C, echo: C, write: C) -> Seq<ScenarioModel<C>> {
    seq![
        ScenarioModel {
            name: "startup-noop"@,
            description: "Pure launch overhead for a successful no-op command"@,
            command: noop,
            notes: seq![
                "Approximates the minimum cost of launching a sandboxed command."@,
                "Useful for comparing spawn overhead across backends."@,
            ],
        },
        ScenarioModel {
            name: "shell-echo"@,
            description: "Shell entrypoint and stdout roundtrip"@,
            command: echo,
            notes: seq![
                "Represents zero-change DX where users keep their original shell workflow."@,
                "Exercises shell parsing and output plumbing."@,
            ],
        },
        ScenarioModel {
            name: "workspace-write"@,
            description: "Writable workspace roundtrip"@,
            command: write,
            notes: seq![
                "Confirms the default code-edit friendly workspace policy."@,
                "Matches the 'run code without modifying source' onboarding path."@,
            ],
        },
    ]
}

/// The scenarios of a benchmark: the command that the user gives, else the suite.
pub open spec fn scenarios_of(command: Seq<Seq<char>>, os: HostOs) -> Seq<ScenarioModel<PlanModel>> {
    if command.len() > 0 {
        seq![custom_scenario(planned(command))]
    } else {
        suite(noop_plan(os), PlanModel::Shell { command: "echo microbox"@ }, write_plan(os))
    }
}

/// The scenarios of a benchmark as lines for the shell.
pub open spec fn portable_scenarios_of(command: Seq<Seq<char>>) -> Seq<ScenarioModel<Seq<char>>> {
    if command.len() > 0 {
        seq![custom_scenario(written_plan(planned(command)))]
    } else {
        suite(
            "true"@,
            "echo microbox"@,
            "printf microbox > .microbox-bench-write && rm -f .microbox-bench-write"@,
        )
    }
}

/// Every sandbox runs the same: off Windows, each portable scenario is the scenario of the
/// same name, written for the shell.
pub proof fn lemma_portable_scenarios_are_the_scenarios(command: Seq<Seq<char>>, os: HostOs, i: int)
    requires
        os != HostOs::Windows,
        0 <= i < scenarios_of(command, os).len(),
    ensures
        portable_scenarios_of(command).len() == scenarios_of(command, os).len(),
        portable_scenarios_of(command)[i] == (ScenarioModel {
            name: scenarios_of(command, os)[i].name,
            description: scenarios_of(command, os)[i].description,
            command: written_plan(scenarios_of(command, os)[i].command),
            notes: scenarios_of(command, os)[i].notes,
        }),
{
    if command.len() == 0 && i == 0 {
        let word = "true"@;
        reveal_strlit("true");
        assert(is_plain_word(word));
        let argv = seq![word];
        assert(argv.map_values(|arg: Seq<char>| escaped(arg)) =~= argv);
        assert(written(argv) == joined(argv, " "@));
        assert(joined(argv, " "@) == word);
    }
}

/// The command that only starts and ends.
pub fn startup_noop_command(os: HostOs) -> (plan: CommandPlan)
    ensures
        plan@ == noop_plan(os),
{
    match os {
        HostOs::Windows => {
            let argv: Vec<String> = vec![
                "cmd.exe".to_string(),
                "/C".to_string(),
                "exit".to_string(),
                "0".to_string(),
            ];
            assert(texts(argv@) =~= seq!["cmd.exe"@, "/C"@, "exit"@, "0"@]);
            CommandPlan::Direct { argv }
        },
        _ => CommandPlan::Direct { argv: one_text("true") },
    }
}

/// The command that writes a file and removes it.
pub fn workspace_write_command(os: HostOs) -> (plan: CommandPlan)
    ensures
        plan@ == write_plan(os),
{
    match os {
        HostOs::Windows => CommandPlan::Shell {
            command: "echo microbox> .microbox-bench-write && del /F /Q .microbox-bench-write".to_string(),
        },
        _ => CommandPlan::Shell {
            command: "printf microbox > .microbox-bench-write && rm -f .microbox-bench-write".to_string(),
        },
    }
}

/// A plan as a line for the shell.
pub fn portable_command_string(plan: &CommandPlan) -> (out: String)
    ensures
        out@ == written_plan(plan@),
{
    plan.display()
}

/// The scenarios of a benchmark.
pub fn build_scenarios(args: &BenchArgs, os: HostOs) -> (r: Result<
    Vec<BenchmarkScenario>,
    SandboxError,
>)
    ensures
        r matches Ok(list) && scenario_views(list@) == scenarios_of(texts(args.command@), os),
{
    assert(texts(args.command@).len() == args.command.len());
    if args.command.len() > 0 {
        let command = match CommandPlan::from_raw(copy_list(&args.command)) {
            Ok(command) => command,
            Err(e) => return Err(e),
        };
        let list: Vec<BenchmarkScenario> = vec![
            BenchmarkScenario {
                name: "custom-command".to_string(),
                description: "User-supplied benchmark command".to_string(),
                command,
                notes: one_text("Benchmarks the exact command path the user provided."),
            },
        ];
        assert(scenario_views(list@) =~= scenarios_of(texts(args.command@), os));
        return Ok(list);
    }
    let list: Vec<BenchmarkScenario> = vec![
        BenchmarkScenario {
            name: "startup-noop".to_string(),
            description: "Pure launch overhead for a successful no-op command".to_string(),
            command: startup_noop_command(os),
            notes: two_texts(
                "Approximates the minimum cost of launching a sandboxed command.",
                "Useful for comparing spawn overhead across backends.",
            ),
        },
        BenchmarkScenario {
            name: "shell-echo".to_string(),
            description: "Shell entrypoint and stdout roundtrip".to_string(),
            command: CommandPlan::Shell { command: "echo microbox".to_string() },
            notes: two_texts(
                "Represents zero-change DX where users keep their original shell workflow.",
                "Exercises shell parsing and output plumbing.",
            ),
        },
        BenchmarkScenario {
            name: "workspace-write".to_string(),
            description: "Writable workspace roundtrip".to_string(),
            command: workspace_write_command(os),
            notes: two_texts(
                "Confirms the default code-edit friendly workspace policy.",
                "Matches the 'run code without modifying source' onboarding path.",
            ),
        },
    ];
    assert(scenario_views(list@) =~= scenarios_of(texts(args.command@), os));
    Ok(list)
}

/// The scenarios of a benchmark as lines for the shell.
pub fn build_portable_scenarios(args: &BenchArgs) -> (r: Result<Vec<PortableScenario>, SandboxError>)
    ensures
        r matches Ok(list) && portable_views(list@) == portable_scenarios_of(
            texts(args.command@),
        ),
{
    assert(texts(args.command@).len() == args.command.len());
    if args.command.len() > 0 {
        let plan = match CommandPlan::from_raw(copy_list(&args.command)) {
            Ok(plan) => plan,
            Err(e) => return Err(e),
        };
        let list: Vec<PortableScenario> = vec![
            PortableScenario {
                name: "custom-command".to_string(),
                description: "User-supplied benchmark command".to_string(),
                command: portable_command_string(&plan),
                notes: one_text("Benchmarks the exact command path the user provided."),
            },
        ];
        assert(portable_views(list@) =~= portable_scenarios_of(texts(args.command@)));
        return Ok(list);
    }
    let list: Vec<PortableScenario> = vec![
        PortableScenario {
            name: "startup-noop".to_string(),
            description: "Pure launch overhead for a successful no-op command".to_string(),
            command: "true".to_string(),
            notes: two_texts(
                "Approximates the minimum cost of launching a sandboxed command.",
                "Useful for comparing spawn overhead across backends.",
            ),
        },
        PortableScenario {
            name: "shell-echo".to_string(),
            description: "Shell entrypoint and stdout roundtrip".to_string(),
            command: "echo microbox".to_string(),
            notes: two_texts(
                "Represents zero-change DX where users keep their original shell workflow.",
                "Exercises shell parsing and output plumbing.",
            ),
        },
        PortableScenario {
            name: "workspace-write".to_string(),
            description: "Writable workspace roundtrip".to_string(),
            command: "printf microbox > .microbox-bench-write && rm -f .microbox-bench-write".to_string(),
            notes: two_texts(
                "Confirms the default code-edit friendly workspace policy.",
                "Matches the 'run code without modifying source' onboarding path.",
            ),
        },
    ];
    assert(portable_views(list@) =~= portable_scenarios_of(texts(args.command@)));
    Ok(list)
}

/// The scenarios as they are sent to a hosted sandbox.
pub fn portable_scenarios_to_specs(scenarios: &Vec<PortableScenario>) -> (out: Vec<
    RemoteScenarioSpec,
>)
    ensures
        remote_views(out@) == portable_views(scenarios@),
{
    let mut out: Vec<RemoteScenarioSpec> = Vec::new();
    for i in 0..scenarios.len()
        invariant
            out.len() == i,
            forall|j: int| 0 <= j < i ==> out@[j]@ == #[trigger] scenarios@[j]@,
    {
        let scenario = &scenarios[i];
        out.push(
            RemoteScenarioSpec {
                name: scenario.name.clone(),
                description: scenario.description.clone(),
                command: scenario.command.clone(),
                notes: copy_list(&scenario.notes),
            },
        );
    }
    assert(remote_views(out@) =~= portable_views(scenarios@));
    out
}

// ---------------------------------------------------------------------------
// Scheduling

/// The name of a profile.
pub open spec fn profile_name(profile: BenchmarkProfile) -> Seq<char> {
    match profile {
        BenchmarkProfile::Sequential => "sequential"@,
        BenchmarkProfile::Staggered => "staggered"@,
        BenchmarkProfile::Burst => "burst"@,
        BenchmarkProfile::All => "all"@,
    }
}

/// The name of a profile.
pub fn benchmark_profile_label(profile: BenchmarkProfile) -> (out: String)
    ensures
        out@ == profile_name(profile),
{
    match profile {
        BenchmarkProfile::Sequential => "sequential".to_string(),
        BenchmarkProfile::Staggered => "staggered".to_string(),
        BenchmarkProfile::Burst => "burst".to_string(),
        BenchmarkProfile::All => "all".to_string(),
    }
}

/// The profiles that are measured besides the main one: each of the three where all are
/// asked for.
pub open spec fn side_profiles(requested: BenchmarkProfile) -> Seq<BenchmarkProfile> {
    if requested == BenchmarkProfile::All {
        seq![BenchmarkProfile::Sequential, BenchmarkProfile::Staggered, BenchmarkProfile::Burst]
    } else {
        Seq::<BenchmarkProfile>::empty()
    }
}

/// The profile of the main report.
pub open spec fn main_profile_of(requested: BenchmarkProfile) -> BenchmarkProfile {
    if requested == BenchmarkProfile::All {
        BenchmarkProfile::Sequential
    } else {
        requested
    }
}

/// The profiles that are measured besides the main one.
pub fn extra_profiles(requested: BenchmarkProfile) -> (out: Vec<BenchmarkProfile>)
    ensures
        out@ == side_profiles(requested),
{
    match requested {
        BenchmarkProfile::All => {
            let out: Vec<BenchmarkProfile> = vec![
                BenchmarkProfile::Sequential,
                BenchmarkProfile::Staggered,
                BenchmarkProfile::Burst,
            ];
            assert(out@ =~= side_profiles(requested));
            out
        },
        _ => Vec::new(),
    }
}

/// The profile of the main report; never the one that stands for all.
pub fn main_profile(requested: BenchmarkProfile) -> (profile: BenchmarkProfile)
    ensures
        profile == main_profile_of(requested),
        profile != BenchmarkProfile::All,
{
    match requested {
        BenchmarkProfile::All => BenchmarkProfile::Sequential,
        BenchmarkProfile::Sequential => BenchmarkProfile::Sequential,
        BenchmarkProfile::Staggered => BenchmarkProfile::Staggered,
        BenchmarkProfile::Burst => BenchmarkProfile::Burst,
    }
}

/// How the iterations of a profile are run.
#[derive(Debug, Clone, Copy, PartialEq, Eq, Structural)]
pub enum Schedule {
    /// One after the other, with pauses of that many milliseconds between them.
    InTurn { pause_ms: u64 },
    /// All at once.
    AtOnce,
}

/// How the iterations of a profile are run; the one that stands for all is spread out
/// before.
pub fn schedule(profile: BenchmarkProfile, stagger_delay_ms: u64) -> (s: Schedule)
    requires
        profile != BenchmarkProfile::All,
    ensures
        s == match profile {
            BenchmarkProfile::Staggered => Schedule::InTurn { pause_ms: stagger_delay_ms },
            BenchmarkProfile::Burst => Schedule::AtOnce,
            _ => Schedule::InTurn { pause_ms: 0 },
        },
{
    match profile {
        BenchmarkProfile::Staggered => Schedule::InTurn { pause_ms: stagger_delay_ms },
        BenchmarkProfile::Burst => Schedule::AtOnce,
        _ => Schedule::InTurn { pause_ms: 0 },
    }
}

/// Whether there is a pause behind iteration `index`: behind every one but the last.
pub fn pauses_after(index: u32, iterations: u32) -> (r: bool)
    ensures
        r == (index + 1 < iterations),
{
    index < iterations && iterations - index > 1
}

/// At least one iteration.
pub fn effective_iterations(iterations: u32) -> (n: u32)
    ensures
        n == if iterations == 0 {
            1
        } else {
            iterations
        },
{
    if iterations == 0 {
        1
    } else {
        iterations
    }
}

/// Refuses to compare a command of the user's with a hosted sandbox.
pub fn check_baseline(args: &BenchArgs) -> (r: Result<(), SandboxError>)
    ensures
        if args.baseline_source == BaselineSource::E2b && args.command@.len() > 0 {
            r matches Err(e) && e@ == SandboxFault::BackendUnavailable(
                "E2B baseline comparison currently supports the built-in benchmark suite only"@,
            )
        } else {
            r == Ok::<(), SandboxError>(())
        },
{
    match args.baseline_source {
        BaselineSource::E2b => {
            if args.command.len() > 0 {
                return Err(
                    SandboxError::BackendUnavailable(
                        "E2B baseline comparison currently supports the built-in benchmark suite only".to_string(),
                    ),
                );
            }
        },
        BaselineSource::Report => {},
    }
    Ok(())
}

} // verus!
