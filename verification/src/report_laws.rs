//! What a benchmark report says of its scenarios.
use crate::args::{BaselineSource, BenchArgs, BenchmarkProfile, OutputFormat, PolicyArgs};
use crate::backend::{preference_name, BackendPreference, CapabilityModel};
use crate::command::{planned, written_plan, PlanModel};
use crate::launch::HostOs;
use crate::report::{
    benchmark_settings, best_overall, capped, count_of, difference,
    fastest, is_compared, last_named, policy_settings, slowest, sum_of_averages, sums_up,
    tells_adoption, tells_benchmark, trues, worst_overall, AdoptionMetrics, BenchmarkReport,
    BenchmarkSummary, ReportFacts,
};
use crate::sampling::{FirstSuccess, ScenarioReport};
use crate::scenario::{
    main_profile_of, portable_scenarios_of, profile_name, scenarios_of, side_profiles,
};
use crate::text::texts;
use vstd::prelude::*;

verus! {

broadcast use vstd::seq::group_seq_axioms;

// ---------------------------------------------------------------------------
// Comparisons

/// The difference of two figures is the difference itself wherever it fits into sixty-four
/// bits with a sign, and always differs from it by a whole number of turns.
pub proof fn lemma_difference(a: u64, b: u64)
    ensures
        -0x8000_0000_0000_0000 <= difference(a, b) <= 0x7fff_ffff_ffff_ffff,
        -0x8000_0000_0000_0000 <= a - b <= 0x7fff_ffff_ffff_ffff ==> difference(a, b) == a - b,
        difference(a, b) == a - b || difference(a, b) == a - b + 0x1_0000_0000_0000_0000
            || difference(a, b) == a - b - 0x1_0000_0000_0000_0000,
{
}

/// A scenario is compared with the last of its name in the other report.
pub proof fn lemma_last_of_name(s: Seq<ScenarioReport>, name: Seq<char>)
    ensures
        last_named(s, name) matches Some(i) ==> 0 <= i < s.len() && s[i].name@ == name && (forall|
            j: int,
        |
            i < j < s.len() ==> (#[trigger] s[j]).name@ != name),
        last_named(s, name) is None ==> forall|j: int|
            0 <= j < s.len() ==> (#[trigger] s[j]).name@ != name,
    decreases s.len(),
{
    if s.len() > 0 && s.last().name@ != name {
        let t = s.drop_last();
        lemma_last_of_name(t, name);
        assert forall|j: int| 0 <= j < t.len() implies t[j] == #[trigger] s[j] by {}
    }
}

/// What a comparison says. It is made where the scenario has an average and the last scenario
/// of its name in the other report has one; it names that report and its average, tells by how
/// much this scenario is slower, and owes the two ratios except where they divide by zero. A
/// comparison changes nothing else of the scenario, and without one nothing is changed.
pub proof fn lemma_comparison(
    before: ScenarioReport,
    after: ScenarioReport,
    baseline: Seq<ScenarioReport>,
    label: Seq<char>,
    j: int,
)
    requires
        is_compared(before, after, baseline, label),
        0 <= j < baseline.len(),
        baseline[j].name@ == before.name@,
        forall|k: int| j < k < baseline.len() ==> (#[trigger] baseline[k]).name@ != before.name@,
    ensures
        after.name == before.name && after.description == before.description && after.command
            == before.command && after.samples_us == before.samples_us && after.average_us
            == before.average_us && after.best_us == before.best_us && after.worst_us
            == before.worst_us && after.success == before.success && after.timed_out
            == before.timed_out && after.exit_code == before.exit_code && after.stdout_bytes
            == before.stdout_bytes && after.stderr_bytes == before.stderr_bytes && after.error
            == before.error && after.notes == before.notes,
        before.average_us is None || baseline[j].average_us is None ==> after.comparison
            == before.comparison,
        before.average_us is Some && baseline[j].average_us is Some ==> {
            let (mine, other) = (before.average_us->0, baseline[j].average_us->0);
            &&& after.comparison is Some
            &&& after.comparison->0.baseline_label@ == label
            &&& after.comparison->0.baseline_average_us == other
            &&& -0x8000_0000_0000_0000 <= mine - other <= 0x7fff_ffff_ffff_ffff
                ==> after.comparison->0.delta_us == mine - other
            &&& after.comparison->0.delta_percent is Some <==> other != 0
            &&& after.comparison->0.speedup is Some <==> mine != 0
        },
{
    lemma_last_of_name(baseline, before.name@);
    let i = last_named(baseline, before.name@)->0;
    if i < j {
        assert(baseline[j].name@ != before.name@);
    }
    if j < i {
        assert(baseline[i].name@ != before.name@);
    }
}

/// A scenario whose name the other report does not have is not compared.
pub proof fn lemma_nothing_to_compare(
    before: ScenarioReport,
    after: ScenarioReport,
    baseline: Seq<ScenarioReport>,
    label: Seq<char>,
)
    requires
        is_compared(before, after, baseline, label),
        forall|k: int| 0 <= k < baseline.len() ==> (#[trigger] baseline[k]).name@ != before.name@,
    ensures
        after == before,
{
    lemma_last_of_name(baseline, before.name@);
    if let Some(i) = last_named(baseline, before.name@) {
        assert(baseline[i].name@ == before.name@);
    }
}

// ---------------------------------------------------------------------------
// Summaries

proof fn lemma_count_is_filter(s: Seq<ScenarioReport>, p: spec_fn(ScenarioReport) -> bool)
    ensures
        count_of(s, p) == s.filter(p).len(),
    decreases s.len(),
{
    reveal(Seq::filter);
    if s.len() > 0 {
        lemma_count_is_filter(s.drop_last(), p);
    }
}

/// The counts of a summary: of all scenarios, of those that succeeded, of those that did not,
/// and of those that were compared. The time of the first success is the one handed in.
pub proof fn lemma_summary_counts(
    summary: BenchmarkSummary,
    s: Seq<ScenarioReport>,
    first_us: Option<u64>,
)
    requires
        sums_up(summary, s, first_us),
    ensures
        summary.scenario_count == s.len(),
        summary.passed_scenarios == s.filter(|r: ScenarioReport| r.success).len(),
        summary.failed_scenarios == s.filter(|r: ScenarioReport| !r.success).len(),
        summary.matched_baseline_scenarios == s.filter(
            |r: ScenarioReport| r.comparison is Some,
        ).len(),
        summary.first_successful_run_us == first_us,
{
    lemma_count_is_filter(s, |r: ScenarioReport| r.success);
    lemma_count_is_filter(s, |r: ScenarioReport| !r.success);
    lemma_count_is_filter(s, |r: ScenarioReport| r.comparison is Some);
}

proof fn lemma_fastest(s: Seq<ScenarioReport>)
    ensures
        fastest(s) is None ==> forall|k: int|
            0 <= k < s.len() ==> (#[trigger] s[k]).average_us is None,
        fastest(s) matches Some(i) ==> 0 <= i < s.len() && s[i].average_us is Some && (forall|k: int|
            0 <= k < s.len() && (#[trigger] s[k]).average_us is Some ==> s[k].average_us->0
                >= s[i].average_us->0 && (k < i ==> s[k].average_us->0 > s[i].average_us->0)),
    decreases s.len(),
{
    if s.len() > 0 {
        let t = s.drop_last();
        lemma_fastest(t);
        assert forall|k: int| 0 <= k < t.len() implies t[k] == #[trigger] s[k] by {}
    }
}

proof fn lemma_slowest(s: Seq<ScenarioReport>)
    ensures
        slowest(s) is None ==> forall|k: int|
            0 <= k < s.len() ==> (#[trigger] s[k]).average_us is None,
        slowest(s) matches Some(i) ==> 0 <= i < s.len() && s[i].average_us is Some && (forall|k: int|
            0 <= k < s.len() && (#[trigger] s[k]).average_us is Some ==> s[k].average_us->0
                <= s[i].average_us->0 && (k < i ==> s[k].average_us->0 < s[i].average_us->0)),
    decreases s.len(),
{
    if s.len() > 0 {
        let t = s.drop_last();
        lemma_slowest(t);
        assert forall|k: int| 0 <= k < t.len() implies t[k] == #[trigger] s[k] by {}
    }
}

/// The fastest and the slowest scenario that a summary names: scenarios of the report under
/// their own names, with no other below or above them; of equals the first. A summary that
/// names none has no scenario with an average.
pub proof fn lemma_extremes_named(
    summary: BenchmarkSummary,
    s: Seq<ScenarioReport>,
    first_us: Option<u64>,
)
    requires
        sums_up(summary, s, first_us),
    ensures
        summary.fastest_scenario is Some <==> exists|k: int|
            0 <= k < s.len() && (#[trigger] s[k]).average_us is Some,
        summary.slowest_scenario is Some <==> exists|k: int|
            0 <= k < s.len() && (#[trigger] s[k]).average_us is Some,
        summary.fastest_scenario is Some ==> exists|i: int|
            0 <= i < s.len() && (#[trigger] s[i]).name@ == summary.fastest_scenario->0@
                && s[i].average_us is Some && s[i].average_us == summary.fastest_average_us && (
            forall|k: int|
                0 <= k < s.len() && (#[trigger] s[k]).average_us is Some ==> s[k].average_us->0
                    >= s[i].average_us->0 && (k < i ==> s[k].average_us->0 > s[i].average_us->0)),
        summary.slowest_scenario is Some ==> exists|i: int|
            0 <= i < s.len() && (#[trigger] s[i]).name@ == summary.slowest_scenario->0@
                && s[i].average_us is Some && s[i].average_us == summary.slowest_average_us && (
            forall|k: int|
                0 <= k < s.len() && (#[trigger] s[k]).average_us is Some ==> s[k].average_us->0
                    <= s[i].average_us->0 && (k < i ==> s[k].average_us->0 < s[i].average_us->0)),
{
    lemma_fastest(s);
    lemma_slowest(s);
    if let Some(i) = fastest(s) {
        assert(s[i].average_us is Some);
        assert(summary.fastest_scenario is Some);
        assert(s[i].name@ == summary.fastest_scenario->0@);
    }
    if let Some(i) = slowest(s) {
        assert(s[i].average_us is Some);
        assert(summary.slowest_scenario is Some);
        assert(s[i].name@ == summary.slowest_scenario->0@);
    }
}

proof fn lemma_overall(s: Seq<ScenarioReport>)
    ensures
        best_overall(s) is Some ==> exists|k: int|
            0 <= k < s.len() && (#[trigger] s[k]).best_us == best_overall(s),
        worst_overall(s) is Some ==> exists|k: int|
            0 <= k < s.len() && (#[trigger] s[k]).worst_us == worst_overall(s),
        forall|k: int|
            0 <= k < s.len() && (#[trigger] s[k]).best_us is Some ==> best_overall(s) is Some
                && best_overall(s)->0 <= s[k].best_us->0,
        forall|k: int|
            0 <= k < s.len() && (#[trigger] s[k]).worst_us is Some ==> worst_overall(s) is Some
                && worst_overall(s)->0 >= s[k].worst_us->0,
    decreases s.len(),
{
    if s.len() > 0 {
        let t = s.drop_last();
        lemma_overall(t);
        assert forall|k: int| 0 <= k < t.len() implies t[k] == #[trigger] s[k] by {}
        assert(s[s.len() - 1] == s.last());
        if best_overall(t) is Some {
            let k = choose|k: int| 0 <= k < t.len() && (#[trigger] t[k]).best_us == best_overall(t);
            assert(s[k].best_us == best_overall(t));
        }
        if worst_overall(t) is Some {
            let k = choose|k: int|
                0 <= k < t.len() && (#[trigger] t[k]).worst_us == worst_overall(t);
            assert(s[k].worst_us == worst_overall(t));
        }
    }
}

/// The best and the worst sample over all scenarios: each is one of some scenario, and no
/// scenario has a better or a worse one.
pub proof fn lemma_overall_range(
    summary: BenchmarkSummary,
    s: Seq<ScenarioReport>,
    first_us: Option<u64>,
)
    requires
        sums_up(summary, s, first_us),
    ensures
        summary.best_overall_us is Some ==> exists|k: int|
            0 <= k < s.len() && (#[trigger] s[k]).best_us == summary.best_overall_us,
        summary.worst_overall_us is Some ==> exists|k: int|
            0 <= k < s.len() && (#[trigger] s[k]).worst_us == summary.worst_overall_us,
        forall|k: int|
            0 <= k < s.len() && (#[trigger] s[k]).best_us is Some ==> summary.best_overall_us is Some
                && summary.best_overall_us->0 <= s[k].best_us->0,
        forall|k: int|
            0 <= k < s.len() && (#[trigger] s[k]).worst_us is Some ==> summary.worst_overall_us
                is Some && summary.worst_overall_us->0 >= s[k].worst_us->0,
{
    lemma_overall(s);
}

/// The sum of the averages: scenarios without an average count nothing, and two lists of
/// scenarios add up.
pub proof fn lemma_averages_add_up(s: Seq<ScenarioReport>, t: Seq<ScenarioReport>)
    ensures
        sum_of_averages(Seq::<ScenarioReport>::empty()) == 0,
        s.len() == 1 && s[0].average_us is Some ==> sum_of_averages(s) == s[0].average_us->0,
        s.len() == 1 && s[0].average_us is None ==> sum_of_averages(s) == 0,
        sum_of_averages(s + t) == sum_of_averages(s) + sum_of_averages(t),
    decreases t.len(),
{
    if s.len() == 1 {
        assert(s.drop_last() =~= Seq::<ScenarioReport>::empty());
        assert(sum_of_averages(s.drop_last()) == 0);
    }
    if t.len() == 0 {
        assert(s + t =~= s);
    } else {
        lemma_averages_add_up(s, t.drop_last());
        assert((s + t).drop_last() =~= s + t.drop_last());
    }
}

/// The average of the averages: it is told where a scenario has an average, and times their
/// number it misses their sum by less than that number, as long as the sum fits.
pub proof fn lemma_average_of_averages(
    summary: BenchmarkSummary,
    s: Seq<ScenarioReport>,
    first_us: Option<u64>,
)
    requires
        sums_up(summary, s, first_us),
    ensures
        ({
            let n = s.filter(|r: ScenarioReport| r.average_us is Some).len();
            &&& summary.average_of_averages_us is Some <==> n > 0
            &&& n > 0 && sum_of_averages(s) <= 0xffff_ffff_ffff_ffff ==> {
                let a = summary.average_of_averages_us->0;
                a * n <= sum_of_averages(s) < (a + 1) * n
            }
        }),
{
    let p = |r: ScenarioReport| r.average_us is Some;
    lemma_count_is_filter(s, p);
    let n = count_of(s, p);
    if n > 0 {
        let sum = capped(sum_of_averages(s));
        let a = sum / n;
        assert(a * n <= sum < (a + 1) * n) by (nonlinear_arith)
            requires
                n > 0,
                a == sum / n,
        ;
    }
}

// ---------------------------------------------------------------------------
// What the user had to say

spec fn one_if(fact: bool) -> nat {
    if fact {
        1
    } else {
        0
    }
}

proof fn lemma_trues_push(facts: Seq<bool>, fact: bool)
    ensures
        trues(facts.push(fact)) == trues(facts) + one_if(fact),
{
    assert(facts.push(fact).drop_last() =~= facts);
}

/// Facts are counted one by one.
pub proof fn lemma_facts_add_up(facts: Seq<bool>, fact: bool)
    ensures
        trues(Seq::<bool>::empty()) == 0,
        fact ==> trues(facts.push(fact)) == trues(facts) + 1,
        !fact ==> trues(facts.push(fact)) == trues(facts),
{
    lemma_trues_push(facts, fact);
}

/// The settings of the policy that count as said: each of the eleven that is not as it is by
/// default. A list without an entry says nothing.
pub proof fn lemma_policy_settings(args: PolicyArgs)
    ensures
        ({
            let f = policy_settings(args);
            &&& f.len() == 11
            &&& f[0] == args.config is Some
            &&& f[1] == (args.backend != BackendPreference::Auto)
            &&& f[2] == args.preset is Some
            &&& f[3] == args.level is Some
            &&& f[4] == (args.allow_net is Some && args.allow_net->0@.len() > 0)
            &&& f[5] == (args.allow_fs is Some && args.allow_fs->0@.len() > 0)
            &&& f[6] == (args.allow_env is Some && args.allow_env->0@.len() > 0)
            &&& f[7] == args.max_cpu is Some
            &&& f[8] == args.max_ram is Some
            &&& f[9] == args.max_disk is Some
            &&& f[10] == args.timeout is Some
        }),
{
}

/// The settings of the benchmark that count as said: each of the eleven that is not as it is
/// by default.
pub proof fn lemma_benchmark_settings(args: BenchArgs)
    ensures
        ({
            let f = benchmark_settings(args);
            &&& f.len() == 11
            &&& f[0] == (args.profile != BenchmarkProfile::Sequential)
            &&& f[1] == (args.stagger_delay_ms != 200)
            &&& f[2] == (args.format != OutputFormat::Text)
            &&& f[3] == (args.baseline_source != BaselineSource::Report)
            &&& f[4] == (args.baseline_label@ != "E2B-style"@)
            &&& f[5] == args.baseline_report is Some
            &&& f[6] == args.baseline_output is Some
            &&& f[7] == args.output is Some
            &&& f[8] == (args.peer_targets is Some && args.peer_targets->0@.len() > 0)
            &&& f[9] == (args.peer_image@ != "alpine:3.20"@)
            &&& f[10] == (args.e2b_timeout_secs != 300)
        }),
{
}

/// What is told of the effort: one step for the command itself, and one for each setting that
/// was said.
pub proof fn lemma_effort(adoption: AdoptionMetrics, args: BenchArgs, first: FirstSuccess)
    requires
        tells_adoption(adoption, args, first),
    ensures
        adoption.command_surface@ == "microbox run <command>"@,
        adoption.explicit_policy_flags == trues(policy_settings(args.policy)),
        adoption.explicit_benchmark_flags == trues(benchmark_settings(args)),
        adoption.setup_steps == 1 + adoption.explicit_policy_flags
            + adoption.explicit_benchmark_flags,
        adoption.friction_score == adoption.setup_steps,
        adoption.first_successful_run_us == first.run_us,
        adoption.first_successful_scenario == first.scenario,
{
}

// ---------------------------------------------------------------------------
// The report

/// What a report says of how it was made.
pub proof fn lemma_report_head(
    report: BenchmarkReport,
    facts: ReportFacts,
    args: BenchArgs,
    capabilities: CapabilityModel,
    profile: BenchmarkProfile,
    first: FirstSuccess,
)
    requires
        tells_benchmark(report, facts, args, capabilities, profile, first),
    ensures
        report.tool@ == facts.tool@,
        report.version@ == facts.version@,
        report.generated_at_unix == facts.generated_at_unix,
        report.platform@ == facts.os_name@ + "-"@ + facts.arch_name@ + "-"@ + facts.family_name@,
        report.policy_resolution_us == facts.policy_resolution_us,
        report.profile@ == profile_name(profile),
        report.backend_requested@ == preference_name(args.policy.backend),
        report.backend_selected@ == capabilities.name,
        report.backend_secure_enforcement == capabilities.secure_enforcement,
        texts(report.backend_notes@) == capabilities.notes,
        report.comparison_baseline@ == args.baseline_label@,
        args.iterations > 0 ==> report.iterations == args.iterations,
        args.iterations == 0 ==> report.iterations == 1,
        report.warmups == args.warmups,
        args.command@.len() == 0 ==> report.mode@ == "suite"@,
        args.command@.len() > 0 ==> report.mode@ == "custom-command"@,
        report.summary.scenario_count == report.scenarios@.len(),
        report.summary.first_successful_run_us == first.run_us,
        report.profile_reports@.len() == 0,
        args.baseline_source == BaselineSource::Report ==> report.baseline_report_path
            == args.baseline_report,
        args.baseline_source == BaselineSource::E2b ==> report.baseline_report_path
            == args.baseline_output,
{
}

// ---------------------------------------------------------------------------
// What is run

/// What a benchmark runs: the command of the user as it is planned, and no other; without
/// one, the three scenarios of the suite, which start a command that does nothing, write a
/// line through the shell, and write a file and remove it.
pub proof fn lemma_what_is_run(command: Seq<Seq<char>>, os: HostOs)
    ensures
        command.len() > 0 ==> {
            let s = scenarios_of(command, os);
            &&& s.len() == 1
            &&& s[0].name == "custom-command"@
            &&& s[0].command == planned(command)
        },
        command.len() == 0 ==> {
            let s = scenarios_of(command, os);
            &&& s.len() == 3
            &&& s[0].name == "startup-noop"@
            &&& s[1].name == "shell-echo"@
            &&& s[2].name == "workspace-write"@
            &&& s[1].command == (PlanModel::Shell { command: "echo microbox"@ })
            &&& os != HostOs::Windows ==> s[0].command == (PlanModel::Direct { argv: seq!["true"@] })
                && s[2].command == (PlanModel::Shell {
                command: "printf microbox > .microbox-bench-write && rm -f .microbox-bench-write"@,
            })
            &&& os == HostOs::Windows ==> s[0].command == (PlanModel::Direct {
                argv: seq!["cmd.exe"@, "/C"@, "exit"@, "0"@],
            }) && s[2].command == (PlanModel::Shell {
                command: "echo microbox> .microbox-bench-write && del /F /Q .microbox-bench-write"@,
            })
        },
{
}

/// What other sandboxes run: the command of the user as it is written for the shell, or the
/// three scenarios of the suite.
pub proof fn lemma_what_others_run(command: Seq<Seq<char>>)
    ensures
        command.len() > 0 ==> {
            let s = portable_scenarios_of(command);
            &&& s.len() == 1
            &&& s[0].name == "custom-command"@
            &&& s[0].command == written_plan(planned(command))
        },
        command.len() == 0 ==> {
            let s = portable_scenarios_of(command);
            &&& s.len() == 3
            &&& s[0].name == "startup-noop"@ && s[0].command == "true"@
            &&& s[1].name == "shell-echo"@ && s[1].command == "echo microbox"@
            &&& s[2].name == "workspace-write"@ && s[2].command
                == "printf microbox > .microbox-bench-write && rm -f .microbox-bench-write"@
        },
{
}

/// The profiles: one that is asked for is the main one; where all are, the first is, and each
/// of the three is measured beside it.
pub proof fn lemma_profiles(requested: BenchmarkProfile, p: BenchmarkProfile)
    ensures
        requested != BenchmarkProfile::All ==> main_profile_of(requested) == requested
            && side_profiles(requested).len() == 0,
        requested == BenchmarkProfile::All ==> main_profile_of(requested)
            == BenchmarkProfile::Sequential && side_profiles(requested).len() == 3 && (
        side_profiles(requested).contains(p) <==> p != BenchmarkProfile::All),
        profile_name(BenchmarkProfile::Sequential) == "sequential"@,
        profile_name(BenchmarkProfile::Staggered) == "staggered"@,
        profile_name(BenchmarkProfile::Burst) == "burst"@,
        profile_name(BenchmarkProfile::All) == "all"@,
{
    let s = side_profiles(BenchmarkProfile::All);
    assert(s[0] == BenchmarkProfile::Sequential && s[1] == BenchmarkProfile::Staggered && s[2]
        == BenchmarkProfile::Burst);
}

} // verus!
