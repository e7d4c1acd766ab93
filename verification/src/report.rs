//! Benchmark reports: comparing scenarios, summing them up, and putting a report together.
use crate::args::{BaselineSource, BenchArgs, BenchmarkProfile, OutputFormat, PolicyArgs};
use crate::backend::{preference_name, BackendCapabilities, BackendPreference, CapabilityModel};
use crate::lists::copy_list;
use crate::sampling::{FirstSuccess, Ratio, ScenarioComparison, ScenarioReport};
use crate::scenario::{benchmark_profile_label, effective_iterations, profile_name};
use crate::text::{concat, opt_text, same_text, texts};
use vstd::prelude::*;

verus! {

broadcast use vstd::seq::group_seq_axioms;

/// What a benchmark came to.
#[derive(Debug)]
pub struct BenchmarkReport {
    pub tool: String,
    pub version: String,
    pub generated_at_unix: u64,
    pub platform: String,
    pub profile: String,
    pub backend_requested: String,
    pub backend_selected: String,
    pub backend_secure_enforcement: bool,
    pub backend_notes: Vec<String>,
    pub comparison_baseline: String,
    pub policy_resolution_us: u64,
    pub iterations: u32,
    pub warmups: u32,
    pub mode: String,
    pub adoption: AdoptionMetrics,
    pub summary: BenchmarkSummary,
    pub scenarios: Vec<ScenarioReport>,
    pub peer_reports: Vec<PeerBenchmarkReport>,
    pub profile_reports: Vec<ProfileBenchmarkReport>,
    pub baseline_report_path: Option<String>,
}

/// What a benchmark came to under one profile.
#[derive(Debug, Clone)]
pub struct ProfileBenchmarkReport {
    pub profile: String,
    pub summary: BenchmarkSummary,
    pub scenarios: Vec<ScenarioReport>,
}

/// What a benchmark came to in another sandbox.
#[derive(Debug)]
pub struct PeerBenchmarkReport {
    pub target: String,
    pub available: bool,
    pub reason: Option<String>,
    pub report: Option<Box<BenchmarkReport>>,
}

/// How much a user had to say before the first success.
#[derive(Debug, Clone)]
pub struct AdoptionMetrics {
    pub command_surface: String,
    pub explicit_policy_flags: usize,
    pub explicit_benchmark_flags: usize,
    pub setup_steps: usize,
    pub friction_score: usize,
    pub first_successful_run_us: Option<u64>,
    pub first_successful_scenario: Option<String>,
}

/// The figures over all scenarios.
#[derive(Debug, Clone)]
pub struct BenchmarkSummary {
    pub scenario_count: usize,
    pub passed_scenarios: usize,
    pub failed_scenarios: usize,
    pub matched_baseline_scenarios: usize,
    pub average_of_averages_us: Option<u64>,
    pub fastest_scenario: Option<String>,
    pub fastest_average_us: Option<u64>,
    pub slowest_scenario: Option<String>,
    pub slowest_average_us: Option<u64>,
    pub best_overall_us: Option<u64>,
    pub worst_overall_us: Option<u64>,
    pub first_successful_run_us: Option<u64>,
}

// ---------------------------------------------------------------------------
// Comparisons

/// `a - b` in 64 bits: the difference itself wherever it fits, else what is left of it
/// when it wraps around.
pub open spec fn difference(a: u64, b: u64) -> int {
    let d = a - b;
    if d > i64::MAX {
        d - 0x1_0000_0000_0000_0000
    } else if d < i64::MIN {
        d + 0x1_0000_0000_0000_0000
    } else {
        d
    }
}

/// `a - b` in 64 bits.
pub fn signed_difference(a: u64, b: u64) -> (d: i64)
    ensures
        d == difference(a, b),
{
    if a >= b {
        let up: u64 = a - b;
        if up <= 0x7fff_ffff_ffff_ffff {
            up as i64
        } else {
            -((u64::MAX - up) as i64) - 1
        }
    } else {
        let down: u64 = b - a;
        if down <= 0x7fff_ffff_ffff_ffff {
            -(down as i64)
        } else {
            let wrapped: u64 = u64::MAX - down;
            if wrapped == 0x7fff_ffff_ffff_ffff {
                i64::MIN
            } else {
                wrapped as i64 + 1
            }
        }
    }
}

/// The last scenario of that name.
pub open spec fn last_named(s: Seq<ScenarioReport>, name: Seq<char>) -> Option<int>
    decreases s.len(),
{
    if s.len() == 0 {
        None
    } else if s.last().name@ == name {
        Some(s.len() - 1)
    } else {
        last_named(s.drop_last(), name)
    }
}

/// The average of the baseline's scenario of that name.
pub open spec fn baseline_average(baseline: Seq<ScenarioReport>, name: Seq<char>) -> Option<u64> {
    match last_named(baseline, name) {
        Some(i) => baseline[i].average_us,
        None => None,
    }
}

/// A ratio over that divisor: owed, unless the divisor is zero.
pub open spec fn owed_over(divisor: u64) -> Option<Ratio> {
    if divisor == 0 {
        None
    } else {
        Some(Ratio::Owed)
    }
}

/// `new` is `old` compared with the baseline: where both have an average, with the
/// baseline's, the difference, and the ratios that are owed: the difference over the
/// baseline's average, and the baseline's average over this one; else as it was.
pub open spec fn is_compared(
    old_report: ScenarioReport,
    new_report: ScenarioReport,
    baseline: Seq<ScenarioReport>,
    label: Seq<char>,
) -> bool {
    match (old_report.average_us, baseline_average(baseline, old_report.name@)) {
        (Some(current), Some(base)) => {
            &&& new_report == ScenarioReport { comparison: new_report.comparison, ..old_report }
            &&& new_report.comparison matches Some(c) && {
                &&& c.baseline_label@ == label
                &&& c.baseline_average_us == base
                &&& c.delta_us == difference(current, base)
                &&& c.delta_percent == owed_over(base)
                &&& c.speedup == owed_over(current)
            }
        },
        _ => new_report == old_report,
    }
}

fn ratio_over(divisor: u64) -> (out: Option<Ratio>)
    ensures
        out == owed_over(divisor),
{
    if divisor == 0 {
        None
    } else {
        Some(Ratio::Owed)
    }
}

fn find_average(baseline: &Vec<ScenarioReport>, name: &str) -> (out: Option<u64>)
    ensures
        out == baseline_average(baseline@, name@),
{
    let ghost all = baseline@;
    let mut n: usize = baseline.len();
    assert(all.take(n as int) =~= all);
    while n > 0
        invariant
            n <= baseline.len(),
            all == baseline@,
            last_named(all, name@) == last_named(all.take(n as int), name@),
        decreases n,
    {
        assert(all.take(n as int).last() == all[n - 1]);
        assert(all.take(n as int).drop_last() =~= all.take(n - 1));
        if same_text(baseline[n - 1].name.as_str(), name) {
            return baseline[n - 1].average_us;
        }
        n -= 1;
    }
    None
}

/// The scenarios, each compared with the baseline's of the same name. The ratios that are
/// owed are left to be written.
pub fn attach_comparisons(
    reports: Vec<ScenarioReport>,
    baseline: Option<&Vec<ScenarioReport>>,
    baseline_label: &str,
) -> (out: Vec<ScenarioReport>)
    ensures
        match baseline {
            None => out@ == reports@,
            Some(base) => out.len() == reports.len() && forall|i: int|
                0 <= i < reports.len() ==> is_compared(
                    reports@[i],
                    #[trigger] out@[i],
                    base@,
                    baseline_label@,
                ),
        },
{
    let base = match baseline {
        Some(base) => base,
        None => return reports,
    };
    let ghost all = reports@;
    let mut rest = reports;
    let mut out: Vec<ScenarioReport> = Vec::new();
    assert(all.skip(0) =~= all);
    while rest.len() > 0
        invariant
            out.len() <= all.len(),
            rest@ == all.skip(out.len() as int),
            forall|i: int|
                0 <= i < out.len() ==> is_compared(
                    all[i],
                    #[trigger] out@[i],
                    base@,
                    baseline_label@,
                ),
        decreases rest.len(),
    {
        let ghost done = out.len() as int;
        let mut report = rest.remove(0);
        assert(report == all[done]);
        if let Some(current) = report.average_us {
            if let Some(average) = find_average(base, report.name.as_str()) {
                report.comparison = Some(
                    ScenarioComparison {
                        baseline_label: baseline_label.to_string(),
                        baseline_average_us: average,
                        delta_us: signed_difference(current, average),
                        delta_percent: ratio_over(average),
                        speedup: ratio_over(current),
                    },
                );
            }
        }
        assert(is_compared(all[done], report, base@, baseline_label@));
        out.push(report);
        assert(rest@ =~= all.skip(done + 1));
    }
    out
}

// ---------------------------------------------------------------------------
// Summaries

/// The number of scenarios that satisfy `p`.
pub open spec fn count_of(s: Seq<ScenarioReport>, p: spec_fn(ScenarioReport) -> bool) -> nat
    decreases s.len(),
{
    if s.len() == 0 {
        0
    } else {
        count_of(s.drop_last(), p) + if p(s.last()) {
            1nat
        } else {
            0
        }
    }
}

/// The sum of the averages.
pub open spec fn sum_of_averages(s: Seq<ScenarioReport>) -> nat
    decreases s.len(),
{
    if s.len() == 0 {
        0
    } else {
        sum_of_averages(s.drop_last()) + match s.last().average_us {
            Some(a) => a as nat,
            None => 0,
        }
    }
}

/// The first scenario with the smallest average.
pub open spec fn fastest(s: Seq<ScenarioReport>) -> Option<int>
    decreases s.len(),
{
    if s.len() == 0 {
        None
    } else {
        match (fastest(s.drop_last()), s.last().average_us) {
            (None, Some(_)) => Some(s.len() - 1),
            (Some(i), Some(a)) => if a < s[i].average_us->0 {
                Some(s.len() - 1)
            } else {
                Some(i)
            },
            (before, None) => before,
        }
    }
}

/// The first scenario with the largest average.
pub open spec fn slowest(s: Seq<ScenarioReport>) -> Option<int>
    decreases s.len(),
{
    if s.len() == 0 {
        None
    } else {
        match (slowest(s.drop_last()), s.last().average_us) {
            (None, Some(_)) => Some(s.len() - 1),
            (Some(i), Some(a)) => if a > s[i].average_us->0 {
                Some(s.len() - 1)
            } else {
                Some(i)
            },
            (before, None) => before,
        }
    }
}

/// The smaller of two figures, where there are two.
pub open spec fn smaller_of(a: Option<u64>, b: Option<u64>) -> Option<u64> {
    match (a, b) {
        (Some(x), Some(y)) => if y < x {
            Some(y)
        } else {
            Some(x)
        },
        (None, _) => b,
        (_, None) => a,
    }
}

/// The larger of two figures, where there are two.
pub open spec fn larger_of(a: Option<u64>, b: Option<u64>) -> Option<u64> {
    match (a, b) {
        (Some(x), Some(y)) => if y > x {
            Some(y)
        } else {
            Some(x)
        },
        (None, _) => b,
        (_, None) => a,
    }
}

/// The best sample of all scenarios.
pub open spec fn best_overall(s: Seq<ScenarioReport>) -> Option<u64>
    decreases s.len(),
{
    if s.len() == 0 {
        None
    } else {
        smaller_of(best_overall(s.drop_last()), s.last().best_us)
    }
}

/// The worst sample of all scenarios.
pub open spec fn worst_overall(s: Seq<ScenarioReport>) -> Option<u64>
    decreases s.len(),
{
    if s.len() == 0 {
        None
    } else {
        larger_of(worst_overall(s.drop_last()), s.last().worst_us)
    }
}

/// The sum, or the largest `u64` where that is smaller.
pub open spec fn capped(n: nat) -> nat {
    if n <= u64::MAX {
        n
    } else {
        u64::MAX as nat
    }
}

/// The name and the average of a scenario.
pub open spec fn named_average(s: Seq<ScenarioReport>, at: Option<int>) -> (
    Option<Seq<char>>,
    Option<u64>,
) {
    match at {
        Some(i) => (Some(s[i].name@), s[i].average_us),
        None => (None, None),
    }
}

/// The summary has the figures of the scenarios.
pub open spec fn sums_up(
    summary: BenchmarkSummary,
    s: Seq<ScenarioReport>,
    first_us: Option<u64>,
) -> bool {
    let averages = count_of(s, |r: ScenarioReport| r.average_us is Some);
    &&& summary.scenario_count == s.len()
    &&& summary.passed_scenarios == count_of(s, |r: ScenarioReport| r.success)
    &&& summary.failed_scenarios == count_of(s, |r: ScenarioReport| !r.success)
    &&& summary.matched_baseline_scenarios == count_of(s, |r: ScenarioReport| r.comparison is Some)
    &&& match summary.average_of_averages_us {
        Some(a) => averages > 0 && a == capped(sum_of_averages(s)) / averages,
        None => averages == 0,
    }
    &&& (opt_text(summary.fastest_scenario), summary.fastest_average_us) == named_average(
        s,
        fastest(s),
    )
    &&& (opt_text(summary.slowest_scenario), summary.slowest_average_us) == named_average(
        s,
        slowest(s),
    )
    &&& summary.best_overall_us == best_overall(s)
    &&& summary.worst_overall_us == worst_overall(s)
    &&& summary.first_successful_run_us == first_us
}

proof fn lemma_extreme_positions(s: Seq<ScenarioReport>)
    ensures
        fastest(s) matches Some(i) ==> 0 <= i < s.len() && s[i].average_us is Some,
        slowest(s) matches Some(i) ==> 0 <= i < s.len() && s[i].average_us is Some,
    decreases s.len(),
{
    if s.len() > 0 {
        lemma_extreme_positions(s.drop_last());
    }
}

proof fn lemma_count_step(s: Seq<ScenarioReport>, n: int, p: spec_fn(ScenarioReport) -> bool)
    requires
        0 <= n < s.len(),
    ensures
        count_of(s.take(n + 1), p) == count_of(s.take(n), p) + if p(s[n]) {
            1nat
        } else {
            0
        },
{
    assert(s.take(n + 1).drop_last() =~= s.take(n));
}

fn smaller(a: Option<u64>, b: Option<u64>) -> (r: Option<u64>)
    ensures
        r == smaller_of(a, b),
{
    match (a, b) {
        (Some(x), Some(y)) => if y < x {
            Some(y)
        } else {
            Some(x)
        },
        (None, _) => b,
        (_, None) => a,
    }
}

fn larger(a: Option<u64>, b: Option<u64>) -> (r: Option<u64>)
    ensures
        r == larger_of(a, b),
{
    match (a, b) {
        (Some(x), Some(y)) => if y > x {
            Some(y)
        } else {
            Some(x)
        },
        (None, _) => b,
        (_, None) => a,
    }
}

/// The figures over all scenarios.
pub fn summarize(reports: &Vec<ScenarioReport>, first_successful_run_us: Option<u64>) -> (summary:
    BenchmarkSummary)
    ensures
        sums_up(summary, reports@, first_successful_run_us),
{
    let ghost all = reports@;
    let ghost passed_p = |r: ScenarioReport| r.success;
    let ghost failed_p = |r: ScenarioReport| !r.success;
    let ghost matched_p = |r: ScenarioReport| r.comparison is Some;
    let ghost average_p = |r: ScenarioReport| r.average_us is Some;
    let mut passed: usize = 0;
    let mut failed: usize = 0;
    let mut matched: usize = 0;
    let mut best: Option<u64> = None;
    let mut worst: Option<u64> = None;
    let mut fast: Option<usize> = None;
    let mut slow: Option<usize> = None;
    let mut sum: u64 = 0;
    let mut count: u64 = 0;
    for i in 0..reports.len()
        invariant
            all == reports@,
            passed_p == (|r: ScenarioReport| r.success),
            failed_p == (|r: ScenarioReport| !r.success),
            matched_p == (|r: ScenarioReport| r.comparison is Some),
            average_p == (|r: ScenarioReport| r.average_us is Some),
            passed <= i,
            failed <= i,
            matched <= i,
            count <= i,
            passed == count_of(all.take(i as int), passed_p),
            failed == count_of(all.take(i as int), failed_p),
            matched == count_of(all.take(i as int), matched_p),
            count == count_of(all.take(i as int), average_p),
            sum == capped(sum_of_averages(all.take(i as int))),
            best == best_overall(all.take(i as int)),
            worst == worst_overall(all.take(i as int)),
            match (fast, fastest(all.take(i as int))) {
                (Some(a), Some(b)) => a == b && a < i,
                (None, None) => true,
                _ => false,
            },
            match (slow, slowest(all.take(i as int))) {
                (Some(a), Some(b)) => a == b && a < i,
                (None, None) => true,
                _ => false,
            },
    {
        let report = &reports[i];
        proof {
            lemma_count_step(all, i as int, passed_p);
            lemma_count_step(all, i as int, failed_p);
            lemma_count_step(all, i as int, matched_p);
            lemma_count_step(all, i as int, average_p);
            lemma_extreme_positions(all.take(i as int));
        }
        assert(all.take(i + 1).drop_last() =~= all.take(i as int));
        assert(all.take(i + 1).last() == all[i as int]);
        if report.success {
            passed += 1;
        } else {
            failed += 1;
        }
        if report.comparison.is_some() {
            matched += 1;
        }
        if let Some(average) = report.average_us {
            sum = sum.saturating_add(average);
            count += 1;
            let faster = match fast {
                Some(k) => match reports[k].average_us {
                    Some(current) => average < current,
                    None => true,
                },
                None => true,
            };
            if faster {
                fast = Some(i);
            }
            let slower = match slow {
                Some(k) => match reports[k].average_us {
                    Some(current) => average > current,
                    None => true,
                },
                None => true,
            };
            if slower {
                slow = Some(i);
            }
        }
        best = smaller(best, report.best_us);
        worst = larger(worst, report.worst_us);
    }
    assert(all.take(all.len() as int) =~= all);
    BenchmarkSummary {
        scenario_count: reports.len(),
        passed_scenarios: passed,
        failed_scenarios: failed,
        matched_baseline_scenarios: matched,
        average_of_averages_us: if count == 0 {
            None
        } else {
            Some(sum / count)
        },
        fastest_scenario: match fast {
            Some(k) => Some(reports[k].name.clone()),
            None => None,
        },
        fastest_average_us: match fast {
            Some(k) => reports[k].average_us,
            None => None,
        },
        slowest_scenario: match slow {
            Some(k) => Some(reports[k].name.clone()),
            None => None,
        },
        slowest_average_us: match slow {
            Some(k) => reports[k].average_us,
            None => None,
        },
        best_overall_us: best,
        worst_overall_us: worst,
        first_successful_run_us,
    }
}

proof fn lemma_counts_add_up(s: Seq<ScenarioReport>)
    ensures
        count_of(s, |r: ScenarioReport| r.success) + count_of(s, |r: ScenarioReport| !r.success)
            == s.len(),
    decreases s.len(),
{
    if s.len() > 0 {
        lemma_counts_add_up(s.drop_last());
    }
}

proof fn lemma_extremes_hold(s: Seq<ScenarioReport>, k: int)
    requires
        0 <= k < s.len(),
        s[k].average_us is Some,
    ensures
        fastest(s) is Some && s[fastest(s)->0].average_us->0 <= s[k].average_us->0,
        slowest(s) is Some && s[slowest(s)->0].average_us->0 >= s[k].average_us->0,
    decreases s.len(),
{
    let t = s.drop_last();
    lemma_extreme_positions(t);
    if k < t.len() {
        assert(t[k] == s[k]);
        lemma_extremes_hold(t, k);
    }
}

proof fn lemma_samples_hold(s: Seq<ScenarioReport>, k: int)
    requires
        0 <= k < s.len(),
    ensures
        s[k].best_us matches Some(b) ==> best_overall(s) is Some && best_overall(s)->0 <= b,
        s[k].worst_us matches Some(w) ==> worst_overall(s) is Some && worst_overall(s)->0 >= w,
    decreases s.len(),
{
    let t = s.drop_last();
    if k < t.len() {
        assert(t[k] == s[k]);
        lemma_samples_hold(t, k);
    }
}

/// A summary is true of every scenario: each either passed or failed, none is faster than
/// the fastest or slower than the slowest, and no sample is outside the overall range.
pub proof fn lemma_summary_holds(
    summary: BenchmarkSummary,
    s: Seq<ScenarioReport>,
    first_us: Option<u64>,
    k: int,
)
    requires
        sums_up(summary, s, first_us),
        0 <= k < s.len(),
    ensures
        summary.passed_scenarios + summary.failed_scenarios == summary.scenario_count,
        s[k].average_us matches Some(a) ==> summary.fastest_average_us is Some
            && summary.fastest_average_us->0 <= a && summary.slowest_average_us is Some
            && a <= summary.slowest_average_us->0,
        s[k].best_us matches Some(b) ==> summary.best_overall_us is Some
            && summary.best_overall_us->0 <= b,
        s[k].worst_us matches Some(w) ==> summary.worst_overall_us is Some
            && w <= summary.worst_overall_us->0,
{
    lemma_counts_add_up(s);
    lemma_samples_hold(s, k);
    lemma_extreme_positions(s);
    if s[k].average_us is Some {
        lemma_extremes_hold(s, k);
    }
}

proof fn lemma_none_failed(s: Seq<ScenarioReport>, k: int)
    requires
        0 <= k < s.len(),
        !s[k].success,
    ensures
        count_of(s, |r: ScenarioReport| !r.success) > 0,
    decreases s.len(),
{
    let t = s.drop_last();
    if k < t.len() {
        assert(t[k] == s[k]);
        lemma_none_failed(t, k);
    }
}

/// A benchmark without failures is one in which every scenario succeeded.
pub proof fn lemma_no_failures_means_success(
    summary: BenchmarkSummary,
    s: Seq<ScenarioReport>,
    first_us: Option<u64>,
)
    requires
        sums_up(summary, s, first_us),
    ensures
        summary.failed_scenarios == 0 <==> forall|k: int|
            0 <= k < s.len() ==> (#[trigger] s[k]).success,
{
    if summary.failed_scenarios == 0 {
        assert forall|k: int| 0 <= k < s.len() implies (#[trigger] s[k]).success by {
            if !s[k].success {
                lemma_none_failed(s, k);
            }
        }
    } else {
        lemma_some_failed(s);
    }
}

proof fn lemma_some_failed(s: Seq<ScenarioReport>)
    requires
        count_of(s, |r: ScenarioReport| !r.success) > 0,
    ensures
        exists|k: int| 0 <= k < s.len() && !(#[trigger] s[k]).success,
    decreases s.len(),
{
    let t = s.drop_last();
    if s.last().success {
        lemma_some_failed(t);
        let k = choose|k: int| 0 <= k < t.len() && !(#[trigger] t[k]).success;
        assert(!s[k].success);
    } else {
        assert(!s[s.len() - 1].success);
    }
}

// ---------------------------------------------------------------------------
// What the user had to say

/// The number of facts that hold.
pub open spec fn trues(facts: Seq<bool>) -> nat
    decreases facts.len(),
{
    if facts.len() == 0 {
        0
    } else if facts.last() {
        trues(facts.drop_last()) + 1
    } else {
        trues(facts.drop_last())
    }
}

/// A list that has an entry.
pub open spec fn some_entries<T>(list: Option<Vec<T>>) -> bool {
    list matches Some(v) && v@.len() > 0
}

/// The policy settings, and whether the command line has another than the default.
pub open spec fn policy_settings(args: PolicyArgs) -> Seq<bool> {
    seq![
        args.config is Some,
        args.backend != BackendPreference::Auto,
        args.preset is Some,
        args.level is Some,
        some_entries(args.allow_net),
        some_entries(args.allow_fs),
        some_entries(args.allow_env),
        args.max_cpu is Some,
        args.max_ram is Some,
        args.max_disk is Some,
        args.timeout is Some,
    ]
}

/// The benchmark settings, and whether the command line has another than the default.
pub open spec fn benchmark_settings(args: BenchArgs) -> Seq<bool> {
    seq![
        args.profile != BenchmarkProfile::Sequential,
        args.stagger_delay_ms != 200,
        args.format != OutputFormat::Text,
        args.baseline_source != BaselineSource::Report,
        args.baseline_label@ != "E2B-style"@,
        args.baseline_report is Some,
        args.baseline_output is Some,
        args.output is Some,
        some_entries(args.peer_targets),
        args.peer_image@ != "alpine:3.20"@,
        args.e2b_timeout_secs != 300,
    ]
}

fn count_true(facts: &Vec<bool>) -> (n: usize)
    ensures
        n == trues(facts@),
        n <= facts.len(),
{
    let mut n: usize = 0;
    for i in 0..facts.len()
        invariant
            n <= i,
            n == trues(facts@.take(i as int)),
    {
        assert(facts@.take(i + 1).drop_last() =~= facts@.take(i as int));
        if facts[i] {
            n += 1;
        }
    }
    assert(facts@.take(facts@.len() as int) =~= facts@);
    n
}

fn has_entries<T>(list: &Option<Vec<T>>) -> (r: bool)
    ensures
        r == some_entries(*list),
{
    match list {
        Some(v) => v.len() > 0,
        None => false,
    }
}

/// The number of policy settings that are not the default.
pub fn count_explicit_policy_flags(args: &PolicyArgs) -> (n: usize)
    ensures
        n == trues(policy_settings(*args)),
        n <= 11,
{
    let settings: Vec<bool> = vec![
        args.config.is_some(),
        args.backend != BackendPreference::Auto,
        args.preset.is_some(),
        args.level.is_some(),
        has_entries(&args.allow_net),
        has_entries(&args.allow_fs),
        has_entries(&args.allow_env),
        args.max_cpu.is_some(),
        args.max_ram.is_some(),
        args.max_disk.is_some(),
        args.timeout.is_some(),
    ];
    assert(settings@ =~= policy_settings(*args));
    count_true(&settings)
}

/// The number of benchmark settings that are not the default.
pub fn count_explicit_benchmark_flags(args: &BenchArgs) -> (n: usize)
    ensures
        n == trues(benchmark_settings(*args)),
        n <= 11,
{
    let settings: Vec<bool> = vec![
        args.profile != BenchmarkProfile::Sequential,
        args.stagger_delay_ms != 200,
        args.format != OutputFormat::Text,
        args.baseline_source != BaselineSource::Report,
        !same_text(args.baseline_label.as_str(), "E2B-style"),
        args.baseline_report.is_some(),
        args.baseline_output.is_some(),
        args.output.is_some(),
        has_entries(&args.peer_targets),
        !same_text(args.peer_image.as_str(), "alpine:3.20"),
        args.e2b_timeout_secs != 300,
    ];
    assert(settings@ =~= benchmark_settings(*args));
    count_true(&settings)
}

// ---------------------------------------------------------------------------
// Putting a report together

/// What a report says about the tool and the machine.
#[derive(Debug, Clone)]
pub struct ReportFacts {
    pub tool: String,
    pub version: String,
    pub generated_at_unix: u64,
    /// The names of operating system, processor and family.
    pub os_name: String,
    pub arch_name: String,
    pub family_name: String,
    pub policy_resolution_us: u64,
}

impl ReportFacts {
    /// The name of the platform.
    pub open spec fn platform(&self) -> Seq<char> {
        self.os_name@ + "-"@ + self.arch_name@ + "-"@ + self.family_name@
    }

    /// The report is by this tool on this machine.
    pub open spec fn stands_in(&self, report: BenchmarkReport) -> bool {
        &&& report.tool@ == self.tool@
        &&& report.version@ == self.version@
        &&& report.generated_at_unix == self.generated_at_unix
        &&& report.platform@ == self.platform()
        &&& report.policy_resolution_us == self.policy_resolution_us
    }

    /// The name of the platform.
    pub fn platform_name(&self) -> (out: String)
        ensures
            out@ == self.platform(),
    {
        let mut out = concat(self.os_name.as_str(), "-");
        out.append(self.arch_name.as_str());
        out.append("-");
        out.append(self.family_name.as_str());
        out
    }
}

/// What is told about how much the user had to say.
pub open spec fn tells_adoption(
    adoption: AdoptionMetrics,
    args: BenchArgs,
    first: FirstSuccess,
) -> bool {
    let policy = trues(policy_settings(args.policy));
    let benchmark = trues(benchmark_settings(args));
    &&& adoption.command_surface@ == "microbox run <command>"@
    &&& adoption.explicit_policy_flags == policy
    &&& adoption.explicit_benchmark_flags == benchmark
    &&& adoption.setup_steps == 1 + policy + benchmark
    &&& adoption.friction_score == 1 + policy + benchmark
    &&& adoption.first_successful_run_us == first.run_us
    &&& adoption.first_successful_scenario == first.scenario
}

/// The other report that the scenarios are compared with, as a path.
pub open spec fn baseline_path(args: BenchArgs) -> Option<String> {
    match args.baseline_source {
        BaselineSource::Report => args.baseline_report,
        BaselineSource::E2b => args.baseline_output,
    }
}

/// What is told of a benchmark under one profile.
pub open spec fn tells_benchmark(
    report: BenchmarkReport,
    facts: ReportFacts,
    args: BenchArgs,
    capabilities: CapabilityModel,
    profile: BenchmarkProfile,
    first: FirstSuccess,
) -> bool {
    &&& facts.stands_in(report)
    &&& report.profile@ == profile_name(profile)
    &&& report.backend_requested@ == preference_name(args.policy.backend)
    &&& report.backend_selected@ == capabilities.name
    &&& report.backend_secure_enforcement == capabilities.secure_enforcement
    &&& texts(report.backend_notes@) == capabilities.notes
    &&& report.comparison_baseline@ == args.baseline_label@
    &&& report.iterations == if args.iterations == 0 {
        1
    } else {
        args.iterations
    }
    &&& report.warmups == args.warmups
    &&& report.mode@ == if args.command@.len() == 0 {
        "suite"@
    } else {
        "custom-command"@
    }
    &&& tells_adoption(report.adoption, args, first)
    &&& sums_up(report.summary, report.scenarios@, first.run_us)
    &&& report.profile_reports@.len() == 0
    &&& report.baseline_report_path == baseline_path(args)
}

fn copy_option(value: &Option<String>) -> (out: Option<String>)
    ensures
        out == *value,
{
    match value {
        Some(text) => Some(text.clone()),
        None => None,
    }
}

/// The report on a benchmark under one profile: its scenarios compared with the baseline,
/// and the reports of other sandboxes as they are.
pub fn build_profile_report(
    facts: &ReportFacts,
    args: &BenchArgs,
    capabilities: &BackendCapabilities,
    profile: BenchmarkProfile,
    scenarios: Vec<ScenarioReport>,
    baseline: Option<&Vec<ScenarioReport>>,
    peer_reports: Vec<PeerBenchmarkReport>,
    first: &FirstSuccess,
) -> (report: BenchmarkReport)
    ensures
        tells_benchmark(report, *facts, *args, capabilities@, profile, *first),
        report.peer_reports == peer_reports,
        match baseline {
            None => report.scenarios@ == scenarios@,
            Some(base) => report.scenarios.len() == scenarios.len() && forall|i: int|
                0 <= i < scenarios.len() ==> is_compared(
                    scenarios@[i],
                    #[trigger] report.scenarios@[i],
                    base@,
                    args.baseline_label@,
                ),
        },
{
    let scenarios = attach_comparisons(scenarios, baseline, args.baseline_label.as_str());
    let summary = summarize(&scenarios, first.run_us);
    let policy_count = count_explicit_policy_flags(&args.policy);
    let benchmark_count = count_explicit_benchmark_flags(args);
    let adoption = AdoptionMetrics {
        command_surface: "microbox run <command>".to_string(),
        explicit_policy_flags: policy_count,
        explicit_benchmark_flags: benchmark_count,
        setup_steps: 1 + policy_count + benchmark_count,
        friction_score: 1 + policy_count + benchmark_count,
        first_successful_run_us: first.run_us,
        first_successful_scenario: copy_option(&first.scenario),
    };
    let mode = if args.command.len() == 0 {
        "suite".to_string()
    } else {
        "custom-command".to_string()
    };
    let baseline_report_path = match args.baseline_source {
        BaselineSource::Report => copy_option(&args.baseline_report),
        BaselineSource::E2b => copy_option(&args.baseline_output),
    };
    BenchmarkReport {
        tool: facts.tool.clone(),
        version: facts.version.clone(),
        generated_at_unix: facts.generated_at_unix,
        platform: facts.platform_name(),
        profile: benchmark_profile_label(profile),
        backend_requested: args.policy.backend.label().to_string(),
        backend_selected: capabilities.name.to_string(),
        backend_secure_enforcement: capabilities.secure_enforcement,
        backend_notes: copy_list(&capabilities.notes),
        comparison_baseline: args.baseline_label.clone(),
        policy_resolution_us: facts.policy_resolution_us,
        iterations: effective_iterations(args.iterations),
        warmups: args.warmups,
        mode,
        adoption,
        summary,
        scenarios,
        peer_reports,
        profile_reports: Vec::new(),
        baseline_report_path,
    }
}

/// The side reports keep profile, summary and scenarios of the runs.
pub open spec fn keeps_profiles(
    kept: Seq<ProfileBenchmarkReport>,
    runs: Seq<BenchmarkReport>,
) -> bool {
    kept.len() == runs.len() && forall|i: int|
        0 <= i < runs.len() ==> {
            &&& (#[trigger] kept[i]).profile == runs[i].profile
            &&& kept[i].summary == runs[i].summary
            &&& kept[i].scenarios == runs[i].scenarios
        }
}

/// The report on all that was measured: the main report, and where all profiles were asked
/// for, under that name and with what was measured under each of them.
pub fn build_benchmark_report(
    requested: BenchmarkProfile,
    main_report: BenchmarkReport,
    runs: Vec<BenchmarkReport>,
) -> (report: BenchmarkReport)
    ensures
        if requested == BenchmarkProfile::All {
            &&& report.profile@ == "all"@
            &&& keeps_profiles(report.profile_reports@, runs@)
            &&& report == (BenchmarkReport {
                profile: report.profile,
                profile_reports: report.profile_reports,
                ..main_report
            })
        } else {
            report == main_report
        },
{
    let mut report = main_report;
    if let BenchmarkProfile::All = requested {
        let ghost all = runs@;
        let mut rest = runs;
        let mut kept: Vec<ProfileBenchmarkReport> = Vec::new();
        assert(all.skip(0) =~= all);
        while rest.len() > 0
            invariant
                kept.len() <= all.len(),
                rest@ == all.skip(kept.len() as int),
                forall|i: int|
                    0 <= i < kept.len() ==> {
                        &&& (#[trigger] kept@[i]).profile == all[i].profile
                        &&& kept@[i].summary == all[i].summary
                        &&& kept@[i].scenarios == all[i].scenarios
                    },
            decreases rest.len(),
        {
            let ghost done = kept.len() as int;
            let run = rest.remove(0);
            assert(run == all[done]);
            kept.push(
                ProfileBenchmarkReport {
                    profile: run.profile,
                    summary: run.summary,
                    scenarios: run.scenarios,
                },
            );
            assert(rest@ =~= all.skip(done + 1));
        }
        report.profile = "all".to_string();
        report.profile_reports = kept;
    }
    report
}

/// The exit code of a benchmark: whether a scenario failed.
pub fn benchmark_exit_code(report: &BenchmarkReport) -> (code: i32)
    ensures
        code == if report.summary.failed_scenarios == 0 {
            0i32
        } else {
            1
        },
{
    if report.summary.failed_scenarios == 0 {
        0
    } else {
        1
    }
}

} // verus!
