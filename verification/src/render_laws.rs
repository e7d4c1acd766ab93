//! What rendered reports tell.
use crate::number::{decimal, signed_decimal};
use crate::render::{
    any_comparison, cell, code_or_dash, ended, labelled, md_adoption, md_head, md_lines,
    md_profile, md_scenario, md_peer, md_scenario_heading, md_summary, number_or_dash, peer_cells,
    profile_cells, ratio_or_dash, row, scenario_cells, scenario_columns, text_adoption,
    text_comparison, text_head, text_lines, text_or_dash, text_peer, text_peers, text_profile,
    text_profiles, text_scenario, text_scenarios, text_summary,
};
use crate::report::{
    AdoptionMetrics, BenchmarkReport, BenchmarkSummary, PeerBenchmarkReport, ProfileBenchmarkReport,
};
use crate::sampling::{Ratio, ScenarioReport};
use crate::text::{joined, texts};
use vstd::prelude::*;

verus! {

broadcast use vstd::seq::group_seq_axioms;

/// The word for a fact.
pub open spec fn truth(fact: bool) -> Seq<char> {
    if fact {
        "true"@
    } else {
        "false"@
    }
}

/// The short word for a fact.
pub open spec fn yes_or_no(fact: bool) -> Seq<char> {
    if fact {
        "yes"@
    } else {
        "no"@
    }
}

// ---------------------------------------------------------------------------
// Parts

/// A figure that is missing is a dash; a ratio that is yet to be written a question mark.
pub proof fn lemma_missing_figures(n: u64, c: i32, s: String)
    ensures
        number_or_dash(Some(n)) == decimal(n as nat),
        number_or_dash(None) == "-"@,
        code_or_dash(Some(c)) == signed_decimal(c as int),
        code_or_dash(None) == "-"@,
        text_or_dash(Some(s)) == s@,
        text_or_dash(None) == "-"@,
        ratio_or_dash(Some(Ratio::Written(s))) == s@,
        ratio_or_dash(Some(Ratio::Owed)) == "?"@,
        ratio_or_dash(None) == "-"@,
{
}

/// Each line ends with a line end.
pub proof fn lemma_line_ends(lines: Seq<Seq<char>>, line: Seq<char>)
    ensures
        ended(Seq::<Seq<char>>::empty()).len() == 0,
        ended(lines.push(line)) == ended(lines) + line + seq!['\n'],
{
    assert(lines.push(line).drop_last() =~= lines);
    assert(ended(lines) + line.push('\n') =~= ended(lines) + line + seq!['\n']);
}

/// A cell, character by character: a bar gets a backslash before it, a line end becomes a
/// blank, and every other character stays.
pub proof fn lemma_cells(s: Seq<char>, c: char)
    ensures
        cell(Seq::<char>::empty()).len() == 0,
        c == '|' ==> cell(s.push(c)) == cell(s) + seq!['\\', '|'],
        c == '\n' ==> cell(s.push(c)) == cell(s) + seq![' '],
        c != '|' && c != '\n' ==> cell(s.push(c)) == cell(s) + seq![c],
{
    assert(s.push(c).drop_last() =~= s);
    assert(cell(s).push('\\').push('|') =~= cell(s) + seq!['\\', '|']);
    assert(cell(s).push(' ') =~= cell(s) + seq![' ']);
    assert(cell(s).push(c) =~= cell(s) + seq![c]);
}

/// A row has its cells between bars.
pub proof fn lemma_rows(cells: Seq<Seq<char>>)
    ensures
        row(cells) == "| "@ + joined(cells, " | "@) + " |"@,
{
}

// ---------------------------------------------------------------------------
// Text

/// The head of a report, line by line.
pub proof fn lemma_text_head(r: BenchmarkReport)
    ensures
        ({
            let l = text_head(r);
            let n = r.backend_notes@.len() as int;
            &&& l.len() == 14 + n
            &&& l[0] == "MicroBox benchmark report"@
            &&& l[1] == "tool = "@ + r.tool@
            &&& l[2] == "version = "@ + r.version@
            &&& l[3] == "profile = "@ + r.profile@
            &&& l[4] == "platform = "@ + r.platform@
            &&& l[5] == "backend_requested = "@ + r.backend_requested@
            &&& l[6] == "backend_selected = "@ + r.backend_selected@
            &&& l[7] == "backend_secure_enforcement = "@ + truth(r.backend_secure_enforcement)
            &&& l[8 + n] == "comparison_baseline = "@ + r.comparison_baseline@
            &&& l[9 + n] == "mode = "@ + r.mode@
            &&& l[10 + n] == "policy_resolution_us = "@ + decimal(r.policy_resolution_us as nat)
            &&& l[11 + n] == "iterations = "@ + decimal(r.iterations as nat)
            &&& l[12 + n] == "warmups = "@ + decimal(r.warmups as nat)
        }),
{
}

/// The notes on the backend stand in the head, in order.
pub proof fn lemma_text_notes(r: BenchmarkReport, i: int)
    requires
        0 <= i < r.backend_notes@.len(),
    ensures
        text_head(r)[8 + i] == "backend_note = "@ + r.backend_notes@[i]@,
{
    let notes = labelled("backend_note = "@, texts(r.backend_notes@));
    assert(text_head(r)[8 + i] == notes[i]);
}

/// The effort, line by line.
pub proof fn lemma_text_adoption(a: AdoptionMetrics)
    ensures
        ({
            let l = text_adoption(a);
            &&& l.len() == 9
            &&& l[0] == "Adoption"@
            &&& l[1] == "command_surface = "@ + a.command_surface@
            &&& l[2] == "explicit_policy_flags = "@ + decimal(a.explicit_policy_flags as nat)
            &&& l[3] == "explicit_benchmark_flags = "@ + decimal(a.explicit_benchmark_flags as nat)
            &&& l[4] == "setup_steps = "@ + decimal(a.setup_steps as nat)
            &&& l[5] == "friction_score = "@ + decimal(a.friction_score as nat)
            &&& l[6] == "first_successful_run_us = "@ + number_or_dash(a.first_successful_run_us)
            &&& l[7] == "first_successful_scenario = "@ + text_or_dash(a.first_successful_scenario)
        }),
{
}

/// The summary, line by line.
pub proof fn lemma_text_summary(s: BenchmarkSummary)
    ensures
        ({
            let l = text_summary(s);
            &&& l.len() == 13
            &&& l[0] == "Summary"@
            &&& l[1] == "scenario_count = "@ + decimal(s.scenario_count as nat)
            &&& l[2] == "passed_scenarios = "@ + decimal(s.passed_scenarios as nat)
            &&& l[3] == "failed_scenarios = "@ + decimal(s.failed_scenarios as nat)
            &&& l[4] == "matched_baseline_scenarios = "@ + decimal(
                s.matched_baseline_scenarios as nat,
            )
            &&& l[5] == "average_of_averages_us = "@ + number_or_dash(s.average_of_averages_us)
            &&& l[6] == "fastest_scenario = "@ + text_or_dash(s.fastest_scenario)
            &&& l[7] == "fastest_average_us = "@ + number_or_dash(s.fastest_average_us)
            &&& l[8] == "slowest_scenario = "@ + text_or_dash(s.slowest_scenario)
            &&& l[9] == "slowest_average_us = "@ + number_or_dash(s.slowest_average_us)
            &&& l[10] == "best_overall_us = "@ + number_or_dash(s.best_overall_us)
            &&& l[11] == "worst_overall_us = "@ + number_or_dash(s.worst_overall_us)
        }),
{
}

/// A scenario, line by line: its figures, its error where it has one, its comparison where it
/// has one, and its notes.
pub proof fn lemma_text_scenario(s: ScenarioReport)
    ensures
        ({
            let l = text_scenario(s);
            let e = if s.error is Some {
                1int
            } else {
                0
            };
            let c = if s.comparison is Some {
                5int
            } else {
                0
            };
            &&& l.len() == 11 + e + c + s.notes@.len()
            &&& l[0] == "- "@ + s.name@
            &&& l[1] == "  description = "@ + s.description@
            &&& l[2] == "  command = "@ + s.command@
            &&& l[3] == "  success = "@ + truth(s.success)
            &&& l[4] == "  timed_out = "@ + truth(s.timed_out)
            &&& l[5] == "  exit_code = "@ + code_or_dash(s.exit_code)
            &&& l[6] == "  average_us = "@ + number_or_dash(s.average_us)
            &&& l[7] == "  best_us = "@ + number_or_dash(s.best_us)
            &&& l[8] == "  worst_us = "@ + number_or_dash(s.worst_us)
            &&& l[9] == "  stdout_bytes = "@ + decimal(s.stdout_bytes as nat)
            &&& l[10] == "  stderr_bytes = "@ + decimal(s.stderr_bytes as nat)
            &&& s.error is Some ==> l[11] == "  error = "@ + s.error->0@
            &&& s.comparison is Some ==> l[11 + e] == "  baseline_label = "@
                + s.comparison->0.baseline_label@
            &&& s.comparison is Some ==> l[12 + e] == "  baseline_average_us = "@ + decimal(
                s.comparison->0.baseline_average_us as nat,
            )
            &&& s.comparison is Some ==> l[13 + e] == "  delta_us = "@ + signed_decimal(
                s.comparison->0.delta_us as int,
            )
            &&& s.comparison is Some ==> l[14 + e] == "  delta_percent = "@ + ratio_or_dash(
                s.comparison->0.delta_percent,
            )
            &&& s.comparison is Some ==> l[15 + e] == "  speedup = "@ + ratio_or_dash(
                s.comparison->0.speedup,
            )
        }),
{
    let l = text_scenario(s);
    let c = text_comparison(s.comparison);
    let e = if s.error is Some {
        1int
    } else {
        0
    };
    if s.comparison is Some {
        assert(l[11 + e] == c[0] && l[12 + e] == c[1] && l[13 + e] == c[2] && l[14 + e] == c[3]
            && l[15 + e] == c[4]);
    }
}

/// The notes of a scenario stand at its end, in order.
pub proof fn lemma_text_scenario_notes(s: ScenarioReport, i: int)
    requires
        0 <= i < s.notes@.len(),
    ensures
        text_scenario(s)[text_scenario(s).len() - s.notes@.len() + i] == "  note = "@ + s.notes@[i]@,
{
    let l = text_scenario(s);
    let notes = labelled("  note = "@, texts(s.notes@));
    assert(l[l.len() - notes.len() + i] == notes[i]);
}

/// Scenarios, other sandboxes and profiles are told one after the other, each in full.
pub proof fn lemma_text_in_order(
    s: Seq<ScenarioReport>,
    one: ScenarioReport,
    p: Seq<PeerBenchmarkReport>,
    peer: PeerBenchmarkReport,
    f: Seq<ProfileBenchmarkReport>,
    profile: ProfileBenchmarkReport,
)
    ensures
        text_scenarios(Seq::<ScenarioReport>::empty()).len() == 0,
        text_scenarios(s.push(one)) == text_scenarios(s) + text_scenario(one),
        text_peers(Seq::<PeerBenchmarkReport>::empty()).len() == 0,
        text_peers(p.push(peer)) == text_peers(p) + text_peer(peer),
        text_profiles(Seq::<ProfileBenchmarkReport>::empty()).len() == 0,
        text_profiles(f.push(profile)) == text_profiles(f) + text_profile(profile),
{
    assert(s.push(one).drop_last() =~= s);
    assert(p.push(peer).drop_last() =~= p);
    assert(f.push(profile).drop_last() =~= f);
}

/// Another sandbox, line by line.
pub proof fn lemma_text_peer(p: PeerBenchmarkReport)
    ensures
        ({
            let l = text_peer(p);
            let e = if p.reason is Some {
                1int
            } else {
                0
            };
            &&& l[0] == "- target = "@ + p.target@ + " available = "@ + yes_or_no(p.available)
            &&& p.reason is Some ==> l[1] == "  reason = "@ + p.reason->0@
            &&& p.report is None ==> l.len() == 1 + e
            &&& p.report matches Some(r) ==> {
                &&& l.len() == 6 + e
                &&& l[1 + e] == "  passed_scenarios = "@ + decimal(r.summary.passed_scenarios as nat)
                &&& l[2 + e] == "  failed_scenarios = "@ + decimal(r.summary.failed_scenarios as nat)
                &&& l[3 + e] == "  average_of_averages_us = "@ + number_or_dash(
                    r.summary.average_of_averages_us,
                )
                &&& l[4 + e] == "  fastest_scenario = "@ + text_or_dash(r.summary.fastest_scenario)
                &&& l[5 + e] == "  slowest_scenario = "@ + text_or_dash(r.summary.slowest_scenario)
            }
        }),
{
}

/// A profile, line by line.
pub proof fn lemma_text_profile(p: ProfileBenchmarkReport)
    ensures
        ({
            let l = text_profile(p);
            &&& l.len() == 7
            &&& l[0] == "- profile = "@ + p.profile@
            &&& l[1] == "  scenario_count = "@ + decimal(p.summary.scenario_count as nat)
            &&& l[2] == "  passed_scenarios = "@ + decimal(p.summary.passed_scenarios as nat)
            &&& l[3] == "  failed_scenarios = "@ + decimal(p.summary.failed_scenarios as nat)
            &&& l[4] == "  average_of_averages_us = "@ + number_or_dash(
                p.summary.average_of_averages_us,
            )
            &&& l[5] == "  fastest_scenario = "@ + text_or_dash(p.summary.fastest_scenario)
            &&& l[6] == "  slowest_scenario = "@ + text_or_dash(p.summary.slowest_scenario)
        }),
{
}

/// The sections of a report as text: the head, the effort, the summary, every scenario; and
/// the other sandboxes and the profiles where there are any.
pub proof fn lemma_text_sections(r: BenchmarkReport)
    ensures
        ({
            let front = text_head(r) + text_adoption(r.adoption) + text_summary(r.summary) + seq![
                "Scenarios"@,
            ] + text_scenarios(r.scenarios@);
            let peers = seq![""@, "Peer targets"@] + text_peers(r.peer_reports@);
            let profiles = seq![""@, "Profile runs"@] + text_profiles(r.profile_reports@);
            &&& r.peer_reports@.len() == 0 && r.profile_reports@.len() == 0 ==> text_lines(r)
                == front
            &&& r.peer_reports@.len() > 0 && r.profile_reports@.len() == 0 ==> text_lines(r)
                == front + peers
            &&& r.peer_reports@.len() == 0 && r.profile_reports@.len() > 0 ==> text_lines(r)
                == front + profiles
            &&& r.peer_reports@.len() > 0 && r.profile_reports@.len() > 0 ==> text_lines(r) == front
                + peers + profiles
        }),
{
    let front = text_head(r) + text_adoption(r.adoption) + text_summary(r.summary) + seq![
        "Scenarios"@,
    ] + text_scenarios(r.scenarios@);
    let none = Seq::<Seq<char>>::empty();
    assert(front + none =~= front);
    assert(front + none + none =~= front);
}

// ---------------------------------------------------------------------------
// Markdown

/// The head of a report in Markdown, line by line.
pub proof fn lemma_md_head(r: BenchmarkReport)
    ensures
        ({
            let l = md_head(r);
            &&& l[0] == "# MicroBox benchmark report"@
            &&& l[2] == "- Tool: `"@ + r.tool@ + "`"@
            &&& l[3] == "- Version: `"@ + r.version@ + "`"@
            &&& l[4] == "- Profile: `"@ + r.profile@ + "`"@
            &&& l[5] == "- Platform: `"@ + r.platform@ + "`"@
            &&& l[6] == "- Backend requested: `"@ + r.backend_requested@ + "`"@
            &&& l[7] == "- Backend selected: `"@ + r.backend_selected@ + "`"@
            &&& l[8] == "- Secure enforcement: `"@ + truth(r.backend_secure_enforcement) + "`"@
            &&& l[9] == "- Comparison baseline: `"@ + r.comparison_baseline@ + "`"@
            &&& l[10] == "- Mode: `"@ + r.mode@ + "`"@
            &&& l[11] == "- Policy resolution: `"@ + decimal(r.policy_resolution_us as nat)
                + "` us"@
            &&& l[12] == "- Iterations: `"@ + decimal(r.iterations as nat) + "`"@
            &&& l[13] == "- Warmups: `"@ + decimal(r.warmups as nat) + "`"@
            &&& r.backend_notes@.len() == 0 ==> l.len() == 15
            &&& r.backend_notes@.len() > 0 ==> l.len() == 17 + r.backend_notes@.len() && l[15]
                == "### Backend notes"@
        }),
{
}

/// The notes on the backend stand in the head in Markdown, in order.
pub proof fn lemma_md_notes(r: BenchmarkReport, i: int)
    requires
        0 <= i < r.backend_notes@.len(),
    ensures
        md_head(r)[16 + i] == "- "@ + r.backend_notes@[i]@,
{
    let notes = labelled("- "@, texts(r.backend_notes@));
    assert(md_head(r)[16 + i] == notes[i]);
}

/// The effort in Markdown, line by line.
pub proof fn lemma_md_adoption(a: AdoptionMetrics)
    ensures
        ({
            let l = md_adoption(a);
            &&& l.len() == 9
            &&& l[0] == "## Adoption"@
            &&& l[1] == "- Command surface: `"@ + a.command_surface@ + "`"@
            &&& l[2] == "- Explicit policy flags: `"@ + decimal(a.explicit_policy_flags as nat)
                + "`"@
            &&& l[3] == "- Explicit benchmark flags: `"@ + decimal(
                a.explicit_benchmark_flags as nat,
            ) + "`"@
            &&& l[4] == "- Setup steps: `"@ + decimal(a.setup_steps as nat) + "`"@
            &&& l[5] == "- Friction score: `"@ + decimal(a.friction_score as nat) + "`"@
            &&& l[6] == "- First successful run: `"@ + number_or_dash(a.first_successful_run_us)
                + "` us"@
            &&& l[7] == "- First successful scenario: `"@ + text_or_dash(
                a.first_successful_scenario,
            ) + "`"@
        }),
{
}

/// The summary in Markdown, line by line.
pub proof fn lemma_md_summary(s: BenchmarkSummary)
    ensures
        ({
            let l = md_summary(s);
            &&& l.len() == 13
            &&& l[0] == "## Summary"@
            &&& l[1] == "- Scenarios: `"@ + decimal(s.scenario_count as nat) + "`"@
            &&& l[2] == "- Passed: `"@ + decimal(s.passed_scenarios as nat) + "`"@
            &&& l[3] == "- Failed: `"@ + decimal(s.failed_scenarios as nat) + "`"@
            &&& l[4] == "- Baseline matches: `"@ + decimal(s.matched_baseline_scenarios as nat)
                + "`"@
            &&& l[5] == "- Average of averages: `"@ + number_or_dash(s.average_of_averages_us)
                + "` us"@
            &&& l[6] == "- Fastest scenario: `"@ + text_or_dash(s.fastest_scenario) + "`"@
            &&& l[7] == "- Fastest average: `"@ + number_or_dash(s.fastest_average_us) + "` us"@
            &&& l[8] == "- Slowest scenario: `"@ + text_or_dash(s.slowest_scenario) + "`"@
            &&& l[9] == "- Slowest average: `"@ + number_or_dash(s.slowest_average_us) + "` us"@
            &&& l[10] == "- Best overall sample: `"@ + number_or_dash(s.best_overall_us) + "` us"@
            &&& l[11] == "- Worst overall sample: `"@ + number_or_dash(s.worst_overall_us) + "` us"@
        }),
{
}

/// The cells of a scenario: under each heading of the table its own figure.
pub proof fn lemma_scenario_cells(s: ScenarioReport, compared: bool)
    ensures
        ({
            let c = scenario_cells(s, compared);
            let h = scenario_columns(compared);
            &&& c.len() == h.len()
            &&& h[0] == "Scenario"@ && c[0] == cell(s.name@)
            &&& h[1] == "Success"@ && c[1] == yes_or_no(s.success)
            &&& h[2] == "Avg (us)"@ && c[2] == number_or_dash(s.average_us)
            &&& h[3] == "Best (us)"@ && c[3] == number_or_dash(s.best_us)
            &&& h[4] == "Worst (us)"@ && c[4] == number_or_dash(s.worst_us)
            &&& h.last() == "Notes"@ && c.last() == cell(joined(texts(s.notes@), " · "@))
            &&& !compared ==> h.len() == 6
            &&& compared ==> h.len() == 9 && h[5] == "Baseline (us)"@ && h[6] == "Delta (us)"@
                && h[7] == "Speedup"@
            &&& compared && s.comparison is Some ==> c[5] == decimal(
                s.comparison->0.baseline_average_us as nat,
            ) && c[6] == signed_decimal(s.comparison->0.delta_us as int) && c[7] == cell(
                ratio_or_dash(s.comparison->0.speedup),
            )
            &&& compared && s.comparison is None ==> c[5] == "-"@ && c[6] == "-"@ && c[7] == "-"@
        }),
{
}

/// The cells of another sandbox and of a profile.
pub proof fn lemma_other_cells(p: PeerBenchmarkReport, f: ProfileBenchmarkReport)
    ensures
        ({
            let c = peer_cells(p);
            &&& c.len() == 6
            &&& c[0] == cell(p.target@)
            &&& c[1] == yes_or_no(p.available)
            &&& p.report matches Some(r) ==> c[2] == decimal(r.summary.passed_scenarios as nat)
                && c[3] == decimal(r.summary.failed_scenarios as nat) && c[4] == number_or_dash(
                r.summary.average_of_averages_us,
            )
            &&& p.report is None ==> c[2] == "-"@ && c[3] == "-"@ && c[4] == "-"@
            &&& p.reason is Some ==> c[5] == cell(p.reason->0@)
            &&& p.reason is None ==> c[5] == "-"@
        }),
        ({
            let c = profile_cells(f);
            &&& c.len() == 7
            &&& c[0] == cell(f.profile@)
            &&& c[1] == decimal(f.summary.scenario_count as nat)
            &&& c[2] == decimal(f.summary.passed_scenarios as nat)
            &&& c[3] == decimal(f.summary.failed_scenarios as nat)
            &&& c[4] == number_or_dash(f.summary.average_of_averages_us)
            &&& c[5] == cell(text_or_dash(f.summary.fastest_scenario))
            &&& c[6] == cell(text_or_dash(f.summary.slowest_scenario))
        }),
{
}

/// The sections of a report in Markdown: the head, the effort, the summary, and a row for each
/// scenario, in order. The table has columns for comparisons if and only if a scenario is
/// compared.
pub proof fn lemma_md_sections(r: BenchmarkReport, i: int)
    requires
        0 <= i < r.scenarios@.len(),
    ensures
        ({
            let l = md_lines(r);
            let compared = any_comparison(r.scenarios@);
            let n = md_head(r).len() + 22;
            &&& l.take(md_head(r).len() as int) == md_head(r)
            &&& l.subrange(md_head(r).len() as int, md_head(r).len() as int + 9) == md_adoption(
                r.adoption,
            )
            &&& l.subrange(md_head(r).len() as int + 9, n as int) == md_summary(r.summary)
            &&& l[n as int] == "## Scenarios"@
            &&& l[n as int + 2] == row(scenario_columns(compared))
            &&& l[n as int + 4 + i] == row(scenario_cells(r.scenarios@[i], compared))
            &&& compared <==> exists|k: int|
                0 <= k < r.scenarios@.len() && (#[trigger] r.scenarios@[k]).comparison is Some
        }),
{
    let l = md_lines(r);
    let compared = any_comparison(r.scenarios@);
    let h = md_head(r).len() as int;
    assert(l.take(h) =~= md_head(r));
    assert(l.subrange(h, h + 9) =~= md_adoption(r.adoption));
    assert(l.subrange(h + 9, h + 22) =~= md_summary(r.summary));
    let heading = md_scenario_heading(compared);
    assert(l[h + 22] == heading[0] && l[h + 24] == heading[2]);
    assert(l[h + 26 + i] == md_scenario(r.scenarios@[i], compared));
}

/// Behind the scenarios stands a row for each other sandbox, in order, and behind these one
/// for each profile.
pub proof fn lemma_md_tables(r: BenchmarkReport, j: int)
    ensures
        ({
            let l = md_lines(r);
            let n = md_head(r).len() as int + 26 + r.scenarios@.len();
            let p = if r.peer_reports@.len() > 0 {
                n + 5 + r.peer_reports@.len()
            } else {
                n
            };
            &&& 0 <= j < r.peer_reports@.len() ==> l[n + 5 + j] == row(
                peer_cells(r.peer_reports@[j]),
            )
            &&& 0 <= j < r.profile_reports@.len() ==> l[p + 5 + j] == row(
                profile_cells(r.profile_reports@[j]),
            )
            &&& r.profile_reports@.len() == 0 ==> l.len() == p
            &&& r.profile_reports@.len() > 0 ==> l.len() == p + 5 + r.profile_reports@.len()
        }),
{
    let l = md_lines(r);
    let n = md_head(r).len() as int + 26 + r.scenarios@.len();
    let p = if r.peer_reports@.len() > 0 {
        n + 5 + r.peer_reports@.len()
    } else {
        n
    };
    if 0 <= j < r.peer_reports@.len() {
        assert(l[n + 5 + j] == md_peer(r.peer_reports@[j]));
    }
    if 0 <= j < r.profile_reports@.len() {
        assert(l[p + 5 + j] == md_profile(r.profile_reports@[j]));
    }
}

} // verus!
