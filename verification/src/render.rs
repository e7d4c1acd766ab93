//! Benchmark reports as text and as Markdown.
use crate::args::OutputFormat;
use crate::diagnose::{availability_flag, yes_no};
use crate::lists::{append_list, no_texts, push_line};
use crate::number::{
    decimal, decimal_text, is_digit, lemma_decimal, signed_decimal, signed_decimal_text,
};
use crate::policy::{bool_name, bool_text};
use crate::report::{
    AdoptionMetrics, BenchmarkReport, BenchmarkSummary, PeerBenchmarkReport, ProfileBenchmarkReport,
};
use crate::sampling::{Ratio, ScenarioComparison, ScenarioReport};
use crate::text::{chars_of, concat, join, joined, texts};
use vstd::prelude::*;

verus! {

broadcast use vstd::seq::group_seq_axioms;

// ---------------------------------------------------------------------------
// Parts of lines

/// The lines one after the other, each with its end.
pub open spec fn ended(lines: Seq<Seq<char>>) -> Seq<char>
    decreases lines.len(),
{
    if lines.len() == 0 {
        Seq::<char>::empty()
    } else {
        ended(lines.drop_last()) + lines.last().push('\n')
    }
}

/// A number, or a dash where there is none.
pub open spec fn number_or_dash(value: Option<u64>) -> Seq<char> {
    match value {
        Some(n) => decimal(n as nat),
        None => "-"@,
    }
}

/// A text, or a dash where there is none.
pub open spec fn text_or_dash(value: Option<String>) -> Seq<char> {
    match value {
        Some(s) => s@,
        None => "-"@,
    }
}

/// A ratio, or a dash where there is none; a question mark where it is yet to be written.
pub open spec fn ratio_or_dash(value: Option<Ratio>) -> Seq<char> {
    match value {
        Some(Ratio::Written(s)) => s@,
        Some(Ratio::Owed) => "?"@,
        None => "-"@,
    }
}

/// An exit code, or a dash where there is none.
pub open spec fn code_or_dash(value: Option<i32>) -> Seq<char> {
    match value {
        Some(n) => signed_decimal(n as int),
        None => "-"@,
    }
}

/// A text as a cell of a table: bars are escaped, line ends become blanks.
pub open spec fn cell(s: Seq<char>) -> Seq<char>
    decreases s.len(),
{
    if s.len() == 0 {
        Seq::<char>::empty()
    } else if s.last() == '|' {
        cell(s.drop_last()).push('\\').push('|')
    } else if s.last() == '\n' {
        cell(s.drop_last()).push(' ')
    } else {
        cell(s.drop_last()).push(s.last())
    }
}

/// A row of a table.
pub open spec fn row(cells: Seq<Seq<char>>) -> Seq<char> {
    "| "@ + joined(cells, " | "@) + " |"@
}

/// A cell stays a cell: it has no line end, and every bar in it is escaped.
pub proof fn lemma_cell_stays_in_row(s: Seq<char>)
    ensures
        forall|i: int| 0 <= i < cell(s).len() ==> #[trigger] cell(s)[i] != '\n',
        forall|i: int|
            0 <= i < cell(s).len() && #[trigger] cell(s)[i] == '|' ==> i > 0 && cell(s)[i - 1]
                == '\\',
    decreases s.len(),
{
    if s.len() > 0 {
        let before = cell(s.drop_last());
        let all = cell(s);
        lemma_cell_stays_in_row(s.drop_last());
        assert forall|i: int| 0 <= i < all.len() implies #[trigger] all[i] != '\n' by {
            if i < before.len() {
                assert(all[i] == before[i]);
            }
        }
        assert forall|i: int| 0 <= i < all.len() && #[trigger] all[i] == '|' implies i > 0 && all[i
            - 1] == '\\' by {
            if i < before.len() {
                assert(all[i] == before[i]);
                assert(all[i - 1] == before[i - 1]);
            }
        }
    }
}

fn end_lines(lines: &Vec<String>) -> (out: String)
    ensures
        out@ == ended(texts(lines@)),
{
    let mut out = String::new();
    let ghost all = texts(lines@);
    assert(out@ =~= ended(all.take(0)));
    for i in 0..lines.len()
        invariant
            all == texts(lines@),
            out@ == ended(all.take(i as int)),
    {
        assert(all.take(i + 1).drop_last() =~= all.take(i as int));
        out.append(lines[i].as_str());
        out.push('\n');
        assert(out@ =~= ended(all.take(i + 1)));
    }
    assert(all.take(all.len() as int) =~= all);
    out
}

/// A number, or a dash where there is none.
pub fn format_opt_u64(value: Option<u64>) -> (out: String)
    ensures
        out@ == number_or_dash(value),
{
    match value {
        Some(n) => decimal_text(n as u128),
        None => "-".to_string(),
    }
}

fn format_opt_text(value: &Option<String>) -> (out: String)
    ensures
        out@ == text_or_dash(*value),
{
    match value {
        Some(s) => s.clone(),
        None => "-".to_string(),
    }
}

fn format_ratio(value: &Option<Ratio>) -> (out: String)
    ensures
        out@ == ratio_or_dash(*value),
{
    match value {
        Some(Ratio::Written(s)) => s.clone(),
        Some(Ratio::Owed) => "?".to_string(),
        None => "-".to_string(),
    }
}

fn format_opt_code(value: Option<i32>) -> (out: String)
    ensures
        out@ == code_or_dash(value),
{
    match value {
        Some(n) => signed_decimal_text(n as i64),
        None => "-".to_string(),
    }
}

fn number(n: usize) -> (out: String)
    ensures
        out@ == decimal(n as nat),
{
    decimal_text(n as u128)
}

/// A text as a cell of a table.
pub fn escape_md(input: &str) -> (out: String)
    ensures
        out@ == cell(input@),
{
    let chars = chars_of(input);
    let mut out = String::new();
    assert(out@ =~= cell(input@.take(0)));
    for i in 0..chars.len()
        invariant
            chars@ == input@,
            out@ == cell(input@.take(i as int)),
    {
        assert(input@.take(i + 1).drop_last() =~= input@.take(i as int));
        let c = chars[i];
        if c == '|' {
            out.push('\\');
            out.push('|');
        } else if c == '\n' {
            out.push(' ');
        } else {
            out.push(c);
        }
    }
    assert(input@.take(chars@.len() as int) =~= input@);
    out
}

fn table_row(cells: &Vec<String>) -> (out: String)
    ensures
        out@ == row(texts(cells@)),
{
    let mut out = concat("| ", join(cells, " | ").as_str());
    out.append(" |");
    out
}

fn ticked(label: &str, value: &str) -> (out: String)
    ensures
        out@ == label@ + value@ + "`"@,
{
    let mut out = concat(label, value);
    out.append("`");
    out
}

fn ticked_us(label: &str, value: &str) -> (out: String)
    ensures
        out@ == label@ + value@ + "` us"@,
{
    let mut out = concat(label, value);
    out.append("` us");
    out
}

/// The notes, each behind `label`.
pub open spec fn labelled(label: Seq<char>, notes: Seq<Seq<char>>) -> Seq<Seq<char>> {
    notes.map_values(|note: Seq<char>| label + note)
}

fn label_notes(label: &str, notes: &Vec<String>) -> (out: Vec<String>)
    ensures
        texts(out@) == labelled(label@, texts(notes@)),
{
    let mut out: Vec<String> = Vec::new();
    for i in 0..notes.len()
        invariant
            out.len() == i,
            forall|j: int| 0 <= j < i ==> out@[j]@ == label@ + #[trigger] notes@[j]@,
    {
        out.push(concat(label, notes[i].as_str()));
    }
    assert(texts(out@) =~= labelled(label@, texts(notes@)));
    out
}

// ---------------------------------------------------------------------------
// Text

/// The first lines of a report.
pub open spec fn text_head(r: BenchmarkReport) -> Seq<Seq<char>> {
    seq![
        "MicroBox benchmark report"@,
        "tool = "@ + r.tool@,
        "version = "@ + r.version@,
        "profile = "@ + r.profile@,
        "platform = "@ + r.platform@,
        "backend_requested = "@ + r.backend_requested@,
        "backend_selected = "@ + r.backend_selected@,
        "backend_secure_enforcement = "@ + bool_name(r.backend_secure_enforcement),
    ] + labelled("backend_note = "@, texts(r.backend_notes@)) + seq![
        "comparison_baseline = "@ + r.comparison_baseline@,
        "mode = "@ + r.mode@,
        "policy_resolution_us = "@ + decimal(r.policy_resolution_us as nat),
        "iterations = "@ + decimal(r.iterations as nat),
        "warmups = "@ + decimal(r.warmups as nat),
        ""@,
    ]
}

/// The lines on how much the user had to say.
pub open spec fn text_adoption(a: AdoptionMetrics) -> Seq<Seq<char>> {
    seq![
        "Adoption"@,
        "command_surface = "@ + a.command_surface@,
        "explicit_policy_flags = "@ + decimal(a.explicit_policy_flags as nat),
        "explicit_benchmark_flags = "@ + decimal(a.explicit_benchmark_flags as nat),
        "setup_steps = "@ + decimal(a.setup_steps as nat),
        "friction_score = "@ + decimal(a.friction_score as nat),
        "first_successful_run_us = "@ + number_or_dash(a.first_successful_run_us),
        "first_successful_scenario = "@ + text_or_dash(a.first_successful_scenario),
        ""@,
    ]
}

/// The lines of the summary.
pub open spec fn text_summary(s: BenchmarkSummary) -> Seq<Seq<char>> {
    seq![
        "Summary"@,
        "scenario_count = "@ + decimal(s.scenario_count as nat),
        "passed_scenarios = "@ + decimal(s.passed_scenarios as nat),
        "failed_scenarios = "@ + decimal(s.failed_scenarios as nat),
        "matched_baseline_scenarios = "@ + decimal(s.matched_baseline_scenarios as nat),
        "average_of_averages_us = "@ + number_or_dash(s.average_of_averages_us),
        "fastest_scenario = "@ + text_or_dash(s.fastest_scenario),
        "fastest_average_us = "@ + number_or_dash(s.fastest_average_us),
        "slowest_scenario = "@ + text_or_dash(s.slowest_scenario),
        "slowest_average_us = "@ + number_or_dash(s.slowest_average_us),
        "best_overall_us = "@ + number_or_dash(s.best_overall_us),
        "worst_overall_us = "@ + number_or_dash(s.worst_overall_us),
        ""@,
    ]
}

/// The lines of a comparison.
pub open spec fn text_comparison(c: Option<ScenarioComparison>) -> Seq<Seq<char>> {
    match c {
        Some(c) => seq![
            "  baseline_label = "@ + c.baseline_label@,
            "  baseline_average_us = "@ + decimal(c.baseline_average_us as nat),
            "  delta_us = "@ + signed_decimal(c.delta_us as int),
            "  delta_percent = "@ + ratio_or_dash(c.delta_percent),
            "  speedup = "@ + ratio_or_dash(c.speedup),
        ],
        None => Seq::<Seq<char>>::empty(),
    }
}

/// The lines of a scenario.
pub open spec fn text_scenario(s: ScenarioReport) -> Seq<Seq<char>> {
    seq![
        "- "@ + s.name@,
        "  description = "@ + s.description@,
        "  command = "@ + s.command@,
        "  success = "@ + bool_name(s.success),
        "  timed_out = "@ + bool_name(s.timed_out),
        "  exit_code = "@ + code_or_dash(s.exit_code),
        "  average_us = "@ + number_or_dash(s.average_us),
        "  best_us = "@ + number_or_dash(s.best_us),
        "  worst_us = "@ + number_or_dash(s.worst_us),
        "  stdout_bytes = "@ + decimal(s.stdout_bytes as nat),
        "  stderr_bytes = "@ + decimal(s.stderr_bytes as nat),
    ] + match s.error {
        Some(e) => seq!["  error = "@ + e@],
        None => Seq::<Seq<char>>::empty(),
    } + text_comparison(s.comparison) + labelled("  note = "@, texts(s.notes@))
}

/// The lines of all scenarios.
pub open spec fn text_scenarios(s: Seq<ScenarioReport>) -> Seq<Seq<char>>
    decreases s.len(),
{
    if s.len() == 0 {
        Seq::<Seq<char>>::empty()
    } else {
        text_scenarios(s.drop_last()) + text_scenario(s.last())
    }
}

/// The lines of another sandbox.
pub open spec fn text_peer(p: PeerBenchmarkReport) -> Seq<Seq<char>> {
    seq!["- target = "@ + p.target@ + " available = "@ + yes_no(p.available)] + match p.reason {
        Some(reason) => seq!["  reason = "@ + reason@],
        None => Seq::<Seq<char>>::empty(),
    } + match p.report {
        Some(r) => seq![
            "  passed_scenarios = "@ + decimal(r.summary.passed_scenarios as nat),
            "  failed_scenarios = "@ + decimal(r.summary.failed_scenarios as nat),
            "  average_of_averages_us = "@ + number_or_dash(r.summary.average_of_averages_us),
            "  fastest_scenario = "@ + text_or_dash(r.summary.fastest_scenario),
            "  slowest_scenario = "@ + text_or_dash(r.summary.slowest_scenario),
        ],
        None => Seq::<Seq<char>>::empty(),
    }
}

/// The lines of all other sandboxes.
pub open spec fn text_peers(s: Seq<PeerBenchmarkReport>) -> Seq<Seq<char>>
    decreases s.len(),
{
    if s.len() == 0 {
        Seq::<Seq<char>>::empty()
    } else {
        text_peers(s.drop_last()) + text_peer(s.last())
    }
}

/// The lines of a profile.
pub open spec fn text_profile(p: ProfileBenchmarkReport) -> Seq<Seq<char>> {
    seq![
        "- profile = "@ + p.profile@,
        "  scenario_count = "@ + decimal(p.summary.scenario_count as nat),
        "  passed_scenarios = "@ + decimal(p.summary.passed_scenarios as nat),
        "  failed_scenarios = "@ + decimal(p.summary.failed_scenarios as nat),
        "  average_of_averages_us = "@ + number_or_dash(p.summary.average_of_averages_us),
        "  fastest_scenario = "@ + text_or_dash(p.summary.fastest_scenario),
        "  slowest_scenario = "@ + text_or_dash(p.summary.slowest_scenario),
    ]
}

/// The lines of all profiles.
pub open spec fn text_profiles(s: Seq<ProfileBenchmarkReport>) -> Seq<Seq<char>>
    decreases s.len(),
{
    if s.len() == 0 {
        Seq::<Seq<char>>::empty()
    } else {
        text_profiles(s.drop_last()) + text_profile(s.last())
    }
}

/// A section that is left out where it has nothing to tell.
pub open spec fn section(heading: Seq<Seq<char>>, lines: Seq<Seq<char>>, shown: bool) -> Seq<
    Seq<char>,
> {
    if shown {
        heading + lines
    } else {
        Seq::<Seq<char>>::empty()
    }
}

/// The lines of a report as text.
pub open spec fn text_lines(r: BenchmarkReport) -> Seq<Seq<char>> {
    text_head(r) + text_adoption(r.adoption) + text_summary(r.summary) + seq!["Scenarios"@]
        + text_scenarios(r.scenarios@) + section(
        seq![""@, "Peer targets"@],
        text_peers(r.peer_reports@),
        r.peer_reports@.len() > 0,
    ) + section(
        seq![""@, "Profile runs"@],
        text_profiles(r.profile_reports@),
        r.profile_reports@.len() > 0,
    )
}

fn render_text_head(r: &BenchmarkReport) -> (out: Vec<String>)
    ensures
        texts(out@) == text_head(*r),
{
    let first: Vec<String> = vec![
        "MicroBox benchmark report".to_string(),
        concat("tool = ", r.tool.as_str()),
        concat("version = ", r.version.as_str()),
        concat("profile = ", r.profile.as_str()),
        concat("platform = ", r.platform.as_str()),
        concat("backend_requested = ", r.backend_requested.as_str()),
        concat("backend_selected = ", r.backend_selected.as_str()),
        concat("backend_secure_enforcement = ", bool_text(r.backend_secure_enforcement)),
    ];
    let last: Vec<String> = vec![
        concat("comparison_baseline = ", r.comparison_baseline.as_str()),
        concat("mode = ", r.mode.as_str()),
        concat("policy_resolution_us = ", decimal_text(r.policy_resolution_us as u128).as_str()),
        concat("iterations = ", decimal_text(r.iterations as u128).as_str()),
        concat("warmups = ", decimal_text(r.warmups as u128).as_str()),
        "".to_string(),
    ];
    let out = append_list(first, &label_notes("backend_note = ", &r.backend_notes));
    let out = append_list(out, &last);
    assert(texts(out@) =~= text_head(*r));
    out
}

fn render_text_adoption(a: &AdoptionMetrics) -> (out: Vec<String>)
    ensures
        texts(out@) == text_adoption(*a),
{
    let out: Vec<String> = vec![
        "Adoption".to_string(),
        concat("command_surface = ", a.command_surface.as_str()),
        concat("explicit_policy_flags = ", number(a.explicit_policy_flags).as_str()),
        concat("explicit_benchmark_flags = ", number(a.explicit_benchmark_flags).as_str()),
        concat("setup_steps = ", number(a.setup_steps).as_str()),
        concat("friction_score = ", number(a.friction_score).as_str()),
        concat("first_successful_run_us = ", format_opt_u64(a.first_successful_run_us).as_str()),
        concat(
            "first_successful_scenario = ",
            format_opt_text(&a.first_successful_scenario).as_str(),
        ),
        "".to_string(),
    ];
    assert(texts(out@) =~= text_adoption(*a));
    out
}

fn render_text_summary(s: &BenchmarkSummary) -> (out: Vec<String>)
    ensures
        texts(out@) == text_summary(*s),
{
    let out: Vec<String> = vec![
        "Summary".to_string(),
        concat("scenario_count = ", number(s.scenario_count).as_str()),
        concat("passed_scenarios = ", number(s.passed_scenarios).as_str()),
        concat("failed_scenarios = ", number(s.failed_scenarios).as_str()),
        concat("matched_baseline_scenarios = ", number(s.matched_baseline_scenarios).as_str()),
        concat("average_of_averages_us = ", format_opt_u64(s.average_of_averages_us).as_str()),
        concat("fastest_scenario = ", format_opt_text(&s.fastest_scenario).as_str()),
        concat("fastest_average_us = ", format_opt_u64(s.fastest_average_us).as_str()),
        concat("slowest_scenario = ", format_opt_text(&s.slowest_scenario).as_str()),
        concat("slowest_average_us = ", format_opt_u64(s.slowest_average_us).as_str()),
        concat("best_overall_us = ", format_opt_u64(s.best_overall_us).as_str()),
        concat("worst_overall_us = ", format_opt_u64(s.worst_overall_us).as_str()),
        "".to_string(),
    ];
    assert(texts(out@) =~= text_summary(*s));
    out
}

fn render_text_comparison(c: &Option<ScenarioComparison>) -> (out: Vec<String>)
    ensures
        texts(out@) == text_comparison(*c),
{
    match c {
        Some(c) => {
            let out: Vec<String> = vec![
                concat("  baseline_label = ", c.baseline_label.as_str()),
                concat(
                    "  baseline_average_us = ",
                    decimal_text(c.baseline_average_us as u128).as_str(),
                ),
                concat("  delta_us = ", signed_decimal_text(c.delta_us).as_str()),
                concat("  delta_percent = ", format_ratio(&c.delta_percent).as_str()),
                concat("  speedup = ", format_ratio(&c.speedup).as_str()),
            ];
            assert(texts(out@) =~= text_comparison(Some(*c)));
            out
        },
        None => no_texts(),
    }
}

fn render_text_scenario(s: &ScenarioReport) -> (out: Vec<String>)
    ensures
        texts(out@) == text_scenario(*s),
{
    let first: Vec<String> = vec![
        concat("- ", s.name.as_str()),
        concat("  description = ", s.description.as_str()),
        concat("  command = ", s.command.as_str()),
        concat("  success = ", bool_text(s.success)),
        concat("  timed_out = ", bool_text(s.timed_out)),
        concat("  exit_code = ", format_opt_code(s.exit_code).as_str()),
        concat("  average_us = ", format_opt_u64(s.average_us).as_str()),
        concat("  best_us = ", format_opt_u64(s.best_us).as_str()),
        concat("  worst_us = ", format_opt_u64(s.worst_us).as_str()),
        concat("  stdout_bytes = ", number(s.stdout_bytes).as_str()),
        concat("  stderr_bytes = ", number(s.stderr_bytes).as_str()),
    ];
    let out = match &s.error {
        Some(e) => push_line(first, concat("  error = ", e.as_str())),
        None => first,
    };
    let out = append_list(out, &render_text_comparison(&s.comparison));
    let out = append_list(out, &label_notes("  note = ", &s.notes));
    assert(texts(out@) =~= text_scenario(*s));
    out
}

fn render_text_peer(p: &PeerBenchmarkReport) -> (out: Vec<String>)
    ensures
        texts(out@) == text_peer(*p),
{
    let mut head = concat("- target = ", p.target.as_str());
    head.append(" available = ");
    head.append(availability_flag(p.available));
    let out: Vec<String> = vec![head];
    let out = match &p.reason {
        Some(reason) => push_line(out, concat("  reason = ", reason.as_str())),
        None => out,
    };
    let out = match &p.report {
        Some(r) => {
            let more: Vec<String> = vec![
                concat("  passed_scenarios = ", number(r.summary.passed_scenarios).as_str()),
                concat("  failed_scenarios = ", number(r.summary.failed_scenarios).as_str()),
                concat(
                    "  average_of_averages_us = ",
                    format_opt_u64(r.summary.average_of_averages_us).as_str(),
                ),
                concat(
                    "  fastest_scenario = ",
                    format_opt_text(&r.summary.fastest_scenario).as_str(),
                ),
                concat(
                    "  slowest_scenario = ",
                    format_opt_text(&r.summary.slowest_scenario).as_str(),
                ),
            ];
            append_list(out, &more)
        },
        None => out,
    };
    assert(texts(out@) =~= text_peer(*p));
    out
}

fn render_text_profile(p: &ProfileBenchmarkReport) -> (out: Vec<String>)
    ensures
        texts(out@) == text_profile(*p),
{
    let s = &p.summary;
    let out: Vec<String> = vec![
        concat("- profile = ", p.profile.as_str()),
        concat("  scenario_count = ", number(s.scenario_count).as_str()),
        concat("  passed_scenarios = ", number(s.passed_scenarios).as_str()),
        concat("  failed_scenarios = ", number(s.failed_scenarios).as_str()),
        concat("  average_of_averages_us = ", format_opt_u64(s.average_of_averages_us).as_str()),
        concat("  fastest_scenario = ", format_opt_text(&s.fastest_scenario).as_str()),
        concat("  slowest_scenario = ", format_opt_text(&s.slowest_scenario).as_str()),
    ];
    assert(texts(out@) =~= text_profile(*p));
    out
}

fn push_text_scenarios(lines: Vec<String>, s: &Vec<ScenarioReport>) -> (out: Vec<String>)
    ensures
        texts(out@) == texts(lines@) + text_scenarios(s@),
{
    let ghost start = texts(lines@);
    let mut out = lines;
    assert(texts(out@) =~= start + text_scenarios(s@.take(0)));
    for i in 0..s.len()
        invariant
            texts(out@) == start + text_scenarios(s@.take(i as int)),
    {
        assert(s@.take(i + 1).drop_last() =~= s@.take(i as int));
        out = append_list(out, &render_text_scenario(&s[i]));
        assert(texts(out@) =~= start + text_scenarios(s@.take(i + 1)));
    }
    assert(s@.take(s@.len() as int) =~= s@);
    out
}

fn push_text_peers(lines: Vec<String>, s: &Vec<PeerBenchmarkReport>) -> (out: Vec<String>)
    ensures
        texts(out@) == texts(lines@) + text_peers(s@),
{
    let ghost start = texts(lines@);
    let mut out = lines;
    assert(texts(out@) =~= start + text_peers(s@.take(0)));
    for i in 0..s.len()
        invariant
            texts(out@) == start + text_peers(s@.take(i as int)),
    {
        assert(s@.take(i + 1).drop_last() =~= s@.take(i as int));
        out = append_list(out, &render_text_peer(&s[i]));
        assert(texts(out@) =~= start + text_peers(s@.take(i + 1)));
    }
    assert(s@.take(s@.len() as int) =~= s@);
    out
}

fn push_text_profiles(lines: Vec<String>, s: &Vec<ProfileBenchmarkReport>) -> (out: Vec<String>)
    ensures
        texts(out@) == texts(lines@) + text_profiles(s@),
{
    let ghost start = texts(lines@);
    let mut out = lines;
    assert(texts(out@) =~= start + text_profiles(s@.take(0)));
    for i in 0..s.len()
        invariant
            texts(out@) == start + text_profiles(s@.take(i as int)),
    {
        assert(s@.take(i + 1).drop_last() =~= s@.take(i as int));
        out = append_list(out, &render_text_profile(&s[i]));
        assert(texts(out@) =~= start + text_profiles(s@.take(i + 1)));
    }
    assert(s@.take(s@.len() as int) =~= s@);
    out
}

/// A report as text.
pub fn render_text(report: &BenchmarkReport) -> (out: String)
    ensures
        out@ == ended(text_lines(*report)),
{
    let lines = render_text_head(report);
    let lines = append_list(lines, &render_text_adoption(&report.adoption));
    let lines = append_list(lines, &render_text_summary(&report.summary));
    let lines = push_line(lines, "Scenarios".to_string());
    let lines = push_text_scenarios(lines, &report.scenarios);
    let ghost body = texts(lines@);
    assert(body =~= text_head(*report) + text_adoption(report.adoption) + text_summary(
        report.summary,
    ) + seq!["Scenarios"@] + text_scenarios(report.scenarios@));
    let lines = if report.peer_reports.len() > 0 {
        let headed = push_line(push_line(lines, "".to_string()), "Peer targets".to_string());
        push_text_peers(headed, &report.peer_reports)
    } else {
        lines
    };
    let ghost with_peers = body + section(
        seq![""@, "Peer targets"@],
        text_peers(report.peer_reports@),
        report.peer_reports@.len() > 0,
    );
    assert(texts(lines@) =~= with_peers);
    let lines = if report.profile_reports.len() > 0 {
        let headed = push_line(push_line(lines, "".to_string()), "Profile runs".to_string());
        push_text_profiles(headed, &report.profile_reports)
    } else {
        lines
    };
    assert(texts(lines@) =~= with_peers + section(
        seq![""@, "Profile runs"@],
        text_profiles(report.profile_reports@),
        report.profile_reports@.len() > 0,
    ));
    end_lines(&lines)
}

// ---------------------------------------------------------------------------
// Markdown

/// The first lines of a report in Markdown.
pub open spec fn md_head(r: BenchmarkReport) -> Seq<Seq<char>> {
    seq![
        "# MicroBox benchmark report"@,
        ""@,
        "- Tool: `"@ + r.tool@ + "`"@,
        "- Version: `"@ + r.version@ + "`"@,
        "- Profile: `"@ + r.profile@ + "`"@,
        "- Platform: `"@ + r.platform@ + "`"@,
        "- Backend requested: `"@ + r.backend_requested@ + "`"@,
        "- Backend selected: `"@ + r.backend_selected@ + "`"@,
        "- Secure enforcement: `"@ + bool_name(r.backend_secure_enforcement) + "`"@,
        "- Comparison baseline: `"@ + r.comparison_baseline@ + "`"@,
        "- Mode: `"@ + r.mode@ + "`"@,
        "- Policy resolution: `"@ + decimal(r.policy_resolution_us as nat) + "` us"@,
        "- Iterations: `"@ + decimal(r.iterations as nat) + "`"@,
        "- Warmups: `"@ + decimal(r.warmups as nat) + "`"@,
    ] + section(
        seq![""@, "### Backend notes"@],
        labelled("- "@, texts(r.backend_notes@)),
        r.backend_notes@.len() > 0,
    ) + seq![""@]
}

/// The lines on how much the user had to say, in Markdown.
pub open spec fn md_adoption(a: AdoptionMetrics) -> Seq<Seq<char>> {
    seq![
        "## Adoption"@,
        "- Command surface: `"@ + a.command_surface@ + "`"@,
        "- Explicit policy flags: `"@ + decimal(a.explicit_policy_flags as nat) + "`"@,
        "- Explicit benchmark flags: `"@ + decimal(a.explicit_benchmark_flags as nat) + "`"@,
        "- Setup steps: `"@ + decimal(a.setup_steps as nat) + "`"@,
        "- Friction score: `"@ + decimal(a.friction_score as nat) + "`"@,
        "- First successful run: `"@ + number_or_dash(a.first_successful_run_us) + "` us"@,
        "- First successful scenario: `"@ + text_or_dash(a.first_successful_scenario) + "`"@,
        ""@,
    ]
}

/// The lines of the summary in Markdown.
pub open spec fn md_summary(s: BenchmarkSummary) -> Seq<Seq<char>> {
    seq![
        "## Summary"@,
        "- Scenarios: `"@ + decimal(s.scenario_count as nat) + "`"@,
        "- Passed: `"@ + decimal(s.passed_scenarios as nat) + "`"@,
        "- Failed: `"@ + decimal(s.failed_scenarios as nat) + "`"@,
        "- Baseline matches: `"@ + decimal(s.matched_baseline_scenarios as nat) + "`"@,
        "- Average of averages: `"@ + number_or_dash(s.average_of_averages_us) + "` us"@,
        "- Fastest scenario: `"@ + text_or_dash(s.fastest_scenario) + "`"@,
        "- Fastest average: `"@ + number_or_dash(s.fastest_average_us) + "` us"@,
        "- Slowest scenario: `"@ + text_or_dash(s.slowest_scenario) + "`"@,
        "- Slowest average: `"@ + number_or_dash(s.slowest_average_us) + "` us"@,
        "- Best overall sample: `"@ + number_or_dash(s.best_overall_us) + "` us"@,
        "- Worst overall sample: `"@ + number_or_dash(s.worst_overall_us) + "` us"@,
        ""@,
    ]
}

/// Some scenario is compared.
pub open spec fn any_comparison(s: Seq<ScenarioReport>) -> bool {
    exists|i: int| 0 <= i < s.len() && (#[trigger] s[i]).comparison is Some
}

/// The columns of the table of scenarios.
pub open spec fn scenario_columns(compared: bool) -> Seq<Seq<char>> {
    let front = seq!["Scenario"@, "Success"@, "Avg (us)"@, "Best (us)"@, "Worst (us)"@];
    if compared {
        front + seq!["Baseline (us)"@, "Delta (us)"@, "Speedup"@, "Notes"@]
    } else {
        front + seq!["Notes"@]
    }
}

/// How the columns of the table of scenarios are aligned.
pub open spec fn scenario_alignment(compared: bool) -> Seq<Seq<char>> {
    let front = seq!["---"@, "---"@, "---:"@, "---:"@, "---:"@];
    if compared {
        front + seq!["---:"@, "---:"@, "---:"@, "---"@]
    } else {
        front + seq!["---"@]
    }
}

/// The headings of the table of scenarios.
pub open spec fn md_scenario_heading(compared: bool) -> Seq<Seq<char>> {
    seq![
        "## Scenarios"@,
        ""@,
        row(scenario_columns(compared)),
        row(scenario_alignment(compared)),
    ]
}

/// The cells of a scenario. Where others are compared and it is not, it has dashes.
pub open spec fn scenario_cells(s: ScenarioReport, compared: bool) -> Seq<Seq<char>> {
    let notes = cell(joined(texts(s.notes@), " · "@));
    let front = seq![
        cell(s.name@),
        yes_no(s.success),
        number_or_dash(s.average_us),
        number_or_dash(s.best_us),
        number_or_dash(s.worst_us),
    ];
    if !compared {
        front + seq![notes]
    } else {
        match s.comparison {
            Some(c) => front + seq![
                decimal(c.baseline_average_us as nat),
                signed_decimal(c.delta_us as int),
                cell(ratio_or_dash(c.speedup)),
                notes,
            ],
            None => front + seq!["-"@, "-"@, "-"@, notes],
        }
    }
}

/// The row of a scenario.
pub open spec fn md_scenario(s: ScenarioReport, compared: bool) -> Seq<char> {
    row(scenario_cells(s, compared))
}

/// The cells of another sandbox.
pub open spec fn peer_cells(p: PeerBenchmarkReport) -> Seq<Seq<char>> {
    let figures = match p.report {
        Some(r) => seq![
            decimal(r.summary.passed_scenarios as nat),
            decimal(r.summary.failed_scenarios as nat),
            number_or_dash(r.summary.average_of_averages_us),
        ],
        None => seq!["-"@, "-"@, "-"@],
    };
    let notes = match p.reason {
        Some(reason) => cell(reason@),
        None => "-"@,
    };
    seq![cell(p.target@), yes_no(p.available)] + figures + seq![notes]
}

/// The row of another sandbox.
pub open spec fn md_peer(p: PeerBenchmarkReport) -> Seq<char> {
    row(peer_cells(p))
}

/// The cells of a profile.
pub open spec fn profile_cells(p: ProfileBenchmarkReport) -> Seq<Seq<char>> {
    seq![
        cell(p.profile@),
        decimal(p.summary.scenario_count as nat),
        decimal(p.summary.passed_scenarios as nat),
        decimal(p.summary.failed_scenarios as nat),
        number_or_dash(p.summary.average_of_averages_us),
        cell(text_or_dash(p.summary.fastest_scenario)),
        cell(text_or_dash(p.summary.slowest_scenario)),
    ]
}

/// The row of a profile.
pub open spec fn md_profile(p: ProfileBenchmarkReport) -> Seq<char> {
    row(profile_cells(p))
}

/// The columns of the table of other sandboxes.
pub open spec fn peer_columns() -> Seq<Seq<char>> {
    seq!["Target"@, "Available"@, "Passed"@, "Failed"@, "Avg of avgs (us)"@, "Notes"@]
}

/// The headings of the table of other sandboxes.
pub open spec fn md_peer_heading() -> Seq<Seq<char>> {
    seq![
        ""@,
        "## Peer Targets"@,
        ""@,
        row(peer_columns()),
        row(seq!["---"@, "---"@, "---:"@, "---:"@, "---:"@, "---"@]),
    ]
}

/// The columns of the table of profiles.
pub open spec fn profile_columns() -> Seq<Seq<char>> {
    seq![
        "Profile"@,
        "Scenarios"@,
        "Passed"@,
        "Failed"@,
        "Avg of avgs (us)"@,
        "Fastest"@,
        "Slowest"@,
    ]
}

/// The headings of the table of profiles.
pub open spec fn md_profile_heading() -> Seq<Seq<char>> {
    seq![
        ""@,
        "## Profile Runs"@,
        ""@,
        row(profile_columns()),
        row(seq!["---"@, "---:"@, "---:"@, "---:"@, "---:"@, "---"@, "---"@]),
    ]
}

// ---------------------------------------------------------------------------
// Tables are well formed

/// Every bar in the text is escaped.
pub open spec fn bars_escaped(s: Seq<char>) -> bool {
    forall|i: int| 0 <= i < s.len() && #[trigger] s[i] == '|' ==> i > 0 && s[i - 1] == '\\'
}

/// The number of bars that are not escaped, which are those between cells.
pub open spec fn open_bars(s: Seq<char>) -> nat
    decreases s.len(),
{
    if s.len() == 0 {
        0
    } else {
        open_bars(s.drop_last()) + if s.last() == '|' && (s.len() == 1 || s[s.len() - 2] != '\\') {
            1nat
        } else {
            0
        }
    }
}

proof fn lemma_no_open_bars(s: Seq<char>)
    requires
        bars_escaped(s),
    ensures
        open_bars(s) == 0,
    decreases s.len(),
{
    if s.len() > 0 {
        let t = s.drop_last();
        assert forall|i: int| 0 <= i < t.len() && #[trigger] t[i] == '|' implies i > 0 && t[i - 1]
            == '\\' by {
            assert(s[i] == '|');
        }
        lemma_no_open_bars(t);
        assert(s[s.len() - 1] == s.last());
    }
}

/// Bars of two texts add up where the second does not start with a bar.
proof fn lemma_open_bars_concat(a: Seq<char>, b: Seq<char>)
    requires
        b.len() > 0 ==> b[0] != '|',
    ensures
        open_bars(a + b) == open_bars(a) + open_bars(b),
    decreases b.len(),
{
    if b.len() == 0 {
        assert(a + b =~= a);
    } else {
        assert((a + b).drop_last() =~= a + b.drop_last());
        lemma_open_bars_concat(a, b.drop_last());
    }
}

proof fn lemma_bars_of_parts()
    ensures
        open_bars(" | "@) == 1,
        open_bars("| "@) == 1,
        open_bars(" |"@) == 1,
        " | "@[0] == ' ',
        " |"@[0] == ' ',
{
    reveal_strlit(" | ");
    reveal_strlit("| ");
    reveal_strlit(" |");
    reveal_with_fuel(open_bars, 4);
}

proof fn lemma_bars_of_joined(cells: Seq<Seq<char>>)
    requires
        cells.len() > 0,
        forall|i: int| 0 <= i < cells.len() ==> bars_escaped(#[trigger] cells[i]),
    ensures
        open_bars(joined(cells, " | "@)) == cells.len() - 1,
        joined(cells, " | "@).len() > 0 ==> joined(cells, " | "@)[0] != '|',
    decreases cells.len(),
{
    lemma_bars_of_parts();
    reveal_strlit(" | ");
    lemma_no_open_bars(cells[cells.len() - 1]);
    if cells.len() > 1 {
        let rest = cells.drop_last();
        assert forall|i: int| 0 <= i < rest.len() implies bars_escaped(#[trigger] rest[i]) by {
            assert(rest[i] == cells[i]);
        }
        lemma_bars_of_joined(rest);
        let before = joined(rest, " | "@);
        lemma_open_bars_concat(before, " | "@);
        lemma_open_bars_concat(before + " | "@, cells.last());
    }
}

/// A row has a bar in front of every cell and one behind the last.
proof fn lemma_bars_of_row(cells: Seq<Seq<char>>)
    requires
        cells.len() > 0,
        forall|i: int| 0 <= i < cells.len() ==> bars_escaped(#[trigger] cells[i]),
    ensures
        open_bars(row(cells)) == cells.len() + 1,
{
    lemma_bars_of_parts();
    lemma_bars_of_joined(cells);
    let inner = joined(cells, " | "@);
    lemma_open_bars_concat("| "@, inner);
    lemma_open_bars_concat("| "@ + inner, " |"@);
}

proof fn lemma_digits_have_no_bars(n: nat)
    ensures
        bars_escaped(decimal(n)),
{
    lemma_decimal(n);
    assert forall|i: int| 0 <= i < decimal(n).len() implies #[trigger] decimal(n)[i] != '|' by {
        assert(is_digit(decimal(n)[i]));
    }
}

proof fn lemma_plain_cells(value: Option<u64>, delta: i64, flag: bool)
    ensures
        bars_escaped("-"@),
        bars_escaped(number_or_dash(value)),
        bars_escaped(signed_decimal(delta as int)),
        bars_escaped(yes_no(flag)),
{
    reveal_strlit("-");
    reveal_strlit("yes");
    reveal_strlit("no");
    if let Some(n) = value {
        lemma_digits_have_no_bars(n as nat);
    }
    if delta < 0 {
        let digits = decimal((-delta) as nat);
        lemma_decimal((-delta) as nat);
        let all = seq!['-'] + digits;
        assert forall|i: int| 0 <= i < all.len() implies #[trigger] all[i] != '|' by {
            if i > 0 {
                assert(all[i] == digits[i - 1]);
                assert(is_digit(digits[i - 1]));
            }
        }
    } else {
        lemma_digits_have_no_bars(delta as nat);
    }
}

proof fn lemma_column_names()
    ensures
        bars_escaped("Scenario"@),
        bars_escaped("Success"@),
        bars_escaped("Avg (us)"@),
        bars_escaped("Best (us)"@),
        bars_escaped("Worst (us)"@),
        bars_escaped("Baseline (us)"@),
        bars_escaped("Delta (us)"@),
        bars_escaped("Speedup"@),
        bars_escaped("Notes"@),
        bars_escaped("Target"@),
        bars_escaped("Available"@),
        bars_escaped("Passed"@),
        bars_escaped("Failed"@),
        bars_escaped("Avg of avgs (us)"@),
        bars_escaped("Profile"@),
        bars_escaped("Scenarios"@),
        bars_escaped("Fastest"@),
        bars_escaped("Slowest"@),
{
    reveal_strlit("Scenario");
    reveal_strlit("Success");
    reveal_strlit("Avg (us)");
    reveal_strlit("Best (us)");
    reveal_strlit("Worst (us)");
    reveal_strlit("Baseline (us)");
    reveal_strlit("Delta (us)");
    reveal_strlit("Speedup");
    reveal_strlit("Notes");
    reveal_strlit("Target");
    reveal_strlit("Available");
    reveal_strlit("Passed");
    reveal_strlit("Failed");
    reveal_strlit("Avg of avgs (us)");
    reveal_strlit("Profile");
    reveal_strlit("Scenarios");
    reveal_strlit("Fastest");
    reveal_strlit("Slowest");
}

/// The table of scenarios is well formed: whether or not a scenario is compared, its row has
/// as many cells as the heading has columns, and as many bars between them.
pub proof fn lemma_scenario_row_fits(s: ScenarioReport, compared: bool)
    ensures
        scenario_cells(s, compared).len() == scenario_columns(compared).len(),
        scenario_alignment(compared).len() == scenario_columns(compared).len(),
        open_bars(md_scenario(s, compared)) == scenario_columns(compared).len() + 1,
        open_bars(row(scenario_columns(compared))) == scenario_columns(compared).len() + 1,
{
    let cells = scenario_cells(s, compared);
    let columns = scenario_columns(compared);
    lemma_column_names();
    assert forall|i: int| 0 <= i < columns.len() implies bars_escaped(#[trigger] columns[i]) by {}
    lemma_bars_of_row(columns);
    let delta = match s.comparison {
        Some(c) => c.delta_us,
        None => 0i64,
    };
    lemma_plain_cells(s.average_us, delta, s.success);
    lemma_plain_cells(s.best_us, delta, s.success);
    lemma_plain_cells(s.worst_us, delta, s.success);
    lemma_cell_stays_in_row(s.name@);
    lemma_cell_stays_in_row(joined(texts(s.notes@), " · "@));
    if let Some(c) = s.comparison {
        lemma_digits_have_no_bars(c.baseline_average_us as nat);
        lemma_cell_stays_in_row(ratio_or_dash(c.speedup));
    }
    assert forall|i: int| 0 <= i < cells.len() implies bars_escaped(#[trigger] cells[i]) by {}
    lemma_bars_of_row(cells);
}

/// The table of other sandboxes is well formed.
pub proof fn lemma_peer_row_fits(p: PeerBenchmarkReport)
    ensures
        peer_cells(p).len() == peer_columns().len(),
        open_bars(md_peer(p)) == peer_columns().len() + 1,
        open_bars(row(peer_columns())) == peer_columns().len() + 1,
{
    let cells = peer_cells(p);
    let columns = peer_columns();
    lemma_column_names();
    assert forall|i: int| 0 <= i < columns.len() implies bars_escaped(#[trigger] columns[i]) by {}
    lemma_bars_of_row(columns);
    lemma_plain_cells(None, 0, p.available);
    lemma_cell_stays_in_row(p.target@);
    if let Some(reason) = p.reason {
        lemma_cell_stays_in_row(reason@);
    }
    if let Some(r) = p.report {
        lemma_digits_have_no_bars(r.summary.passed_scenarios as nat);
        lemma_digits_have_no_bars(r.summary.failed_scenarios as nat);
        lemma_plain_cells(r.summary.average_of_averages_us, 0, p.available);
    }
    assert forall|i: int| 0 <= i < cells.len() implies bars_escaped(#[trigger] cells[i]) by {}
    lemma_bars_of_row(cells);
}

/// The table of profiles is well formed.
pub proof fn lemma_profile_row_fits(p: ProfileBenchmarkReport)
    ensures
        profile_cells(p).len() == profile_columns().len(),
        open_bars(md_profile(p)) == profile_columns().len() + 1,
        open_bars(row(profile_columns())) == profile_columns().len() + 1,
{
    let cells = profile_cells(p);
    let columns = profile_columns();
    lemma_column_names();
    assert forall|i: int| 0 <= i < columns.len() implies bars_escaped(#[trigger] columns[i]) by {}
    lemma_bars_of_row(columns);
    lemma_cell_stays_in_row(p.profile@);
    lemma_digits_have_no_bars(p.summary.scenario_count as nat);
    lemma_digits_have_no_bars(p.summary.passed_scenarios as nat);
    lemma_digits_have_no_bars(p.summary.failed_scenarios as nat);
    lemma_plain_cells(p.summary.average_of_averages_us, 0, true);
    lemma_cell_stays_in_row(text_or_dash(p.summary.fastest_scenario));
    lemma_cell_stays_in_row(text_or_dash(p.summary.slowest_scenario));
    assert forall|i: int| 0 <= i < cells.len() implies bars_escaped(#[trigger] cells[i]) by {}
    lemma_bars_of_row(cells);
}

/// The rows of the scenarios.
pub open spec fn md_scenarios(s: Seq<ScenarioReport>, compared: bool) -> Seq<Seq<char>> {
    s.map_values(|one: ScenarioReport| md_scenario(one, compared))
}

/// The lines of a report in Markdown.
pub open spec fn md_lines(r: BenchmarkReport) -> Seq<Seq<char>> {
    md_head(r) + md_adoption(r.adoption) + md_summary(r.summary) + md_scenario_heading(
        any_comparison(r.scenarios@),
    ) + md_scenarios(r.scenarios@, any_comparison(r.scenarios@)) + section(
        md_peer_heading(),
        r.peer_reports@.map_values(|p: PeerBenchmarkReport| md_peer(p)),
        r.peer_reports@.len() > 0,
    ) + section(
        md_profile_heading(),
        r.profile_reports@.map_values(|p: ProfileBenchmarkReport| md_profile(p)),
        r.profile_reports@.len() > 0,
    )
}

fn render_md_head(r: &BenchmarkReport) -> (out: Vec<String>)
    ensures
        texts(out@) == md_head(*r),
{
    let first: Vec<String> = vec![
        "# MicroBox benchmark report".to_string(),
        "".to_string(),
        ticked("- Tool: `", r.tool.as_str()),
        ticked("- Version: `", r.version.as_str()),
        ticked("- Profile: `", r.profile.as_str()),
        ticked("- Platform: `", r.platform.as_str()),
        ticked("- Backend requested: `", r.backend_requested.as_str()),
        ticked("- Backend selected: `", r.backend_selected.as_str()),
        ticked("- Secure enforcement: `", bool_text(r.backend_secure_enforcement)),
        ticked("- Comparison baseline: `", r.comparison_baseline.as_str()),
        ticked("- Mode: `", r.mode.as_str()),
        ticked_us("- Policy resolution: `", decimal_text(r.policy_resolution_us as u128).as_str()),
        ticked("- Iterations: `", decimal_text(r.iterations as u128).as_str()),
        ticked("- Warmups: `", decimal_text(r.warmups as u128).as_str()),
    ];
    let ghost a = texts(first@);
    let out = if r.backend_notes.len() > 0 {
        let headed = push_line(
            push_line(first, "".to_string()),
            "### Backend notes".to_string(),
        );
        append_list(headed, &label_notes("- ", &r.backend_notes))
    } else {
        first
    };
    let ghost noted = section(
        seq![""@, "### Backend notes"@],
        labelled("- "@, texts(r.backend_notes@)),
        r.backend_notes@.len() > 0,
    );
    assert(texts(out@) =~= a + noted);
    let out = push_line(out, "".to_string());
    assert(texts(out@) =~= md_head(*r));
    out
}

fn render_md_adoption(a: &AdoptionMetrics) -> (out: Vec<String>)
    ensures
        texts(out@) == md_adoption(*a),
{
    let out: Vec<String> = vec![
        "## Adoption".to_string(),
        ticked("- Command surface: `", a.command_surface.as_str()),
        ticked("- Explicit policy flags: `", number(a.explicit_policy_flags).as_str()),
        ticked("- Explicit benchmark flags: `", number(a.explicit_benchmark_flags).as_str()),
        ticked("- Setup steps: `", number(a.setup_steps).as_str()),
        ticked("- Friction score: `", number(a.friction_score).as_str()),
        ticked_us("- First successful run: `", format_opt_u64(a.first_successful_run_us).as_str()),
        ticked(
            "- First successful scenario: `",
            format_opt_text(&a.first_successful_scenario).as_str(),
        ),
        "".to_string(),
    ];
    assert(texts(out@) =~= md_adoption(*a));
    out
}

fn render_md_summary(s: &BenchmarkSummary) -> (out: Vec<String>)
    ensures
        texts(out@) == md_summary(*s),
{
    let out: Vec<String> = vec![
        "## Summary".to_string(),
        ticked("- Scenarios: `", number(s.scenario_count).as_str()),
        ticked("- Passed: `", number(s.passed_scenarios).as_str()),
        ticked("- Failed: `", number(s.failed_scenarios).as_str()),
        ticked("- Baseline matches: `", number(s.matched_baseline_scenarios).as_str()),
        ticked_us("- Average of averages: `", format_opt_u64(s.average_of_averages_us).as_str()),
        ticked("- Fastest scenario: `", format_opt_text(&s.fastest_scenario).as_str()),
        ticked_us("- Fastest average: `", format_opt_u64(s.fastest_average_us).as_str()),
        ticked("- Slowest scenario: `", format_opt_text(&s.slowest_scenario).as_str()),
        ticked_us("- Slowest average: `", format_opt_u64(s.slowest_average_us).as_str()),
        ticked_us("- Best overall sample: `", format_opt_u64(s.best_overall_us).as_str()),
        ticked_us("- Worst overall sample: `", format_opt_u64(s.worst_overall_us).as_str()),
        "".to_string(),
    ];
    assert(texts(out@) =~= md_summary(*s));
    out
}

fn has_comparison(s: &Vec<ScenarioReport>) -> (r: bool)
    ensures
        r == any_comparison(s@),
{
    for i in 0..s.len()
        invariant
            forall|j: int| 0 <= j < i ==> (#[trigger] s@[j]).comparison is None,
    {
        if s[i].comparison.is_some() {
            return true;
        }
    }
    false
}

fn scenario_column_names(compared: bool) -> (out: Vec<String>)
    ensures
        texts(out@) == scenario_columns(compared),
{
    let front: Vec<String> = vec![
        "Scenario".to_string(),
        "Success".to_string(),
        "Avg (us)".to_string(),
        "Best (us)".to_string(),
        "Worst (us)".to_string(),
    ];
    let more: Vec<String> = if compared {
        vec![
            "Baseline (us)".to_string(),
            "Delta (us)".to_string(),
            "Speedup".to_string(),
            "Notes".to_string(),
        ]
    } else {
        vec!["Notes".to_string()]
    };
    let out = append_list(front, &more);
    assert(texts(out@) =~= scenario_columns(compared));
    out
}

fn scenario_column_alignment(compared: bool) -> (out: Vec<String>)
    ensures
        texts(out@) == scenario_alignment(compared),
{
    let front: Vec<String> = vec![
        "---".to_string(),
        "---".to_string(),
        "---:".to_string(),
        "---:".to_string(),
        "---:".to_string(),
    ];
    let more: Vec<String> = if compared {
        vec!["---:".to_string(), "---:".to_string(), "---:".to_string(), "---".to_string()]
    } else {
        vec!["---".to_string()]
    };
    let out = append_list(front, &more);
    assert(texts(out@) =~= scenario_alignment(compared));
    out
}

fn render_md_scenario_heading(compared: bool) -> (out: Vec<String>)
    ensures
        texts(out@) == md_scenario_heading(compared),
{
    let out: Vec<String> = vec![
        "## Scenarios".to_string(),
        "".to_string(),
        table_row(&scenario_column_names(compared)),
        table_row(&scenario_column_alignment(compared)),
    ];
    assert(texts(out@) =~= md_scenario_heading(compared));
    out
}

fn render_md_scenario(s: &ScenarioReport, compared: bool) -> (out: String)
    ensures
        out@ == md_scenario(*s, compared),
{
    let notes = escape_md(join(&s.notes, " · ").as_str());
    let front: Vec<String> = vec![
        escape_md(s.name.as_str()),
        availability_flag(s.success).to_string(),
        format_opt_u64(s.average_us),
        format_opt_u64(s.best_us),
        format_opt_u64(s.worst_us),
    ];
    let more: Vec<String> = if !compared {
        vec![notes]
    } else {
        match &s.comparison {
            Some(c) => vec![
                decimal_text(c.baseline_average_us as u128),
                signed_decimal_text(c.delta_us),
                escape_md(format_ratio(&c.speedup).as_str()),
                notes,
            ],
            None => vec!["-".to_string(), "-".to_string(), "-".to_string(), notes],
        }
    };
    let cells = append_list(front, &more);
    assert(texts(cells@) =~= scenario_cells(*s, compared));
    table_row(&cells)
}

fn render_md_peer(p: &PeerBenchmarkReport) -> (out: String)
    ensures
        out@ == md_peer(*p),
{
    let (passed, failed, average) = match &p.report {
        Some(r) => (
            number(r.summary.passed_scenarios),
            number(r.summary.failed_scenarios),
            format_opt_u64(r.summary.average_of_averages_us),
        ),
        None => ("-".to_string(), "-".to_string(), "-".to_string()),
    };
    let notes = match &p.reason {
        Some(reason) => escape_md(reason.as_str()),
        None => "-".to_string(),
    };
    let ghost figures = seq![passed@, failed@, average@];
    let ghost tail = notes@;
    let cells: Vec<String> = vec![
        escape_md(p.target.as_str()),
        availability_flag(p.available).to_string(),
        passed,
        failed,
        average,
        notes,
    ];
    assert(texts(cells@) =~= seq![cell(p.target@), yes_no(p.available)] + figures + seq![tail]);
    table_row(&cells)
}

fn render_md_profile(p: &ProfileBenchmarkReport) -> (out: String)
    ensures
        out@ == md_profile(*p),
{
    let s = &p.summary;
    let cells: Vec<String> = vec![
        escape_md(p.profile.as_str()),
        number(s.scenario_count),
        number(s.passed_scenarios),
        number(s.failed_scenarios),
        format_opt_u64(s.average_of_averages_us),
        escape_md(format_opt_text(&s.fastest_scenario).as_str()),
        escape_md(format_opt_text(&s.slowest_scenario).as_str()),
    ];
    assert(texts(cells@) =~= seq![
        cell(p.profile@),
        decimal(p.summary.scenario_count as nat),
        decimal(p.summary.passed_scenarios as nat),
        decimal(p.summary.failed_scenarios as nat),
        number_or_dash(p.summary.average_of_averages_us),
        cell(text_or_dash(p.summary.fastest_scenario)),
        cell(text_or_dash(p.summary.slowest_scenario)),
    ]);
    table_row(&cells)
}

fn push_md_scenarios(lines: Vec<String>, s: &Vec<ScenarioReport>, compared: bool) -> (out: Vec<
    String,
>)
    ensures
        texts(out@) == texts(lines@) + md_scenarios(s@, compared),
{
    let ghost start = texts(lines@);
    let ghost rows = md_scenarios(s@, compared);
    let mut out = lines;
    assert(texts(out@) =~= start + rows.take(0));
    for i in 0..s.len()
        invariant
            rows == md_scenarios(s@, compared),
            texts(out@) == start + rows.take(i as int),
    {
        out = push_line(out, render_md_scenario(&s[i], compared));
        assert(texts(out@) =~= start + rows.take(i + 1));
    }
    assert(rows.take(rows.len() as int) =~= rows);
    out
}

fn push_md_peers(lines: Vec<String>, s: &Vec<PeerBenchmarkReport>) -> (out: Vec<String>)
    ensures
        texts(out@) == texts(lines@) + s@.map_values(|p: PeerBenchmarkReport| md_peer(p)),
{
    let ghost start = texts(lines@);
    let ghost rows = s@.map_values(|p: PeerBenchmarkReport| md_peer(p));
    let mut out = lines;
    assert(texts(out@) =~= start + rows.take(0));
    for i in 0..s.len()
        invariant
            rows == s@.map_values(|p: PeerBenchmarkReport| md_peer(p)),
            texts(out@) == start + rows.take(i as int),
    {
        out = push_line(out, render_md_peer(&s[i]));
        assert(texts(out@) =~= start + rows.take(i + 1));
    }
    assert(rows.take(rows.len() as int) =~= rows);
    out
}

fn push_md_profiles(lines: Vec<String>, s: &Vec<ProfileBenchmarkReport>) -> (out: Vec<String>)
    ensures
        texts(out@) == texts(lines@) + s@.map_values(|p: ProfileBenchmarkReport| md_profile(p)),
{
    let ghost start = texts(lines@);
    let ghost rows = s@.map_values(|p: ProfileBenchmarkReport| md_profile(p));
    let mut out = lines;
    assert(texts(out@) =~= start + rows.take(0));
    for i in 0..s.len()
        invariant
            rows == s@.map_values(|p: ProfileBenchmarkReport| md_profile(p)),
            texts(out@) == start + rows.take(i as int),
    {
        out = push_line(out, render_md_profile(&s[i]));
        assert(texts(out@) =~= start + rows.take(i + 1));
    }
    assert(rows.take(rows.len() as int) =~= rows);
    out
}

fn peer_heading() -> (out: Vec<String>)
    ensures
        texts(out@) == md_peer_heading(),
{
    let columns: Vec<String> = vec![
        "Target".to_string(),
        "Available".to_string(),
        "Passed".to_string(),
        "Failed".to_string(),
        "Avg of avgs (us)".to_string(),
        "Notes".to_string(),
    ];
    assert(texts(columns@) =~= peer_columns());
    let alignment: Vec<String> = vec![
        "---".to_string(),
        "---".to_string(),
        "---:".to_string(),
        "---:".to_string(),
        "---:".to_string(),
        "---".to_string(),
    ];
    assert(texts(alignment@) =~= seq!["---"@, "---"@, "---:"@, "---:"@, "---:"@, "---"@]);
    let out: Vec<String> = vec![
        "".to_string(),
        "## Peer Targets".to_string(),
        "".to_string(),
        table_row(&columns),
        table_row(&alignment),
    ];
    assert(texts(out@) =~= md_peer_heading());
    out
}

fn profile_heading() -> (out: Vec<String>)
    ensures
        texts(out@) == md_profile_heading(),
{
    let columns: Vec<String> = vec![
        "Profile".to_string(),
        "Scenarios".to_string(),
        "Passed".to_string(),
        "Failed".to_string(),
        "Avg of avgs (us)".to_string(),
        "Fastest".to_string(),
        "Slowest".to_string(),
    ];
    assert(texts(columns@) =~= profile_columns());
    let alignment: Vec<String> = vec![
        "---".to_string(),
        "---:".to_string(),
        "---:".to_string(),
        "---:".to_string(),
        "---:".to_string(),
        "---".to_string(),
        "---".to_string(),
    ];
    assert(texts(alignment@) =~= seq!["---"@, "---:"@, "---:"@, "---:"@, "---:"@, "---"@, "---"@]);
    let out: Vec<String> = vec![
        "".to_string(),
        "## Profile Runs".to_string(),
        "".to_string(),
        table_row(&columns),
        table_row(&alignment),
    ];
    assert(texts(out@) =~= md_profile_heading());
    out
}

/// A report in Markdown.
pub fn render_markdown(report: &BenchmarkReport) -> (out: String)
    ensures
        out@ == ended(md_lines(*report)),
{
    let lines = render_md_head(report);
    let lines = append_list(lines, &render_md_adoption(&report.adoption));
    let lines = append_list(lines, &render_md_summary(&report.summary));
    let compared = has_comparison(&report.scenarios);
    let lines = append_list(lines, &render_md_scenario_heading(compared));
    let lines = push_md_scenarios(lines, &report.scenarios, compared);
    let ghost body = texts(lines@);
    let lines = if report.peer_reports.len() > 0 {
        push_md_peers(append_list(lines, &peer_heading()), &report.peer_reports)
    } else {
        lines
    };
    let ghost with_peers = body + section(
        md_peer_heading(),
        report.peer_reports@.map_values(|p: PeerBenchmarkReport| md_peer(p)),
        report.peer_reports@.len() > 0,
    );
    assert(texts(lines@) =~= with_peers);
    let lines = if report.profile_reports.len() > 0 {
        push_md_profiles(append_list(lines, &profile_heading()), &report.profile_reports)
    } else {
        lines
    };
    assert(texts(lines@) =~= with_peers + section(
        md_profile_heading(),
        report.profile_reports@.map_values(|p: ProfileBenchmarkReport| md_profile(p)),
        report.profile_reports@.len() > 0,
    ));
    end_lines(&lines)
}

/// How a report is told; JSON is left to the caller.
pub fn render_report(report: &BenchmarkReport, format: OutputFormat) -> (out: Option<String>)
    ensures
        match format {
            OutputFormat::Text => out matches Some(text) && text@ == ended(text_lines(*report)),
            OutputFormat::Markdown => out matches Some(text) && text@ == ended(md_lines(*report)),
            OutputFormat::Json => out is None,
        },
{
    match format {
        OutputFormat::Text => Some(render_text(report)),
        OutputFormat::Markdown => Some(render_markdown(report)),
        OutputFormat::Json => None,
    }
}

} // verus!
