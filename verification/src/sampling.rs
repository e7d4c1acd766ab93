//! Sampling: from the runs of a scenario to its report.
use crate::command::written_plan;
use crate::duration::Duration;
use crate::errors::{sandbox_message, SandboxError};
use crate::lists::copy_list;
use crate::number::{decimal, decimal_text, signed_decimal, signed_decimal_text};
use crate::request::ExecutionResult;
use crate::scenario::{BenchmarkScenario, PortableScenario, ScenarioModel};
use crate::text::{concat, opt_text, texts};
use vstd::prelude::*;
use vstd::utf8::encode_utf8;

verus! {

broadcast use vstd::seq::group_seq_axioms;

// ---------------------------------------------------------------------------
// One run

/// What a report keeps of one run.
#[derive(Debug, Clone, Copy, PartialEq, Eq, Structural)]
pub struct RunSample {
    pub duration: Duration,
    pub exit_code: i32,
    pub timed_out: bool,
    pub stdout_bytes: usize,
    pub stderr_bytes: usize,
}

/// The length of a run in microseconds, or the largest `u64` where that is smaller.
pub open spec fn sample_micros(nanos: nat) -> u64 {
    if nanos / 1_000 <= u64::MAX {
        (nanos / 1_000) as u64
    } else {
        u64::MAX
    }
}

/// The length of a span in microseconds.
pub fn micros_u64(duration: Duration) -> (micros: u64)
    ensures
        micros == sample_micros(duration@),
{
    let micros = duration.as_micros();
    if micros > u64::MAX as u128 {
        u64::MAX
    } else {
        micros as u64
    }
}

/// What a report keeps of a result.
pub fn sample_of(result: &ExecutionResult) -> (sample: RunSample)
    ensures
        sample.duration == result.duration,
        sample.exit_code == result.code(),
        sample.timed_out == result.timed_out,
        sample.stdout_bytes == encode_utf8(result.stdout@).len(),
        sample.stderr_bytes == encode_utf8(result.stderr@).len(),
{
    RunSample {
        duration: result.duration,
        exit_code: result.exit_code(),
        timed_out: result.timed_out,
        stdout_bytes: result.stdout.as_str().as_bytes().len(),
        stderr_bytes: result.stderr.as_str().as_bytes().len(),
    }
}

// ---------------------------------------------------------------------------
// All runs of a scenario

/// What the runs of a scenario came to.
pub struct TallyModel {
    pub samples: Seq<u64>,
    pub exit_code: Option<i32>,
    pub timed_out: bool,
    pub stdout_bytes: nat,
    pub stderr_bytes: nat,
    pub error: Option<Seq<char>>,
}

/// Before the first run.
pub open spec fn empty_tally() -> TallyModel {
    TallyModel {
        samples: Seq::<u64>::empty(),
        exit_code: None,
        timed_out: false,
        stdout_bytes: 0,
        stderr_bytes: 0,
        error: None,
    }
}

/// One run more. The first one that fails, or that could not be started, is the last that
/// counts.
pub open spec fn tally_step(t: TallyModel, run: Result<RunSample, SandboxError>) -> TallyModel {
    if t.error is Some {
        t
    } else {
        match run {
            Ok(s) => TallyModel {
                samples: t.samples.push(sample_micros(s.duration@)),
                exit_code: Some(s.exit_code),
                timed_out: t.timed_out || s.timed_out,
                stdout_bytes: t.stdout_bytes + s.stdout_bytes as nat,
                stderr_bytes: t.stderr_bytes + s.stderr_bytes as nat,
                error: if s.exit_code != 0 {
                    Some("command exited with "@ + signed_decimal(s.exit_code as int))
                } else {
                    None
                },
            },
            Err(e) => TallyModel { error: Some(sandbox_message(e@)), ..t },
        }
    }
}

/// What a sequence of runs came to.
pub open spec fn tallied(runs: Seq<Result<RunSample, SandboxError>>) -> TallyModel
    decreases runs.len(),
{
    if runs.len() == 0 {
        empty_tally()
    } else {
        tally_step(tallied(runs.drop_last()), runs.last())
    }
}

/// The smallest of the numbers.
pub open spec fn least(s: Seq<u64>) -> Option<u64>
    decreases s.len(),
{
    if s.len() == 0 {
        None
    } else {
        match least(s.drop_last()) {
            Some(m) if m <= s.last() => Some(m),
            _ => Some(s.last()),
        }
    }
}

/// The largest of the numbers.
pub open spec fn greatest(s: Seq<u64>) -> Option<u64>
    decreases s.len(),
{
    if s.len() == 0 {
        None
    } else {
        match greatest(s.drop_last()) {
            Some(m) if m >= s.last() => Some(m),
            _ => Some(s.last()),
        }
    }
}

/// The sum of the numbers.
pub open spec fn total(s: Seq<u64>) -> nat
    decreases s.len(),
{
    if s.len() == 0 {
        0
    } else {
        total(s.drop_last()) + s.last() as nat
    }
}

/// The average of the numbers in whole microseconds, at least one.
pub open spec fn average(s: Seq<u64>) -> Option<nat> {
    if s.len() == 0 {
        None
    } else if total(s) / s.len() == 0 {
        Some(1)
    } else {
        Some(total(s) / s.len())
    }
}

/// A scenario succeeds where every run counts, none was late, and there was one.
pub open spec fn tally_success(t: TallyModel) -> bool {
    t.error is None && t.samples.len() > 0 && !t.timed_out
}

proof fn lemma_total_bounds(s: Seq<u64>, low: u64, high: u64)
    requires
        forall|i: int| 0 <= i < s.len() ==> low <= #[trigger] s[i] <= high,
    ensures
        low * s.len() <= total(s) <= high * s.len(),
    decreases s.len(),
{
    if s.len() > 0 {
        assert forall|i: int| 0 <= i < s.drop_last().len() implies low
            <= #[trigger] s.drop_last()[i] <= high by {
            assert(s.drop_last()[i] == s[i]);
        }
        lemma_total_bounds(s.drop_last(), low, high);
        let n = s.len();
        assert(low <= s[n - 1] <= high);
        assert(low * n == low * (n - 1) + low && high * n == high * (n - 1) + high)
            by (nonlinear_arith);
    }
}

/// The smallest and the largest of some numbers are among them, and every number lies between
/// the two.
pub proof fn lemma_extremes(s: Seq<u64>)
    requires
        s.len() > 0,
    ensures
        least(s) is Some,
        greatest(s) is Some,
        forall|i: int| 0 <= i < s.len() ==> least(s)->0 <= #[trigger] s[i] <= greatest(s)->0,
        s.contains(least(s)->0),
        s.contains(greatest(s)->0),
    decreases s.len(),
{
    let t = s.drop_last();
    assert(s[s.len() - 1] == s.last());
    if t.len() > 0 {
        lemma_extremes(t);
        assert forall|i: int| 0 <= i < s.len() implies least(s)->0 <= #[trigger] s[i]
            <= greatest(s)->0 by {
            if i < t.len() {
                assert(t[i] == s[i]);
            }
        }
        let i = choose|i: int| 0 <= i < t.len() && t[i] == least(t)->0;
        let j = choose|j: int| 0 <= j < t.len() && t[j] == greatest(t)->0;
        assert(s[i] == least(t)->0 && s[j] == greatest(t)->0);
    }
}

/// The figures of a scenario fit together: the best sample is not above the average, and
/// the average is not above the worst sample, or one microsecond.
pub proof fn lemma_average_between(s: Seq<u64>)
    requires
        s.len() > 0,
    ensures
        average(s) is Some,
        least(s) is Some,
        greatest(s) is Some,
        least(s)->0 <= average(s)->0,
        average(s)->0 <= greatest(s)->0 || average(s)->0 == 1,
{
    lemma_extremes(s);
    let low = least(s)->0;
    let high = greatest(s)->0;
    lemma_total_bounds(s, low, high);
    let n = s.len();
    let sum = total(s);
    assert(low <= sum / n <= high) by (nonlinear_arith)
        requires
            n > 0,
            low * n <= sum <= high * n,
    ;
}

/// The runs behind the first that fails change nothing.
pub proof fn lemma_tally_stops(runs: Seq<Result<RunSample, SandboxError>>, n: int)
    requires
        0 <= n <= runs.len(),
        tallied(runs.take(n)).error is Some,
    ensures
        tallied(runs) == tallied(runs.take(n)),
    decreases runs.len(),
{
    if n == runs.len() {
        assert(runs.take(n) =~= runs);
    } else {
        assert(runs.drop_last().take(n) =~= runs.take(n));
        lemma_tally_stops(runs.drop_last(), n);
    }
}

/// The runs of a scenario so far.
#[derive(Debug)]
pub struct SampleTally {
    pub samples: Vec<u64>,
    pub best: Option<u64>,
    pub worst: Option<u64>,
    pub exit_code: Option<i32>,
    pub timed_out: bool,
    pub stdout_bytes: usize,
    pub stderr_bytes: usize,
    pub error: Option<String>,
}

impl View for SampleTally {
    type V = TallyModel;

    open spec fn view(&self) -> TallyModel {
        TallyModel {
            samples: self.samples@,
            exit_code: self.exit_code,
            timed_out: self.timed_out,
            stdout_bytes: self.stdout_bytes as nat,
            stderr_bytes: self.stderr_bytes as nat,
            error: opt_text(self.error),
        }
    }
}

impl SampleTally {
    /// The extremes are those of the samples.
    pub open spec fn wf(&self) -> bool {
        self.best == least(self.samples@) && self.worst == greatest(self.samples@)
    }

    /// The output of one run more can be counted.
    pub open spec fn has_room(&self, run: Result<RunSample, SandboxError>) -> bool {
        run matches Ok(s) ==> self.stdout_bytes + s.stdout_bytes <= usize::MAX
            && self.stderr_bytes + s.stderr_bytes <= usize::MAX
    }

    /// Before the first run.
    pub fn new() -> (tally: SampleTally)
        ensures
            tally.wf(),
            tally@ == empty_tally(),
    {
        let tally = SampleTally {
            samples: Vec::new(),
            best: None,
            worst: None,
            exit_code: None,
            timed_out: false,
            stdout_bytes: 0,
            stderr_bytes: 0,
            error: None,
        };
        assert(tally@.samples =~= Seq::<u64>::empty());
        tally
    }

    /// Whether the output of one run more can be counted.
    pub fn room_for(&self, run: &Result<RunSample, SandboxError>) -> (r: bool)
        ensures
            r == self.has_room(*run),
    {
        match run {
            Ok(s) => s.stdout_bytes <= usize::MAX - self.stdout_bytes && s.stderr_bytes
                <= usize::MAX - self.stderr_bytes,
            Err(_) => true,
        }
    }

    /// Counts one run more; tells whether the next one is to be made.
    pub fn count(&mut self, run: &Result<RunSample, SandboxError>) -> (go_on: bool)
        requires
            old(self).wf(),
            old(self).has_room(*run),
        ensures
            final(self).wf(),
            final(self)@ == tally_step(old(self)@, *run),
            go_on == (final(self).error is None),
    {
        if self.error.is_some() {
            return false;
        }
        match run {
            Ok(s) => {
                let micros = micros_u64(s.duration);
                let ghost before = self.samples@;
                self.stdout_bytes = self.stdout_bytes + s.stdout_bytes;
                self.stderr_bytes = self.stderr_bytes + s.stderr_bytes;
                self.timed_out = self.timed_out || s.timed_out;
                self.exit_code = Some(s.exit_code);
                self.samples.push(micros);
                assert(self.samples@.drop_last() =~= before);
                self.best = match self.best {
                    Some(m) if m <= micros => Some(m),
                    _ => Some(micros),
                };
                self.worst = match self.worst {
                    Some(m) if m >= micros => Some(m),
                    _ => Some(micros),
                };
                if s.exit_code != 0 {
                    self.error = Some(
                        concat(
                            "command exited with ",
                            signed_decimal_text(s.exit_code as i64).as_str(),
                        ),
                    );
                    return false;
                }
                true
            },
            Err(e) => {
                self.error = Some(e.message());
                false
            },
        }
    }
}

// ---------------------------------------------------------------------------
// Reports

/// A ratio of two figures, of which the second is not zero.
#[derive(Debug, Clone)]
pub enum Ratio {
    /// It is yet to be written.
    Owed,
    /// It is written with two decimals.
    Written(String),
}

/// How a scenario compares with the same scenario of another report. Each ratio is missing
/// where it would divide by zero.
#[derive(Debug, Clone)]
pub struct ScenarioComparison {
    pub baseline_label: String,
    pub baseline_average_us: u64,
    pub delta_us: i64,
    pub delta_percent: Option<Ratio>,
    pub speedup: Option<Ratio>,
}

/// What the runs of a scenario came to.
#[derive(Debug, Clone)]
pub struct ScenarioReport {
    pub name: String,
    pub description: String,
    pub command: String,
    pub samples_us: Vec<u64>,
    pub average_us: Option<u64>,
    pub best_us: Option<u64>,
    pub worst_us: Option<u64>,
    pub success: bool,
    pub timed_out: bool,
    pub exit_code: Option<i32>,
    pub stdout_bytes: usize,
    pub stderr_bytes: usize,
    pub error: Option<String>,
    pub comparison: Option<ScenarioComparison>,
    pub notes: Vec<String>,
}

/// The report is about the scenario.
pub open spec fn reports_on(report: ScenarioReport, scenario: ScenarioModel<Seq<char>>) -> bool {
    &&& report.name@ == scenario.name
    &&& report.description@ == scenario.description
    &&& report.command@ == scenario.command
    &&& texts(report.notes@) == scenario.notes
    &&& report.comparison is None
}

/// The report tells what the runs came to.
pub open spec fn tells_tally(report: ScenarioReport, t: TallyModel) -> bool {
    &&& report.samples_us@ == t.samples
    &&& match (report.average_us, average(t.samples)) {
        (Some(a), Some(b)) => a == b,
        (None, None) => true,
        _ => false,
    }
    &&& report.best_us == least(t.samples)
    &&& report.worst_us == greatest(t.samples)
    &&& report.success == tally_success(t)
    &&& report.timed_out == t.timed_out
    &&& report.exit_code == t.exit_code
    &&& report.stdout_bytes == t.stdout_bytes
    &&& report.stderr_bytes == t.stderr_bytes
    &&& opt_text(report.error) == t.error
}

/// What is told of a warmup that keeps a scenario from being measured: it could not be
/// run, or it was late.
pub open spec fn warmup_fault(index: u32, run: Result<RunSample, SandboxError>) -> Option<Seq<char>> {
    match run {
        Err(e) => Some("warmup "@ + decimal(index as nat) + " failed: "@ + sandbox_message(e@)),
        Ok(s) => if s.timed_out {
            Some("warmup "@ + decimal(index as nat) + " timed out"@)
        } else {
            None
        },
    }
}

/// The report tells of a warmup that kept the scenario from being measured.
pub open spec fn tells_warmup(
    report: ScenarioReport,
    index: u32,
    run: Result<RunSample, SandboxError>,
) -> bool {
    &&& report.samples_us@.len() == 0
    &&& report.average_us is None
    &&& report.best_us is None
    &&& report.worst_us is None
    &&& !report.success
    &&& report.timed_out == (run is Ok)
    &&& report.exit_code == match run {
        Ok(s) => Some(s.exit_code),
        Err(_) => None,
    }
    &&& report.stdout_bytes == match run {
        Ok(s) => s.stdout_bytes,
        Err(_) => 0,
    }
    &&& report.stderr_bytes == match run {
        Ok(s) => s.stderr_bytes,
        Err(_) => 0,
    }
    &&& opt_text(report.error) == warmup_fault(index, run)
}

/// What a scenario is called in reports.
#[derive(Debug, Clone)]
pub struct ScenarioLabels {
    pub name: String,
    pub description: String,
    pub command: String,
    pub notes: Vec<String>,
}

impl View for ScenarioLabels {
    type V = ScenarioModel<Seq<char>>;

    open spec fn view(&self) -> ScenarioModel<Seq<char>> {
        ScenarioModel {
            name: self.name@,
            description: self.description@,
            command: self.command@,
            notes: texts(self.notes@),
        }
    }
}

/// What a scenario is called in reports.
pub fn scenario_labels(scenario: &BenchmarkScenario) -> (labels: ScenarioLabels)
    ensures
        labels@ == (ScenarioModel {
            name: scenario@.name,
            description: scenario@.description,
            command: written_plan(scenario@.command),
            notes: scenario@.notes,
        }),
{
    ScenarioLabels {
        name: scenario.name.clone(),
        description: scenario.description.clone(),
        command: scenario.command.display(),
        notes: copy_list(&scenario.notes),
    }
}

/// What a portable scenario is called in reports.
pub fn portable_labels(scenario: &PortableScenario) -> (labels: ScenarioLabels)
    ensures
        labels@ == scenario@,
{
    ScenarioLabels {
        name: scenario.name.clone(),
        description: scenario.description.clone(),
        command: scenario.command.clone(),
        notes: copy_list(&scenario.notes),
    }
}

/// The report that a warmup brings about, where it keeps the scenario from being measured.
pub fn warmup_failure(
    labels: &ScenarioLabels,
    index: u32,
    run: &Result<RunSample, SandboxError>,
) -> (out: Option<ScenarioReport>)
    ensures
        out is Some == warmup_fault(index, *run) is Some,
        out matches Some(report) ==> reports_on(report, labels@) && tells_warmup(
            report,
            index,
            *run,
        ),
{
    let number = decimal_text(index as u128);
    let (text, timed_out, exit_code, stdout_bytes, stderr_bytes) = match run {
        Err(e) => {
            let mut text = concat("warmup ", number.as_str());
            text.append(" failed: ");
            text.append(e.message().as_str());
            (text, false, None, 0usize, 0usize)
        },
        Ok(s) => {
            if !s.timed_out {
                return None;
            }
            let mut text = concat("warmup ", number.as_str());
            text.append(" timed out");
            (text, true, Some(s.exit_code), s.stdout_bytes, s.stderr_bytes)
        },
    };
    Some(
        ScenarioReport {
            name: labels.name.clone(),
            description: labels.description.clone(),
            command: labels.command.clone(),
            samples_us: Vec::new(),
            average_us: None,
            best_us: None,
            worst_us: None,
            success: false,
            timed_out,
            exit_code,
            stdout_bytes,
            stderr_bytes,
            error: Some(text),
            comparison: None,
            notes: copy_list(&labels.notes),
        },
    )
}

/// The average of the samples in whole microseconds, at least one.
pub fn average_of(samples: &Vec<u64>) -> (out: Option<u64>)
    ensures
        match (out, average(samples@)) {
            (Some(a), Some(b)) => a == b,
            (None, None) => true,
            _ => false,
        },
{
    if samples.len() == 0 {
        return None;
    }
    let mut sum: u128 = 0;
    for i in 0..samples.len()
        invariant
            sum == total(samples@.take(i as int)),
            sum <= u64::MAX * i,
    {
        let ghost next = samples@.take(i + 1);
        assert(next.drop_last() =~= samples@.take(i as int));
        assert(sum + samples@[i as int] <= u128::MAX) by (nonlinear_arith)
            requires
                sum <= u64::MAX * i,
                i <= usize::MAX,
                samples@[i as int] <= u64::MAX,
        ;
        assert(u64::MAX * (i + 1) == u64::MAX * i + u64::MAX) by (nonlinear_arith);
        sum = sum + samples[i] as u128;
    }
    assert(samples@.take(samples@.len() as int) =~= samples@);
    proof {
        lemma_total_bounds(samples@, 0, u64::MAX);
    }
    let n = samples.len() as u128;
    let quotient = sum / n;
    assert(quotient <= u64::MAX) by (nonlinear_arith)
        requires
            n > 0,
            sum <= u64::MAX * n,
            quotient == sum / n,
    ;
    if quotient == 0 {
        Some(1)
    } else {
        Some(quotient as u64)
    }
}

impl SampleTally {
    /// The report on the scenario.
    pub fn report(self, labels: ScenarioLabels) -> (report: ScenarioReport)
        requires
            self.wf(),
        ensures
            reports_on(report, labels@),
            tells_tally(report, self@),
    {
        let average_us = average_of(&self.samples);
        let success = self.error.is_none() && self.samples.len() > 0 && !self.timed_out;
        ScenarioReport {
            name: labels.name,
            description: labels.description,
            command: labels.command,
            samples_us: self.samples,
            average_us,
            best_us: self.best,
            worst_us: self.worst,
            success,
            timed_out: self.timed_out,
            exit_code: self.exit_code,
            stdout_bytes: self.stdout_bytes,
            stderr_bytes: self.stderr_bytes,
            error: self.error,
            comparison: None,
            notes: labels.notes,
        }
    }
}

// ---------------------------------------------------------------------------
// The first success

/// When, and in which scenario, a benchmark first succeeded.
#[derive(Debug, Clone)]
pub struct FirstSuccess {
    pub run_us: Option<u64>,
    pub scenario: Option<String>,
}

/// A run that succeeded.
pub open spec fn run_succeeded(run: Result<RunSample, SandboxError>) -> bool {
    run matches Ok(s) && !s.timed_out && s.exit_code == 0
}

impl FirstSuccess {
    /// Before the first run.
    pub fn new() -> (first: FirstSuccess)
        ensures
            first.run_us is None,
            first.scenario is None,
    {
        FirstSuccess { run_us: None, scenario: None }
    }

    /// Takes note of a run that is looked at `elapsed` after the start of the benchmark.
    /// Only the first success counts.
    pub fn note(&mut self, run: &Result<RunSample, SandboxError>, elapsed: Duration, name: &str)
        ensures
            if old(self).run_us is None && run_succeeded(*run) {
                final(self).run_us == Some(sample_micros(elapsed@)) && opt_text(
                    final(self).scenario,
                ) == Some(name@)
            } else {
                *final(self) == *old(self)
            },
    {
        if self.run_us.is_none() {
            if let Ok(s) = run {
                if !s.timed_out && s.exit_code == 0 {
                    self.run_us = Some(micros_u64(elapsed));
                    self.scenario = Some(name.to_string());
                }
            }
        }
    }
}

// ---------------------------------------------------------------------------
// Measuring a scenario run by run

/// A scenario that is being measured: first come the warmups, then the runs that count.
/// Whoever measures it makes runs as long as the scenario wants one, and hands each in.
pub struct ScenarioRun {
    labels: ScenarioLabels,
    warmups: u32,
    iterations: u32,
    warmed: u32,
    made: u32,
    tally: SampleTally,
    stopped: Option<ScenarioReport>,
    history: Ghost<Seq<Result<RunSample, SandboxError>>>,
}

/// The warmup that keeps the scenario from being measured, where the last of the runs is
/// one.
pub open spec fn stopped_at(runs: Seq<Result<RunSample, SandboxError>>, warmups: u32) -> Option<
    u32,
> {
    if 0 < runs.len() <= warmups && warmup_fault((runs.len() - 1) as u32, runs.last()) is Some {
        Some((runs.len() - 1) as u32)
    } else {
        None
    }
}

/// The runs that count.
pub open spec fn counted(runs: Seq<Result<RunSample, SandboxError>>, warmups: u32) -> Seq<
    Result<RunSample, SandboxError>,
> {
    if runs.len() <= warmups {
        Seq::<Result<RunSample, SandboxError>>::empty()
    } else {
        runs.skip(warmups as int)
    }
}

/// One run more is wanted: no warmup went wrong, no run that counts failed, and there are
/// not yet as many as asked for.
pub open spec fn run_wanted(
    runs: Seq<Result<RunSample, SandboxError>>,
    warmups: u32,
    iterations: u32,
) -> bool {
    &&& stopped_at(runs, warmups) is None
    &&& tallied(counted(runs, warmups)).error is None
    &&& runs.len() < warmups + iterations
}

impl ScenarioRun {
    /// The runs that were handed in.
    pub closed spec fn runs(&self) -> Seq<Result<RunSample, SandboxError>> {
        self.history@
    }

    /// What the scenario is called.
    pub closed spec fn scenario(&self) -> ScenarioModel<Seq<char>> {
        self.labels@
    }

    /// The number of warmups asked for.
    pub closed spec fn warmup_count(&self) -> u32 {
        self.warmups
    }

    /// The number of runs asked for.
    pub closed spec fn run_count(&self) -> u32 {
        self.iterations
    }

    /// The state fits the runs that were handed in.
    pub closed spec fn wf(&self) -> bool {
        let runs = self.history@;
        &&& self.tally.wf()
        &&& self.tally@ == tallied(counted(runs, self.warmups))
        &&& match self.stopped {
            Some(report) => stopped_at(runs, self.warmups) matches Some(i) && reports_on(
                report,
                self.labels@,
            ) && tells_warmup(report, i, runs.last()),
            None => {
                &&& stopped_at(runs, self.warmups) is None
                &&& runs.len() == self.warmed + self.made
                &&& self.warmed <= self.warmups
                &&& self.made > 0 ==> self.warmed == self.warmups
            },
        }
    }

    /// The output of one run more can be counted.
    pub closed spec fn has_room(&self, run: Result<RunSample, SandboxError>) -> bool {
        self.tally.has_room(run)
    }

    /// A scenario of which no run was made yet.
    pub fn start(labels: ScenarioLabels, iterations: u32, warmups: u32) -> (s: ScenarioRun)
        ensures
            s.wf(),
            s.runs() == Seq::<Result<RunSample, SandboxError>>::empty(),
            s.scenario() == labels@,
            s.run_count() == iterations,
            s.warmup_count() == warmups,
    {
        ScenarioRun {
            labels,
            warmups,
            iterations,
            warmed: 0,
            made: 0,
            tally: SampleTally::new(),
            stopped: None,
            history: Ghost(Seq::<Result<RunSample, SandboxError>>::empty()),
        }
    }

    /// Whether one run more is wanted.
    pub fn wants_run(&self) -> (r: bool)
        requires
            self.wf(),
        ensures
            r == run_wanted(self.runs(), self.warmup_count(), self.run_count()),
    {
        if self.stopped.is_some() || self.tally.error.is_some() {
            return false;
        }
        self.warmed < self.warmups || self.made < self.iterations
    }

    /// Whether the next run is a warmup.
    pub fn is_warming_up(&self) -> (r: bool)
        requires
            self.wf(),
            run_wanted(self.runs(), self.warmup_count(), self.run_count()),
        ensures
            r == (self.runs().len() < self.warmup_count()),
    {
        self.warmed < self.warmups
    }

    /// Whether the output of one run more can be counted.
    pub fn room_for(&self, run: &Result<RunSample, SandboxError>) -> (r: bool)
        ensures
            r == self.has_room(*run),
    {
        self.tally.room_for(run)
    }

    /// Hands one run in.
    pub fn hand_in(&mut self, run: &Result<RunSample, SandboxError>)
        requires
            old(self).wf(),
            run_wanted(old(self).runs(), old(self).warmup_count(), old(self).run_count()),
            old(self).has_room(*run),
        ensures
            final(self).wf(),
            final(self).runs() == old(self).runs().push(*run),
            final(self).scenario() == old(self).scenario(),
            final(self).run_count() == old(self).run_count(),
            final(self).warmup_count() == old(self).warmup_count(),
    {
        let ghost before = self.history@;
        self.history = Ghost(before.push(*run));
        if self.warmed < self.warmups {
            self.stopped = warmup_failure(&self.labels, self.warmed, run);
            self.warmed = self.warmed + 1;
        } else {
            self.made = self.made + 1;
            self.tally.count(run);
            let ghost now = counted(self.history@, self.warmups);
            assert(now.drop_last() =~= counted(before, self.warmups));
            assert(now.last() == *run);
        }
    }

    /// The report on the scenario: on the warmup that went wrong, or on the runs that
    /// count.
    pub fn finish(self) -> (report: ScenarioReport)
        requires
            self.wf(),
        ensures
            reports_on(report, self.scenario()),
            match stopped_at(self.runs(), self.warmup_count()) {
                Some(i) => tells_warmup(report, i, self.runs().last()),
                None => tells_tally(report, tallied(counted(self.runs(), self.warmup_count()))),
            },
    {
        match self.stopped {
            Some(report) => report,
            None => self.tally.report(self.labels),
        }
    }
}

} // verus!
