//! What a scenario's report says of its runs.
use crate::errors::{sandbox_message, SandboxError};
use crate::number::{decimal, signed_decimal};
use crate::sampling::{
    average, counted, greatest, least, lemma_extremes, run_wanted, sample_micros, stopped_at,
    tallied, tells_tally, tells_warmup, total, RunSample, ScenarioReport,
};
use crate::text::opt_text;
use vstd::prelude::*;

verus! {

broadcast use vstd::seq::group_seq_axioms;

/// A run that was made, ended in time or not, and left with the exit code zero.
pub open spec fn ran_well(run: Result<RunSample, SandboxError>) -> bool {
    run is Ok && run->Ok_0.exit_code == 0
}

/// The run at `i` counts: no run before it failed or could not be made.
pub open spec fn counts(runs: Seq<Result<RunSample, SandboxError>>, i: int) -> bool {
    0 <= i < runs.len() && forall|k: int| 0 <= k < i ==> ran_well(#[trigger] runs[k])
}

/// The first `k` runs went well, and either there is no other or the next did not.
pub open spec fn well_up_to(runs: Seq<Result<RunSample, SandboxError>>, k: int) -> bool {
    &&& 0 <= k <= runs.len()
    &&& forall|i: int| 0 <= i < k ==> ran_well(#[trigger] runs[i])
    &&& k < runs.len() ==> !ran_well(runs[k])
}

/// As long as every run goes well, each is a sample and no error is told.
proof fn lemma_all_well(runs: Seq<Result<RunSample, SandboxError>>, k: int)
    requires
        0 <= k <= runs.len(),
        forall|i: int| 0 <= i < k ==> ran_well(#[trigger] runs[i]),
    ensures
        ({
            let t = tallied(runs.take(k));
            &&& t.error is None
            &&& t.samples.len() == k
            &&& forall|i: int|
                0 <= i < k ==> #[trigger] t.samples[i] == sample_micros(
                    runs[i]->Ok_0.duration@,
                )
            &&& t.exit_code == if k == 0 {
                None
            } else {
                Some(0i32)
            }
            &&& t.timed_out <==> exists|i: int|
                0 <= i < k && (#[trigger] runs[i])->Ok_0.timed_out
        }),
    decreases k,
{
    if k > 0 {
        lemma_all_well(runs, k - 1);
        assert(runs.take(k).drop_last() =~= runs.take(k - 1));
        assert(runs.take(k).last() == runs[k - 1]);
        assert(ran_well(runs[k - 1]));
        let before = tallied(runs.take(k - 1));
        let t = tallied(runs.take(k));
        assert forall|i: int| 0 <= i < k implies #[trigger] t.samples[i] == sample_micros(
            runs[i]->Ok_0.duration@,
        ) by {
            if i < k - 1 {
                assert(t.samples[i] == before.samples[i]);
            }
        }
        if exists|i: int| 0 <= i < k && (#[trigger] runs[i])->Ok_0.timed_out {
            let i = choose|i: int| 0 <= i < k && (#[trigger] runs[i])->Ok_0.timed_out;
            if i < k - 1 {
                assert(before.timed_out);
            }
        }
    }
}

proof fn lemma_nothing_behind(runs: Seq<Result<RunSample, SandboxError>>, n: int)
    requires
        0 <= n <= runs.len(),
        tallied(runs.take(n)).error is Some,
    ensures
        tallied(runs) == tallied(runs.take(n)),
    decreases runs.len(),
{
    if n == runs.len() {
        assert(runs.take(n) =~= runs);
    } else {
        assert(runs.drop_last().take(n) =~= runs.take(n));
        lemma_nothing_behind(runs.drop_last(), n);
    }
}

/// What a sequence of runs comes to. Up to the first that does not go well, each run is a
/// sample of its own length in microseconds; one that ended with another code than zero is
/// a sample too and its code is told; one that could not be made is none, and its fault is
/// told. Nothing behind it counts.
pub proof fn lemma_tally_tells_the_runs(runs: Seq<Result<RunSample, SandboxError>>, k: int)
    requires
        well_up_to(runs, k),
    ensures
        ({
            let t = tallied(runs);
            &&& forall|i: int|
                0 <= i < t.samples.len() ==> runs[i] is Ok && (#[trigger] t.samples[i]
                    == runs[i]->Ok_0.duration@ / 1_000 || t.samples[i] == u64::MAX
                    && runs[i]->Ok_0.duration@ / 1_000 > u64::MAX)
            &&& k == runs.len() ==> t.samples.len() == k && t.error is None && t.exit_code == if k
                == 0 {
                None
            } else {
                Some(0i32)
            }
            &&& k < runs.len() && runs[k] is Ok ==> {
                &&& t.samples.len() == k + 1
                &&& t.exit_code == Some(runs[k]->Ok_0.exit_code)
                &&& t.error == Some(
                    "command exited with "@ + signed_decimal(runs[k]->Ok_0.exit_code as int),
                )
            }
            &&& k < runs.len() && runs[k] is Err ==> {
                &&& t.samples.len() == k
                &&& t.exit_code == if k == 0 {
                    None
                } else {
                    Some(0i32)
                }
                &&& t.error == Some(sandbox_message(runs[k]->Err_0@))
            }
        }),
{
    lemma_all_well(runs, k);
    if k == runs.len() {
        assert(runs.take(k) =~= runs);
    } else {
        assert(runs.take(k + 1).drop_last() =~= runs.take(k));
        assert(runs.take(k + 1).last() == runs[k]);
        lemma_nothing_behind(runs, k + 1);
    }
    let t = tallied(runs);
    let before = tallied(runs.take(k));
    assert forall|i: int| 0 <= i < t.samples.len() implies runs[i] is Ok && (
    #[trigger] t.samples[i] == runs[i]->Ok_0.duration@ / 1_000 || t.samples[i] == u64::MAX
        && runs[i]->Ok_0.duration@ / 1_000 > u64::MAX) by {
        if i < k {
            assert(ran_well(runs[i]));
            assert(t.samples[i] == before.samples[i]);
        }
    }
}

/// A scenario was late if and only if some run that counts was: one that was made, that is
/// late, and before which no run failed.
pub proof fn lemma_late_if_a_run_was(runs: Seq<Result<RunSample, SandboxError>>)
    ensures
        tallied(runs).timed_out <==> exists|i: int|
            counts(runs, i) && (#[trigger] runs[i]) is Ok && runs[i]->Ok_0.timed_out,
{
    let k = first_bad(runs, 0);
    lemma_first_bad(runs, 0);
    lemma_all_well(runs, k);
    if k == runs.len() {
        assert(runs.take(k) =~= runs);
    } else {
        assert(runs.take(k + 1).drop_last() =~= runs.take(k));
        assert(runs.take(k + 1).last() == runs[k]);
        lemma_nothing_behind(runs, k + 1);
    }
    if tallied(runs).timed_out {
        if tallied(runs.take(k)).timed_out {
            let i = choose|i: int| 0 <= i < k && (#[trigger] runs[i])->Ok_0.timed_out;
            assert(ran_well(runs[i]));
            assert(counts(runs, i));
        } else {
            assert(counts(runs, k));
            assert(runs[k] is Ok && runs[k]->Ok_0.timed_out);
        }
    }
    if exists|i: int| counts(runs, i) && (#[trigger] runs[i]) is Ok && runs[i]->Ok_0.timed_out {
        let i = choose|i: int|
            counts(runs, i) && (#[trigger] runs[i]) is Ok && runs[i]->Ok_0.timed_out;
        if i > k {
            assert(ran_well(runs[k]));
        }
    }
}

/// The first run from `from` on that did not go well, or the number of runs.
spec fn first_bad(runs: Seq<Result<RunSample, SandboxError>>, from: int) -> int
    decreases runs.len() - from,
{
    if from < 0 || from >= runs.len() || !ran_well(runs[from]) {
        from
    } else {
        first_bad(runs, from + 1)
    }
}

proof fn lemma_first_bad(runs: Seq<Result<RunSample, SandboxError>>, from: int)
    requires
        0 <= from <= runs.len(),
        forall|i: int| 0 <= i < from ==> ran_well(#[trigger] runs[i]),
    ensures
        well_up_to(runs, first_bad(runs, from)),
    decreases runs.len() - from,
{
    if from < runs.len() && ran_well(runs[from]) {
        lemma_first_bad(runs, from + 1);
    }
}

/// One run more: as long as no run failed, its output is added to the output so far, its
/// length to the samples, its exit code is the one that is told, and its being late is not
/// forgotten. Behind a failure it changes nothing.
pub proof fn lemma_one_run_more(
    runs: Seq<Result<RunSample, SandboxError>>,
    run: Result<RunSample, SandboxError>,
)
    ensures
        tallied(runs).error is Some ==> tallied(runs.push(run)) == tallied(runs),
        tallied(runs).error is None && run is Ok ==> {
            let (t, u, s) = (tallied(runs), tallied(runs.push(run)), run->Ok_0);
            &&& u.stdout_bytes == t.stdout_bytes + s.stdout_bytes
            &&& u.stderr_bytes == t.stderr_bytes + s.stderr_bytes
            &&& u.timed_out == (t.timed_out || s.timed_out)
            &&& u.exit_code == Some(s.exit_code)
            &&& u.samples.len() == t.samples.len() + 1
            &&& u.samples.drop_last() == t.samples
            &&& u.error is Some <==> s.exit_code != 0
        },
        tallied(runs).error is None && run is Err ==> {
            let (t, u) = (tallied(runs), tallied(runs.push(run)));
            &&& u.error is Some
            &&& u.stdout_bytes == t.stdout_bytes
            &&& u.stderr_bytes == t.stderr_bytes
            &&& u.timed_out == t.timed_out
            &&& u.exit_code == t.exit_code
            &&& u.samples == t.samples
        },
{
    assert(runs.push(run).drop_last() =~= runs);
    assert(runs.push(run).last() == run);
    if run is Ok {
        assert(tallied(runs.push(run)).samples.drop_last() =~= tallied(runs).samples
            || tallied(runs).error is Some);
    }
}

/// Before the first run nothing is told.
pub proof fn lemma_no_runs(runs: Seq<Result<RunSample, SandboxError>>)
    requires
        runs.len() == 0,
    ensures
        tallied(runs).samples.len() == 0,
        tallied(runs).stdout_bytes == 0,
        tallied(runs).stderr_bytes == 0,
        tallied(runs).exit_code is None,
        tallied(runs).error is None,
        !tallied(runs).timed_out,
{
}

/// A report says that a scenario succeeded if and only if there was a run, every run went
/// well, and none was late; it says that it was late if and only if a run that counts was.
pub proof fn lemma_report_of_runs(
    report: ScenarioReport,
    runs: Seq<Result<RunSample, SandboxError>>,
)
    requires
        tells_tally(report, tallied(runs)),
    ensures
        report.success <==> runs.len() > 0 && forall|i: int|
            0 <= i < runs.len() ==> (#[trigger] runs[i]) is Ok && runs[i]->Ok_0.exit_code == 0
                && !runs[i]->Ok_0.timed_out,
        report.timed_out <==> exists|i: int|
            counts(runs, i) && (#[trigger] runs[i]) is Ok && runs[i]->Ok_0.timed_out,
        report.samples_us@ == tallied(runs).samples,
        report.exit_code == tallied(runs).exit_code,
        report.stdout_bytes == tallied(runs).stdout_bytes,
        report.stderr_bytes == tallied(runs).stderr_bytes,
        opt_text(report.error) == tallied(runs).error,
{
    lemma_late_if_a_run_was(runs);
    let k = first_bad(runs, 0);
    lemma_first_bad(runs, 0);
    lemma_tally_tells_the_runs(runs, k);
    if report.success {
        assert(k == runs.len());
        assert forall|i: int| 0 <= i < runs.len() implies (#[trigger] runs[i]) is Ok
            && runs[i]->Ok_0.exit_code == 0 && !runs[i]->Ok_0.timed_out by {
            assert(ran_well(runs[i]));
            assert(counts(runs, i));
        }
    }
    if runs.len() > 0 && forall|i: int|
        0 <= i < runs.len() ==> (#[trigger] runs[i]) is Ok && runs[i]->Ok_0.exit_code == 0
            && !runs[i]->Ok_0.timed_out {
        if k < runs.len() {
            assert(runs[k] is Ok);
        }
    }
}

/// The figures of a report: best and worst are samples and bound all of them, and the
/// average times the number of samples misses their sum by less than that number, unless it
/// is the one microsecond that stands for less.
pub proof fn lemma_report_figures(report: ScenarioReport, runs: Seq<Result<RunSample, SandboxError>>)
    requires
        tells_tally(report, tallied(runs)),
    ensures
        report.samples_us@.len() == 0 ==> report.average_us is None && report.best_us is None
            && report.worst_us is None,
        report.samples_us@.len() > 0 ==> {
            let n = report.samples_us@.len();
            let sum = total(report.samples_us@);
            &&& report.best_us is Some && report.samples_us@.contains(report.best_us->0)
            &&& report.worst_us is Some && report.samples_us@.contains(report.worst_us->0)
            &&& forall|i: int|
                0 <= i < n ==> report.best_us->0 <= #[trigger] report.samples_us@[i]
                    <= report.worst_us->0
            &&& report.average_us is Some
            &&& sum >= n ==> report.average_us->0 * n <= sum < (report.average_us->0 + 1) * n
            &&& sum < n ==> report.average_us->0 == 1
        },
{
    let s = report.samples_us@;
    if s.len() > 0 {
        lemma_extremes(s);
        let n = s.len();
        let sum = total(s);
        let q = sum / n;
        assert(q * n <= sum < (q + 1) * n) by (nonlinear_arith)
            requires
                n > 0,
                q == sum / n,
        ;
        assert(sum >= n ==> q > 0) by (nonlinear_arith)
            requires
                n > 0,
                sum < (q + 1) * n,
        ;
        assert(sum < n ==> q == 0) by (nonlinear_arith)
            requires
                n > 0,
                q * n <= sum,
                q >= 0,
        ;
    }
}

/// The sum of samples: none sum up to zero, one to itself, and the sums of two lists add up
/// to that of both.
pub proof fn lemma_total_adds_up(s: Seq<u64>, t: Seq<u64>)
    ensures
        total(Seq::<u64>::empty()) == 0,
        s.len() == 1 ==> total(s) == s[0],
        total(s + t) == total(s) + total(t),
    decreases t.len(),
{
    if s.len() == 1 {
        assert(s.drop_last() =~= Seq::<u64>::empty());
        assert(total(s) == total(s.drop_last()) + s.last() as nat);
    }
    if t.len() == 0 {
        assert(s + t =~= s);
    } else {
        lemma_total_adds_up(s, t.drop_last());
        assert((s + t).drop_last() =~= s + t.drop_last());
    }
}

// ---------------------------------------------------------------------------
// Warmups

/// A scenario is left alone because of a warmup if and only if the last run so far is a
/// warmup that was late or could not be made. A warmup that ended with another code than
/// zero is no reason.
pub proof fn lemma_warmup_stops(runs: Seq<Result<RunSample, SandboxError>>, warmups: u32)
    ensures
        stopped_at(runs, warmups) is Some <==> 0 < runs.len() <= warmups && (runs.last() is Err
            || runs.last()->Ok_0.timed_out),
        stopped_at(runs, warmups) matches Some(i) ==> i == runs.len() - 1,
{
}

/// The report on a warmup that went wrong: no samples and no figures, not successful, late
/// if and only if the warmup was made, and the number of the warmup in the error.
pub proof fn lemma_warmup_report(
    report: ScenarioReport,
    index: u32,
    run: Result<RunSample, SandboxError>,
)
    requires
        tells_warmup(report, index, run),
    ensures
        !report.success,
        report.samples_us@.len() == 0,
        report.average_us is None && report.best_us is None && report.worst_us is None,
        run is Err ==> !report.timed_out && report.exit_code is None && report.stdout_bytes == 0
            && report.stderr_bytes == 0 && opt_text(report.error) == Some(
            "warmup "@ + decimal(index as nat) + " failed: "@ + sandbox_message(run->Err_0@),
        ),
        run is Ok ==> report.timed_out && report.exit_code == Some(run->Ok_0.exit_code)
            && report.stdout_bytes == run->Ok_0.stdout_bytes && report.stderr_bytes
            == run->Ok_0.stderr_bytes,
        run is Ok && run->Ok_0.timed_out ==> opt_text(report.error) == Some(
            "warmup "@ + decimal(index as nat) + " timed out"@,
        ),
{
}

/// Which runs count: those behind the warmups, in order and all of them.
pub proof fn lemma_counted_runs(runs: Seq<Result<RunSample, SandboxError>>, warmups: u32, i: int)
    ensures
        runs.len() <= warmups ==> counted(runs, warmups).len() == 0,
        runs.len() > warmups ==> counted(runs, warmups).len() == runs.len() - warmups,
        warmups <= i < runs.len() ==> counted(runs, warmups)[i - warmups] == runs[i],
{
}

/// How many runs are made: never more than warmups and iterations together, none behind a
/// warmup that was late or could not be made, none behind a run that counts and did not go
/// well, and as long as none of this holds, another one.
pub proof fn lemma_runs_wanted(
    runs: Seq<Result<RunSample, SandboxError>>,
    warmups: u32,
    iterations: u32,
)
    ensures
        runs.len() >= warmups + iterations ==> !run_wanted(runs, warmups, iterations),
        0 < runs.len() <= warmups && (runs.last() is Err || runs.last()->Ok_0.timed_out)
            ==> !run_wanted(runs, warmups, iterations),
        (exists|i: int| warmups <= i < runs.len() && !ran_well(#[trigger] runs[i]))
            ==> !run_wanted(runs, warmups, iterations),
        runs.len() < warmups + iterations && (forall|i: int|
            0 <= i < runs.len() ==> ran_well(#[trigger] runs[i]) && !runs[i]->Ok_0.timed_out)
            ==> run_wanted(runs, warmups, iterations),
        warmups < runs.len() < warmups + iterations && (forall|i: int|
            warmups <= i < runs.len() ==> ran_well(#[trigger] runs[i])) ==> run_wanted(
            runs,
            warmups,
            iterations,
        ),
{
    let c = counted(runs, warmups);
    let k = first_bad(c, 0);
    lemma_first_bad(c, 0);
    lemma_tally_tells_the_runs(c, k);
    if exists|i: int| warmups <= i < runs.len() && !ran_well(#[trigger] runs[i]) {
        let i = choose|i: int| warmups <= i < runs.len() && !ran_well(#[trigger] runs[i]);
        assert(c[i - warmups] == runs[i]);
        if k == c.len() {
            assert(ran_well(c[i - warmups]));
        }
    }
    if k < c.len() {
        assert(!ran_well(c[k]));
        assert(runs[k + warmups] == c[k]);
    }
    if runs.len() > 0 {
        assert(runs[runs.len() - 1] == runs.last());
    }
}

/// The average has the order of the samples' sizes: lists of equal length keep the order of
/// their sums.
pub proof fn lemma_average_grows(s: Seq<u64>, t: Seq<u64>)
    requires
        s.len() == t.len(),
        s.len() > 0,
        total(s) <= total(t),
    ensures
        average(s)->0 <= average(t)->0,
        average(s)->0 >= 1,
        least(s) is Some,
        greatest(s) is Some,
{
    let n = s.len();
    let (a, b) = (total(s), total(t));
    assert(a / n <= b / n) by (nonlinear_arith)
        requires
            n > 0,
            a <= b,
    ;
    lemma_extremes(s);
}

} // verus!
