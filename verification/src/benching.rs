//! Sample series, their comparison, and the bencher that collects them.

use crate::clock::saturate;
use crate::render::{
    duration_debug, duration_text, record, record_text, signed, signed_text, stat, stat_text,
    summary, summary_text, widen,
};
use crate::stats::{
    converged, converged_of_total, deviation, deviation_centis_of_total, is_nearest_root,
    lemma_mean_bound, lemma_total_bound, lemma_total_concat, lemma_total_push, mean,
    mean_of_total, parallel_total, percent, percent_centis_of_total, total,
};
use crate::style::{iterations_note, iterations_note_of, settings_of, settings_text};
use std::time::Instant;
use vstd::prelude::*;
use vstd::string::*;

verus! {

/// An ordered series of samples, each an elapsed time in nanoseconds.
#[derive(Debug)]
pub struct BenchVec {
    pub inner: Vec<u64>,
}

impl View for BenchVec {
    type V = Seq<u64>;

    open spec fn view(&self) -> Seq<u64> {
        self.inner@
    }
}

impl Clone for BenchVec {
    fn clone(&self) -> (copy: Self)
        ensures
            copy@ == self@,
    {
        BenchVec { inner: self.inner.clone() }
    }
}

/// The summary of a non-empty series: its mean, its dispersion and the
/// dispersion as a share of the mean.
pub open spec fn series_text(s: Seq<u64>) -> Seq<char>
    recommends
        s.len() > 0,
{
    summary(
        duration_debug(mean(s)),
        stat(deviation(s), total(s) == 0),
        stat(percent(s), total(s) == 0),
    )
}

impl BenchVec {
    /// Creates an empty series.
    pub fn new() -> (series: Self)
        ensures
            series@ == Seq::<u64>::empty(),
    {
        Self { inner: Vec::new() }
    }

    /// Creates a series from the given samples.
    pub fn from_vec(vec: &Vec<u64>) -> (series: Self)
        ensures
            series@ == vec@,
    {
        Self { inner: vec.clone() }
    }

    /// Adds a sample at the end of the series.
    pub fn push(&mut self, item: u64) -> (out: &mut Self)
        ensures
            out@ == old(self)@.push(item),
            total(out@) == total(old(self)@) + item,
            *final(self) == *final(out),
    {
        proof {
            lemma_total_push(self@, item);
        }
        self.inner.push(item);
        self
    }

    /// Adds the samples of `other` at the end of the series.
    pub fn append(&mut self, other: Self) -> (out: &mut Self)
        ensures
            out@ == old(self)@ + other@,
            total(out@) == total(old(self)@) + total(other@),
            *final(self) == *final(out),
    {
        proof {
            lemma_total_concat(self@, other@);
        }
        let mut tail = other.inner;
        self.inner.append(&mut tail);
        self
    }

    /// Number of samples.
    pub fn len(&self) -> (n: usize)
        ensures
            n == self@.len(),
    {
        self.inner.len()
    }

    /// Total of all samples, in nanoseconds.
    pub fn sum(&self) -> (sum: u128)
        ensures
            sum == total(self@),
    {
        parallel_total(&self.inner)
    }

    /// Mean of the samples in whole nanoseconds, rounded down. An empty
    /// series has none.
    pub fn average(&self) -> (avg: Option<u64>)
        ensures
            avg.is_some() <==> self@.len() > 0,
            avg matches Some(m) ==> m == mean(self@),
    {
        let n = self.len();
        if n == 0 {
            None
        } else {
            proof {
                lemma_total_bound(self@);
            }
            Some(mean_of_total(self.sum(), n))
        }
    }

    /// Dispersion of the samples: the square root of `total / (len - 1)`, in
    /// hundredths of a nanosecond, rounded to the nearest hundredth. A series
    /// of fewer than two samples has none.
    pub fn standard_deviation(&self) -> (dev: Option<u64>)
        ensures
            dev.is_some() <==> self@.len() >= 2,
            widen(dev) == deviation(self@),
            dev matches Some(d) ==> is_nearest_root(
                d as nat,
                10_000 * total(self@),
                (self@.len() - 1) as nat,
            ),
    {
        let n = self.len();
        if n < 2 {
            None
        } else {
            proof {
                lemma_total_bound(self@);
            }
            Some(deviation_centis_of_total(self.sum(), n))
        }
    }

    /// Dispersion of the samples as a share of their mean, in hundredths of
    /// a percent, rounded to the nearest hundredth. A series of fewer than
    /// two samples, or with a mean of zero, has none.
    pub fn relative_deviation(&self) -> (share: Option<u64>)
        ensures
            share.is_some() <==> self@.len() >= 2 && mean(self@) >= 1,
            widen(share) == percent(self@),
            share matches Some(p) ==> is_nearest_root(
                p as nat,
                100_000_000 * total(self@),
                ((self@.len() - 1) * (mean(self@) * mean(self@))) as nat,
            ),
    {
        let n = self.len();
        if n < 2 {
            return None;
        }
        proof {
            lemma_total_bound(self@);
        }
        let sum = self.sum();
        if mean_of_total(sum, n) == 0 {
            None
        } else {
            Some(percent_centis_of_total(sum, n))
        }
    }

    /// Whether the dispersion of the samples is below one percent of their
    /// mean. This takes at least two samples and a mean of at least one
    /// nanosecond.
    pub fn has_converged(&self) -> (done: bool)
        ensures
            done == converged(self@),
    {
        proof {
            lemma_total_bound(self@);
        }
        converged_of_total(self.sum(), self.len())
    }

    /// Compares the mean of this series with the mean of `other`.
    pub fn compare(&self, other: Self) -> (diff: Option<DurationDifference>)
        ensures
            diff == difference(self@, other@),
    {
        DurationDifference::new(self, &other)
    }

    /// The line of the series in the durable record, under the name `name`.
    /// An empty series has none.
    pub fn to_record(&self, name: &str) -> (text: Option<String>)
        ensures
            reads(text, record_of(name@, self@)),
    {
        match self.average() {
            None => None,
            Some(avg) => {
                let deviation = stat_text(self.standard_deviation(), self.sum() == 0);
                Some(record_text(name, duration_text(avg).as_str(), deviation.as_str()))
            },
        }
    }

    /// The summary of the series as text. An empty series has none.
    pub fn to_text(&self) -> (text: Option<String>)
        ensures
            text.is_some() <==> self@.len() > 0,
            text matches Some(t) ==> t@ == series_text(self@),
    {
        match self.average() {
            None => None,
            Some(avg) => {
                let zero_total = self.sum() == 0;
                let deviation = stat_text(self.standard_deviation(), zero_total);
                let share = stat_text(self.relative_deviation(), zero_total);
                Some(summary_text(duration_text(avg).as_str(), deviation.as_str(), share.as_str()))
            },
        }
    }
}

/// The difference between the means of two series: its magnitude in
/// nanoseconds, and whether the first mean is the larger one.
#[derive(Debug, Clone, Copy)]
pub struct DurationDifference {
    pub inner: u64,
    pub positive: bool,
}

/// The difference between the means of `left` and `right`. It is positive
/// where the mean of `left` is strictly the larger; equal means give a
/// difference of zero that is not positive. An empty series has no mean, and
/// so no difference to any other.
pub open spec fn difference(left: Seq<u64>, right: Seq<u64>) -> Option<DurationDifference> {
    if left.len() == 0 || right.len() == 0 {
        None
    } else if mean(left) > mean(right) {
        Some(DurationDifference { inner: (mean(left) - mean(right)) as u64, positive: true })
    } else {
        Some(DurationDifference { inner: (mean(right) - mean(left)) as u64, positive: false })
    }
}

/// The difference of two non-empty series carries the sign of
/// `mean(left) - mean(right)` and its absolute value.
pub proof fn lemma_difference_sign(left: Seq<u64>, right: Seq<u64>)
    requires
        left.len() > 0,
        right.len() > 0,
    ensures
        difference(left, right) matches Some(d) && {
            &&& d.positive <==> mean(left) > mean(right)
            &&& d.positive ==> d.inner == mean(left) - mean(right)
            &&& !d.positive ==> d.inner == mean(right) - mean(left)
        },
{
    lemma_total_bound(left);
    lemma_total_bound(right);
    lemma_mean_bound(total(left), left.len());
    lemma_mean_bound(total(right), right.len());
}

impl DurationDifference {
    /// Compares the means of two series.
    pub fn new(left: &BenchVec, right: &BenchVec) -> (diff: Option<Self>)
        ensures
            diff == difference(left@, right@),
    {
        match (left.average(), right.average()) {
            (Some(left_avg), Some(right_avg)) => {
                if left_avg > right_avg {
                    Some(Self { inner: left_avg - right_avg, positive: true })
                } else {
                    Some(Self { inner: right_avg - left_avg, positive: false })
                }
            },
            _ => None,
        }
    }

    /// The difference as text: its sign, then its magnitude.
    pub fn to_text(&self) -> (text: String)
        ensures
            text@ == signed(self.positive, duration_debug(self.inner as nat)),
    {
        signed_text(self.positive, duration_text(self.inner).as_str())
    }
}

/// Leading line of a durable record file: the names of the three columns.
pub const BENCH_FILE_HEAD: &'static str = "name\tmean\tstddev\n";

/// Number of iterations of a new bencher.
pub const DEFAULT_ITERATIONS: usize = 100;

/// Largest number of iterations of an adaptive run of a new bencher.
pub const DEFAULT_MAX_ITERATIONS: usize = 10000;

/// Number of empty measurements that the calibration averages.
pub const CALIBRATION_RUNS: usize = 1000;

/// Whether `offset` is the mean, in whole nanoseconds, of a series of
/// `CALIBRATION_RUNS` samples: what a calibration against the clock yields,
/// whatever the clock read.
pub open spec fn is_calibration(offset: u64) -> bool {
    exists|readings: Seq<u64>|
        readings.len() == CALIBRATION_RUNS && offset == #[trigger] mean(readings)
}

/// A raw measurement less the calibration offset. A measurement that does
/// not exceed the offset is kept as it is.
pub open spec fn corrected_of(raw: u64, offset: u64) -> u64 {
    if raw > offset {
        (raw - offset) as u64
    } else {
        raw
    }
}

/// Takes the calibration offset off a raw measurement.
pub fn corrected(raw: u64, offset: u64) -> (sample: u64)
    ensures
        sample == corrected_of(raw, offset),
{
    if raw > offset {
        raw - offset
    } else {
        raw
    }
}

/// Where an adaptive run with at most `cap` iterations ends: at the first
/// sample with which the series has converged, or at the cap if there is no
/// such sample before.
pub open spec fn adaptive_stop(s: Seq<u64>, cap: nat) -> bool {
    &&& s.len() <= cap
    &&& s.len() < cap ==> converged(s)
    &&& forall|k: int| 0 <= k < s.len() ==> !converged(#[trigger] s.take(k))
}

/// Whether `s` is a complete run: `iterations` samples in fixed mode, an
/// adaptive run where `iterations` is zero.
pub open spec fn complete_run(s: Seq<u64>, iterations: nat, cap: nat) -> bool {
    if iterations > 0 {
        s.len() == iterations
    } else {
        adaptive_stop(s, cap)
    }
}

/// An adaptive run that may take two iterations or more collects at least
/// two samples and at most as many as the cap.
pub proof fn lemma_adaptive_count(s: Seq<u64>, cap: nat)
    requires
        adaptive_stop(s, cap),
        cap >= 2,
    ensures
        2 <= s.len() <= cap,
{
}

/// The settings and the history of a bencher.
pub ghost struct BencherView {
    /// The completed series, oldest first.
    pub history: Seq<Seq<u64>>,
    /// Iterations per benchmark; zero selects adaptive mode.
    pub iterations: nat,
    /// Largest number of iterations of an adaptive run.
    pub cap: nat,
    /// Calibration offset in nanoseconds.
    pub offset: u64,
}

/// What a benchmark run reports besides the samples it recorded.
pub struct BenchReport {
    /// The note on the number of iterations; adaptive runs only.
    pub note: Option<String>,
    /// The console line with the summary of the series; none for a run
    /// without samples.
    pub result: Option<String>,
    /// The line for the durable record; none for a run without samples.
    pub record: Option<String>,
}

/// Whether an optional text reads as expected.
pub open spec fn reads(text: Option<String>, expected: Option<Seq<char>>) -> bool {
    match (text, expected) {
        (Some(t), Some(e)) => t@ == e,
        (None, None) => true,
        _ => false,
    }
}

/// The note of a run: the number of samples, in adaptive mode only.
pub open spec fn note_of(s: Seq<u64>, iterations: nat) -> Option<Seq<char>> {
    if iterations == 0 {
        Some(iterations_note_of(s.len()))
    } else {
        None
    }
}

/// The console line of a run: `Result: `, then the summary of the series.
pub open spec fn result_of(s: Seq<u64>) -> Option<Seq<char>> {
    if s.len() > 0 {
        Some("Result: "@ + series_text(s))
    } else {
        None
    }
}

/// The record of a run: the name, the mean and the dispersion of the series.
pub open spec fn record_of(name: Seq<char>, s: Seq<u64>) -> Option<Seq<char>> {
    if s.len() > 0 {
        Some(record(name, duration_debug(mean(s)), stat(deviation(s), total(s) == 0)))
    } else {
        None
    }
}

/// Runs benchmarks and keeps the series of each.
pub struct Bencher {
    measurements: Vec<BenchVec>,
    iterations: usize,
    max_auto_iterations: usize,
    bench_duration: u64,
}

impl View for Bencher {
    type V = BencherView;

    closed spec fn view(&self) -> BencherView {
        BencherView {
            history: Seq::new(self.measurements@.len(), |i: int| self.measurements@[i]@),
            iterations: self.iterations as nat,
            cap: self.max_auto_iterations as nat,
            offset: self.bench_duration,
        }
    }
}

impl Bencher {
    /// Creates a bencher with the default settings and an empty history,
    /// calibrated against the clock.
    pub fn new() -> (bencher: Self)
        ensures
            bencher@.history == Seq::<Seq<u64>>::empty(),
            bencher@.iterations == DEFAULT_ITERATIONS,
            bencher@.cap == DEFAULT_MAX_ITERATIONS,
            is_calibration(bencher@.offset),
    {
        Self::with_calibration(Self::calculate_bench_duration())
    }

    /// Creates a bencher with the default settings, an empty history and
    /// the given calibration offset in nanoseconds.
    pub fn with_calibration(offset: u64) -> (bencher: Self)
        ensures
            bencher@ == (BencherView {
                history: Seq::empty(),
                iterations: DEFAULT_ITERATIONS as nat,
                cap: DEFAULT_MAX_ITERATIONS as nat,
                offset,
            }),
    {
        let bencher = Self {
            bench_duration: offset,
            measurements: Vec::new(),
            iterations: DEFAULT_ITERATIONS,
            max_auto_iterations: DEFAULT_MAX_ITERATIONS,
        };
        assert(bencher@.history =~= Seq::<Seq<u64>>::empty());
        bencher
    }

    /// Measures what a measurement of nothing takes: the mean of
    /// `CALIBRATION_RUNS` readings of the clock with no work between the
    /// start and the end.
    fn calculate_bench_duration() -> (offset: u64)
        ensures
            is_calibration(offset),
    {
        let mut durations = BenchVec::new();
        while durations.len() < CALIBRATION_RUNS
            invariant
                durations@.len() <= CALIBRATION_RUNS,
            decreases CALIBRATION_RUNS - durations@.len(),
        {
            let start = Instant::now();
            durations.push(saturate(start.elapsed().as_nanos()));
        }
        proof {
            lemma_total_bound(durations@);
        }
        let offset = mean_of_total(durations.sum(), CALIBRATION_RUNS);
        assert(offset == mean(durations@));
        offset
    }

    /// Sets the number of iterations of a benchmark. Zero selects adaptive
    /// mode: a run then goes on until its series has converged.
    pub fn set_iterations(&mut self, iterations: usize) -> (out: &mut Self)
        ensures
            out@ == (BencherView { iterations: iterations as nat, ..old(self)@ }),
            *final(self) == *final(out),
    {
        self.iterations = iterations;
        self
    }

    /// Sets the largest number of iterations of an adaptive run.
    pub fn set_max_iterations(&mut self, iterations: usize) -> (out: &mut Self)
        ensures
            out@ == (BencherView { cap: iterations as nat, ..old(self)@ }),
            *final(self) == *final(out),
    {
        self.max_auto_iterations = iterations;
        self
    }

    /// Runs `func` repeatedly, timing each run, and adds the series of the
    /// corrected measurements to the history.
    ///
    /// In fixed mode `func` runs as often as the number of iterations says.
    /// In adaptive mode it runs until the series has converged, and at most
    /// as often as the cap allows.
    pub fn bench<T, F: FnMut() -> T>(&mut self, name: &str, mut func: F) -> (report: BenchReport)
        requires
            func.requires(()),
        ensures
            final(self)@.history.len() == old(self)@.history.len() + 1,
            final(self)@ == (BencherView {
                history: old(self)@.history.push(final(self)@.history.last()),
                ..old(self)@
            }),
            complete_run(final(self)@.history.last(), old(self)@.iterations, old(self)@.cap),
            old(self)@.iterations > 0 ==> final(self)@.history.last().len() == old(
                self,
            )@.iterations,
            old(self)@.iterations == 0 && old(self)@.cap >= 2 ==> 2
                <= final(self)@.history.last().len() <= old(self)@.cap,
            reads(report.note, note_of(final(self)@.history.last(), old(self)@.iterations)),
            reads(report.result, result_of(final(self)@.history.last())),
            reads(report.record, record_of(name@, final(self)@.history.last())),
    {
        let offset = self.bench_duration;
        let mut durations = BenchVec::new();
        if self.iterations == 0 {
            let cap = self.max_auto_iterations;
            let mut done = false;
            while !done && durations.len() < cap
                invariant
                    func.requires(()),
                    durations@.len() <= cap,
                    done == converged(durations@),
                    forall|k: int| 0 <= k < durations@.len() ==> !converged(
                        #[trigger] durations@.take(k),
                    ),
                decreases cap - durations@.len(),
            {
                let ghost before = durations@;
                let start = Instant::now();
                func();
                let raw = saturate(start.elapsed().as_nanos());
                durations.push(corrected(raw, offset));
                done = durations.has_converged();
                proof {
                    assert forall|k: int| 0 <= k < durations@.len() implies !converged(
                        #[trigger] durations@.take(k),
                    ) by {
                        if k < before.len() {
                            assert(durations@.take(k) =~= before.take(k));
                        } else {
                            assert(durations@.take(k) =~= before);
                        }
                    }
                }
            }
        } else {
            let count = self.iterations;
            while durations.len() < count
                invariant
                    func.requires(()),
                    durations@.len() <= count,
                decreases count - durations@.len(),
            {
                let start = Instant::now();
                func();
                let raw = saturate(start.elapsed().as_nanos());
                durations.push(corrected(raw, offset));
            }
        }
        let note = if self.iterations == 0 {
            Some(iterations_note(durations.len()))
        } else {
            None
        };
        let result = match durations.to_text() {
            None => None,
            Some(summary) => {
                let mut line = String::from_str("Result: ");
                line.append(summary.as_str());
                Some(line)
            },
        };
        let record = durations.to_record(name);
        let ghost series = durations@;
        self.measurements.push(durations);
        proof {
            assert(self@.history =~= old(self)@.history.push(series));
            assert(self@.history.last() == series);
        }
        BenchReport { note, result, record }
    }

    /// Compares the latest benchmark with the one before it. With fewer
    /// than two benchmarks in the history there is nothing to compare.
    pub fn compare(&self) -> (diff: Option<DurationDifference>)
        ensures
            self@.history.len() < 2 ==> diff is None,
            self@.history.len() >= 2 ==> diff == difference(
                self@.history[self@.history.len() - 1],
                self@.history[self@.history.len() - 2],
            ),
            diff matches Some(d) ==> {
                let last = self@.history[self@.history.len() - 1];
                let before = self@.history[self@.history.len() - 2];
                &&& d.positive <==> mean(last) > mean(before)
                &&& d.positive ==> d.inner == mean(last) - mean(before)
                &&& !d.positive ==> d.inner == mean(before) - mean(last)
            },
    {
        let n = self.measurements.len();
        if n > 1 {
            proof {
                if self@.history[n - 1].len() > 0 && self@.history[n - 2].len() > 0 {
                    lemma_difference_sign(self@.history[n - 1], self@.history[n - 2]);
                }
            }
            DurationDifference::new(&self.measurements[n - 1], &self.measurements[n - 2])
        } else {
            None
        }
    }

    /// The settings as text: the calibration offset, the number of
    /// iterations or `auto`, and the cap of an adaptive run.
    pub fn print_settings(&self) -> (text: String)
        ensures
            text@ == settings_of(
                duration_debug(self@.offset as nat),
                self@.iterations,
                self@.cap,
            ),
    {
        settings_text(
            duration_text(self.bench_duration).as_str(),
            self.iterations,
            self.max_auto_iterations,
        )
    }

    /// The completed series, oldest first.
    pub fn measurements(&self) -> (history: &Vec<BenchVec>)
        ensures
            history@.len() == self@.history.len(),
            forall|i: int| 0 <= i < history@.len() ==> (#[trigger] history@[i])@ == self@.history[i],
    {
        &self.measurements
    }

    /// The number of iterations of a benchmark; zero in adaptive mode.
    pub fn iterations(&self) -> (iterations: usize)
        ensures
            iterations == self@.iterations,
    {
        self.iterations
    }

    /// The largest number of iterations of an adaptive run.
    pub fn max_iterations(&self) -> (cap: usize)
        ensures
            cap == self@.cap,
    {
        self.max_auto_iterations
    }

    /// The calibration offset in nanoseconds.
    pub fn calibration(&self) -> (offset: u64)
        ensures
            offset == self@.offset,
    {
        self.bench_duration
    }
}

} // verus!
