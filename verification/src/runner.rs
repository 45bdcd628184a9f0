//! The run loop: execute the command a fixed number of times, stop at the
//! first failure, and hand out the durations only when every run succeeded.
//!
//! The loop is modelled as a small machine, [`Progress`], that is told the
//! result of each execution and answers with what to do next. [`Runner`] is
//! its executable form and [`run_all`] drives it with a caller-supplied way
//! of executing the command once.

use vstd::prelude::*;
use crate::failure::Failure;
use crate::sample::Elapsed;

verus! {

/// The outcome of one execution of the command.
#[derive(Clone, Copy, Debug, PartialEq, Eq, Structural)]
pub struct RunResult {
    /// Wall-clock time from just before launch to just after termination.
    pub elapsed: Elapsed,
    /// Whether the command was started and exited with status zero.
    pub success: bool,
}

/// What the host of a [`Runner`] has to do next.
#[derive(Clone, Copy, Debug, PartialEq, Eq, Structural)]
pub enum Action {
    /// Execute the command once more and record the result.
    Execute,
    /// Every run succeeded: compute and print the statistics.
    Report,
    /// A run failed: diagnose it and exit with a non-zero status.
    Abort,
}

/// The elapsed times of `results`, in order.
pub open spec fn durations(results: Seq<RunResult>) -> Seq<Elapsed> {
    Seq::new(results.len(), |i: int| results[i].elapsed)
}

/// Whether every one of `results` is a success.
pub open spec fn all_succeeded(results: Seq<RunResult>) -> bool {
    forall|i: int| 0 <= i < results.len() ==> (#[trigger] results[i]).success
}

/// The state of a run loop: how many runs were asked for, the durations of
/// the successful runs so far, and whether a run has failed.
pub struct Progress {
    pub runs: nat,
    pub sample: Seq<Elapsed>,
    pub failed: bool,
}

impl Progress {
    /// The state before the first execution.
    pub open spec fn start(runs: nat) -> Progress {
        Progress { runs, sample: Seq::empty(), failed: false }
    }

    /// States that can be reached from a start state: the sample never
    /// outgrows the run count, and a failure leaves it short.
    pub open spec fn reachable(self) -> bool {
        &&& self.sample.len() <= self.runs
        &&& self.failed ==> self.sample.len() < self.runs
    }

    /// What is to be done in this state.
    pub open spec fn action(self) -> Action {
        if self.failed {
            Action::Abort
        } else if self.sample.len() < self.runs {
            Action::Execute
        } else {
            Action::Report
        }
    }

    /// The number of executions made to reach this state.
    pub open spec fn executions(self) -> nat {
        if self.failed {
            self.sample.len() + 1
        } else {
            self.sample.len()
        }
    }

    /// The state after the result of one more execution is recorded. Once
    /// the loop has ended, with a full sample or a failure, nothing changes.
    pub open spec fn record(self, result: RunResult) -> Progress {
        if !(self.action() is Execute) {
            self
        } else if result.success {
            Progress { sample: self.sample.push(result.elapsed), ..self }
        } else {
            Progress { failed: true, ..self }
        }
    }

    /// The state after `results` are recorded one after the other.
    pub open spec fn feed(self, results: Seq<RunResult>) -> Progress
        decreases results.len(),
    {
        if results.len() == 0 {
            self
        } else {
            self.feed(results.drop_last()).record(results.last())
        }
    }

    /// How the loop ended, once it has: with the full sample, or with a
    /// failure.
    pub open spec fn conclusion(self) -> Option<Result<Seq<Elapsed>, Failure>> {
        match self.action() {
            Action::Execute => None,
            Action::Report => Some(Ok(self.sample)),
            Action::Abort => Some(Err(Failure::CommandFailed)),
        }
    }
}

/// The run loop in executable form.
pub struct Runner {
    runs: u16,
    sample: Vec<Elapsed>,
    failed: bool,
}

impl View for Runner {
    type V = Progress;

    closed spec fn view(&self) -> Progress {
        Progress { runs: self.runs as nat, sample: self.sample@, failed: self.failed }
    }
}

impl Runner {
    #[verifier::type_invariant]
    spec fn inv(&self) -> bool {
        self@.reachable()
    }

    /// A loop of `runs` executions, none of them made yet.
    pub fn new(runs: u16) -> (runner: Runner)
        ensures
            runner@ == Progress::start(runs as nat),
    {
        Runner { runs, sample: Vec::new(), failed: false }
    }

    /// What the host has to do next.
    pub fn next_action(&self) -> (action: Action)
        ensures
            action == self@.action(),
    {
        if self.failed {
            Action::Abort
        } else if self.sample.len() < self.runs as usize {
            Action::Execute
        } else {
            Action::Report
        }
    }

    /// The loop after the result of one more execution is recorded.
    ///
    /// A result offered after the loop has ended is ignored.
    pub fn record(self, result: RunResult) -> (next: Runner)
        ensures
            next@ == self@.record(result),
    {
        proof {
            use_type_invariant(&self);
        }
        if self.failed || self.sample.len() >= self.runs as usize {
            self
        } else if result.success {
            let mut sample = self.sample;
            sample.push(result.elapsed);
            Runner { runs: self.runs, sample, failed: false }
        } else {
            Runner { runs: self.runs, sample: self.sample, failed: true }
        }
    }

    /// The number of executions recorded so far.
    pub fn executions(&self) -> (count: u16)
        ensures
            count == self@.executions(),
            self@.reachable(),
    {
        proof {
            use_type_invariant(self);
        }
        let done = self.sample.len() as u16;
        if self.failed {
            done + 1
        } else {
            done
        }
    }

    /// Ends the loop: the full sample if every run succeeded, the failure if
    /// one did not, and `None` while executions are still outstanding.
    pub fn conclude(self) -> (end: Option<Result<Vec<Elapsed>, Failure>>)
        ensures
            self@.reachable(),
            match end {
                None => self@.conclusion() is None,
                Some(Ok(sample)) => self@.conclusion() == Some(
                    Ok::<Seq<Elapsed>, Failure>(sample@),
                ),
                Some(Err(failure)) => self@.conclusion() == Some(
                    Err::<Seq<Elapsed>, Failure>(failure),
                ),
            },
    {
        proof {
            use_type_invariant(&self);
        }
        if self.failed {
            Some(Err(Failure::CommandFailed))
        } else if self.sample.len() < self.runs as usize {
            None
        } else {
            Some(Ok(self.sample))
        }
    }
}

/// Whether each of `results` is a result that a call of `execute` can give.
pub open spec fn produced_by<F: Fn() -> RunResult>(execute: F, results: Seq<RunResult>) -> bool {
    forall|i: int| 0 <= i < results.len() ==> call_ensures(execute, (), #[trigger] results[i])
}

/// Whether a loop of `runs` runs that made exactly the executions `trace`
/// ends in `outcome`: with the durations of `runs` successes, or with a
/// failure that was the last execution made.
pub open spec fn ends_in(
    runs: nat,
    trace: Seq<RunResult>,
    outcome: Result<Vec<Elapsed>, Failure>,
) -> bool {
    match outcome {
        Ok(sample) => {
            &&& trace.len() == runs
            &&& all_succeeded(trace)
            &&& sample@ == durations(trace)
        },
        Err(failure) => {
            &&& failure == Failure::CommandFailed
            &&& 0 < trace.len() <= runs
            &&& all_succeeded(trace.drop_last())
            &&& !trace.last().success
        },
    }
}

/// Executes the command up to `runs` times, one execution after the other,
/// by calling `execute`, and stops at the first failure.
///
/// Returns the durations of all `runs` executions, in the order they were
/// made, if every one succeeded. Otherwise returns the failure, and the
/// failed execution is the last one made.
pub fn run_all<F: Fn() -> RunResult>(runs: u16, execute: F) -> (outcome: Result<
    Vec<Elapsed>,
    Failure,
>)
    requires
        call_requires(execute, ()),
    ensures
        exists|trace: Seq<RunResult>|
            #[trigger] produced_by(execute, trace) && ends_in(runs as nat, trace, outcome),
{
    let mut runner = Runner::new(runs);
    let ghost mut trace: Seq<RunResult> = Seq::empty();
    loop
        invariant
            call_requires(execute, ()),
            produced_by(execute, trace),
            runner@.runs == runs,
            runner@.reachable(),
            runner@.executions() == trace.len(),
            !runner@.failed ==> all_succeeded(trace) && runner@.sample == durations(trace),
            runner@.failed ==> trace.len() > 0 && all_succeeded(trace.drop_last())
                && !trace.last().success,
        ensures
            !(runner@.action() is Execute),
        decreases runs - runner@.executions() + if runner@.action() is Execute { 1nat } else { 0 },
    {
        match runner.next_action() {
            Action::Execute => {
                let result = execute();
                runner = runner.record(result);
                proof {
                    use_type_invariant(&runner);
                    assert(trace.push(result).drop_last() =~= trace);
                    trace = trace.push(result);
                    if result.success {
                        assert(runner@.sample =~= durations(trace));
                    }
                }
            },
            _ => {
                break ;
            },
        }
    }
    match runner.conclude() {
        Some(outcome) => outcome,
        None => vstd::pervasive::unreached(),
    }
}

/// What recording any sequence of results leads to: the sample holds the
/// durations of a prefix of the results, all of them successes; without a
/// failure that prefix is as long as the run count allows, and with one it
/// ends just before the failed result.
proof fn lemma_feed(runs: nat, results: Seq<RunResult>)
    ensures
        ({
            let end = Progress::start(runs).feed(results);
            let n = end.sample.len() as int;
            &&& end.runs == runs
            &&& end.reachable()
            &&& n <= results.len()
            &&& all_succeeded(results.take(n))
            &&& end.sample == durations(results.take(n))
            &&& !end.failed ==> n == runs || n == results.len()
            &&& end.failed ==> n < results.len() && !results[n].success
        }),
    decreases results.len(),
{
    let end = Progress::start(runs).feed(results);
    let n = end.sample.len() as int;
    if results.len() == 0 {
        assert(end.sample =~= durations(results.take(n)));
    } else {
        let earlier = results.drop_last();
        let before = Progress::start(runs).feed(earlier);
        let m = before.sample.len() as int;
        lemma_feed(runs, earlier);
        assert(earlier.take(m) =~= results.take(m));
        if before.action() is Execute && results.last().success {
            assert(m == earlier.len());
            assert(results.take(n) =~= results);
            assert(end.sample =~= durations(results.take(n)));
            assert forall|i: int| 0 <= i < results.len() implies (#[trigger] results[i]).success by {
                if i < m {
                    assert(results.take(m)[i].success);
                }
            }
        }
    }
}

/// Sample-size law. A loop of `runs` runs reports exactly when it was given
/// at least `runs` results and the first `runs` of them are successes, and
/// exactly when its sample is as long as the run count. The sample then holds
/// the durations of these results in the order they were recorded, and
/// exactly `runs` executions were made.
pub proof fn lemma_report_has_full_sample(runs: nat, results: Seq<RunResult>)
    ensures
        ({
            let end = Progress::start(runs).feed(results);
            &&& end.action() is Report <==> runs <= results.len() && all_succeeded(
                results.take(runs as int),
            )
            &&& end.action() is Report <==> end.sample.len() == runs
            &&& end.action() is Report ==> {
                &&& end.sample.len() == runs
                &&& end.sample == durations(results.take(runs as int))
                &&& end.executions() == runs
                &&& end.conclusion() == Some(Ok::<Seq<Elapsed>, Failure>(end.sample))
            }
        }),
{
    let end = Progress::start(runs).feed(results);
    let n = end.sample.len() as int;
    lemma_feed(runs, results);
    if runs <= results.len() && all_succeeded(results.take(runs as int)) {
        if end.failed {
            assert(results.take(runs as int)[n].success);
        }
    }
}

/// Fail-fast law. If the `k`-th result is the first failure, and `k` is
/// within the run count, then the loop aborts whatever results follow:
/// exactly `k` executions are made, the sample is never handed out for a
/// report, and the failure ends the process with a non-zero status.
pub proof fn lemma_fail_fast(runs: nat, results: Seq<RunResult>, k: int)
    requires
        1 <= k <= runs,
        k <= results.len(),
        all_succeeded(results.take(k - 1)),
        !results[k - 1].success,
    ensures
        ({
            let end = Progress::start(runs).feed(results);
            &&& end.action() is Abort
            &&& end.executions() == k
            &&& end.sample == durations(results.take(k - 1))
            &&& end.conclusion() == Some(Err::<Seq<Elapsed>, Failure>(Failure::CommandFailed))
            &&& Failure::CommandFailed.exit_status() != 0
        }),
{
    let end = Progress::start(runs).feed(results);
    let n = end.sample.len() as int;
    lemma_feed(runs, results);
    if n > k - 1 {
        assert(results.take(n)[k - 1].success);
    }
    if n < k - 1 {
        assert(results.take(k - 1)[n].success);
    }
}

} // verus!
