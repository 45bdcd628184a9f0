use std::cell::Cell;

use tim::failure::Failure;
use tim::runner::{run_all, Action, RunResult, Runner};
use tim::sample::Elapsed;

fn ok(nanos: u128) -> RunResult {
    RunResult { elapsed: Elapsed::from_nanos(nanos), success: true }
}

fn failed(nanos: u128) -> RunResult {
    RunResult { elapsed: Elapsed::from_nanos(nanos), success: false }
}

fn nanos_of(sample: &[Elapsed]) -> Vec<u128> {
    sample.iter().map(|e| e.as_nanos()).collect()
}

#[test]
fn all_runs_succeed_gives_one_duration_per_run_in_order() {
    let calls: Cell<u32> = Cell::new(0);
    let outcome = run_all(5, || {
        calls.set(calls.get() + 1);
        ok(1000 * calls.get() as u128)
    });
    assert_eq!(calls.get(), 5);
    let sample = outcome.expect("every run succeeded");
    assert_eq!(sample.len(), 5);
    assert_eq!(nanos_of(&sample), vec![1000, 2000, 3000, 4000, 5000]);
}

#[test]
fn sample_keeps_execution_order_not_size_order() {
    let script: Vec<u128> = vec![30, 10, 20, 10];
    let calls: Cell<usize> = Cell::new(0);
    let outcome = run_all(4, || {
        let i = calls.get();
        calls.set(i + 1);
        ok(script[i])
    });
    assert_eq!(nanos_of(&outcome.expect("every run succeeded")), script);
}

#[test]
fn default_count_makes_sixteen_executions() {
    let calls: Cell<u32> = Cell::new(0);
    let outcome = run_all(tim::config::DEFAULT_RUNS, || {
        calls.set(calls.get() + 1);
        ok(7)
    });
    assert_eq!(calls.get(), 16);
    assert_eq!(outcome.expect("every run succeeded").len(), 16);
}

#[test]
fn first_failure_stops_the_loop() {
    let calls: Cell<u32> = Cell::new(0);
    let outcome = run_all(5, || {
        calls.set(calls.get() + 1);
        if calls.get() == 2 {
            failed(99)
        } else {
            ok(1)
        }
    });
    assert_eq!(calls.get(), 2);
    assert_eq!(outcome, Err(Failure::CommandFailed));
}

#[test]
fn failure_on_first_run_makes_one_execution() {
    let calls: Cell<u32> = Cell::new(0);
    let outcome = run_all(16, || {
        calls.set(calls.get() + 1);
        failed(0)
    });
    assert_eq!(calls.get(), 1);
    assert_eq!(outcome, Err(Failure::CommandFailed));
}

#[test]
fn failure_on_last_run_still_aborts() {
    let calls: Cell<u32> = Cell::new(0);
    let outcome = run_all(3, || {
        calls.set(calls.get() + 1);
        if calls.get() == 3 {
            failed(5)
        } else {
            ok(5)
        }
    });
    assert_eq!(calls.get(), 3);
    assert_eq!(outcome, Err(Failure::CommandFailed));
}

#[test]
fn command_failure_exits_with_status_one() {
    let outcome = run_all(2, || failed(1));
    match outcome {
        Err(failure) => {
            assert_eq!(failure.exit_code(), 1);
            assert_ne!(failure.exit_code(), 0);
        }
        Ok(_) => panic!("the run failed"),
    }
}

#[test]
fn single_run_gives_single_duration() {
    let outcome = run_all(1, || ok(5_000_000));
    assert_eq!(nanos_of(&outcome.expect("the run succeeded")), vec![5_000_000]);
}

#[test]
fn zero_runs_executes_nothing_and_gives_empty_sample() {
    let calls: Cell<u32> = Cell::new(0);
    let outcome = run_all(0, || {
        calls.set(calls.get() + 1);
        ok(1)
    });
    assert_eq!(calls.get(), 0);
    assert_eq!(outcome, Ok(Vec::new()));
}

#[test]
fn largest_run_count_is_carried_out() {
    let calls: Cell<u32> = Cell::new(0);
    let outcome = run_all(65535, || {
        calls.set(calls.get() + 1);
        ok(calls.get() as u128)
    });
    assert_eq!(calls.get(), 65535);
    let sample = outcome.expect("every run succeeded");
    assert_eq!(sample.len(), 65535);
    assert_eq!(sample[0].as_nanos(), 1);
    assert_eq!(sample[65534].as_nanos(), 65535);
}

#[test]
fn machine_asks_for_each_run_then_reports() {
    let runner = Runner::new(2);
    assert_eq!(runner.next_action(), Action::Execute);
    assert_eq!(runner.executions(), 0);
    let runner = runner.record(ok(10));
    assert_eq!(runner.next_action(), Action::Execute);
    assert_eq!(runner.executions(), 1);
    let runner = runner.record(ok(20));
    assert_eq!(runner.next_action(), Action::Report);
    assert_eq!(runner.executions(), 2);
    let end = runner.conclude().expect("the loop has ended");
    assert_eq!(nanos_of(&end.expect("every run succeeded")), vec![10, 20]);
}

#[test]
fn machine_aborts_on_failure_and_stays_aborted() {
    let runner = Runner::new(3).record(ok(10)).record(failed(20));
    assert_eq!(runner.next_action(), Action::Abort);
    assert_eq!(runner.executions(), 2);
    let runner = runner.record(ok(30)).record(ok(40));
    assert_eq!(runner.next_action(), Action::Abort);
    assert_eq!(runner.executions(), 2);
    assert_eq!(runner.conclude(), Some(Err(Failure::CommandFailed)));
}

#[test]
fn machine_ignores_results_after_the_report() {
    let runner = Runner::new(1).record(ok(10));
    assert_eq!(runner.next_action(), Action::Report);
    let runner = runner.record(failed(20)).record(ok(30));
    assert_eq!(runner.next_action(), Action::Report);
    assert_eq!(runner.executions(), 1);
    let end = runner.conclude().expect("the loop has ended");
    assert_eq!(nanos_of(&end.expect("the run succeeded")), vec![10]);
}

#[test]
fn machine_has_no_conclusion_while_runs_are_outstanding() {
    assert_eq!(Runner::new(2).conclude(), None);
    assert_eq!(Runner::new(2).record(ok(1)).conclude(), None);
}

#[test]
fn machine_with_zero_runs_reports_at_once() {
    let runner = Runner::new(0);
    assert_eq!(runner.next_action(), Action::Report);
    assert_eq!(runner.executions(), 0);
    assert_eq!(runner.conclude(), Some(Ok(Vec::new())));
}

#[test]
fn failed_run_duration_is_not_sampled() {
    let runner = Runner::new(2).record(failed(123));
    assert_eq!(runner.executions(), 1);
    assert_eq!(runner.conclude(), Some(Err(Failure::CommandFailed)));
}
