use mttp::lab3::errors::{Error, SystemError};
use mttp::lab3::task::benchmark::{
    check_supported, run_benchmark_list, BenchmarkError, BenchmarkKind, BenchmarkResult, Benchmarkable,
};
use mttp::lab3::task::executable::{Executable, RunMode};
use mttp::lab3::task::lifecycle::Manageable;
use mttp::lab3::task::measure::Measurable;
use mttp::lab3::task::report::{Report, Reportable, TextBuffer};
use mttp::lab3::tasks::bank::{Account, BankTransfers};
use mttp::lab3::tasks::TaskLogicError;
use std::cell::Cell;
use std::time::Duration;

#[test]
fn bank_opens_accounts_with_known_balances() {
    let mut bank = BankTransfers::new(5, 3);
    assert_eq!(bank.accounts_amount(), 5);
    assert_eq!(bank.threads_amount(), 3);
    assert!(bank.accounts().is_empty());
    bank.setup();
    let balances: Vec<i64> = bank.accounts().iter().map(|a| a.balance).collect();
    assert_eq!(balances, vec![100, 137, 174, 211, 248]);
    assert_eq!(bank.accounts()[3], Account { id: 3, balance: 211 });
    assert_eq!(bank.initial_total(), 870);
    assert_eq!(BankTransfers::calculate_total_balance(&balances), 870);
    bank.teardown();
    assert!(bank.accounts().is_empty());
    assert_eq!(bank.initial_total(), 870);
}

#[test]
fn opening_balances_wrap_at_a_thousand() {
    let mut bank = BankTransfers::new(30, 1);
    bank.setup();
    // 27 * 37 = 999, 28 * 37 = 1036.
    assert_eq!(bank.accounts()[27].balance, 1099);
    assert_eq!(bank.accounts()[28].balance, 136);
}

#[test]
fn transfer_pairs_are_distinct_accounts() {
    let bank = BankTransfers::new(150, 8);
    for i in 0..1000usize {
        let (from, to) = bank.get_account_indices(i);
        assert!(from < 150 && to < 150 && from != to, "iteration {}", i);
    }
    assert_eq!(bank.get_account_indices(0), (0, 1));
    assert_eq!(bank.get_account_indices(1), (17, 31));
    assert_eq!(bank.get_account_indices(10), (20, 10));
}

#[test]
fn transfers_keep_the_total() {
    assert_eq!(BankTransfers::settle(100, 50, 30), (70, 80));
    assert_eq!(BankTransfers::settle(20, 50, 30), (20, 50));
    let mut balances = vec![100i64, 137, 174, 211, 248];
    let bank = BankTransfers::new(5, 1);
    let total = BankTransfers::calculate_total_balance(&balances);
    for i in 0..50usize {
        let (from, to) = bank.get_account_indices(i);
        let (a, b) = BankTransfers::settle(balances[from], balances[to], 10 + i as i64);
        balances[from] = a;
        balances[to] = b;
        assert_eq!(BankTransfers::calculate_total_balance(&balances), total);
    }
}

#[test]
fn total_of_signed_balances() {
    assert_eq!(BankTransfers::calculate_total_balance(&[]), 0);
    assert_eq!(BankTransfers::calculate_total_balance(&[5, -7, 3]), 1);
}

#[test]
fn bank_benchmarks_are_supported() {
    let bank = BankTransfers::new(150, 8);
    let benchmarks = bank.benchmarks();
    assert_eq!(benchmarks, vec![BenchmarkKind::RaceCondition, BenchmarkKind::Deadlock, BenchmarkKind::MutexFixed]);
    assert_eq!(check_supported(&benchmarks, &bank.supported_modes()), Ok(()));
    assert!(BankTransfers::checks_total_after(BenchmarkKind::RaceCondition));
    assert!(!BankTransfers::checks_total_after(BenchmarkKind::Deadlock));
    assert!(BankTransfers::checks_total_after(BenchmarkKind::MutexFixed));
}

#[test]
fn first_unsupported_mode_is_the_error() {
    let benchmarks = [BenchmarkKind::RaceCondition, BenchmarkKind::IpcTcp, BenchmarkKind::IpcPipes];
    let modes = [RunMode::RaceCondition];
    assert_eq!(
        check_supported(&benchmarks, &modes),
        Err(BenchmarkError::MethodIsNotSupported(RunMode::IpcTcp))
    );
}

#[test]
fn lab3_run_mode_of_each_kind() {
    let kinds = [
        BenchmarkKind::RaceCondition,
        BenchmarkKind::Deadlock,
        BenchmarkKind::MutexFixed,
        BenchmarkKind::IpcPipes,
        BenchmarkKind::IpcSharedMemory,
        BenchmarkKind::IpcTcp,
    ];
    let modes = [
        RunMode::RaceCondition,
        RunMode::Deadlock,
        RunMode::MutexFixed,
        RunMode::IpcPipes,
        RunMode::IpcSharedMemory,
        RunMode::IpcTcp,
    ];
    for (k, m) in kinds.iter().zip(modes.iter()) {
        assert_eq!(RunMode::from(k), *m);
        assert_eq!(k.run_mode(), *m);
    }
}

#[test]
fn lab3_labels() {
    assert_eq!(BenchmarkKind::RaceCondition.text(), "Race Condition");
    assert_eq!(BenchmarkKind::MutexFixed.text(), "Mutex (Fixed)");
    assert_eq!(BenchmarkKind::IpcSharedMemory.text(), "IPC: Shared Memory");
    assert_eq!(RunMode::RaceCondition.text(), "Race Condition (Lost Updates)");
    assert_eq!(RunMode::Deadlock.text(), "Deadlock (Circular Wait)");
    assert_eq!(RunMode::MutexFixed.text(), "Fixed (Ordered Mutexes)");
}

#[test]
fn result_line() {
    let r = BenchmarkResult::from_duration(BenchmarkKind::Deadlock, Duration::from_millis(2_000));
    assert_eq!(r.text(), "Deadlock: 2.0000 seconds.");
}

#[test]
fn report_lines() {
    let mut report = Report::default();
    report.add_task_header("  bank Transactions ");
    report.add_result(&BenchmarkResult { kind: BenchmarkKind::MutexFixed, secs: 0, subsec_nanos: 5_000_000 });
    assert_eq!(
        report.get_text(),
        "=== REPORT FOR BANK TRANSACTIONS ===\nMutex (Fixed): 0.0050 seconds.\n"
    );
    let mut buffer = TextBuffer::default();
    buffer.add_line("x");
    assert_eq!(buffer.text(), "x\n");
}

/// A task whose steps succeed or fail as told.
struct Scripted {
    fail_setup: bool,
    fail_run_on: Option<BenchmarkKind>,
    runs: Cell<usize>,
}

impl Manageable for Scripted {
    fn setup(&mut self) -> Result<(), Error> {
        if self.fail_setup {
            Err(Error::System(SystemError::StdIn))
        } else {
            Ok(())
        }
    }
}

impl Executable for Scripted {
    fn supported_modes(&self) -> Vec<RunMode> {
        vec![RunMode::RaceCondition, RunMode::Deadlock]
    }

    fn run(&self, kind: BenchmarkKind) -> Result<(), Error> {
        self.runs.set(self.runs.get() + 1);
        if self.fail_run_on == Some(kind) {
            Err(Error::TaskLogic(TaskLogicError::MutexPoisoned))
        } else {
            Ok(())
        }
    }
}

impl Measurable for Scripted {}

impl Benchmarkable for Scripted {
    fn benchmarks(&self) -> Vec<BenchmarkKind> {
        vec![BenchmarkKind::RaceCondition, BenchmarkKind::Deadlock]
    }
}

impl Reportable for Scripted {
    fn name(&self) -> &'static str {
        "Scripted"
    }
}

fn scripted() -> Scripted {
    Scripted { fail_setup: false, fail_run_on: None, runs: Cell::new(0) }
}

#[test]
fn report_of_a_task() {
    let mut task = scripted();
    let text = task.report().unwrap().get_text();
    let lines: Vec<&str> = text.lines().collect();
    assert_eq!(lines.len(), 3);
    assert_eq!(lines[0], "=== REPORT FOR SCRIPTED ===");
    assert!(lines[1].starts_with("Race Condition: ") && lines[1].ends_with(" seconds."));
    assert!(lines[2].starts_with("Deadlock: "));
    assert_eq!(task.runs.get(), 2);
}

#[test]
fn failed_setup_stops_the_benchmarks() {
    let mut task = Scripted { fail_setup: true, ..scripted() };
    assert!(matches!(task.run_benchmarks(), Err(Error::System(SystemError::StdIn))));
    assert_eq!(task.runs.get(), 0);
}

#[test]
fn failed_run_stops_the_benchmarks() {
    let mut task = Scripted { fail_run_on: Some(BenchmarkKind::Deadlock), ..scripted() };
    assert!(matches!(task.report(), Err(Error::TaskLogic(TaskLogicError::MutexPoisoned))));
    assert_eq!(task.runs.get(), 2);
}

/// A task that asks for a benchmark it cannot run.
struct Unsupported {
    runs: Cell<usize>,
}

impl Manageable for Unsupported {}

impl Executable for Unsupported {
    fn supported_modes(&self) -> Vec<RunMode> {
        vec![RunMode::RaceCondition]
    }

    fn run(&self, _kind: BenchmarkKind) -> Result<(), Error> {
        self.runs.set(self.runs.get() + 1);
        Ok(())
    }
}

impl Measurable for Unsupported {}

impl Benchmarkable for Unsupported {
    fn benchmarks(&self) -> Vec<BenchmarkKind> {
        vec![BenchmarkKind::RaceCondition, BenchmarkKind::IpcPipes]
    }
}

#[test]
fn unsupported_benchmark_runs_nothing() {
    let mut task = Unsupported { runs: Cell::new(0) };
    assert!(matches!(
        task.run_benchmarks(),
        Err(Error::Benchmark(BenchmarkError::MethodIsNotSupported(RunMode::IpcPipes)))
    ));
    assert_eq!(task.runs.get(), 0);
}

#[test]
fn measure_returns_a_time() {
    let mut task = scripted();
    assert!(task.measure(BenchmarkKind::RaceCondition).is_ok());
    assert_eq!(task.runs.get(), 1);
}

#[test]
fn listed_benchmarks_give_one_result_each_in_order() {
    let mut task = scripted();
    let kinds = vec![BenchmarkKind::Deadlock, BenchmarkKind::RaceCondition, BenchmarkKind::Deadlock];
    let modes = vec![RunMode::RaceCondition, RunMode::Deadlock];
    let results = run_benchmark_list(&mut task, &kinds, &modes).unwrap();
    let got: Vec<BenchmarkKind> = results.iter().map(|r| r.kind).collect();
    assert_eq!(got, kinds);
    assert!(results.iter().all(|r| r.subsec_nanos < 1_000_000_000));
    assert_eq!(task.runs.get(), 3);
}

#[test]
fn listed_benchmarks_report_the_first_unsupported_mode() {
    let mut task = scripted();
    let kinds = vec![BenchmarkKind::RaceCondition, BenchmarkKind::IpcTcp, BenchmarkKind::IpcPipes];
    let modes = vec![RunMode::RaceCondition];
    assert!(matches!(
        run_benchmark_list(&mut task, &kinds, &modes),
        Err(Error::Benchmark(BenchmarkError::MethodIsNotSupported(RunMode::IpcTcp)))
    ));
    assert_eq!(task.runs.get(), 0);
}

#[test]
fn a_whole_run_of_transfers_keeps_the_total_in_any_order() {
    let mut bank = BankTransfers::new(5, 40);
    bank.setup();
    let start: Vec<i64> = bank.accounts().iter().map(|a| a.balance).collect();
    let total = BankTransfers::calculate_total_balance(&start);
    for order in [(0..40).collect::<Vec<usize>>(), (0..40).rev().collect::<Vec<usize>>()] {
        let mut balances = start.clone();
        for i in order {
            let (from, to) = bank.get_account_indices(i);
            let before = (balances[from], balances[to]);
            let (paid, received) = BankTransfers::settle(balances[from], balances[to], 10);
            assert!((paid, received) == (before.0 - 10, before.1 + 10) || (paid, received) == before);
            balances[from] = paid;
            balances[to] = received;
        }
        assert_eq!(BankTransfers::calculate_total_balance(&balances), total);
        assert!(balances.iter().all(|&b| b >= 0));
    }
}
