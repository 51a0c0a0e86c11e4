use mttp::lab1::benchmark::Benchmarker;
use mttp::lab1::cli::{InputArgs, RunPlan};
use mttp::lab1::errors::{CliError, Error};
use mttp::lab1::task::benchmark::{
    benchmarks, BenchmarkKind, BenchmarkMetadata, BenchmarkResult, Benchmarkable,
};
use mttp::lab1::task::lifecycle::Manageable;
use mttp::lab1::task::report::{Report, Reportable, TextBuffer};
use mttp::lab1::tasks::TaskExecution;
use std::cell::RefCell;
use std::time::Duration;

#[test]
fn kind_labels() {
    assert_eq!(BenchmarkKind::Sequential.text(), "Sequential");
    assert_eq!(BenchmarkKind::Threads.text(), "Multi-thread");
    assert_eq!(BenchmarkKind::Workers.text(), "Worker pool");
    assert_eq!(BenchmarkKind::Processes.text(), "Multi-process");
}

#[test]
fn metadata_labels_and_kinds() {
    assert_eq!(BenchmarkMetadata::Sequential.text(), "Sequential");
    assert_eq!(BenchmarkMetadata::Threads(8).text(), "8 threads");
    assert_eq!(BenchmarkMetadata::Workers(2).text(), "2 workers");
    assert_eq!(BenchmarkMetadata::Processes(16).text(), "16 processes");
    assert_eq!(BenchmarkMetadata::Threads(8).kind(), BenchmarkKind::Threads);
    assert_eq!(BenchmarkMetadata::Processes(1).kind(), BenchmarkKind::Processes);
}

#[test]
fn result_line_has_four_decimals() {
    let r = BenchmarkResult::new(BenchmarkMetadata::Threads(4), 1, 500_000_000);
    assert_eq!(r.text(), "4 threads: 1.5000 seconds");
    let r = BenchmarkResult::new(BenchmarkMetadata::Sequential, 0, 123_456_789);
    assert_eq!(r.text(), "Sequential: 0.1235 seconds");
}

#[test]
fn result_from_duration_splits_seconds() {
    let r = BenchmarkResult::from_duration(BenchmarkMetadata::Workers(2), Duration::from_millis(2_750));
    assert_eq!(r.metadata, BenchmarkMetadata::Workers(2));
    assert_eq!(r.secs, 2);
    assert_eq!(r.subsec_nanos, 750_000_000);
}

fn sample_results() -> Vec<BenchmarkResult> {
    vec![
        BenchmarkResult::new(BenchmarkMetadata::Sequential, 1, 500_000_000),
        BenchmarkResult::new(BenchmarkMetadata::Threads(2), 0, 250_000_000),
        BenchmarkResult::new(BenchmarkMetadata::Processes(2), 3, 0),
        BenchmarkResult::new(BenchmarkMetadata::Threads(4), 0, 125_000_000),
    ]
}

#[test]
fn filter_keeps_order_of_one_kind() {
    let threads = BenchmarkResult::filter_by_kind(&sample_results(), &BenchmarkKind::Threads);
    assert_eq!(threads.len(), 2);
    assert_eq!(threads[0].metadata, BenchmarkMetadata::Threads(2));
    assert_eq!(threads[1].metadata, BenchmarkMetadata::Threads(4));
    assert!(BenchmarkResult::filter_by_kind(&sample_results(), &BenchmarkKind::Workers).is_empty());
}

#[test]
fn text_buffer_lines_and_paragraphs() {
    let mut b = TextBuffer::new();
    b.add_line("a");
    b.with_new_paragraph("b");
    assert_eq!(b.text(), "a\n\nb\n");
    assert_eq!(TextBuffer::default().text(), "");
}

#[test]
fn header_is_upper_case_and_trimmed() {
    let mut r = Report::default();
    r.add_header("  Multi-thread ");
    assert_eq!(r.text(), "\n=== MULTI-THREAD ===\n");
}

#[test]
fn report_of_one_kind() {
    let r = Report::by_kind(&sample_results(), BenchmarkKind::Threads).unwrap();
    assert_eq!(
        r.text(),
        "\n=== MULTI-THREAD ===\n2 threads: 0.2500 seconds\n4 threads: 0.1250 seconds\n"
    );
    assert!(Report::by_kind(&sample_results(), BenchmarkKind::Workers).is_none());
}

#[test]
fn extend_adds_a_paragraph() {
    let mut r = Report::new();
    let mut other = Report::new();
    other.add_result(&BenchmarkResult::new(BenchmarkMetadata::Sequential, 2, 0));
    r.extend(other);
    assert_eq!(r.text(), "\nSequential: 2.0000 seconds\n\n");
}

#[test]
fn full_report_in_kind_order() {
    let r = Report::for_benchmarks(&sample_results());
    assert_eq!(
        r.text(),
        [
            "\n\n=== SEQUENTIAL ===\nSequential: 1.5000 seconds\n\n",
            "\n\n=== MULTI-THREAD ===\n2 threads: 0.2500 seconds\n4 threads: 0.1250 seconds\n\n",
            "\n\n=== MULTI-PROCESS ===\n2 processes: 3.0000 seconds\n\n",
        ]
        .concat()
    );
    assert_eq!(Report::for_benchmarks(&[]).text(), "");
}

#[test]
fn benchmark_plan() {
    let plan = benchmarks();
    assert_eq!(
        plan,
        vec![
            BenchmarkMetadata::Sequential,
            BenchmarkMetadata::Threads(2),
            BenchmarkMetadata::Threads(4),
            BenchmarkMetadata::Threads(8),
            BenchmarkMetadata::Workers(2),
            BenchmarkMetadata::Workers(4),
            BenchmarkMetadata::Workers(8),
            BenchmarkMetadata::Processes(2),
            BenchmarkMetadata::Processes(4),
            BenchmarkMetadata::Processes(8),
        ]
    );
}

/// A task that records what was asked of it.
#[derive(Default)]
struct Recorder {
    calls: RefCell<Vec<String>>,
}

impl Manageable for Recorder {
    fn setup(&mut self) -> Result<(), Error> {
        self.calls.borrow_mut().push(String::from("setup"));
        Ok(())
    }

    fn teardown(&mut self) -> Result<(), Error> {
        self.calls.borrow_mut().push(String::from("teardown"));
        Err(Error::Cli(CliError::MissingProcessIndex))
    }
}

impl TaskExecution for Recorder {
    fn run_sequential(&self) {
        self.calls.borrow_mut().push(String::from("sequential"));
    }

    fn run_threads(&self, threads: usize) {
        self.calls.borrow_mut().push(format!("threads {}", threads));
    }

    fn run_workers(&self, workers: usize) {
        self.calls.borrow_mut().push(format!("workers {}", workers));
    }

    fn run_processes(&self, processes: usize) {
        self.calls.borrow_mut().push(format!("processes {}", processes));
    }
}

impl Benchmarkable for Recorder {}

impl Reportable for Recorder {
    fn name(&self) -> &'static str {
        "Recorder"
    }
}

#[test]
fn measuring_runs_between_setup_and_teardown() {
    let mut task = Recorder::default();
    Benchmarker::measure_threads(&mut task, 4);
    Benchmarker::measure_sequential(&mut task);
    Benchmarker::measure_workers(&mut task, 2);
    Benchmarker::measure_processes(&mut task, 8);
    assert_eq!(
        *task.calls.borrow(),
        vec![
            "setup", "threads 4", "teardown", "setup", "sequential", "teardown", "setup",
            "workers 2", "teardown", "setup", "processes 8", "teardown",
        ]
    );
}

#[test]
fn benchmark_follows_the_plan() {
    let mut task = Recorder::default();
    let results = task.benchmark();
    let plan = benchmarks();
    assert_eq!(results.len(), plan.len());
    for (result, metadata) in results.iter().zip(plan.iter()) {
        assert_eq!(result.metadata, *metadata);
        assert!(result.subsec_nanos < 1_000_000_000);
    }
    let calls = task.calls.borrow();
    assert_eq!(calls.len(), 30);
    assert_eq!(calls[1], "sequential");
    assert_eq!(calls[28], "processes 8");
}

#[test]
fn report_has_every_kind_in_order() {
    let mut task = Recorder::default();
    let text = task.report().text();
    let positions: Vec<usize> = ["=== SEQUENTIAL ===", "=== MULTI-THREAD ===", "=== WORKER POOL ===", "=== MULTI-PROCESS ==="]
        .iter()
        .map(|h| text.find(h).unwrap())
        .collect();
    assert!(positions.windows(2).all(|w| w[0] < w[1]));
    assert_eq!(text.lines().filter(|l| l.ends_with(" seconds")).count(), 10);
}

#[test]
fn run_plan_for_a_report() {
    let args = InputArgs { task: 2, processes_mode: false, process_index: None, total_processes: None };
    assert_eq!(args.run_plan(3), Ok(RunPlan::Report { task: 1 }));
}

#[test]
fn run_plan_for_a_child_process() {
    let args = InputArgs { task: 3, processes_mode: true, process_index: Some(1), total_processes: Some(4) };
    assert_eq!(
        args.run_plan(3),
        Ok(RunPlan::ProcessChunk { task: 2, process_index: 1, total_processes: 4 })
    );
}

#[test]
fn run_plan_errors() {
    let base = InputArgs { task: 0, processes_mode: false, process_index: None, total_processes: None };
    assert_eq!(base.run_plan(3), Err(CliError::InvalidTaskNumber(0)));
    assert_eq!(InputArgs { task: 4, ..base }.run_plan(3), Err(CliError::InvalidTaskNumber(4)));
    let child = InputArgs { task: 1, processes_mode: true, ..base };
    assert_eq!(child.run_plan(3), Err(CliError::MissingProcessIndex));
    assert_eq!(
        InputArgs { process_index: Some(0), ..child }.run_plan(3),
        Err(CliError::MissingTotalProcesses)
    );
}

#[test]
fn child_process_arguments() {
    assert_eq!(
        mttp::lab1::cli::child_args(3, 1, 4),
        vec!["--task", "3", "--processes-mode", "--process-index", "1", "--total-processes", "4"]
    );
}
