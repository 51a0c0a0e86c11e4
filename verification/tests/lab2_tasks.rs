use mttp::lab2::cli::{CliError, InputArgs};
use mttp::lab2::task::benchmark::{check_supported, BenchmarkError, BenchmarkKind, BenchmarkResult};
use mttp::lab2::task::executable::{ParallelismMethod, RunMode};
use mttp::lab2::tasks::html::HtmlTags;
use mttp::lab2::tasks::tag_counts::TagCounts;
use mttp::lab2::tasks::TaskLogicError;
use std::time::Duration;

fn key(s: &str) -> String {
    String::from(s)
}

#[test]
fn tag_counts_add_and_get() {
    let mut counts = TagCounts::new();
    assert_eq!(counts.len(), 0);
    assert_eq!(counts.get(&key("div")), 0);
    counts.add(key("div"), 2);
    counts.add(key("p"), 1);
    counts.add(key("div"), 3);
    assert_eq!(counts.len(), 2);
    assert_eq!(counts.get(&key("div")), 5);
    assert_eq!(counts.get(&key("p")), 1);
}

#[test]
fn tag_counts_merge_adds_name_by_name() {
    let mut a = TagCounts::new();
    a.add(key("a"), 1);
    a.add(key("b"), 2);
    let mut b = TagCounts::new();
    b.add(key("b"), 10);
    b.add(key("c"), 4);
    let m = a.merge(b);
    assert_eq!(m.len(), 3);
    assert_eq!(m.get(&key("a")), 1);
    assert_eq!(m.get(&key("b")), 12);
    assert_eq!(m.get(&key("c")), 4);
}

#[test]
fn tag_counts_merge_laws_on_values() {
    let make = |items: &[(&str, usize)]| {
        let mut c = TagCounts::new();
        for (k, v) in items {
            c.add(key(k), *v);
        }
        c
    };
    let names = ["x", "y", "z"];
    let x = || make(&[("x", 1), ("y", 2)]);
    let y = || make(&[("y", 3), ("z", 4)]);
    let z = || make(&[("x", 5)]);
    let left = x().merge(y()).merge(z());
    let right = x().merge(y().merge(z()));
    let swapped = y().merge(x());
    let with_empty = x().merge(TagCounts::new());
    for n in names {
        assert_eq!(left.get(&key(n)), right.get(&key(n)));
        assert_eq!(x().merge(y()).get(&key(n)), swapped.get(&key(n)));
        assert_eq!(with_empty.get(&key(n)), x().get(&key(n)));
    }
}

#[test]
fn tags_of_one_document() {
    let counts = HtmlTags::count_tags_in_doc("<html><DIV class=\"a\">x</div><p>y</p> <br/> < > <>");
    assert_eq!(counts.get(&key("html")), 1);
    assert_eq!(counts.get(&key("div")), 2);
    assert_eq!(counts.get(&key("p")), 2);
    assert_eq!(counts.get(&key("br")), 1);
    assert_eq!(counts.len(), 4);
}

#[test]
fn text_without_tags_has_none() {
    assert_eq!(HtmlTags::count_tags_in_doc("plain text > here").len(), 0);
    assert_eq!(HtmlTags::count_tags_in_doc("").len(), 0);
}

#[test]
fn lower_case_is_unicode_aware() {
    let counts = HtmlTags::count_tags_in_doc("<ÄB><äb>");
    assert_eq!(counts.get(&key("äb")), 2);
}

fn task_with(docs: &[&str]) -> HtmlTags {
    let mut task = HtmlTags::with_documents_amount(docs.len());
    for d in docs {
        task.push_document(String::from(*d));
    }
    task
}

#[test]
fn every_mode_counts_the_same_tags() {
    let docs = [
        "<html><head></head><body><div>a</div></body></html>",
        "<span>b</span><p>c</p>",
        "<img src=x> <a href=y>z</a>",
        "<h1>t</h1>",
        "<custom-tag>q</custom-tag>",
    ];
    let task = task_with(&docs);
    assert_eq!(task.documents_amount, 5);
    let sequential = task.sequential();
    assert_eq!(sequential, 10);
    assert_eq!(task.map_reduce(), sequential);
    for threshold in 1..=6 {
        assert_eq!(task.fork_join(threshold), sequential);
    }
}

#[test]
fn fork_join_counts_match_document_counts() {
    let docs: Vec<String> = vec!["<a><b>".into(), "<a>".into(), "<c></a>".into()];
    let counts = HtmlTags::fork_join_recursive(&docs, 1);
    assert_eq!(counts.get(&key("a")), 3);
    assert_eq!(counts.get(&key("b")), 1);
    assert_eq!(counts.get(&key("c")), 1);
}

#[test]
fn clearing_documents_leaves_no_tags() {
    let mut task = task_with(&["<a>"]);
    assert_eq!(task.sequential(), 1);
    task.clear_documents();
    assert_eq!(task.sequential(), 0);
}

#[test]
fn generated_document_pieces() {
    let doc = HtmlTags::generated_document(&[0, 3, 8]).unwrap();
    assert_eq!(
        doc,
        "<html>random text</html> <div>random text</div> <img>random text</img> "
    );
    let counts = HtmlTags::count_tags_in_doc(&doc);
    assert_eq!(counts.get(&key("html")), 2);
    assert_eq!(counts.get(&key("div")), 2);
    assert_eq!(counts.get(&key("img")), 2);
    assert_eq!(HtmlTags::generated_document(&[]).unwrap(), "");
}

#[test]
fn generated_document_rejects_unknown_tags() {
    assert_eq!(
        HtmlTags::generated_document(&[1, 9, 12]),
        Err(TaskLogicError::IndexOutOfBounds(9))
    );
}

#[test]
fn html_benchmarks_and_modes() {
    let task = HtmlTags::with_documents_amount(10);
    let benchmarks = task.benchmarks();
    assert_eq!(benchmarks.len(), 7);
    assert_eq!(benchmarks[1], BenchmarkKind::MapReduce { partitions: 8 });
    assert_eq!(benchmarks[3], BenchmarkKind::ForkJoin { threshold: 10 });
    let modes = task.supported_modes();
    assert_eq!(check_supported(&benchmarks, &modes), Ok(()));
}

#[test]
fn unsupported_benchmark_is_reported() {
    let benchmarks = [
        BenchmarkKind::Sequential,
        BenchmarkKind::Pipeline { buffer_capacity: 4, max_threads: 2 },
        BenchmarkKind::ProducerConsumer { buffer_capacity: 1, consumers: 1, producers: 1 },
    ];
    let modes = [RunMode::Sequential, RunMode::MapReduce];
    assert_eq!(
        check_supported(&benchmarks, &modes),
        Err(BenchmarkError::MethodIsNotSupported(RunMode::Pipeline))
    );
    assert_eq!(check_supported(&[], &[]), Ok(()));
}

#[test]
fn run_mode_of_each_kind() {
    assert_eq!(RunMode::from(&BenchmarkKind::Sequential), RunMode::Sequential);
    assert_eq!(RunMode::from(&BenchmarkKind::MapReduce { partitions: 2 }), RunMode::MapReduce);
    assert_eq!(RunMode::from(&BenchmarkKind::ForkJoin { threshold: 2 }), RunMode::ForkJoin);
    assert_eq!(RunMode::from(&BenchmarkKind::WorkerPool { workers: 2 }), RunMode::WorkerPool);
    assert_eq!(
        RunMode::from(&BenchmarkKind::Pipeline { buffer_capacity: 1, max_threads: 1 }),
        RunMode::Pipeline
    );
    assert_eq!(
        RunMode::from(&BenchmarkKind::ProducerConsumer { buffer_capacity: 1, consumers: 1, producers: 1 }),
        RunMode::ProducerConsumer
    );
}

#[test]
fn benchmark_kind_labels() {
    assert_eq!(BenchmarkKind::Sequential.text(), "Sequential");
    assert_eq!(BenchmarkKind::MapReduce { partitions: 8 }.text(), "Map-Reduce with 8 partitions");
    assert_eq!(BenchmarkKind::ForkJoin { threshold: 100 }.text(), "Fork-Join with threshold of 100");
    assert_eq!(BenchmarkKind::WorkerPool { workers: 4 }.text(), "Worker Pool with 4 workers");
    assert_eq!(
        BenchmarkKind::Pipeline { buffer_capacity: 16, max_threads: 3 }.text(),
        "Pipeline with buffer capacity of 16 and max 3 threads"
    );
    assert_eq!(
        BenchmarkKind::ProducerConsumer { buffer_capacity: 8, consumers: 2, producers: 1 }.text(),
        "Producer-Consumer with buffer capacity of 8, 2 consumers and 1 producers"
    );
}

#[test]
fn benchmark_result_line() {
    let r = BenchmarkResult::from_duration(BenchmarkKind::WorkerPool { workers: 2 }, Duration::from_micros(1_234_500));
    assert_eq!(r.secs, 1);
    assert_eq!(r.subsec_nanos, 234_500_000);
    assert_eq!(r.text(), "Worker Pool with 2 workers: 1.2345 seconds.");
}

#[test]
fn method_and_mode_names() {
    assert_eq!(ParallelismMethod::MapReduce.text(), "Map-Reduce");
    assert_eq!(ParallelismMethod::ForkJoin.text(), "Fork-Join");
    assert_eq!(ParallelismMethod::WorkerPool.text(), "Worker Pool");
    assert_eq!(ParallelismMethod::Pipeline.text(), "Pipeline");
    assert_eq!(ParallelismMethod::ProducerConsumer.text(), "Producer-Consumer");
    assert_eq!(RunMode::Sequential.text(), "Sequential");
    assert_eq!(RunMode::ProducerConsumer.text(), "Producer-Consumer");
}

#[test]
fn task_number_selects_a_position() {
    assert_eq!(InputArgs { task: 1 }.task_position(4), Ok(0));
    assert_eq!(InputArgs { task: 4 }.task_position(4), Ok(3));
    assert_eq!(InputArgs { task: 0 }.task_position(4), Err(CliError::UnknownTask(0)));
    assert_eq!(InputArgs { task: 5 }.task_position(4), Err(CliError::UnknownTask(5)));
}

#[test]
fn generated_tags_are_counted_twice_each() {
    let doc = HtmlTags::generated_document(&[0, 0, 5, 7, 0]).unwrap();
    let counts = HtmlTags::count_tags_in_doc(&doc);
    assert_eq!(counts.get(&key("html")), 6);
    assert_eq!(counts.get(&key("p")), 2);
    assert_eq!(counts.get(&key("h1")), 2);
    assert_eq!(counts.len(), 3);
}
