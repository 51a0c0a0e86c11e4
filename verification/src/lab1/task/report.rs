use super::benchmark::{
    benchmark_plan, follows_plan, kind_text, result_text, results_of_kind, BenchmarkKind,
    BenchmarkResult, Benchmarkable,
};
use crate::text::{ascii_upper_spec, to_ascii_uppercase, trim, trim_spec};
use vstd::prelude::*;

verus! {

/// Text built line by line.
#[derive(Debug)]
pub struct TextBuffer {
    buffer: String,
}

/// The lines of the results, each ended by a line break.
pub open spec fn results_lines(results: Seq<BenchmarkResult>) -> Seq<char>
    decreases results.len(),
{
    if results.len() == 0 {
        Seq::empty()
    } else {
        results_lines(results.drop_last()) + result_text(results.last()) + "\n"@
    }
}

/// The header line of a section: the name trimmed, in ASCII upper case, between `===`.
pub open spec fn header_line(header: Seq<char>) -> Seq<char> {
    "=== "@ + trim_spec(ascii_upper_spec(header)) + " ==="@
}

/// The text of the report of one kind of results: a blank line, the header and the lines.
pub open spec fn kind_report_text(results: Seq<BenchmarkResult>, kind: BenchmarkKind) -> Seq<char> {
    "\n"@ + header_line(kind_text(kind)) + "\n"@ + results_lines(results_of_kind(results, kind))
}

/// Every sub-second part is below one second.
pub open spec fn valid_results(results: Seq<BenchmarkResult>) -> bool {
    forall|i: int| 0 <= i < results.len() ==> #[trigger] results[i].subsec_nanos < 1_000_000_000
}

impl TextBuffer {
    /// The text so far.
    pub closed spec fn contents(&self) -> Seq<char> {
        self.buffer@
    }

    /// An empty buffer.
    pub fn new() -> (r: Self)
        ensures
            r.contents() == Seq::<char>::empty(),
    {
        TextBuffer { buffer: String::new() }
    }

    /// Starts a paragraph with `line`: a line break, then the line.
    pub fn with_new_paragraph(&mut self, line: &str)
        ensures
            final(self).contents() == old(self).contents() + "\n"@ + line@ + "\n"@,
    {
        self.buffer.append("\n");
        self.add_line(line);
    }

    /// Adds `line` and a line break.
    pub fn add_line(&mut self, line: &str)
        ensures
            final(self).contents() == old(self).contents() + line@ + "\n"@,
    {
        self.buffer.append(line);
        self.buffer.append("\n");
    }

    /// The text so far.
    pub fn text(&self) -> (r: String)
        ensures
            r@ == self.contents(),
    {
        self.buffer.clone()
    }
}

impl Default for TextBuffer {
    fn default() -> (r: Self)
        ensures
            r.contents() == Seq::<char>::empty(),
    {
        Self::new()
    }
}

/// A report of benchmark results.
#[derive(Debug)]
pub struct Report {
    buffer: TextBuffer,
}

impl Report {
    /// The text of the report.
    pub closed spec fn contents(&self) -> Seq<char> {
        self.buffer.contents()
    }

    /// An empty report.
    pub fn new() -> (r: Self)
        ensures
            r.contents() == Seq::<char>::empty(),
    {
        Report { buffer: TextBuffer::new() }
    }

    /// Starts a section with the header `=== HEADER ===`.
    pub fn add_header(&mut self, header: &str)
        ensures
            final(self).contents() == old(self).contents() + "\n"@ + header_line(header@) + "\n"@,
    {
        let upper = to_ascii_uppercase(header);
        let trimmed = trim(upper.as_str());
        let mut line = String::from_str("=== ");
        line.append(trimmed.as_str());
        line.append(" ===");
        self.buffer.with_new_paragraph(line.as_str());
    }

    /// Adds the line of a result.
    pub fn add_result(&mut self, result: &BenchmarkResult)
        requires
            result.subsec_nanos < 1_000_000_000,
        ensures
            final(self).contents() == old(self).contents() + result_text(*result) + "\n"@,
    {
        let line = result.text();
        self.buffer.add_line(line.as_str());
    }

    /// The text of the report.
    pub fn text(&self) -> (r: String)
        ensures
            r@ == self.contents(),
    {
        self.buffer.text()
    }

    /// Appends `other` as a new paragraph.
    pub fn extend(&mut self, other: Report)
        ensures
            final(self).contents() == old(self).contents() + "\n"@ + other.contents() + "\n"@,
    {
        let text = other.text();
        self.buffer.with_new_paragraph(text.as_str());
    }

    /// The report of the results of one kind: a header and their lines; nothing when there is
    /// no such result.
    pub fn by_kind(benchmarks: &[BenchmarkResult], kind: BenchmarkKind) -> (r: Option<Self>)
        requires
            valid_results(benchmarks@),
        ensures
            r is Some <==> results_of_kind(benchmarks@, kind).len() > 0,
            r matches Some(report) ==> report.contents() == kind_report_text(benchmarks@, kind),
    {
        let results = BenchmarkResult::filter_by_kind(benchmarks, &kind);
        proof {
            lemma_results_of_kind_valid(benchmarks@, kind);
        }
        if results.len() > 0 {
            let mut report = Report::new();
            report.add_header(kind.text());
            let ghost start = report.contents();
            let mut i: usize = 0;
            while i < results.len()
                invariant
                    i <= results@.len(),
                    valid_results(results@),
                    report.contents() == start + results_lines(results@.take(i as int)),
                decreases results@.len() - i,
            {
                assert(results@.take(i + 1).drop_last() =~= results@.take(i as int));
                report.add_result(&results[i]);
                i = i + 1;
                assert(report.contents() =~= start + results_lines(results@.take(i as int)));
            }
            assert(results@.take(results@.len() as int) =~= results@);
            assert(report.contents() =~= kind_report_text(benchmarks@, kind));
            return Some(report);
        }
        None
    }

    /// Appends the section of one kind as a paragraph, when there is a result of that kind.
    fn append_kind(&mut self, benchmarks: &[BenchmarkResult], kind: BenchmarkKind)
        requires
            valid_results(benchmarks@),
        ensures
            final(self).contents() == old(self).contents() + kind_paragraph(benchmarks@, kind),
    {
        if let Some(section) = Report::by_kind(benchmarks, kind) {
            self.extend(section);
        } else {
            assert(old(self).contents() + kind_paragraph(benchmarks@, kind) =~= old(self).contents());
        }
    }

    /// The full report of a set of results: the sections of the sequential, thread, worker
    /// and process results, each as a paragraph, the empty ones left out.
    pub fn for_benchmarks(benchmarks: &[BenchmarkResult]) -> (r: Self)
        requires
            valid_results(benchmarks@),
        ensures
            r.contents() == full_report_text(benchmarks@),
    {
        let mut report = Report::new();
        report.append_kind(benchmarks, BenchmarkKind::Sequential);
        let ghost after_sequential = report.contents();
        report.append_kind(benchmarks, BenchmarkKind::Threads);
        let ghost after_threads = report.contents();
        report.append_kind(benchmarks, BenchmarkKind::Workers);
        let ghost after_workers = report.contents();
        report.append_kind(benchmarks, BenchmarkKind::Processes);
        assert(after_sequential =~= kind_paragraph(benchmarks@, BenchmarkKind::Sequential));
        assert(after_threads =~= kind_paragraph(benchmarks@, BenchmarkKind::Sequential)
            + kind_paragraph(benchmarks@, BenchmarkKind::Threads));
        assert(after_workers =~= kind_paragraph(benchmarks@, BenchmarkKind::Sequential)
            + kind_paragraph(benchmarks@, BenchmarkKind::Threads) + kind_paragraph(
            benchmarks@,
            BenchmarkKind::Workers,
        ));
        report
    }
}

/// The text of the full report of a set of results: the paragraphs of the sequential, thread,
/// worker and process results, in this order.
pub open spec fn full_report_text(results: Seq<BenchmarkResult>) -> Seq<char> {
    kind_paragraph(results, BenchmarkKind::Sequential) + kind_paragraph(
        results,
        BenchmarkKind::Threads,
    ) + kind_paragraph(results, BenchmarkKind::Workers) + kind_paragraph(
        results,
        BenchmarkKind::Processes,
    )
}

/// A task that reports its benchmarks.
pub trait Reportable: Benchmarkable {
    /// The name of the task.
    fn name(&self) -> &'static str;

    /// Times the task in each way of the plan and reports the results by kind.
    fn report(&mut self) -> (r: Report)
        ensures
            exists|results: Seq<BenchmarkResult>|
                follows_plan(results, benchmark_plan()) && r.contents() == full_report_text(
                    results,
                ),
    {
        let results = self.benchmark();
        let report = Report::for_benchmarks(results.as_slice());
        assert(follows_plan(results@, benchmark_plan()) && report.contents() == full_report_text(
            results@,
        ));
        report
    }
}

/// The paragraph that the full report holds for one kind: the section as a paragraph, or
/// nothing when there is no result of the kind.
pub open spec fn kind_paragraph(results: Seq<BenchmarkResult>, kind: BenchmarkKind) -> Seq<char> {
    if results_of_kind(results, kind).len() > 0 {
        "\n"@ + kind_report_text(results, kind) + "\n"@
    } else {
        Seq::empty()
    }
}

proof fn lemma_results_of_kind_valid(results: Seq<BenchmarkResult>, kind: BenchmarkKind)
    requires
        valid_results(results),
    ensures
        valid_results(results_of_kind(results, kind)),
    decreases results.len(),
{
    if results.len() > 0 {
        assert(valid_results(results.drop_last())) by {
            assert forall|i: int| 0 <= i < results.drop_last().len() implies #[trigger] results.drop_last()[i].subsec_nanos
                < 1_000_000_000 by {
                assert(results.drop_last()[i] == results[i]);
            }
        }
        lemma_results_of_kind_valid(results.drop_last(), kind);
    }
}

impl Default for Report {
    fn default() -> (r: Self)
        ensures
            r.contents() == Seq::<char>::empty(),
    {
        Self::new()
    }
}

} // verus!
