use crate::lab3::errors::Error;
use crate::lab3::task::benchmark::{result_text, valid_results, BenchmarkResult, Benchmarkable};
use crate::text::{ascii_upper_spec, to_ascii_uppercase, trim, trim_spec};
use vstd::prelude::*;

verus! {

/// Text built line by line.
#[derive(Debug)]
pub struct TextBuffer {
    buffer: String,
}

/// A report of benchmark results.
#[derive(Debug)]
pub struct Report {
    buffer: TextBuffer,
}

/// The header line of a task's report: `=== REPORT FOR <NAME> ===`, the name in ASCII upper case
/// and trimmed.
pub open spec fn task_header_line(name: Seq<char>) -> Seq<char> {
    "=== REPORT FOR "@ + trim_spec(ascii_upper_spec(name)) + " ==="@
}

/// The lines of the results, each ended by a line break.
pub open spec fn results_lines(results: Seq<BenchmarkResult>) -> Seq<char>
    decreases results.len(),
{
    if results.len() == 0 {
        Seq::empty()
    } else {
        results_lines(results.drop_last()) + result_text(results.last()) + "\n"@
    }
}

/// The report of a task: its header line, then a line for each result.
pub open spec fn report_text(name: Seq<char>, results: Seq<BenchmarkResult>) -> Seq<char> {
    task_header_line(name) + "\n"@ + results_lines(results)
}

impl TextBuffer {
    /// The text so far.
    pub closed spec fn contents(&self) -> Seq<char> {
        self.buffer@
    }

    /// An empty buffer.
    pub fn new() -> (r: Self)
        ensures
            r.contents() == Seq::<char>::empty(),
    {
        TextBuffer { buffer: String::new() }
    }

    /// Adds `line` and a line break.
    pub fn add_line(&mut self, line: &str)
        ensures
            final(self).contents() == old(self).contents() + line@ + "\n"@,
    {
        self.buffer.append(line);
        self.buffer.append("\n");
    }

    /// The text so far.
    pub fn text(&self) -> (r: String)
        ensures
            r@ == self.contents(),
    {
        self.buffer.clone()
    }
}

impl Default for TextBuffer {
    fn default() -> (r: Self)
        ensures
            r.contents() == Seq::<char>::empty(),
    {
        Self::new()
    }
}

impl Report {
    /// The text of the report.
    pub closed spec fn contents(&self) -> Seq<char> {
        self.buffer.contents()
    }

    /// An empty report.
    pub fn new() -> (r: Self)
        ensures
            r.contents() == Seq::<char>::empty(),
    {
        Report { buffer: TextBuffer::new() }
    }

    /// Adds the header line of the task `task_name`.
    pub fn add_task_header(&mut self, task_name: &str)
        ensures
            final(self).contents() == old(self).contents() + task_header_line(task_name@) + "\n"@,
    {
        let upper = to_ascii_uppercase(task_name);
        let trimmed = trim(upper.as_str());
        let mut header = String::from_str("=== REPORT FOR ");
        header.append(trimmed.as_str());
        header.append(" ===");
        self.buffer.add_line(header.as_str());
    }

    /// Adds the line of a result.
    pub fn add_result(&mut self, result: &BenchmarkResult)
        requires
            result.subsec_nanos < 1_000_000_000,
        ensures
            final(self).contents() == old(self).contents() + result_text(*result) + "\n"@,
    {
        let line = result.text();
        self.buffer.add_line(line.as_str());
    }

    /// The text of the report.
    pub fn get_text(&self) -> (r: String)
        ensures
            r@ == self.contents(),
    {
        self.buffer.text()
    }
}

impl Default for Report {
    fn default() -> (r: Self)
        ensures
            r.contents() == Seq::<char>::empty(),
    {
        Self::new()
    }
}

/// A task that reports its benchmarks.
pub trait Reportable: Benchmarkable {
    /// The name of the task.
    fn name(&self) -> &'static str;

    /// The report of the task: its header, then the line of each benchmark result; a failed
    /// benchmark run is the error.
    fn report(&mut self) -> (r: Result<Report, Error>)
        ensures
            r matches Ok(report) ==> exists|name: Seq<char>, results: Seq<BenchmarkResult>|
                valid_results(results) && report.contents() == #[trigger] report_text(name, results),
        default_ensures
            r matches Ok(report) ==> exists|
                name: &'static str,
                a: &mut Self,
                results: Result<Vec<BenchmarkResult>, Error>,
            |
                #[trigger] call_ensures(Self::name, (&*old(self),), name) && *a == *old(self)
                    && *final(self) == *final(a) && #[trigger] call_ensures(
                    Self::run_benchmarks,
                    (a,),
                    results,
                ) && (results matches Ok(list) && report.contents() == report_text(name@, list@)),
            r matches Err(e) ==> exists|a: &mut Self|
                *a == *old(self) && *final(self) == *final(a) && #[trigger] call_ensures(
                    Self::run_benchmarks,
                    (a,),
                    Err::<Vec<BenchmarkResult>, Error>(e),
                ),
    {
        let mut report = Report::new();
        let name = self.name();
        report.add_task_header(name);
        let ghost header = report.contents();
        let results = match self.run_benchmarks() {
            Ok(results) => results,
            Err(e) => {
                return Err(e);
            },
        };
        let mut i: usize = 0;
        while i < results.len()
            invariant
                i <= results@.len(),
                valid_results(results@),
                header == task_header_line(name@) + "\n"@,
                report.contents() == header + results_lines(results@.take(i as int)),
            decreases results@.len() - i,
        {
            assert(results@.take(i + 1).drop_last() =~= results@.take(i as int));
            assert(results@[i as int].subsec_nanos < 1_000_000_000);
            report.add_result(&results[i]);
            i = i + 1;
            assert(report.contents() =~= header + results_lines(results@.take(i as int)));
        }
        assert(results@.take(results@.len() as int) =~= results@);
        assert(report.contents() =~= report_text(name@, results@));
        Ok(report)
    }
}

} // verus!
