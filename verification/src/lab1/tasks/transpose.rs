use super::factorization::div_ceil;
use super::child_outputs::{leading_parsed, output_numbers, output_views, parse_outputs};
use crate::lab1::errors::{Error, SystemError, TaskError};
use crate::lab1::task::lifecycle::Manageable;
use vstd::prelude::*;

verus! {

/// Transposes a square matrix of `u64`, stored row by row.
pub struct Transpose {
    size: usize,
    input_matrix: Vec<u64>,
}

/// The matrix that `setup` fills in: the entry at flat index `i` is `i % 500`.
pub open spec fn generated_matrix(len: int) -> Seq<u64> {
    Seq::new(len as nat, |i: int| (i % 500) as u64)
}

/// The flat index of the input that holds entry `k` of the rows `start_row..` of the transpose
/// of an `n` by `n` matrix: row `start_row + k / n`, column `k % n` of the transpose.
pub open spec fn source_index(n: int, start_row: int, k: int) -> int {
    (k % n) * n + start_row + k / n
}

/// The first index that the transposition of row `r` reads, from column `c` on, that is outside
/// an input of length `len`.
pub open spec fn first_bad_in_row(n: int, len: int, r: int, c: int) -> Option<int>
    decreases n - c,
{
    if c >= n {
        None
    } else if c * n + r >= len {
        Some(c * n + r)
    } else {
        first_bad_in_row(n, len, r, c + 1)
    }
}

/// The first index, in the order rows `r..end_row` and within a row by column, that the
/// transposition reads outside an input of length `len`.
pub open spec fn first_bad_index(n: int, len: int, r: int, end_row: int) -> Option<int>
    decreases end_row - r,
{
    if r >= end_row {
        None
    } else {
        match first_bad_in_row(n, len, r, 0) {
            Some(k) => Some(k),
            None => first_bad_index(n, len, r + 1, end_row),
        }
    }
}

/// `out` holds the rows `start_row..start_row + out.len() / n` of the transpose of `input`.
pub open spec fn holds_transposed_rows(out: Seq<u64>, input: Seq<u64>, n: int, start_row: int) -> bool {
    forall|k: int| 0 <= k < out.len() ==> #[trigger] out[k] == input[source_index(n, start_row, k)]
}

/// What `is_transposed` reports for an output `out` of an `n` by `n` input.
pub open spec fn is_transposed_spec(n: int, input: Seq<u64>, out: Seq<u64>) -> Result<bool, TaskError> {
    if n - 1 >= out.len() {
        Err(TaskError::IndexingOutOfBounds((n - 1) as usize))
    } else if (n - 1) * n >= input.len() {
        Err(TaskError::IndexingOutOfBounds(((n - 1) * n) as usize))
    } else if n + 2 >= out.len() {
        Err(TaskError::IndexingOutOfBounds((n + 2) as usize))
    } else if 2 * n + 1 >= input.len() {
        Err(TaskError::IndexingOutOfBounds((2 * n + 1) as usize))
    } else {
        Ok(out[n - 1] == input[(n - 1) * n] && out[n + 2] == input[2 * n + 1])
    }
}

proof fn lemma_row_ok(n: int, len: int, r: int, c: int)
    requires
        0 <= c,
        n >= 1,
        0 <= r,
        (n - 1) * n + r < len,
    ensures
        first_bad_in_row(n, len, r, c) == None::<int>,
    decreases n - c,
{
    if c < n {
        assert(c * n <= (n - 1) * n) by (nonlinear_arith)
            requires
                c <= n - 1,
                n >= 1,
        ;
        lemma_row_ok(n, len, r, c + 1);
    }
}

/// When the input holds all `n * n` entries, no index the transposition reads is missing.
pub proof fn lemma_full_input_has_no_bad_index(n: int, len: int, r: int, end_row: int)
    requires
        n >= 1,
        0 <= r,
        end_row <= n,
        n * n <= len,
    ensures
        first_bad_index(n, len, r, end_row) == None::<int>,
    decreases end_row - r,
{
    if r < end_row {
        assert((n - 1) * n + r < len) by (nonlinear_arith)
            requires
                r < n,
                n * n <= len,
        ;
        lemma_row_ok(n, len, r, 0);
        lemma_full_input_has_no_bad_index(n, len, r + 1, end_row);
    }
}

proof fn lemma_flat_index(n: int, rl: int, c: int)
    requires
        n >= 1,
        0 <= rl,
        0 <= c < n,
    ensures
        (rl * n + c) / n == rl,
        (rl * n + c) % n == c,
{
    vstd::arithmetic::div_mod::lemma_fundamental_div_mod_converse(rl * n + c, n, rl, c);
}

/// A full transpose passes the quick check: for `n >= 3` and an `n` by `n` input, an output that
/// holds the transpose makes `is_transposed` report `Ok(true)`. (For `n < 3` the output has no
/// entry at index `n + 2` and the check reports that index.)
pub proof fn lemma_transpose_passes_check(n: int, input: Seq<u64>, out: Seq<u64>)
    requires
        n >= 3,
        input.len() == n * n,
        out.len() == n * n,
        holds_transposed_rows(out, input, n, 0),
    ensures
        is_transposed_spec(n, input, out) == Ok::<bool, TaskError>(true),
{
    assert(n * n >= 3 * n && (n - 1) * n == n * n - n) by (nonlinear_arith)
        requires
            n >= 3,
    ;
    lemma_flat_index(n, 0, n - 1);
    assert(source_index(n, 0, n - 1) == (n - 1) * n);
    lemma_flat_index(n, 1, 2);
    assert(1 * n + 2 == n + 2);
    assert(source_index(n, 0, n + 2) == 2 * n + 1);
    lemma_flat_index(n, 1, 2);
    assert(out[n - 1] == input[source_index(n, 0, n - 1)]);
    assert(out[n + 2] == input[source_index(n, 0, n + 2)]);
}

/// The quick check accepts an output only when both probed entries match their mirror entries
/// in the input: row 0, column `n - 1` against row `n - 1`, column 0, and row 1, column 2
/// against row 2, column 1. An output that differs from the transpose at either of them, with
/// all four probed indices inside the matrices, is reported as not transposed.
pub proof fn lemma_check_needs_both_entries(n: int, input: Seq<u64>, out: Seq<u64>)
    requires
        n >= 1,
    ensures
        is_transposed_spec(n, input, out) == Ok::<bool, TaskError>(true) ==> out[n - 1] == input[(n
            - 1) * n] && out[n + 2] == input[2 * n + 1],
        n + 2 < out.len() && (n - 1) * n < input.len() && 2 * n + 1 < input.len() && (out[n - 1]
            != input[(n - 1) * n] || out[n + 2] != input[2 * n + 1]) ==> is_transposed_spec(n, input, out) == Ok::<bool, TaskError>(
            false,
        ),
{
}

/// The rows `start..end` that the `index`-th of `parts` processes transposes.
pub open spec fn row_chunk(n: int, parts: int, index: int) -> (int, int) {
    let rows = (n + parts - 1) / parts;
    let start = index * rows;
    (start, if n < start + rows { n } else { start + rows })
}

/// The row ranges of a threaded run follow one another, each non-empty, from row 0 to row `n`.
pub open spec fn covers_rows(ranges: Seq<(usize, usize)>, n: int) -> bool {
    &&& ranges.len() >= 1
    &&& ranges[0].0 == 0
    &&& ranges.last().1 == n
    &&& forall|i: int| 0 <= i < ranges.len() ==> (#[trigger] ranges[i]).0 < ranges[i].1
    &&& forall|i: int| 0 <= i < ranges.len() - 1 ==> (#[trigger] ranges[i]).1 == ranges[i + 1].0
}

/// The chunks one after another.
pub open spec fn joined(chunks: Seq<Vec<u64>>) -> Seq<u64>
    decreases chunks.len(),
{
    if chunks.len() == 0 {
        Seq::empty()
    } else {
        joined(chunks.drop_last()) + chunks.last()@
    }
}

/// Rows `s..` of the transpose put after rows `0..s` give rows `0..` of the transpose.
proof fn lemma_append_rows(a: Seq<u64>, b: Seq<u64>, input: Seq<u64>, n: int, s: int)
    requires
        n >= 1,
        s >= 0,
        a.len() == s * n,
        holds_transposed_rows(a, input, n, 0),
        holds_transposed_rows(b, input, n, s),
    ensures
        holds_transposed_rows(a + b, input, n, 0),
{
    assert forall|k: int| 0 <= k < (a + b).len() implies #[trigger] (a + b)[k] == input[source_index(
        n,
        0,
        k,
    )] by {
        if k >= a.len() {
            let kk = k - s * n;
            vstd::arithmetic::div_mod::lemma_fundamental_div_mod(kk, n);
            vstd::arithmetic::div_mod::lemma_mod_bound(kk, n);
            let q = kk / n;
            let r = kk % n;
            assert(k == (s + q) * n + r) by (nonlinear_arith)
                requires
                    k == s * n + kk,
                    kk == n * q + r,
            ;
            vstd::arithmetic::div_mod::lemma_fundamental_div_mod_converse(k, n, s + q, r);
            assert(b[kk] == input[source_index(n, s, kk)]);
        }
    }
}

/// Chunks of the transpose, one for each range of rows, each holding its rows: put one after
/// another they hold the whole transpose, `n * n` entries. This is what a threaded run builds.
pub proof fn lemma_chunks_make_transpose(
    input: Seq<u64>,
    n: int,
    ranges: Seq<(usize, usize)>,
    chunks: Seq<Vec<u64>>,
)
    requires
        n >= 1,
        covers_rows(ranges, n),
        chunks.len() == ranges.len(),
        forall|i: int|
            0 <= i < chunks.len() ==> (#[trigger] chunks[i])@.len() == (ranges[i].1 - ranges[i].0) * n
                && holds_transposed_rows(chunks[i]@, input, n, ranges[i].0 as int),
    ensures
        joined(chunks).len() == n * n,
        holds_transposed_rows(joined(chunks), input, n, 0),
{
    lemma_chunk_prefix(input, n, ranges, chunks, chunks.len() as int);
    assert(chunks.take(chunks.len() as int) =~= chunks);
}

proof fn lemma_chunk_prefix(input: Seq<u64>, n: int, ranges: Seq<(usize, usize)>, chunks: Seq<Vec<u64>>, j: int)
    requires
        n >= 1,
        covers_rows(ranges, n),
        chunks.len() == ranges.len(),
        forall|i: int|
            0 <= i < chunks.len() ==> (#[trigger] chunks[i])@.len() == (ranges[i].1 - ranges[i].0) * n
                && holds_transposed_rows(chunks[i]@, input, n, ranges[i].0 as int),
        1 <= j <= chunks.len(),
    ensures
        joined(chunks.take(j)).len() == ranges[j - 1].1 * n,
        holds_transposed_rows(joined(chunks.take(j)), input, n, 0),
    decreases j,
{
    let prefix = chunks.take(j);
    assert(prefix.drop_last() =~= chunks.take(j - 1));
    assert(prefix.last() == chunks[j - 1]);
    let c = chunks[j - 1]@;
    let (s, e) = ranges[j - 1];
    if j == 1 {
        assert(prefix.drop_last() =~= Seq::<Vec<u64>>::empty());
        assert(joined(prefix.drop_last()) == Seq::<u64>::empty());
        assert(joined(prefix) =~= c);
        assert(e * n == (e - s) * n);
    } else {
        lemma_chunk_prefix(input, n, ranges, chunks, j - 1);
        let a = joined(chunks.take(j - 1));
        assert(ranges[j - 2].1 == s);
        lemma_append_rows(a, c, input, n, s as int);
        assert(joined(prefix) == a + c);
        assert(s * n + (e - s) * n == e * n) by (nonlinear_arith);
    }
}

impl Transpose {
    #[verifier::type_invariant]
    spec fn fits(self) -> bool {
        self.size * self.size <= usize::MAX
    }

    /// The number of rows and columns.
    pub closed spec fn n(&self) -> int {
        self.size as int
    }

    /// The input matrix, row by row.
    pub closed spec fn input(&self) -> Seq<u64> {
        self.input_matrix@
    }

    /// A task for a `size` by `size` matrix, with no input yet.
    pub fn with_size(size: usize) -> (r: Self)
        requires
            size * size <= usize::MAX,
        ensures
            r.n() == size,
            r.input() == Seq::<u64>::empty(),
    {
        Transpose { size, input_matrix: Vec::with_capacity(size * size) }
    }

    /// The number of rows and columns.
    pub fn size(&self) -> (r: usize)
        ensures
            r == self.n(),
            r * r <= usize::MAX,
    {
        proof {
            use_type_invariant(self);
        }
        self.size
    }

    /// The input matrix.
    pub fn matrix_ref(&self) -> (r: &[u64])
        ensures
            r@ == self.input(),
    {
        self.input_matrix.as_slice()
    }

    /// The `len` entries `0 % 500, 1 % 500, ...`.
    pub fn generated_matrix(len: usize) -> (r: Vec<u64>)
        ensures
            r@ == generated_matrix(len as int),
    {
        let mut data: Vec<u64> = Vec::with_capacity(len);
        let mut i: usize = 0;
        while i < len
            invariant
                i <= len,
                data@ == generated_matrix(i as int),
            decreases len - i,
        {
            data.push((i % 500) as u64);
            i = i + 1;
            assert(data@ =~= generated_matrix(i as int));
        }
        data
    }

    /// The rows `start_row..end_row` of the transpose of the `n` by `n` matrix `input`, row by
    /// row; the first index read outside `input`, in that order, is an error.
    pub fn transpose_rows(n: usize, input: &[u64], start_row: usize, end_row: usize) -> (r: Result<
        Vec<u64>,
        TaskError,
    >)
        requires
            start_row <= end_row <= n,
            n * n <= usize::MAX,
        ensures
            match first_bad_index(n as int, input@.len() as int, start_row as int, end_row as int) {
                Some(k) => r == Err::<Vec<u64>, TaskError>(TaskError::IndexingOutOfBounds(k as usize)),
                None => r matches Ok(out) && out@.len() == (end_row - start_row) * n
                    && holds_transposed_rows(out@, input@, n as int, start_row as int),
            },
    {
        let rows = end_row - start_row;
        assert(rows * n <= n * n) by (nonlinear_arith)
            requires
                rows <= n,
        ;
        let mut out: Vec<u64> = Vec::with_capacity(rows * n);
        let mut rl: usize = 0;
        while rl < rows
            invariant
                rows == end_row - start_row,
                start_row <= end_row <= n,
                n * n <= usize::MAX,
                rl <= rows,
                out@.len() == rl * n,
                holds_transposed_rows(out@, input@, n as int, start_row as int),
                first_bad_index(n as int, input@.len() as int, start_row as int, end_row as int)
                    == first_bad_index(n as int, input@.len() as int, start_row + rl, end_row as int),
            decreases rows - rl,
        {
            let r_global = start_row + rl;
            let mut c: usize = 0;
            while c < n
                invariant
                    rows == end_row - start_row,
                    start_row <= end_row <= n,
                    n * n <= usize::MAX,
                    rl < rows,
                    r_global == start_row + rl,
                    c <= n,
                    out@.len() == rl * n + c,
                    holds_transposed_rows(out@, input@, n as int, start_row as int),
                    first_bad_in_row(n as int, input@.len() as int, r_global as int, 0)
                        == first_bad_in_row(n as int, input@.len() as int, r_global as int, c as int),
                    first_bad_index(n as int, input@.len() as int, start_row as int, end_row as int)
                        == first_bad_index(n as int, input@.len() as int, r_global as int, end_row as int),
                decreases n - c,
            {
                assert(c * n + r_global < n * n) by (nonlinear_arith)
                    requires
                        c < n,
                        r_global < n,
                ;
                let in_index = c * n + r_global;
                if in_index >= input.len() {
                    return Err(TaskError::IndexingOutOfBounds(in_index));
                }
                let value = input[in_index];
                let ghost k = out@.len() as int;
                proof {
                    lemma_flat_index(n as int, rl as int, c as int);
                }
                out.push(value);
                c = c + 1;
                assert(rl * n + c <= rows * n) by (nonlinear_arith)
                    requires
                        c <= n,
                        rl < rows,
                ;
            }
            assert(first_bad_index(n as int, input@.len() as int, r_global as int, end_row as int)
                == first_bad_index(n as int, input@.len() as int, r_global + 1, end_row as int));
            rl = rl + 1;
            assert(out@.len() == rl * n) by (nonlinear_arith)
                requires
                    out@.len() == (rl - 1) * n + n,
            ;
        }
        Ok(out)
    }

    /// The rows of the threaded run: the output is cut into chunks of `ceil(n / threads)` rows,
    /// one thread each, the last one shorter when the rows do not divide evenly.
    pub fn thread_row_ranges(n: usize, threads: usize) -> (r: Vec<(usize, usize)>)
        requires
            n >= 1,
            threads >= 1,
        ensures
            covers_rows(r@, n as int),
            forall|i: int|
                0 <= i < r@.len() ==> (#[trigger] r@[i]).0 == i * ((n + threads - 1) / (
                threads as int)) && r@[i].1 == (if n < (i + 1) * ((n + threads - 1) / (
                threads as int)) {
                    n as int
                } else {
                    (i + 1) * ((n + threads - 1) / (threads as int))
                }),
    {
        let wide = div_ceil(n as u64, threads as u64);
        assert(wide <= n) by (nonlinear_arith)
            requires
                wide == (n + threads - 1) / (threads as int),
                n >= 1,
                threads >= 1,
        ;
        let rows = wide as usize;
        assert(rows >= 1) by (nonlinear_arith)
            requires
                rows == (n + threads - 1) / (threads as int),
                n >= 1,
                threads >= 1,
        ;
        let mut ranges: Vec<(usize, usize)> = Vec::new();
        let mut start: usize = 0;
        assert(ranges@.len() * rows == 0) by (nonlinear_arith)
            requires
                ranges@.len() == 0,
        ;
        while start < n
            invariant
                rows == (n + threads - 1) / (threads as int),
                rows >= 1,
                n >= 1,
                start <= n,
                start < n ==> start == ranges@.len() * rows,
                ranges@.len() == 0 ==> start == 0,
                ranges@.len() > 0 ==> ranges@.last().1 == start && ranges@[0].0 == 0,
                forall|i: int| 0 <= i < ranges@.len() ==> (#[trigger] ranges@[i]).0 < ranges@[i].1,
                forall|i: int|
                    0 <= i < ranges@.len() - 1 ==> (#[trigger] ranges@[i]).1 == ranges@[i + 1].0,
                forall|i: int|
                    0 <= i < ranges@.len() ==> (#[trigger] ranges@[i]).0 == i * rows && ranges@[i].1
                        == (if n < (i + 1) * rows {
                        n as int
                    } else {
                        (i + 1) * rows
                    }),
            decreases n - start,
        {
            let end = if n - start <= rows {
                n
            } else {
                start + rows
            };
            let ghost len = ranges@.len() as int;
            assert((len + 1) * rows == len * rows + rows) by (nonlinear_arith);
            ranges.push((start, end));
            start = end;
            proof {
                if start < n {
                    assert(start == (len + 1) * rows);
                }
            }
        }
        ranges
    }

    /// The chunks one after another.
    pub fn join_chunks(chunks: &Vec<Vec<u64>>) -> (r: Vec<u64>)
        ensures
            r@ == joined(chunks@),
    {
        let mut out: Vec<u64> = Vec::new();
        let mut i: usize = 0;
        while i < chunks.len()
            invariant
                i <= chunks@.len(),
                out@ == joined(chunks@.take(i as int)),
            decreases chunks@.len() - i,
        {
            let chunk = &chunks[i];
            let ghost before = out@;
            let mut j: usize = 0;
            while j < chunk.len()
                invariant
                    j <= chunk@.len(),
                    out@ == before + chunk@.take(j as int),
                decreases chunk@.len() - j,
            {
                out.push(chunk[j]);
                j = j + 1;
                assert(out@ =~= before + chunk@.take(j as int));
            }
            assert(chunks@.take(i + 1).drop_last() =~= chunks@.take(i as int));
            assert(chunk@.take(j as int) =~= chunk@);
            i = i + 1;
        }
        assert(chunks@.take(chunks@.len() as int) =~= chunks@);
        out
    }

    /// The transpose of the input matrix (the work of the sequential mode).
    pub fn transposed(&self) -> (r: Result<Vec<u64>, TaskError>)
        ensures
            match first_bad_index(self.n(), self.input().len() as int, 0, self.n()) {
                Some(k) => r == Err::<Vec<u64>, TaskError>(TaskError::IndexingOutOfBounds(k as usize)),
                None => r matches Ok(out) && out@.len() == self.n() * self.n()
                    && holds_transposed_rows(out@, self.input(), self.n(), 0),
            },
    {
        proof {
            use_type_invariant(self);
        }
        Self::transpose_rows(self.size, self.matrix_ref(), 0, self.size)
    }

    /// The matrix that a process transposes: the input, or the generated matrix when the input
    /// is empty (a fresh process has not run `setup`).
    pub open spec fn process_input(&self) -> Seq<u64> {
        if self.input().len() == 0 {
            generated_matrix(self.n() * self.n())
        } else {
            self.input()
        }
    }

    /// What the `process_index`-th of `total_processes` processes computes: it transposes its
    /// chunk of rows and reports the first entry of its output, or zero for an empty chunk.
    pub fn process_chunk_control(&self, process_index: usize, total_processes: usize) -> (r: Result<
        u64,
        TaskError,
    >)
        requires
            total_processes >= 1,
            process_index * ((self.n() + total_processes - 1) / (total_processes as int)) + (
            self.n() + total_processes - 1) / (total_processes as int) <= usize::MAX,
        ensures
            ({
                let (s, e) = row_chunk(self.n(), total_processes as int, process_index as int);
                if s < e {
                    match first_bad_index(self.n(), self.process_input().len() as int, s, e) {
                        Some(k) => r == Err::<u64, TaskError>(TaskError::IndexingOutOfBounds(k as usize)),
                        None => r == Ok::<u64, TaskError>(self.process_input()[s]),
                    }
                } else {
                    r == Ok::<u64, TaskError>(0)
                }
            }),
    {
        proof {
            use_type_invariant(self);
        }
        let n = self.size;
        let fallback: Vec<u64>;
        let input: &[u64] = if self.input_matrix.len() == 0 {
            fallback = Self::generated_matrix(n * n);
            fallback.as_slice()
        } else {
            self.matrix_ref()
        };
        let chunk_rows = div_ceil(n as u64, total_processes as u64) as usize;
        let start_row = process_index * chunk_rows;
        let end_row = if n < start_row + chunk_rows {
            n
        } else {
            start_row + chunk_rows
        };
        let mut control_value: u64 = 0;
        if start_row < end_row {
            let out_chunk = Self::transpose_rows(n, input, start_row, end_row)?;
            proof {
                assert(end_row - start_row >= 1);
                assert(out_chunk@.len() >= 1) by (nonlinear_arith)
                    requires
                        out_chunk@.len() == (end_row - start_row) * n,
                        end_row - start_row >= 1,
                        n >= 1,
                ;
                assert(source_index(n as int, start_row as int, 0) == start_row) by {
                    lemma_flat_index(n as int, 0, 0);
                }
            }
            control_value = out_chunk[0];
        }
        Ok(control_value)
    }

    /// A quick check of two off-diagonal entries: row 0, column `n - 1` and row 1, column 2 of
    /// `out` against the entries across the diagonal in the input.
    pub fn is_transposed(&self, out_matrix: &[u64]) -> (r: Result<bool, TaskError>)
        requires
            self.n() >= 1,
        ensures
            r == is_transposed_spec(self.n(), self.input(), out_matrix@),
            r matches Ok(b) ==> (b <==> out_matrix@[self.n() - 1] == self.input()[(self.n() - 1)
                * self.n()] && out_matrix@[self.n() + 2] == self.input()[2 * self.n() + 1]),
    {
        proof {
            use_type_invariant(self);
            assert(2 * self.size + 2 <= usize::MAX) by (nonlinear_arith)
                requires
                    self.size * self.size <= usize::MAX,
                    usize::MAX >= 0xffff_ffff,
            ;
        }
        let n = self.size;
        let index = n - 1;
        if index >= out_matrix.len() {
            return Err(TaskError::IndexingOutOfBounds(index));
        }
        let top_right_out = out_matrix[index];
        assert((n - 1) * n <= n * n) by (nonlinear_arith);
        let index = (n - 1) * n;
        if index >= self.input_matrix.len() {
            return Err(TaskError::IndexingOutOfBounds(index));
        }
        let bottom_left_in = self.input_matrix[index];
        let index = n + 2;
        if index >= out_matrix.len() {
            return Err(TaskError::IndexingOutOfBounds(index));
        }
        let arbitrary_out = out_matrix[index];
        let index = 2 * n + 1;
        if index >= self.input_matrix.len() {
            return Err(TaskError::IndexingOutOfBounds(index));
        }
        let arbitrary_in = self.input_matrix[index];
        Ok(top_right_out == bottom_left_in && arbitrary_out == arbitrary_in)
    }
}

impl Transpose {
    /// The control value that the child processes report together: the number that the last of
    /// them printed (zero when there is none), or the first output that does not read as a
    /// `u32`.
    pub fn aggregate_process_results(results: &[String]) -> (r: Result<u32, SystemError>)
        ensures
            r is Ok <==> leading_parsed(output_views(results@), u32::MAX as nat) == results@.len(),
            r matches Ok(v) ==> v == (if results@.len() == 0 {
                0
            } else {
                output_numbers(output_views(results@), u32::MAX as nat).last()
            }),
            r matches Err(e) ==> (e matches SystemError::FailedParsingChildOutput(s) && s@
                == results@[leading_parsed(output_views(results@), u32::MAX as nat) as int]@),
    {
        match parse_outputs(results, u32::MAX as u64) {
            Ok(values) => {
                let mut control: u32 = 0;
                if values.len() > 0 {
                    let last = values[values.len() - 1];
                    assert(last <= u32::MAX) by {
                        assert(values@[values@.len() - 1] == last);
                    }
                    control = last as u32;
                }
                Ok(control)
            },
            Err(e) => Err(e),
        }
    }
}

impl Manageable for Transpose {
    /// Fills the input with the deterministic matrix of `generated_matrix`.
    fn setup(&mut self) -> (r: Result<(), Error>)
        ensures
            r is Ok,
            final(self).n() == old(self).n(),
            final(self).input() == generated_matrix(old(self).n() * old(self).n()),
    {
        proof {
            use_type_invariant(&*self);
        }
        let data = Self::generated_matrix(self.size * self.size);
        self.input_matrix = data;
        Ok(())
    }

    /// Frees the input.
    fn teardown(&mut self) -> (r: Result<(), Error>)
        ensures
            r is Ok,
            final(self).n() == old(self).n(),
            final(self).input() == Seq::<u64>::empty(),
    {
        proof {
            use_type_invariant(&*self);
        }
        self.input_matrix = Vec::new();
        Ok(())
    }
}

} // verus!
