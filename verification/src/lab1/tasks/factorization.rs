use super::child_outputs::{leading_parsed, output_numbers, output_views, parse_outputs};
use crate::lab1::errors::SystemError;
use super::number_theory::{divides, is_multiple_of, is_prime_spec, lemma_divides_transitive};
use vstd::prelude::*;

verus! {

/// Searches for a divisor of a number by trial division.
pub struct Factorization {
    target_number: u64,
}

/// The divisors that the search tries: two and the odd numbers.
pub open spec fn is_candidate(d: int) -> bool {
    d == 2 || d % 2 == 1
}

/// The least `d` with `lo <= d <= hi` that is a candidate and divides `n`.
pub open spec fn first_candidate_divisor(n: int, lo: int, hi: int) -> Option<int>
    decreases hi - lo + 1,
{
    if lo > hi {
        None
    } else if is_candidate(lo) && divides(lo, n) {
        Some(lo)
    } else {
        first_candidate_divisor(n, lo + 1, hi)
    }
}

/// The first `d` of `c, c + 2, c + 4, ...` with `d <= hi` that divides `n`.
spec fn stride_two_divisor(n: int, c: int, hi: int) -> Option<int>
    decreases hi - c + 2,
{
    if c > hi {
        None
    } else if divides(c, n) {
        Some(c)
    } else {
        stride_two_divisor(n, c + 2, hi)
    }
}

/// What `check_range(n, start, end)` returns. From `start >= 2` on it is the least divisor of `n`
/// in `[start, end]` that is two or odd; a start of zero or one is taken as it stands by the
/// first test, which reports two when `start` divides `n`.
pub open spec fn check_range_spec(n: int, start: int, end: int) -> Option<int> {
    if start >= 2 {
        first_candidate_divisor(n, start, end)
    } else if end >= 2 {
        if divides(start, n) {
            Some(2)
        } else {
            first_candidate_divisor(n, 3, end)
        }
    } else if start <= end && divides(start, n) {
        Some(start)
    } else {
        None
    }
}

proof fn lemma_stride_two_matches(n: int, c: int, hi: int)
    requires
        c >= 3,
        c % 2 == 1,
    ensures
        stride_two_divisor(n, c, hi) == first_candidate_divisor(n, c, hi),
    decreases hi - c + 2,
{
    if c <= hi {
        lemma_stride_two_matches(n, c + 2, hi);
        if c + 1 <= hi {
            assert(first_candidate_divisor(n, c + 1, hi) == first_candidate_divisor(n, c + 2, hi));
        }
    }
}

/// The option of integers that an option of `u64` stands for.
pub open spec fn int_option(r: Option<u64>) -> Option<int> {
    match r {
        Some(d) => Some(d as int),
        None => None,
    }
}

/// The first chunk bound of `chunk(limit, parts, index)`.
pub open spec fn chunk_size_spec(limit: int, parts: int) -> int {
    (limit + parts - 1) / parts
}

pub open spec fn chunk_start_spec(limit: int, parts: int, index: int) -> int {
    let c = chunk_size_spec(limit, parts);
    if index * c > 2 {
        index * c
    } else {
        2
    }
}

pub open spec fn chunk_end_spec(limit: int, parts: int, index: int) -> int {
    let c = chunk_size_spec(limit, parts);
    let s = chunk_start_spec(limit, parts, index);
    if limit < s + c - 1 {
        limit
    } else {
        s + c - 1
    }
}

/// What `first_candidate_divisor` finds is the least candidate divisor of its range.
pub proof fn lemma_first_candidate_divisor_props(n: int, lo: int, hi: int)
    ensures
        match first_candidate_divisor(n, lo, hi) {
            Some(d) => {
                &&& lo <= d <= hi
                &&& is_candidate(d)
                &&& divides(d, n)
                &&& forall|e: int| lo <= e < d ==> !(is_candidate(e) && #[trigger] divides(e, n))
            },
            None => forall|e: int| lo <= e <= hi ==> !(is_candidate(e) && #[trigger] divides(e, n)),
        },
    decreases hi - lo + 1,
{
    if lo <= hi {
        lemma_first_candidate_divisor_props(n, lo + 1, hi);
    }
}

proof fn lemma_least_divisor_from(n: int, lo: int, end: int)
    requires
        n >= 0,
        lo >= 2,
        lo > 2 ==> !divides(2, n),
        forall|e: int| 2 <= e < lo ==> !#[trigger] divides(e, n),
    ensures
        match first_candidate_divisor(n, lo, end) {
            Some(d) => {
                &&& 2 <= d <= end
                &&& divides(d, n)
                &&& is_prime_spec(d)
                &&& forall|e: int| 2 <= e < d ==> !#[trigger] divides(e, n)
            },
            None => forall|e: int| 2 <= e <= end ==> !#[trigger] divides(e, n),
        },
    decreases end - lo + 1,
{
    if lo <= end {
        if is_candidate(lo) && divides(lo, n) {
            assert forall|f: int| 2 <= f < lo implies !#[trigger] divides(f, lo) by {
                if divides(f, lo) {
                    lemma_divides_transitive(f, lo, n);
                }
            }
        } else {
            if !is_candidate(lo) && divides(lo, n) {
                assert(divides(2, lo));
                lemma_divides_transitive(2, lo, n);
            }
            lemma_least_divisor_from(n, lo + 1, end);
        }
    }
}

/// Searching from two, the divisor found is the least divisor of `n` greater than one, and so a
/// prime; when none is found, `n` has no divisor in `[2, end]`.
pub proof fn lemma_check_range_finds_least_divisor(n: int, end: int)
    requires
        n >= 0,
    ensures
        match check_range_spec(n, 2, end) {
            Some(d) => {
                &&& 2 <= d <= end
                &&& divides(d, n)
                &&& is_prime_spec(d)
                &&& forall|e: int| 2 <= e < d ==> !#[trigger] divides(e, n)
            },
            None => forall|e: int| 2 <= e <= end ==> !#[trigger] divides(e, n),
        },
{
    lemma_least_divisor_from(n, 2, end);
}

/// Every divisor in `[2, limit]` lies in one of the `parts` chunks, unless it is `limit` itself
/// while `parts` divides `limit` (the last chunk then ends at `limit - 1`).
pub proof fn lemma_chunks_cover(limit: int, parts: int, d: int)
    requires
        parts >= 1,
        2 <= d <= limit,
        d < parts * chunk_size_spec(limit, parts),
    ensures
        exists|i: int|
            0 <= i < parts && #[trigger] chunk_start_spec(limit, parts, i) <= d <= chunk_end_spec(
                limit,
                parts,
                i,
            ),
{
    let c = chunk_size_spec(limit, parts);
    assert(c >= 1) by (nonlinear_arith)
        requires
            c == (limit + parts - 1) / parts,
            limit >= 2,
            parts >= 1,
    ;
    let i = d / c;
    vstd::arithmetic::div_mod::lemma_fundamental_div_mod(d, c);
    vstd::arithmetic::div_mod::lemma_mod_bound(d, c);
    assert(i * c <= d < i * c + c) by (nonlinear_arith)
        requires
            d == c * (d / c) + d % c,
            0 <= d % c < c,
            i == d / c,
    ;
    vstd::arithmetic::div_mod::lemma_div_pos_is_pos(d, c);
    assert(0 <= i < parts) by (nonlinear_arith)
        requires
            i >= 0,
            i * c <= d,
            d < parts * c,
            c >= 1,
            d >= 0,
    ;
    assert(chunk_start_spec(limit, parts, i) <= d <= chunk_end_spec(limit, parts, i));
}

/// The smallest non-zero value of a sequence, if any.
pub open spec fn min_positive(s: Seq<u64>) -> Option<int>
    decreases s.len(),
{
    if s.len() == 0 {
        None
    } else {
        let x = s.last() as int;
        if x == 0 {
            min_positive(s.drop_last())
        } else {
            match min_positive(s.drop_last()) {
                None => Some(x),
                Some(m) => Some(
                    if m < x {
                        m
                    } else {
                        x
                    },
                ),
            }
        }
    }
}

proof fn lemma_min_positive_props(s: Seq<u64>)
    ensures
        match min_positive(s) {
            Some(m) => {
                &&& m > 0
                &&& exists|i: int| 0 <= i < s.len() && s[i] == m
                &&& forall|i: int| 0 <= i < s.len() && s[i] > 0 ==> m <= s[i]
            },
            None => forall|i: int| 0 <= i < s.len() ==> s[i] == 0,
        },
    decreases s.len(),
{
    if s.len() > 0 {
        let t = s.drop_last();
        lemma_min_positive_props(t);
        assert forall|i: int| 0 <= i < t.len() implies t[i] == s[i] by {}
        if let Some(m) = min_positive(t) {
            let j = choose|j: int| 0 <= j < t.len() && t[j] == m;
            assert(s[j] == m);
        }
    }
}

/// The encoding of a worker's answer in its output: the divisor, or zero for none.
pub open spec fn encode_found(r: Option<int>) -> int {
    match r {
        Some(d) => d,
        None => 0,
    }
}

/// What the `index`-th of `parts` workers answers for `n` (see `search_chunk`).
pub open spec fn chunk_answer(n: int, limit: int, parts: int, index: int) -> Option<int> {
    if chunk_start_spec(limit, parts, index) <= chunk_end_spec(limit, parts, index) {
        check_range_spec(
            n,
            chunk_start_spec(limit, parts, index),
            chunk_end_spec(limit, parts, index),
        )
    } else {
        None
    }
}

/// The smallest of the divisors that `parts` workers report for their chunks is the divisor
/// that the sequential search of `[2, limit]` finds. Left out: a sequential answer of `limit`
/// itself when `parts` divides `limit`, which no chunk contains.
pub proof fn lemma_parallel_search_agrees(n: int, limit: int, parts: int, results: Seq<u64>)
    requires
        n >= 0,
        parts >= 1,
        results.len() == parts,
        forall|i: int|
            0 <= i < parts ==> #[trigger] results[i] as int == encode_found(
                chunk_answer(n, limit, parts, i),
            ),
        check_range_spec(n, 2, limit) matches Some(d) ==> d < parts * chunk_size_spec(limit, parts),
    ensures
        min_positive(results) == check_range_spec(n, 2, limit),
{
    lemma_check_range_finds_least_divisor(n, limit);
    lemma_min_positive_props(results);
    assert forall|i: int| 0 <= i < parts && results[i] > 0 implies {
        &&& 2 <= #[trigger] results[i] <= limit
        &&& divides(results[i] as int, n)
    } by {
        let s = chunk_start_spec(limit, parts, i);
        let e = chunk_end_spec(limit, parts, i);
        lemma_first_candidate_divisor_props(n, s, e);
    }
    match check_range_spec(n, 2, limit) {
        Some(d) => {
            lemma_chunks_cover(limit, parts, d);
            let i = choose|i: int|
                0 <= i < parts && #[trigger] chunk_start_spec(limit, parts, i) <= d <= chunk_end_spec(
                    limit,
                    parts,
                    i,
                );
            let s = chunk_start_spec(limit, parts, i);
            let e = chunk_end_spec(limit, parts, i);
            lemma_first_candidate_divisor_props(n, s, e);
            lemma_first_candidate_divisor_props(n, 2, limit);
            assert(s >= 2);
            match first_candidate_divisor(n, s, e) {
                Some(x) => {
                    assert(x <= d);
                    assert(!(2 <= x < d));
                    assert(results[i] == d);
                },
                None => {
                    assert(!(is_candidate(d) && divides(d, n)));
                },
            }
        },
        None => {},
    }
}

/// `u64::div_ceil`: the quotient rounded up.
pub fn div_ceil(a: u64, b: u64) -> (r: u64)
    requires
        b >= 1,
    ensures
        r == (a + b - 1) / (b as int),
{
    let q = a / b;
    let rem = a % b;
    proof {
        vstd::arithmetic::div_mod::lemma_fundamental_div_mod(a as int, b as int);
        vstd::arithmetic::div_mod::lemma_mod_bound(a as int, b as int);
        if rem == 0 {
            assert(a + b - 1 == q * b + (b - 1)) by (nonlinear_arith)
                requires
                    a == b * q + rem,
                    rem == 0,
            ;
            vstd::arithmetic::div_mod::lemma_fundamental_div_mod_converse(
                a + b - 1,
                b as int,
                q as int,
                b - 1,
            );
        } else {
            assert(a + b - 1 == (q + 1) * b + (rem - 1)) by (nonlinear_arith)
                requires
                    a == b * q + rem,
            ;
            vstd::arithmetic::div_mod::lemma_fundamental_div_mod_converse(
                a + b - 1,
                b as int,
                q + 1,
                rem - 1,
            );
        }
    }
    if rem == 0 {
        q
    } else {
        assert(q < u64::MAX) by (nonlinear_arith)
            requires
                a == b * q + rem,
                rem >= 1,
                b >= 1,
                a <= u64::MAX,
        ;
        q + 1
    }
}

impl Factorization {
    /// A search for a divisor of `target_number`.
    pub fn new(target_number: u64) -> (r: Self)
        ensures
            r.target() == target_number,
    {
        Self { target_number }
    }

    /// The number whose divisor is searched for.
    pub closed spec fn target(&self) -> u64 {
        self.target_number
    }

    /// The number whose divisor is searched for.
    pub fn target_number(&self) -> (r: u64)
        ensures
            r == self.target(),
    {
        self.target_number
    }

    /// The least divisor of `n` in `[start, end]` that is two or odd (see `check_range_spec`).
    pub fn check_range(n: u64, start: u64, end: u64) -> (r: Option<u64>)
        requires
            end < u64::MAX,
        ensures
            int_option(r) == check_range_spec(n as int, start as int, end as int),
    {
        let mut current = if is_multiple_of(start, 2) && start > 2 {
            start + 1
        } else {
            start
        };
        if start <= 2 && 2 <= end {
            if is_multiple_of(n, current) {
                return Some(2);
            }
            current = 3;
        }
        proof {
            if start > 2 {
                if start % 2 == 0 {
                    assert(first_candidate_divisor(n as int, start as int, end as int)
                        == first_candidate_divisor(n as int, start + 1, end as int));
                }
                lemma_stride_two_matches(n as int, current as int, end as int);
            } else if end >= 2 {
                lemma_stride_two_matches(n as int, 3, end as int);
            } else if start <= end {
                assert(stride_two_divisor(n as int, start + 2, end as int) == None::<int>);
            }
        }
        while current <= end
            invariant
                end < u64::MAX,
                current % 2 == 1 || current <= 1 || current > end,
                current <= 1 ==> end < 2,
                check_range_spec(n as int, start as int, end as int) == stride_two_divisor(
                    n as int,
                    current as int,
                    end as int,
                ),
            decreases end - current + 2,
        {
            if is_multiple_of(n, current) {
                return Some(current);
            }
            current = current + 2;
        }
        None
    }

    /// The bounds `(start, end)` of the `index`-th of `parts` chunks of the divisors
    /// `2..=limit`: chunks of `ceil(limit / parts)` numbers, the first one starting at two.
    pub fn chunk(limit: u64, parts: u64, index: u64) -> (r: (u64, u64))
        requires
            parts >= 1,
            chunk_start_spec(limit as int, parts as int, index as int) + chunk_size_spec(
                limit as int,
                parts as int,
            ) <= u64::MAX,
        ensures
            r.0 == chunk_start_spec(limit as int, parts as int, index as int),
            r.1 == chunk_end_spec(limit as int, parts as int, index as int),
    {
        let chunk_size = div_ceil(limit, parts);
        assert(index * chunk_size <= u64::MAX) by {
            if index * chunk_size > 2 {
            }
        }
        let start = if index * chunk_size > 2 {
            index * chunk_size
        } else {
            2
        };
        let end = if limit < start + chunk_size - 1 {
            limit
        } else {
            start + chunk_size - 1
        };
        (start, end)
    }

    /// The smallest non-zero value among the workers' answers, zero standing for none.
    pub fn smallest_found(results: &Vec<u64>) -> (r: Option<u64>)
        ensures
            int_option(r) == min_positive(results@),
    {
        let mut best: Option<u64> = None;
        let mut i: usize = 0;
        while i < results.len()
            invariant
                i <= results.len(),
                int_option(best) == min_positive(results@.take(i as int)),
            decreases results.len() - i,
        {
            assert(results@.take(i + 1).drop_last() =~= results@.take(i as int));
            let x = results[i];
            if x > 0 {
                best = match best {
                    None => Some(x),
                    Some(m) => Some(
                        if m < x {
                            m
                        } else {
                            x
                        },
                    ),
                };
            }
            i = i + 1;
        }
        assert(results@.take(results.len() as int) =~= results@);
        best
    }

    /// What one of `parts` workers finds for the target: the divisor that `check_range` finds in
    /// the worker's chunk of `2..=limit`, or nothing when the chunk is empty.
    pub fn search_chunk(&self, limit: u64, parts: u64, index: u64) -> (r: Option<u64>)
        requires
            parts >= 1,
            chunk_start_spec(limit as int, parts as int, index as int) + chunk_size_spec(
                limit as int,
                parts as int,
            ) <= u64::MAX,
        ensures
            int_option(r) == (if chunk_start_spec(limit as int, parts as int, index as int)
                <= chunk_end_spec(limit as int, parts as int, index as int) {
                check_range_spec(
                    self.target() as int,
                    chunk_start_spec(limit as int, parts as int, index as int),
                    chunk_end_spec(limit as int, parts as int, index as int),
                )
            } else {
                None
            }),
    {
        let (start, end) = Self::chunk(limit, parts, index);
        if start <= end {
            Self::check_range(self.target_number, start, end)
        } else {
            None
        }
    }
}

impl Default for Factorization {
    /// The product of the primes 4294967291 and 4294967279, whose search runs up to its square
    /// root.
    fn default() -> (r: Self)
        ensures
            r.target() == 18_446_743_979_220_271_189,
    {
        Self { target_number: 18_446_743_979_220_271_189 }
    }
}

impl Factorization {
    /// The divisor that the child processes report together: the smallest non-zero number that
    /// they printed, or the first output that does not read as a number.
    pub fn aggregate_process_results(results: &[String]) -> (r: Result<Option<u64>, SystemError>)
        ensures
            r is Ok <==> leading_parsed(output_views(results@), u64::MAX as nat) == results@.len(),
            r matches Ok(found) ==> int_option(found) == min_positive(
                output_numbers(output_views(results@), u64::MAX as nat),
            ),
            r matches Err(e) ==> (e matches SystemError::FailedParsingChildOutput(s) && s@
                == results@[leading_parsed(output_views(results@), u64::MAX as nat) as int]@),
    {
        match parse_outputs(results, u64::MAX) {
            Ok(values) => Ok(Self::smallest_found(&values)),
            Err(e) => Err(e),
        }
    }
}

} // verus!
