use super::number_theory::{divides, is_multiple_of, is_prime_spec, lemma_divides_transitive, lemma_prime_by_trial_division};
use vstd::arithmetic::div_mod::{lemma_fundamental_div_mod, lemma_mod_multiples_vanish, lemma_small_mod};
use vstd::prelude::*;

verus! {

/// The lower bound of an inclusive range.
#[verifier::external_body]
fn range_start(range: &std::ops::RangeInclusive<u64>) -> (r: u64)
    ensures
        r == range@.start,
{
    *range.start()
}

/// The upper bound of an inclusive range.
#[verifier::external_body]
fn range_end(range: &std::ops::RangeInclusive<u64>) -> (r: u64)
    ensures
        r == range@.end,
{
    *range.end()
}

/// `RangeInclusive::is_empty`: whether the range has no numbers left, either because it was
/// used up by iteration (`exhausted`) or because its start is past its end. That is what the
/// documentation and the source (`self.exhausted || !(self.start <= self.end)`) say.
#[verifier::external_body]
fn range_is_empty(range: &std::ops::RangeInclusive<u64>) -> (r: bool)
    ensures
        r == (range@.exhausted || range@.start > range@.end),
{
    range.is_empty()
}

/// One when `n` is prime, zero otherwise.
pub open spec fn prime_indicator(n: int) -> nat {
    if is_prime_spec(n) {
        1
    } else {
        0
    }
}

/// The number of primes `p` with `lo <= p <= hi`.
pub open spec fn prime_count(lo: int, hi: int) -> nat
    decreases hi - lo + 1,
{
    if hi < lo {
        0
    } else {
        prime_count(lo, hi - 1) + prime_indicator(hi)
    }
}

/// `n` lies on the lane `first, first + step, first + 2 * step, ...`.
pub open spec fn on_lane(n: int, first: int, step: int) -> bool {
    n >= first && (n - first) % step == 0
}

/// The number of primes `p` with `lo <= p <= hi` that lie on the lane that starts at `first`
/// and advances by `step`.
pub open spec fn lane_prime_count(lo: int, hi: int, first: int, step: int) -> nat
    decreases hi - lo + 1,
{
    if hi < lo {
        0
    } else {
        lane_prime_count(lo, hi - 1, first, step) + (if on_lane(hi, first, step) {
            prime_indicator(hi)
        } else {
            0
        })
    }
}

/// The primes of `[lo, hi]` counted lane by lane over the lanes that start at
/// `lo, lo + 1, ..., lo + k - 1`.
pub open spec fn lanes_total(lo: int, hi: int, step: int, k: int) -> nat
    decreases k,
{
    if k <= 0 {
        0
    } else {
        lanes_total(lo, hi, step, k - 1) + lane_prime_count(lo, hi, lo + k - 1, step)
    }
}

proof fn lemma_lane_empty_below(lo: int, hi: int, first: int, step: int)
    requires
        hi < first,
    ensures
        lane_prime_count(lo, hi, first, step) == 0,
    decreases hi - lo + 1,
{
    if hi >= lo {
        lemma_lane_empty_below(lo, hi - 1, first, step);
    }
}

/// Between two consecutive points of a lane the lane count does not change.
proof fn lemma_lane_gap(lo: int, from: int, hi: int, first: int, step: int)
    requires
        step >= 1,
        on_lane(from, first, step),
        from <= hi < from + step,
    ensures
        lane_prime_count(lo, hi, first, step) == lane_prime_count(lo, from, first, step),
    decreases hi - from,
{
    if hi > from {
        lemma_lane_gap(lo, from, hi - 1, first, step);
        if hi >= lo && on_lane(hi, first, step) {
            lemma_fundamental_div_mod(hi - first, step);
            lemma_fundamental_div_mod(from - first, step);
            assert(false) by (nonlinear_arith)
                requires
                    hi - first == step * ((hi - first) / step),
                    from - first == step * ((from - first) / step),
                    from < hi < from + step,
                    step >= 1,
            ;
        }
    }
}

/// For `0 <= o < step` and `x >= 0`: `x` lies on the lane of offset `o` exactly when `x % step == o`.
proof fn lemma_lane_offset(x: int, o: int, step: int)
    requires
        x >= 0,
        0 <= o < step,
    ensures
        (x >= o && (x - o) % step == 0) <==> x % step == o,
{
    lemma_fundamental_div_mod(x, step);
    if x >= o && (x - o) % step == 0 {
        lemma_fundamental_div_mod(x - o, step);
        let q = (x - o) / step;
        assert(x == q * step + o) by (nonlinear_arith)
            requires
                x - o == step * ((x - o) / step),
                q == (x - o) / step,
        ;
        lemma_mod_multiples_vanish(q, o, step);
        lemma_small_mod(o as nat, step as nat);
    }
    if x % step == o {
        let q = x / step;
        assert(x - o == q * step) by (nonlinear_arith)
            requires
                x == step * (x / step) + x % step,
                q == x / step,
                x % step == o,
        ;
        assert(q >= 0) by (nonlinear_arith)
            requires
                x >= 0,
                step >= 1,
                q == x / step,
        ;
        vstd::arithmetic::div_mod::lemma_mod_multiples_basic(q, step);
    }
}

proof fn lemma_lanes_total_step(lo: int, hi: int, step: int, k: int)
    requires
        step >= 1,
        hi >= lo,
        0 <= k <= step,
    ensures
        lanes_total(lo, hi, step, k) == lanes_total(lo, hi - 1, step, k) + (if (hi - lo) % step
            < k {
            prime_indicator(hi)
        } else {
            0
        }),
    decreases k,
{
    if k > 0 {
        lemma_lanes_total_step(lo, hi, step, k - 1);
        lemma_lane_offset(hi - lo, k - 1, step);
        vstd::arithmetic::div_mod::lemma_mod_bound(hi - lo, step);
    }
}

/// Counting the primes of `[lo, hi]` lane by lane over the `step` lanes that start at
/// `lo, ..., lo + step - 1` counts every prime exactly once.
pub proof fn lemma_lanes_partition_primes(lo: int, hi: int, step: int)
    requires
        step >= 1,
    ensures
        lanes_total(lo, hi, step, step) == prime_count(lo, hi),
    decreases hi - lo + 1,
{
    if hi < lo {
        lemma_lanes_total_empty(lo, hi, step, step);
    } else {
        lemma_lanes_partition_primes(lo, hi - 1, step);
        lemma_lanes_total_step(lo, hi, step, step);
        vstd::arithmetic::div_mod::lemma_mod_bound(hi - lo, step);
    }
}

proof fn lemma_lanes_total_empty(lo: int, hi: int, step: int, k: int)
    requires
        hi < lo,
    ensures
        lanes_total(lo, hi, step, k) == 0,
    decreases k,
{
    if k > 0 {
        lemma_lanes_total_empty(lo, hi, step, k - 1);
    }
}

/// Counts the prime numbers of an inclusive range.
pub struct Primes {
    range: std::ops::RangeInclusive<u64>,
}

impl Primes {
    /// A task over the numbers of `range`.
    pub fn with_range(range: std::ops::RangeInclusive<u64>) -> (r: Self)
        ensures
            r.lo() == range@.start,
            r.hi() == range@.end,
    {
        Self { range }
    }

    /// The lower bound of the range.
    pub closed spec fn lo(&self) -> int {
        self.range@.start as int
    }

    /// The upper bound of the range.
    pub closed spec fn hi(&self) -> int {
        self.range@.end as int
    }

    /// Whether the range was already used up by iteration, so that it yields no number.
    pub closed spec fn exhausted(&self) -> bool {
        self.range@.exhausted
    }

    /// The bounds of the range, both included.
    pub fn bounds(&self) -> (r: (u64, u64))
        ensures
            r.0 == self.lo(),
            r.1 == self.hi(),
    {
        (range_start(&self.range), range_end(&self.range))
    }

    /// The number of primes that iterating the range yields, counted number by number: none for
    /// a range already used up.
    pub fn count_primes(&self) -> (r: u64)
        ensures
            r == (if self.exhausted() {
                0
            } else {
                prime_count(self.lo(), self.hi())
            }),
    {
        if range_is_empty(&self.range) {
            return 0;
        }
        let start = range_start(&self.range);
        let end = range_end(&self.range);
        let mut count: u64 = 0;
        let mut n: u64 = start;
        loop
            invariant
                !self.exhausted(),
                start == self.lo(),
                end == self.hi(),
                start <= n <= end,
                count == prime_count(start as int, n - 1),
                count <= n - start,
                count == 0 || count < n,
            decreases end - n,
        {
            if Self::is_prime(n) {
                count = count + 1;
            }
            assert(count == prime_count(start as int, n as int));
            if n == end {
                return count;
            }
            n = n + 1;
        }
    }

    /// The number of primes of the range on the lane `start + offset, start + offset + step, ...`:
    /// the share of one of `step` interleaved workers.
    pub fn count_lane(&self, offset: u64, step: u64) -> (r: u64)
        requires
            step >= 1,
            self.lo() + offset <= u64::MAX,
            self.hi() + step <= u64::MAX,
        ensures
            r == lane_prime_count(self.lo(), self.hi(), self.lo() + offset, step as int),
    {
        let start = range_start(&self.range);
        let end = range_end(&self.range);
        let first = start + offset;
        let mut count: u64 = 0;
        let mut current: u64 = first;
        proof {
            lemma_lane_empty_below(start as int, first - 1, first as int, step as int);
            vstd::arithmetic::div_mod::lemma_small_mod(0, step as nat);
        }
        while current <= end
            invariant
                start <= first <= current,
                end + step <= u64::MAX,
                step >= 1,
                on_lane(current as int, first as int, step as int),
                current <= end + step || current == first,
                current == first || current - step <= end,
                current > first ==> current >= first + step && on_lane(
                    current - step,
                    first as int,
                    step as int,
                ),
                count == lane_prime_count(start as int, current - 1, first as int, step as int),
                count == 0 || count < current,
            decreases end + step - current,
        {
            let ghost prev = current;
            if current > first {
                proof {
                    lemma_lane_gap(
                        start as int,
                        current - step,
                        current - 1,
                        first as int,
                        step as int,
                    );
                }
            }
            if Self::is_prime(current) {
                count = count + 1;
            }
            assert(count == lane_prime_count(start as int, current as int, first as int, step as int));
            current = current + step;
            proof {
                assert((current - first) % (step as int) == 0) by {
                    vstd::arithmetic::div_mod::lemma_mod_add_multiples_vanish(prev - first, step as int);
                }
                lemma_lane_gap(start as int, prev as int, current - 1, first as int, step as int);
            }
        }
        proof {
            if current == first {
                lemma_lane_empty_below(start as int, end as int, first as int, step as int);
            } else {
                lemma_lane_gap(start as int, current - step, end as int, first as int, step as int);
                lemma_lane_gap(start as int, current - step, current - 1, first as int, step as int);
            }
        }
        count
    }
    /// Whether `n` is prime, by trial division with the divisors `6k - 1` and `6k + 1`.
    pub fn is_prime(n: u64) -> (r: bool)
        ensures
            r == is_prime_spec(n as int),
    {
        if n <= 1 {
            return false;
        }
        if n <= 3 {
            assert forall|d: int| 2 <= d < n implies !#[trigger] divides(d, n as int) by {}
            return true;
        }
        if is_multiple_of(n, 2) || is_multiple_of(n, 3) {
            return false;
        }
        proof {
            assert forall|d: int| 2 <= d < 5 implies !#[trigger] divides(d, n as int) by {
                if d == 4 && divides(4, n as int) {
                    lemma_divides_transitive(2, 4, n as int);
                }
            }
        }
        let mut i: u64 = 5;
        // `i <= n / i` is `i * i <= n` without the overflow.
        while i <= n / i
            invariant
                n >= 5,
                !divides(2, n as int),
                !divides(3, n as int),
                5 <= i,
                i % 6 == 5,
                i <= n,
                forall|d: int| 2 <= d < i ==> !#[trigger] divides(d, n as int),
            decreases n - i,
        {
            proof {
                assert(i * i <= n) by (nonlinear_arith)
                    requires
                        i <= n / i,
                        i > 0,
                ;
                assert(i + 6 <= n) by (nonlinear_arith)
                    requires
                        i * i <= n,
                        i >= 5,
                ;
            }
            if is_multiple_of(n, i) || is_multiple_of(n, i + 2) {
                assert(divides(i as int, n as int) || divides(i + 2, n as int));
                return false;
            }
            proof {
                assert forall|d: int| 2 <= d < i + 6 implies !#[trigger] divides(d, n as int) by {
                    if d >= i && d != i && d != i + 2 && divides(d, n as int) {
                        if d == i + 4 {
                            assert(divides(3, d));
                            lemma_divides_transitive(3, d, n as int);
                        } else {
                            assert(divides(2, d));
                            lemma_divides_transitive(2, d, n as int);
                        }
                    }
                }
            }
            i = i + 6;
        }
        proof {
            assert(i * i > n) by (nonlinear_arith)
                requires
                    i > n / i,
                    i > 0,
            ;
            lemma_prime_by_trial_division(n as int, i as int);
        }
        true
    }
}

} // verus!
