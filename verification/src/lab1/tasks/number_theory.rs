use vstd::arithmetic::div_mod::*;
use vstd::arithmetic::mul::*;
use vstd::prelude::*;

verus! {

/// `d` divides `n` in the sense of `u64::is_multiple_of`: zero divides only zero.
pub open spec fn divides(d: int, n: int) -> bool {
    if d == 0 {
        n == 0
    } else {
        n % d == 0
    }
}

/// `n` is a prime number: at least two and without a divisor strictly between one and itself.
pub open spec fn is_prime_spec(n: int) -> bool {
    &&& n >= 2
    &&& forall|d: int| 2 <= d < n ==> !#[trigger] divides(d, n)
}

/// `u64::is_multiple_of`: whether `n` is a multiple of `d` (only zero is a multiple of zero).
pub fn is_multiple_of(n: u64, d: u64) -> (r: bool)
    ensures
        r == divides(d as int, n as int),
{
    if d == 0 {
        n == 0
    } else {
        n % d == 0
    }
}

/// A divisor of a divisor is a divisor.
pub proof fn lemma_divides_transitive(k: int, d: int, n: int)
    requires
        k > 0,
        d > 0,
        n >= 0,
        divides(k, d),
        divides(d, n),
    ensures
        divides(k, n),
{
    lemma_fundamental_div_mod(n, d);
    lemma_fundamental_div_mod(d, k);
    let q = n / d;
    let m = d / k;
    assert(n == (k * m) * q);
    lemma_mul_is_associative(k, m, q);
    lemma_mul_is_commutative(k, m * q);
    lemma_mod_multiples_basic(m * q, k);
}

/// A number `n >= 2` with no divisor in `[2, i)` where `i * i > n` is prime.
pub proof fn lemma_prime_by_trial_division(n: int, i: int)
    requires
        n >= 2,
        i >= 2,
        i * i > n,
        forall|d: int| 2 <= d < i ==> !#[trigger] divides(d, n),
    ensures
        is_prime_spec(n),
{
    assert forall|d: int| 2 <= d < n implies !#[trigger] divides(d, n) by {
        if divides(d, n) && d >= i {
            lemma_fundamental_div_mod(n, d);
            let e = n / d;
            assert(n == d * e);
            assert(e >= 1) by (nonlinear_arith)
                requires
                    n == d * e,
                    n >= 2,
                    d >= 2,
            ;
            assert(e < i) by (nonlinear_arith)
                requires
                    n == d * e,
                    d >= i,
                    i * i > n,
                    e >= 1,
                    i >= 2,
            ;
            assert(e >= 2) by (nonlinear_arith)
                requires
                    n == d * e,
                    d < n,
                    e >= 1,
            ;
            lemma_mul_is_commutative(d, e);
            lemma_mod_multiples_basic(d, e);
            assert(divides(e, n));
        }
    }
}

} // verus!
