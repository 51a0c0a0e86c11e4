use vstd::prelude::*;

verus! {

/// `rayon::join`: runs both closures, possibly in parallel, and returns both results. The
/// contract claims what rayon documents: each closure is called once and its result returned.
#[verifier::external_body]
pub fn join<A, B, RA, RB>(a: A, b: B) -> (r: (RA, RB)) where
    A: FnOnce() -> RA + Send,
    B: FnOnce() -> RB + Send,
    RA: Send,
    RB: Send,

    requires
        a.requires(()),
        b.requires(()),
    ensures
        a.ensures((), r.0),
        b.ensures((), r.1),
{
    rayon::join(a, b)
}

} // verus!
