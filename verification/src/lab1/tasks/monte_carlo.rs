use vstd::prelude::*;

verus! {

/// Estimates pi from random points of the square `[-1, 1] x [-1, 1]`: four times the share that
/// falls in the unit circle.
pub struct MonteCarlo {
    iterations: usize,
}

impl MonteCarlo {
    /// An estimate from `iterations` points.
    pub fn with_iterations(iterations: usize) -> (r: Self)
        ensures
            r.total() == iterations,
    {
        Self { iterations }
    }

    /// The number of points.
    pub closed spec fn total(&self) -> usize {
        self.iterations
    }

    /// The number of points.
    pub fn iterations(&self) -> (r: usize)
        ensures
            r == self.total(),
    {
        self.iterations
    }

    /// The points that each of `units` threads, workers or processes draws: an equal share,
    /// the remainder dropped.
    pub fn iterations_per_unit(&self, units: usize) -> (r: usize)
        requires
            units > 0,
        ensures
            r == self.total() / units,
    {
        self.iterations / units
    }

    /// The points drawn in all when `units` units draw an equal share each: what the estimate
    /// divides the hits by.
    pub fn real_iterations(&self, units: usize) -> (r: usize)
        requires
            units > 0,
        ensures
            r == (self.total() / units) * units,
            r <= self.total(),
            self.total() - r < units,
    {
        let per_unit = self.iterations / units;
        assert(per_unit * units <= self.iterations) by (nonlinear_arith)
            requires
                per_unit == self.iterations / units,
                units > 0,
        ;
        assert(self.iterations - per_unit * units < units) by (nonlinear_arith)
            requires
                per_unit == self.iterations / units,
                units > 0,
        ;
        per_unit * units
    }
}

} // verus!
