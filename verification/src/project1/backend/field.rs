use vstd::prelude::*;

verus! {

/// The dimensions of the simulation field.
#[derive(Debug)]
pub struct Field {
    pub width: usize,
    pub height: usize,
}

impl Default for Field {
    fn default() -> (r: Self)
        ensures
            r.width == 10,
            r.height == 10,
    {
        Self { width: 10, height: 10 }
    }
}

} // verus!
