use crate::lab1::errors::Error;
use vstd::prelude::*;

verus! {

/// What a task prepares before it is run and cleans up after.
pub trait Manageable: Sized {
    /// Prepares the data, files or environment of the task.
    /// Unless the task says otherwise, there is nothing to prepare.
    fn setup(&mut self) -> (r: Result<(), Error>)
        default_ensures
            r is Ok,
            *final(self) == *old(self),
    {
        Ok(())
    }

    /// Removes what `setup` prepared.
    /// Unless the task says otherwise, there is nothing to remove.
    fn teardown(&mut self) -> (r: Result<(), Error>)
        default_ensures
            r is Ok,
            *final(self) == *old(self),
    {
        Ok(())
    }
}

} // verus!
