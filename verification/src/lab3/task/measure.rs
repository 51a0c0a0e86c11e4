use crate::clock::{elapsed, now};
use crate::lab3::errors::Error;
use crate::lab3::task::benchmark::BenchmarkKind;
use crate::lab3::task::executable::Executable;
use crate::lab3::task::lifecycle::Manageable;
use std::time::Duration;
use vstd::prelude::*;

verus! {

/// A task whose runs can be timed.
pub trait Measurable: Manageable + Executable + Sized {
    /// Prepares the task, times its run in the way of `kind` and cleans up; the first step that
    /// fails is the error. The time is what the clock gives, so nothing is stated of it.
    fn measure(&mut self, kind: BenchmarkKind) -> (r: Result<Duration, Error>)
        default_ensures
            r is Ok ==> exists|
                s: &mut Self,
                u: Result<(), Error>,
                w: Result<(), Error>,
                t: &mut Self,
                v: Result<(), Error>,
            |
                u is Ok && w is Ok && v is Ok && *s == *old(self) && #[trigger] call_ensures(
                    Self::setup,
                    (s,),
                    u,
                ) && #[trigger] call_ensures(Self::run, (&*final(s), kind), w) && *t == *final(s)
                    && #[trigger] call_ensures(Self::teardown, (t,), v) && *final(self) == *final(t),
            r matches Err(e) ==> {
                ||| exists|s: &mut Self|
                    *s == *old(self) && #[trigger] call_ensures(
                        Self::setup,
                        (s,),
                        Err::<(), Error>(e),
                    ) && *final(self) == *final(s)
                ||| exists|s: &mut Self, u: Result<(), Error>|
                    u is Ok && *s == *old(self) && #[trigger] call_ensures(Self::setup, (s,), u)
                        && call_ensures(Self::run, (&*final(s), kind), Err::<(), Error>(e))
                        && *final(self) == *final(s)
                ||| exists|s: &mut Self, u: Result<(), Error>, w: Result<(), Error>, t: &mut Self|
                    u is Ok && w is Ok && *s == *old(self) && #[trigger] call_ensures(
                        Self::setup,
                        (s,),
                        u,
                    ) && #[trigger] call_ensures(Self::run, (&*final(s), kind), w) && *t == *final(s)
                        && #[trigger] call_ensures(
                        Self::teardown,
                        (t,),
                        Err::<(), Error>(e),
                    ) && *final(self) == *final(t)
            },
    {
        match self.setup() {
            Ok(()) => {},
            Err(e) => {
                return Err(e);
            },
        }
        let start = now();
        match self.run(kind) {
            Ok(()) => {},
            Err(e) => {
                return Err(e);
            },
        }
        let time = elapsed(&start);
        match self.teardown() {
            Ok(()) => {},
            Err(e) => {
                return Err(e);
            },
        }
        Ok(time)
    }
}

} // verus!
