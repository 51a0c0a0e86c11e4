use vstd::prelude::*;

verus! {

/// A concurrency bug that the simulation can be asked to show.
#[derive(Debug, Clone, Copy, PartialEq, Eq, Structural)]
pub enum BugMode {
    Off,
    RaceCondition,
    Deadlock,
}

impl BugMode {
    /// The label shown for the mode.
    pub fn label(&self) -> (r: &'static str)
        ensures
            r@ == (match *self {
                BugMode::Off => "Off"@,
                BugMode::RaceCondition => "Race Condition"@,
                BugMode::Deadlock => "Deadlock"@,
            }),
    {
        match self {
            BugMode::Off => "Off",
            BugMode::RaceCondition => "Race Condition",
            BugMode::Deadlock => "Deadlock",
        }
    }
}

impl Default for BugMode {
    fn default() -> (r: Self)
        ensures
            r == BugMode::Off,
    {
        BugMode::Off
    }
}

} // verus!
