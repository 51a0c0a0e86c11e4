use super::snapshot::CrystalSnapshot;
use vstd::prelude::*;

verus! {

/// What the simulation engine tells the interface.
#[derive(Debug, Clone)]
pub enum EngineEvent {
    AlgorithmPassed(CrystalSnapshot),
    Snapshot(CrystalSnapshot),
    SimulationFinished,
}

} // verus!
