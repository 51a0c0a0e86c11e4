use mttp::project1::backend::bugs::BugMode;
use mttp::project1::backend::commands::EngineEvent;
use mttp::project1::backend::crystal::{Atom, Crystal, CrystalSize, Movement};
use mttp::project1::backend::engine::{EngineAction, EngineCommand, EngineState};
use mttp::project1::backend::field::Field;
use mttp::project1::backend::simulation::{crystal_size_setting, seed_setting, total_seconds, SimulationError};
use mttp::project1::backend::snapshot::{CrystalSnapshot, OccupiedCell};
use mttp::project1::graphics::{grid_positions, ViewportBounds, ViewportConfig};
use mttp::project1::ui::states::player::{time_text, SnapshotStorage, ViewMode};
use mttp::project1::ui::states::settings::probability_shares;

fn size(width: usize, height: usize) -> CrystalSize {
    CrystalSize { width, height }
}

#[test]
fn new_crystal_puts_every_atom_in_the_middle() {
    let crystal = Crystal::new(size(5, 4), 7);
    assert_eq!(crystal.atoms().len(), 7);
    assert!(crystal.atoms().iter().all(|a| *a == Atom { x: 2, y: 2 }));
    let field = crystal.field();
    assert_eq!(field.len(), 20);
    assert_eq!(field[2 * 5 + 2], 7);
    assert_eq!(field.iter().sum::<usize>(), 7);
    assert_eq!(crystal.size(), size(5, 4));
}

#[test]
fn atoms_move_and_bounce_off_the_border() {
    let mut crystal = Crystal::new(size(3, 3), 2);
    crystal.move_atom(0, Movement::Right);
    assert_eq!(crystal.atoms()[0], Atom { x: 2, y: 1 });
    // A step past the border goes the other way.
    crystal.move_atom(0, Movement::Right);
    assert_eq!(crystal.atoms()[0], Atom { x: 1, y: 1 });
    crystal.move_atom(1, Movement::Up);
    assert_eq!(crystal.atoms()[1], Atom { x: 1, y: 2 });
    crystal.move_atom(1, Movement::Up);
    assert_eq!(crystal.atoms()[1], Atom { x: 1, y: 1 });
    crystal.move_atom(1, Movement::Down);
    assert_eq!(crystal.atoms()[1], Atom { x: 1, y: 0 });
    crystal.move_atom(1, Movement::Down);
    assert_eq!(crystal.atoms()[1], Atom { x: 1, y: 1 });
    crystal.move_atom(1, Movement::Left);
    assert_eq!(crystal.atoms()[1], Atom { x: 0, y: 1 });
    crystal.move_atom(1, Movement::Left);
    assert_eq!(crystal.atoms()[1], Atom { x: 1, y: 1 });
    crystal.move_atom(1, Movement::Stay);
    assert_eq!(crystal.atoms()[1], Atom { x: 1, y: 1 });
}

#[test]
fn field_keeps_counting_every_atom() {
    let mut crystal = Crystal::new(size(4, 5), 6);
    let moves = [Movement::Up, Movement::Left, Movement::Right, Movement::Down, Movement::Stay];
    for step in 0..200usize {
        let index = step % 6;
        crystal.move_atom(index, moves[(step * 7 + index) % 5]);
        let field = crystal.field();
        assert_eq!(field.iter().sum::<usize>(), 6);
        for (cell, count) in field.iter().enumerate() {
            let here = crystal.atoms().iter().filter(|a| a.y * 4 + a.x == cell).count();
            assert_eq!(*count, here);
        }
    }
}

#[test]
fn snapshot_copies_the_field() {
    let mut crystal = Crystal::new(size(3, 2), 4);
    crystal.move_atom(0, Movement::Left);
    let snapshot = CrystalSnapshot::new(&crystal);
    assert_eq!(snapshot.total_atoms, 4);
    assert_eq!(snapshot.size, size(3, 2));
    assert_eq!(snapshot.field, crystal.field().clone());
    let cells = snapshot.occupied_cells();
    assert_eq!(
        cells,
        vec![
            OccupiedCell { id: 3, x: 0, y: 1, count: 1 },
            OccupiedCell { id: 4, x: 1, y: 1, count: 3 },
        ]
    );
    assert_eq!(CrystalSnapshot::tooltip(&cells[1]), "Dot [1; 1].\nAtoms: 3.");
}

#[test]
fn no_atoms_no_dots() {
    let snapshot = CrystalSnapshot::new(&Crystal::new(size(2, 2), 0));
    assert_eq!(snapshot.total_atoms, 0);
    assert!(snapshot.occupied_cells().is_empty());
}

fn snapshot_of(atoms: usize) -> CrystalSnapshot {
    CrystalSnapshot::new(&Crystal::new(size(2, 2), atoms))
}

#[test]
fn storage_cursor_moves_within_the_snapshots() {
    let mut storage = SnapshotStorage::default();
    assert!(storage.is_empty());
    assert_eq!(*storage.current_index(), None);
    storage.left();
    storage.right();
    assert_eq!(*storage.current_index(), None);
    storage.add(snapshot_of(1));
    assert_eq!(*storage.current_index(), Some(0));
    storage.add(snapshot_of(2));
    storage.add(snapshot_of(3));
    assert_eq!(storage.len(), 3);
    assert_eq!(*storage.current_index(), Some(0));
    storage.left();
    assert_eq!(*storage.current_index(), Some(0));
    storage.right();
    storage.right();
    storage.right();
    assert_eq!(*storage.current_index(), Some(2));
    assert_eq!(storage.get(2).unwrap().total_atoms, 3);
    assert!(storage.get(3).is_none());
    storage.left();
    assert_eq!(*storage.current_index(), Some(1));
    storage.clear();
    assert!(storage.is_empty());
    assert_eq!(*storage.current_index(), None);
    assert_eq!(SnapshotStorage::new().len(), 0);
}

#[test]
fn labels_and_defaults() {
    assert_eq!(BugMode::default(), BugMode::Off);
    assert_eq!(BugMode::Off.label(), "Off");
    assert_eq!(BugMode::RaceCondition.label(), "Race Condition");
    assert_eq!(BugMode::Deadlock.label(), "Deadlock");
    assert_eq!(ViewMode::default(), ViewMode::RealTime);
    assert_eq!(ViewMode::RealTime.label(), "Real Time");
    assert_eq!(ViewMode::Snapshot.label(), "Snapshot");
    let field = Field::default();
    assert_eq!((field.width, field.height), (10, 10));
    let config = ViewportConfig::default();
    assert!(config.is_pannable && config.is_zoomable);
    let bounds: ViewportBounds<i32> = ViewportBounds::default();
    assert_eq!(bounds.maximum_x, 0);
    assert!(matches!(EngineEvent::SimulationFinished, EngineEvent::SimulationFinished));
}

#[test]
fn engine_runs_a_simulation_until_its_time() {
    let mut engine = EngineState::new();
    assert_eq!(engine.next_action(0, 10), EngineAction::Idle);
    engine.on_command(EngineCommand::Start);
    assert_eq!(engine.next_action(3, 10), EngineAction::Tick);
    assert!(engine.sample_due(0, 1_000));
    engine.record_sample();
    assert!(!engine.sample_due(999, 1_000));
    assert!(engine.sample_due(1_000, 1_000));
    assert_eq!(engine.next_action(10, 10), EngineAction::Finish);
    engine.finish();
    assert_eq!(engine.next_action(11, 10), EngineAction::Idle);
}

#[test]
fn stopped_engine_idles_and_samples_anew() {
    let mut engine = EngineState::new();
    engine.on_command(EngineCommand::Start);
    engine.record_sample();
    engine.on_command(EngineCommand::Stop);
    assert_eq!(engine.next_action(0, 10), EngineAction::Idle);
    assert!(engine.sample_due(0, 1_000));
    engine.on_command(EngineCommand::Start);
    assert_eq!(engine.next_action(0, 0), EngineAction::Finish);
    assert!(!EngineState::realtime_due(15));
    assert!(EngineState::realtime_due(16));
}

#[test]
fn seeds_are_read_in_full() {
    assert!(matches!(seed_setting(false, "junk"), Ok(None)));
    assert!(matches!(seed_setting(true, "42"), Ok(Some(42))));
    assert!(matches!(seed_setting(true, "+7"), Ok(Some(7))));
    assert!(matches!(seed_setting(true, "18446744073709551615"), Ok(Some(u64::MAX))));
    for bad in ["", " 42", "42 ", "-1", "4x", "18446744073709551616"] {
        assert!(matches!(seed_setting(true, bad), Err(SimulationError::BadSeed(_))), "{:?}", bad);
    }
}

#[test]
fn random_cuts_make_shares_of_one_hundred() {
    assert_eq!(probability_shares(30, 10, 80), (10, 20, 50, 20));
    assert_eq!(probability_shares(0, 0, 0), (0, 0, 0, 100));
    assert_eq!(probability_shares(100, 100, 100), (100, 0, 0, 0));
    assert_eq!(probability_shares(50, 50, 20), (20, 30, 0, 50));
    for a in (0..=100).step_by(7) {
        for b in (0..=100).step_by(11) {
            for c in (0..=100).step_by(13) {
                let (u, d, l, r) = probability_shares(a, b, c);
                assert_eq!(u + d + l + r, 100);
            }
        }
    }
}

#[test]
fn clock_text() {
    assert_eq!(time_text(None), "00 : 00");
    assert_eq!(time_text(Some(0)), "00 : 00");
    assert_eq!(time_text(Some(65)), "01 : 05");
    assert_eq!(time_text(Some(59 * 60 + 59)), "59 : 59");
    assert_eq!(time_text(Some(6_000)), "100 : 00");
}

#[test]
fn grid_lines_at_multiples_of_the_unit() {
    assert_eq!(grid_positions(-3, 4, 1, None), vec![-3, -2, -1, 0, 1, 2, 3, 4]);
    assert_eq!(grid_positions(-3, 4, 1, Some(0)), vec![-3, -2, -1, 1, 2, 3, 4]);
    assert_eq!(grid_positions(-5, 7, 3, None), vec![-3, 0, 3, 6]);
    assert_eq!(grid_positions(-5, 7, -3, Some(3)), vec![-3, 0, 6]);
    assert_eq!(grid_positions(5, 4, 1, None), Vec::<i32>::new());
    assert_eq!(grid_positions(i32::MAX - 1, i32::MAX, 1, None), vec![i32::MAX - 1, i32::MAX]);
}

#[test]
fn settings_count_minutes_and_border_cells() {
    assert_eq!(total_seconds(0, 10), 10);
    assert_eq!(total_seconds(2, 5), 125);
    assert_eq!(crystal_size_setting(10, 10), CrystalSize { width: 11, height: 11 });
    assert_eq!(crystal_size_setting(0, 3), CrystalSize { width: 1, height: 4 });
}

#[test]
fn started_engine_ticks_until_time_then_finishes_once() {
    let mut state = EngineState::new();
    state.on_command(EngineCommand::Start);
    let mut actions = vec![];
    for elapsed in [0u64, 1, 2, 3, 3, 4] {
        let action = state.next_action(elapsed, 3);
        match action {
            EngineAction::Finish => state.finish(),
            EngineAction::Tick => {
                if state.sample_due(0, 1) {
                    state.record_sample();
                }
            },
            EngineAction::Idle => {},
        }
        actions.push(action);
    }
    assert_eq!(
        actions,
        vec![
            EngineAction::Tick,
            EngineAction::Tick,
            EngineAction::Tick,
            EngineAction::Finish,
            EngineAction::Idle,
            EngineAction::Idle
        ]
    );
    state.on_command(EngineCommand::Stop);
    assert_eq!(state.next_action(0, 3), EngineAction::Idle);
}

#[test]
fn a_one_row_crystal_still_moves_sideways() {
    let mut crystal = Crystal::new(CrystalSize { width: 3, height: 1 }, 1);
    crystal.move_atom(0, Movement::Right);
    assert_eq!(crystal.atoms()[0], Atom { x: 2, y: 0 });
    crystal.move_atom(0, Movement::Right);
    assert_eq!(crystal.atoms()[0], Atom { x: 1, y: 0 });
    assert_eq!(crystal.field(), &vec![0, 1, 0]);
}

#[test]
fn a_tick_moves_every_atom_by_its_own_step() {
    let mut crystal = Crystal::new(CrystalSize { width: 3, height: 3 }, 4);
    crystal.apply_steps(&vec![Movement::Up, Movement::Left, Movement::Stay, Movement::Right]);
    assert_eq!(
        crystal.atoms(),
        &vec![Atom { x: 1, y: 2 }, Atom { x: 0, y: 1 }, Atom { x: 1, y: 1 }, Atom { x: 2, y: 1 }]
    );
    assert_eq!(crystal.field(), &vec![0, 0, 0, 1, 1, 1, 0, 1, 0]);
    crystal.apply_steps(&vec![Movement::Up, Movement::Down, Movement::Down, Movement::Right]);
    assert_eq!(crystal.atoms()[0], Atom { x: 1, y: 1 });
    assert_eq!(crystal.atoms()[3], Atom { x: 1, y: 1 });
    assert_eq!(crystal.field().iter().sum::<usize>(), 4);
}

#[test]
fn an_empty_crystal_may_have_no_cells() {
    let crystal = Crystal::new(CrystalSize { width: 0, height: 5 }, 0);
    assert!(crystal.atoms().is_empty());
    assert!(crystal.field().is_empty());
}
