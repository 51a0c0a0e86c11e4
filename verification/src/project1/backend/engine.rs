use vstd::prelude::*;

verus! {

/// What the interface asks of the engine: start a new simulation or stop the current one.
#[derive(Debug, Clone, Copy, PartialEq, Eq, Structural)]
pub enum EngineCommand {
    Start,
    Stop,
}

/// What the engine does on a pass of its loop: wait, end the simulation whose time is up, or
/// advance it by a step.
#[derive(Debug, Clone, Copy, PartialEq, Eq, Structural)]
pub enum EngineAction {
    Idle,
    Finish,
    Tick,
}

/// The decisions of the engine's loop: whether a simulation runs, whether there is one, and
/// whether it has sent a snapshot since it started.
#[derive(Debug, Clone, Copy, PartialEq, Eq, Structural)]
pub struct EngineState {
    pub running: bool,
    pub loaded: bool,
    pub sampled: bool,
}

/// The state after a command: a start loads a fresh simulation and runs it; a stop halts it.
/// Either way the next snapshot is due at once.
pub open spec fn after_command(state: EngineState, command: EngineCommand) -> EngineState {
    match command {
        EngineCommand::Start => EngineState { running: true, loaded: true, sampled: false },
        EngineCommand::Stop => EngineState { running: false, loaded: state.loaded, sampled: false },
    }
}

/// The action of a pass: idle unless a loaded simulation runs; finish once its `elapsed_secs`
/// whole seconds reach its `time_seconds`; tick otherwise.
pub open spec fn next_action_spec(state: EngineState, elapsed_secs: u64, time_seconds: u64) -> EngineAction {
    if !(state.running && state.loaded) {
        EngineAction::Idle
    } else if elapsed_secs >= time_seconds {
        EngineAction::Finish
    } else {
        EngineAction::Tick
    }
}

/// Whether a snapshot is due: always for the first since the start, otherwise once the sampling
/// period has passed since the last one.
pub open spec fn sample_due_spec(state: EngineState, since_last: u64, period: u64) -> bool {
    !state.sampled || since_last >= period
}

/// The interval, in milliseconds, between two snapshots sent for real-time display.
pub const REALTIME_INTERVAL_MS: u64 = 16;

impl EngineState {
    /// An engine with no simulation.
    pub fn new() -> (r: Self)
        ensures
            r == (EngineState { running: false, loaded: false, sampled: false }),
    {
        EngineState { running: false, loaded: false, sampled: false }
    }

    /// Applies a command of the interface.
    pub fn on_command(&mut self, command: EngineCommand)
        ensures
            *final(self) == after_command(*old(self), command),
    {
        match command {
            EngineCommand::Start => {
                self.running = true;
                self.loaded = true;
                self.sampled = false;
            },
            EngineCommand::Stop => {
                self.running = false;
                self.sampled = false;
            },
        }
    }

    /// The action of the next pass, given the whole seconds the simulation has run and the
    /// seconds it may run.
    pub fn next_action(&self, elapsed_secs: u64, time_seconds: u64) -> (r: EngineAction)
        ensures
            r == next_action_spec(*self, elapsed_secs, time_seconds),
    {
        if !(self.running && self.loaded) {
            EngineAction::Idle
        } else if elapsed_secs >= time_seconds {
            EngineAction::Finish
        } else {
            EngineAction::Tick
        }
    }

    /// Ends the simulation whose time is up.
    pub fn finish(&mut self)
        ensures
            *final(self) == (EngineState { running: false, ..*old(self) }),
    {
        self.running = false;
    }

    /// Whether a snapshot is due, `since_last` after the last one, with snapshots every `period`
    /// (in one unit of time).
    pub fn sample_due(&self, since_last: u64, period: u64) -> (r: bool)
        ensures
            r == sample_due_spec(*self, since_last, period),
    {
        !self.sampled || since_last >= period
    }

    /// Records that a snapshot was sent.
    pub fn record_sample(&mut self)
        ensures
            *final(self) == (EngineState { sampled: true, ..*old(self) }),
    {
        self.sampled = true;
    }

    /// Whether a snapshot for real-time display is due, `since_last_ms` milliseconds after the
    /// last one.
    pub fn realtime_due(since_last_ms: u64) -> (r: bool)
        ensures
            r <==> since_last_ms >= REALTIME_INTERVAL_MS,
    {
        since_last_ms >= REALTIME_INTERVAL_MS
    }
}

/// A stopped engine waits, whatever the times, until a start.
pub proof fn lemma_stop_idles(state: EngineState, elapsed_secs: u64, time_seconds: u64)
    ensures
        next_action_spec(after_command(state, EngineCommand::Stop), elapsed_secs, time_seconds)
            == EngineAction::Idle,
{
}

/// A finished simulation is not advanced again until a new start.
pub proof fn lemma_finish_idles(state: EngineState, elapsed_secs: u64, time_seconds: u64)
    ensures
        next_action_spec(EngineState { running: false, ..state }, elapsed_secs, time_seconds)
            == EngineAction::Idle,
{
}

/// A started simulation sends a snapshot on its first step, whatever the times, and then one
/// per sampling period.
pub proof fn lemma_start_samples_first(state: EngineState, since_last: u64, period: u64)
    ensures
        sample_due_spec(after_command(state, EngineCommand::Start), since_last, period),
        !sample_due_spec(
            EngineState { sampled: true, ..after_command(state, EngineCommand::Start) },
            since_last,
            period,
        ) <==> since_last < period,
{
}

/// A started simulation is advanced until its time is up, and finished then.
pub proof fn lemma_start_runs_until_time(state: EngineState, elapsed_secs: u64, time_seconds: u64)
    ensures
        next_action_spec(after_command(state, EngineCommand::Start), elapsed_secs, time_seconds)
            == (if elapsed_secs >= time_seconds {
            EngineAction::Finish
        } else {
            EngineAction::Tick
        }),
{
}

/// The state after a pass of the loop at `elapsed_secs`: a finish halts the simulation; a tick
/// leaves a snapshot sent (the first one is always due, see `sample_due_spec`); an idle pass
/// changes nothing.
pub open spec fn pass_after(state: EngineState, elapsed_secs: u64, time_seconds: u64) -> EngineState {
    match next_action_spec(state, elapsed_secs, time_seconds) {
        EngineAction::Finish => EngineState { running: false, ..state },
        EngineAction::Tick => EngineState { sampled: true, ..state },
        EngineAction::Idle => state,
    }
}

/// The state after passes at the whole seconds `elapsed`, in order, with no command between.
pub open spec fn after_passes(state: EngineState, elapsed: Seq<u64>, time_seconds: u64) -> EngineState
    decreases elapsed.len(),
{
    if elapsed.len() == 0 {
        state
    } else {
        pass_after(after_passes(state, elapsed.drop_last(), time_seconds), elapsed.last(), time_seconds)
    }
}

/// The actions of passes at the whole seconds `elapsed`, in order, with no command between.
pub open spec fn pass_actions(state: EngineState, elapsed: Seq<u64>, time_seconds: u64) -> Seq<
    EngineAction,
>
    decreases elapsed.len(),
{
    if elapsed.len() == 0 {
        Seq::empty()
    } else {
        pass_actions(state, elapsed.drop_last(), time_seconds).push(
            next_action_spec(
                after_passes(state, elapsed.drop_last(), time_seconds),
                elapsed.last(),
                time_seconds,
            ),
        )
    }
}

/// The clock readings of successive passes never go back.
pub open spec fn nondecreasing(elapsed: Seq<u64>) -> bool {
    forall|i: int, j: int| 0 <= i <= j < elapsed.len() ==> elapsed[i] <= elapsed[j]
}

/// A whole run after a start, with no command after it: every pass before the time is up
/// ticks, the first pass at or past the time finishes, and every pass after that idles; the
/// simulation still runs exactly while no pass has reached the time.
pub proof fn lemma_started_run(state: EngineState, elapsed: Seq<u64>, time_seconds: u64)
    requires
        nondecreasing(elapsed),
    ensures
        pass_actions(after_command(state, EngineCommand::Start), elapsed, time_seconds).len()
            == elapsed.len(),
        forall|i: int|
            0 <= i < elapsed.len() ==> #[trigger] pass_actions(
                after_command(state, EngineCommand::Start),
                elapsed,
                time_seconds,
            )[i] == (if elapsed[i] < time_seconds {
                EngineAction::Tick
            } else if i == 0 || elapsed[i - 1] < time_seconds {
                EngineAction::Finish
            } else {
                EngineAction::Idle
            }),
        after_passes(after_command(state, EngineCommand::Start), elapsed, time_seconds).loaded,
        after_passes(after_command(state, EngineCommand::Start), elapsed, time_seconds).running
            <==> (elapsed.len() == 0 || elapsed.last() < time_seconds),
    decreases elapsed.len(),
{
    if elapsed.len() > 0 {
        let prefix = elapsed.drop_last();
        assert(nondecreasing(prefix));
        lemma_started_run(state, prefix, time_seconds);
        if prefix.len() > 0 {
            assert(prefix.last() == elapsed[elapsed.len() - 2]);
            assert(elapsed[elapsed.len() - 2] <= elapsed[elapsed.len() - 1]);
        }
    }
}

/// A whole run after a stop, with no command after it: every pass idles and the state stays.
pub proof fn lemma_stopped_run(state: EngineState, elapsed: Seq<u64>, time_seconds: u64)
    ensures
        pass_actions(after_command(state, EngineCommand::Stop), elapsed, time_seconds).len()
            == elapsed.len(),
        forall|i: int|
            0 <= i < elapsed.len() ==> #[trigger] pass_actions(
                after_command(state, EngineCommand::Stop),
                elapsed,
                time_seconds,
            )[i] == EngineAction::Idle,
        after_passes(after_command(state, EngineCommand::Stop), elapsed, time_seconds)
            == after_command(state, EngineCommand::Stop),
    decreases elapsed.len(),
{
    if elapsed.len() > 0 {
        lemma_stopped_run(state, elapsed.drop_last(), time_seconds);
    }
}

} // verus!
