//! The dictation state machine: a total, pure transition function over
//! explicit states and events, and a lock-protected cell that callers on any
//! thread dispatch events into.
use vstd::prelude::*;
use vstd::rwlock::RwLock;

verus! {

/// How the hotkey drives a recording: press to start and press again to
/// stop, or hold to record and release to stop.
#[derive(Debug, Clone, Copy, PartialEq, Eq, Structural)]
pub enum RecordingMode {
    Toggle,
    PushToTalk,
}

impl Default for RecordingMode {
    fn default() -> (r: Self)
        ensures
            r == RecordingMode::Toggle,
    {
        RecordingMode::Toggle
    }
}

/// The stage of the dictation pipeline that is currently live.
#[derive(Debug, Clone, Copy, PartialEq, Eq, Structural)]
pub enum AppState {
    Idle,
    Recording,
    Transcribing,
    Enhancing,
    Pasting,
    Error,
}

/// User or pipeline input that may move the state machine.
#[derive(Debug, Clone, PartialEq, Eq)]
pub enum AppEvent {
    /// Toggle mode: the hotkey was pressed.
    HotkeyPressed,
    /// Push-to-talk: the hotkey went down.
    HotkeyDown,
    /// Push-to-talk: the hotkey went up.
    HotkeyUp,
    /// Voice activity: silence lasted past the threshold.
    SilenceTimeout,
    /// The recording reached its maximum duration.
    MaxDurationTimeout,
    /// Speech-to-text produced its result.
    TranscriptionDone,
    /// Text enhancement finished.
    EnhancementDone,
    /// The text was handed to the paste sink.
    PasteDone,
    /// The user cancelled processing.
    Cancel,
    /// Some stage failed, with a reason.
    Failed(String),
    /// The user acknowledged the error.
    ErrorAcknowledged,
}

/// The event that starts a recording in the given mode.
pub open spec fn is_start_event(event: AppEvent, mode: RecordingMode) -> bool {
    match mode {
        RecordingMode::Toggle => event is HotkeyPressed,
        RecordingMode::PushToTalk => event is HotkeyDown,
    }
}

/// The event that stops a recording in the given mode.
pub open spec fn is_stop_event(event: AppEvent, mode: RecordingMode) -> bool {
    match mode {
        RecordingMode::Toggle => event is HotkeyPressed,
        RecordingMode::PushToTalk => event is HotkeyUp,
    }
}

/// One of the stages that run after a recording ends.
pub open spec fn is_processing(state: AppState) -> bool {
    state is Transcribing || state is Enhancing || state is Pasting
}

/// The transition table. A failure wins over every other rule; any pair
/// that no rule names leaves the state as it is.
pub open spec fn next_state(state: AppState, event: AppEvent, mode: RecordingMode) -> AppState {
    if event is Failed {
        AppState::Error
    } else {
        match state {
            AppState::Idle => if is_start_event(event, mode) {
                AppState::Recording
            } else {
                state
            },
            AppState::Recording => if is_stop_event(event, mode) || event is MaxDurationTimeout || (
            event is SilenceTimeout && mode is Toggle) {
                AppState::Transcribing
            } else {
                state
            },
            AppState::Transcribing => if event is TranscriptionDone {
                AppState::Enhancing
            } else if event is Cancel || is_stop_event(event, mode) {
                AppState::Idle
            } else {
                state
            },
            AppState::Enhancing => if event is EnhancementDone {
                AppState::Pasting
            } else if event is Cancel || is_stop_event(event, mode) {
                AppState::Idle
            } else {
                state
            },
            AppState::Pasting => if event is PasteDone || event is Cancel || is_stop_event(
                event,
                mode,
            ) {
                AppState::Idle
            } else {
                state
            },
            AppState::Error => if event is ErrorAcknowledged {
                AppState::Idle
            } else {
                state
            },
        }
    }
}

fn is_stop(event: &AppEvent, mode: RecordingMode) -> (r: bool)
    ensures
        r == is_stop_event(*event, mode),
{
    match mode {
        RecordingMode::Toggle => matches!(event, AppEvent::HotkeyPressed),
        RecordingMode::PushToTalk => matches!(event, AppEvent::HotkeyUp),
    }
}

/// Computes the state that follows `state` on `event` in recording mode `mode`.
pub fn transition(state: AppState, event: &AppEvent, mode: &RecordingMode) -> (r: AppState)
    ensures
        r == next_state(state, *event, *mode),
{
    if let AppEvent::Failed(_) = event {
        return AppState::Error;
    }
    let mode = *mode;
    match state {
        AppState::Idle => {
            let start = match mode {
                RecordingMode::Toggle => matches!(event, AppEvent::HotkeyPressed),
                RecordingMode::PushToTalk => matches!(event, AppEvent::HotkeyDown),
            };
            if start {
                AppState::Recording
            } else {
                state
            }
        },
        AppState::Recording => {
            let silence = matches!(event, AppEvent::SilenceTimeout) && mode == RecordingMode::Toggle;
            if is_stop(event, mode) || matches!(event, AppEvent::MaxDurationTimeout) || silence {
                AppState::Transcribing
            } else {
                state
            }
        },
        AppState::Transcribing => {
            if matches!(event, AppEvent::TranscriptionDone) {
                AppState::Enhancing
            } else if matches!(event, AppEvent::Cancel) || is_stop(event, mode) {
                AppState::Idle
            } else {
                state
            }
        },
        AppState::Enhancing => {
            if matches!(event, AppEvent::EnhancementDone) {
                AppState::Pasting
            } else if matches!(event, AppEvent::Cancel) || is_stop(event, mode) {
                AppState::Idle
            } else {
                state
            }
        },
        AppState::Pasting => {
            if matches!(event, AppEvent::PasteDone) || matches!(event, AppEvent::Cancel) || is_stop(
                event,
                mode,
            ) {
                AppState::Idle
            } else {
                state
            }
        },
        AppState::Error => {
            if matches!(event, AppEvent::ErrorAcknowledged) {
                AppState::Idle
            } else {
                state
            }
        },
    }
}

/// The event that starts a recording in `mode`.
pub fn start_event(mode: RecordingMode) -> (r: AppEvent)
    ensures
        is_start_event(r, mode),
{
    match mode {
        RecordingMode::Toggle => AppEvent::HotkeyPressed,
        RecordingMode::PushToTalk => AppEvent::HotkeyDown,
    }
}

/// The event that stops a recording in `mode`.
pub fn stop_event(mode: RecordingMode) -> (r: AppEvent)
    ensures
        is_stop_event(r, mode),
{
    match mode {
        RecordingMode::Toggle => AppEvent::HotkeyPressed,
        RecordingMode::PushToTalk => AppEvent::HotkeyUp,
    }
}

/// The event for an edge of the hotkey: toggle mode reacts to the press
/// only; push-to-talk maps the press and the release to key down and up.
pub fn hotkey_event(mode: RecordingMode, pressed: bool) -> (r: Option<AppEvent>)
    ensures
        mode is Toggle ==> (if pressed {
            r == Some(AppEvent::HotkeyPressed)
        } else {
            r is None
        }),
        mode is PushToTalk ==> r == Some(
            if pressed {
                AppEvent::HotkeyDown
            } else {
                AppEvent::HotkeyUp
            },
        ),
{
    match (mode, pressed) {
        (RecordingMode::Toggle, true) => Some(AppEvent::HotkeyPressed),
        (RecordingMode::Toggle, false) => None,
        (RecordingMode::PushToTalk, true) => Some(AppEvent::HotkeyDown),
        (RecordingMode::PushToTalk, false) => Some(AppEvent::HotkeyUp),
    }
}

/// A failure moves every state to `Error`, whatever the mode.
pub proof fn lemma_failure_always_errors(state: AppState, reason: String, mode: RecordingMode)
    ensures
        next_state(state, AppEvent::Failed(reason), mode) == AppState::Error,
{
}

/// `Error` is left only by an acknowledgement: every other event keeps it.
pub proof fn lemma_error_needs_acknowledge(event: AppEvent, mode: RecordingMode)
    ensures
        next_state(AppState::Error, event, mode) == (if event is ErrorAcknowledged {
            AppState::Idle
        } else {
            AppState::Error
        }),
{
}

/// Cancel moves a processing stage to `Idle` and changes no other state,
/// a recording included.
pub proof fn lemma_cancel_only_aborts_processing(state: AppState, mode: RecordingMode)
    ensures
        next_state(state, AppEvent::Cancel, mode) == (if is_processing(state) {
            AppState::Idle
        } else {
            state
        }),
{
}

/// A recording starts only from `Idle`, and only on the mode's start event.
pub proof fn lemma_recording_starts_from_idle(
    state: AppState,
    event: AppEvent,
    mode: RecordingMode,
)
    ensures
        state != AppState::Recording && next_state(state, event, mode) == AppState::Recording
            <==> state == AppState::Idle && is_start_event(event, mode),
{
}

/// The live state and the recording mode, as one value: the machine that a
/// single owner drives. `SharedAppState` holds one behind a lock.
#[derive(Debug, Clone, Copy, PartialEq, Eq, Structural)]
pub struct StateCell {
    pub state: AppState,
    pub mode: RecordingMode,
}

impl StateCell {
    /// A machine in `Idle` with the given recording mode.
    pub fn new(mode: RecordingMode) -> (r: StateCell)
        ensures
            r == (StateCell { state: AppState::Idle, mode }),
    {
        StateCell { state: AppState::Idle, mode }
    }

    /// Applies `event`: stores and returns the transition of the stored state
    /// under the stored mode, together with the state before it.
    pub fn dispatch_with_old(&mut self, event: &AppEvent) -> (r: (AppState, AppState))
        ensures
            r.0 == old(self).state,
            r.1 == next_state(old(self).state, *event, old(self).mode),
            *final(self) == (StateCell { state: r.1, mode: old(self).mode }),
    {
        let old_state = self.state;
        let new_state = transition(old_state, event, &self.mode);
        self.state = new_state;
        (old_state, new_state)
    }

    /// Replaces the recording mode, keeping the state.
    pub fn set_recording_mode(&mut self, mode: RecordingMode)
        ensures
            *final(self) == (StateCell { state: old(self).state, mode }),
    {
        self.mode = mode;
    }
}

/// The predicate of the shared cell: every machine value may be stored.
pub open spec fn any_cell() -> spec_fn(StateCell) -> bool {
    |v: StateCell| true
}

/// A `StateCell` shared between threads. Each dispatch reads the cell,
/// computes the transition and writes the new state within one exclusive
/// hold of the lock, so the old state it reports and the new state it
/// commits belong to the same step of the machine.
///
/// Other threads may dispatch between two calls, so a call's contract speaks
/// of the value it found under the lock: that value was stored by some step
/// of the machine, but which one a caller cannot know.
pub struct SharedAppState {
    cell: RwLock<StateCell, spec_fn(StateCell) -> bool>,
}

impl SharedAppState {
    pub closed spec fn wf(&self) -> bool {
        self.cell.pred() == any_cell()
    }

    /// A shared cell holding `StateCell::new(mode)`: `Idle` with the given
    /// recording mode.
    pub fn new(mode: RecordingMode) -> (r: Self)
        ensures
            r.wf(),
    {
        let first = StateCell::new(mode);
        SharedAppState { cell: RwLock::new(first, Ghost(any_cell())) }
    }

    /// Reads the current state.
    pub fn current_state(&self) -> (r: AppState)
        requires
            self.wf(),
    {
        let handle = self.cell.acquire_read();
        let r = handle.borrow().state;
        handle.release_read();
        r
    }

    /// Applies `event` and returns the new state.
    pub fn dispatch(&self, event: &AppEvent) -> (r: AppState)
        requires
            self.wf(),
        ensures
            exists|old_state: AppState, mode: RecordingMode|
                r == next_state(old_state, *event, mode),
    {
        let (old, new) = self.dispatch_with_old(event);
        proof {
            let mode = choose|mode: RecordingMode| new == next_state(old, *event, mode);
            assert(new == next_state(old, *event, mode));
        }
        new
    }

    /// Applies `event` and returns the state before and after it, both taken
    /// within the same hold of the lock: the new state is the transition of
    /// the old one under the mode stored at that moment.
    pub fn dispatch_with_old(&self, event: &AppEvent) -> (r: (AppState, AppState))
        requires
            self.wf(),
        ensures
            exists|mode: RecordingMode| r.1 == next_state(r.0, *event, mode),
    {
        let (cell, handle) = self.cell.acquire_write();
        let mut cell = cell;
        let mode = cell.mode;
        let r = cell.dispatch_with_old(event);
        handle.release_write(cell);
        assert(r.1 == next_state(r.0, *event, mode));
        r
    }

    /// Reads the current recording mode.
    pub fn recording_mode(&self) -> (r: RecordingMode)
        requires
            self.wf(),
    {
        let handle = self.cell.acquire_read();
        let r = handle.borrow().mode;
        handle.release_read();
        r
    }

    /// Replaces the recording mode, keeping the state.
    pub fn set_recording_mode(&self, mode: RecordingMode)
        requires
            self.wf(),
    {
        let (cell, handle) = self.cell.acquire_write();
        let mut cell = cell;
        cell.set_recording_mode(mode);
        handle.release_write(cell);
    }
}

impl Default for SharedAppState {
    fn default() -> (r: Self)
        ensures
            r.wf(),
    {
        SharedAppState::new(RecordingMode::Toggle)
    }
}

} // verus!
