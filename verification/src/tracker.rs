//! The change tracker: one dirty flag for the whole arm, which says that the
//! pose has changed since the controller last took note of it.
//!
//! In automatic mode the acknowledged policy holds: a send leaves the flag
//! set, and only an echo that carries the command sent last clears it, so a
//! command is sent again on every tick until the controller confirms it. In
//! manual mode a send happens on the operator's trigger alone and clears the
//! flag; echoes are ignored.

use vstd::prelude::*;
use crate::frame::{decode_result, encoded, lemma_decode_encode, FrameError, ServoCommand};

verus! {

/// How sends come about.
#[derive(Clone, Copy, Debug, PartialEq, Eq, Structural)]
pub enum SendMode {
    /// A send on every tick on which the flag is set.
    Auto,
    /// A send on the operator's trigger only.
    Manual,
}

/// What a tracker holds, as a plain value.
pub struct TrackerState {
    pub dirty: bool,
    pub mode: SendMode,
    pub last_sent: Option<ServoCommand>,
}

/// What can happen to a tracker.
pub enum TrackerEvent {
    /// The operator changed a joint.
    Edit,
    /// The command went out.
    Sent(ServoCommand),
    /// A frame came in that carries the command.
    Echo(ServoCommand),
    /// The operator chose a send mode.
    Switch(SendMode),
}

/// The tracker at start: the first pose is still to be sent, automatically.
pub open spec fn initial() -> TrackerState {
    TrackerState { dirty: true, mode: SendMode::Auto, last_sent: None }
}

/// A clean tracker has sent a command.
pub open spec fn consistent(state: TrackerState) -> bool {
    !state.dirty ==> state.last_sent is Some
}

/// Whether a send is due: in automatic mode while the flag is set, in manual
/// mode on the trigger, whatever the flag.
pub open spec fn send_due(state: TrackerState, trigger: bool) -> bool {
    match state.mode {
        SendMode::Auto => state.dirty,
        SendMode::Manual => trigger,
    }
}

/// Whether `observed` confirms the command sent last, which only counts in
/// automatic mode.
pub open spec fn acknowledges(state: TrackerState, observed: ServoCommand) -> bool {
    state.mode == SendMode::Auto && state.last_sent == Some(observed)
}

/// Whether `event` is one of the two that clear the flag: a send in manual
/// mode, or an acknowledging echo.
pub open spec fn clears(state: TrackerState, event: TrackerEvent) -> bool {
    match event {
        TrackerEvent::Sent(_) => state.mode == SendMode::Manual,
        TrackerEvent::Echo(observed) => acknowledges(state, observed),
        _ => false,
    }
}

/// The tracker after one event.
pub open spec fn step(state: TrackerState, event: TrackerEvent) -> TrackerState {
    match event {
        TrackerEvent::Edit => TrackerState { dirty: true, ..state },
        TrackerEvent::Sent(command) => TrackerState {
            dirty: state.dirty && state.mode == SendMode::Auto,
            last_sent: Some(command),
            ..state
        },
        TrackerEvent::Echo(observed) => TrackerState {
            dirty: state.dirty && !acknowledges(state, observed),
            ..state
        },
        TrackerEvent::Switch(mode) => TrackerState { mode, ..state },
    }
}

/// The tracker after a run of events, first to last.
pub open spec fn run(state: TrackerState, events: Seq<TrackerEvent>) -> TrackerState
    decreases events.len(),
{
    if events.len() == 0 {
        state
    } else {
        step(run(state, events.drop_last()), events.last())
    }
}

/// The dirty-flag discipline of one arm.
#[derive(Clone, Copy, Debug)]
pub struct ChangeTracker {
    dirty: bool,
    mode: SendMode,
    last_sent: Option<ServoCommand>,
}

impl View for ChangeTracker {
    type V = TrackerState;

    closed spec fn view(&self) -> TrackerState {
        TrackerState { dirty: self.dirty, mode: self.mode, last_sent: self.last_sent }
    }
}

impl ChangeTracker {
    /// The tracker is consistent.
    #[verifier::type_invariant]
    pub closed spec fn well_formed(self) -> bool {
        consistent(self@)
    }

    /// A tracker in automatic mode with the flag set.
    pub fn new() -> (tracker: ChangeTracker)
        ensures
            tracker@ == initial(),
    {
        ChangeTracker { dirty: true, mode: SendMode::Auto, last_sent: None }
    }

    /// Whether the pose has changed since it was last sent or confirmed.
    pub fn is_dirty(&self) -> (dirty: bool)
        ensures
            dirty == self@.dirty,
            consistent(self@),
    {
        proof {
            use_type_invariant(self);
        }
        self.dirty
    }

    /// The send mode in force.
    pub fn mode(&self) -> (mode: SendMode)
        ensures
            mode == self@.mode,
    {
        self.mode
    }

    /// The command that went out last, if any did.
    pub fn last_sent(&self) -> (command: Option<ServoCommand>)
        ensures
            command == self@.last_sent,
    {
        self.last_sent
    }

    /// Chooses the send mode. The flag stays as it is.
    pub fn set_mode(&mut self, mode: SendMode)
        ensures
            final(self)@ == step(old(self)@, TrackerEvent::Switch(mode)),
            final(self)@.dirty == old(self)@.dirty,
    {
        proof {
            use_type_invariant(&*self);
        }
        self.mode = mode;
    }

    /// Notes an edit of any joint: the flag is set.
    pub fn mark_dirty(&mut self)
        ensures
            final(self)@ == step(old(self)@, TrackerEvent::Edit),
            final(self)@.dirty,
    {
        proof {
            use_type_invariant(&*self);
        }
        self.dirty = true;
    }

    /// Whether to send on this tick; `trigger` says that the operator asked
    /// for a send.
    pub fn should_send(&self, trigger: bool) -> (due: bool)
        ensures
            due == send_due(self@, trigger),
    {
        match self.mode {
            SendMode::Auto => self.dirty,
            SendMode::Manual => trigger,
        }
    }

    /// Notes that `command` went out. In manual mode this clears the flag; in
    /// automatic mode the flag waits for the echo.
    pub fn record_send(&mut self, command: ServoCommand)
        ensures
            final(self)@ == step(old(self)@, TrackerEvent::Sent(command)),
    {
        proof {
            use_type_invariant(&*self);
        }
        let dirty = self.dirty && self.mode == SendMode::Auto;
        *self = ChangeTracker { dirty, mode: self.mode, last_sent: Some(command) };
    }

    /// Takes note of a command read from an incoming frame, and says whether
    /// it acknowledges the command sent last. If it does, the flag is
    /// cleared; if not, nothing changes.
    pub fn try_clear(&mut self, observed: &ServoCommand) -> (acknowledged: bool)
        ensures
            acknowledged == acknowledges(old(self)@, *observed),
            final(self)@ == step(old(self)@, TrackerEvent::Echo(*observed)),
    {
        proof {
            use_type_invariant(&*self);
        }
        let acknowledged = match (self.mode, self.last_sent) {
            (SendMode::Auto, Some(sent)) => sent == *observed,
            _ => false,
        };
        if acknowledged {
            self.dirty = false;
        }
        acknowledged
    }

    /// Takes note of a received datagram. A malformed one is reported and
    /// changes nothing; a well-formed one is handled as `try_clear` handles
    /// its command.
    pub fn observe_frame(&mut self, frame: &[u8]) -> (result: Result<bool, FrameError>)
        ensures
            match decode_result(frame@) {
                Ok(observed) => result == Ok::<bool, FrameError>(
                    acknowledges(old(self)@, observed),
                ) && final(self)@ == step(old(self)@, TrackerEvent::Echo(observed)),
                Err(error) => result == Err::<bool, FrameError>(error) && final(self)@ == old(
                    self,
                )@,
            },
    {
        match ServoCommand::decode(frame) {
            Ok(observed) => Ok(self.try_clear(&observed)),
            Err(error) => Err(error),
        }
    }
}

/// Every event keeps a tracker consistent.
pub proof fn lemma_step_consistent(state: TrackerState, event: TrackerEvent)
    requires
        consistent(state),
    ensures
        consistent(step(state, event)),
{
}

/// An edit sets the flag, in either mode and whatever it was.
pub proof fn lemma_edit_sets_dirty(state: TrackerState)
    ensures
        step(state, TrackerEvent::Edit).dirty,
        step(state, TrackerEvent::Edit).mode == state.mode,
        step(state, TrackerEvent::Edit).last_sent == state.last_sent,
{
}

/// The flag is set after an event exactly if it was an edit, or the flag was
/// set before and the event is none of the two that clear it.
pub proof fn lemma_dirty_after_step(state: TrackerState, event: TrackerEvent)
    ensures
        step(state, event).dirty <==> event is Edit || (state.dirty && !clears(state, event)),
{
}

/// In automatic mode a send leaves the flag as it was, and of the echoes
/// that follow only one that carries the command sent clears it.
pub proof fn lemma_acknowledged_send(
    state: TrackerState,
    command: ServoCommand,
    observed: ServoCommand,
)
    requires
        state.mode == SendMode::Auto,
    ensures
        step(state, TrackerEvent::Sent(command)).dirty == state.dirty,
        step(step(state, TrackerEvent::Sent(command)), TrackerEvent::Echo(observed)).dirty == (
        state.dirty && observed != command),
{
}

/// In automatic mode the frame of the command sent last, coming back
/// unchanged, is read as that command and clears the flag.
pub proof fn lemma_echo_acknowledges(state: TrackerState, command: ServoCommand)
    requires
        state.mode == SendMode::Auto,
    ensures
        decode_result(encoded(command)) == Ok::<ServoCommand, FrameError>(command),
        acknowledges(step(state, TrackerEvent::Sent(command)), command),
        !step(step(state, TrackerEvent::Sent(command)), TrackerEvent::Echo(command)).dirty,
{
    lemma_decode_encode(command);
}

/// In manual mode no echo touches the flag, and a send clears it.
pub proof fn lemma_manual_send(state: TrackerState, command: ServoCommand, observed: ServoCommand)
    requires
        state.mode == SendMode::Manual,
    ensures
        step(state, TrackerEvent::Echo(observed)) == state,
        !step(state, TrackerEvent::Sent(command)).dirty,
{
}

/// Switching modes changes the mode and nothing else.
pub proof fn lemma_switch_keeps_dirty(state: TrackerState, mode: SendMode)
    ensures
        step(state, TrackerEvent::Switch(mode)).dirty == state.dirty,
        step(state, TrackerEvent::Switch(mode)).last_sent == state.last_sent,
        step(state, TrackerEvent::Switch(mode)).mode == mode,
{
}

/// A set flag stays set through any run of events of which none clears it.
pub proof fn lemma_dirty_until_cleared(state: TrackerState, events: Seq<TrackerEvent>)
    requires
        state.dirty,
        forall|i: int|
            0 <= i < events.len() ==> !clears(
                #[trigger] run(state, events.take(i)),
                events[i],
            ),
    ensures
        run(state, events).dirty,
    decreases events.len(),
{
    if events.len() > 0 {
        let front = events.drop_last();
        assert forall|i: int| 0 <= i < front.len() implies !clears(
            #[trigger] run(state, front.take(i)),
            front[i],
        ) by {
            assert(front.take(i) =~= events.take(i));
        }
        lemma_dirty_until_cleared(state, front);
        assert(events.take(events.len() - 1) =~= front);
        assert(!clears(run(state, events.take(events.len() - 1)), events[events.len() - 1]));
    }
}

/// A run of events keeps a tracker consistent.
pub proof fn lemma_run_consistent(state: TrackerState, events: Seq<TrackerEvent>)
    requires
        consistent(state),
    ensures
        consistent(run(state, events)),
    decreases events.len(),
{
    if events.len() > 0 {
        lemma_run_consistent(state, events.drop_last());
    }
}

} // verus!
