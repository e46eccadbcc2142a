//! The decisions of a streaming synthesis session: a state machine from the
//! current phase and an event to the next phase and the action to perform.
//! Whoever drives the session performs the actions (waiting for text,
//! locking the shared inference resource, running it, emitting audio) and
//! reports what happened as events.

use vstd::prelude::*;

verus! {

/// Where a streaming session stands.
#[derive(PartialEq, Eq, Structural, Clone, Copy, Debug)]
pub enum Phase {
    /// Created, not started.
    Idle,
    /// Waiting for the next text chunk, the end of input or cancellation.
    AwaitingChunk,
    /// Turning the chunk's text into phonemes.
    Phonemizing,
    /// Turning the phonemes into token ids.
    Tokenizing,
    /// Waiting for the lock on the shared inference resource.
    AwaitingInferenceSlot,
    /// Inference is running and its audio goes out to the caller.
    Emitting,
    /// The input ended and every chunk was emitted.
    Closed,
    /// Cancelled by the caller.
    Cancelled,
    /// The shared inference resource was released.
    Released,
}

/// What happened since the last step.
#[derive(PartialEq, Eq, Structural, Clone, Copy, Debug)]
pub enum SessionEvent {
    Start,
    ChunkArrived,
    EndOfInput,
    CancelRequested,
    Done,
    SlotAcquired,
    ResourceGone,
    Emitted,
}

/// What the driver does next.
#[derive(PartialEq, Eq, Structural, Clone, Copy, Debug)]
pub enum SessionAction {
    /// Wait for the next chunk from the caller.
    WaitForChunk,
    /// Phonemize the chunk.
    Phonemize,
    /// Tokenize the phonemes.
    Tokenize,
    /// Take the lock on the inference resource, failing if it is gone.
    AcquireSlot,
    /// Run inference on the chunk and emit its audio, in chunk order.
    RunAndEmit,
    /// End the session and close the output.
    Finish,
    /// End the session with the "resource released" error.
    FailReleased,
    /// Nothing to do.
    Nothing,
}

/// The state of a session: its phase and whether cancellation was asked for
/// while it could not yet be honoured.
#[derive(PartialEq, Eq, Structural, Clone, Copy, Debug)]
pub struct SessionState {
    pub phase: Phase,
    pub cancel_requested: bool,
}

pub open spec fn is_terminal(p: Phase) -> bool {
    p == Phase::Closed || p == Phase::Cancelled || p == Phase::Released
}

pub open spec fn state(phase: Phase, cancel_requested: bool) -> SessionState {
    SessionState { phase, cancel_requested }
}

/// The transition function. Cancellation is honoured where the session
/// waits (for a chunk or for the inference slot); asked for anywhere else it
/// is recorded and honoured at the next such point, so that a running
/// inference call always completes.
pub open spec fn next(s: SessionState, e: SessionEvent) -> (SessionState, SessionAction) {
    let c = s.cancel_requested;
    match s.phase {
        Phase::Idle => if c || e == SessionEvent::CancelRequested {
            (state(Phase::Cancelled, true), SessionAction::Finish)
        } else if e == SessionEvent::Start {
            (state(Phase::AwaitingChunk, false), SessionAction::WaitForChunk)
        } else {
            (s, SessionAction::Nothing)
        },
        Phase::AwaitingChunk => if c || e == SessionEvent::CancelRequested {
            (state(Phase::Cancelled, true), SessionAction::Finish)
        } else {
            match e {
                SessionEvent::ChunkArrived => (
                    state(Phase::Phonemizing, false),
                    SessionAction::Phonemize,
                ),
                SessionEvent::EndOfInput => (state(Phase::Closed, false), SessionAction::Finish),
                _ => (s, SessionAction::Nothing),
            }
        },
        Phase::Phonemizing => match e {
            SessionEvent::Done => (state(Phase::Tokenizing, c), SessionAction::Tokenize),
            SessionEvent::CancelRequested => (state(Phase::Phonemizing, true), SessionAction::Nothing),
            _ => (s, SessionAction::Nothing),
        },
        Phase::Tokenizing => match e {
            SessionEvent::Done => if c {
                (state(Phase::Cancelled, true), SessionAction::Finish)
            } else {
                (state(Phase::AwaitingInferenceSlot, false), SessionAction::AcquireSlot)
            },
            SessionEvent::CancelRequested => (state(Phase::Tokenizing, true), SessionAction::Nothing),
            _ => (s, SessionAction::Nothing),
        },
        Phase::AwaitingInferenceSlot => if c || e == SessionEvent::CancelRequested {
            (state(Phase::Cancelled, true), SessionAction::Finish)
        } else {
            match e {
                SessionEvent::SlotAcquired => (
                    state(Phase::Emitting, false),
                    SessionAction::RunAndEmit,
                ),
                SessionEvent::ResourceGone => (
                    state(Phase::Released, false),
                    SessionAction::FailReleased,
                ),
                _ => (s, SessionAction::Nothing),
            }
        },
        Phase::Emitting => match e {
            SessionEvent::Emitted => if c {
                (state(Phase::Cancelled, true), SessionAction::Finish)
            } else {
                (state(Phase::AwaitingChunk, false), SessionAction::WaitForChunk)
            },
            SessionEvent::CancelRequested => (state(Phase::Emitting, true), SessionAction::Nothing),
            _ => (s, SessionAction::Nothing),
        },
        _ => (s, SessionAction::Nothing),
    }
}

impl SessionState {
    /// A new session, not started.
    pub fn new() -> (r: SessionState)
        ensures
            r == state(Phase::Idle, false),
    {
        SessionState { phase: Phase::Idle, cancel_requested: false }
    }

    /// Whether the session has ended.
    pub fn is_finished(&self) -> (r: bool)
        ensures
            r == is_terminal(self.phase),
    {
        match self.phase {
            Phase::Closed | Phase::Cancelled | Phase::Released => true,
            _ => false,
        }
    }

    /// Takes one step: moves to the next state and says what to do.
    pub fn step(&mut self, e: SessionEvent) -> (r: SessionAction)
        ensures
            (*final(self), r) == next(*old(self), e),
    {
        let c = self.cancel_requested;
        let cancel = e == SessionEvent::CancelRequested;
        let (s, a) = match self.phase {
            Phase::Idle => if c || cancel {
                (
                    SessionState { phase: Phase::Cancelled, cancel_requested: true },
                    SessionAction::Finish,
                )
            } else if e == SessionEvent::Start {
                (
                    SessionState { phase: Phase::AwaitingChunk, cancel_requested: false },
                    SessionAction::WaitForChunk,
                )
            } else {
                (*self, SessionAction::Nothing)
            },
            Phase::AwaitingChunk => if c || cancel {
                (
                    SessionState { phase: Phase::Cancelled, cancel_requested: true },
                    SessionAction::Finish,
                )
            } else {
                match e {
                    SessionEvent::ChunkArrived => (
                        SessionState { phase: Phase::Phonemizing, cancel_requested: false },
                        SessionAction::Phonemize,
                    ),
                    SessionEvent::EndOfInput => (
                        SessionState { phase: Phase::Closed, cancel_requested: false },
                        SessionAction::Finish,
                    ),
                    _ => (*self, SessionAction::Nothing),
                }
            },
            Phase::Phonemizing => match e {
                SessionEvent::Done => (
                    SessionState { phase: Phase::Tokenizing, cancel_requested: c },
                    SessionAction::Tokenize,
                ),
                SessionEvent::CancelRequested => (
                    SessionState { phase: Phase::Phonemizing, cancel_requested: true },
                    SessionAction::Nothing,
                ),
                _ => (*self, SessionAction::Nothing),
            },
            Phase::Tokenizing => match e {
                SessionEvent::Done => if c {
                    (
                        SessionState { phase: Phase::Cancelled, cancel_requested: true },
                        SessionAction::Finish,
                    )
                } else {
                    (
                        SessionState {
                            phase: Phase::AwaitingInferenceSlot,
                            cancel_requested: false,
                        },
                        SessionAction::AcquireSlot,
                    )
                },
                SessionEvent::CancelRequested => (
                    SessionState { phase: Phase::Tokenizing, cancel_requested: true },
                    SessionAction::Nothing,
                ),
                _ => (*self, SessionAction::Nothing),
            },
            Phase::AwaitingInferenceSlot => if c || cancel {
                (
                    SessionState { phase: Phase::Cancelled, cancel_requested: true },
                    SessionAction::Finish,
                )
            } else {
                match e {
                    SessionEvent::SlotAcquired => (
                        SessionState { phase: Phase::Emitting, cancel_requested: false },
                        SessionAction::RunAndEmit,
                    ),
                    SessionEvent::ResourceGone => (
                        SessionState { phase: Phase::Released, cancel_requested: false },
                        SessionAction::FailReleased,
                    ),
                    _ => (*self, SessionAction::Nothing),
                }
            },
            Phase::Emitting => match e {
                SessionEvent::Emitted => if c {
                    (
                        SessionState { phase: Phase::Cancelled, cancel_requested: true },
                        SessionAction::Finish,
                    )
                } else {
                    (
                        SessionState { phase: Phase::AwaitingChunk, cancel_requested: false },
                        SessionAction::WaitForChunk,
                    )
                },
                SessionEvent::CancelRequested => (
                    SessionState { phase: Phase::Emitting, cancel_requested: true },
                    SessionAction::Nothing,
                ),
                _ => (*self, SessionAction::Nothing),
            },
            _ => (*self, SessionAction::Nothing),
        };
        *self = s;
        a
    }
}

/// An ended session stays ended and does nothing more.
pub proof fn lemma_terminal_absorbs(s: SessionState, e: SessionEvent)
    requires
        is_terminal(s.phase),
    ensures
        next(s, e) == (s, SessionAction::Nothing),
{
}

/// Cancellation never interrupts a running inference call: the session
/// stays in its emitting phase until the audio is out.
pub proof fn lemma_inference_not_preempted(s: SessionState)
    requires
        s.phase == Phase::Emitting,
    ensures
        next(s, SessionEvent::CancelRequested).0.phase == Phase::Emitting,
        next(s, SessionEvent::CancelRequested).1 == SessionAction::Nothing,
{
}

/// Once cancellation was asked for, the session pulls no new chunk and
/// starts no new inference call.
pub proof fn lemma_cancel_stops_pulling(s: SessionState, e: SessionEvent)
    requires
        s.cancel_requested,
    ensures
        next(s, e).1 != SessionAction::WaitForChunk,
        next(s, e).1 != SessionAction::Phonemize,
        next(s, e).1 != SessionAction::RunAndEmit,
        next(s, e).0.cancel_requested,
{
}

/// Inference runs only right after the slot was acquired.
pub proof fn lemma_inference_needs_slot(s: SessionState, e: SessionEvent)
    ensures
        next(s, e).1 == SessionAction::RunAndEmit ==> s.phase == Phase::AwaitingInferenceSlot && e
            == SessionEvent::SlotAcquired,
{
}

} // verus!
