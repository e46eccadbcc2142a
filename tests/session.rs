use kokoro_tts::session::{Phase, SessionAction, SessionEvent, SessionState};
use SessionEvent::{CancelRequested, ChunkArrived, Done, Emitted, EndOfInput, ResourceGone, SlotAcquired, Start};

fn run(events: &[SessionEvent]) -> (SessionState, Vec<SessionAction>) {
    let mut s = SessionState::new();
    let actions = events.iter().map(|e| s.step(*e)).collect();
    (s, actions)
}

#[test]
fn one_chunk_then_end_of_input() {
    let (s, actions) = run(&[Start, ChunkArrived, Done, Done, SlotAcquired, Emitted, EndOfInput]);
    assert_eq!(
        actions,
        vec![
            SessionAction::WaitForChunk,
            SessionAction::Phonemize,
            SessionAction::Tokenize,
            SessionAction::AcquireSlot,
            SessionAction::RunAndEmit,
            SessionAction::WaitForChunk,
            SessionAction::Finish,
        ]
    );
    assert_eq!(s.phase, Phase::Closed);
    assert!(s.is_finished());
}

#[test]
fn cancel_while_emitting_completes_the_chunk() {
    let (s, actions) = run(&[Start, ChunkArrived, Done, Done, SlotAcquired, CancelRequested]);
    assert_eq!(s.phase, Phase::Emitting);
    assert_eq!(actions[5], SessionAction::Nothing);
    let mut s = s;
    assert_eq!(s.step(Emitted), SessionAction::Finish);
    assert_eq!(s.phase, Phase::Cancelled);
}

#[test]
fn cancel_while_waiting_for_text_ends_at_once() {
    let (s, actions) = run(&[Start, CancelRequested]);
    assert_eq!(actions[1], SessionAction::Finish);
    assert_eq!(s.phase, Phase::Cancelled);
}

#[test]
fn cancel_while_tokenizing_is_honoured_before_inference() {
    let (s, actions) = run(&[Start, ChunkArrived, Done, CancelRequested, Done]);
    assert_eq!(actions[4], SessionAction::Finish);
    assert_eq!(s.phase, Phase::Cancelled);
}

#[test]
fn released_resource_fails_the_session() {
    let (s, actions) = run(&[Start, ChunkArrived, Done, Done, ResourceGone, Start]);
    assert_eq!(actions[4], SessionAction::FailReleased);
    assert_eq!(actions[5], SessionAction::Nothing);
    assert_eq!(s.phase, Phase::Released);
}
