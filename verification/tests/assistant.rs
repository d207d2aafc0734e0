use bridgescope::assistant::{AssistantCommand, AssistantEvent, AssistantPanelState};
use bridgescope::device::BridgeError;

#[test]
fn send_requires_non_empty_input_and_ready_provider() {
    let mut state = AssistantPanelState::default();
    assert!(state.send(1).is_none());
    state.ready = true;
    state.input = "  ".to_owned();
    assert!(state.send(2).is_none());
    state.input = "hello".to_owned();
    let command = state.send(3).expect("valid send");
    assert!(matches!(command, AssistantCommand::SendAiChat { .. }));
    assert!(state.pending.is_some());
    // Cannot send again while pending.
    state.input = "again".to_owned();
    assert!(state.send(4).is_none());
}

#[test]
fn completed_event_appends_assistant_turn() {
    let request_id = 5;
    let mut state = AssistantPanelState { ready: true, pending: Some(request_id), ..Default::default() };
    state.handle_event(&AssistantEvent::AiChatCompleted { request_id, reply: "hi".to_owned() });
    assert!(state.pending.is_none());
    assert_eq!(state.turns.last().map(|turn| turn.text.as_str()), Some("hi"));
}

#[test]
fn unrelated_request_completions_are_ignored() {
    let mut state = AssistantPanelState { pending: Some(6), ..Default::default() };
    state.handle_event(&AssistantEvent::AiChatCompleted { request_id: 7, reply: "stale".to_owned() });
    assert!(state.pending.is_some());
    assert!(state.turns.is_empty());
}

#[test]
fn the_transcript_shows_the_trimmed_question_and_the_prompt_is_sent_as_typed() {
    let mut state = AssistantPanelState::default();
    state.handle_event(&AssistantEvent::AiReady { model: "m".to_owned() });
    state.input = "  why? ".to_owned();
    let command = state.send(8);
    assert!(matches!(command, Some(AssistantCommand::SendAiChat { request_id: 8, ref prompt }) if prompt == "  why? "));
    assert_eq!(state.turns[0].text, "why?");
    assert!(state.turns[0].from_user);
    assert!(state.input.is_empty());
    state.handle_event(&AssistantEvent::AiChatFailed { request_id: 8, error: BridgeError::invalid_input("ai.failed") });
    assert!(state.pending.is_none());
    assert!(state.error.is_some());
    state.handle_event(&AssistantEvent::AiUnavailable { error: BridgeError::invalid_input("ai.off") });
    assert!(!state.ready);
    assert!(state.model.is_none());
}
