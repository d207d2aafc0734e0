//! The assistant dock: a transcript of user and assistant turns, one chat
//! request at a time, sent only once a provider is ready.

use vstd::prelude::*;

use crate::device::BridgeError;
use crate::text::{trim, trimmed};

verus! {

/// One line of the transcript.
#[derive(Clone, Debug)]
pub struct AssistantTurn {
    pub from_user: bool,
    pub text: String,
}

/// A transcript line as plain values.
pub open spec fn turn_view(turn: AssistantTurn) -> (bool, Seq<char>) {
    (turn.from_user, turn.text@)
}

/// The lines of a transcript, as plain values.
pub open spec fn turn_views(turns: Seq<AssistantTurn>) -> Seq<(bool, Seq<char>)> {
    turns.map_values(|t: AssistantTurn| turn_view(t))
}

/// Backend requests of the assistant.
pub enum AssistantCommand {
    SendAiChat { request_id: u64, prompt: String },
}

/// Backend reports the assistant reacts to.
pub enum AssistantEvent {
    AiReady { model: String },
    AiUnavailable { error: BridgeError },
    AiChatCompleted { request_id: u64, reply: String },
    AiChatFailed { request_id: u64, error: BridgeError },
}

/// The assistant dock.
pub struct AssistantPanelState {
    pub turns: Vec<AssistantTurn>,
    pub input: String,
    pub pending: Option<u64>,
    pub ready: bool,
    pub model: Option<String>,
    pub error: Option<BridgeError>,
}

impl Default for AssistantPanelState {
    fn default() -> (state: Self)
        ensures
            state.turns@.len() == 0,
            state.input@.len() == 0,
            state.pending is None,
            !state.ready,
            state.model is None,
            state.error is None,
    {
        AssistantPanelState {
            turns: Vec::new(),
            input: String::new(),
            pending: None,
            ready: false,
            model: None,
            error: None,
        }
    }
}

impl AssistantPanelState {
    /// Applies one backend report; answers to another request are ignored.
    pub fn handle_event(&mut self, event: &AssistantEvent)
        ensures
            match event {
                AssistantEvent::AiReady { model } => *final(self) == (AssistantPanelState {
                    ready: true,
                    model: Some(*model),
                    error: None,
                    ..*old(self)
                }),
                AssistantEvent::AiUnavailable { .. } => *final(self) == (AssistantPanelState {
                    ready: false,
                    model: None,
                    ..*old(self)
                }),
                AssistantEvent::AiChatCompleted { request_id, reply } => if old(self).pending == Some(
                    *request_id,
                ) {
                    &&& turn_views(final(self).turns@) == turn_views(old(self).turns@).push((false, reply@))
                    &&& *final(self) == (AssistantPanelState {
                        pending: None,
                        error: None,
                        turns: final(self).turns,
                        ..*old(self)
                    })
                } else {
                    *final(self) == *old(self)
                },
                AssistantEvent::AiChatFailed { request_id, error } => if old(self).pending == Some(
                    *request_id,
                ) {
                    *final(self) == (AssistantPanelState {
                        pending: None,
                        error: Some(*error),
                        ..*old(self)
                    })
                } else {
                    *final(self) == *old(self)
                },
            },
    {
        match event {
            AssistantEvent::AiReady { model } => {
                self.ready = true;
                self.model = Some(model.clone());
                self.error = None;
            },
            AssistantEvent::AiUnavailable { .. } => {
                self.ready = false;
                self.model = None;
            },
            AssistantEvent::AiChatCompleted { request_id, reply } => {
                if self.pending == Some(*request_id) {
                    self.pending = None;
                    self.error = None;
                    let ghost before = turn_views(self.turns@);
                    self.turns.push(AssistantTurn { from_user: false, text: reply.clone() });
                    assert(turn_views(self.turns@) =~= before.push((false, reply@)));
                }
            },
            AssistantEvent::AiChatFailed { request_id, error } => {
                if self.pending == Some(*request_id) {
                    self.pending = None;
                    self.error = Some(error.duplicate());
                }
            },
        }
    }

    /// Sends the typed question under `request_id`: only a non-blank input,
    /// with a ready provider and no question waiting. The transcript shows
    /// the trimmed question; the prompt is the input as typed, and the input
    /// box empties.
    pub fn send(&mut self, request_id: u64) -> (command: Option<AssistantCommand>)
        ensures
            (trim(old(self).input@).len() == 0 || old(self).pending is Some || !old(self).ready) ==> command
                is None && *final(self) == *old(self),
            !(trim(old(self).input@).len() == 0 || old(self).pending is Some || !old(self).ready) ==> {
                &&& command matches Some(AssistantCommand::SendAiChat { request_id: id, prompt }) && id
                    == request_id && prompt@ == old(self).input@
                &&& turn_views(final(self).turns@) == turn_views(old(self).turns@).push(
                    (true, trim(old(self).input@)),
                )
                &&& final(self).input@.len() == 0
                &&& *final(self) == (AssistantPanelState {
                    pending: Some(request_id),
                    turns: final(self).turns,
                    input: final(self).input,
                    ..*old(self)
                })
            },
    {
        let question = trimmed(self.input.as_str());
        if question.as_str().unicode_len() == 0 || self.pending.is_some() || !self.ready {
            return None;
        }
        self.pending = Some(request_id);
        let ghost before = turn_views(self.turns@);
        self.turns.push(AssistantTurn { from_user: true, text: question });
        assert(turn_views(self.turns@) =~= before.push((true, trim(old(self).input@))));
        let mut prompt = String::new();
        std::mem::swap(&mut prompt, &mut self.input);
        Some(AssistantCommand::SendAiChat { request_id, prompt })
    }
}

} // verus!
