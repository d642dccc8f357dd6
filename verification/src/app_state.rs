use vstd::prelude::*;

use crate::plan::Todo;
use crate::text::{is_blank, trim};

verus! {

/// Where the work of asking the model for a breakdown stands.
#[derive(Debug)]
pub enum OllamaState {
    Idle,
    Generating,
    Completed(Todo),
    Error(String),
}

/// The status line shown for `state`.
pub open spec fn status_text_of(state: OllamaState) -> Seq<char> {
    match state {
        OllamaState::Idle => "Idle..."@,
        OllamaState::Generating => "Generating..."@,
        OllamaState::Completed(_) => "Completed!"@,
        OllamaState::Error(e) => "Error: "@ + e@,
    }
}

/// The status line depends on the state's kind alone: a finished breakdown
/// shows "Completed!" whatever its steps, a failure shows its message after
/// "Error: ", and the idle, working and finished lines differ from each other.
pub proof fn lemma_status_text_by_kind(t: Todo, e: String)
    ensures
        status_text_of(OllamaState::Completed(t)) == "Completed!"@,
        status_text_of(OllamaState::Idle) == "Idle..."@,
        status_text_of(OllamaState::Generating) == "Generating..."@,
        status_text_of(OllamaState::Error(e)) == "Error: "@ + e@,
        status_text_of(OllamaState::Idle) != status_text_of(OllamaState::Generating),
        status_text_of(OllamaState::Idle) != status_text_of(OllamaState::Completed(t)),
        status_text_of(OllamaState::Generating) != status_text_of(OllamaState::Completed(t)),
{
    reveal_strlit("Idle...");
    reveal_strlit("Generating...");
    reveal_strlit("Completed!");
    assert("Idle..."@.len() != "Generating..."@.len());
    assert("Idle..."@.len() != "Completed!"@.len());
    assert("Generating..."@.len() != "Completed!"@.len());
}

/// The text put in front of a failure's own message.
pub const FAILURE_PREFIX: &'static str = "Failed to generate todos: ";

impl OllamaState {
    /// The status line shown for this state.
    pub fn status_text(&self) -> (r: String)
        ensures
            r@ == status_text_of(*self),
    {
        match self {
            OllamaState::Idle => String::from_str("Idle..."),
            OllamaState::Generating => String::from_str("Generating..."),
            OllamaState::Completed(_) => String::from_str("Completed!"),
            OllamaState::Error(e) => {
                let mut s = String::from_str("Error: ");
                s.append(e.as_str());
                s
            },
        }
    }
}

/// What happens in the to-do screen.
pub enum AppEvent {
    /// The text in the entry field became this.
    InputChanged(String),
    /// Enter was pressed in the entry field.
    EnterPressed,
    /// The model answered with this breakdown.
    GenerationSucceeded(Todo),
    /// Asking the model failed, with this message.
    GenerationFailed(String),
}

/// What the screen asks to be done after an event.
pub enum AppAction {
    Nothing,
    /// Ask the model to break up this to-do, then report back with
    /// `GenerationSucceeded` or `GenerationFailed`.
    Generate(String),
}

/// The state of the to-do screen.
pub struct TodoAppState {
    /// The text in the entry field.
    pub user_input: String,
    /// Where the work with the model stands.
    pub ollama_state: OllamaState,
    /// Every breakdown received, oldest first.
    pub generated_todos: Vec<Todo>,
}

impl TodoAppState {
    /// The screen as it opens: an empty field, nothing asked, nothing received.
    pub fn new() -> (r: Self)
        ensures
            r.user_input@.len() == 0,
            r.ollama_state is Idle,
            r.generated_todos@.len() == 0,
    {
        TodoAppState {
            user_input: String::new(),
            ollama_state: OllamaState::Idle,
            generated_todos: Vec::new(),
        }
    }

    /// The entry field takes no input while the model is at work.
    pub fn input_disabled(&self) -> (r: bool)
        ensures
            r == (self.ollama_state is Generating),
    {
        match self.ollama_state {
            OllamaState::Generating => true,
            _ => false,
        }
    }

    /// Applies `event` to the screen and says what is to be done next.
    pub fn handle_event(&mut self, event: AppEvent) -> (action: AppAction)
        ensures
            old(self).generated_todos@.len() <= final(self).generated_todos@.len(),
            final(self).generated_todos@.subrange(0, old(self).generated_todos@.len() as int)
                == old(self).generated_todos@,
            action is Generate ==> !(old(self).ollama_state is Generating)
                && final(self).ollama_state is Generating,
            match event {
                AppEvent::InputChanged(v) => {
                    &&& action is Nothing
                    &&& old(self).ollama_state is Generating ==> *final(self) == *old(self)
                    &&& !(old(self).ollama_state is Generating) ==> *final(self) == (TodoAppState {
                        user_input: v,
                        ..*old(self)
                    })
                },
                AppEvent::EnterPressed => {
                    if old(self).ollama_state is Generating || trim(old(self).user_input@).len()
                        == 0 {
                        action is Nothing && *final(self) == *old(self)
                    } else {
                        &&& action matches AppAction::Generate(input) && input@ == old(
                            self,
                        ).user_input@
                        &&& final(self).user_input@.len() == 0
                        &&& final(self).ollama_state is Generating
                        &&& final(self).generated_todos == old(self).generated_todos
                    }
                },
                AppEvent::GenerationSucceeded(t) => {
                    &&& action is Nothing
                    &&& final(self).user_input == old(self).user_input
                    &&& final(self).ollama_state == OllamaState::Completed(t)
                    &&& final(self).generated_todos@.len() == old(self).generated_todos@.len() + 1
                    &&& final(self).generated_todos@.last().contents() == t.contents()
                },
                AppEvent::GenerationFailed(m) => {
                    &&& action is Nothing
                    &&& final(self).user_input == old(self).user_input
                    &&& final(self).ollama_state matches OllamaState::Error(e) && e@
                        == FAILURE_PREFIX@ + m@
                    &&& final(self).generated_todos == old(self).generated_todos
                },
            },
    {
        let ghost before = self.generated_todos@;
        match event {
            AppEvent::InputChanged(v) => {
                if !self.input_disabled() {
                    self.user_input = v;
                }
                AppAction::Nothing
            },
            AppEvent::EnterPressed => {
                if self.input_disabled() {
                    return AppAction::Nothing;
                }
                let input = self.user_input.clone();
                if is_blank(input.as_str()) {
                    return AppAction::Nothing;
                }
                self.ollama_state = OllamaState::Generating;
                self.user_input = String::new();
                AppAction::Generate(input)
            },
            AppEvent::GenerationSucceeded(t) => {
                let copy = t.clone();
                self.generated_todos.push(copy);
                self.ollama_state = OllamaState::Completed(t);
                assert(self.generated_todos@.subrange(0, before.len() as int) =~= before);
                AppAction::Nothing
            },
            AppEvent::GenerationFailed(m) => {
                let mut msg = String::from_str(FAILURE_PREFIX);
                msg.append(m.as_str());
                self.ollama_state = OllamaState::Error(msg);
                AppAction::Nothing
            },
        }
    }
}

} // verus!
