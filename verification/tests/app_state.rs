use btd::app_state::{AppAction, AppEvent, OllamaState, TodoAppState};
use btd::plan::{Task, Todo};

fn todo_of(steps: &[&str]) -> Todo {
    let mut t = Todo::new();
    for s in steps {
        t.add_task(Task { content: s.to_string() });
    }
    t
}

#[test]
fn status_texts() {
    assert_eq!(OllamaState::Idle.status_text(), "Idle...");
    assert_eq!(OllamaState::Generating.status_text(), "Generating...");
    assert_eq!(OllamaState::Completed(Todo::new()).status_text(), "Completed!");
    assert_eq!(OllamaState::Error("boom".to_string()).status_text(), "Error: boom");
}

#[test]
fn new_screen() {
    let s = TodoAppState::new();
    assert!(s.user_input.is_empty());
    assert!(matches!(s.ollama_state, OllamaState::Idle));
    assert!(s.generated_todos.is_empty());
    assert!(!s.input_disabled());
}

#[test]
fn enter_with_text_starts_generation_and_clears_field() {
    let mut s = TodoAppState::new();
    assert!(matches!(s.handle_event(AppEvent::InputChanged("  Plan a trip ".to_string())), AppAction::Nothing));
    assert_eq!(s.user_input, "  Plan a trip ");
    match s.handle_event(AppEvent::EnterPressed) {
        AppAction::Generate(input) => assert_eq!(input, "  Plan a trip "),
        AppAction::Nothing => panic!("expected a request"),
    }
    assert!(s.user_input.is_empty());
    assert!(s.input_disabled());
    assert_eq!(s.ollama_state.status_text(), "Generating...");
}

#[test]
fn enter_with_blank_text_does_nothing() {
    let mut s = TodoAppState::new();
    s.handle_event(AppEvent::InputChanged(" \t ".to_string()));
    assert!(matches!(s.handle_event(AppEvent::EnterPressed), AppAction::Nothing));
    assert_eq!(s.user_input, " \t ");
    assert!(matches!(s.ollama_state, OllamaState::Idle));
}

#[test]
fn field_is_locked_while_generating() {
    let mut s = TodoAppState::new();
    s.handle_event(AppEvent::InputChanged("a".to_string()));
    s.handle_event(AppEvent::EnterPressed);
    s.handle_event(AppEvent::InputChanged("b".to_string()));
    assert!(s.user_input.is_empty());
    assert!(matches!(s.handle_event(AppEvent::EnterPressed), AppAction::Nothing));
    assert!(s.input_disabled());
}

#[test]
fn success_records_the_breakdown() {
    let mut s = TodoAppState::new();
    s.handle_event(AppEvent::InputChanged("a".to_string()));
    s.handle_event(AppEvent::EnterPressed);
    s.handle_event(AppEvent::GenerationSucceeded(todo_of(&["x", "y"])));
    assert_eq!(s.generated_todos.len(), 1);
    assert_eq!(s.generated_todos[0].steps[1].content, "y");
    assert_eq!(s.ollama_state.status_text(), "Completed!");
    match &s.ollama_state {
        OllamaState::Completed(t) => assert_eq!(t.steps[0].content, "x"),
        _ => panic!("expected completed"),
    }
    assert!(!s.input_disabled());
    s.handle_event(AppEvent::InputChanged("b".to_string()));
    s.handle_event(AppEvent::EnterPressed);
    s.handle_event(AppEvent::GenerationSucceeded(todo_of(&["z"])));
    assert_eq!(s.generated_todos.len(), 2);
    assert_eq!(s.generated_todos[0].steps[0].content, "x");
    assert_eq!(s.generated_todos[1].steps[0].content, "z");
}

#[test]
fn failure_reports_the_error() {
    let mut s = TodoAppState::new();
    s.handle_event(AppEvent::InputChanged("a".to_string()));
    s.handle_event(AppEvent::EnterPressed);
    s.handle_event(AppEvent::GenerationFailed("connection refused".to_string()));
    assert_eq!(
        s.ollama_state.status_text(),
        "Error: Failed to generate todos: connection refused"
    );
    assert!(s.generated_todos.is_empty());
    assert!(!s.input_disabled());
}
