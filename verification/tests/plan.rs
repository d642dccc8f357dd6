use btd::plan::{Task, Todo};

fn contents(t: &Todo) -> Vec<String> {
    t.steps.iter().map(|s| s.content.clone()).collect()
}

#[test]
fn new_todo_has_no_steps() {
    assert!(Todo::new().steps.is_empty());
}

#[test]
fn add_task_appends() {
    let mut t = Todo::new();
    t.add_task(Task { content: "one".to_string() });
    t.add_task(Task { content: "two".to_string() });
    assert_eq!(contents(&t), vec!["one", "two"]);
}

#[test]
fn from_parsed_keeps_parsed_steps() {
    let mut parsed = Todo::new();
    parsed.add_task(Task { content: "Outline the plugin".to_string() });
    parsed.add_task(Task { content: "Write usage".to_string() });
    let t = Todo::from_parsed(Some(parsed));
    assert_eq!(contents(&t), vec!["Outline the plugin", "Write usage"]);
}

#[test]
fn from_parsed_of_unreadable_reply_is_empty() {
    assert!(Todo::from_parsed(None).steps.is_empty());
}

#[test]
fn clone_copies_steps() {
    let mut t = Todo::new();
    t.add_task(Task { content: "a".to_string() });
    let c = t.clone();
    assert_eq!(contents(&c), contents(&t));
    let task = Task { content: "z".to_string() };
    assert_eq!(task.clone().content, "z");
}
