use btd::prompt::{build_prompt, control_prompt, JSON_FORMAT};

const EXPECTED_FORMAT: &str = r#"{
    "steps": [
        {
            "content": "<step>",
        }
    ]
}"#;

fn expected_control() -> String {
    format!(
        "You are an assistant who breaks up todo items into achievable tasks.
        The resulting items must be no more than 5.
        Each item must a short and concise todo entry.
        The result must be json serialisable.
        The result must strictly match this format, including step number indexes: {}", EXPECTED_FORMAT
    )
}

#[test]
fn json_format_text() {
    assert_eq!(JSON_FORMAT, EXPECTED_FORMAT);
}

#[test]
fn control_prompt_text() {
    assert_eq!(control_prompt(), expected_control());
}

#[test]
fn build_prompt_appends_the_todo() {
    let input = "Prepare documentation for a new plugin for Blender";
    assert_eq!(build_prompt(input), format!("{}. The todo is: {}", expected_control(), input));
}
