use vstd::prelude::*;

verus! {

/// The JSON shape that the model is told to answer in.
pub const JSON_FORMAT: &'static str = "{\n    \"steps\": [\n        {\n            \"content\": \"<step>\",\n        }\n    ]\n}";

/// The instructions that come before the JSON shape in the control prompt.
pub const CONTROL_INSTRUCTIONS: &'static str = "You are an assistant who breaks up todo items into achievable tasks.\n        The resulting items must be no more than 5.\n        Each item must a short and concise todo entry.\n        The result must be json serialisable.\n        The result must strictly match this format, including step number indexes: ";

/// What comes between the control prompt and the user's to-do.
pub const TODO_SEPARATOR: &'static str = ". The todo is: ";

/// The text of the control prompt.
pub open spec fn control_prompt_text() -> Seq<char> {
    CONTROL_INSTRUCTIONS@ + JSON_FORMAT@
}

/// The control prompt: the instructions followed by the JSON shape.
pub fn control_prompt() -> (r: String)
    ensures
        r@ == control_prompt_text(),
{
    let mut s = String::from_str(CONTROL_INSTRUCTIONS);
    s.append(JSON_FORMAT);
    s
}

/// The prompt that asks the model to break up the to-do `input`.
pub fn build_prompt(input: &str) -> (r: String)
    ensures
        r@ == control_prompt_text() + TODO_SEPARATOR@ + input@,
{
    let mut s = control_prompt();
    s.append(TODO_SEPARATOR);
    s.append(input);
    s
}

} // verus!
