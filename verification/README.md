# btd

A small to-do library whose behaviour is stated in Verus contracts and proved.

- `src/` is the verified library: the to-do list and entries (`todos`), the
  cleaning of a model's JSON reply (`text`), the breakdown of a to-do into
  steps (`plan`), the prompt (`prompt`) and the state of the breakdown screen
  as a function from state and event to next state and action (`app_state`).
- `app/` holds the programs around it: the Dioxus screens, the calls to a
  local Ollama model, and the JSON parsing with serde.
- `tests/` runs the library on concrete values.
