//! A to-do library: lists of to-do entries, the breakdown of a to-do into
//! steps by a language model, and the state of the screen that asks for it.
//!
//! - `todos`: the list of entries and the single entry with its completion.
//! - `text`: whitespace, trimming and the cleaning of a model reply.
//! - `plan`: a to-do broken up into steps.
//! - `prompt`: the prompt sent to the model.
//! - `app_state`: the screen's state and how each event changes it.

pub mod app_state;
pub mod plan;
pub mod prompt;
pub mod text;
pub mod todos;
