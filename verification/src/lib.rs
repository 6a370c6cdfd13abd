//! The conversation engine of a bot that bridges chat rooms to a
//! chat-completion backend: commands, the store of turn anchors, the
//! backward scan that recovers a history, the run of one turn, and the tools
//! that the backend may call.

pub mod command;
pub mod handlers;
pub mod json;
pub mod openai;
pub mod text;
