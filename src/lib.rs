//! The engine of a bridge between an external coding agent and a client:
//! it diffs observations of a conversation and turns what is new into
//! session updates.

pub mod json;
pub mod text;
pub mod hunk;
pub mod tool;
pub mod conversation;
pub mod inputs;
pub mod tracker;
pub mod update;
pub mod classify;
pub mod decode;
pub mod stream;
pub mod protocol;
