//! The logic of a desktop chat client for a local language model.

pub mod arguments;
pub mod chat;
pub mod commands;
pub mod conversation;
pub mod display;
pub mod json;
pub mod messages;
pub mod metrics;
pub mod path;
pub mod permissions;
pub mod platform;
pub mod protocol;
pub mod requests;
pub mod results;
pub mod search;
pub mod settings;
pub mod stream;
pub mod text;
pub mod tools;
