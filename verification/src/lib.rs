//! Verified core of a clipboard translation assistant: the selection that a
//! shortcut cuts out of another window, the decisions around it, and the text
//! handling of the translation and speech services.

pub mod selection;
pub mod text;
pub mod llm;
pub mod stream;
pub mod tts;
pub mod session;
pub mod updater;
pub mod google_api;
pub mod config;
pub mod desktop;
