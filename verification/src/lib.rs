//! Text handling, prompt building, command-line parsing and generation
//! control for an in-process LLM chat client.
pub mod text;
pub mod line_editor;
pub mod chat;
pub mod tokens;
pub mod generation;
pub mod self_test;
pub mod settings;
pub mod setup;
pub mod gpu_probe;
