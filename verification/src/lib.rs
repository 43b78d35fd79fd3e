//! Streaming chat client and orchestration loop for a turn-based,
//! model-driven adventure game.
//!
//! The library decodes a newline-delimited JSON response stream into typed
//! protocol chunks, folds those chunks into game-state mutations and an
//! ordered sequence of turn events, and keeps the conversation history that
//! gives the model its multi-turn context. Network transport stays outside;
//! the library works on plain bytes and values.

pub mod agent;
pub mod decode;
pub mod json;
pub mod ollama;
pub mod session;
pub mod text;
