//! Machine translation with a local language model behind a LibreTranslate-compatible API.
//!
//! The crate holds what is decided: which requests are refused, how prompts are phrased, how a
//! model is brought up and its output tamed, what is kept in the cache and what is measured. The
//! inference library, the network and the disk are reached from the program around it.

pub mod api;
pub mod batch;
pub mod cache;
pub mod config;
pub mod engine;
pub mod formatting;
pub mod generation;
pub mod languages;
pub mod llm;
pub mod loader;
pub mod markup;
pub mod metrics;
pub mod models;
pub mod prompt;
pub mod template;
pub mod text;
