//! Talking to language models.
pub mod anthropic;
pub mod cache;
pub mod decoded;
pub mod keys;
pub mod models;
pub mod openai;
pub mod order;
pub mod provider;
pub mod providers;
pub mod sent;
pub mod sse;
pub mod trust;
pub mod types;
pub mod wire;
