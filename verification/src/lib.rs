//! VOIDWEB: a verified core for an LLM inference engine and its browser shell.

mod fx;
mod util;
pub mod text;
pub mod kv_cache;
pub mod radix_cache;
pub mod scheduler;
pub mod tokenizer;
pub mod json;
pub mod quantization;
pub mod tor_proxy;
pub mod sandbox;
pub mod antibot;
pub mod engine;
pub mod metrics;
pub mod loader;
pub mod chat;
