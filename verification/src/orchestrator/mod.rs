//! The collector: it files the snapshots that agents send, and has language models
//! look at them.

pub mod fanout;
pub mod filing;
pub mod llm;
pub mod openai;
pub mod server;
