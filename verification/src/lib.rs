//! Verified core of the Enteract desktop assistant: text chunking, the
//! database error model and log buffer, conversation bookkeeping, the
//! connection pool's accounting, stream supervision and other decision logic.

mod clock;
pub mod data;
pub mod text;
pub mod tokenizer;
pub mod chunking;
pub mod store;
pub mod stream;
pub mod ollama;
pub mod gpu;
mod ids;
pub mod files;
pub mod mcp;
pub mod rag;
pub mod audio;
pub mod eye;
pub mod screen;
pub mod transcript;
pub mod input;
