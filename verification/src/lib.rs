//! A verified LLaMA inference support library: the GGUF container format,
//! tensor bookkeeping, tokenization, key/value caching and model metadata.

pub mod gguf_types;
pub mod text;
pub mod gguf_value;
pub mod cursor;
pub mod gguf_header;
pub mod gguf_reader;
pub mod tokenizer;
pub mod tokenizer_laws;
pub mod interner;
pub mod kv_cache;
pub mod tensor;
pub mod cpu;
pub mod cuda;
pub mod model;
pub mod config;
pub mod context;
pub mod loading_laws;
