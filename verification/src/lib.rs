//! File Fairy: a local semantic-search core.
//!
//! The library holds the verified logic of the indexing pipeline: text
//! cleaning, overlapping-window chunking, chunk-record construction, the
//! vector store's upsert and delete rules, representative-chunk selection,
//! the watched-root registry, filename sanitisation, and the configuration
//! and error taxonomy around them.

pub mod category;
pub mod chunker;
pub mod cli;
pub mod config;
pub mod errors;
pub mod extractors;
pub mod fmt_util;
pub mod fsinfo;
pub mod info;
pub mod llm;
pub mod ollama;
pub mod organize;
pub mod paths;
pub mod pipeline;
pub mod sanitize;
pub mod scan;
pub mod search;
pub mod selector;
pub mod store;
pub mod sys;
pub mod text_clean;
pub mod watch;
