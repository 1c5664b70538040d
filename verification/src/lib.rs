//! Ingestion pipeline for an audit knowledge base.
//!
//! An uploaded office or PDF document is normalized to extractable text,
//! split into chapter/article chunks by an ordered chain of strategies,
//! embedded one chunk at a time, and persisted as points in a vector
//! index.  This crate holds the verified core: filename validation, the
//! regulation-pattern splitter, payload modelling and wire conversion,
//! point identity, and the pipeline's decision logic.  The surrounding
//! process (HTTP intake, remote proxy calls, the vector-store client)
//! drives these functions from ordinary asynchronous code.

pub mod blunder;
pub mod business;
pub mod cipher;
pub mod document;
pub mod payload;
pub mod pipeline;
pub mod regulation;
pub mod settings;
pub mod store;
pub mod text;
