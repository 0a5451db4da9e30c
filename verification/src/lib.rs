//! A small batch pipeline over tabular patient records: cleaning,
//! normalisation and validation of an in-memory dataset, the rules by which
//! a failed ingestion is tried again, and the preparation of rows for a
//! relational store.

pub mod dataset;
pub mod engine;
pub mod error;
pub mod guarantees;
pub mod ingestion;
pub mod rows;
pub mod storage;
pub mod transformation;
