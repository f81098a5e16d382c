//! An interactive SQL explorer for delimited tabular data.
//!
//! The library ingests rows from delimited text sources into an embedded
//! relational store and drives a small command loop around it: header
//! normalization, transactional bulk insert with row-width reconciliation,
//! meta-command dispatch, result rendering and delimited export.

pub mod commands;
pub mod complete;
pub mod db;
pub mod errors;
pub mod export;
pub mod ingest;
pub mod loader;
pub mod names;
pub mod numbers;
pub mod query;
pub mod render;
pub mod sqlgen;
pub mod text;
pub mod udf;
