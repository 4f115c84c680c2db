//! Query compilation and schema reconciliation for a schema-driven
//! persistence layer: declared models are compiled into document-store
//! pipelines and SQL text, and live schemas are diffed against them.

pub mod error;
pub mod search;
pub mod value;
pub mod pipeline;
pub mod field;
pub mod model;
pub mod builders;
pub mod aggregation;
pub mod convergence;
pub mod indices;
pub mod sql;
pub mod codec;
pub mod outside;
pub mod items;
pub mod connector;
pub mod decorators;
pub mod config;
