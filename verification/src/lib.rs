//! Reading the tables of a transit feed, and preparing their rows for a
//! relational store.
//!
//! A table is comma-separated text whose fields may be quoted. Its first line
//! is the header; every later line is a row with one field for each column of
//! the header. The reader works on the lines that its caller reads from the
//! source, and keeps count of the bytes that went through it, so that the
//! caller can tell how far it has come.

pub mod error;
pub mod header;
pub mod line;
pub mod number;
pub mod plain;
pub mod plan;
pub mod reader;
pub mod row;
mod text;
pub mod tokenizer;
pub mod value;

pub use error::{CsvError, ImportError};
pub use header::HeaderIndex;
pub use plan::ImportPlan;
pub use reader::CsvReader;
pub use row::Row;
pub use tokenizer::split_fields;
pub use value::{SqlType, SqlValue};
