//! What can go wrong while reading a table, or while preparing it for a
//! store.

use vstd::prelude::*;

verus! {

/// The ways in which reading a table fails.
#[derive(Debug, PartialEq, Eq)]
pub enum CsvError {
    /// The source ended before its first line, so there is no header.
    MalformedHeader,
    /// A line does not have as many fields as the header has columns.
    RowWidthMismatch {
        /// The column names.
        headers: Vec<String>,
        /// The fields of the line.
        row: Vec<String>,
    },
}

/// The ways in which a table cannot be stored.
#[derive(Debug, PartialEq, Eq)]
pub enum ImportError {
    /// The columns of the store that the header names are not as many as the
    /// header has names: a name is missing in the store, or stands twice in
    /// the header.
    ColumnMismatch {
        /// The columns of the store that the header names, each with its
        /// type.
        columns: Vec<(String, String)>,
        /// The column names of the header.
        headers: Vec<String>,
    },
    /// A field of an integer column is not a whole number.
    InvalidInteger {
        /// The field.
        text: String,
        /// The number of rows stored before this one.
        row: usize,
    },
    /// A column has a type that no field can be stored in.
    UnknownType {
        /// The name of the type.
        sql_type: String,
    },
}

} // verus!
