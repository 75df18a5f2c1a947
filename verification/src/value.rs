//! What is stored for one field of a row.

use crate::error::ImportError;
use crate::number::{parse_u64, unsigned_value};
use crate::text::chars_of;
use vstd::prelude::*;

verus! {

/// The lower-case form of an upper-case letter of the basic alphabet; any
/// other character as it is.
pub open spec fn ascii_lower(c: char) -> char {
    if 'A' <= c && c <= 'Z' {
        ((c as u32) + 32) as char
    } else {
        c
    }
}

/// `s` with each of its characters in lower case.
pub open spec fn lower_case(s: Seq<char>) -> Seq<char> {
    Seq::new(s.len(), |i: int| ascii_lower(s[i]))
}

/// The types of column that a row can be stored in.
#[derive(Debug, Clone, Copy, PartialEq, Eq)]
pub enum SqlType {
    /// Text, stored as it stands.
    Text,
    /// A whole number that is not negative.
    Integer,
    /// A number with a fraction.
    Real,
}

/// The type of column that the store calls `name`. Upper and lower case are
/// not told apart.
pub open spec fn sql_type_named(name: Seq<char>) -> Option<SqlType> {
    let lower = lower_case(name);
    if lower == "text"@ {
        Some(SqlType::Text)
    } else if lower == "integer"@ {
        Some(SqlType::Integer)
    } else if lower == "real"@ {
        Some(SqlType::Real)
    } else {
        None
    }
}

/// What is stored for one field.
#[derive(Debug, PartialEq, Eq)]
pub enum SqlValue {
    /// Nothing: the field was empty.
    Null,
    /// The field as text.
    Text(String),
    /// The number that the field stands for.
    Integer(u64),
    /// The text of a number with a fraction, as it stood in the field.
    Real(String),
}

fn to_lower(c: char) -> (lower: char)
    ensures
        lower == ascii_lower(c),
{
    if 'A' <= c && c <= 'Z' {
        ((c as u8) + 32) as char
    } else {
        c
    }
}

/// Whether `name`, in lower case, is `word`.
fn is_word(name: &Vec<char>, word: &str) -> (same: bool)
    ensures
        same == (lower_case(name@) == word@),
{
    let letters: Vec<char> = chars_of(word);
    if name.len() != letters.len() {
        return false;
    }
    let mut i: usize = 0;
    while i < name.len()
        invariant
            i <= name.len(),
            name.len() == letters.len(),
            letters@ == word@,
            forall|k: int| 0 <= k < i ==> lower_case(name@)[k] == word@[k],
        decreases name.len() - i,
    {
        if to_lower(name[i]) != letters[i] {
            assert(lower_case(name@)[i as int] != word@[i as int]);
            return false;
        }
        i += 1;
    }
    assert(lower_case(name@) =~= word@);
    true
}

/// The type of column that the store calls `name`, if fields can be stored
/// in it.
pub fn sql_type_of(name: &str) -> (sql_type: Option<SqlType>)
    ensures
        sql_type == sql_type_named(name@),
{
    let letters: Vec<char> = chars_of(name);
    if is_word(&letters, "text") {
        Some(SqlType::Text)
    } else if is_word(&letters, "integer") {
        Some(SqlType::Integer)
    } else if is_word(&letters, "real") {
        Some(SqlType::Real)
    } else {
        None
    }
}

/// Whether `result` is what is stored for `field` in a column of type
/// `sql_type`, in the row that comes after `row_number` others.
///
/// An empty field is stored as nothing, whatever the column. Any other field
/// goes by the type of its column: text as it stands, an integer as the
/// number it stands for, a number with a fraction as its text, to be read by
/// the store's side. A field of an integer column that is no whole number is
/// an error, and so is a type that is none of the three.
pub open spec fn is_stored_as(
    field: Seq<char>,
    sql_type: Seq<char>,
    row_number: usize,
    result: Result<SqlValue, ImportError>,
) -> bool {
    match result {
        Ok(SqlValue::Null) => field.len() == 0,
        Ok(SqlValue::Text(text)) => {
            &&& field.len() > 0
            &&& sql_type_named(sql_type) == Some(SqlType::Text)
            &&& text@ == field
        },
        Ok(SqlValue::Integer(number)) => {
            &&& field.len() > 0
            &&& sql_type_named(sql_type) == Some(SqlType::Integer)
            &&& unsigned_value(field) == Some(number)
        },
        Ok(SqlValue::Real(text)) => {
            &&& field.len() > 0
            &&& sql_type_named(sql_type) == Some(SqlType::Real)
            &&& text@ == field
        },
        Err(ImportError::InvalidInteger { text, row }) => {
            &&& field.len() > 0
            &&& sql_type_named(sql_type) == Some(SqlType::Integer)
            &&& unsigned_value(field) is None
            &&& text@ == field
            &&& row == row_number
        },
        Err(ImportError::UnknownType { sql_type: name }) => {
            &&& field.len() > 0
            &&& sql_type_named(sql_type) is None
            &&& name@ == sql_type
        },
        Err(ImportError::ColumnMismatch { .. }) => false,
    }
}

/// What is stored for `field` in a column of type `sql_type`. `row_number` is
/// the number of rows stored before this one; an error carries it.
pub fn coerce(field: &str, sql_type: &str, row_number: usize) -> (result: Result<
    SqlValue,
    ImportError,
>)
    ensures
        is_stored_as(field@, sql_type@, row_number, result),
{
    if field.is_empty() {
        return Ok(SqlValue::Null);
    }
    match sql_type_of(sql_type) {
        Some(SqlType::Text) => Ok(SqlValue::Text(field.to_owned())),
        Some(SqlType::Integer) => match parse_u64(field) {
            Some(number) => Ok(SqlValue::Integer(number)),
            None => Err(ImportError::InvalidInteger { text: field.to_owned(), row: row_number }),
        },
        Some(SqlType::Real) => Ok(SqlValue::Real(field.to_owned())),
        None => Err(ImportError::UnknownType { sql_type: sql_type.to_owned() }),
    }
}

} // verus!
