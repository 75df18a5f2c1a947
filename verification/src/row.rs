//! One line of a table, with the header that names its fields.

use crate::error::CsvError;
use crate::header::{is_last_position, HeaderIndex};
use crate::text::copy_of;
use std::sync::Arc;
use vstd::prelude::*;
use vstd::string::StringExecFns;

verus! {

/// How one field is shown: its name and its text, each between quotes.
pub open spec fn entry_text(name: Seq<char>, value: Seq<char>) -> Seq<char> {
    "\""@ + name + "\" = \""@ + value + "\" "@
}

/// The first `upto` fields as they are shown, one after the other. A field
/// whose name comes again in a later column is left out.
pub open spec fn entries_text(names: Seq<Seq<char>>, fields: Seq<Seq<char>>, upto: int) -> Seq<
    char,
>
    decreases upto,
{
    if upto <= 0 {
        Seq::empty()
    } else {
        let i = upto - 1;
        entries_text(names, fields, i) + if is_last_position(names, names[i], i) {
            entry_text(names[i], fields[i])
        } else {
            Seq::empty()
        }
    }
}

/// A row as it is shown to a reader: every name with the field that a lookup
/// by that name gives, in the order of the columns.
pub open spec fn row_text(names: Seq<Seq<char>>, fields: Seq<Seq<char>>) -> Seq<char> {
    "Row { "@ + entries_text(names, fields, names.len() as int) + "}"@
}

/// The fields of one line. A row has exactly one field for each column of its
/// header, and shares the header with the other rows of the table.
pub struct Row {
    row: Vec<String>,
    header: Arc<HeaderIndex>,
}

impl View for Row {
    type V = Seq<Seq<char>>;

    /// The fields, in order.
    closed spec fn view(&self) -> Seq<Seq<char>> {
        self.row.deep_view()
    }
}

impl Row {
    #[verifier::type_invariant]
    spec fn well_formed(self) -> bool {
        self.row.len() == self.header@.len()
    }

    /// The column names of the header that this row belongs to.
    pub closed spec fn columns(&self) -> Seq<Seq<char>> {
        self.header@
    }

    /// Binds the fields of one line to a header. The row is built only if it
    /// has one field for each column.
    pub fn new(row: Vec<String>, header: Arc<HeaderIndex>) -> (result: Result<Row, CsvError>)
        ensures
            match result {
                Ok(r) => {
                    &&& row.len() == header@.len()
                    &&& r@ == row.deep_view()
                    &&& r.columns() == header@
                },
                Err(CsvError::RowWidthMismatch { headers, row: fields }) => {
                    &&& row.len() != header@.len()
                    &&& headers.deep_view() == header@
                    &&& fields.deep_view() == row.deep_view()
                },
                Err(_) => false,
            },
    {
        if row.len() != header.width() {
            let headers: Vec<String> = copy_of(header.names().as_slice());
            return Err(CsvError::RowWidthMismatch { headers, row });
        }
        Ok(Row { row, header })
    }

    /// The number of fields.
    pub fn width(&self) -> (width: usize)
        ensures
            width == self@.len(),
            width == self.columns().len(),
    {
        proof {
            use_type_invariant(self);
        }
        self.row.len()
    }

    /// The fields, in order.
    pub fn fields(&self) -> (fields: &Vec<String>)
        ensures
            fields.deep_view() == self@,
    {
        &self.row
    }

    /// The header that names the fields.
    pub fn header(&self) -> (header: &HeaderIndex)
        ensures
            header@ == self.columns(),
    {
        &self.header
    }

    /// The row as text, for a reader: `Row { "id" = "7" "name" = "Alice" }`.
    pub fn describe(&self) -> (text: String)
        ensures
            text@ == row_text(self.columns(), self@),
    {
        proof {
            use_type_invariant(self);
        }
        let names: &Vec<String> = self.header.names();
        let mut text: String = String::new();
        text.append("Row { ");
        let mut i: usize = 0;
        while i < names.len()
            invariant
                i <= names.len(),
                names.deep_view() == self.columns(),
                self.row.len() == names.len(),
                self.header@ == self.columns(),
                text@ == "Row { "@ + entries_text(self.columns(), self@, i as int),
            decreases names.len() - i,
        {
            let name: &str = names[i].as_str();
            let ghost before = entries_text(self.columns(), self@, i as int);
            let ghost shown = is_last_position(self.columns(), name@, i as int);
            proof {
                assert(self.columns()[i as int] == name@);
            }
            let last: bool = match self.header.index_of(name) {
                Some(p) => p == i,
                None => {
                    proof {
                        assert(self.columns().contains(name@));
                    }
                    false
                },
            };
            assert(last == shown);
            if last {
                let value: &str = self.row[i].as_str();
                text.append("\"");
                text.append(name);
                text.append("\" = \"");
                text.append(value);
                text.append("\" ");
                proof {
                    assert(value@ == self@[i as int]);
                    assert(text@ =~= "Row { "@ + (before + entry_text(name@, value@)));
                }
            } else {
                proof {
                    assert(text@ =~= "Row { "@ + (before + Seq::<char>::empty()));
                }
            }
            i += 1;
        }
        text.append("}");
        text
    }

    /// The field in the column called `name`: where several columns have that
    /// name, the field of the last one; `None` if no column has it.
    pub fn get(&self, name: &str) -> (value: Option<&String>)
        ensures
            self@.len() == self.columns().len(),
            match value {
                Some(text) => exists|p: int|
                    is_last_position(self.columns(), name@, p) && text@ == self@[p],
                None => !self.columns().contains(name@),
            },
    {
        proof {
            use_type_invariant(self);
        }
        match self.header.index_of(name) {
            Some(p) => {
                let text: &String = &self.row[p];
                assert(is_last_position(self.columns(), name@, p as int));
                assert(text@ == self@[p as int]);
                Some(text)
            },
            None => None,
        }
    }
}

} // verus!
