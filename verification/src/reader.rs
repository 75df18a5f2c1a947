//! Reading a table line by line: the header first, then one row per line.
//!
//! The reader does not touch the source itself. Its caller reads one line at
//! a time, terminator included, and hands over what each read returned; a
//! read that returned nothing marks the end of the source.

use crate::error::CsvError;
use crate::header::HeaderIndex;
use crate::line::{line_of, strip_terminator};
use crate::row::Row;
use crate::tokenizer::{split_fields, split_line};
use std::sync::Arc;
use vstd::prelude::*;

verus! {

/// The fields of the line that one read returned as `raw`.
pub open spec fn line_fields(raw: Seq<char>) -> Seq<Seq<char>> {
    split_line(strip_terminator(raw))
}

/// What a reader is, to its callers.
pub struct ReaderView {
    /// The column names, in order.
    pub headers: Seq<Seq<char>>,
    /// The size of the source in bytes, as the caller declared it.
    pub total_size: nat,
    /// The number of bytes of the source that were handed over so far.
    pub consumed: nat,
}

/// `Arc::clone` gives a second handle to the value that `header` points to.
#[verifier::external_body]
fn share(header: &Arc<HeaderIndex>) -> (shared: Arc<HeaderIndex>)
    ensures
        shared == *header,
{
    Arc::clone(header)
}

/// A reader of rows. It holds the header of the table and counts the bytes
/// that went through it.
pub struct CsvReader {
    header_len: usize,
    header: Arc<HeaderIndex>,
    size: usize,
    already_processed: usize,
}

impl View for CsvReader {
    type V = ReaderView;

    closed spec fn view(&self) -> ReaderView {
        ReaderView {
            headers: self.header@,
            total_size: self.size as nat,
            consumed: self.already_processed as nat,
        }
    }
}

impl CsvReader {
    #[verifier::type_invariant]
    spec fn well_formed(self) -> bool {
        self.header_len == self.header@.len()
    }

    /// Starts reading a table whose source is `size` bytes long. `first_line`
    /// is what the first read of a line returned; it holds the header.
    ///
    /// Fails if the source was empty, so that the read returned nothing.
    pub fn new(first_line: &str, size: usize) -> (result: Result<CsvReader, CsvError>)
        ensures
            match result {
                Ok(reader) => {
                    &&& first_line@.len() > 0
                    &&& reader@ == (ReaderView {
                        headers: line_fields(first_line@),
                        total_size: size as nat,
                        consumed: first_line.len() as nat,
                    })
                },
                Err(e) => first_line@.len() == 0 && e == CsvError::MalformedHeader,
            },
    {
        let mut s = CsvReader {
            header_len: 0,
            header: Arc::new(HeaderIndex::new(Vec::new())),
            size,
            already_processed: 0,
        };
        match s.read_header(first_line) {
            Ok(()) => Ok(s),
            Err(e) => Err(e),
        }
    }

    /// Takes what one read of a line returned, counts its bytes, and gives
    /// the line without its terminator; `None` when the read returned
    /// nothing, which is the end of the source.
    fn read_line<'a>(&mut self, raw: &'a str) -> (line: Option<&'a str>)
        requires
            old(self)@.consumed + raw.len() <= usize::MAX,
        ensures
            final(self)@ == (ReaderView {
                consumed: (old(self)@.consumed + raw.len()) as nat,
                ..old(self)@
            }),
            match line {
                Some(text) => raw@.len() > 0 && text@ == strip_terminator(raw@),
                None => raw@.len() == 0 && final(self)@ == old(self)@,
            },
    {
        proof {
            use_type_invariant(&*self);
        }
        if raw.is_empty() {
            return None;
        }
        let line: &str = line_of(raw);
        self.already_processed += raw.len();
        Some(line)
    }

    /// Takes what one read of a line returned and gives the fields of the
    /// line; `None` at the end of the source. `col_size_guess` is the number
    /// of fields that the caller expects.
    fn read_line_cols(&mut self, raw: &str, col_size_guess: Option<usize>) -> (cols: Option<
        Vec<String>,
    >)
        requires
            old(self)@.consumed + raw.len() <= usize::MAX,
        ensures
            final(self)@ == (ReaderView {
                consumed: (old(self)@.consumed + raw.len()) as nat,
                ..old(self)@
            }),
            match cols {
                Some(fields) => raw@.len() > 0 && fields.deep_view() == line_fields(raw@),
                None => raw@.len() == 0 && final(self)@ == old(self)@,
            },
    {
        let line: &str = match self.read_line(raw) {
            Some(l) => l,
            None => {
                return None;
            },
        };
        Some(split_fields(line, col_size_guess))
    }

    fn read_header(&mut self, raw: &str) -> (result: Result<(), CsvError>)
        requires
            old(self)@.consumed + raw.len() <= usize::MAX,
        ensures
            match result {
                Ok(()) => {
                    &&& raw@.len() > 0
                    &&& final(self)@ == (ReaderView {
                        headers: line_fields(raw@),
                        consumed: (old(self)@.consumed + raw.len()) as nat,
                        ..old(self)@
                    })
                },
                Err(e) => {
                    &&& raw@.len() == 0
                    &&& e == CsvError::MalformedHeader
                    &&& final(self)@ == old(self)@
                },
            },
    {
        let cols: Vec<String> = match self.read_line_cols(raw, None) {
            Some(c) => c,
            None => {
                return Err(CsvError::MalformedHeader);
            },
        };
        let header = HeaderIndex::new(cols);
        *self = CsvReader {
            header_len: header.width(),
            header: Arc::new(header),
            size: self.size,
            already_processed: self.already_processed,
        };
        Ok(())
    }

    /// Takes what one read of a line returned and gives the row in it.
    ///
    /// At the end of the source, when the read returned nothing, there is no
    /// row, and the reader stays as it was: the answer to every further call
    /// of this kind is the same. A line whose number of fields is not the
    /// number of columns is an error; its bytes are counted all the same.
    /// The count of bytes never goes down. It is a `usize`: the caller sees
    /// to it that the bytes of `raw` still fit.
    pub fn read_row(&mut self, raw: &str) -> (result: Result<Option<Row>, CsvError>)
        requires
            old(self)@.consumed + raw.len() <= usize::MAX,
        ensures
            final(self)@ == (ReaderView {
                consumed: (old(self)@.consumed + raw.len()) as nat,
                ..old(self)@
            }),
            old(self)@.consumed <= final(self)@.consumed,
            raw@.len() == 0 ==> (result matches Ok(None)) && final(self)@ == old(self)@,
            raw@.len() > 0 ==> match result {
                Ok(Some(row)) => {
                    &&& line_fields(raw@).len() == old(self)@.headers.len()
                    &&& row@ == line_fields(raw@)
                    &&& row.columns() == old(self)@.headers
                },
                Ok(None) => false,
                Err(CsvError::RowWidthMismatch { headers, row }) => {
                    &&& line_fields(raw@).len() != old(self)@.headers.len()
                    &&& headers.deep_view() == old(self)@.headers
                    &&& row.deep_view() == line_fields(raw@)
                },
                Err(_) => false,
            },
    {
        proof {
            use_type_invariant(&*self);
        }
        let cols: Vec<String> = match self.read_line_cols(raw, Some(self.header_len)) {
            Some(c) => c,
            None => {
                return Ok(None);
            },
        };
        match Row::new(cols, share(&self.header)) {
            Ok(row) => Ok(Some(row)),
            Err(e) => Err(e),
        }
    }

    /// As `read_row`, for a caller that does not know whether the count of
    /// bytes has room for the bytes of `raw`: where it has none, nothing is
    /// read, the reader stays as it was, and the answer is `None`.
    pub fn try_read_row(&mut self, raw: &str) -> (result: Option<Result<Option<Row>, CsvError>>)
        ensures
            match result {
                None => {
                    &&& old(self)@.consumed + raw.len() > usize::MAX
                    &&& final(self)@ == old(self)@
                },
                Some(read) => {
                    &&& old(self)@.consumed + raw.len() <= usize::MAX
                    &&& final(self)@ == (ReaderView {
                        consumed: (old(self)@.consumed + raw.len()) as nat,
                        ..old(self)@
                    })
                    &&& old(self)@.consumed <= final(self)@.consumed
                    &&& raw@.len() == 0 ==> (read matches Ok(None)) && final(self)@ == old(self)@
                    &&& raw@.len() > 0 ==> match read {
                        Ok(Some(row)) => {
                            &&& line_fields(raw@).len() == old(self)@.headers.len()
                            &&& row@ == line_fields(raw@)
                            &&& row.columns() == old(self)@.headers
                        },
                        Ok(None) => false,
                        Err(CsvError::RowWidthMismatch { headers, row }) => {
                            &&& line_fields(raw@).len() != old(self)@.headers.len()
                            &&& headers.deep_view() == old(self)@.headers
                            &&& row.deep_view() == line_fields(raw@)
                        },
                        Err(_) => false,
                    }
                },
            },
    {
        if raw.len() > usize::MAX - self.already_processed {
            return None;
        }
        Some(self.read_row(raw))
    }

    /// The column names, in order.
    pub fn get_headers(&self) -> (headers: &[String])
        ensures
            headers.deep_view() == self@.headers,
    {
        self.header.names().as_slice()
    }

    /// The header, which every row of this reader shares.
    pub fn header(&self) -> (header: &Arc<HeaderIndex>)
        ensures
            header@ == self@.headers,
    {
        &self.header
    }

    /// The number of bytes of the source that went through the reader.
    pub fn bytes_consumed(&self) -> (count: usize)
        ensures
            count == self@.consumed,
    {
        self.already_processed
    }

    /// The size of the source in bytes, as it was declared to `new`.
    pub fn total_size(&self) -> (size: usize)
        ensures
            size == self@.total_size,
    {
        self.size
    }
}

} // verus!
