//! Lines as a source hands them over: with the terminator still on them.

use vstd::prelude::*;

verus! {

/// The character that ends a line.
pub open spec fn terminator() -> char {
    '\n'
}

/// What one read of a line returned, without the terminator that ends it. A
/// last line that the source did not terminate is left as it is.
pub open spec fn strip_terminator(raw: Seq<char>) -> Seq<char> {
    if raw.len() > 0 && raw.last() == terminator() {
        raw.drop_last()
    } else {
        raw
    }
}

/// `str::strip_suffix` with a character as its pattern: if `text` ends with
/// `suffix`, the text before that last character; otherwise `None`.
#[verifier::external_body]
fn strip_suffix_char<'a>(text: &'a str, suffix: char) -> (rest: Option<&'a str>)
    ensures
        match rest {
            Some(rest) => text@ == rest@.push(suffix),
            None => text@.len() == 0 || text@.last() != suffix,
        },
{
    text.strip_suffix(suffix)
}

/// The line in `raw`: `raw` without the one terminator at its end.
pub fn line_of(raw: &str) -> (line: &str)
    ensures
        line@ == strip_terminator(raw@),
{
    match strip_suffix_char(raw, '\n') {
        Some(line) => {
            proof {
                assert(line@.push('\n').drop_last() =~= line@);
            }
            line
        },
        None => raw,
    }
}

} // verus!
