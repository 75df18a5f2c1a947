//! Splitting one line into its fields.
//!
//! A line is a sequence of characters without its line terminator. Commas
//! separate its fields, except for commas that stand between quotes. A field
//! may be wrapped in double quotes, and inside such a field two quotes in a
//! row stand for one quote. Every line is split on its own, so a field cannot
//! hold a line terminator.

use crate::text::{chars_of, collapsed_text_of, text_of};
use vstd::prelude::*;

verus! {

/// The number of quote characters in `s`.
pub open spec fn quote_count(s: Seq<char>) -> nat
    decreases s.len(),
{
    if s.len() == 0 {
        0
    } else {
        quote_count(s.drop_last()) + if s.last() == '"' {
            1nat
        } else {
            0nat
        }
    }
}

/// Whether position `i` of `line` holds a comma that ends a field: a comma
/// with an even number of quotes before it in the line.
pub open spec fn is_separator(line: Seq<char>, i: int) -> bool {
    &&& 0 <= i < line.len()
    &&& line[i] == ','
    &&& quote_count(line.take(i)) % 2 == 0
}

/// The number of quotes that `s` begins with.
pub open spec fn leading_quotes(s: Seq<char>) -> nat
    decreases s.len(),
{
    if s.len() > 0 && s[0] == '"' {
        1 + leading_quotes(s.drop_first())
    } else {
        0
    }
}

/// A segment without the quotes that delimit it: every quote it begins with
/// is dropped, and then one quote at the end, if the rest ends with one.
pub open spec fn strip_delimiters(segment: Seq<char>) -> Seq<char> {
    let body = segment.skip(leading_quotes(segment) as int);
    if body.len() > 0 && body.last() == '"' {
        body.drop_last()
    } else {
        body
    }
}

/// `s` with each pair of adjacent quotes replaced by one quote. Pairs are
/// taken from the left and do not overlap.
pub open spec fn collapse_quotes(s: Seq<char>) -> Seq<char>
    decreases s.len(),
{
    if s.len() == 0 {
        s
    } else if s.len() >= 2 && s[0] == '"' && s[1] == '"' {
        seq!['"'] + collapse_quotes(s.skip(2))
    } else {
        seq![s[0]] + collapse_quotes(s.skip(1))
    }
}

/// The text of the field written as `segment`, the characters between two
/// separators.
///
/// Doubled quotes are collapsed in a field that is followed by a separator
/// only if the segment holds more than two quotes. In the last field of a
/// line they are always collapsed.
pub open spec fn field_text(segment: Seq<char>, last: bool) -> Seq<char> {
    let body = strip_delimiters(segment);
    if last || quote_count(segment) > 2 {
        collapse_quotes(body)
    } else {
        body
    }
}

/// The fields of `line` from the one that begins at `start` on, where no
/// separator stands in `start..i`.
pub open spec fn fields_scan(line: Seq<char>, start: int, i: int) -> Seq<Seq<char>>
    decreases line.len() - i,
{
    if i >= line.len() {
        seq![field_text(line.subrange(start, line.len() as int), true)]
    } else if is_separator(line, i) {
        seq![field_text(line.subrange(start, i), false)] + fields_scan(line, i + 1, i + 1)
    } else {
        fields_scan(line, start, i + 1)
    }
}

/// The fields of `line`, in order. A line with `k` separators has `k + 1`
/// fields; the empty line has one empty field.
pub open spec fn split_line(line: Seq<char>) -> Seq<Seq<char>> {
    fields_scan(line, 0, 0)
}

/// The number of separators among the first `i` positions of `line`.
pub open spec fn separator_count(line: Seq<char>, i: int) -> nat
    decreases i,
{
    if i <= 0 {
        0
    } else {
        separator_count(line, i - 1) + if is_separator(line, i - 1) {
            1nat
        } else {
            0nat
        }
    }
}

proof fn lemma_scan_count(line: Seq<char>, start: int, i: int)
    requires
        0 <= i <= line.len(),
    ensures
        fields_scan(line, start, i).len() + separator_count(line, i) == separator_count(
            line,
            line.len() as int,
        ) + 1,
    decreases line.len() - i,
{
    if i < line.len() {
        if is_separator(line, i) {
            lemma_scan_count(line, i + 1, i + 1);
        } else {
            lemma_scan_count(line, start, i + 1);
        }
    }
}

/// A line has one field more than it has separators.
pub proof fn lemma_field_count(line: Seq<char>)
    ensures
        split_line(line).len() == separator_count(line, line.len() as int) + 1,
{
    lemma_scan_count(line, 0, 0);
}

proof fn lemma_scan_whole(line: Seq<char>, i: int)
    requires
        0 <= i <= line.len(),
        forall|k: int| 0 <= k < line.len() ==> !is_separator(line, k),
    ensures
        fields_scan(line, 0, i) == seq![field_text(line, true)],
    decreases line.len() - i,
{
    if i < line.len() {
        lemma_scan_whole(line, i + 1);
    } else {
        assert(line.subrange(0, line.len() as int) =~= line);
    }
}

/// A line without a separator is one field: the whole line, without the
/// quotes that delimit it.
pub proof fn lemma_single_field(line: Seq<char>)
    requires
        forall|k: int| 0 <= k < line.len() ==> !is_separator(line, k),
    ensures
        split_line(line) == seq![field_text(line, true)],
{
    lemma_scan_whole(line, 0);
}

proof fn lemma_scan_last(line: Seq<char>, start: int, i: int)
    requires
        0 <= i < line.len(),
        is_separator(line, line.len() - 1),
    ensures
        fields_scan(line, start, i).len() > 0,
        fields_scan(line, start, i).last() == Seq::<char>::empty(),
    decreases line.len() - i,
{
    let n = line.len() as int;
    if i == n - 1 {
        assert(line.subrange(n, n) =~= Seq::<char>::empty());
        assert(Seq::<char>::empty().skip(0) =~= Seq::<char>::empty());
        assert(field_text(Seq::<char>::empty(), true) == Seq::<char>::empty());
    } else if is_separator(line, i) {
        lemma_scan_last(line, i + 1, i + 1);
    } else {
        lemma_scan_last(line, start, i + 1);
    }
}

/// A line that ends with a separator ends with an empty field.
pub proof fn lemma_trailing_separator(line: Seq<char>)
    requires
        line.len() > 0,
        is_separator(line, line.len() - 1),
    ensures
        split_line(line).len() > 0,
        split_line(line).last() == Seq::<char>::empty(),
{
    lemma_scan_last(line, 0, 0);
}

/// A segment whose first `k` characters are quotes, and whose next character,
/// if there is one, is not, begins with exactly `k` quotes.
proof fn lemma_leading_quotes(s: Seq<char>, k: int)
    requires
        0 <= k <= s.len(),
        forall|j: int| 0 <= j < k ==> s[j] == '"',
        k < s.len() ==> s[k] != '"',
    ensures
        leading_quotes(s) == k,
    decreases k,
{
    if k > 0 {
        lemma_leading_quotes(s.drop_first(), k - 1);
    }
}

/// The end of the field text inside `chars[start..end]`, when `start` is past
/// the quotes that the segment begins with.
fn text_end(chars: &Vec<char>, start: usize, end: usize) -> (text_end: usize)
    requires
        start <= end <= chars.len(),
    ensures
        start <= text_end <= end,
        text_end == if end > start && chars@[end - 1] == '"' {
            end - 1
        } else {
            end as int
        },
{
    if end > start && chars[end - 1] == '"' {
        end - 1
    } else {
        end
    }
}

/// Splits the characters of one line into its fields.
pub fn split_chars(chars: &Vec<char>, hint_width: Option<usize>) -> (fields: Vec<String>)
    ensures
        fields.deep_view() == split_line(chars@),
{
    let n: usize = chars.len();
    // A line of `n` characters has at most `n + 1` fields, whatever the hint.
    let most: usize = if n < usize::MAX {
        n + 1
    } else {
        n
    };
    let mut cols: Vec<String> = match hint_width {
        Some(width) => Vec::with_capacity(
            if width < most {
                width
            } else {
                most
            },
        ),
        None => Vec::new(),
    };
    let mut quotes: bool = false;
    let mut quotes_count: usize = 0;
    let mut word_start: usize = 0;
    let ghost line: Seq<char> = chars@;
    let ghost segment_start: int = 0;
    let mut i: usize = 0;
    proof {
        assert(line.take(0) =~= Seq::<char>::empty());
        assert(line.subrange(0, 0) =~= Seq::<char>::empty());
        assert(cols.deep_view() + fields_scan(line, 0, 0) =~= split_line(line));
    }
    while i < n
        invariant
            line == chars@,
            n == chars.len(),
            0 <= segment_start <= word_start <= i <= n,
            quotes == (quote_count(line.take(i as int)) % 2 == 1),
            quotes_count == quote_count(line.subrange(segment_start, i as int)),
            quotes_count <= i - segment_start,
            forall|k: int| segment_start <= k < word_start ==> line[k] == '"',
            word_start < i ==> line[word_start as int] != '"',
            cols.deep_view() + fields_scan(line, segment_start, i as int) == split_line(line),
        decreases n - i,
    {
        let c: char = chars[i];
        proof {
            assert(line.take(i + 1).drop_last() =~= line.take(i as int));
            assert(line.subrange(segment_start, i + 1).drop_last() =~= line.subrange(
                segment_start,
                i as int,
            ));
        }
        if c == '"' {
            if word_start == i {
                word_start += 1;
            }
            quotes_count += 1;
            quotes = !quotes;
        } else if !quotes && c == ',' {
            let word_end: usize = text_end(chars, word_start, i);
            let ghost segment = line.subrange(segment_start, i as int);
            proof {
                lemma_leading_quotes(segment, word_start - segment_start);
                assert(segment.skip(word_start - segment_start) =~= line.subrange(
                    word_start as int,
                    i as int,
                ));
                if word_start < i {
                    assert(line.subrange(word_start as int, i as int).drop_last()
                        =~= line.subrange(word_start as int, i - 1));
                }
                assert(strip_delimiters(segment) == line.subrange(
                    word_start as int,
                    word_end as int,
                ));
            }
            let field: String = if quotes_count > 2 {
                collapsed_text_of(chars, word_start, word_end)
            } else {
                text_of(chars, word_start, word_end)
            };
            let ghost before = cols.deep_view();
            cols.push(field);
            proof {
                assert(field@ == field_text(segment, false));
                assert(cols.deep_view() =~= before.push(field@));
                assert(before.push(field@) + fields_scan(line, i + 1, i + 1) =~= before
                    + fields_scan(line, segment_start, i as int));
                segment_start = i + 1;
                assert(line.subrange(i + 1, i + 1) =~= Seq::<char>::empty());
            }
            word_start = i + 1;
            quotes_count = 0;
        }
        i += 1;
    }
    let word_end: usize = text_end(chars, word_start, n);
    let ghost segment = line.subrange(segment_start, n as int);
    proof {
        lemma_leading_quotes(segment, word_start - segment_start);
        assert(segment.skip(word_start - segment_start) =~= line.subrange(
            word_start as int,
            n as int,
        ));
        if word_start < n {
            assert(line.subrange(word_start as int, n as int).drop_last() =~= line.subrange(
                word_start as int,
                n - 1,
            ));
        }
        assert(strip_delimiters(segment) == line.subrange(word_start as int, word_end as int));
    }
    let field: String = collapsed_text_of(chars, word_start, word_end);
    let ghost before = cols.deep_view();
    cols.push(field);
    proof {
        assert(field@ == field_text(segment, true));
        assert(cols.deep_view() =~= before.push(field@));
        assert(before.push(field@) =~= before + fields_scan(line, segment_start, n as int));
    }
    cols
}

/// Splits one line into its fields. `hint_width` is the number of fields the
/// caller expects; it sizes the result and does not change it.
///
/// The line `a,"b",c` has the fields `a`, `b` and `c`; the line `"x, y",`
/// has the fields `x, y` and the empty field; the line `"say ""hi""",2` has
/// the fields `say "hi"` and `2`.
pub fn split_fields(line: &str, hint_width: Option<usize>) -> (fields: Vec<String>)
    ensures
        fields.deep_view() == split_line(line@),
{
    let chars: Vec<char> = chars_of(line);
    split_chars(&chars, hint_width)
}

} // verus!
