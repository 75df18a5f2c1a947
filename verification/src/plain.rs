//! Lines without quotes: splitting undoes joining with commas.

use crate::tokenizer::{
    collapse_quotes, field_text, fields_scan, is_separator, leading_quotes, quote_count,
    split_line, strip_delimiters,
};
use vstd::prelude::*;

verus! {

/// No character of `s` is a quote.
pub open spec fn quote_free(s: Seq<char>) -> bool {
    forall|i: int| 0 <= i < s.len() ==> s[i] != '"'
}

/// A token that can stand in a line as it is: it holds neither a comma nor a
/// quote.
pub open spec fn is_plain(token: Seq<char>) -> bool {
    forall|i: int| 0 <= i < token.len() ==> token[i] != ',' && token[i] != '"'
}

/// The tokens written one after the other, with a comma between each two.
pub open spec fn join_fields(tokens: Seq<Seq<char>>) -> Seq<char>
    decreases tokens.len(),
{
    if tokens.len() == 0 {
        Seq::empty()
    } else if tokens.len() == 1 {
        tokens[0]
    } else {
        tokens[0] + seq![','] + join_fields(tokens.drop_first())
    }
}

proof fn lemma_quote_free_count(s: Seq<char>)
    requires
        quote_free(s),
    ensures
        quote_count(s) == 0,
    decreases s.len(),
{
    if s.len() > 0 {
        lemma_quote_free_count(s.drop_last());
    }
}

proof fn lemma_quote_free_collapse(s: Seq<char>)
    requires
        quote_free(s),
    ensures
        collapse_quotes(s) == s,
    decreases s.len(),
{
    if s.len() > 0 {
        lemma_quote_free_collapse(s.skip(1));
        assert(seq![s[0]] + s.skip(1) =~= s);
    }
}

/// Without quotes a segment is its own field text.
proof fn lemma_quote_free_field(segment: Seq<char>, last: bool)
    requires
        quote_free(segment),
    ensures
        field_text(segment, last) == segment,
{
    assert(leading_quotes(segment) == 0);
    assert(segment.skip(0) =~= segment);
    assert(strip_delimiters(segment) == segment);
    lemma_quote_free_count(segment);
    lemma_quote_free_collapse(segment);
}

/// Without quotes every comma is a separator.
proof fn lemma_quote_free_separator(line: Seq<char>, i: int)
    requires
        quote_free(line),
        0 <= i < line.len(),
    ensures
        is_separator(line, i) <==> line[i] == ',',
{
    lemma_quote_free_count(line.take(i));
}

/// A plain token is one field.
proof fn lemma_scan_single(token: Seq<char>, i: int)
    requires
        is_plain(token),
        0 <= i <= token.len(),
    ensures
        fields_scan(token, 0, i) == seq![token],
    decreases token.len() - i,
{
    if i >= token.len() {
        assert(token.subrange(0, token.len() as int) =~= token);
        lemma_quote_free_field(token, true);
    } else {
        lemma_scan_single(token, i + 1);
    }
}

/// Scanning a line that begins with a plain token and a comma yields the
/// token, and then the fields after the comma.
proof fn lemma_scan_first(token: Seq<char>, rest: Seq<char>, i: int)
    requires
        is_plain(token),
        quote_free(rest),
        0 <= i <= token.len(),
    ensures
        fields_scan(token + seq![','] + rest, 0, i) == seq![token] + fields_scan(
            token + seq![','] + rest,
            token.len() as int + 1,
            token.len() as int + 1,
        ),
    decreases token.len() - i,
{
    let line = token + seq![','] + rest;
    assert(quote_free(line));
    lemma_quote_free_separator(line, i);
    if i == token.len() {
        assert(line.subrange(0, i) =~= token);
        lemma_quote_free_field(token, false);
    } else {
        lemma_scan_first(token, rest, i + 1);
    }
}

/// Without quotes, the fields of what follows a prefix do not depend on the
/// prefix.
proof fn lemma_scan_shift(prefix: Seq<char>, rest: Seq<char>, start: int, i: int)
    requires
        quote_free(prefix),
        quote_free(rest),
        0 <= start <= i <= rest.len(),
    ensures
        fields_scan(prefix + rest, prefix.len() + start, prefix.len() + i) == fields_scan(
            rest,
            start,
            i,
        ),
    decreases rest.len() - i,
{
    let line = prefix + rest;
    let p = prefix.len() as int;
    assert(quote_free(line));
    if i >= rest.len() {
        assert(line.subrange(p + start, line.len() as int) =~= rest.subrange(
            start,
            rest.len() as int,
        ));
    } else {
        lemma_quote_free_separator(line, p + i);
        lemma_quote_free_separator(rest, i);
        if is_separator(rest, i) {
            assert(line.subrange(p + start, p + i) =~= rest.subrange(start, i));
            lemma_scan_shift(prefix, rest, i + 1, i + 1);
        } else {
            lemma_scan_shift(prefix, rest, start, i + 1);
        }
    }
}

proof fn lemma_join_quote_free(tokens: Seq<Seq<char>>)
    requires
        forall|k: int| 0 <= k < tokens.len() ==> is_plain(#[trigger] tokens[k]),
    ensures
        quote_free(join_fields(tokens)),
    decreases tokens.len(),
{
    if tokens.len() == 1 {
        assert(is_plain(tokens[0]));
    } else if tokens.len() > 1 {
        assert(is_plain(tokens[0]));
        let rest = tokens.drop_first();
        assert forall|k: int| 0 <= k < rest.len() implies is_plain(#[trigger] rest[k]) by {
            assert(rest[k] == tokens[k + 1]);
        }
        lemma_join_quote_free(rest);
    }
}

/// Splitting a line of plain tokens joined by commas gives the tokens back,
/// each as it was written: as many fields as there were tokens, in the same
/// order.
pub proof fn lemma_split_joined_plain_tokens(tokens: Seq<Seq<char>>)
    requires
        tokens.len() >= 1,
        forall|k: int| 0 <= k < tokens.len() ==> is_plain(#[trigger] tokens[k]),
    ensures
        split_line(join_fields(tokens)) == tokens,
    decreases tokens.len(),
{
    let first = tokens[0];
    assert(is_plain(first));
    if tokens.len() == 1 {
        lemma_scan_single(first, 0);
        assert(seq![first] =~= tokens);
    } else {
        let rest = tokens.drop_first();
        assert forall|k: int| 0 <= k < rest.len() implies is_plain(#[trigger] rest[k]) by {
            assert(rest[k] == tokens[k + 1]);
        }
        let tail = join_fields(rest);
        let prefix = first + seq![','];
        lemma_join_quote_free(rest);
        lemma_scan_first(first, tail, 0);
        assert(quote_free(prefix));
        lemma_scan_shift(prefix, tail, 0, 0);
        lemma_split_joined_plain_tokens(rest);
        assert(seq![first] + rest =~= tokens);
    }
}

} // verus!
