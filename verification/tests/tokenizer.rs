use gtfs_import::line::line_of;
use gtfs_import::tokenizer::{split_chars, split_fields};

fn strings(fields: &[&str]) -> Vec<String> {
    fields.iter().map(|f| f.to_string()).collect()
}

#[test]
fn quoted_field_loses_its_quotes() {
    assert_eq!(split_fields("a,\"b\",c", None), strings(&["a", "b", "c"]));
}

#[test]
fn doubled_quotes_inside_a_field_collapse() {
    assert_eq!(
        split_fields("a,\"b\"\"\"\"c\",d", None),
        strings(&["a", "b\"\"c", "d"])
    );
}

#[test]
fn empty_quoted_field() {
    assert_eq!(split_fields("\"\",x", None), strings(&["", "x"]));
}

#[test]
fn empty_unquoted_field() {
    assert_eq!(split_fields("a,,c", None), strings(&["a", "", "c"]));
}

#[test]
fn trailing_comma_gives_empty_last_field() {
    assert_eq!(split_fields("a,b,", None), strings(&["a", "b", ""]));
}

#[test]
fn line_without_separator_is_one_field() {
    assert_eq!(split_fields("hello", None), strings(&["hello"]));
    assert_eq!(split_fields("\"hello\"", None), strings(&["hello"]));
}

#[test]
fn empty_line_is_one_empty_field() {
    assert_eq!(split_fields("", None), strings(&[""]));
}

#[test]
fn comma_between_quotes_does_not_separate() {
    assert_eq!(split_fields("\"a,b\",c", None), strings(&["a,b", "c"]));
    assert_eq!(split_fields("x,\"1,2,3\"", None), strings(&["x", "1,2,3"]));
}

#[test]
fn quoted_field_with_one_escaped_quote() {
    assert_eq!(
        split_fields("\"say \"\"hi\"\"\",2", None),
        strings(&["say \"hi\"", "2"])
    );
}

#[test]
fn unterminated_quote_swallows_the_rest() {
    assert_eq!(split_fields("\",x", None), strings(&[",x"]));
}

#[test]
fn unquoted_doubled_quote_is_kept_before_a_separator() {
    // Two quotes are not more than two: the field is taken as it stands.
    assert_eq!(split_fields("a\"\"b,c", None), strings(&["a\"\"b", "c"]));
}

#[test]
fn unquoted_doubled_quote_collapses_in_the_last_field() {
    assert_eq!(split_fields("c,a\"\"b", None), strings(&["c", "a\"b"]));
}

#[test]
fn every_leading_quote_is_dropped() {
    assert_eq!(split_fields("\"\"\"a\",b", None), strings(&["a", "b"]));
}

#[test]
fn only_one_trailing_quote_is_dropped() {
    assert_eq!(split_fields("\"a\"\"\",b", None), strings(&["a\"", "b"]));
}

#[test]
fn hint_does_not_change_the_fields() {
    let line = "1,\"two\",,4";
    let expected = strings(&["1", "two", "", "4"]);
    assert_eq!(split_fields(line, None), expected);
    assert_eq!(split_fields(line, Some(0)), expected);
    assert_eq!(split_fields(line, Some(4)), expected);
    assert_eq!(split_fields(line, Some(1000)), expected);
    assert_eq!(split_fields(line, Some(usize::MAX)), expected);
}

#[test]
fn text_outside_ascii_is_kept() {
    assert_eq!(
        split_fields("Zürich,\"Genève, gare\",東京", None),
        strings(&["Zürich", "Genève, gare", "東京"])
    );
}

#[test]
fn plain_tokens_come_back_verbatim() {
    let tokens = strings(&["stop_id", "stop name", "", "47.3769", "x y z"]);
    let line = tokens.join(",");
    assert_eq!(split_fields(&line, None), tokens);
    let one = strings(&["alone"]);
    assert_eq!(split_fields(&one.join(","), None), one);
}

#[test]
fn split_chars_agrees_with_split_fields() {
    let line = "a,\"b,\"\"c\"\"\",d";
    let chars: Vec<char> = line.chars().collect();
    assert_eq!(split_chars(&chars, None), split_fields(line, None));
    assert_eq!(split_chars(&chars, None), strings(&["a", "b,\"c\"", "d"]));
}

#[test]
fn carriage_return_stays_in_the_last_field() {
    assert_eq!(split_fields(line_of("a,b\r\n"), None), strings(&["a", "b\r"]));
}

#[test]
fn line_of_drops_one_terminator() {
    assert_eq!(line_of("abc\n"), "abc");
    assert_eq!(line_of("abc\n\n"), "abc\n");
    assert_eq!(line_of("\n"), "");
}

#[test]
fn line_of_keeps_an_unterminated_line() {
    assert_eq!(line_of("abc"), "abc");
    assert_eq!(line_of(""), "");
    assert_eq!(line_of("abc\r"), "abc\r");
}

#[test]
fn quoted_field_with_comma_and_empty_last_field() {
    assert_eq!(split_fields("\"x, y\",", None), strings(&["x, y", ""]));
}
