use gtfs_import::value::sql_type_of;
use gtfs_import::SqlType;
use gtfs_import::split_fields;

/// The fields of a line, found by one pass over its bytes that keeps track of
/// where the field began, how many quotes it held, and whether the pass is
/// between quotes.
fn scan_bytes(line: &str) -> Vec<String> {
    let line = line.as_bytes();
    let mut cols: Vec<String> = Vec::new();
    let mut quotes = false;
    let mut quotes_count: usize = 0;
    let mut word_start: usize = 0;
    for i in 0..line.len() {
        let c = line[i];
        if c == b'"' {
            if word_start == i {
                word_start += 1;
            }
            quotes_count += 1;
            quotes = !quotes;
        } else if !quotes && c == b',' {
            let word_end = if i > word_start && line[i - 1] == b'"' { i - 1 } else { i };
            let field = String::from_utf8(line[word_start..word_end].to_vec()).unwrap();
            if quotes_count > 2 {
                cols.push(field.replace("\"\"", "\""));
            } else {
                cols.push(field);
            }
            word_start = i + 1;
            quotes_count = 0;
        }
    }
    let word_end = if line.len() > word_start && line[line.len() - 1] == b'"' {
        line.len() - 1
    } else {
        line.len()
    };
    let field = String::from_utf8(line[word_start..word_end].to_vec()).unwrap();
    cols.push(field.replace("\"\"", "\""));
    cols
}

/// Every text of `length` characters over `alphabet`.
fn texts(alphabet: &[char], length: usize) -> Vec<String> {
    let mut all = vec![String::new()];
    for _ in 0..length {
        let mut longer = Vec::with_capacity(all.len() * alphabet.len());
        for text in &all {
            for c in alphabet {
                let mut next = text.clone();
                next.push(*c);
                longer.push(next);
            }
        }
        all = longer;
    }
    all
}

#[test]
fn every_short_line_splits_as_a_scan_of_its_bytes_does() {
    let alphabet = ['a', ',', '"'];
    let mut count = 0;
    for length in 0..=8 {
        for line in texts(&alphabet, length) {
            assert_eq!(split_fields(&line, None), scan_bytes(&line), "{line:?}");
            count += 1;
        }
    }
    assert_eq!(count, 9841);
}

#[test]
fn lines_with_wide_characters_split_as_a_scan_of_their_bytes_does() {
    let alphabet = ['é', ',', '"', '東', 'b'];
    for length in 0..=5 {
        for line in texts(&alphabet, length) {
            assert_eq!(split_fields(&line, Some(length)), scan_bytes(&line), "{line:?}");
        }
    }
}

#[test]
fn field_count_is_one_more_than_the_commas_of_a_line_without_quotes() {
    let alphabet = ['a', ',', ' '];
    for length in 0..=7 {
        for line in texts(&alphabet, length) {
            let commas = line.chars().filter(|c| *c == ',').count();
            let fields = split_fields(&line, None);
            assert_eq!(fields.len(), commas + 1, "{line:?}");
            assert_eq!(fields.join(","), line);
        }
    }
}

#[test]
fn type_names_are_matched_in_lower_case() {
    for name in [
        "text", "Text", "TEXT", "tExT", "integer", "INTEGER", "Integer", "real", "REAL", "Real",
        "", "blob", "texts", "tex", "reals", "INT", "İnteger", "TEXT ", " text", "ｔｅｘｔ", "reaL",
        "INTEGEr", "integer\n", "nteger",
    ] {
        let expected = match name.to_ascii_lowercase().as_str() {
            "text" => Some(SqlType::Text),
            "integer" => Some(SqlType::Integer),
            "real" => Some(SqlType::Real),
            _ => None,
        };
        assert_eq!(sql_type_of(name), expected, "{name:?}");
    }
}
