use gtfs_import::plan::{links_within, report_due};
use gtfs_import::value::{coerce, sql_type_of};
use gtfs_import::{ImportError, ImportPlan, SqlType, SqlValue};
use gtfs_import::number::parse_u64;

fn names(fields: &[&str]) -> Vec<String> {
    fields.iter().map(|f| f.to_string()).collect()
}

fn columns(pairs: &[(&str, &str)]) -> Vec<(String, String)> {
    pairs
        .iter()
        .map(|(name, sql_type)| (name.to_string(), sql_type.to_string()))
        .collect()
}

#[test]
fn digits_are_a_number() {
    assert_eq!(parse_u64("0"), Some(0));
    assert_eq!(parse_u64("7"), Some(7));
    assert_eq!(parse_u64("1234567890"), Some(1234567890));
    assert_eq!(parse_u64("007"), Some(7));
    assert_eq!(parse_u64("+42"), Some(42));
}

#[test]
fn largest_number_and_the_one_after() {
    assert_eq!(parse_u64("18446744073709551615"), Some(u64::MAX));
    assert_eq!(parse_u64("18446744073709551616"), None);
    assert_eq!(parse_u64("18446744073709551620"), None);
    assert_eq!(parse_u64("99999999999999999999999"), None);
    assert_eq!(parse_u64("000018446744073709551615"), Some(u64::MAX));
}

#[test]
fn what_is_no_number() {
    for text in [
        "", "+", "-", "-1", "-0", "++1", "+-1", "1+", " 1", "1 ", "1_000", "1.5", "0x10", "١٢٣",
        "12a", "a12", "1e3", "+ 1",
    ] {
        assert_eq!(parse_u64(text), None, "{text:?}");
    }
}

#[test]
fn numbers_are_read_as_the_standard_library_reads_them() {
    for text in [
        "", "0", "+0", "-0", "+", "1", "+1", "-1", "00", "0009", "++9", "4294967296",
        "18446744073709551615", "18446744073709551616", "+18446744073709551615", "9 ", "٣", "1,0",
        "123456789012345678901234567890",
    ] {
        assert_eq!(parse_u64(text), text.parse::<u64>().ok(), "{text:?}");
    }
}

#[test]
fn type_names_in_any_case() {
    assert_eq!(sql_type_of("text"), Some(SqlType::Text));
    assert_eq!(sql_type_of("TEXT"), Some(SqlType::Text));
    assert_eq!(sql_type_of("Integer"), Some(SqlType::Integer));
    assert_eq!(sql_type_of("INTEGER"), Some(SqlType::Integer));
    assert_eq!(sql_type_of("real"), Some(SqlType::Real));
    assert_eq!(sql_type_of("ReAl"), Some(SqlType::Real));
}

#[test]
fn other_type_names() {
    assert_eq!(sql_type_of(""), None);
    assert_eq!(sql_type_of("blob"), None);
    assert_eq!(sql_type_of("int"), None);
    assert_eq!(sql_type_of("text "), None);
    assert_eq!(sql_type_of("varchar(20)"), None);
    assert_eq!(sql_type_of("ınteger"), None);
}

#[test]
fn empty_field_is_null_in_every_column() {
    assert_eq!(coerce("", "text", 0), Ok(SqlValue::Null));
    assert_eq!(coerce("", "INTEGER", 5), Ok(SqlValue::Null));
    assert_eq!(coerce("", "real", 5), Ok(SqlValue::Null));
    assert_eq!(coerce("", "blob", 5), Ok(SqlValue::Null));
}

#[test]
fn field_goes_by_the_type_of_its_column() {
    assert_eq!(coerce("12", "TEXT", 0), Ok(SqlValue::Text("12".to_string())));
    assert_eq!(coerce("12", "integer", 0), Ok(SqlValue::Integer(12)));
    assert_eq!(coerce("12.5", "REAL", 0), Ok(SqlValue::Real("12.5".to_string())));
    assert_eq!(coerce("abc", "real", 0), Ok(SqlValue::Real("abc".to_string())));
}

#[test]
fn bad_integer_names_field_and_row() {
    assert_eq!(
        coerce("12.5", "integer", 41),
        Err(ImportError::InvalidInteger { text: "12.5".to_string(), row: 41 })
    );
    assert_eq!(
        coerce("-3", "INTEGER", 0),
        Err(ImportError::InvalidInteger { text: "-3".to_string(), row: 0 })
    );
}

#[test]
fn unknown_type_is_an_error_for_a_field_with_text() {
    assert_eq!(
        coerce("x", "BLOB", 3),
        Err(ImportError::UnknownType { sql_type: "BLOB".to_string() })
    );
}

#[test]
fn plan_for_matching_columns() {
    let store = columns(&[
        ("stop_id", "TEXT"),
        ("stop_name", "TEXT"),
        ("stop_lat", "REAL"),
        ("location_type", "INTEGER"),
        ("parent_station", "TEXT"),
    ]);
    let headers = names(&["stop_id", "location_type", "stop_lat"]);
    let plan = ImportPlan::new(&store, &headers).unwrap();
    assert_eq!(plan.width(), 3);
    assert_eq!(plan.coerce_field(0, "8503000", 0), Ok(SqlValue::Text("8503000".to_string())));
    assert_eq!(plan.coerce_field(1, "1", 0), Ok(SqlValue::Integer(1)));
    assert_eq!(plan.coerce_field(2, "47.378", 0), Ok(SqlValue::Real("47.378".to_string())));
    assert_eq!(plan.coerce_field(1, "", 0), Ok(SqlValue::Null));
    assert_eq!(
        plan.coerce_field(1, "one", 9),
        Err(ImportError::InvalidInteger { text: "one".to_string(), row: 9 })
    );
    assert_eq!(
        plan.insert_statement("stops"),
        "INSERT INTO stops(stop_id,location_type,stop_lat) VALUES (?, ?, ?)"
    );
}

#[test]
fn header_name_that_the_store_lacks() {
    let store = columns(&[("a", "TEXT"), ("b", "INTEGER")]);
    let headers = names(&["a", "c"]);
    assert_eq!(
        ImportPlan::new(&store, &headers).err(),
        Some(ImportError::ColumnMismatch { columns: columns(&[("a", "TEXT")]), headers })
    );
}

#[test]
fn header_name_that_stands_twice() {
    let store = columns(&[("a", "TEXT"), ("b", "INTEGER")]);
    let headers = names(&["a", "b", "a"]);
    assert_eq!(
        ImportPlan::new(&store, &headers).err(),
        Some(ImportError::ColumnMismatch {
            columns: columns(&[("a", "TEXT"), ("b", "INTEGER")]),
            headers,
        })
    );
}

#[test]
fn store_column_that_stands_twice_counts_once() {
    let store = columns(&[("a", "TEXT"), ("a", "INTEGER")]);
    let headers = names(&["a"]);
    let plan = ImportPlan::new(&store, &headers).unwrap();
    // The later of the two decides the type.
    assert_eq!(plan.coerce_field(0, "5", 0), Ok(SqlValue::Integer(5)));
}

#[test]
fn column_names_are_matched_exactly() {
    let store = columns(&[("Name", "TEXT")]);
    let headers = names(&["name"]);
    assert_eq!(
        ImportPlan::new(&store, &headers).err(),
        Some(ImportError::ColumnMismatch { columns: Vec::new(), headers })
    );
}

#[test]
fn plan_without_columns() {
    let plan = ImportPlan::new(&columns(&[("a", "TEXT")]), &[]).unwrap();
    assert_eq!(plan.width(), 0);
    assert_eq!(plan.insert_statement("t"), "INSERT INTO t() VALUES ()");
}

#[test]
fn statement_for_one_column() {
    let plan = ImportPlan::new(&columns(&[("id", "integer")]), &names(&["id"])).unwrap();
    assert_eq!(plan.insert_statement("agency"), "INSERT INTO agency(id) VALUES (?)");
}

#[test]
fn unknown_type_of_a_planned_column() {
    let plan = ImportPlan::new(&columns(&[("id", "BLOB")]), &names(&["id"])).unwrap();
    assert_eq!(plan.coerce_field(0, "", 0), Ok(SqlValue::Null));
    assert_eq!(
        plan.coerce_field(0, "x", 0),
        Err(ImportError::UnknownType { sql_type: "BLOB".to_string() })
    );
}

#[test]
fn progress_is_due_every_16384_rows() {
    assert!(report_due(0));
    assert!(!report_due(1));
    assert!(!report_due(16383));
    assert!(report_due(16384));
    assert!(!report_due(16385));
    assert!(report_due(32768));
}

#[test]
fn only_stops_link_within_their_table() {
    assert!(links_within("stops"));
    assert!(!links_within("Stops"));
    assert!(!links_within("stop_times"));
    assert!(!links_within("stop"));
    assert!(!links_within(""));
}
