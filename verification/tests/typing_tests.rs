use datatool::data_file::{load_csv_file, save_csv_file};
use datatool::table::{ColumnValues, Date, Table, TableColumn};

fn load(text: &str) -> Table {
    load_csv_file("typing.csv", &text.as_bytes().to_vec()).unwrap()
}

#[test]
fn integer_column_bounds() {
    let table = load("n\n-9223372036854775808\n9223372036854775807\n007\n-0\n");
    match &table.columns[0].values {
        ColumnValues::Integer(v) => assert_eq!(v, &vec![i64::MIN, i64::MAX, 7, 0]),
        other => panic!("expected an integer column, got {:?}", other),
    }
}

#[test]
fn integer_overflow_falls_back_to_text() {
    let table = load("n\n9223372036854775808\n1\n");
    match &table.columns[0].values {
        ColumnValues::Text(v) => assert_eq!(v[0], "9223372036854775808"),
        other => panic!("expected a text column, got {:?}", other),
    }
}

#[test]
fn date_column_validity() {
    let table = load("d\n2020-02-29\n0001-01-01\n9999-12-31\n");
    match &table.columns[0].values {
        ColumnValues::Date(v) => {
            assert_eq!(v[0], Date { year: 2020, month: 2, day: 29 });
            assert_eq!(v[2], Date { year: 9999, month: 12, day: 31 });
        },
        other => panic!("expected a date column, got {:?}", other),
    }
}

#[test]
fn invalid_date_falls_back_to_text() {
    // 2021 is no leap year, so February has no 29th day.
    let table = load("d\n2021-02-29\n2021-01-01\n");
    match &table.columns[0].values {
        ColumnValues::Text(_) => {},
        other => panic!("expected a text column, got {:?}", other),
    }
}

#[test]
fn boolean_column_is_lowercase_true_false() {
    let table = load("f\ntrue\nfalse\n");
    match &table.columns[0].values {
        ColumnValues::Boolean(v) => assert_eq!(v, &vec![true, false]),
        other => panic!("expected a boolean column, got {:?}", other),
    }
    let mixed = load("f\ntrue\nyes\n");
    match &mixed.columns[0].values {
        ColumnValues::Text(_) => {},
        other => panic!("expected a text column, got {:?}", other),
    }
}

#[test]
fn quoting_round_trip_preserves_values() {
    let table = Table {
        columns: vec![
            TableColumn {
                name: String::from("weird,name"),
                values: ColumnValues::Text(vec![
                    String::from("line\nbreak"),
                    String::from("has \"quotes\""),
                    String::from("comma, inside"),
                    String::from("carriage\rreturn"),
                ]),
            },
            TableColumn {
                name: String::from("n"),
                values: ColumnValues::Integer(vec![1, -2, 30, 4]),
            },
        ],
    };
    let text = save_csv_file(&table);
    let reloaded = load_csv_file("weird.csv", &text.as_bytes().to_vec()).unwrap();
    assert_eq!(reloaded, table);
}

#[test]
fn rendered_csv_is_canonical() {
    let table = load("Text,Number,Flag,Date\nhello,42,true,2020-01-01\n");
    let text = save_csv_file(&table);
    assert_eq!(text, "Text,Number,Flag,Date\nhello,42,true,2020-01-01\n");
}

#[test]
fn header_only_file_has_text_columns() {
    let table = load("a,b\n");
    assert_eq!(table.columns.len(), 2);
    match &table.columns[0].values {
        ColumnValues::Text(v) => assert!(v.is_empty()),
        other => panic!("expected a text column, got {:?}", other),
    }
}

#[test]
fn crlf_record_endings_are_accepted() {
    let crlf = load("Text,Number,Flag,Date\r\nhello,42,true,2020-01-01\r\n");
    let lf = load("Text,Number,Flag,Date\nhello,42,true,2020-01-01\n");
    assert_eq!(crlf, lf);

    // a carriage return not followed by a line feed is field content
    let bare = load("a,b\nx\ry,2\n");
    match &bare.columns[0].values {
        ColumnValues::Text(v) => assert_eq!(v[0], "x\ry"),
        other => panic!("expected a text column, got {:?}", other),
    }

    // inside quotes, a carriage return and line feed are field content
    let quoted = load("a\r\n\"one\r\ntwo\"\r\n");
    match &quoted.columns[0].values {
        ColumnValues::Text(v) => assert_eq!(v[0], "one\r\ntwo"),
        other => panic!("expected a text column, got {:?}", other),
    }
}

#[test]
fn empty_input_is_rejected() {
    let empty: Vec<u8> = Vec::new();
    assert!(load_csv_file("empty.csv", &empty).is_err());
}
