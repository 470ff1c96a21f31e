use datatool::commands::{
    csv_schema, csv_to_parquet, has_csv_extension, validate_convert_path, validate_scan_path,
    with_extension,
};
use datatool::data_file::load_parquet_file;
use datatool::error::{Error, ErrorKind, FileOp};
use datatool::slice_from_end;
use datatool::table::ColumnType;

fn test_csv_bytes() -> Vec<u8> {
    let text = "Text,Number,Flag,Date\nhello,42,true,2020-01-01\nworld,7,false,1999-12-31\nagain,-5,true,2021-06-15\n";
    text.as_bytes().to_vec()
}

fn os_not_found_text() -> String {
    std::io::Error::from_raw_os_error(2).to_string()
}

#[test]
fn csv_schema_fails_on_non_existent_file() {
    // The read of a missing path fails in the caller's I/O layer; the
    // library builds the scan error from the path and the OS cause.
    let result: Result<String, Error> =
        Err(Error::io(FileOp::ScanCsv, "this_path_does_not_exist", os_not_found_text()));
    assert!(result.is_err());

    let error = result.err().unwrap();
    assert_eq!(
        error.message(),
        "could not scan CSV file \"this_path_does_not_exist\""
    );
    let source_text = error.source_text().unwrap();
    assert_eq!(
        slice_from_end(&source_text, 11).unwrap(),
        "(os error 2)"
    )
}

#[test]
fn convert_fails_on_non_existent_file() {
    let result: Result<Vec<u8>, Error> =
        Err(Error::io(FileOp::OpenCsv, "this_path_does_not_exist", os_not_found_text()));
    assert!(result.is_err());

    let error = result.err().unwrap();
    assert_eq!(
        error.message(),
        "could not open CSV file \"this_path_does_not_exist\""
    );
    let source_text = error.source_text().unwrap();
    assert_eq!(
        slice_from_end(&source_text, 11).unwrap(),
        "(os error 2)"
    )
}

#[test]
fn csv_schema_works_on_valid_file() {
    let bytes = test_csv_bytes();
    let result = csv_schema("test_data/test_data.csv", &bytes);
    assert!(result.is_ok());

    let schema = result.unwrap();
    let correct_schema = [
        "Schema:",
        "Text: Text",
        "Number: Integer",
        "Flag: Boolean",
        "Date: Date",
    ]
    .join("\n");
    assert_eq!(schema.trim(), correct_schema);
}

#[test]
fn convert_works_on_valid_file() {
    let bytes = test_csv_bytes();
    let result = csv_to_parquet("test_data/test_data.csv", &bytes);
    assert!(result.is_ok());

    let parquet_bytes = result.unwrap();
    let table = load_parquet_file("test_data/test_data.parquet", &parquet_bytes).unwrap();
    assert_eq!(table.columns.len(), 4);
    for column in &table.columns {
        assert_eq!(datatool::table::Table::row_count(column), 3);
    }
    let names: Vec<&str> = table.columns.iter().map(|c| c.name.as_str()).collect();
    assert_eq!(names, ["Text", "Number", "Flag", "Date"]);
    let kinds: Vec<ColumnType> = table.schema().fields.iter().map(|f| f.kind).collect();
    assert_eq!(
        kinds,
        [
            ColumnType::Text,
            ColumnType::Integer,
            ColumnType::Boolean,
            ColumnType::Date
        ]
    );
}

#[test]
fn extension_guard_rejects_before_any_io() {
    let result = validate_convert_path("test_data/test_data.txt", false);
    let error = result.err().unwrap();
    assert_eq!(error.kind, ErrorKind::Validation);
    assert_eq!(
        error.message(),
        "File extension is not '.csv'! Use --force parameter to convert anyway."
    );

    assert!(validate_convert_path("test_data/test_data.txt", true).is_ok());
    assert!(validate_convert_path("test_data/test_data.csv", false).is_ok());

    let scan = validate_scan_path("notes.md", false).err().unwrap();
    assert_eq!(
        scan.message(),
        "File extension is not '.csv'! Use --force parameter to scan anyway."
    );
}

#[test]
fn extension_handling_matches_path_semantics() {
    assert!(has_csv_extension("a/b/data.csv"));
    assert!(!has_csv_extension("a/b/datacsv"));
    assert!(!has_csv_extension("a/b.csv/data"));
    assert!(!has_csv_extension(".csv"));

    assert_eq!(
        with_extension("test_data/test_data.csv", "parquet"),
        "test_data/test_data.parquet"
    );
    assert_eq!(with_extension("plain", "csv"), "plain.csv");
    assert_eq!(with_extension("dir.d/plain", "csv"), "dir.d/plain.csv");
    assert_eq!(with_extension("archive.tar.gz", "csv"), "archive.tar.csv");
    assert_eq!(with_extension("a/.hidden", "csv"), "a/.hidden.csv");
}

#[test]
fn slice_from_end_takes_trailing_characters() {
    let text = String::from("No such file or directory (os error 2)");
    assert_eq!(slice_from_end(&text, 11).unwrap(), "(os error 2)");
    assert_eq!(slice_from_end(&text, 500).unwrap(), text.as_str());
    let short = String::from("ab");
    assert_eq!(slice_from_end(&short, 0).unwrap(), "b");
    assert_eq!(slice_from_end(&short, 1).unwrap(), "ab");
}
