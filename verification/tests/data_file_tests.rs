use encoding::Encoding;

use datatool::commands::win_to_utf8;
use datatool::data_file::{load_csv_file, load_parquet_file, save_csv_file, save_parquet_file};
use datatool::error::ErrorKind;

fn round_trip_csv_bytes() -> Vec<u8> {
    let text = "Text,Number,Flag,Date\nhello,42,true,2020-01-01\n\"with,comma\",-9223372036854775808,false,2020-02-29\n\"with \"\"quote\"\"\",9223372036854775807,true,1970-06-01\n";
    text.as_bytes().to_vec()
}

#[test]
fn fail_on_non_utf8_text() {
    // The CSV content is legacy-encoded (0xE4 is not valid UTF-8).
    let bytes = b"Text\nsch\xE4n\n".to_vec();
    let result = load_csv_file("test_data/test_data_windows-1252.csv", &bytes);
    assert!(result.is_err());

    let error = result.err().unwrap();
    assert_eq!(
        error.message(),
        "could not load CSV file \"test_data/test_data_windows-1252.csv\""
    );
    assert_eq!(error.source_text().unwrap(), "invalid utf8 data in csv");
    assert_eq!(error.kind, ErrorKind::Encoding);
}

#[test]
fn full_round_trip() {
    // load CSV content
    let csv_bytes = round_trip_csv_bytes();
    let result = load_csv_file("test_data/round_trip_test_data.csv", &csv_bytes);
    assert!(result.is_ok());
    let dataframe = result.unwrap();

    // write to Parquet bytes
    let result = save_parquet_file("test_data/round_trip_test_data.parquet", &dataframe);
    assert!(result.is_ok());
    let parquet_bytes = result.unwrap();

    // reload the Parquet bytes, compare new data to initial data
    let result = load_parquet_file("test_data/round_trip_test_data.parquet", &parquet_bytes);
    assert!(result.is_ok());
    let new_dataframe = result.unwrap();
    assert_eq!(new_dataframe, dataframe);

    // render the reloaded data as CSV again
    let csv_text = save_csv_file(&new_dataframe);

    // parse the new CSV text, compare data again
    let result = load_csv_file(
        "test_data/round_trip_test_data.csv_new",
        &csv_text.as_bytes().to_vec(),
    );
    assert!(result.is_ok());
    assert_eq!(result.unwrap(), dataframe);
}

#[test]
fn convert_win_1252() {
    // transcode legacy-encoded bytes, ensure the result
    let win_bytes = b"Text;Umlaut\nwert;sch\xE4n\neuro;\x80\n".to_vec();
    let result = win_to_utf8(&win_bytes);
    assert!(result.is_ok());
    let new_content = result.unwrap();

    // compare the new content with a direct strict decode of the old
    assert_eq!(
        new_content,
        encoding::all::WINDOWS_1252
            .decode(win_bytes.as_slice(), encoding::DecoderTrap::Strict)
            .unwrap()
    );
    assert!(new_content.contains('\u{E4}'));
    assert!(new_content.contains('\u{20AC}'));
}

#[test]
fn transcode_appends_final_line_feed() {
    let bytes = b"one\ntwo".to_vec();
    assert_eq!(win_to_utf8(&bytes).unwrap(), "one\ntwo\n");
    let empty: Vec<u8> = Vec::new();
    assert_eq!(win_to_utf8(&empty).unwrap(), "");
    let just_nl = b"\n".to_vec();
    assert_eq!(win_to_utf8(&just_nl).unwrap(), "\n");
}

#[test]
fn transcode_rejects_unassigned_byte() {
    // 0x81 has no assignment in the legacy code page: a strict decode
    // is a hard failure and produces no output.
    let bytes = b"ok so far\x81rest\n".to_vec();
    let result = win_to_utf8(&bytes);
    assert!(result.is_err());
    assert_eq!(result.err().unwrap().kind, ErrorKind::Encoding);
}

#[test]
fn ragged_rows_are_a_format_error() {
    let bytes = b"a,b\n1,2\n3\n".to_vec();
    let error = load_csv_file("ragged.csv", &bytes).err().unwrap();
    assert_eq!(error.kind, ErrorKind::Format);
    assert_eq!(error.message(), "could not load CSV file \"ragged.csv\"");
}

#[test]
fn duplicate_header_names_are_a_format_error() {
    let bytes = b"a,a\n1,2\n".to_vec();
    let error = load_csv_file("dup.csv", &bytes).err().unwrap();
    assert_eq!(error.kind, ErrorKind::Format);
}

#[test]
fn multibyte_header_names_survive_decoding() {
    // A two-byte UTF-8 column name: a decoder that handed bytes through
    // unchanged would produce a different name.
    let bytes = "caf\u{E9},n\n1,2\n".as_bytes().to_vec();
    let table = load_csv_file("cafe.csv", &bytes).unwrap();
    assert_eq!(table.columns[0].name, "caf\u{E9}");
    assert_eq!(table.columns[0].name.chars().count(), 4);
}
