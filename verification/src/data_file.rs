//! Reading and writing data files as in-memory byte streams: CSV in
//! both directions with full verification, Parquet through the trusted
//! dataframe backend with re-validation of everything it returns.

use vstd::prelude::*;

use crate::csv;
use crate::error::{context_of, Error, ErrorKind, FileOp};
use crate::parquet;
use crate::schema::{table_schema, Schema};
use crate::table::{ColumnValues, Table, TableColumn, TableV};
use crate::text::{chars_of_str, string_from_chars, utf8_decode, utf8_to_string};

verus! {

/// The table a CSV byte stream encodes: its bytes decoded as UTF-8,
/// then parsed and typed.
pub open spec fn csv_file_table(bytes: Seq<u8>) -> Option<crate::table::TableV> {
    match utf8_decode(bytes) {
        None => None,
        Some(text) => csv::csv_table(text),
    }
}

/// Parses a CSV byte stream into a table. Fails with an encoding error
/// on bytes that are not UTF-8, and with a format error on text that is
/// not structurally valid CSV; either failure names the operation and
/// the path.
pub fn load_csv_file(path: &str, bytes: &Vec<u8>) -> (r: Result<Table, Error>)
    ensures
        match r {
            Ok(t) => csv_file_table(bytes@) == Some(t@) && t.wf(),
            Err(e) => {
                &&& csv_file_table(bytes@) is None
                &&& e.context@ == context_of(FileOp::LoadCsv, path@)
                &&& e.kind == (if utf8_decode(bytes@) is None {
                    ErrorKind::Encoding
                } else {
                    ErrorKind::Format
                })
                &&& (utf8_decode(bytes@) is None ==> (e.cause matches Some(c) && c@
                    == "invalid utf8 data in csv"@))
            },
        },
{
    match load_csv_as(FileOp::LoadCsv, path, bytes) {
        Ok(t) => Ok(t),
        Err(e) => Err(e),
    }
}

/// Parses a CSV byte stream under a caller-chosen operation context.
fn load_csv_as(op: FileOp, path: &str, bytes: &Vec<u8>) -> (r: Result<Table, Error>)
    ensures
        match r {
            Ok(t) => csv_file_table(bytes@) == Some(t@) && t.wf(),
            Err(e) => {
                &&& csv_file_table(bytes@) is None
                &&& e.context@ == context_of(op, path@)
                &&& e.kind == (if utf8_decode(bytes@) is None {
                    ErrorKind::Encoding
                } else {
                    ErrorKind::Format
                })
                &&& (utf8_decode(bytes@) is None ==> (e.cause matches Some(c) && c@
                    == "invalid utf8 data in csv"@))
            },
        },
{
    let text = match utf8_to_string(bytes) {
        Some(s) => s,
        None => {
            return Err(
                Error::in_context(
                    ErrorKind::Encoding,
                    op,
                    path,
                    String::from_str("invalid utf8 data in csv"),
                ),
            );
        },
    };
    let chars = chars_of_str(text.as_str());
    match csv::table_from_chars(&chars) {
        Some(t) => Ok(t),
        None => Err(
            Error::in_context(
                ErrorKind::Format,
                op,
                path,
                String::from_str("structurally invalid csv data"),
            ),
        ),
    }
}

/// Infers the schema of a CSV byte stream without keeping any row data.
/// It agrees with `load_csv_file` on names and types by construction;
/// failures carry the scan context instead.
pub fn scan_csv_file(path: &str, bytes: &Vec<u8>) -> (r: Result<Schema, Error>)
    ensures
        match r {
            Ok(s) => csv_file_table(bytes@) is Some && s@ == table_schema(
                csv_file_table(bytes@)->Some_0,
            ),
            Err(e) => {
                &&& csv_file_table(bytes@) is None
                &&& e.context@ == context_of(FileOp::ScanCsv, path@)
                &&& e.kind == (if utf8_decode(bytes@) is None {
                    ErrorKind::Encoding
                } else {
                    ErrorKind::Format
                })
            },
        },
{
    match load_csv_as(FileOp::ScanCsv, path, bytes) {
        Ok(t) => Ok(t.schema()),
        Err(e) => Err(e),
    }
}

/// Renders a table as CSV text. Rendering itself cannot fail; writing
/// the text out is the caller's I/O.
pub fn save_csv_file(table: &Table) -> (r: String)
    requires
        table.wf(),
    ensures
        r@ == csv::csv_text(table@),
{
    let chars = csv::save_csv_chars(table);
    string_from_chars(&chars)
}

/// Encodes a table as a Parquet byte stream through the dataframe
/// backend, with the fixed default compression. The bytes of a success
/// decode back to exactly the table's columns — names, types and
/// values — and every decoded column is complete; a failure of the
/// backend is reported as a format error with the path attached.
pub fn save_parquet_file(path: &str, table: &Table) -> (r: Result<Vec<u8>, Error>)
    requires
        table.wf(),
    ensures
        r matches Ok(b) ==> parquet::parquet_cols_of(b@) == Some(table@.cols)
            && parquet::parquet_plain(b@),
        r matches Err(e) ==> e.kind == ErrorKind::Format && e.context@ == context_of(
            FileOp::CreateParquet,
            path@,
        ),
{
    let mut cols: Vec<polars::prelude::Column> = Vec::new();
    let mut j: usize = 0;
    let w = table.columns.len();
    while j < w
        invariant
            j <= w,
            w == table@.cols.len(),
            table.wf(),
            cols@.len() == j,
            forall|k: int|
                0 <= k < j ==> parquet::col_view(#[trigger] cols@[k]) == table@.cols[k],
            forall|k: int| 0 <= k < j ==> parquet::col_plain(#[trigger] cols@[k]),
        decreases w - j,
    {
        let c = &table.columns[j];
        proof {
            assert(table.columns@[j as int]@ == table@.cols[j as int]);
            assert(table@.cols[j as int].data.values_valid());
        }
        let pc = match &c.values {
            ColumnValues::Text(v) => parquet::col_text(c.name.as_str(), v),
            ColumnValues::Integer(v) => parquet::col_int(c.name.as_str(), v),
            ColumnValues::Boolean(v) => parquet::col_bool(c.name.as_str(), v),
            ColumnValues::Date(v) => parquet::col_date(c.name.as_str(), v),
        };
        proof {
            assert(parquet::col_view(pc) == table@.cols[j as int]);
        }
        cols.push(pc);
        j += 1;
    }
    proof {
        assert(parquet::col_views(cols@) =~= table@.cols);
        assert(parquet::all_plain(cols@));
    }
    match parquet::write_parquet(cols) {
        Ok(bytes) => Ok(bytes),
        Err(cause) => Err(Error::in_context(ErrorKind::Format, FileOp::CreateParquet, path, cause)),
    }
}

/// Decodes a Parquet byte stream into a table through the dataframe
/// backend, re-validating everything: the supported column types, no
/// missing values, valid dates, distinct names and a shared row count.
/// A success is exactly the table the stream holds, and success is
/// owed whenever the stream is valid, complete and well formed.
pub fn load_parquet_file(path: &str, bytes: &Vec<u8>) -> (r: Result<Table, Error>)
    ensures
        r matches Ok(t) ==> t.wf() && parquet::parquet_cols_of(bytes@) == Some(t@.cols),
        (parquet::parquet_cols_of(bytes@) matches Some(cs) && parquet::parquet_plain(bytes@)
            && (TableV { cols: cs }).wf()) ==> (r matches Ok(t) && t@ == (TableV {
            cols: parquet::parquet_cols_of(bytes@)->Some_0,
        })),
        r matches Err(e) ==> e.kind == ErrorKind::Format && e.context@ == context_of(
            FileOp::LoadParquet,
            path@,
        ),
{
    load_parquet_as(FileOp::LoadParquet, path, bytes)
}

/// Decodes a Parquet byte stream under a caller-chosen context.
#[verifier::loop_isolation(false)]
fn load_parquet_as(op: FileOp, path: &str, bytes: &Vec<u8>) -> (r: Result<Table, Error>)
    ensures
        r matches Ok(t) ==> t.wf() && parquet::parquet_cols_of(bytes@) == Some(t@.cols),
        (parquet::parquet_cols_of(bytes@) matches Some(cs) && parquet::parquet_plain(bytes@)
            && (TableV { cols: cs }).wf()) ==> (r matches Ok(t) && t@ == (TableV {
            cols: parquet::parquet_cols_of(bytes@)->Some_0,
        })),
        r matches Err(e) ==> e.kind == ErrorKind::Format && e.context@ == context_of(op, path@),
{
    let pcols = match parquet::read_parquet(bytes) {
        Ok(cs) => cs,
        Err(cause) => {
            return Err(Error::in_context(ErrorKind::Format, op, path, cause));
        },
    };
    let ghost cs = parquet::col_views(pcols@);
    proof {
        assert(parquet::parquet_cols_of(bytes@) == Some(cs));
    }
    let mut columns: Vec<TableColumn> = Vec::new();
    let mut j: usize = 0;
    while j < pcols.len()
        invariant
            j <= pcols@.len(),
            columns@.len() == j,
            forall|k: int| 0 <= k < j ==> #[trigger] columns@[k]@ == cs[k],
        decreases pcols@.len() - j,
    {
        let pc = &pcols[j];
        proof {
            assert(parquet::col_view(pcols@[j as int]) == cs[j as int]);
            if parquet::parquet_plain(bytes@) {
                assert(parquet::col_plain(pcols@[j as int]));
            }
        }
        let name = parquet::col_name(pc);
        let values = match parquet::col_kind(pc) {
            Some(crate::table::ColumnType::Text) => match parquet::col_texts(pc) {
                Some(v) => ColumnValues::Text(v),
                None => {
                    proof {
                        lemma_kind_fixes_variant(cs[j as int].data);
                    }
                    return Err(missing_values_error(op, path));
                },
            },
            Some(crate::table::ColumnType::Integer) => match parquet::col_ints(pc) {
                Some(v) => ColumnValues::Integer(v),
                None => {
                    proof {
                        lemma_kind_fixes_variant(cs[j as int].data);
                    }
                    return Err(missing_values_error(op, path));
                },
            },
            Some(crate::table::ColumnType::Boolean) => match parquet::col_bools(pc) {
                Some(v) => ColumnValues::Boolean(v),
                None => {
                    proof {
                        lemma_kind_fixes_variant(cs[j as int].data);
                    }
                    return Err(missing_values_error(op, path));
                },
            },
            Some(crate::table::ColumnType::Date) => match parquet::col_dates(pc) {
                Some(raw) => match dates_from_parts(&raw) {
                    Some(v) => {
                        proof {
                            let ds = cs[j as int].data->Date_0;
                            assert(v@ =~= ds) by {
                                assert(forall|i: int|
                                    0 <= i < v@.len() ==> #[trigger] v@[i] == parquet::date_of_parts(
                                        raw@[i],
                                    ) && parquet::date_parts_in_range(raw@[i]));
                            }
                        }
                        ColumnValues::Date(v)
                    },
                    None => {
                        proof {
                            if parquet::parquet_plain(bytes@) && (TableV { cols: cs }).wf() {
                                let ds = cs[j as int].data->Date_0;
                                assert(cs[j as int].data.values_valid());
                                assert(forall|i: int|
                                    0 <= i < raw@.len() ==> parquet::date_parts_in_range(
                                        #[trigger] raw@[i],
                                    ) && parquet::date_of_parts(raw@[i]) == ds[i]
                                        && parquet::date_of_parts(raw@[i]).valid());
                            }
                        }
                        return Err(missing_values_error(op, path));
                    },
                },
                None => {
                    proof {
                        lemma_kind_fixes_variant(cs[j as int].data);
                    }
                    return Err(missing_values_error(op, path));
                },
            },
            None => {
                return Err(
                    Error::in_context(
                        ErrorKind::Format,
                        op,
                        path,
                        String::from_str("unsupported column type in parquet data"),
                    ),
                );
            },
        };
        let col = TableColumn { name, values };
        proof {
            lemma_kind_fixes_variant(cs[j as int].data);
            assert(col@ == cs[j as int]);
        }
        columns.push(col);
        j += 1;
    }
    let t = Table { columns };
    proof {
        assert(t@.cols =~= cs);
    }
    if t.check_wf() {
        Ok(t)
    } else {
        Err(
            Error::in_context(
                ErrorKind::Format,
                op,
                path,
                String::from_str("inconsistent columns in parquet data"),
            ),
        )
    }
}

/// A column model's kind determines its data variant.
proof fn lemma_kind_fixes_variant(data: crate::table::ColumnDataV)
    ensures
        data.kind() == crate::table::ColumnType::Text <==> data is Text,
        data.kind() == crate::table::ColumnType::Integer <==> data is Integer,
        data.kind() == crate::table::ColumnType::Boolean <==> data is Boolean,
        data.kind() == crate::table::ColumnType::Date <==> data is Date,
{
}

/// The error for a column whose values the backend could not hand over.
fn missing_values_error(op: FileOp, path: &str) -> (r: Error)
    ensures
        r.kind == ErrorKind::Format,
        r.context@ == context_of(op, path@),
{
    Error::in_context(ErrorKind::Format, op, path, String::from_str("unsupported values in parquet data"))
}

/// Validates year, month and day triples into calendar dates: succeeds
/// exactly when every triple is in range and a valid calendar date,
/// and then returns exactly those dates.
#[verifier::loop_isolation(false)]
fn dates_from_parts(raw: &Vec<(i32, u32, u32)>) -> (r: Option<Vec<crate::table::Date>>)
    ensures
        r matches Some(v) ==> v@.len() == raw@.len() && forall|i: int|
            0 <= i < raw@.len() ==> parquet::date_parts_in_range(#[trigger] raw@[i]) && v@[i]
                == parquet::date_of_parts(raw@[i]) && v@[i].valid(),
        (forall|i: int|
            0 <= i < raw@.len() ==> parquet::date_parts_in_range(#[trigger] raw@[i])
                && parquet::date_of_parts(raw@[i]).valid()) ==> r is Some,
{
    let mut out: Vec<crate::table::Date> = Vec::new();
    let mut i: usize = 0;
    while i < raw.len()
        invariant
            i <= raw@.len(),
            out@.len() == i,
            forall|k: int|
                0 <= k < i ==> parquet::date_parts_in_range(#[trigger] raw@[k]) && out@[k]
                    == parquet::date_of_parts(raw@[k]) && out@[k].valid(),
        decreases raw@.len() - i,
    {
        let (y, m, d) = raw[i];
        if y < 0 || y > 9999 || m < 1 || m > 12 || d < 1 || d > 31 {
            return None;
        }
        let date = crate::table::Date { year: y as u16, month: m as u8, day: d as u8 };
        if !date.is_valid() {
            return None;
        }
        out.push(date);
        i += 1;
    }
    Some(out)
}

/// Infers the schema of a Parquet byte stream: the names and supported
/// types of the columns it holds, without keeping any row data. The
/// listing a success reports is exactly the schema of the table the
/// stream encodes.
pub fn scan_parquet_file(path: &str, bytes: &Vec<u8>) -> (r: Result<Schema, Error>)
    ensures
        r matches Ok(s) ==> parquet::parquet_cols_of(bytes@) matches Some(cs) && s@
            == table_schema(TableV { cols: cs }),
        (parquet::parquet_cols_of(bytes@) matches Some(cs) && parquet::parquet_plain(bytes@)
            && (TableV { cols: cs }).wf()) ==> r is Ok,
        r matches Err(e) ==> e.kind == ErrorKind::Format && e.context@ == context_of(
            FileOp::ScanParquet,
            path@,
        ),
{
    match load_parquet_as(FileOp::ScanParquet, path, bytes) {
        Ok(t) => Ok(t.schema()),
        Err(e) => Err(e),
    }
}

} // verus!
