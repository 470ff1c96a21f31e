//! Trusted boundary to the columnar dataframe backend: building its
//! columns from plain values, encoding them as Parquet bytes, and
//! decoding Parquet bytes back into plain values.
//!
//! The backend's column is modeled by two names: `col_view`, the
//! column's content as this library's column model, and `col_plain`,
//! whether the column is of a supported type, holds no missing value,
//! and keeps every date within the modelable range. A Parquet byte
//! stream is modeled by `parquet_cols_of`, the columns it decodes to
//! (`None` when it is not a valid stream), and `parquet_plain`, the
//! same plainness of every decoded column. The writer's contract states
//! the format's fidelity: the bytes it produces decode back to exactly
//! the columns written.

use vstd::prelude::*;

use chrono::Datelike;
use polars::prelude::IntoColumn;
use polars::prelude::SerReader;

use crate::table::{ColumnDataV, ColumnType, ColumnV, Date};

verus! {

#[verifier::external_type_specification]
#[verifier::external_body]
pub struct ExPolarsColumn(polars::prelude::Column);

#[verifier::external_type_specification]
#[verifier::external_body]
pub struct ExPolarsError(polars::prelude::PolarsError);

/// The content of a backend column: its name and its values, as this
/// library's column model.
pub uninterp spec fn col_view(c: polars::prelude::Column) -> ColumnV;

/// Whether a backend column is plain: one of the four supported types,
/// no missing values, and every date within years 0 through 9999.
pub uninterp spec fn col_plain(c: polars::prelude::Column) -> bool;

/// The columns a Parquet byte stream decodes to, or `None` when the
/// stream is not a valid Parquet container.
pub uninterp spec fn parquet_cols_of(b: Seq<u8>) -> Option<Seq<ColumnV>>;

/// Whether every column of a Parquet byte stream is plain.
pub uninterp spec fn parquet_plain(b: Seq<u8>) -> bool;

/// The contents of a sequence of backend columns.
pub open spec fn col_views(cols: Seq<polars::prelude::Column>) -> Seq<ColumnV> {
    cols.map_values(|c: polars::prelude::Column| col_view(c))
}

/// Every column of the sequence is plain.
pub open spec fn all_plain(cols: Seq<polars::prelude::Column>) -> bool {
    forall|i: int| 0 <= i < cols.len() ==> col_plain(#[trigger] cols[i])
}

/// A date from a year, month and day triple as the backend hands them
/// out.
pub open spec fn date_of_parts(t: (i32, u32, u32)) -> Date {
    Date { year: t.0 as u16, month: t.1 as u8, day: t.2 as u8 }
}

/// The triple lies within the modelable date range.
pub open spec fn date_parts_in_range(t: (i32, u32, u32)) -> bool {
    0 <= t.0 <= 9999 && 1 <= t.1 <= 12 && 1 <= t.2 <= 31
}

/// Relies on `Column::new` over string values: the column holds the
/// given name and exactly the given values, complete.
#[verifier::external_body]
pub(crate) fn col_text(name: &str, vals: &Vec<String>) -> (r: polars::prelude::Column)
    ensures
        col_view(r) == (ColumnV { name: name@, data: ColumnDataV::Text(vals.deep_view()) }),
        col_plain(r),
{
    polars::prelude::Column::new(name.into(), vals.as_slice())
}

/// Relies on `Column::new` over 64-bit integer values.
#[verifier::external_body]
pub(crate) fn col_int(name: &str, vals: &Vec<i64>) -> (r: polars::prelude::Column)
    ensures
        col_view(r) == (ColumnV {
            name: name@,
            data: ColumnDataV::Integer(vals@.map_values(|x: i64| x as int)),
        }),
        col_plain(r),
{
    polars::prelude::Column::new(name.into(), vals.as_slice())
}

/// Relies on `Column::new` over boolean values.
#[verifier::external_body]
pub(crate) fn col_bool(name: &str, vals: &Vec<bool>) -> (r: polars::prelude::Column)
    ensures
        col_view(r) == (ColumnV { name: name@, data: ColumnDataV::Boolean(vals@) }),
        col_plain(r),
{
    polars::prelude::Column::new(name.into(), vals.as_slice())
}

/// Relies on `DateChunked::from_naive_date`; valid calendar dates are
/// representable as `chrono::NaiveDate`, so the column holds exactly
/// the given dates.
#[verifier::external_body]
pub(crate) fn col_date(name: &str, vals: &Vec<Date>) -> (r: polars::prelude::Column)
    requires
        forall|i: int| 0 <= i < vals@.len() ==> (#[trigger] vals@[i]).valid(),
    ensures
        col_view(r) == (ColumnV { name: name@, data: ColumnDataV::Date(vals@) }),
        col_plain(r),
{
    let dates: Vec<chrono::NaiveDate> = vals
        .iter()
        .map(|d| {
            chrono::NaiveDate::from_ymd_opt(d.year as i32, d.month as u32, d.day as u32).unwrap()
        })
        .collect();
    polars::prelude::DateChunked::from_naive_date(name.into(), dates).into_column()
}

/// Relies on `DataFrame::new_infer_height` and `ParquetWriter`: the
/// stream it writes (with the fixed default Snappy compression) is a
/// valid Parquet container that holds exactly the given columns —
/// Parquet is self-describing, and names, types and values are stored
/// as given — and columns written complete come back complete.
#[verifier::external_body]
pub(crate) fn write_parquet(cols: Vec<polars::prelude::Column>) -> (r: Result<Vec<u8>, String>)
    ensures
        r matches Ok(b) ==> parquet_cols_of(b@) == Some(col_views(cols@)) && (all_plain(cols@)
            ==> parquet_plain(b@)),
{
    let mut df = polars::prelude::DataFrame::new_infer_height(cols).map_err(
        |e| e.to_string(),
    )?;
    let mut buf: Vec<u8> = Vec::new();
    polars::prelude::ParquetWriter::new(&mut buf)
        .with_compression(polars::prelude::ParquetCompression::Snappy)
        .finish(&mut df)
        .map_err(|e| e.to_string())?;
    Ok(buf)
}

/// Relies on `ParquetReader`: decodes a valid Parquet byte stream into
/// exactly the columns it holds, and reports the decoder's failure text
/// on an invalid one.
#[verifier::external_body]
pub(crate) fn read_parquet(bytes: &Vec<u8>) -> (r: Result<Vec<polars::prelude::Column>, String>)
    ensures
        r is Ok <==> parquet_cols_of(bytes@) is Some,
        r matches Ok(cols) ==> parquet_cols_of(bytes@) == Some(col_views(cols@)) && (parquet_plain(
            bytes@,
        ) ==> all_plain(cols@)),
{
    polars::prelude::ParquetReader::new(std::io::Cursor::new(bytes.clone()))
        .finish()
        .map(|df| df.into_columns())
        .map_err(|e| e.to_string())
}

/// Relies on `Column::name`: the stored column name.
#[verifier::external_body]
pub(crate) fn col_name(c: &polars::prelude::Column) -> (r: String)
    ensures
        r@ == col_view(*c).name,
{
    c.name().to_string()
}

/// Relies on `Column::dtype`: tells the supported backend column types
/// apart; a plain column always has one.
#[verifier::external_body]
pub(crate) fn col_kind(c: &polars::prelude::Column) -> (r: Option<ColumnType>)
    ensures
        r matches Some(k) ==> col_view(*c).data.kind() == k,
        col_plain(*c) ==> r is Some,
{
    match c.dtype() {
        polars::prelude::DataType::String => Some(ColumnType::Text),
        polars::prelude::DataType::Int64 => Some(ColumnType::Integer),
        polars::prelude::DataType::Boolean => Some(ColumnType::Boolean),
        polars::prelude::DataType::Date => Some(ColumnType::Date),
        _ => None,
    }
}

/// Relies on `Column::str`: the values of a complete string column.
#[verifier::external_body]
pub(crate) fn col_texts(c: &polars::prelude::Column) -> (r: Option<Vec<String>>)
    ensures
        r matches Some(v) ==> col_view(*c).data == ColumnDataV::Text(v.deep_view()),
        col_plain(*c) && col_view(*c).data is Text ==> r is Some,
{
    let ca = c.str().ok()?;
    ca.iter().map(|o| o.map(|s| s.to_string())).collect()
}

/// Relies on `Column::i64`: the values of a complete integer column.
#[verifier::external_body]
pub(crate) fn col_ints(c: &polars::prelude::Column) -> (r: Option<Vec<i64>>)
    ensures
        r matches Some(v) ==> col_view(*c).data == ColumnDataV::Integer(
            v@.map_values(|x: i64| x as int),
        ),
        col_plain(*c) && col_view(*c).data is Integer ==> r is Some,
{
    let ca = c.i64().ok()?;
    ca.iter().collect()
}

/// Relies on `Column::bool`: the values of a complete boolean column.
#[verifier::external_body]
pub(crate) fn col_bools(c: &polars::prelude::Column) -> (r: Option<Vec<bool>>)
    ensures
        r matches Some(v) ==> col_view(*c).data == ColumnDataV::Boolean(v@),
        col_plain(*c) && col_view(*c).data is Boolean ==> r is Some,
{
    let ca = c.bool().ok()?;
    ca.iter().collect()
}

/// Relies on `DateChunked::as_date_iter`: the values of a complete date
/// column as year, month and day numbers; a plain date column stays in
/// the modelable range.
#[verifier::external_body]
pub(crate) fn col_dates(c: &polars::prelude::Column) -> (r: Option<Vec<(i32, u32, u32)>>)
    ensures
        r matches Some(v) ==> (col_view(*c).data matches ColumnDataV::Date(ds) && ds.len()
            == v@.len() && forall|i: int|
            0 <= i < v@.len() && date_parts_in_range(#[trigger] v@[i]) ==> ds[i] == date_of_parts(
                v@[i],
            )),
        col_plain(*c) && col_view(*c).data is Date ==> (r matches Some(v) && forall|i: int|
            0 <= i < v@.len() ==> date_parts_in_range(#[trigger] v@[i])),
{
    let ca = c.date().ok()?;
    ca.as_date_iter().map(|o| o.map(|nd| (nd.year(), nd.month(), nd.day()))).collect()
}

} // verus!
