//! Tabular data file toolkit: CSV parsing and rendering with schema
//! inference, Parquet conversion through a columnar dataframe backend,
//! and a strict legacy-code-page (Windows-1252) to UTF-8 transcoder.

use vstd::prelude::*;

pub mod error;
pub mod table;
pub mod text;
pub mod transcode;
pub mod value;
pub mod commands;
pub mod csv;
pub mod data_file;
pub mod laws;
pub mod parquet;
pub mod schema;

verus! {

/// Extracts the trailing characters of a string: the last `n + 1`
/// characters, or the whole string when it is shorter than that.
pub fn slice_from_end(text: &String, n: usize) -> (r: Option<&str>)
    ensures
        r is Some,
        r->Some_0@ == text@.skip(
            if text@.len() > n + 1 { text@.len() - n - 1 } else { 0 },
        ),
{
    let len = text.as_str().unicode_len();
    if len <= n {
        Some(text.as_str())
    } else {
        Some(text.as_str().substring_char(len - n - 1, len))
    }
}

} // verus!
