//! The command layer: extension validation before any I/O, derivation
//! of the sibling output path by swapping the file extension, and the
//! pure compute core of each command over in-memory byte streams.

use vstd::prelude::*;

use crate::data_file;
use crate::error::{context_of, Error, ErrorKind, FileOp};
use crate::table::TableV;
use crate::text::{chars_of_str, string_from_chars, utf8_decode};

verus! {

/// Where the extension of a path begins: the position of the dot that
/// separates the file name from its extension, if the final path
/// component has one beyond its first character.
pub open spec fn ext_dot(p: Seq<char>) -> Option<int>
    decreases p.len(),
{
    if p.len() == 0 {
        None
    } else if p.last() == '/' {
        None
    } else if p.last() == '.' {
        if p.len() >= 2 && p[p.len() - 2] != '/' {
            Some(p.len() - 1)
        } else {
            None
        }
    } else {
        ext_dot(p.drop_last())
    }
}

/// The extension of a path: what follows the extension dot.
pub open spec fn extension_of(p: Seq<char>) -> Option<Seq<char>> {
    match ext_dot(p) {
        None => None,
        Some(i) => Some(p.skip(i + 1)),
    }
}

/// The path with its extension replaced (or appended) by `ext`.
pub open spec fn with_extension_text(p: Seq<char>, ext: Seq<char>) -> Seq<char> {
    let stem = match ext_dot(p) {
        None => p,
        Some(i) => p.take(i),
    };
    if ext.len() == 0 {
        stem
    } else {
        stem + seq!['.'] + ext
    }
}

/// Finds the extension dot of a path held as characters.
#[verifier::loop_isolation(false)]
fn ext_dot_at(p: &Vec<char>) -> (r: Option<usize>)
    ensures
        match r {
            Some(i) => i < p@.len() && ext_dot(p@) == Some(i as int),
            None => ext_dot(p@) is None,
        },
{
    let mut j: usize = p.len();
    proof {
        assert(p@.take(p@.len() as int) =~= p@);
    }
    while j > 0
        invariant
            j <= p@.len(),
            ext_dot(p@) == ext_dot(p@.take(j as int)),
        decreases j,
    {
        let c = p[j - 1];
        proof {
            assert(p@.take(j as int).last() == p@[j - 1]);
            assert(p@.take(j as int).drop_last() =~= p@.take(j - 1));
        }
        if c == '/' {
            return None;
        }
        if c == '.' {
            if j >= 2 && p[j - 2] != '/' {
                proof {
                    assert(p@.take(j as int)[j - 2] == p@[j - 2]);
                }
                return Some(j - 1);
            }
            return None;
        }
        j -= 1;
    }
    proof {
        assert(p@.take(0) =~= Seq::<char>::empty());
    }
    None
}

/// Whether the path carries exactly the extension `csv`.
pub fn has_csv_extension(path: &str) -> (r: bool)
    ensures
        r == (extension_of(path@) == Some("csv"@)),
{
    let p = chars_of_str(path);
    proof {
        reveal_strlit("csv");
    }
    match ext_dot_at(&p) {
        None => false,
        Some(i) => {
            let n = p.len();
            if n - i - 1 != 3 {
                proof {
                    assert(p@.skip(i + 1).len() != 3);
                }
                false
            } else {
                let ok = p[i + 1] == 'c' && p[i + 2] == 's' && p[i + 3] == 'v';
                proof {
                    if ok {
                        assert(p@.skip(i + 1) =~= "csv"@);
                    } else {
                        assert(p@.skip(i + 1) != "csv"@) by {
                            if p@.skip(i + 1) == "csv"@ {
                                assert(p@.skip(i + 1)[0] == 'c');
                                assert(p@.skip(i + 1)[1] == 's');
                                assert(p@.skip(i + 1)[2] == 'v');
                            }
                        }
                    }
                }
                ok
            }
        },
    }
}

/// Derives the sibling output path: the input path with its extension
/// replaced by `ext` (or `ext` appended when it has none).
pub fn with_extension(path: &str, ext: &str) -> (r: String)
    ensures
        r@ == with_extension_text(path@, ext@),
{
    let p = chars_of_str(path);
    let stem_len = match ext_dot_at(&p) {
        None => p.len(),
        Some(i) => i,
    };
    let mut out: Vec<char> = Vec::new();
    let mut k: usize = 0;
    while k < stem_len
        invariant
            k <= stem_len <= p@.len(),
            out@ == p@.take(stem_len as int).take(k as int),
        decreases stem_len - k,
    {
        out.push(p[k]);
        proof {
            assert(p@.take(stem_len as int).take(k + 1) =~= p@.take(stem_len as int).take(
                k as int,
            ).push(p@[k as int]));
        }
        k += 1;
    }
    proof {
        assert(p@.take(stem_len as int).take(stem_len as int) =~= p@.take(stem_len as int));
        assert(ext_dot(p@) is None ==> p@.take(stem_len as int) =~= p@);
    }
    let e = chars_of_str(ext);
    if e.len() == 0 {
        return string_from_chars(&out);
    }
    out.push('.');
    let mut k: usize = 0;
    let ghost stem = out@.drop_last();
    while k < e.len()
        invariant
            k <= e@.len(),
            out@ == stem + seq!['.'] + e@.take(k as int),
        decreases e@.len() - k,
    {
        out.push(e[k]);
        proof {
            assert(stem + seq!['.'] + e@.take(k + 1) =~= (stem + seq!['.'] + e@.take(
                k as int,
            )).push(e@[k as int]));
        }
        k += 1;
    }
    proof {
        assert(e@.take(e@.len() as int) =~= e@);
        assert(out@ =~= with_extension_text(path@, ext@));
    }
    string_from_chars(&out)
}

/// The message raised when a conversion is asked of a path without the
/// `.csv` extension and without the override flag.
pub open spec fn convert_extension_message() -> Seq<char> {
    "File extension is not '.csv'! Use --force parameter to convert anyway."@
}

/// The message raised when a schema scan is asked of such a path.
pub open spec fn scan_extension_message() -> Seq<char> {
    "File extension is not '.csv'! Use --force parameter to scan anyway."@
}

/// The extension guard of the CSV-to-Parquet conversion: a path without
/// the `.csv` extension is rejected before any I/O, unless the override
/// flag is set.
pub fn validate_convert_path(path: &str, force: bool) -> (r: Result<(), Error>)
    ensures
        r is Ok <==> force || extension_of(path@) == Some("csv"@),
        r matches Err(e) ==> e.kind == ErrorKind::Validation && e.context@
            == convert_extension_message(),
{
    if has_csv_extension(path) || force {
        Ok(())
    } else {
        Err(
            Error::validation(
                String::from_str(
                    "File extension is not '.csv'! Use --force parameter to convert anyway.",
                ),
            ),
        )
    }
}

/// The extension guard of the CSV schema scan.
pub fn validate_scan_path(path: &str, force: bool) -> (r: Result<(), Error>)
    ensures
        r is Ok <==> force || extension_of(path@) == Some("csv"@),
        r matches Err(e) ==> e.kind == ErrorKind::Validation && e.context@
            == scan_extension_message(),
{
    if has_csv_extension(path) || force {
        Ok(())
    } else {
        Err(
            Error::validation(
                String::from_str(
                    "File extension is not '.csv'! Use --force parameter to scan anyway.",
                ),
            ),
        )
    }
}

/// Converts CSV file content into Parquet file content: the compute
/// core of the CSV-to-Parquet command, between the caller's read and
/// write. The bytes of a success decode back to exactly the columns of
/// the table the CSV encodes; an encode failure names the derived
/// output path.
pub fn csv_to_parquet(path: &str, bytes: &Vec<u8>) -> (r: Result<Vec<u8>, Error>)
    ensures
        r matches Ok(b) ==> (data_file::csv_file_table(bytes@) matches Some(tv)
            && crate::parquet::parquet_cols_of(b@) == Some(tv.cols)
            && crate::parquet::parquet_plain(b@)),
        r matches Err(e) ==> e.context@ == context_of(FileOp::LoadCsv, path@) || e.context@
            == context_of(FileOp::CreateParquet, with_extension_text(path@, "parquet"@)),
        data_file::csv_file_table(bytes@) is None ==> (r matches Err(e) && e.context@
            == context_of(FileOp::LoadCsv, path@) && e.kind == (if utf8_decode(bytes@) is None {
            ErrorKind::Encoding
        } else {
            ErrorKind::Format
        })),
{
    let table = match data_file::load_csv_file(path, bytes) {
        Ok(t) => t,
        Err(e) => {
            return Err(e);
        },
    };
    let out_path = with_extension(path, "parquet");
    data_file::save_parquet_file(out_path.as_str(), &table)
}

/// Converts Parquet file content into CSV file content: the compute
/// core of the Parquet-to-CSV command. The text of a success is the
/// exact CSV rendering of the table the byte stream holds, and success
/// is owed whenever the stream is valid, complete and well formed.
pub fn parquet_to_csv(path: &str, bytes: &Vec<u8>) -> (r: Result<String, Error>)
    ensures
        r matches Ok(s) ==> (crate::parquet::parquet_cols_of(bytes@) matches Some(cs) && (TableV {
            cols: cs,
        }).wf() && s@ == crate::csv::csv_text(TableV { cols: cs })),
        (crate::parquet::parquet_cols_of(bytes@) matches Some(cs)
            && crate::parquet::parquet_plain(bytes@) && (TableV { cols: cs }).wf()) ==> r is Ok,
        r matches Err(e) ==> e.kind == ErrorKind::Format && e.context@ == context_of(
            FileOp::LoadParquet,
            path@,
        ),
{
    let table = match data_file::load_parquet_file(path, bytes) {
        Ok(t) => t,
        Err(e) => {
            return Err(e);
        },
    };
    let text = data_file::save_csv_file(&table);
    Ok(text)
}

/// Reports the inferred schema of CSV file content as text: a header
/// line, then one `<name>: <Type>` line per column.
pub fn csv_schema(path: &str, bytes: &Vec<u8>) -> (r: Result<String, Error>)
    ensures
        match r {
            Ok(s) => data_file::csv_file_table(bytes@) matches Some(tv) && s@
                == crate::schema::schema_listing(crate::schema::table_schema(tv)),
            Err(e) => data_file::csv_file_table(bytes@) is None && e.context@ == context_of(
                FileOp::ScanCsv,
                path@,
            ) && e.kind == (if utf8_decode(bytes@) is None {
                ErrorKind::Encoding
            } else {
                ErrorKind::Format
            }),
        },
{
    match data_file::scan_csv_file(path, bytes) {
        Ok(schema) => Ok(schema.listing()),
        Err(e) => Err(e),
    }
}

/// Reports the schema of Parquet file content as text, in the same
/// form: the exact listing of the schema of the table the byte stream
/// holds.
pub fn parquet_schema(path: &str, bytes: &Vec<u8>) -> (r: Result<String, Error>)
    ensures
        r matches Ok(s) ==> (crate::parquet::parquet_cols_of(bytes@) matches Some(cs) && s@
            == crate::schema::schema_listing(crate::schema::table_schema(TableV { cols: cs }))),
        (crate::parquet::parquet_cols_of(bytes@) matches Some(cs)
            && crate::parquet::parquet_plain(bytes@) && (TableV { cols: cs }).wf()) ==> r is Ok,
        r matches Err(e) ==> e.kind == ErrorKind::Format && e.context@ == context_of(
            FileOp::ScanParquet,
            path@,
        ),
{
    match data_file::scan_parquet_file(path, bytes) {
        Ok(schema) => Ok(schema.listing()),
        Err(e) => Err(e),
    }
}

/// Transcodes legacy-encoded file content into UTF-8 text, strictly:
/// see `transcode::win_to_utf8`, which this command calls directly.
pub fn win_to_utf8(bytes: &Vec<u8>) -> (r: Result<String, Error>)
    ensures
        match r {
            Ok(s) => crate::transcode::all_win1252_defined(bytes@) && s@
                == crate::transcode::transcode_text(bytes@),
            Err(e) => !crate::transcode::all_win1252_defined(bytes@) && e.kind
                == ErrorKind::Encoding,
        },
{
    crate::transcode::win_to_utf8(bytes)
}

} // verus!
