//! The laws of the conversion library: rendering a well-formed table
//! as CSV and parsing the text back yields the same table; the schema
//! a scan reports is the schema of the table a load returns; and bytes
//! saved in the columnar format load back as the saved table, also
//! through the full conversion round trip.

use vstd::prelude::*;

use crate::csv::{
    all_bool_like, all_date_like, all_int_like, cell_text, column_data_of, csv_fold_from, csv_init,
    csv_records, csv_step, csv_table, csv_text, escape_one, escaped, field_text, header_fields,
    infer_kind, needs_quote, raw_column, row_fields, row_text, rows_text, table_of_records,
    CsvMode, CsvStateV,
};
use crate::data_file::csv_file_table;
use crate::schema::table_schema;
use crate::table::{ColumnDataV, TableV};
use crate::value::{
    bool_like, date_like, int_like, lemma_bool_text_props, lemma_date_text_round_trip,
    lemma_int_text_round_trip,
};

verus! {

/// Folding over concatenated text folds over each part in turn.
proof fn lemma_fold_from_append(st: CsvStateV, a: Seq<char>, b: Seq<char>)
    ensures
        csv_fold_from(st, a + b) == (match csv_fold_from(st, a) {
            None => None::<CsvStateV>,
            Some(m) => csv_fold_from(m, b),
        }),
    decreases b.len(),
{
    if b.len() == 0 {
        assert(a + b =~= a);
    } else {
        assert((a + b).drop_last() =~= a + b.drop_last());
        assert((a + b).last() == b.last());
        lemma_fold_from_append(st, a, b.drop_last());
    }
}

/// Folding a single character is one step.
proof fn lemma_fold_one(st: CsvStateV, c: char)
    ensures
        csv_fold_from(st, seq![c]) == csv_step(st, c),
{
    let s = seq![c];
    assert(s.len() == 1);
    assert(s.last() == c);
    assert(s.drop_last() =~= Seq::<char>::empty());
    assert(csv_fold_from(st, s.drop_last()) == Some(st));
    assert(csv_fold_from(st, s) == csv_step(st, s.last()));
}

/// The reader modes in which a separator or a line feed ends the
/// pending field as it stands: a field or record boundary, an unquoted
/// field body, or a just-closed quoted field.
pub open spec fn committing_mode(m: CsvMode) -> bool {
    m == CsvMode::RecordStart || m == CsvMode::FieldStart || m == CsvMode::Unquoted || m
        == CsvMode::QuoteSeen
}

/// Folding an unquoted field body appends its characters to the current
/// field.
proof fn lemma_fold_unquoted(st: CsvStateV, f: Seq<char>)
    requires
        st.mode == CsvMode::RecordStart || st.mode == CsvMode::FieldStart || st.mode
            == CsvMode::Unquoted,
        forall|i: int|
            0 <= i < f.len() ==> f[i] != ',' && f[i] != '"' && f[i] != '\n' && f[i] != '\r',
    ensures
        csv_fold_from(st, f) == Some(
            CsvStateV {
                cur: st.cur + f,
                mode: if f.len() == 0 {
                    st.mode
                } else {
                    CsvMode::Unquoted
                },
                ..st
            },
        ),
    decreases f.len(),
{
    if f.len() == 0 {
        assert(st.cur + f =~= st.cur);
        assert(CsvStateV { cur: st.cur + f, mode: st.mode, ..st } == st);
    } else {
        lemma_fold_unquoted(st, f.drop_last());
        let c = f.last();
        assert(c != ',' && c != '"' && c != '\n' && c != '\r');
        assert(st.cur + f =~= (st.cur + f.drop_last()).push(c));
    }
}

/// Folding an escaped field body inside quotes appends the original
/// characters to the current field and stays inside the quotes.
proof fn lemma_fold_escaped(st: CsvStateV, f: Seq<char>)
    requires
        st.mode == CsvMode::Quoted,
    ensures
        csv_fold_from(st, escaped(f)) == Some(
            CsvStateV { cur: st.cur + f, mode: CsvMode::Quoted, ..st },
        ),
    decreases f.len(),
{
    if f.len() == 0 {
        assert(escaped(f) == Seq::<char>::empty());
        assert(st.cur + f =~= st.cur);
        assert(CsvStateV { cur: st.cur + f, mode: CsvMode::Quoted, ..st } == st);
    } else {
        let head = escape_one(f[0]);
        let st1 = CsvStateV { cur: st.cur.push(f[0]), mode: CsvMode::Quoted, ..st };
        assert(csv_fold_from(st, head) == Some(st1)) by {
            if f[0] == '"' {
                assert(head == seq!['"', '"']);
                assert(head.drop_last() =~= seq!['"']);
                lemma_fold_one(st, '"');
                let stq = CsvStateV { mode: CsvMode::QuoteSeen, ..st };
                assert(csv_fold_from(st, seq!['"']) == Some(stq));
                assert(head.last() == '"');
                assert(csv_fold_from(st, head) == csv_step(stq, '"'));
            } else {
                assert(head == seq![f[0]]);
                lemma_fold_one(st, f[0]);
            }
        }
        lemma_fold_from_append(st, head, escaped(f.skip(1)));
        assert(escaped(f) == head + escaped(f.skip(1)));
        lemma_fold_escaped(st1, f.skip(1));
        assert(st1.cur + f.skip(1) =~= st.cur + f);
    }
}

/// Folding a rendered field from a field boundary leaves the original
/// field characters pending, in a mode that accepts the next boundary.
proof fn lemma_fold_field(st: CsvStateV, f: Seq<char>)
    requires
        st.mode == CsvMode::RecordStart || st.mode == CsvMode::FieldStart,
        st.cur == Seq::<char>::empty(),
    ensures
        csv_fold_from(st, field_text(f)) matches Some(st2) && st2.records == st.records
            && st2.fields == st.fields && st2.cur == f && committing_mode(st2.mode),
{
    if needs_quote(f) {
        let open = seq!['"'];
        let st1 = CsvStateV { mode: CsvMode::Quoted, ..st };
        assert(csv_fold_from(st, open) == Some(st1)) by {
            lemma_fold_one(st, '"');
        }
        lemma_fold_from_append(st, open, escaped(f) + seq!['"']);
        assert(field_text(f) =~= open + (escaped(f) + seq!['"']));
        lemma_fold_from_append(st1, escaped(f), seq!['"']);
        lemma_fold_escaped(st1, f);
        let st2 = CsvStateV { cur: st1.cur + f, mode: CsvMode::Quoted, ..st1 };
        lemma_fold_one(st2, '"');
        assert(csv_fold_from(st2, seq!['"']) == Some(
            CsvStateV { mode: CsvMode::QuoteSeen, ..st2 },
        ));
        assert(st1.cur + f =~= f);
    } else {
        assert(forall|i: int|
            0 <= i < f.len() ==> f[i] != ',' && f[i] != '"' && f[i] != '\n' && f[i] != '\r') by {
            assert forall|i: int| 0 <= i < f.len() implies f[i] != ',' && f[i] != '"' && f[i]
                != '\n' && f[i] != '\r' by {
                if f[i] == ',' || f[i] == '"' || f[i] == '\n' || f[i] == '\r' {
                    assert(f.contains(f[i]));
                }
            }
        }
        lemma_fold_unquoted(st, f);
        assert(st.cur + f =~= f);
    }
}

/// Folding a rendered record body from a record boundary leaves its
/// last field pending and the earlier fields committed.
proof fn lemma_fold_row_inner(st: CsvStateV, fields: Seq<Seq<char>>)
    requires
        st.mode == CsvMode::RecordStart || st.mode == CsvMode::FieldStart,
        st.cur == Seq::<char>::empty(),
        fields.len() >= 1,
    ensures
        csv_fold_from(st, row_text(fields)) matches Some(st3) && st3.records == st.records
            && st3.fields == st.fields + fields.drop_last() && st3.cur == fields.last()
            && committing_mode(st3.mode),
    decreases fields.len(),
{
    if fields.len() == 1 {
        assert(row_text(fields) == field_text(fields[0]));
        lemma_fold_field(st, fields[0]);
        assert(fields.drop_last() =~= Seq::<Seq<char>>::empty());
        assert(st.fields + fields.drop_last() =~= st.fields);
    } else {
        let init = fields.drop_last();
        assert(row_text(fields) == row_text(init) + seq![','] + field_text(fields.last()));
        assert(row_text(fields) =~= row_text(init) + (seq![','] + field_text(fields.last())));
        lemma_fold_from_append(st, row_text(init), seq![','] + field_text(fields.last()));
        lemma_fold_row_inner(st, init);
        let st3 = csv_fold_from(st, row_text(init))->Some_0;
        lemma_fold_from_append(st3, seq![','], field_text(fields.last()));
        let st4 = CsvStateV {
            fields: st3.fields.push(st3.cur),
            cur: Seq::empty(),
            mode: CsvMode::FieldStart,
            ..st3
        };
        assert(csv_fold_from(st3, seq![',']) == Some(st4)) by {
            lemma_fold_one(st3, ',');
        }
        lemma_fold_field(st4, fields.last());
        assert((st.fields + init.drop_last()).push(init.last()) =~= st.fields
            + fields.drop_last());
    }
}

/// Folding a full rendered record commits it and returns to a record
/// boundary.
proof fn lemma_fold_row(st: CsvStateV, fields: Seq<Seq<char>>)
    requires
        st.mode == CsvMode::RecordStart || st.mode == CsvMode::FieldStart,
        st.cur == Seq::<char>::empty(),
        st.fields == Seq::<Seq<char>>::empty(),
        fields.len() >= 1,
    ensures
        csv_fold_from(st, row_text(fields) + seq!['\n']) == Some(
            CsvStateV {
                records: st.records.push(fields),
                fields: Seq::empty(),
                cur: Seq::empty(),
                mode: CsvMode::RecordStart,
            },
        ),
{
    lemma_fold_from_append(st, row_text(fields), seq!['\n']);
    lemma_fold_row_inner(st, fields);
    let st3 = csv_fold_from(st, row_text(fields))->Some_0;
    lemma_fold_one(st3, '\n');
    assert(st3.fields.push(st3.cur) =~= fields);
}

/// The rendered data rows of a table, as parsed records.
pub open spec fn data_records(tv: TableV) -> Seq<Seq<Seq<char>>> {
    Seq::new(tv.rows(), |i: int| row_fields(tv, i))
}

/// Folding all rendered data rows from row `i` commits one record per
/// row.
proof fn lemma_fold_rows(st: CsvStateV, tv: TableV, i: int)
    requires
        st.mode == CsvMode::RecordStart,
        st.cur == Seq::<char>::empty(),
        st.fields == Seq::<Seq<char>>::empty(),
        tv.cols.len() >= 1,
        0 <= i <= tv.rows(),
    ensures
        csv_fold_from(st, rows_text(tv, i)) == Some(
            CsvStateV {
                records: st.records + Seq::new((tv.rows() - i) as nat, |k: int| row_fields(tv, i + k)),
                fields: Seq::empty(),
                cur: Seq::empty(),
                mode: CsvMode::RecordStart,
            },
        ),
    decreases tv.rows() - i,
{
    if i == tv.rows() {
        assert(rows_text(tv, i) == Seq::<char>::empty());
        assert(st.records + Seq::new(0nat, |k: int| row_fields(tv, i + k)) =~= st.records);
        assert(csv_fold_from(st, rows_text(tv, i)) == Some(st));
        assert(Some(st) == Some(
            CsvStateV {
                records: st.records + Seq::new((tv.rows() - i) as nat, |k: int| row_fields(tv, i + k)),
                fields: Seq::empty(),
                cur: Seq::empty(),
                mode: CsvMode::RecordStart,
            },
        ));
    } else {
        assert(rows_text(tv, i) == row_text(row_fields(tv, i)) + seq!['\n'] + rows_text(tv, i + 1));
        assert(rows_text(tv, i) =~= (row_text(row_fields(tv, i)) + seq!['\n']) + rows_text(
            tv,
            i + 1,
        ));
        lemma_fold_from_append(st, row_text(row_fields(tv, i)) + seq!['\n'], rows_text(tv, i + 1));
        assert(row_fields(tv, i).len() == tv.cols.len());
        lemma_fold_row(st, row_fields(tv, i));
        let st2 = CsvStateV {
            records: st.records.push(row_fields(tv, i)),
            fields: Seq::empty(),
            cur: Seq::empty(),
            mode: CsvMode::RecordStart,
        };
        lemma_fold_rows(st2, tv, i + 1);
        assert(st2.records + Seq::new((tv.rows() - (i + 1)) as nat, |k: int| row_fields(tv, i + 1 + k)) =~= st.records
            + Seq::new((tv.rows() - i) as nat, |k: int| row_fields(tv, i + k)));
    }
}

/// The records parsed back out of a rendered table: the header record,
/// then one record per data row.
proof fn lemma_csv_text_records(tv: TableV)
    requires
        tv.cols.len() >= 1,
    ensures
        csv_records(csv_text(tv)) == Some(seq![header_fields(tv)] + data_records(tv)),
{
    let hdr = header_fields(tv);
    assert(csv_text(tv) == row_text(hdr) + seq!['\n'] + rows_text(tv, 0));
    assert(csv_text(tv) =~= (row_text(hdr) + seq!['\n']) + rows_text(tv, 0));
    let st0 = csv_init();
    lemma_fold_from_append(st0, row_text(hdr) + seq!['\n'], rows_text(tv, 0));
    assert(hdr.len() == tv.cols.len());
    lemma_fold_row(st0, hdr);
    let st1 = CsvStateV {
        records: st0.records.push(hdr),
        fields: Seq::empty(),
        cur: Seq::empty(),
        mode: CsvMode::RecordStart,
    };
    lemma_fold_rows(st1, tv, 0);
    assert(st1.records + Seq::new((tv.rows() - 0) as nat, |k: int| row_fields(tv, 0 + k)) =~= seq![hdr]
        + data_records(tv));
    assert(Seq::new(tv.rows(), |k: int| row_fields(tv, 0 + k)) =~= data_records(tv));
}

/// Every text column of the table holds values that do not all read as
/// one of the narrower types, so its inferred type stays text.
pub open spec fn text_columns_mixed(tv: TableV) -> bool {
    forall|j: int|
        0 <= j < tv.cols.len() ==> ((#[trigger] tv.cols[j]).data matches ColumnDataV::Text(v)
            ==> !all_int_like(v) && !all_bool_like(v) && !all_date_like(v))
}

/// Round trip: rendering a well-formed table as CSV text and parsing
/// that text back yields exactly the same table — the same column
/// names, in the same order, with the same inferred types and the same
/// values. The table needs at least one column and one data row, and no
/// text column whose values all read as integers, booleans or dates
/// (such a column would come back at the narrower type).
pub proof fn lemma_csv_round_trip(tv: TableV)
    requires
        tv.wf(),
        tv.cols.len() >= 1,
        tv.rows() >= 1,
        text_columns_mixed(tv),
    ensures
        csv_table(csv_text(tv)) == Some(tv),
{
    lemma_csv_text_records(tv);
    let hdr = header_fields(tv);
    let rs = seq![hdr] + data_records(tv);
    assert(rs[0] =~= hdr);
    let rows = rs.skip(1);
    assert(rows =~= data_records(tv));
    assert(forall|i: int|
        0 <= i < rows.len() ==> (#[trigger] rows[i]).len() == hdr.len());
    assert(!(exists|i: int| 0 <= i < rows.len() && (#[trigger] rows[i]).len() != hdr.len()));
    assert forall|i: int, j: int| 0 <= i < j < hdr.len() implies hdr[i] != hdr[j] by {
        assert(tv.cols[i].name != tv.cols[j].name);
    }
    assert(!(exists|i: int, j: int| 0 <= i < j < hdr.len() && hdr[i] == hdr[j]));
    let built = table_of_records(rs)->Some_0;
    assert forall|j: int| 0 <= j < hdr.len() implies built.cols[j] == tv.cols[j] by {
        lemma_column_round_trip(tv, j);
    }
    assert(built.cols =~= tv.cols);
    assert(built == tv);
}

/// One column of a rendered table parses back to itself.
proof fn lemma_column_round_trip(tv: TableV, j: int)
    requires
        tv.wf(),
        tv.cols.len() >= 1,
        tv.rows() >= 1,
        text_columns_mixed(tv),
        0 <= j < tv.cols.len(),
    ensures
        table_of_records(seq![header_fields(tv)] + data_records(tv)) matches Some(built)
            && built.cols[j] == tv.cols[j],
{
    let hdr = header_fields(tv);
    let rs = seq![hdr] + data_records(tv);
    let rows = rs.skip(1);
    assert(rows =~= data_records(tv));
    assert forall|i: int, j2: int| 0 <= i < j2 < hdr.len() implies hdr[i] != hdr[j2] by {
        assert(tv.cols[i].name != tv.cols[j2].name);
    }
    let raw = raw_column(rows, j);
    let n = tv.rows() as int;
    assert(raw.len() == n);
    assert(tv.cols[j].data.rows() == tv.rows());
    assert(forall|i: int| 0 <= i < n ==> #[trigger] raw[i] == cell_text(tv.cols[j].data, i));
    assert(tv.cols[j].data.values_valid());
    match tv.cols[j].data {
        ColumnDataV::Integer(v) => {
            assert forall|i: int| 0 <= i < n implies int_like(#[trigger] raw[i]) && crate::value::int_of_text(raw[i]) == v[i] by {
                lemma_int_text_round_trip(v[i]);
            }
            assert(all_int_like(raw));
            assert(infer_kind(raw) == crate::table::ColumnType::Integer);
            assert(Seq::new(raw.len(), |i: int| crate::value::int_of_text(raw[i])) =~= v);
        },
        ColumnDataV::Boolean(v) => {
            assert forall|i: int| 0 <= i < n implies bool_like(#[trigger] raw[i])
                && crate::value::bool_of_text(raw[i]) == v[i] && !int_like(raw[i]) by {
                lemma_bool_text_props(v[i]);
            }
            assert(!int_like(raw[0]));
            assert(!all_int_like(raw));
            assert(all_bool_like(raw));
            assert(infer_kind(raw) == crate::table::ColumnType::Boolean);
            assert(Seq::new(raw.len(), |i: int| crate::value::bool_of_text(raw[i])) =~= v);
        },
        ColumnDataV::Date(v) => {
            assert forall|i: int| 0 <= i < n implies date_like(#[trigger] raw[i])
                && crate::value::date_of_text(raw[i]) == v[i] && !int_like(raw[i]) && !bool_like(
                raw[i],
            ) by {
                assert(v[i].valid());
                lemma_date_text_round_trip(v[i]);
                lemma_bool_text_props(true);
                lemma_bool_text_props(false);
            }
            assert(!all_int_like(raw));
            assert(!all_bool_like(raw));
            assert(all_date_like(raw));
            assert(infer_kind(raw) == crate::table::ColumnType::Date);
            assert(Seq::new(raw.len(), |i: int| crate::value::date_of_text(raw[i])) =~= v);
        },
        ColumnDataV::Text(v) => {
            assert(raw =~= v);
            assert(!all_int_like(v) && !all_bool_like(v) && !all_date_like(v));
            assert(infer_kind(raw) == crate::table::ColumnType::Text);
        },
    }
    assert(column_data_of(raw) == tv.cols[j].data);
    assert(table_of_records(rs)->Some_0.cols[j] == column_model(hdr[j], column_data_of(raw)));
    assert(hdr[j] == tv.cols[j].name);
}

/// A column model from a name and data.
pub open spec fn column_model(name: Seq<char>, data: ColumnDataV) -> crate::table::ColumnV {
    crate::table::ColumnV { name, data }
}

/// Schema fidelity: a CSV scan and a CSV load of the same bytes agree
/// on the inferred column names and types. `loaded` is the view of the
/// table that `load_csv_file` returned, and `scanned` the view of the
/// schema that `scan_csv_file` returned, each as its contract states
/// it; the scanned schema is then exactly the loaded table's schema.
/// Both are derived from the one table the bytes encode, so agreement
/// is by construction.
pub proof fn lemma_scan_load_schemas_agree(
    bytes: Seq<u8>,
    loaded: TableV,
    scanned: Seq<crate::schema::SchemaFieldV>,
)
    requires
        csv_file_table(bytes) == Some(loaded),
        scanned == table_schema(csv_file_table(bytes)->Some_0),
    ensures
        scanned == table_schema(loaded),
{
}


/// Round trip through the columnar format: `save_parquet_file` of a
/// well-formed table `tv` guarantees of its bytes `b` exactly the
/// premises below, and they are the success case of
/// `load_parquet_file`'s contract, whose result is then a table with
/// the view `tv` — the same column names, order, types and values.
pub proof fn lemma_parquet_round_trip(tv: TableV, b: Seq<u8>)
    requires
        tv.wf(),
        crate::parquet::parquet_cols_of(b) == Some(tv.cols),
        crate::parquet::parquet_plain(b),
    ensures
        (TableV { cols: crate::parquet::parquet_cols_of(b)->Some_0 }).wf(),
        (TableV { cols: crate::parquet::parquet_cols_of(b)->Some_0 }) == tv,
{
    assert(TableV { cols: tv.cols } == tv);
}

/// The full conversion round trip: bytes saved from a well-formed
/// table decode to a table that renders and re-parses as CSV to
/// exactly the original — so a CSV to Parquet to CSV conversion chain
/// preserves column names, order, types and values. The premises on
/// `b` are what `save_parquet_file` ensures of its output; the table
/// premises are those of the CSV round trip.
pub proof fn lemma_conversion_round_trip(tv: TableV, b: Seq<u8>)
    requires
        tv.wf(),
        tv.cols.len() >= 1,
        tv.rows() >= 1,
        text_columns_mixed(tv),
        crate::parquet::parquet_cols_of(b) == Some(tv.cols),
        crate::parquet::parquet_plain(b),
    ensures
        csv_table(csv_text(TableV { cols: crate::parquet::parquet_cols_of(b)->Some_0 })) == (Some(
            tv,
        )),
{
    lemma_parquet_round_trip(tv, b);
    lemma_csv_round_trip(tv);
}

} // verus!
