//! The CSV dialect: comma-separated fields, `"`-quoted fields with
//! doubled inner quotes, newline-terminated records, a header row, and
//! opportunistic typing of columns as integers, booleans or dates.
//!
//! Parsing is specified as a character-by-character state machine fold;
//! rendering is specified by recursive text-building functions. The
//! round-trip proofs in `laws` connect the two.

use vstd::prelude::*;

use crate::table::{ColumnDataV, ColumnType, ColumnV, ColumnValues, Table, TableColumn, TableV};
use crate::text::{chars_of_str, string_from_chars};
use crate::value::{
    bool_like, bool_of_text, bool_text, date_like, date_of_text, date_text, int_like, int_of_text,
    int_text, lemma_bool_text_props, lemma_date_text_round_trip, lemma_int_text_round_trip,
    parse_bool_chars, parse_date_chars, parse_int_chars, push_bool, push_date, push_int,
};

verus! {

/// The mode of the CSV reader between two characters.
#[derive(Clone, Copy, Debug, PartialEq, Eq, Structural)]
pub enum CsvMode {
    /// At the start of the input or just after a record separator.
    RecordStart,
    /// Just after a field separator: a field is pending.
    FieldStart,
    /// Inside an unquoted field.
    Unquoted,
    /// Inside a quoted field.
    Quoted,
    /// Just after a quote character inside a quoted field.
    QuoteSeen,
    /// Just after a carriage return outside quotes: a line feed next
    /// ends the record, anything else keeps the carriage return as
    /// field content.
    CrSeen,
    /// Just after a carriage return that followed a closing quote.
    CrSeenAfterQuote,
}

/// The state of the CSV reader: finished records, finished fields of
/// the current record, the characters of the current field, and the
/// mode.
pub struct CsvStateV {
    pub records: Seq<Seq<Seq<char>>>,
    pub fields: Seq<Seq<char>>,
    pub cur: Seq<char>,
    pub mode: CsvMode,
}

/// The reader state before any character.
pub open spec fn csv_init() -> CsvStateV {
    CsvStateV {
        records: Seq::empty(),
        fields: Seq::empty(),
        cur: Seq::empty(),
        mode: CsvMode::RecordStart,
    }
}

/// One step of the CSV reader; `None` is a structural error (a stray
/// character after a closing quote).
pub open spec fn csv_step(st: CsvStateV, c: char) -> Option<CsvStateV> {
    match st.mode {
        CsvMode::RecordStart | CsvMode::FieldStart => if c == '"' {
            Some(CsvStateV { mode: CsvMode::Quoted, ..st })
        } else if c == '\r' {
            Some(CsvStateV { mode: CsvMode::CrSeen, ..st })
        } else if c == ',' {
            Some(
                CsvStateV {
                    fields: st.fields.push(st.cur),
                    cur: Seq::empty(),
                    mode: CsvMode::FieldStart,
                    ..st
                },
            )
        } else if c == '\n' {
            Some(
                CsvStateV {
                    records: st.records.push(st.fields.push(st.cur)),
                    fields: Seq::empty(),
                    cur: Seq::empty(),
                    mode: CsvMode::RecordStart,
                },
            )
        } else {
            Some(CsvStateV { cur: st.cur.push(c), mode: CsvMode::Unquoted, ..st })
        },
        CsvMode::Unquoted => if c == '\r' {
            Some(CsvStateV { mode: CsvMode::CrSeen, ..st })
        } else if c == ',' {
            Some(
                CsvStateV {
                    fields: st.fields.push(st.cur),
                    cur: Seq::empty(),
                    mode: CsvMode::FieldStart,
                    ..st
                },
            )
        } else if c == '\n' {
            Some(
                CsvStateV {
                    records: st.records.push(st.fields.push(st.cur)),
                    fields: Seq::empty(),
                    cur: Seq::empty(),
                    mode: CsvMode::RecordStart,
                },
            )
        } else {
            Some(CsvStateV { cur: st.cur.push(c), ..st })
        },
        CsvMode::Quoted => if c == '"' {
            Some(CsvStateV { mode: CsvMode::QuoteSeen, ..st })
        } else {
            Some(CsvStateV { cur: st.cur.push(c), ..st })
        },
        CsvMode::QuoteSeen => if c == '"' {
            Some(CsvStateV { cur: st.cur.push('"'), mode: CsvMode::Quoted, ..st })
        } else if c == '\r' {
            Some(CsvStateV { mode: CsvMode::CrSeenAfterQuote, ..st })
        } else if c == ',' {
            Some(
                CsvStateV {
                    fields: st.fields.push(st.cur),
                    cur: Seq::empty(),
                    mode: CsvMode::FieldStart,
                    ..st
                },
            )
        } else if c == '\n' {
            Some(
                CsvStateV {
                    records: st.records.push(st.fields.push(st.cur)),
                    fields: Seq::empty(),
                    cur: Seq::empty(),
                    mode: CsvMode::RecordStart,
                },
            )
        } else {
            None
        },
        CsvMode::CrSeen => if c == '\n' {
            Some(
                CsvStateV {
                    records: st.records.push(st.fields.push(st.cur)),
                    fields: Seq::empty(),
                    cur: Seq::empty(),
                    mode: CsvMode::RecordStart,
                },
            )
        } else if c == '\r' {
            Some(CsvStateV { cur: st.cur.push('\r'), ..st })
        } else if c == ',' {
            Some(
                CsvStateV {
                    fields: st.fields.push(st.cur.push('\r')),
                    cur: Seq::empty(),
                    mode: CsvMode::FieldStart,
                    ..st
                },
            )
        } else {
            Some(CsvStateV { cur: st.cur.push('\r').push(c), mode: CsvMode::Unquoted, ..st })
        },
        CsvMode::CrSeenAfterQuote => if c == '\n' {
            Some(
                CsvStateV {
                    records: st.records.push(st.fields.push(st.cur)),
                    fields: Seq::empty(),
                    cur: Seq::empty(),
                    mode: CsvMode::RecordStart,
                },
            )
        } else {
            None
        },
    }
}

/// Folds the CSV reader over `s` from a given state.
pub open spec fn csv_fold_from(st: CsvStateV, s: Seq<char>) -> Option<CsvStateV>
    decreases s.len(),
{
    if s.len() == 0 {
        Some(st)
    } else {
        match csv_fold_from(st, s.drop_last()) {
            None => None,
            Some(prev) => csv_step(prev, s.last()),
        }
    }
}

/// Folds the CSV reader over `s` from the initial state.
pub open spec fn csv_fold(s: Seq<char>) -> Option<CsvStateV> {
    csv_fold_from(csv_init(), s)
}

/// Closes the reader at the end of the input: an open quoted field or
/// a stray carriage return after a closing quote is a structural
/// error; a pending field closes the last record, a trailing carriage
/// return staying as its content.
pub open spec fn csv_finish(st: CsvStateV) -> Option<Seq<Seq<Seq<char>>>> {
    match st.mode {
        CsvMode::Quoted => None,
        CsvMode::CrSeenAfterQuote => None,
        CsvMode::RecordStart => Some(st.records),
        CsvMode::CrSeen => Some(st.records.push(st.fields.push(st.cur.push('\r')))),
        _ => Some(st.records.push(st.fields.push(st.cur))),
    }
}

/// The records of a CSV text: every field of every record, as the raw
/// character sequences with quoting resolved.
pub open spec fn csv_records(s: Seq<char>) -> Option<Seq<Seq<Seq<char>>>> {
    match csv_fold(s) {
        None => None,
        Some(st) => csv_finish(st),
    }
}

/// Lifts a pushed element into a pushed deep view.
proof fn lemma_deep_view_push<T: DeepView>(pre: Seq<T>, x: T)
    ensures
        Seq::new(pre.push(x).len(), |i: int| pre.push(x)[i].deep_view()) == Seq::new(
            pre.len(),
            |i: int| pre[i].deep_view(),
        ).push(x.deep_view()),
{
    assert(Seq::new(pre.push(x).len(), |i: int| pre.push(x)[i].deep_view()) =~= Seq::new(
        pre.len(),
        |i: int| pre[i].deep_view(),
    ).push(x.deep_view()));
}

/// The deep view of a character vector is its view.
pub proof fn lemma_chars_deep_view(v: Vec<char>)
    ensures
        v.deep_view() == v@,
{
    assert(v.deep_view() =~= v@);
}

/// Splits the CSV reader over the raw character vector `s`.
#[verifier::loop_isolation(false)]
pub fn parse_csv_records(s: &Vec<char>) -> (r: Option<Vec<Vec<Vec<char>>>>)
    ensures
        match r {
            Some(rs) => csv_records(s@) == Some(rs.deep_view()),
            None => csv_records(s@) is None,
        },
{
    let mut records: Vec<Vec<Vec<char>>> = Vec::new();
    let mut fields: Vec<Vec<char>> = Vec::new();
    let mut cur: Vec<char> = Vec::new();
    let mut mode = CsvMode::RecordStart;
    let mut i: usize = 0;
    proof {
        assert(s@.take(0) =~= Seq::<char>::empty());
        assert(records.deep_view() =~= csv_init().records);
        assert(fields.deep_view() =~= csv_init().fields);
        assert(cur@ =~= csv_init().cur);
    }
    while i < s.len()
        invariant
            i <= s@.len(),
            csv_fold(s@.take(i as int)) == Some(
                CsvStateV {
                    records: records.deep_view(),
                    fields: fields.deep_view(),
                    cur: cur@,
                    mode: mode,
                },
            ),
        decreases s@.len() - i,
    {
        let ghost pre = CsvStateV {
            records: records.deep_view(),
            fields: fields.deep_view(),
            cur: cur@,
            mode: mode,
        };
        let c = s[i];
        proof {
            assert(s@.take(i + 1).drop_last() =~= s@.take(i as int));
            assert(s@.take(i + 1).last() == s@[i as int]);
        }
        match mode {
            CsvMode::RecordStart | CsvMode::FieldStart => {
                if c == '"' {
                    mode = CsvMode::Quoted;
                } else if c == '\r' {
                    mode = CsvMode::CrSeen;
                } else if c == ',' {
                    proof {
                        lemma_deep_view_push(fields@, cur);
                        lemma_chars_deep_view(cur);
                    }
                    let done = cur;
                    cur = Vec::new();
                    fields.push(done);
                    mode = CsvMode::FieldStart;
                } else if c == '\n' {
                    proof {
                        lemma_deep_view_push(fields@, cur);
                        lemma_chars_deep_view(cur);
                    }
                    let done = cur;
                    cur = Vec::new();
                    fields.push(done);
                    proof {
                        lemma_deep_view_push(records@, fields);
                    }
                    let rec = fields;
                    fields = Vec::new();
                    records.push(rec);
                    mode = CsvMode::RecordStart;
                } else {
                    cur.push(c);
                    mode = CsvMode::Unquoted;
                }
            },
            CsvMode::Unquoted => {
                if c == '\r' {
                    mode = CsvMode::CrSeen;
                } else if c == ',' {
                    proof {
                        lemma_deep_view_push(fields@, cur);
                        lemma_chars_deep_view(cur);
                    }
                    let done = cur;
                    cur = Vec::new();
                    fields.push(done);
                    mode = CsvMode::FieldStart;
                } else if c == '\n' {
                    proof {
                        lemma_deep_view_push(fields@, cur);
                        lemma_chars_deep_view(cur);
                    }
                    let done = cur;
                    cur = Vec::new();
                    fields.push(done);
                    proof {
                        lemma_deep_view_push(records@, fields);
                    }
                    let rec = fields;
                    fields = Vec::new();
                    records.push(rec);
                    mode = CsvMode::RecordStart;
                } else {
                    cur.push(c);
                }
            },
            CsvMode::Quoted => {
                if c == '"' {
                    mode = CsvMode::QuoteSeen;
                } else {
                    cur.push(c);
                }
            },
            CsvMode::QuoteSeen => {
                if c == '"' {
                    cur.push('"');
                    mode = CsvMode::Quoted;
                } else if c == '\r' {
                    mode = CsvMode::CrSeenAfterQuote;
                } else if c == ',' {
                    proof {
                        lemma_deep_view_push(fields@, cur);
                        lemma_chars_deep_view(cur);
                    }
                    let done = cur;
                    cur = Vec::new();
                    fields.push(done);
                    mode = CsvMode::FieldStart;
                } else if c == '\n' {
                    proof {
                        lemma_deep_view_push(fields@, cur);
                        lemma_chars_deep_view(cur);
                    }
                    let done = cur;
                    cur = Vec::new();
                    fields.push(done);
                    proof {
                        lemma_deep_view_push(records@, fields);
                    }
                    let rec = fields;
                    fields = Vec::new();
                    records.push(rec);
                    mode = CsvMode::RecordStart;
                } else {
                    proof {
                        assert(csv_fold(s@.take(i + 1)) is None);
                        assert(s@.take(s@.len() as int) =~= s@);
                        lemma_csv_fold_from_none(s@, i + 1);
                    }
                    return None;
                }
            },
            CsvMode::CrSeen => {
                if c == '\n' {
                    proof {
                        lemma_deep_view_push(fields@, cur);
                        lemma_chars_deep_view(cur);
                    }
                    let done = cur;
                    cur = Vec::new();
                    fields.push(done);
                    proof {
                        lemma_deep_view_push(records@, fields);
                    }
                    let rec = fields;
                    fields = Vec::new();
                    records.push(rec);
                    mode = CsvMode::RecordStart;
                } else if c == '\r' {
                    cur.push('\r');
                } else if c == ',' {
                    cur.push('\r');
                    proof {
                        lemma_deep_view_push(fields@, cur);
                        lemma_chars_deep_view(cur);
                    }
                    let done = cur;
                    cur = Vec::new();
                    fields.push(done);
                    mode = CsvMode::FieldStart;
                } else {
                    cur.push('\r');
                    cur.push(c);
                    mode = CsvMode::Unquoted;
                }
            },
            CsvMode::CrSeenAfterQuote => {
                if c == '\n' {
                    proof {
                        lemma_deep_view_push(fields@, cur);
                        lemma_chars_deep_view(cur);
                    }
                    let done = cur;
                    cur = Vec::new();
                    fields.push(done);
                    proof {
                        lemma_deep_view_push(records@, fields);
                    }
                    let rec = fields;
                    fields = Vec::new();
                    records.push(rec);
                    mode = CsvMode::RecordStart;
                } else {
                    proof {
                        assert(csv_fold(s@.take(i + 1)) is None);
                        assert(s@.take(s@.len() as int) =~= s@);
                        lemma_csv_fold_from_none(s@, i + 1);
                    }
                    return None;
                }
            },
        }
        i += 1;
        proof {
            assert(csv_fold(s@.take(i as int)) == csv_step(pre, c));
        }
    }
    proof {
        assert(s@.take(i as int) =~= s@);
    }
    match mode {
        CsvMode::Quoted => None,
        CsvMode::CrSeenAfterQuote => None,
        CsvMode::RecordStart => Some(records),
        CsvMode::CrSeen => {
            cur.push('\r');
            proof {
                lemma_deep_view_push(fields@, cur);
                lemma_chars_deep_view(cur);
                lemma_deep_view_push(records@, fields);
            }
            fields.push(cur);
            records.push(fields);
            Some(records)
        },
        _ => {
            proof {
                lemma_deep_view_push(fields@, cur);
                lemma_chars_deep_view(cur);
                lemma_deep_view_push(records@, fields);
            }
            fields.push(cur);
            records.push(fields);
            Some(records)
        },
    }
}

/// Once the fold fails on a prefix, it fails on every longer prefix.
proof fn lemma_csv_fold_from_none(s: Seq<char>, i: int)
    requires
        0 <= i <= s.len(),
        csv_fold(s.take(i)) is None,
    ensures
        csv_fold(s) is None,
    decreases s.len() - i,
{
    if i < s.len() {
        assert(s.take(i + 1).drop_last() =~= s.take(i));
        lemma_csv_fold_from_none(s, i + 1);
    } else {
        assert(s.take(i) =~= s);
    }
}


/// A field needs quoting when it holds a separator, a quote, a line
/// feed or a carriage return.
pub open spec fn needs_quote(f: Seq<char>) -> bool {
    f.contains(',') || f.contains('"') || f.contains('\n') || f.contains('\r')
}

/// The escaped form of one character inside a quoted field.
pub open spec fn escape_one(c: char) -> Seq<char> {
    if c == '"' {
        seq!['"', '"']
    } else {
        seq![c]
    }
}

/// The escaped form of a field: every quote doubled.
pub open spec fn escaped(f: Seq<char>) -> Seq<char>
    decreases f.len(),
{
    if f.len() == 0 {
        Seq::empty()
    } else {
        escape_one(f[0]) + escaped(f.skip(1))
    }
}

/// The rendered form of one field: quoted and escaped when needed,
/// verbatim otherwise.
pub open spec fn field_text(f: Seq<char>) -> Seq<char> {
    if needs_quote(f) {
        seq!['"'] + escaped(f) + seq!['"']
    } else {
        f
    }
}

/// The rendered form of one record: its fields joined by separators.
pub open spec fn row_text(fs: Seq<Seq<char>>) -> Seq<char>
    decreases fs.len(),
{
    if fs.len() == 0 {
        Seq::empty()
    } else if fs.len() == 1 {
        field_text(fs[0])
    } else {
        row_text(fs.drop_last()) + seq![','] + field_text(fs.last())
    }
}

/// The header fields of a table: its column names.
pub open spec fn header_fields(tv: TableV) -> Seq<Seq<char>> {
    Seq::new(tv.cols.len(), |j: int| tv.cols[j].name)
}

/// The canonical text of the cell at row `i` of a column.
pub open spec fn cell_text(data: ColumnDataV, i: int) -> Seq<char> {
    match data {
        ColumnDataV::Text(v) => v[i],
        ColumnDataV::Integer(v) => int_text(v[i]),
        ColumnDataV::Boolean(v) => bool_text(v[i]),
        ColumnDataV::Date(v) => date_text(v[i]),
    }
}

/// The fields of data row `i` of a table.
pub open spec fn row_fields(tv: TableV, i: int) -> Seq<Seq<char>> {
    Seq::new(tv.cols.len(), |j: int| cell_text(tv.cols[j].data, i))
}

/// The rendered data rows of a table from row `i` on, each followed by
/// a line break.
pub open spec fn rows_text(tv: TableV, i: int) -> Seq<char>
    decreases tv.rows() - i,
{
    if i < 0 || i >= tv.rows() {
        Seq::empty()
    } else {
        row_text(row_fields(tv, i)) + seq!['\n'] + rows_text(tv, i + 1)
    }
}

/// The full CSV text of a table: the header row, then the data rows,
/// every row followed by a line break.
pub open spec fn csv_text(tv: TableV) -> Seq<char> {
    if tv.cols.len() == 0 {
        Seq::empty()
    } else {
        row_text(header_fields(tv)) + seq!['\n'] + rows_text(tv, 0)
    }
}

/// Membership in a sequence extended by one element.
proof fn lemma_contains_snoc(f: Seq<char>, c: char, x: char)
    ensures
        f.push(c).contains(x) == (f.contains(x) || c == x),
{
    if f.contains(x) {
        let i = choose|i: int| 0 <= i < f.len() && f[i] == x;
        assert(f.push(c)[i] == x);
    }
    if c == x {
        assert(f.push(c)[f.len() as int] == x);
    }
    if f.push(c).contains(x) {
        let i = choose|i: int| 0 <= i < f.push(c).len() && f.push(c)[i] == x;
        if i < f.len() {
            assert(f[i] == x);
        }
    }
}

/// Quoting need over a sequence extended by one character.
proof fn lemma_needs_quote_snoc(f: Seq<char>, c: char)
    ensures
        needs_quote(f.push(c)) == (needs_quote(f) || c == ',' || c == '"' || c == '\n' || c
            == '\r'),
{
    lemma_contains_snoc(f, c, ',');
    lemma_contains_snoc(f, c, '"');
    lemma_contains_snoc(f, c, '\n');
    lemma_contains_snoc(f, c, '\r');
}

/// Escaping distributes over appending one character.
proof fn lemma_escaped_snoc(f: Seq<char>, c: char)
    ensures
        escaped(f.push(c)) == escaped(f) + escape_one(c),
    decreases f.len(),
{
    if f.len() == 0 {
        assert(f.push(c)[0] == c);
        assert(f.push(c).skip(1) =~= Seq::<char>::empty());
        assert(escaped(f.push(c)) =~= escaped(f) + escape_one(c));
    } else {
        assert(f.push(c)[0] == f[0]);
        assert(f.push(c).len() == f.len() + 1);
        assert(escaped(f.push(c)) == escape_one(f.push(c)[0]) + escaped(f.push(c).skip(1)));
        assert(f.push(c).skip(1) =~= f.skip(1).push(c));
        lemma_escaped_snoc(f.skip(1), c);
        assert(escaped(f.push(c)) == escape_one(f[0]) + (escaped(f.skip(1)) + escape_one(c)));
        assert(escaped(f) == escape_one(f[0]) + escaped(f.skip(1)));
        assert(escaped(f.push(c)) =~= escaped(f) + escape_one(c));
    }
}

/// A field without separators, quotes or line breaks renders verbatim.
pub proof fn lemma_plain_field_text(s: Seq<char>)
    requires
        forall|i: int|
            0 <= i < s.len() ==> s[i] != ',' && s[i] != '"' && s[i] != '\n' && s[i] != '\r',
    ensures
        field_text(s) == s,
{
    if s.contains(',') {
        let i = choose|i: int| 0 <= i < s.len() && s[i] == ',';
    }
    if s.contains('"') {
        let i = choose|i: int| 0 <= i < s.len() && s[i] == '"';
    }
    if s.contains('\n') {
        let i = choose|i: int| 0 <= i < s.len() && s[i] == '\n';
    }
    if s.contains('\r') {
        let i = choose|i: int| 0 <= i < s.len() && s[i] == '\r';
    }
    assert(!needs_quote(s));
}

/// Appends the rendered form of one field.
#[verifier::loop_isolation(false)]
pub fn push_field(out: &mut Vec<char>, f: &Vec<char>)
    ensures
        final(out)@ == old(out)@ + field_text(f@),
{
    let mut quote = false;
    let mut i: usize = 0;
    proof {
        assert(f@.take(0) =~= Seq::<char>::empty());
    }
    while i < f.len()
        invariant
            i <= f@.len(),
            quote == needs_quote(f@.take(i as int)),
        decreases f@.len() - i,
    {
        let c = f[i];
        proof {
            assert(f@.take(i + 1) =~= f@.take(i as int).push(f@[i as int]));
            lemma_needs_quote_snoc(f@.take(i as int), f@[i as int]);
        }
        if c == ',' || c == '"' || c == '\n' || c == '\r' {
            quote = true;
        }
        i += 1;
    }
    proof {
        assert(f@.take(f@.len() as int) =~= f@);
    }
    if !quote {
        let mut j: usize = 0;
        while j < f.len()
            invariant
                j <= f@.len(),
                out@ == old(out)@ + f@.take(j as int),
            decreases f@.len() - j,
        {
            out.push(f[j]);
            proof {
                assert(f@.take(j + 1) =~= f@.take(j as int).push(f@[j as int]));
                assert(out@ =~= old(out)@ + f@.take(j + 1));
            }
            j += 1;
        }
    } else {
        out.push('"');
        let mut j: usize = 0;
        proof {
            assert(escaped(f@.take(0)) =~= Seq::<char>::empty());
            assert(out@ =~= old(out)@ + seq!['"'] + escaped(f@.take(0)));
        }
        while j < f.len()
            invariant
                j <= f@.len(),
                out@ == old(out)@ + seq!['"'] + escaped(f@.take(j as int)),
            decreases f@.len() - j,
        {
            let c = f[j];
            proof {
                assert(f@.take(j + 1) =~= f@.take(j as int).push(f@[j as int]));
                lemma_escaped_snoc(f@.take(j as int), f@[j as int]);
            }
            if c == '"' {
                out.push('"');
                out.push('"');
            } else {
                out.push(c);
            }
            proof {
                assert(out@ =~= old(out)@ + seq!['"'] + escaped(f@.take(j + 1)));
            }
            j += 1;
        }
        out.push('"');
        proof {
            assert(out@ =~= old(out)@ + (seq!['"'] + escaped(f@) + seq!['"']));
        }
    }
}


/// Appends the rendered cell at row `i` of column `col`, which for a
/// typed value is its canonical text, never quoted.
#[verifier::loop_isolation(false)]
fn push_cell(out: &mut Vec<char>, col: &TableColumn, i: usize)
    requires
        i < col@.data.rows(),
        col@.data.values_valid(),
    ensures
        final(out)@ == old(out)@ + field_text(cell_text(col@.data, i as int)),
{
    match &col.values {
        ColumnValues::Text(v) => {
            let ch = chars_of_str(v[i].as_str());
            push_field(out, &ch);
        },
        ColumnValues::Integer(v) => {
            proof {
                lemma_int_text_round_trip(v@[i as int] as int);
                lemma_plain_field_text(int_text(v@[i as int] as int));
                assert(cell_text(col@.data, i as int) == int_text(v@[i as int] as int));
            }
            push_int(out, v[i]);
        },
        ColumnValues::Boolean(v) => {
            proof {
                lemma_bool_text_props(v@[i as int]);
                lemma_plain_field_text(bool_text(v@[i as int]));
            }
            push_bool(out, v[i]);
        },
        ColumnValues::Date(v) => {
            proof {
                lemma_date_text_round_trip(v@[i as int]);
                lemma_plain_field_text(date_text(v@[i as int]));
            }
            push_date(out, v[i]);
        },
    }
}

/// Renders a table as CSV text: a header row naming the columns, then
/// one line per data row, every value in its canonical text form.
#[verifier::loop_isolation(false)]
pub fn save_csv_chars(t: &Table) -> (r: Vec<char>)
    requires
        t.wf(),
    ensures
        r@ == csv_text(t@),
{
    let mut out: Vec<char> = Vec::new();
    let w = t.columns.len();
    if w == 0 {
        return out;
    }
    let ghost tv = t@;
    let mut j: usize = 0;
    proof {
        assert(header_fields(tv).take(0) =~= Seq::<Seq<char>>::empty());
    }
    while j < w
        invariant
            j <= w,
            out@ == row_text(header_fields(tv).take(j as int)),
        decreases w - j,
    {
        if j > 0 {
            out.push(',');
        }
        let name_chars = chars_of_str(t.columns[j].name.as_str());
        push_field(&mut out, &name_chars);
        proof {
            let hf = header_fields(tv);
            assert(name_chars@ == hf[j as int]);
            assert(hf.take(j + 1).drop_last() =~= hf.take(j as int));
            assert(hf.take(j + 1).last() == hf[j as int]);
            if j == 0 {
                assert(out@ =~= row_text(hf.take(1)));
            } else {
                assert(out@ =~= row_text(hf.take(j as int)) + seq![','] + field_text(hf[j as int]));
            }
        }
        j += 1;
    }
    proof {
        assert(header_fields(tv).take(w as int) =~= header_fields(tv));
    }
    out.push('\n');
    let rows = Table::row_count(&t.columns[0]);
    let mut i: usize = 0;
    while i < rows
        invariant
            i <= rows,
            rows == tv.rows(),
            out@ + rows_text(tv, i as int) == csv_text(tv),
        decreases rows - i,
    {
        let ghost base = out@;
        let mut j: usize = 0;
        proof {
            assert(row_fields(tv, i as int).take(0) =~= Seq::<Seq<char>>::empty());
        }
        while j < w
            invariant
                j <= w,
                i < rows,
                rows == tv.rows(),
                out@ == base + row_text(row_fields(tv, i as int).take(j as int)),
            decreases w - j,
        {
            if j > 0 {
                out.push(',');
            }
            proof {
                assert(t.columns@[j as int]@ == tv.cols[j as int]);
                assert(tv.cols[j as int].data.rows() == tv.rows());
                assert(tv.cols[j as int].data.values_valid());
            }
            push_cell(&mut out, &t.columns[j], i);
            proof {
                let rf = row_fields(tv, i as int);
                assert(cell_text(t.columns@[j as int]@.data, i as int) == rf[j as int]);
                assert(rf.take(j + 1).drop_last() =~= rf.take(j as int));
                assert(rf.take(j + 1).last() == rf[j as int]);
                if j == 0 {
                    assert(out@ =~= base + row_text(rf.take(1)));
                } else {
                    assert(out@ =~= base + (row_text(rf.take(j as int)) + seq![','] + field_text(
                        rf[j as int],
                    )));
                }
            }
            j += 1;
        }
        out.push('\n');
        proof {
            assert(row_fields(tv, i as int).take(w as int) =~= row_fields(tv, i as int));
            assert(out@ =~= base + (row_text(row_fields(tv, i as int)) + seq!['\n']));
            assert(rows_text(tv, i as int) == row_text(row_fields(tv, i as int)) + seq!['\n']
                + rows_text(tv, i + 1));
            assert(out@ + rows_text(tv, i + 1) =~= base + rows_text(tv, i as int));
        }
        i += 1;
    }
    proof {
        assert(rows_text(tv, rows as int) == Seq::<char>::empty());
        assert(out@ =~= out@ + rows_text(tv, rows as int));
    }
    out
}


/// Every field of a column parses as an integer.
pub open spec fn all_int_like(col: Seq<Seq<char>>) -> bool {
    forall|i: int| 0 <= i < col.len() ==> int_like(#[trigger] col[i])
}

/// Every field of a column parses as a boolean.
pub open spec fn all_bool_like(col: Seq<Seq<char>>) -> bool {
    forall|i: int| 0 <= i < col.len() ==> bool_like(#[trigger] col[i])
}

/// Every field of a column parses as a date.
pub open spec fn all_date_like(col: Seq<Seq<char>>) -> bool {
    forall|i: int| 0 <= i < col.len() ==> date_like(#[trigger] col[i])
}

/// The type inferred for a column from its raw fields: integer when all
/// fields are integer texts, else boolean, else date, else text. A
/// column without data rows is text.
pub open spec fn infer_kind(col: Seq<Seq<char>>) -> ColumnType {
    if col.len() == 0 {
        ColumnType::Text
    } else if all_int_like(col) {
        ColumnType::Integer
    } else if all_bool_like(col) {
        ColumnType::Boolean
    } else if all_date_like(col) {
        ColumnType::Date
    } else {
        ColumnType::Text
    }
}

/// The typed values of a column: its raw fields parsed at the inferred
/// type.
pub open spec fn column_data_of(col: Seq<Seq<char>>) -> ColumnDataV {
    match infer_kind(col) {
        ColumnType::Integer => ColumnDataV::Integer(
            Seq::new(col.len(), |i: int| int_of_text(col[i])),
        ),
        ColumnType::Boolean => ColumnDataV::Boolean(
            Seq::new(col.len(), |i: int| bool_of_text(col[i])),
        ),
        ColumnType::Date => ColumnDataV::Date(Seq::new(col.len(), |i: int| date_of_text(col[i]))),
        ColumnType::Text => ColumnDataV::Text(col),
    }
}

/// The raw fields of column `j`, one per data row.
pub open spec fn raw_column(rows: Seq<Seq<Seq<char>>>, j: int) -> Seq<Seq<char>> {
    Seq::new(rows.len(), |i: int| rows[i][j])
}

/// The table encoded by parsed records: the first record names the
/// columns; every further record is one data row. Requires at least a
/// header, a uniform width, and distinct column names.
pub open spec fn table_of_records(rs: Seq<Seq<Seq<char>>>) -> Option<TableV> {
    if rs.len() == 0 {
        None
    } else {
        let hdr = rs[0];
        let rows = rs.skip(1);
        if exists|i: int| 0 <= i < rows.len() && (#[trigger] rows[i]).len() != hdr.len() {
            None
        } else if exists|i: int, j: int| 0 <= i < j < hdr.len() && hdr[i] == hdr[j] {
            None
        } else {
            Some(
                TableV {
                    cols: Seq::new(
                        hdr.len(),
                        |j: int| ColumnV { name: hdr[j], data: column_data_of(raw_column(rows, j)) },
                    ),
                },
            )
        }
    }
}

/// The table encoded by a CSV text, when it is structurally valid.
pub open spec fn csv_table(s: Seq<char>) -> Option<TableV> {
    match csv_records(s) {
        None => None,
        Some(rs) => table_of_records(rs),
    }
}

/// Column-wide typing over a column extended by one field.
proof fn lemma_all_like_snoc(col: Seq<Seq<char>>, k: int)
    requires
        0 <= k < col.len(),
    ensures
        all_int_like(col.take(k + 1)) == (all_int_like(col.take(k)) && int_like(col[k])),
        all_bool_like(col.take(k + 1)) == (all_bool_like(col.take(k)) && bool_like(col[k])),
        all_date_like(col.take(k + 1)) == (all_date_like(col.take(k)) && date_like(col[k])),
{
    let prev = col.take(k);
    let next = col.take(k + 1);
    assert(next =~= prev.push(col[k]));
    assert(forall|i: int| 0 <= i < prev.len() ==> #[trigger] prev[i] == next[i]);
    assert(next[k] == col[k]);
    if all_int_like(prev) && int_like(col[k]) {
        assert forall|i: int| 0 <= i < next.len() implies int_like(#[trigger] next[i]) by {
            if i < k {
                assert(int_like(prev[i]));
            }
        }
    }
    if all_bool_like(prev) && bool_like(col[k]) {
        assert forall|i: int| 0 <= i < next.len() implies bool_like(#[trigger] next[i]) by {
            if i < k {
                assert(bool_like(prev[i]));
            }
        }
    }
    if all_date_like(prev) && date_like(col[k]) {
        assert forall|i: int| 0 <= i < next.len() implies date_like(#[trigger] next[i]) by {
            if i < k {
                assert(date_like(prev[i]));
            }
        }
    }
    if all_int_like(next) {
        assert forall|i: int| 0 <= i < prev.len() implies int_like(#[trigger] prev[i]) by {
            assert(int_like(next[i]));
        }
    }
    if all_bool_like(next) {
        assert forall|i: int| 0 <= i < prev.len() implies bool_like(#[trigger] prev[i]) by {
            assert(bool_like(next[i]));
        }
    }
    if all_date_like(next) {
        assert forall|i: int| 0 <= i < prev.len() implies date_like(#[trigger] prev[i]) by {
            assert(date_like(next[i]));
        }
    }
}

/// Builds the typed values of one column from its raw fields.
#[verifier::loop_isolation(false)]
fn column_values_of(raw: &Vec<Vec<char>>) -> (r: ColumnValues)
    ensures
        r@ == column_data_of(raw.deep_view()),
{
    let ghost col = raw.deep_view();
    let n = raw.len();
    assert(col.len() == n);
    let mut all_int = true;
    let mut all_bool = true;
    let mut all_date = true;
    let mut k: usize = 0;
    while k < n
        invariant
            k <= n,
            all_int == all_int_like(col.take(k as int)),
            all_bool == all_bool_like(col.take(k as int)),
            all_date == all_date_like(col.take(k as int)),
        decreases n - k,
    {
        proof {
            lemma_all_like_snoc(col, k as int);
            lemma_chars_deep_view(raw@[k as int]);
            assert(raw@[k as int]@ == col[k as int]);
        }
        all_int = all_int && parse_int_chars(&raw[k]).is_some();
        all_bool = all_bool && parse_bool_chars(&raw[k]).is_some();
        all_date = all_date && parse_date_chars(&raw[k]).is_some();
        k += 1;
    }
    proof {
        assert(col.take(n as int) =~= col);
    }
    if n == 0 {
        let v: Vec<String> = Vec::new();
        proof {
            assert(v.deep_view() =~= col);
        }
        return ColumnValues::Text(v);
    }
    if all_int {
        let mut v: Vec<i64> = Vec::new();
        let mut k: usize = 0;
        while k < n
            invariant
                k <= n,
                all_int_like(col),
                v@.len() == k,
                forall|i: int| 0 <= i < k ==> v@[i] as int == int_of_text(col[i]),
            decreases n - k,
        {
            proof {
                lemma_chars_deep_view(raw@[k as int]);
                assert(raw@[k as int]@ == col[k as int]);
            }
            match parse_int_chars(&raw[k]) {
                Some(x) => v.push(x),
                None => {
                    proof {
                        assert(int_like(col[k as int]));
                    }
                    return ColumnValues::Text(Vec::new());
                },
            }
            k += 1;
        }
        proof {
            assert(v@.map_values(|x: i64| x as int) =~= Seq::new(col.len(), |i: int| int_of_text(col[i])));
        }
        ColumnValues::Integer(v)
    } else if all_bool {
        let mut v: Vec<bool> = Vec::new();
        let mut k: usize = 0;
        while k < n
            invariant
                k <= n,
                all_bool_like(col),
                !all_int_like(col),
                v@.len() == k,
                forall|i: int| 0 <= i < k ==> v@[i] == bool_of_text(col[i]),
            decreases n - k,
        {
            proof {
                lemma_chars_deep_view(raw@[k as int]);
                assert(raw@[k as int]@ == col[k as int]);
            }
            match parse_bool_chars(&raw[k]) {
                Some(x) => v.push(x),
                None => {
                    proof {
                        assert(bool_like(col[k as int]));
                    }
                    return ColumnValues::Text(Vec::new());
                },
            }
            k += 1;
        }
        proof {
            assert(v@ =~= Seq::new(col.len(), |i: int| bool_of_text(col[i])));
        }
        ColumnValues::Boolean(v)
    } else if all_date {
        let mut v: Vec<crate::table::Date> = Vec::new();
        let mut k: usize = 0;
        while k < n
            invariant
                k <= n,
                all_date_like(col),
                !all_int_like(col),
                !all_bool_like(col),
                v@.len() == k,
                forall|i: int| 0 <= i < k ==> v@[i] == date_of_text(col[i]),
            decreases n - k,
        {
            proof {
                lemma_chars_deep_view(raw@[k as int]);
                assert(raw@[k as int]@ == col[k as int]);
            }
            match parse_date_chars(&raw[k]) {
                Some(x) => v.push(x),
                None => {
                    proof {
                        assert(date_like(col[k as int]));
                    }
                    return ColumnValues::Text(Vec::new());
                },
            }
            k += 1;
        }
        proof {
            assert(v@ =~= Seq::new(col.len(), |i: int| date_of_text(col[i])));
        }
        ColumnValues::Date(v)
    } else {
        let mut v: Vec<String> = Vec::new();
        let mut k: usize = 0;
        while k < n
            invariant
                k <= n,
                !all_int_like(col) && !all_bool_like(col) && !all_date_like(col),
                v@.len() == k,
                forall|i: int| 0 <= i < k ==> v@[i].deep_view() == col[i],
            decreases n - k,
        {
            proof {
                lemma_chars_deep_view(raw@[k as int]);
                assert(raw@[k as int]@ == col[k as int]);
            }
            let f = string_from_chars(&raw[k]);
            v.push(f);
            k += 1;
        }
        proof {
            assert(v.deep_view() =~= col);
        }
        ColumnValues::Text(v)
    }
}

/// Parses CSV text into a typed table: the header names the columns and
/// each column takes the narrowest supported type that fits all of its
/// fields.
#[verifier::loop_isolation(false)]
pub fn table_from_chars(s: &Vec<char>) -> (r: Option<Table>)
    ensures
        match r {
            Some(t) => csv_table(s@) == Some(t@) && t.wf(),
            None => csv_table(s@) is None,
        },
{
    let recs = match parse_csv_records(s) {
        None => {
            return None;
        },
        Some(r) => r,
    };
    let ghost rsv = recs.deep_view();
    if recs.len() == 0 {
        return None;
    }
    let ghost hdr = rsv[0];
    let ghost rows = rsv.skip(1);
    let w = recs[0].len();
    assert(hdr.len() == w);
    let mut i: usize = 1;
    while i < recs.len()
        invariant
            1 <= i <= recs@.len(),
            forall|k: int| 0 <= k < i - 1 ==> (#[trigger] rows[k]).len() == w,
        decreases recs@.len() - i,
    {
        if recs[i].len() != w {
            proof {
                assert(rows[i - 1] == rsv[i as int]);
                assert(rows[i - 1].len() != hdr.len());
            }
            return None;
        }
        proof {
            assert(rows[i - 1] == rsv[i as int]);
        }
        i += 1;
    }
    assert(forall|k: int| 0 <= k < rows.len() ==> (#[trigger] rows[k]).len() == hdr.len());
    let mut a: usize = 0;
    while a < w
        invariant
            a <= w,
            w == hdr.len(),
            forall|i: int, j: int| 0 <= i < j < hdr.len() && i < a ==> hdr[i] != hdr[j],
        decreases w - a,
    {
        let mut b: usize = a + 1;
        while b < w
            invariant
                a < b <= w,
                w == hdr.len(),
                forall|j: int| a < j < b ==> hdr[a as int] != hdr[j],
            decreases w - b,
        {
            proof {
                lemma_chars_deep_view(recs@[0]@[a as int]);
                lemma_chars_deep_view(recs@[0]@[b as int]);
                assert(hdr[a as int] == recs@[0]@[a as int]@);
                assert(hdr[b as int] == recs@[0]@[b as int]@);
            }
            if crate::text::chars_eq(&recs[0][a], &recs[0][b]) {
                return None;
            }
            b += 1;
        }
        a += 1;
    }
    assert(forall|i: int, j: int| 0 <= i < j < hdr.len() ==> hdr[i] != hdr[j]);
    let ghost target = table_of_records(rsv)->Some_0;
    let mut columns: Vec<TableColumn> = Vec::new();
    let mut j: usize = 0;
    while j < w
        invariant
            j <= w,
            w == hdr.len(),
            columns.deep_view() =~= target.cols.take(j as int),
            target == table_of_records(rsv)->Some_0,
            table_of_records(rsv) is Some,
            target.cols == Seq::new(
                hdr.len(),
                |j: int| ColumnV { name: hdr[j], data: column_data_of(raw_column(rows, j)) },
            ),
            forall|k: int| 0 <= k < rows.len() ==> (#[trigger] rows[k]).len() == hdr.len(),
            rsv == recs.deep_view(),
            rsv.len() >= 1,
            hdr == rsv[0],
            rows == rsv.skip(1),
        decreases w - j,
    {
        let mut raw: Vec<Vec<char>> = Vec::new();
        let mut i: usize = 1;
        while i < recs.len()
            invariant
                1 <= i <= recs@.len(),
                w == hdr.len(),
                j < w,
                raw.deep_view() =~= raw_column(rows, j as int).take(i - 1),
                forall|k: int| 0 <= k < rows.len() ==> (#[trigger] rows[k]).len() == hdr.len(),
                rsv == recs.deep_view(),
                rsv.len() >= 1,
                rows == rsv.skip(1),
            decreases recs@.len() - i,
        {
            proof {
                assert(rows[i - 1] == rsv[i as int]);
                assert(rows[i - 1].len() == hdr.len());
                assert(recs@[i as int].deep_view() == rsv[i as int]);
                assert(recs@[i as int]@.len() == rsv[i as int].len());
            }
            let field = crate::text::clone_chars(&recs[i][j]);
            proof {
                lemma_chars_deep_view(recs@[i as int]@[j as int]);
                lemma_chars_deep_view(field);
                assert(field.deep_view() == rsv[i as int][j as int]);
            }
            raw.push(field);
            proof {
                assert(raw.deep_view() =~= raw_column(rows, j as int).take(i as int));
            }
            i += 1;
        }
        proof {
            assert(raw_column(rows, j as int).take(recs@.len() - 1) =~= raw_column(rows, j as int));
        }
        let values = column_values_of(&raw);
        let name = string_from_chars(&recs[0][j]);
        proof {
            lemma_chars_deep_view(recs@[0]@[j as int]);
            assert(hdr[j as int] == recs@[0]@[j as int]@);
            assert(name@ == hdr[j as int]);
        }
        let col = TableColumn { name, values };
        proof {
            assert(col@ == target.cols[j as int]);
        }
        columns.push(col);
        proof {
            assert(columns.deep_view() =~= target.cols.take(j + 1));
        }
        j += 1;
    }
    proof {
        assert(target.cols.take(w as int) =~= target.cols);
    }
    let t = Table { columns };
    proof {
        assert(t@ == target);
        lemma_table_of_records_wf(rsv);
    }
    Some(t)
}

/// A table built from records is well formed.
proof fn lemma_table_of_records_wf(rs: Seq<Seq<Seq<char>>>)
    requires
        table_of_records(rs) is Some,
    ensures
        table_of_records(rs)->Some_0.wf(),
{
    let t = table_of_records(rs)->Some_0;
    let hdr = rs[0];
    let rows = rs.skip(1);
    assert(t.names_distinct());
    assert forall|j: int| 0 <= j < t.cols.len() implies (#[trigger] t.cols[j]).data.rows()
        == rows.len() by {
        let col = raw_column(rows, j);
        assert(column_data_of(col).rows() == col.len());
    }
    assert forall|j: int| 0 <= j < t.cols.len() implies (#[trigger] t.cols[j]).data.values_valid() by {
        let col = raw_column(rows, j);
        match column_data_of(col) {
            ColumnDataV::Integer(v) => {
                assert forall|i: int| 0 <= i < v.len() implies i64::MIN <= #[trigger] v[i]
                    <= i64::MAX by {
                    assert(int_like(col[i]));
                    if col[i].len() > 0 && col[i][0] == '-' {
                        crate::value::lemma_digits_val_nonneg(col[i].skip(1));
                    } else {
                        crate::value::lemma_digits_val_nonneg(col[i]);
                    }
                }
            },
            ColumnDataV::Date(v) => {
                assert forall|i: int| 0 <= i < v.len() implies (#[trigger] v[i]).valid() by {
                    assert(date_like(col[i]));
                }
            },
            _ => {},
        }
    }
}

} // verus!
