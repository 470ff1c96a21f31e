//! The schema of a table: an ordered column-name-to-type mapping, and
//! its rendering as one `<name>: <Type>` line per column under a
//! `Schema:` header line.

use vstd::prelude::*;

use crate::table::{ColumnType, Table, TableV};

verus! {

/// One schema entry: a column name and its declared type.
#[derive(Clone, Debug, PartialEq)]
pub struct SchemaField {
    pub name: String,
    pub kind: ColumnType,
}

/// An ordered column-name-to-type mapping.
#[derive(Clone, Debug, PartialEq)]
pub struct Schema {
    pub fields: Vec<SchemaField>,
}

/// The mathematical model of one schema entry.
pub struct SchemaFieldV {
    pub name: Seq<char>,
    pub kind: ColumnType,
}

impl View for SchemaField {
    type V = SchemaFieldV;

    open spec fn view(&self) -> SchemaFieldV {
        SchemaFieldV { name: self.name@, kind: self.kind }
    }
}

impl DeepView for SchemaField {
    type V = SchemaFieldV;

    open spec fn deep_view(&self) -> SchemaFieldV {
        self@
    }
}

impl View for Schema {
    type V = Seq<SchemaFieldV>;

    open spec fn view(&self) -> Seq<SchemaFieldV> {
        self.fields.deep_view()
    }
}

/// The schema of a table: its column names and types, in column order.
pub open spec fn table_schema(tv: TableV) -> Seq<SchemaFieldV> {
    Seq::new(tv.cols.len(), |j: int| SchemaFieldV { name: tv.cols[j].name, kind: tv.cols[j].data.kind() })
}

/// The display name of a column type.
pub open spec fn kind_text(k: ColumnType) -> Seq<char> {
    match k {
        ColumnType::Text => "Text"@,
        ColumnType::Integer => "Integer"@,
        ColumnType::Boolean => "Boolean"@,
        ColumnType::Date => "Date"@,
    }
}

/// One line of the schema listing.
pub open spec fn schema_line(f: SchemaFieldV) -> Seq<char> {
    f.name + ": "@ + kind_text(f.kind) + "\n"@
}

/// The full schema listing: a header line, then one line per column.
pub open spec fn schema_listing(fs: Seq<SchemaFieldV>) -> Seq<char>
    decreases fs.len(),
{
    if fs.len() == 0 {
        "Schema:\n"@
    } else {
        schema_listing(fs.drop_last()) + schema_line(fs.last())
    }
}

impl Table {
    /// The schema of this table.
    pub fn schema(&self) -> (r: Schema)
        ensures
            r@ == table_schema(self@),
    {
        let mut fields: Vec<SchemaField> = Vec::new();
        let mut j: usize = 0;
        let w = self.columns.len();
        while j < w
            invariant
                j <= w,
                w == self@.cols.len(),
                fields@.len() == j,
                forall|k: int| 0 <= k < j ==> #[trigger] fields@[k]@ == table_schema(self@)[k],
            decreases w - j,
        {
            let c = &self.columns[j];
            let kind = match &c.values {
                crate::table::ColumnValues::Text(_) => ColumnType::Text,
                crate::table::ColumnValues::Integer(_) => ColumnType::Integer,
                crate::table::ColumnValues::Boolean(_) => ColumnType::Boolean,
                crate::table::ColumnValues::Date(_) => ColumnType::Date,
            };
            let f = SchemaField { name: c.name.clone(), kind };
            proof {
                assert(f@ == table_schema(self@)[j as int]);
            }
            fields.push(f);
            j += 1;
        }
        let r = Schema { fields };
        proof {
            assert(r@ =~= table_schema(self@));
        }
        r
    }
}

impl Schema {
    /// Renders the schema as text: a `Schema:` line, then one
    /// `<name>: <Type>` line per column, in column order.
    pub fn listing(&self) -> (r: String)
        ensures
            r@ == schema_listing(self@),
    {
        let mut out = String::from_str("Schema:\n");
        let mut j: usize = 0;
        let n = self.fields.len();
        proof {
            assert(self@.take(0) =~= Seq::<SchemaFieldV>::empty());
            assert(schema_listing(self@.take(0)) == "Schema:\n"@);
        }
        while j < n
            invariant
                j <= n,
                n == self@.len(),
                out@ == schema_listing(self@.take(j as int)),
            decreases n - j,
        {
            out.append(self.fields[j].name.as_str());
            out.append(": ");
            match self.fields[j].kind {
                ColumnType::Text => out.append("Text"),
                ColumnType::Integer => out.append("Integer"),
                ColumnType::Boolean => out.append("Boolean"),
                ColumnType::Date => out.append("Date"),
            }
            out.append("\n");
            proof {
                assert(self@.take(j + 1).drop_last() =~= self@.take(j as int));
                assert(self@.take(j + 1).last() == self@[j as int]);
                assert(self@[j as int] == self.fields@[j as int]@);
                assert(out@ =~= schema_listing(self@.take(j + 1)));
            }
            j += 1;
        }
        proof {
            assert(self@.take(n as int) =~= self@);
        }
        out
    }
}

} // verus!
