//! The in-memory table model: named, typed columns of equal row count.
//!
//! The supported column types are text, 64-bit integers, booleans and
//! calendar dates. A table is well formed when its column names are
//! distinct, all columns hold the same number of rows, and every date
//! is a valid calendar date with a four-digit year.

use vstd::prelude::*;

verus! {

/// The declared type of a column.
#[derive(Clone, Copy, Debug, PartialEq, Eq, Structural)]
pub enum ColumnType {
    Text,
    Integer,
    Boolean,
    Date,
}

/// A calendar date, kept as year, month and day numbers.
#[derive(Clone, Copy, Debug, PartialEq, Eq, Structural)]
pub struct Date {
    pub year: u16,
    pub month: u8,
    pub day: u8,
}

/// Whether `year` is a leap year of the Gregorian calendar.
pub open spec fn is_leap_year(year: int) -> bool {
    year % 4 == 0 && (year % 100 != 0 || year % 400 == 0)
}

/// The number of days of `month` in `year`.
pub open spec fn days_in_month(year: int, month: int) -> int {
    if month == 2 {
        if is_leap_year(year) {
            29
        } else {
            28
        }
    } else if month == 4 || month == 6 || month == 9 || month == 11 {
        30
    } else {
        31
    }
}

impl Date {
    /// A valid calendar date with a four-digit year.
    pub open spec fn valid(self) -> bool {
        self.year <= 9999 && 1 <= self.month <= 12 && 1 <= self.day
            && self.day <= days_in_month(self.year as int, self.month as int)
    }

    /// Checks that this is a valid calendar date with a four-digit year.
    pub fn is_valid(&self) -> (r: bool)
        ensures
            r == self.valid(),
    {
        let dim: u8 = if self.month == 2 {
            if (self.year % 4 == 0 && (self.year % 100 != 0 || self.year % 400 == 0)) {
                29
            } else {
                28
            }
        } else if self.month == 4 || self.month == 6 || self.month == 9 || self.month == 11 {
            30
        } else {
            31
        };
        self.year <= 9999 && 1 <= self.month && self.month <= 12 && 1 <= self.day && self.day <= dim
    }
}

/// The values of one column.
#[derive(Clone, Debug, PartialEq)]
pub enum ColumnValues {
    Text(Vec<String>),
    Integer(Vec<i64>),
    Boolean(Vec<bool>),
    Date(Vec<Date>),
}

/// One named, typed column.
#[derive(Clone, Debug, PartialEq)]
pub struct TableColumn {
    pub name: String,
    pub values: ColumnValues,
}

/// An ordered collection of named, typed columns of equal row count.
#[derive(Clone, Debug, PartialEq)]
pub struct Table {
    pub columns: Vec<TableColumn>,
}

/// The mathematical model of one column's values.
pub enum ColumnDataV {
    Text(Seq<Seq<char>>),
    Integer(Seq<int>),
    Boolean(Seq<bool>),
    Date(Seq<Date>),
}

/// The mathematical model of one column.
pub struct ColumnV {
    pub name: Seq<char>,
    pub data: ColumnDataV,
}

/// The mathematical model of a table.
pub struct TableV {
    pub cols: Seq<ColumnV>,
}

impl ColumnDataV {
    /// The declared type of this column.
    pub open spec fn kind(self) -> ColumnType {
        match self {
            ColumnDataV::Text(_) => ColumnType::Text,
            ColumnDataV::Integer(_) => ColumnType::Integer,
            ColumnDataV::Boolean(_) => ColumnType::Boolean,
            ColumnDataV::Date(_) => ColumnType::Date,
        }
    }

    /// The number of rows of this column.
    pub open spec fn rows(self) -> nat {
        match self {
            ColumnDataV::Text(v) => v.len(),
            ColumnDataV::Integer(v) => v.len(),
            ColumnDataV::Boolean(v) => v.len(),
            ColumnDataV::Date(v) => v.len(),
        }
    }

    /// Every integer value fits a 64-bit signed integer, and every date
    /// is a valid calendar date.
    pub open spec fn values_valid(self) -> bool {
        match self {
            ColumnDataV::Text(_) => true,
            ColumnDataV::Integer(v) => forall|i: int|
                0 <= i < v.len() ==> i64::MIN <= #[trigger] v[i] <= i64::MAX,
            ColumnDataV::Boolean(_) => true,
            ColumnDataV::Date(v) => forall|i: int| 0 <= i < v.len() ==> (#[trigger] v[i]).valid(),
        }
    }
}

impl View for ColumnValues {
    type V = ColumnDataV;

    open spec fn view(&self) -> ColumnDataV {
        match self {
            ColumnValues::Text(v) => ColumnDataV::Text(v.deep_view()),
            ColumnValues::Integer(v) => ColumnDataV::Integer(v@.map_values(|x: i64| x as int)),
            ColumnValues::Boolean(v) => ColumnDataV::Boolean(v@),
            ColumnValues::Date(v) => ColumnDataV::Date(v@),
        }
    }
}

impl View for TableColumn {
    type V = ColumnV;

    open spec fn view(&self) -> ColumnV {
        ColumnV { name: self.name@, data: self.values@ }
    }
}

impl View for Table {
    type V = TableV;

    open spec fn view(&self) -> TableV {
        TableV { cols: self.columns.deep_view() }
    }
}

impl DeepView for TableColumn {
    type V = ColumnV;

    open spec fn deep_view(&self) -> ColumnV {
        self@
    }
}

impl TableV {
    /// The number of rows shared by all columns.
    pub open spec fn rows(self) -> nat {
        if self.cols.len() == 0 {
            0
        } else {
            self.cols[0].data.rows()
        }
    }

    /// Column names are pairwise distinct.
    pub open spec fn names_distinct(self) -> bool {
        forall|i: int, j: int|
            0 <= i < j < self.cols.len() ==> self.cols[i].name != self.cols[j].name
    }

    /// Well-formedness: distinct names, a shared row count, and valid
    /// values throughout.
    pub open spec fn wf(self) -> bool {
        &&& self.names_distinct()
        &&& forall|i: int|
            0 <= i < self.cols.len() ==> (#[trigger] self.cols[i]).data.rows() == self.rows()
        &&& forall|i: int| 0 <= i < self.cols.len() ==> (#[trigger] self.cols[i]).data.values_valid()
    }
}

impl Table {
    /// Well-formedness of the in-memory table.
    pub open spec fn wf(self) -> bool {
        self@.wf()
    }

    /// The number of rows of this column's values.
    pub fn row_count(c: &TableColumn) -> (r: usize)
        ensures
            r == c@.data.rows(),
    {
        match &c.values {
            ColumnValues::Text(v) => v.len(),
            ColumnValues::Integer(v) => v.len(),
            ColumnValues::Boolean(v) => v.len(),
            ColumnValues::Date(v) => v.len(),
        }
    }

    /// The number of columns.
    pub fn width(&self) -> (r: usize)
        ensures
            r == self@.cols.len(),
    {
        self.columns.len()
    }

    /// Checks well-formedness: distinct column names, one shared row
    /// count, and valid values throughout.
    #[verifier::loop_isolation(false)]
    pub fn check_wf(&self) -> (r: bool)
        ensures
            r == self.wf(),
    {
        let w = self.columns.len();
        if w == 0 {
            return true;
        }
        let rows = Table::row_count(&self.columns[0]);
        let mut i: usize = 0;
        while i < w
            invariant
                i <= w,
                w == self@.cols.len(),
                rows == self@.rows(),
                forall|k: int| 0 <= k < i ==> (#[trigger] self@.cols[k]).data.rows() == rows,
            decreases w - i,
        {
            if Table::row_count(&self.columns[i]) != rows {
                proof {
                    assert(self.columns@[i as int]@ == self@.cols[i as int]);
                    assert(self@.cols[i as int].data.rows() != self@.rows());
                }
                return false;
            }
            i += 1;
        }
        let mut a: usize = 0;
        while a < w
            invariant
                a <= w,
                w == self@.cols.len(),
                forall|i: int, j: int|
                    0 <= i < j < self@.cols.len() && i < a ==> self@.cols[i].name != self@.cols[j].name,
            decreases w - a,
        {
            let na = crate::text::chars_of_str(self.columns[a].name.as_str());
            let mut b: usize = a + 1;
            while b < w
                invariant
                    a < b <= w,
                    w == self@.cols.len(),
                    na@ == self@.cols[a as int].name,
                    forall|j: int| a < j < b ==> self@.cols[a as int].name != self@.cols[j].name,
                decreases w - b,
            {
                let nb = crate::text::chars_of_str(self.columns[b].name.as_str());
                proof {
                    assert(nb@ == self@.cols[b as int].name);
                }
                if crate::text::chars_eq(&na, &nb) {
                    proof {
                        assert(self@.cols[a as int].name == self@.cols[b as int].name);
                        assert(!self@.names_distinct());
                    }
                    return false;
                }
                b += 1;
            }
            a += 1;
        }
        let mut j: usize = 0;
        while j < w
            invariant
                j <= w,
                w == self@.cols.len(),
                forall|k: int| 0 <= k < j ==> (#[trigger] self@.cols[k]).data.values_valid(),
            decreases w - j,
        {
            match &self.columns[j].values {
                ColumnValues::Date(v) => {
                    let mut k: usize = 0;
                    while k < v.len()
                        invariant
                            k <= v@.len(),
                            v@ == self@.cols[j as int].data->Date_0,
                            forall|i: int| 0 <= i < k ==> (#[trigger] v@[i]).valid(),
                        decreases v@.len() - k,
                    {
                        if !v[k].is_valid() {
                            return false;
                        }
                        k += 1;
                    }
                },
                ColumnValues::Integer(v) => {
                    proof {
                        let m = v@.map_values(|x: i64| x as int);
                        assert(forall|i: int| 0 <= i < m.len() ==> i64::MIN <= #[trigger] m[i] <= i64::MAX);
                    }
                },
                _ => {},
            }
            j += 1;
        }
        true
    }
}

} // verus!
