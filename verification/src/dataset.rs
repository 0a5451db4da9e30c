//! The in-memory table that the pipeline works on: named, typed columns of
//! equal length, each cell present or missing.

use vstd::prelude::*;

verus! {

/// The type of a column's cells.
#[derive(Clone, Copy, Debug, PartialEq, Eq, Structural)]
pub enum DataType {
    /// Text.
    Text,
    /// Signed integers of 64 bits.
    Int64,
    /// Signed integers of 32 bits.
    Int32,
    /// Binary64 numbers.
    Float64,
    /// Calendar dates.
    Date,
}

/// The cells of one column. A missing cell is `None`.
#[derive(Debug)]
pub enum ColumnData {
    /// Text cells.
    Text(Vec<Option<String>>),
    /// Integer cells of 64 bits.
    Int64(Vec<Option<i64>>),
    /// Integer cells of 32 bits.
    Int32(Vec<Option<i32>>),
    /// Binary64 cells, each held as its IEEE 754 bit pattern.
    Float64(Vec<Option<u64>>),
    /// Date cells, each held as a count of days since 1970-01-01.
    Date(Vec<Option<i32>>),
}

/// A named column.
#[derive(Debug)]
pub struct Column {
    /// The column's name.
    pub name: String,
    /// The column's cells.
    pub data: ColumnData,
}

/// A table: columns of one common length under pairwise different names.
#[derive(Debug)]
pub struct Dataset {
    columns: Vec<Column>,
}

/// What a column holds, as mathematics.
pub enum Cells {
    Text(Seq<Option<Seq<char>>>),
    Int64(Seq<Option<i64>>),
    Int32(Seq<Option<i32>>),
    Float64(Seq<Option<u64>>),
    Date(Seq<Option<i32>>),
}

/// A column as mathematics: its name and its cells.
pub struct ColumnModel {
    pub name: Seq<char>,
    pub cells: Cells,
}

/// A table as mathematics: its columns in order.
pub struct Table {
    pub columns: Seq<ColumnModel>,
}

/// The text of a cell that may be missing.
pub open spec fn text_of(cell: Option<String>) -> Option<Seq<char>> {
    match cell {
        Some(s) => Some(s@),
        None => None,
    }
}

/// The texts of a sequence of cells.
pub open spec fn texts_of(cells: Seq<Option<String>>) -> Seq<Option<Seq<char>>> {
    Seq::new(cells.len(), |i: int| text_of(cells[i]))
}

impl View for ColumnData {
    type V = Cells;

    open spec fn view(&self) -> Cells {
        match *self {
            ColumnData::Text(v) => Cells::Text(texts_of(v@)),
            ColumnData::Int64(v) => Cells::Int64(v@),
            ColumnData::Int32(v) => Cells::Int32(v@),
            ColumnData::Float64(v) => Cells::Float64(v@),
            ColumnData::Date(v) => Cells::Date(v@),
        }
    }
}

impl View for Column {
    type V = ColumnModel;

    open spec fn view(&self) -> ColumnModel {
        ColumnModel { name: self.name@, cells: self.data@ }
    }
}

/// The models of a sequence of columns.
pub open spec fn models_of(columns: Seq<Column>) -> Seq<ColumnModel> {
    Seq::new(columns.len(), |i: int| columns[i]@)
}

impl Cells {
    /// The number of cells.
    pub open spec fn len(self) -> nat {
        match self {
            Cells::Text(s) => s.len(),
            Cells::Int64(s) => s.len(),
            Cells::Int32(s) => s.len(),
            Cells::Float64(s) => s.len(),
            Cells::Date(s) => s.len(),
        }
    }

    /// The type of the cells.
    pub open spec fn dtype(self) -> DataType {
        match self {
            Cells::Text(_) => DataType::Text,
            Cells::Int64(_) => DataType::Int64,
            Cells::Int32(_) => DataType::Int32,
            Cells::Float64(_) => DataType::Float64,
            Cells::Date(_) => DataType::Date,
        }
    }

    /// Whether cell `i` holds a value.
    pub open spec fn present(self, i: int) -> bool {
        match self {
            Cells::Text(s) => s[i] is Some,
            Cells::Int64(s) => s[i] is Some,
            Cells::Int32(s) => s[i] is Some,
            Cells::Float64(s) => s[i] is Some,
            Cells::Date(s) => s[i] is Some,
        }
    }
}

impl Table {
    /// The number of columns.
    pub open spec fn width(self) -> nat {
        self.columns.len()
    }

    /// The number of rows: the length of the first column, 0 without columns.
    pub open spec fn height(self) -> nat {
        if self.columns.len() == 0 {
            0
        } else {
            self.columns[0].cells.len()
        }
    }

    /// Every column is as long as the first.
    pub open spec fn rectangular(self) -> bool {
        forall|i: int|
            0 <= i < self.columns.len() ==> (#[trigger] self.columns[i]).cells.len()
                == self.height()
    }

    /// No two columns share a name.
    pub open spec fn distinct_names(self) -> bool {
        forall|i: int, j: int|
            0 <= i < j < self.columns.len() ==> (#[trigger] self.columns[i]).name != (
            #[trigger] self.columns[j]).name
    }

    /// The invariant of a table.
    pub open spec fn well_formed(self) -> bool {
        self.rectangular() && self.distinct_names()
    }

    /// Whether a column of this name exists.
    pub open spec fn has(self, name: Seq<char>) -> bool {
        exists|i: int| 0 <= i < self.columns.len() && (#[trigger] self.columns[i]).name == name
    }

    /// The position of the column of this name, where there is one.
    pub open spec fn position(self, name: Seq<char>) -> int {
        choose|i: int| 0 <= i < self.columns.len() && (#[trigger] self.columns[i]).name == name
    }

    /// The column of this name, where there is one.
    pub open spec fn column(self, name: Seq<char>) -> ColumnModel {
        self.columns[self.position(name)]
    }
}

/// In a table with pairwise different names, a column is found at the one
/// position that carries its name.
pub proof fn lemma_position_unique(t: Table, name: Seq<char>, i: int)
    requires
        t.distinct_names(),
        0 <= i < t.columns.len(),
        t.columns[i].name == name,
    ensures
        t.has(name),
        t.position(name) == i,
{
    let j = t.position(name);
    assert(0 <= j < t.columns.len() && t.columns[j].name == name);
    if j < i {
        assert(t.columns[j].name != t.columns[i].name);
    } else if i < j {
        assert(t.columns[i].name != t.columns[j].name);
    }
}

impl ColumnData {
    /// The number of cells.
    pub fn len(&self) -> (n: usize)
        ensures
            n == self@.len(),
    {
        match self {
            ColumnData::Text(v) => v.len(),
            ColumnData::Int64(v) => v.len(),
            ColumnData::Int32(v) => v.len(),
            ColumnData::Float64(v) => v.len(),
            ColumnData::Date(v) => v.len(),
        }
    }

    /// The type of the cells.
    pub fn dtype(&self) -> (t: DataType)
        ensures
            t == self@.dtype(),
    {
        match self {
            ColumnData::Text(_) => DataType::Text,
            ColumnData::Int64(_) => DataType::Int64,
            ColumnData::Int32(_) => DataType::Int32,
            ColumnData::Float64(_) => DataType::Float64,
            ColumnData::Date(_) => DataType::Date,
        }
    }

    /// Whether there is a cell `i` and it holds a value.
    pub fn is_present(&self, i: usize) -> (b: bool)
        ensures
            b == (i < self@.len() && self@.present(i as int)),
    {
        match self {
            ColumnData::Text(v) => i < v.len() && v[i].is_some(),
            ColumnData::Int64(v) => i < v.len() && v[i].is_some(),
            ColumnData::Int32(v) => i < v.len() && v[i].is_some(),
            ColumnData::Float64(v) => i < v.len() && v[i].is_some(),
            ColumnData::Date(v) => i < v.len() && v[i].is_some(),
        }
    }
}

/// Why a list of columns is no table.
#[derive(Clone, Copy, Debug, PartialEq, Eq, Structural)]
pub enum DatasetError {
    /// Some column is not as long as the first.
    UnequalLengths,
    /// Two columns share a name.
    DuplicateName,
}

impl View for Dataset {
    type V = Table;

    closed spec fn view(&self) -> Table {
        Table { columns: models_of(self.columns@) }
    }
}

impl Dataset {
    #[verifier::type_invariant]
    spec fn inv(self) -> bool {
        Table { columns: models_of(self.columns@) }.well_formed()
    }

    /// Makes a table of the columns given, in their order. This succeeds
    /// exactly where the columns are equally long and no name occurs twice;
    /// unequal lengths are reported before a repeated name.
    pub fn new(columns: Vec<Column>) -> (r: Result<Dataset, DatasetError>)
        ensures
            match r {
                Ok(d) => d@ == (Table { columns: models_of(columns@) }) && d@.well_formed(),
                Err(DatasetError::UnequalLengths) => !(Table {
                    columns: models_of(columns@),
                }).rectangular(),
                Err(DatasetError::DuplicateName) => (Table {
                    columns: models_of(columns@),
                }).rectangular() && !(Table { columns: models_of(columns@) }).distinct_names(),
            },
    {
        let ghost t = Table { columns: models_of(columns@) };
        let n = columns.len();
        let mut i: usize = 1;
        while i < n
            invariant
                1 <= i,
                n == columns@.len(),
                t == (Table { columns: models_of(columns@) }),
                forall|k: int| 0 <= k < i && k < n ==> (#[trigger] t.columns[k]).cells.len() == t.height(),
            decreases n - i,
        {
            if columns[i].data.len() != columns[0].data.len() {
                assert(t.columns[i as int].cells.len() != t.height());
                return Err(DatasetError::UnequalLengths);
            }
            i += 1;
        }
        assert(t.rectangular());
        let mut j: usize = 0;
        while j < n
            invariant
                j <= n,
                n == columns@.len(),
                t == (Table { columns: models_of(columns@) }),
                t.rectangular(),
                forall|a: int, b: int|
                    0 <= a < b < j ==> (#[trigger] t.columns[a]).name != (#[trigger] t.columns[b]).name,
            decreases n - j,
        {
            let mut k: usize = 0;
            while k < j
                invariant
                    k <= j < n,
                    n == columns@.len(),
                    t == (Table { columns: models_of(columns@) }),
                    t.rectangular(),
                    forall|a: int| 0 <= a < k ==> (#[trigger] t.columns[a]).name != t.columns[j as int].name,
                decreases j - k,
            {
                if columns[k].name == columns[j].name {
                    assert(t.columns[k as int].name == t.columns[j as int].name);
                    return Err(DatasetError::DuplicateName);
                }
                k += 1;
            }
            j += 1;
        }
        assert(t.distinct_names());
        Ok(Dataset { columns })
    }

    /// Makes a table of columns that are known to form one.
    pub(crate) fn from_columns(columns: Vec<Column>) -> (d: Dataset)
        requires
            (Table { columns: models_of(columns@) }).well_formed(),
        ensures
            d@ == (Table { columns: models_of(columns@) }),
    {
        Dataset { columns }
    }

    /// Gives the columns up.
    pub(crate) fn into_columns(self) -> (columns: Vec<Column>)
        ensures
            self@ == (Table { columns: models_of(columns@) }),
            self@.well_formed(),
    {
        proof {
            use_type_invariant(&self);
        }
        self.columns
    }

    /// The columns, in order.
    pub fn columns(&self) -> (columns: &Vec<Column>)
        ensures
            self@ == (Table { columns: models_of(columns@) }),
            self@.well_formed(),
    {
        proof {
            use_type_invariant(self);
        }
        &self.columns
    }

    /// The number of columns.
    pub fn width(&self) -> (n: usize)
        ensures
            n == self@.width(),
    {
        self.columns.len()
    }

    /// The number of rows.
    pub fn height(&self) -> (n: usize)
        ensures
            n == self@.height(),
    {
        if self.columns.len() == 0 {
            0
        } else {
            self.columns[0].data.len()
        }
    }

    /// Whether the table has no rows.
    pub fn is_empty(&self) -> (b: bool)
        ensures
            b == (self@.height() == 0),
    {
        self.height() == 0
    }

    /// The position of the column of this name, if there is one.
    pub fn position(&self, name: &str) -> (r: Option<usize>)
        ensures
            r is Some <==> self@.has(name@),
            r matches Some(i) ==> i == self@.position(name@) && i < self@.width(),
    {
        proof {
            use_type_invariant(self);
        }
        let r = find_column(&self.columns, name);
        proof {
            if let Some(i) = r {
                lemma_position_unique(self@, name@, i as int);
            }
        }
        r
    }

    /// The column of this name, if there is one.
    pub fn column(&self, name: &str) -> (r: Option<&Column>)
        ensures
            r is Some <==> self@.has(name@),
            r matches Some(c) ==> c@ == self@.column(name@),
    {
        match self.position(name) {
            Some(i) => Some(&self.columns[i]),
            None => None,
        }
    }
}

/// The first position in `columns` whose column has this name.
pub fn find_column(columns: &Vec<Column>, name: &str) -> (r: Option<usize>)
    ensures
        match r {
            Some(i) => {
                &&& i < columns@.len()
                &&& columns@[i as int].name@ == name@
                &&& forall|k: int| 0 <= k < i ==> (#[trigger] columns@[k]).name@ != name@
            },
            None => forall|k: int| 0 <= k < columns@.len() ==> (#[trigger] columns@[k]).name@ != name@,
        },
{
    let key = name.to_owned();
    let mut i: usize = 0;
    while i < columns.len()
        invariant
            i <= columns@.len(),
            key@ == name@,
            forall|k: int| 0 <= k < i ==> (#[trigger] columns@[k]).name@ != name@,
        decreases columns@.len() - i,
    {
        if columns[i].name == key {
            return Some(i);
        }
        i += 1;
    }
    None
}

} // verus!
