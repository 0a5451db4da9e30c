//! Row selection: keeping the cells at the positions that a mask marks.

use crate::dataset::{texts_of, Cells, Column, ColumnData, ColumnModel, Table, models_of};
use vstd::prelude::*;

verus! {

/// The items of `s` at the positions where `mask` holds, in their order.
/// A position beyond the mask's end is not kept.
pub open spec fn retain<T>(s: Seq<T>, mask: Seq<bool>) -> Seq<T>
    decreases s.len(),
{
    if s.len() == 0 {
        Seq::empty()
    } else if s.len() <= mask.len() && mask[s.len() - 1] {
        retain(s.drop_last(), mask).push(s.last())
    } else {
        retain(s.drop_last(), mask)
    }
}

/// How many of the first `n` positions the mask keeps.
pub open spec fn kept(mask: Seq<bool>, n: nat) -> nat
    decreases n,
{
    if n == 0 {
        0
    } else if n <= mask.len() && mask[n - 1] {
        kept(mask, (n - 1) as nat) + 1
    } else {
        kept(mask, (n - 1) as nat)
    }
}

/// A selection is as long as the number of positions kept, which is never
/// more than there were.
pub proof fn lemma_retain_len<T>(s: Seq<T>, mask: Seq<bool>)
    ensures
        retain(s, mask).len() == kept(mask, s.len()),
        kept(mask, s.len()) <= s.len(),
    decreases s.len(),
{
    if s.len() > 0 {
        lemma_retain_len(s.drop_last(), mask);
    }
}

/// The position, among the first `n`, of the item that a selection by the
/// mask puts at place `j`; -1 where the selection has no such place.
pub open spec fn origin(mask: Seq<bool>, n: nat, j: int) -> int
    decreases n,
{
    if n == 0 {
        -1
    } else if n <= mask.len() && mask[n - 1] && j == kept(mask, (n - 1) as nat) {
        n - 1
    } else {
        origin(mask, (n - 1) as nat, j)
    }
}

/// Each item of a selection stood in the sequence given at a position that
/// the mask keeps, and which position depends on the mask alone.
pub proof fn lemma_retain_origin<T>(s: Seq<T>, mask: Seq<bool>, j: int)
    requires
        0 <= j < kept(mask, s.len()),
    ensures
        0 <= origin(mask, s.len(), j) < s.len(),
        origin(mask, s.len(), j) < mask.len(),
        mask[origin(mask, s.len(), j)],
        retain(s, mask).len() == kept(mask, s.len()),
        retain(s, mask)[j] == s[origin(mask, s.len(), j)],
    decreases s.len(),
{
    let n = s.len();
    lemma_retain_len(s, mask);
    lemma_retain_len(s.drop_last(), mask);
    if n <= mask.len() && mask[n - 1] && j == kept(mask, (n - 1) as nat) {
    } else {
        lemma_retain_origin(s.drop_last(), mask, j);
    }
}

impl Cells {
    /// The cells at the positions that the mask keeps.
    pub open spec fn retain(self, mask: Seq<bool>) -> Cells {
        match self {
            Cells::Text(s) => Cells::Text(retain(s, mask)),
            Cells::Int64(s) => Cells::Int64(retain(s, mask)),
            Cells::Int32(s) => Cells::Int32(retain(s, mask)),
            Cells::Float64(s) => Cells::Float64(retain(s, mask)),
            Cells::Date(s) => Cells::Date(retain(s, mask)),
        }
    }
}

impl Table {
    /// The table of the rows that the mask keeps.
    pub open spec fn retain_rows(self, mask: Seq<bool>) -> Table {
        Table {
            columns: Seq::new(
                self.columns.len(),
                |c: int|
                    ColumnModel {
                        name: self.columns[c].name,
                        cells: self.columns[c].cells.retain(mask),
                    },
            ),
        }
    }
}

/// Selected cells are of the type they were, and as many as the mask keeps.
pub proof fn lemma_cells_retain(cells: Cells, mask: Seq<bool>)
    ensures
        cells.retain(mask).dtype() == cells.dtype(),
        cells.retain(mask).len() == kept(mask, cells.len()),
        kept(mask, cells.len()) <= cells.len(),
{
    match cells {
        Cells::Text(s) => lemma_retain_len(s, mask),
        Cells::Int64(s) => lemma_retain_len(s, mask),
        Cells::Int32(s) => lemma_retain_len(s, mask),
        Cells::Float64(s) => lemma_retain_len(s, mask),
        Cells::Date(s) => lemma_retain_len(s, mask),
    }
}

/// Each cell of a selection is the cell of the cells given at the position
/// that the place comes from.
pub proof fn lemma_cells_origin(cells: Cells, mask: Seq<bool>, j: int)
    requires
        0 <= j < kept(mask, cells.len()),
    ensures
        0 <= origin(mask, cells.len(), j) < cells.len(),
        origin(mask, cells.len(), j) < mask.len(),
        mask[origin(mask, cells.len(), j)],
        cells.retain(mask).len() == kept(mask, cells.len()),
        cells.retain(mask).present(j) == cells.present(origin(mask, cells.len(), j)),
        match (cells, cells.retain(mask)) {
            (Cells::Text(a), Cells::Text(b)) => b[j] == a[origin(mask, a.len(), j)],
            (Cells::Int64(a), Cells::Int64(b)) => b[j] == a[origin(mask, a.len(), j)],
            (Cells::Int32(a), Cells::Int32(b)) => b[j] == a[origin(mask, a.len(), j)],
            (Cells::Float64(a), Cells::Float64(b)) => b[j] == a[origin(mask, a.len(), j)],
            (Cells::Date(a), Cells::Date(b)) => b[j] == a[origin(mask, a.len(), j)],
            _ => false,
        },
{
    match cells {
        Cells::Text(s) => lemma_retain_origin(s, mask, j),
        Cells::Int64(s) => lemma_retain_origin(s, mask, j),
        Cells::Int32(s) => lemma_retain_origin(s, mask, j),
        Cells::Float64(s) => lemma_retain_origin(s, mask, j),
        Cells::Date(s) => lemma_retain_origin(s, mask, j),
    }
}

/// Selecting rows of a table leaves a table, with the same columns and no
/// more rows than before.
pub proof fn lemma_retain_rows(t: Table, mask: Seq<bool>)
    requires
        t.well_formed(),
    ensures
        t.retain_rows(mask).well_formed(),
        t.retain_rows(mask).width() == t.width(),
        t.retain_rows(mask).height() == (if t.width() == 0 {
            0
        } else {
            kept(mask, t.height())
        }),
        t.retain_rows(mask).height() <= t.height(),
{
    let r = t.retain_rows(mask);
    assert forall|c: int| 0 <= c < r.columns.len() implies (#[trigger] r.columns[c]).cells.len()
        == kept(mask, t.height()) by {
        lemma_cells_retain(t.columns[c].cells, mask);
    }
    if t.width() > 0 {
        lemma_cells_retain(t.columns[0].cells, mask);
    }
    assert forall|a: int, b: int| 0 <= a < b < r.columns.len() implies (#[trigger] r.columns[a]).name
        != (#[trigger] r.columns[b]).name by {
        assert(t.columns[a].name != t.columns[b].name);
    }
}

/// Copies out the items at the positions that the mask keeps.
pub fn retain_values<T: Copy>(cells: &Vec<T>, mask: &Vec<bool>) -> (out: Vec<T>)
    ensures
        out@ == retain(cells@, mask@),
{
    let mut out: Vec<T> = Vec::new();
    let mut i: usize = 0;
    while i < cells.len()
        invariant
            i <= cells@.len(),
            out@ == retain(cells@.take(i as int), mask@),
        decreases cells@.len() - i,
    {
        proof {
            assert(cells@.take(i + 1).drop_last() =~= cells@.take(i as int));
        }
        if i < mask.len() && mask[i] {
            out.push(cells[i]);
        }
        i += 1;
    }
    proof {
        assert(cells@.take(cells@.len() as int) =~= cells@);
    }
    out
}

/// Copies out the text cells at the positions that the mask keeps.
pub fn retain_texts(cells: &Vec<Option<String>>, mask: &Vec<bool>) -> (out: Vec<Option<String>>)
    ensures
        texts_of(out@) == retain(texts_of(cells@), mask@),
{
    let mut out: Vec<Option<String>> = Vec::new();
    let mut i: usize = 0;
    proof {
        assert(texts_of(out@) =~= retain(texts_of(cells@).take(0), mask@));
    }
    while i < cells.len()
        invariant
            i <= cells@.len(),
            texts_of(out@) == retain(texts_of(cells@).take(i as int), mask@),
        decreases cells@.len() - i,
    {
        let ghost before = out@;
        proof {
            assert(texts_of(cells@).take(i + 1).drop_last() =~= texts_of(cells@).take(i as int));
        }
        if i < mask.len() && mask[i] {
            let cell = match &cells[i] {
                Some(s) => Some(s.clone()),
                None => None,
            };
            out.push(cell);
            proof {
                assert(texts_of(out@) =~= texts_of(before).push(texts_of(cells@)[i as int]));
            }
        }
        i += 1;
    }
    proof {
        assert(texts_of(cells@).take(cells@.len() as int) =~= texts_of(cells@));
    }
    out
}

/// Copies out the cells at the positions that the mask keeps.
pub fn retain_cells(data: &ColumnData, mask: &Vec<bool>) -> (out: ColumnData)
    ensures
        out@ == data@.retain(mask@),
{
    match data {
        ColumnData::Text(v) => ColumnData::Text(retain_texts(v, mask)),
        ColumnData::Int64(v) => ColumnData::Int64(retain_values(v, mask)),
        ColumnData::Int32(v) => ColumnData::Int32(retain_values(v, mask)),
        ColumnData::Float64(v) => ColumnData::Float64(retain_values(v, mask)),
        ColumnData::Date(v) => ColumnData::Date(retain_values(v, mask)),
    }
}

/// Copies out, column by column, the rows that the mask keeps.
pub fn retain_rows(columns: &Vec<Column>, mask: &Vec<bool>) -> (out: Vec<Column>)
    ensures
        (Table { columns: models_of(out@) }) == (Table { columns: models_of(columns@) }).retain_rows(
            mask@,
        ),
{
    let ghost t = Table { columns: models_of(columns@) };
    let mut out: Vec<Column> = Vec::new();
    let mut c: usize = 0;
    while c < columns.len()
        invariant
            c <= columns@.len(),
            t == (Table { columns: models_of(columns@) }),
            out@.len() == c,
            forall|k: int| 0 <= k < c ==> (#[trigger] out@[k])@ == t.retain_rows(mask@).columns[k],
        decreases columns@.len() - c,
    {
        let column = Column {
            name: columns[c].name.clone(),
            data: retain_cells(&columns[c].data, mask),
        };
        out.push(column);
        c += 1;
    }
    proof {
        assert(models_of(out@) =~= t.retain_rows(mask@).columns);
    }
    out
}

} // verus!
