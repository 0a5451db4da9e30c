//! What the dataframe engine computes for the pipeline: the lowercase form of
//! a text, the date that a text spells under a format, and the quotient of
//! an amount by a whole number.
//!
//! The three functions marked `external_body` call polars; Verus takes
//! their contracts on trust.

use crate::dataset::{text_of, texts_of};
use polars::prelude::{
    NewChunkedArray, StringChunked, StringMethods, StringNameSpaceImpl, UInt64Chunked,
};
use vstd::prelude::*;

verus! {

/// The text that polars' `to_lowercase` makes of a text.
pub uninterp spec fn lowercased(text: Seq<char>) -> Seq<char>;

/// The date that polars' `as_date` reads from a text under a format, as
/// days since 1970-01-01; `None` where it reads none.
pub uninterp spec fn parsed_date(text: Seq<char>, format: Seq<char>) -> Option<i32>;

/// The bit pattern of the binary64 number that polars' division by a whole
/// number makes of the number with the bit pattern given.
pub uninterp spec fn quotient(bits: u64, divisor: i32) -> u64;

/// The format of an admission date: year, month and day, with hyphens
/// between them.
pub open spec fn date_format() -> Seq<char> {
    "%Y-%m-%d"@
}

/// What a billing amount is divided by.
pub const AMOUNT_DIVISOR: i32 = 1000;

/// Whether a bit pattern is that of a binary64 not-a-number.
pub open spec fn is_nan(bits: u64) -> bool {
    bits & 0x7fff_ffff_ffff_ffff > 0x7ff0_0000_0000_0000
}

/// Whether a bit pattern is that of a finite binary64 number.
pub open spec fn is_finite(bits: u64) -> bool {
    bits & 0x7ff0_0000_0000_0000 != 0x7ff0_0000_0000_0000
}

/// The lowercase form of a text cell; a missing cell stays missing.
pub open spec fn lowercased_cell(cell: Option<Seq<char>>) -> Option<Seq<char>> {
    match cell {
        Some(t) => Some(lowercased(t)),
        None => None,
    }
}

/// The lowercase forms of text cells.
pub open spec fn lowercased_cells(cells: Seq<Option<Seq<char>>>) -> Seq<Option<Seq<char>>> {
    Seq::new(cells.len(), |i: int| lowercased_cell(cells[i]))
}

/// The date of a text cell under the format of admission dates; a missing
/// cell, and one that spells no date, gives none.
pub open spec fn parsed_cell(cell: Option<Seq<char>>) -> Option<i32> {
    match cell {
        Some(t) => parsed_date(t, date_format()),
        None => None,
    }
}

/// The dates of text cells.
pub open spec fn parsed_cells(cells: Seq<Option<Seq<char>>>) -> Seq<Option<i32>> {
    Seq::new(cells.len(), |i: int| parsed_cell(cells[i]))
}

/// An amount divided by 1000. A not-a-number stays as it is.
pub open spec fn scaled_amount(bits: u64) -> u64 {
    if is_nan(bits) {
        bits
    } else {
        quotient(bits, AMOUNT_DIVISOR)
    }
}

/// An amount cell divided by 1000; a missing cell stays missing.
pub open spec fn scaled_cell(cell: Option<u64>) -> Option<u64> {
    match cell {
        Some(b) => Some(scaled_amount(b)),
        None => None,
    }
}

/// Amount cells divided by 1000.
pub open spec fn scaled_cells(cells: Seq<Option<u64>>) -> Seq<Option<u64>> {
    Seq::new(cells.len(), |i: int| scaled_cell(cells[i]))
}

/// Calls polars' `StringNameSpaceImpl::to_lowercase` on a string column
/// made of the cells. The contract claims that the engine converts cell by
/// cell: as many cells come back, a missing one stays missing, and each
/// text is replaced by its lowercase form, which depends on that text alone.
#[verifier::external_body]
fn engine_lowercase(cells: &Vec<Option<String>>) -> (out: Vec<Option<String>>)
    ensures
        out@.len() == cells@.len(),
        forall|i: int|
            0 <= i < cells@.len() ==> text_of(#[trigger] out@[i]) == (match text_of(cells@[i]) {
                Some(t) => Some(lowercased(t)),
                None => None,
            }),
{
    let column = StringChunked::from_iter_options("", cells.iter().map(|c| c.as_deref()));
    column.to_lowercase().into_iter().map(|c| c.map(|s| s.to_string())).collect()
}

/// Calls polars' `StringMethods::as_date` with the format given and
/// without its cache on a string column made of the cells. The format is
/// that of admission dates, which the engine accepts. The contract claims
/// that the engine parses cell by cell: as many cells come back, a missing
/// one stays missing, and each text gives the day number of the date it
/// spells or nothing, which depends on that text and the format alone.
#[verifier::external_body]
fn engine_parse_dates(cells: &Vec<Option<String>>, format: &str) -> (out: Vec<Option<i32>>)
    requires
        format@ == "%Y-%m-%d"@,
    ensures
        out@.len() == cells@.len(),
        forall|i: int|
            0 <= i < cells@.len() ==> #[trigger] out@[i] == (match text_of(cells@[i]) {
                Some(t) => parsed_date(t, format@),
                None => None,
            }),
{
    let column = StringChunked::from_iter_options("", cells.iter().map(|c| c.as_deref()));
    match column.as_date(Some(format), false) {
        Ok(dates) => dates.into_iter().collect(),
        Err(_) => Vec::new(),
    }
}

/// Calls polars' division of a binary64 column by a scalar on the column
/// whose cells have the bit patterns given (`_reinterpret_float` makes the
/// column, `to_bits` reads the quotients). The divisor is not zero. The
/// contract claims that the engine divides cell by cell: as many cells come
/// back, a missing one stays missing, and a number gives a quotient that
/// depends on that number and the divisor alone. Of a not-a-number it
/// claims only that a value comes back.
#[verifier::external_body]
fn engine_divide(cells: &Vec<Option<u64>>, divisor: i32) -> (out: Vec<Option<u64>>)
    requires
        divisor != 0,
    ensures
        out@.len() == cells@.len(),
        forall|i: int|
            0 <= i < cells@.len() ==> (match cells@[i] {
                Some(b) => (#[trigger] out@[i]) is Some && (!is_nan(b) ==> out@[i] == Some(
                    quotient(b, divisor),
                )),
                None => out@[i] is None,
            }),
{
    let column = UInt64Chunked::from_slice_options("", cells);
    let quotients = column._reinterpret_float() / divisor;
    quotients.into_iter().map(|c| c.map(|q| q.to_bits())).collect()
}

/// Tests a bit pattern for a binary64 not-a-number.
pub fn is_nan_bits(bits: u64) -> (b: bool)
    ensures
        b == is_nan(bits),
{
    (bits & 0x7fff_ffff_ffff_ffff) > 0x7ff0_0000_0000_0000
}

/// Tests a bit pattern for a finite binary64 number.
pub fn is_finite_bits(bits: u64) -> (b: bool)
    ensures
        b == is_finite(bits),
{
    (bits & 0x7ff0_0000_0000_0000) != 0x7ff0_0000_0000_0000
}

/// The lowercase forms of the text cells given.
pub fn lowercase_texts(cells: &Vec<Option<String>>) -> (out: Vec<Option<String>>)
    ensures
        texts_of(out@) == lowercased_cells(texts_of(cells@)),
{
    let out = engine_lowercase(cells);
    proof {
        assert(texts_of(out@) =~= lowercased_cells(texts_of(cells@)));
    }
    out
}

/// Whether lowercasing is idempotent on the cells: the lowercase form of
/// each text among them is its own lowercase form.
pub open spec fn lowercase_idempotent_on(cells: Seq<Option<Seq<char>>>) -> bool {
    forall|i: int|
        0 <= i < cells.len() && (#[trigger] cells[i]) is Some ==> lowercased(
            lowercased(cells[i]->0),
        ) == lowercased(cells[i]->0)
}

/// Tests whether lowercasing is idempotent on the cells, by lowercasing
/// them twice.
pub fn lowercase_is_idempotent_on(cells: &Vec<Option<String>>) -> (b: bool)
    ensures
        b == lowercase_idempotent_on(texts_of(cells@)),
{
    let once = lowercase_texts(cells);
    let twice = lowercase_texts(&once);
    let ghost texts = texts_of(cells@);
    assert(once@.len() == texts_of(once@).len() && twice@.len() == texts_of(twice@).len());
    let mut i: usize = 0;
    while i < once.len()
        invariant
            i <= once@.len(),
            once@.len() == cells@.len(),
            twice@.len() == cells@.len(),
            texts == texts_of(cells@),
            texts_of(once@) == lowercased_cells(texts),
            texts_of(twice@) == lowercased_cells(texts_of(once@)),
            forall|k: int|
                0 <= k < i && (#[trigger] texts[k]) is Some ==> lowercased(lowercased(texts[k]->0))
                    == lowercased(texts[k]->0),
        decreases once@.len() - i,
    {
        proof {
            assert(texts_of(once@)[i as int] == lowercased_cell(texts[i as int]));
            assert(texts_of(twice@)[i as int] == lowercased_cell(texts_of(once@)[i as int]));
        }
        let same = match (&once[i], &twice[i]) {
            (Some(a), Some(b)) => *a == *b,
            _ => true,
        };
        if !same {
            proof {
                assert(texts[i as int] is Some);
            }
            return false;
        }
        i += 1;
    }
    true
}

/// The dates that the text cells given spell under the format of admission
/// dates.
pub fn parse_dates(cells: &Vec<Option<String>>) -> (out: Vec<Option<i32>>)
    ensures
        out@ == parsed_cells(texts_of(cells@)),
{
    let out = engine_parse_dates(cells, "%Y-%m-%d");
    proof {
        assert(out@ =~= parsed_cells(texts_of(cells@)));
    }
    out
}

/// What becomes of amount cells once the engine has given a quotient for
/// each: a not-a-number stays as it was, any other amount gives way to its
/// quotient, and a missing cell stays missing. Where the quotients are
/// fewer than the cells, the cells beyond them come out missing.
pub open spec fn settled_cells(cells: Seq<Option<u64>>, quotients: Seq<Option<u64>>) -> Seq<
    Option<u64>,
> {
    Seq::new(
        cells.len(),
        |i: int|
            match cells[i] {
                Some(b) => if is_nan(b) {
                    Some(b)
                } else if i < quotients.len() {
                    quotients[i]
                } else {
                    None
                },
                None => None,
            },
    )
}

/// Puts each quotient in the place of its amount, but for the amounts that
/// are not-a-numbers, which stay.
pub fn settle_amounts(cells: &Vec<Option<u64>>, quotients: &Vec<Option<u64>>) -> (out: Vec<
    Option<u64>,
>)
    ensures
        out@ == settled_cells(cells@, quotients@),
{
    let mut out: Vec<Option<u64>> = Vec::new();
    let mut i: usize = 0;
    while i < cells.len()
        invariant
            i <= cells@.len(),
            out@.len() == i,
            forall|k: int| 0 <= k < i ==> out@[k] == settled_cells(cells@, quotients@)[k],
        decreases cells@.len() - i,
    {
        let cell = match cells[i] {
            Some(b) => if is_nan_bits(b) {
                Some(b)
            } else if i < quotients.len() {
                quotients[i]
            } else {
                None
            },
            None => None,
        };
        out.push(cell);
        i += 1;
    }
    proof {
        assert(out@ =~= settled_cells(cells@, quotients@));
    }
    out
}

/// The amounts given, each divided by 1000.
pub fn scale_amounts(cells: &Vec<Option<u64>>) -> (out: Vec<Option<u64>>)
    ensures
        out@ == scaled_cells(cells@),
{
    let quotients = engine_divide(cells, AMOUNT_DIVISOR);
    let out = settle_amounts(cells, &quotients);
    proof {
        assert(out@ =~= scaled_cells(cells@));
    }
    out
}

} // verus!
