//! The row extractor: validates and coerces one data row into a supplier
//! entry, or rejects it with a row-scoped failure. Extraction reads the
//! name, then the stock, then the price, and stops at the first failure;
//! a name that was already read is kept for the error report.

use vstd::prelude::*;
use vstd::string::StringExecFns;
use crate::cells::{Cell, EntryModel, FloatCell, Rejection, RejectionModel, RowFailure, SupplierEntry};
use crate::header::HeaderIndex;
use crate::numfmt::{dec_str_int, i64_to_dec_string};

verus! {

/// The header text of the product name column.
pub open spec fn name_key() -> Seq<char> {
    "Name"@
}

/// The header text of the stock amount column.
pub open spec fn stock_key() -> Seq<char> {
    "Stock"@
}

/// The header text of the price column.
pub open spec fn price_key() -> Seq<char> {
    "Price"@
}

/// The cell that a header text selects in a row: the text must be known
/// to the header index, and the row must reach the selected position.
pub open spec fn fetch_cell(row: Seq<Cell>, hm: Map<Seq<char>, int>, key: Seq<char>) -> Result<
    Cell,
    RowFailure,
> {
    if !hm.contains_key(key) {
        Err(RowFailure::MissingColumn)
    } else if !(0 <= hm[key] < row.len()) {
        Err(RowFailure::RowTooShort)
    } else {
        Ok(row[hm[key]])
    }
}

/// What extracting one data row yields: an entry model, or a rejection
/// with the failure kind and the candidate name if one was read.
pub open spec fn extract_spec(row: Seq<Cell>, hm: Map<Seq<char>, int>) -> Result<
    EntryModel,
    RejectionModel,
> {
    match fetch_cell(row, hm, name_key()) {
        Err(k) => Err(RejectionModel { name: None, kind: k }),
        Ok(c) => match c {
            Cell::Text(n) => extract_after_name(row, hm, n@),
            _ => Err(RejectionModel { name: None, kind: RowFailure::InvalidCellType }),
        },
    }
}

/// The stock step: a fractional cell contributes its decimal form, an
/// integer cell is coerced to its decimal form.
pub open spec fn extract_after_name(
    row: Seq<Cell>,
    hm: Map<Seq<char>, int>,
    name: Seq<char>,
) -> Result<EntryModel, RejectionModel> {
    match fetch_cell(row, hm, stock_key()) {
        Err(k) => Err(RejectionModel { name: Some(name), kind: k }),
        Ok(c) => match c {
            Cell::Float(fc) => extract_after_stock(row, hm, name, fc.repr@),
            Cell::Int(v) => extract_after_stock(row, hm, name, dec_str_int(v as int)),
            _ => Err(RejectionModel { name: Some(name), kind: RowFailure::InvalidCellType }),
        },
    }
}

/// The price step: an integer cell contributes its value, a fractional
/// cell its ceiling.
pub open spec fn extract_after_stock(
    row: Seq<Cell>,
    hm: Map<Seq<char>, int>,
    name: Seq<char>,
    stock: Seq<char>,
) -> Result<EntryModel, RejectionModel> {
    match fetch_cell(row, hm, price_key()) {
        Err(k) => Err(RejectionModel { name: Some(name), kind: k }),
        Ok(c) => match c {
            Cell::Int(v) => Ok(EntryModel { name, stock, price: v as int }),
            Cell::Float(fc) => Ok(EntryModel { name, stock, price: fc.ceil as int }),
            _ => Err(RejectionModel { name: Some(name), kind: RowFailure::InvalidCellType }),
        },
    }
}

/// The model of an extraction result.
pub open spec fn extract_result_view(r: Result<SupplierEntry, Rejection>) -> Result<
    EntryModel,
    RejectionModel,
> {
    match r {
        Ok(e) => Ok(e@),
        Err(rej) => Err(rej@),
    }
}

fn fetch<'a>(row: &'a Vec<Cell>, h: &HeaderIndex, key: &String) -> (r: Result<&'a Cell, RowFailure>)
    requires
        h.wf(),
    ensures
        match r {
            Ok(c) => fetch_cell(row@, h@, key@) == Ok::<Cell, RowFailure>(*c),
            Err(k) => fetch_cell(row@, h@, key@) == Err::<Cell, RowFailure>(k),
        },
{
    match h.lookup(key) {
        None => Err(RowFailure::MissingColumn),
        Some(p) => {
            if p < row.len() {
                Ok(&row[p])
            } else {
                Err(RowFailure::RowTooShort)
            }
        },
    }
}

/// Extracts one data row against the header index. Returns the entry on
/// success; on failure, the kind of the first failing step, together
/// with the candidate name when the name step had already succeeded.
pub fn extract_row(row: &Vec<Cell>, h: &HeaderIndex) -> (r: Result<SupplierEntry, Rejection>)
    requires
        h.wf(),
    ensures
        extract_result_view(r) == extract_spec(row@, h@),
{
    let name_k = String::from_str("Name");
    let name: String = match fetch(row, h, &name_k) {
        Err(k) => {
            return Err(Rejection { name: None, kind: k });
        },
        Ok(c) => match c {
            Cell::Text(t) => t.clone(),
            _ => {
                return Err(Rejection { name: None, kind: RowFailure::InvalidCellType });
            },
        },
    };
    let stock_k = String::from_str("Stock");
    let stock: String = match fetch(row, h, &stock_k) {
        Err(k) => {
            return Err(Rejection { name: Some(name), kind: k });
        },
        Ok(c) => match c {
            Cell::Float(fc) => fc.repr.clone(),
            Cell::Int(v) => i64_to_dec_string(*v),
            _ => {
                return Err(Rejection { name: Some(name), kind: RowFailure::InvalidCellType });
            },
        },
    };
    let price_k = String::from_str("Price");
    let price: i64 = match fetch(row, h, &price_k) {
        Err(k) => {
            return Err(Rejection { name: Some(name), kind: k });
        },
        Ok(c) => match c {
            Cell::Int(v) => *v,
            Cell::Float(fc) => fc.ceil,
            _ => {
                return Err(Rejection { name: Some(name), kind: RowFailure::InvalidCellType });
            },
        },
    };
    Ok(SupplierEntry { name, stock, price })
}

/// When the stock cell of a row is an integer cell, a successful
/// extraction carries exactly that integer's decimal string as the stock
/// amount.
pub proof fn lemma_stock_from_int_cell(row: Seq<Cell>, hm: Map<Seq<char>, int>, v: i64)
    requires
        fetch_cell(row, hm, stock_key()) == Ok::<Cell, RowFailure>(Cell::Int(v)),
        extract_spec(row, hm) is Ok,
    ensures
        extract_spec(row, hm)->Ok_0.stock == dec_str_int(v as int),
{
}

/// When the price cell of a row is a fractional cell, a successful
/// extraction carries exactly the cell's ceiling as the price.
pub proof fn lemma_price_from_float_cell(row: Seq<Cell>, hm: Map<Seq<char>, int>, fc: FloatCell)
    requires
        fetch_cell(row, hm, price_key()) == Ok::<Cell, RowFailure>(Cell::Float(fc)),
        extract_spec(row, hm) is Ok,
    ensures
        extract_spec(row, hm)->Ok_0.price == fc.ceil as int,
{
}

} // verus!
