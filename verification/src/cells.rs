//! The data model of one pipeline run: cells as the decoder hands them
//! over, extracted entries, and the failure taxonomy.

use vstd::prelude::*;

verus! {

/// A fractional cell as the decoder hands it over. The library holds no
/// floating-point values, so the decoder supplies the two plain views of
/// the number that the pipeline reads: its decimal string form and its
/// ceiling, already taken as a 64-bit integer.
#[derive(Debug)]
pub struct FloatCell {
    /// The decimal string form of the cell's value.
    pub repr: String,
    /// The least integer that is greater than or equal to the cell's value.
    pub ceil: i64,
}

/// One typed value read from a row of the sheet.
#[derive(Debug)]
pub enum Cell {
    /// A text cell.
    Text(String),
    /// An integer cell.
    Int(i64),
    /// A fractional cell, carried as its plain views.
    Float(FloatCell),
    /// Any other kind of cell (empty, boolean, error, ...).
    Other,
}

/// A record extracted from one data row: the product name, the stock
/// amount in its decimal string form, and the price in whole units.
#[derive(Debug)]
pub struct SupplierEntry {
    pub name: String,
    pub stock: String,
    pub price: i64,
}

/// The mathematical view of an extracted entry.
pub struct EntryModel {
    pub name: Seq<char>,
    pub stock: Seq<char>,
    pub price: int,
}

impl View for SupplierEntry {
    type V = EntryModel;

    open spec fn view(&self) -> EntryModel {
        EntryModel { name: self.name@, stock: self.stock@, price: self.price as int }
    }
}

/// The kind of a row-scoped failure: the row is logged and counted, the
/// run goes on.
#[derive(PartialEq, Eq, Structural, Clone, Copy, Debug)]
pub enum RowFailure {
    /// A required header text was never seen in the header row.
    MissingColumn,
    /// The row has no cell at the resolved column position.
    RowTooShort,
    /// The cell at the resolved position has the wrong tag.
    InvalidCellType,
}

/// A rejected row: the failure kind, plus the candidate name if the name
/// step had already succeeded when the failure happened.
#[derive(Debug)]
pub struct Rejection {
    pub name: Option<String>,
    pub kind: RowFailure,
}

/// The mathematical view of a rejection.
pub struct RejectionModel {
    pub name: Option<Seq<char>>,
    pub kind: RowFailure,
}

impl View for Rejection {
    type V = RejectionModel;

    open spec fn view(&self) -> RejectionModel {
        RejectionModel {
            name: match self.name {
                Some(n) => Some(n@),
                None => None,
            },
            kind: self.kind,
        }
    }
}

/// A run-fatal failure: the whole run aborts before any output exists.
#[derive(PartialEq, Eq, Structural, Clone, Copy, Debug)]
pub enum RunError {
    /// The decoder reported no active sheet at all.
    MissingSheet,
    /// The sheet exists but has no rows, not even a header row.
    EmptyInput,
}

} // verus!
