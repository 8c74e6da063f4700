//! The pipeline driver: resolves the header once against the first row,
//! extracts every remaining row into the store or the error log, counts
//! successes and failures, and builds the output records at the end.
//! Row-scoped failures never abort the run; a missing sheet or an empty
//! sheet is run-fatal.

use vstd::prelude::*;
use vstd::string::StringExecFns;
use crate::cells::{Cell, EntryModel, RejectionModel, RunError};
use crate::extract::{extract_row, extract_spec};
use crate::header::{build_header_index, header_map_spec};
use crate::store::{records_map, render_model, OutputRecord, SupplierStore};

verus! {

/// The finalized outcome of one run over a non-empty sheet.
#[derive(Debug)]
pub struct RunOutcome {
    /// One record per distinct name, fields in string form.
    pub records: Vec<OutputRecord>,
    /// How many rows were extracted successfully.
    pub success_count: usize,
    /// How many rows were rejected.
    pub error_count: usize,
    /// One diagnostic line per rejected row, in row encounter order.
    pub log_lines: Vec<String>,
}

/// The rows of a sheet as plain sequences of cells.
pub open spec fn sheet_view(rows: Seq<Vec<Cell>>) -> Seq<Seq<Cell>> {
    rows.map_values(|r: Vec<Cell>| r@)
}

/// A sequence of strings as plain character sequences.
pub open spec fn lines_view(ls: Seq<String>) -> Seq<Seq<char>> {
    ls.map_values(|s: String| s@)
}

/// The store that the data rows build under a header mapping: each
/// successfully extracted entry is inserted under its name, so of two
/// rows sharing a name the later one wins.
pub open spec fn store_spec(hm: Map<Seq<char>, int>, rows: Seq<Seq<Cell>>) -> Map<
    Seq<char>,
    EntryModel,
>
    decreases rows.len(),
{
    if rows.len() == 0 {
        Map::empty()
    } else {
        let m = store_spec(hm, rows.drop_last());
        match extract_spec(rows.last(), hm) {
            Ok(e) => m.insert(e.name, e),
            Err(_) => m,
        }
    }
}

/// How many of the data rows extract successfully.
pub open spec fn success_spec(hm: Map<Seq<char>, int>, rows: Seq<Seq<Cell>>) -> nat
    decreases rows.len(),
{
    if rows.len() == 0 {
        0
    } else {
        success_spec(hm, rows.drop_last()) + if extract_spec(rows.last(), hm) is Ok {
            1nat
        } else {
            0nat
        }
    }
}

/// How many of the data rows are rejected.
pub open spec fn error_spec(hm: Map<Seq<char>, int>, rows: Seq<Seq<Cell>>) -> nat
    decreases rows.len(),
{
    if rows.len() == 0 {
        0
    } else {
        error_spec(hm, rows.drop_last()) + if extract_spec(rows.last(), hm) is Err {
            1nat
        } else {
            0nat
        }
    }
}

/// The diagnostic line for one rejected row: a fixed phrase, then the
/// candidate name in quotes when one was captured.
pub open spec fn log_line_spec(rej: RejectionModel) -> Seq<char> {
    match rej.name {
        Some(n) => "Error in product row"@ + " '"@ + n + "'"@,
        None => "Error in product row"@,
    }
}

/// The error log that the data rows produce, one line per rejected row,
/// in row encounter order.
pub open spec fn log_spec(hm: Map<Seq<char>, int>, rows: Seq<Seq<Cell>>) -> Seq<Seq<char>>
    decreases rows.len(),
{
    if rows.len() == 0 {
        Seq::empty()
    } else {
        let l = log_spec(hm, rows.drop_last());
        match extract_spec(rows.last(), hm) {
            Ok(_) => l,
            Err(rej) => l.push(log_line_spec(rej)),
        }
    }
}

/// What the outcome of a run over a non-empty sheet holds: counts, log
/// and record map are the fold of the data rows under the header row's
/// mapping; record names are unique. The order of the records themselves
/// is left open.
pub open spec fn outcome_matches(rows: Seq<Vec<Cell>>, out: RunOutcome) -> bool {
    let hm = header_map_spec(rows[0]@, rows[0]@.len() as int);
    let data = sheet_view(rows).skip(1);
    &&& out.success_count as nat == success_spec(hm, data)
    &&& out.error_count as nat == error_spec(hm, data)
    &&& lines_view(out.log_lines@) == log_spec(hm, data)
    &&& records_map(out.records@) == store_spec(hm, data).map_values(
        |e: EntryModel| render_model(e),
    )
    &&& forall|i: int, j: int|
        0 <= i < j < out.records@.len() ==> out.records@[i].name@ != out.records@[j].name@
}

fn log_line(rej: &crate::cells::Rejection) -> (s: String)
    ensures
        s@ == log_line_spec(rej@),
{
    let mut s = String::from_str("Error in product row");
    match &rej.name {
        Some(n) => {
            s.append(" '");
            s.append(n.as_str());
            s.append("'");
            proof {
                assert(s@ =~= log_line_spec(rej@));
            }
        },
        None => {},
    }
    s
}

/// Runs the whole pipeline over the decoded sheet. `None` stands for a
/// decoder that reported no active sheet; otherwise the first row is the
/// header row and every further row is a data row.
pub fn run_pipeline(sheet: Option<Vec<Vec<Cell>>>) -> (r: Result<RunOutcome, RunError>)
    ensures
        match sheet {
            None => r == Err::<RunOutcome, RunError>(RunError::MissingSheet),
            Some(rows) => if rows@.len() == 0 {
                r == Err::<RunOutcome, RunError>(RunError::EmptyInput)
            } else {
                r is Ok && outcome_matches(rows@, r->Ok_0)
            },
        },
{
    let rows = match sheet {
        None => {
            return Err(RunError::MissingSheet);
        },
        Some(rs) => rs,
    };
    if rows.len() == 0 {
        return Err(RunError::EmptyInput);
    }
    let h = build_header_index(&rows[0]);
    let ghost hm = h@;
    let ghost data = sheet_view(rows@).skip(1);
    let mut store = SupplierStore::new();
    let mut success: usize = 0;
    let mut error: usize = 0;
    let mut log: Vec<String> = Vec::new();
    let mut i: usize = 1;
    proof {
        assert(data.take(0) =~= Seq::<Seq<Cell>>::empty());
        assert(lines_view(log@) =~= Seq::<Seq<char>>::empty());
    }
    while i < rows.len()
        invariant
            1 <= i <= rows@.len(),
            h.wf(),
            hm == h@,
            store.wf(),
            data == sheet_view(rows@).skip(1),
            data.len() == rows@.len() - 1,
            store@ == store_spec(hm, data.take(i - 1)),
            success as nat == success_spec(hm, data.take(i - 1)),
            error as nat == error_spec(hm, data.take(i - 1)),
            success + error == i - 1,
            lines_view(log@) == log_spec(hm, data.take(i - 1)),
        decreases rows@.len() - i,
    {
        let ghost prefix = data.take(i - 1);
        let ghost row_model = rows@[i as int]@;
        proof {
            assert(data[i - 1] == row_model);
        }
        match extract_row(&rows[i], &h) {
            Ok(entry) => {
                store.upsert(entry);
                success = success + 1;
            },
            Err(rej) => {
                let ghost log_pre = log@;
                let line = log_line(&rej);
                log.push(line);
                proof {
                    assert(lines_view(log@) =~= lines_view(log_pre).push(log_line_spec(rej@)));
                }
                error = error + 1;
            },
        }
        i = i + 1;
        proof {
            let cur = data.take(i - 1);
            assert(cur.drop_last() =~= prefix);
            assert(cur.last() == row_model);
        }
    }
    proof {
        assert(data.take(rows@.len() - 1) =~= data);
    }
    let records = store.to_records();
    Ok(RunOutcome { records, success_count: success, error_count: error, log_lines: log })
}

/// A row that fails extraction is excluded from the output and counted
/// exactly once as an error: appending it to the data rows leaves the
/// store and the success count unchanged, raises the error count by one,
/// and appends its diagnostic line to the log.
pub proof fn lemma_rejected_row(hm: Map<Seq<char>, int>, rows: Seq<Seq<Cell>>, row: Seq<Cell>)
    requires
        extract_spec(row, hm) is Err,
    ensures
        store_spec(hm, rows.push(row)) == store_spec(hm, rows),
        success_spec(hm, rows.push(row)) == success_spec(hm, rows),
        error_spec(hm, rows.push(row)) == error_spec(hm, rows) + 1,
        log_spec(hm, rows.push(row)) == log_spec(hm, rows).push(
            log_line_spec(extract_spec(row, hm)->Err_0),
        ),
{
    assert(rows.push(row).drop_last() =~= rows);
}

/// A row that extracts successfully raises the success count by one —
/// also when its name was already stored — and stores its entry under
/// its name, replacing whatever entry that name held before.
pub proof fn lemma_accepted_row(hm: Map<Seq<char>, int>, rows: Seq<Seq<Cell>>, row: Seq<Cell>)
    requires
        extract_spec(row, hm) is Ok,
    ensures
        store_spec(hm, rows.push(row)) == store_spec(hm, rows).insert(
            extract_spec(row, hm)->Ok_0.name,
            extract_spec(row, hm)->Ok_0,
        ),
        success_spec(hm, rows.push(row)) == success_spec(hm, rows) + 1,
        error_spec(hm, rows.push(row)) == error_spec(hm, rows),
        log_spec(hm, rows.push(row)) == log_spec(hm, rows),
{
    assert(rows.push(row).drop_last() =~= rows);
}

/// Last write wins: when a row extracts successfully and no later row
/// yields an entry with the same name, the final store holds exactly
/// that row's entry under that name.
pub proof fn lemma_last_write_wins(hm: Map<Seq<char>, int>, rows: Seq<Seq<Cell>>, j: int)
    requires
        0 <= j < rows.len(),
        extract_spec(rows[j], hm) is Ok,
        forall|k: int|
            j < k < rows.len() ==> ((#[trigger] extract_spec(rows[k], hm)) is Ok
                ==> extract_spec(rows[k], hm)->Ok_0.name != extract_spec(rows[j], hm)->Ok_0.name),
    ensures
        store_spec(hm, rows).contains_key(extract_spec(rows[j], hm)->Ok_0.name),
        store_spec(hm, rows)[extract_spec(rows[j], hm)->Ok_0.name] == extract_spec(rows[j], hm)->Ok_0,
    decreases rows.len(),
{
    if j == rows.len() - 1 {
    } else {
        assert(forall|k: int| 0 <= k < rows.len() - 1 ==> rows.drop_last()[k] == rows[k]);
        lemma_last_write_wins(hm, rows.drop_last(), j);
        assert(rows.last() == rows[rows.len() - 1]);
    }
}

/// The outcome is a pure function of the input rows: two outcomes of
/// runs over the same sheet agree on the record map, both counts, and
/// the log, though the order of the records themselves may differ.
pub proof fn lemma_run_deterministic(rows: Seq<Vec<Cell>>, a: RunOutcome, b: RunOutcome)
    requires
        rows.len() > 0,
        outcome_matches(rows, a),
        outcome_matches(rows, b),
    ensures
        records_map(a.records@) == records_map(b.records@),
        a.success_count == b.success_count,
        a.error_count == b.error_count,
        lines_view(a.log_lines@) == lines_view(b.log_lines@),
{
}

} // verus!
