//! The report runner's own part: the typed cell renderer, the layout of a
//! result set as records, and the records as delimited text.

use vstd::prelude::*;
use vstd::string::*;
use vstd::utf8::encode_utf8;
use crate::text::{int_text, int_to_text};

verus! {

/// What each decoding of one result cell gave, probed in a fixed order by the
/// store's driver. Texts are held as their UTF-8 bytes; a floating-point value
/// is held as its decimal text.
#[derive(Clone, Debug)]
pub struct CellProbe {
    pub is_null: bool,
    pub integer: Option<i64>,
    pub boolean: Option<bool>,
    pub text: Option<Vec<u8>>,
    pub blob: Option<Vec<u8>>,
    pub real: Option<Vec<u8>>,
}

/// The bytes of `null`.
pub open spec fn null_bytes() -> Seq<u8> {
    seq![110u8, 117u8, 108u8, 108u8]
}

/// The bytes of `true` or `false`.
pub open spec fn bool_bytes(b: bool) -> Seq<u8> {
    if b {
        seq![116u8, 114u8, 117u8, 101u8]
    } else {
        seq![102u8, 97u8, 108u8, 115u8, 101u8]
    }
}

/// The field that a cell renders to, by the first decoding that succeeded:
/// null, integer, boolean, text, binary, floating point. `None` when no
/// decoding succeeded: the cell then gives no field.
pub open spec fn cell_field(p: CellProbe) -> Option<Seq<u8>> {
    if p.is_null {
        Some(null_bytes())
    } else if p.integer is Some {
        Some(encode_utf8(int_text(p.integer->Some_0 as int)))
    } else if p.boolean is Some {
        Some(bool_bytes(p.boolean->Some_0))
    } else if p.text is Some {
        Some(p.text->Some_0@)
    } else if p.blob is Some {
        Some(p.blob->Some_0@)
    } else if p.real is Some {
        Some(p.real->Some_0@)
    } else {
        None
    }
}

fn copy_bytes(v: &Vec<u8>) -> (r: Vec<u8>)
    ensures
        r@ == v@,
{
    let mut r: Vec<u8> = Vec::new();
    let mut i: usize = 0;
    while i < v.len()
        invariant
            i <= v.len(),
            r@ == v@.take(i as int),
        decreases v.len() - i,
    {
        r.push(v[i]);
        i += 1;
        assert(r@ =~= v@.take(i as int));
    }
    assert(v@.take(i as int) =~= v@);
    r
}

/// Renders one cell, or gives `None` for a cell that no decoding could read.
pub fn render_cell(p: &CellProbe) -> (r: Option<Vec<u8>>)
    ensures
        r is Some <==> cell_field(*p) is Some,
        r matches Some(f) ==> f@ == cell_field(*p)->Some_0,
{
    if p.is_null {
        Some(vec![110u8, 117u8, 108u8, 108u8])
    } else if let Some(i) = p.integer {
        let t = int_to_text(i);
        Some(t.as_str().as_bytes_vec())
    } else if let Some(b) = p.boolean {
        if b {
            Some(vec![116u8, 114u8, 117u8, 101u8])
        } else {
            Some(vec![102u8, 97u8, 108u8, 115u8, 101u8])
        }
    } else if let Some(t) = &p.text {
        Some(copy_bytes(t))
    } else if let Some(b) = &p.blob {
        Some(copy_bytes(b))
    } else if let Some(f) = &p.real {
        Some(copy_bytes(f))
    } else {
        None
    }
}

/// The fields of a row: one per cell that rendered, in column order.
pub open spec fn row_fields(row: Seq<CellProbe>) -> Seq<Seq<u8>>
    decreases row.len(),
{
    if row.len() == 0 {
        Seq::empty()
    } else {
        let r = row_fields(row.drop_last());
        match cell_field(row.last()) {
            Some(f) => r.push(f),
            None => r,
        }
    }
}

/// A row renders to no more fields than it has cells.
proof fn lemma_row_fields_len(row: Seq<CellProbe>)
    ensures
        row_fields(row).len() <= row.len(),
    decreases row.len(),
{
    if row.len() > 0 {
        lemma_row_fields_len(row.drop_last());
    }
}

/// Renders the cells of a row; also gives how many cells could not be read.
pub fn render_row(row: &Vec<CellProbe>) -> (r: (Vec<Vec<u8>>, usize))
    ensures
        r.0@.map_values(|f: Vec<u8>| f@) == row_fields(row@),
        r.1 == row@.len() - row_fields(row@).len(),
{
    let mut fields: Vec<Vec<u8>> = Vec::new();
    let mut i: usize = 0;
    while i < row.len()
        invariant
            i <= row.len(),
            fields@.map_values(|f: Vec<u8>| f@) == row_fields(row@.take(i as int)),
        decreases row.len() - i,
    {
        assert(row@.take(i as int + 1).drop_last() =~= row@.take(i as int));
        assert(row@.take(i as int + 1).last() == row@[i as int]);
        match render_cell(&row[i]) {
            Some(f) => {
                let ghost before = fields@.map_values(|f: Vec<u8>| f@);
                fields.push(f);
                assert(fields@.map_values(|f: Vec<u8>| f@) =~= before.push(f@));
            },
            None => {},
        }
        i += 1;
    }
    assert(row@.take(i as int) =~= row@);
    proof { lemma_row_fields_len(row@); }
    let missing = row.len() - fields.len();
    (fields, missing)
}

/// A result set: the column names as the query declares them, and the rows.
#[derive(Clone, Debug)]
pub struct ResultSet {
    pub columns: Vec<Vec<u8>>,
    pub rows: Vec<Vec<CellProbe>>,
}

/// The records that a result set lays out as: none when there are no rows,
/// else the header of column names and then one record per row.
pub open spec fn report_records(columns: Seq<Seq<u8>>, rows: Seq<Seq<CellProbe>>) -> Seq<Seq<Seq<u8>>> {
    if rows.len() == 0 {
        Seq::empty()
    } else {
        seq![columns] + rows.map_values(|row: Seq<CellProbe>| row_fields(row))
    }
}

/// The delimited text of one record, line terminator included, as the csv
/// crate's writer writes it.
pub uninterp spec fn csv_record_of(fields: Seq<Seq<u8>>) -> Seq<u8>;

/// Relies on csv::Writer::write_record (and into_inner) writing into a vector:
/// the result is the record's delimited text, a function of the fields alone.
/// A vector takes every write, so the writer does not fail.
#[verifier::external_body]
fn csv_record(fields: &Vec<Vec<u8>>) -> (r: Vec<u8>)
    ensures
        r@ == csv_record_of(fields@.map_values(|f: Vec<u8>| f@)),
{
    let mut w = csv::Writer::from_writer(Vec::new());
    let _ = w.write_record(fields);
    w.into_inner().unwrap_or_default()
}

/// The text of a sequence of records: each record's line, in order.
pub open spec fn table_text(records: Seq<Seq<Seq<u8>>>) -> Seq<u8>
    decreases records.len(),
{
    if records.len() == 0 {
        Seq::empty()
    } else {
        table_text(records.drop_last()) + csv_record_of(records.last())
    }
}

/// What a report gives: its text, and for each row how many of its cells
/// could not be read (each of them worth a diagnostic, none of them fatal).
#[derive(Clone, Debug)]
pub struct ReportOutput {
    pub text: Vec<u8>,
    pub undecodable: Vec<usize>,
}

/// Lays out a result set as delimited text: a header line only when there is
/// a row, then one line per row.
pub fn render_report(rs: &ResultSet) -> (r: ReportOutput)
    ensures
        r.text@ == table_text(report_records(rs.columns@.map_values(|f: Vec<u8>| f@), rs.rows@.map_values(|row: Vec<CellProbe>| row@))),
        r.undecodable@.len() == rs.rows@.len(),
        forall|i: int| 0 <= i < rs.rows@.len() ==> r.undecodable@[i] == rs.rows@[i]@.len() - row_fields(#[trigger] rs.rows@[i]@).len(),
{
    let ghost recs = report_records(rs.columns@.map_values(|f: Vec<u8>| f@), rs.rows@.map_values(|row: Vec<CellProbe>| row@));
    let mut text: Vec<u8> = Vec::new();
    let mut undecodable: Vec<usize> = Vec::new();
    if rs.rows.len() == 0 {
        assert(recs =~= Seq::<Seq<Seq<u8>>>::empty());
        return ReportOutput { text, undecodable };
    }
    let mut header = csv_record(&rs.columns);
    text.append(&mut header);
    assert(recs.take(1) =~= seq![rs.columns@.map_values(|f: Vec<u8>| f@)]);
    assert(recs.take(1).drop_last() =~= Seq::<Seq<Seq<u8>>>::empty());
    assert(table_text(recs.take(1).drop_last()) == Seq::<u8>::empty());
    assert(text@ =~= table_text(recs.take(1)));
    let mut i: usize = 0;
    while i < rs.rows.len()
        invariant
            i <= rs.rows.len(),
            recs == report_records(rs.columns@.map_values(|f: Vec<u8>| f@), rs.rows@.map_values(|row: Vec<CellProbe>| row@)),
            rs.rows.len() > 0,
            recs.len() == rs.rows.len() + 1,
            text@ == table_text(recs.take(i as int + 1)),
            undecodable@.len() == i,
            forall|j: int| 0 <= j < i ==> undecodable@[j] == rs.rows@[j]@.len() - row_fields(#[trigger] rs.rows@[j]@).len(),
        decreases rs.rows.len() - i,
    {
        let (fields, missing) = render_row(&rs.rows[i]);
        let mut line = csv_record(&fields);
        assert(recs.take(i as int + 2).drop_last() =~= recs.take(i as int + 1));
        assert(recs[i as int + 1] == row_fields(rs.rows@[i as int]@));
        text.append(&mut line);
        undecodable.push(missing);
        i += 1;
    }
    assert(recs.take(i as int + 1) =~= recs);
    ReportOutput { text, undecodable }
}

/// Why a report gave no output.
#[derive(Clone, Debug)]
pub enum ReportError {
    /// No definition is stored under the report's name.
    ReportNotFound,
    /// The statement could not be prepared, bound or executed; the cause.
    QueryFailed(String),
}

/// The name of the file that holds a report's statement.
pub fn report_file_name(name: &str) -> (r: String)
    ensures
        r@ == name@ + ".sql"@,
{
    let s = String::from_str(name);
    s.concat(".sql")
}

/// The statement to run, from the lookup of the report's definition: a
/// missing definition is `ReportNotFound`.
pub fn report_statement(definition: Option<String>) -> (r: Result<String, ReportError>)
    ensures
        definition is None <==> r matches Err(ReportError::ReportNotFound),
        definition matches Some(d) ==> r matches Ok(t) && t@ == d@,
{
    match definition {
        None => Err(ReportError::ReportNotFound),
        Some(d) => Ok(d),
    }
}

/// The report's outcome, from the outcome of the statement: its cause when it
/// failed, else the laid out result set.
pub fn report_result(outcome: Result<ResultSet, String>) -> (r: Result<ReportOutput, ReportError>)
    ensures
        outcome matches Err(c) ==> r matches Err(ReportError::QueryFailed(d)) && d@ == c@,
        outcome matches Ok(rs) ==> r matches Ok(o) && o.text@ == table_text(
            report_records(rs.columns@.map_values(|f: Vec<u8>| f@), rs.rows@.map_values(|row: Vec<CellProbe>| row@)),
        ) && o.undecodable@.len() == rs.rows@.len(),
{
    match outcome {
        Err(c) => Err(ReportError::QueryFailed(c)),
        Ok(rs) => Ok(render_report(&rs)),
    }
}

/// Every cell of the row can be read.
pub open spec fn all_readable(row: Seq<CellProbe>) -> bool {
    forall|i: int| 0 <= i < row.len() ==> (#[trigger] cell_field(row[i])) is Some
}

proof fn lemma_readable_row_fields(row: Seq<CellProbe>)
    requires
        all_readable(row),
    ensures
        row_fields(row).len() == row.len(),
    decreases row.len(),
{
    if row.len() > 0 {
        assert(all_readable(row.drop_last())) by {
            assert forall|i: int| 0 <= i < row.len() - 1 implies (#[trigger] cell_field(row.drop_last()[i])) is Some by {
                assert(row.drop_last()[i] == row[i]);
            }
        }
        lemma_readable_row_fields(row.drop_last());
        assert(cell_field(row[row.len() - 1]) is Some);
    }
}

/// A result set without rows lays out as no record and no text at all, not
/// even a header.
pub proof fn lemma_no_rows_no_lines(columns: Seq<Seq<u8>>)
    ensures
        report_records(columns, Seq::<Seq<CellProbe>>::empty()) == Seq::<Seq<Seq<u8>>>::empty(),
        table_text(report_records(columns, Seq::<Seq<CellProbe>>::empty())) == Seq::<u8>::empty(),
{
    assert(report_records(columns, Seq::<Seq<CellProbe>>::empty()) =~= Seq::<Seq<Seq<u8>>>::empty());
}

/// A result set of n rows whose cells all read and that have as many cells as
/// there are columns lays out as a header of the column names and then n
/// records, each with one field per column.
pub proof fn lemma_report_shape(columns: Seq<Seq<u8>>, rows: Seq<Seq<CellProbe>>)
    requires
        rows.len() > 0,
        forall|i: int| 0 <= i < rows.len() ==> (#[trigger] rows[i]).len() == columns.len() && all_readable(rows[i]),
    ensures
        report_records(columns, rows).len() == rows.len() + 1,
        report_records(columns, rows)[0] == columns,
        forall|k: int| 0 <= k < rows.len() + 1 ==> (#[trigger] report_records(columns, rows)[k]).len() == columns.len(),
{
    let recs = report_records(columns, rows);
    assert forall|k: int| 0 <= k < rows.len() + 1 implies (#[trigger] recs[k]).len() == columns.len() by {
        if k > 0 {
            assert(recs[k] == row_fields(rows[k - 1]));
            lemma_readable_row_fields(rows[k - 1]);
        }
    }
}

/// A null cell renders as the four bytes of `null`, whatever else its
/// decodings gave; a cell that reads only as an empty text renders as no
/// bytes. The two are never confused.
pub proof fn lemma_null_is_not_empty(null_cell: CellProbe, empty_cell: CellProbe)
    requires
        null_cell.is_null,
        !empty_cell.is_null,
        empty_cell.integer is None,
        empty_cell.boolean is None,
        empty_cell.text matches Some(t) && t@.len() == 0,
    ensures
        cell_field(null_cell) == Some(null_bytes()),
        null_bytes().len() == 4,
        cell_field(empty_cell) == Some(Seq::<u8>::empty()),
        cell_field(null_cell) != cell_field(empty_cell),
{
    assert(empty_cell.text->Some_0@ =~= Seq::<u8>::empty());
    assert(null_bytes().len() == 4);
}

} // verus!
