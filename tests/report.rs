use clk::cli::{ProjAdd, Report};
use clk::report::{
    render_cell, render_report, report_file_name, report_result, report_statement, CellProbe,
    ReportError, ResultSet,
};

fn none() -> CellProbe {
    CellProbe { is_null: false, integer: None, boolean: None, text: None, blob: None, real: None }
}

fn integer(i: i64) -> CellProbe {
    CellProbe { integer: Some(i), ..none() }
}

fn text(s: &str) -> CellProbe {
    CellProbe { text: Some(s.as_bytes().to_vec()), ..none() }
}

fn null() -> CellProbe {
    CellProbe { is_null: true, ..none() }
}

fn cols(names: &[&str]) -> Vec<Vec<u8>> {
    names.iter().map(|n| n.as_bytes().to_vec()).collect()
}

#[test]
fn no_rows_no_header() {
    let rs = ResultSet { columns: cols(&["a", "b"]), rows: vec![] };
    let out = render_report(&rs);
    assert!(out.text.is_empty());
    assert!(out.undecodable.is_empty());
}

#[test]
fn two_rows_three_columns() {
    let rs = ResultSet {
        columns: cols(&["name", "secs", "note"]),
        rows: vec![
            vec![text("a"), integer(5), null()],
            vec![text("b"), integer(-7), text("")],
        ],
    };
    let out = render_report(&rs);
    let s = String::from_utf8(out.text).unwrap();
    assert_eq!(s, "name,secs,note\na,5,null\nb,-7,\n");
    let lines: Vec<&str> = s.lines().collect();
    assert_eq!(lines.len(), 3);
    assert_eq!(out.undecodable, vec![0, 0]);
}

#[test]
fn null_and_empty_differ() {
    assert_eq!(render_cell(&null()), Some(b"null".to_vec()));
    assert_eq!(render_cell(&text("")), Some(vec![]));
    let null_text = CellProbe { is_null: true, text: Some(vec![]), ..none() };
    assert_eq!(render_cell(&null_text), Some(b"null".to_vec()));
}

#[test]
fn unknown_report() {
    assert!(matches!(report_statement(None), Err(ReportError::ReportNotFound)));
    assert!(matches!(
        report_statement(Some("select 1".to_string())),
        Ok(s) if s == "select 1"
    ));
}

#[test]
fn query_failure_keeps_cause() {
    match report_result(Err("no such table".to_string())) {
        Err(ReportError::QueryFailed(c)) => assert_eq!(c, "no such table"),
        _ => panic!("expected a query failure"),
    }
}

#[test]
fn cell_precedence() {
    let all = CellProbe {
        is_null: false,
        integer: Some(1),
        boolean: Some(true),
        text: Some(b"1".to_vec()),
        blob: Some(vec![1]),
        real: Some(b"1.0".to_vec()),
    };
    assert_eq!(render_cell(&all), Some(b"1".to_vec()));
    let b = CellProbe { boolean: Some(false), text: Some(b"x".to_vec()), ..none() };
    assert_eq!(render_cell(&b), Some(b"false".to_vec()));
    let t = CellProbe { boolean: Some(true), ..none() };
    assert_eq!(render_cell(&t), Some(b"true".to_vec()));
    let blob = CellProbe { blob: Some(vec![0xff, 0]), real: Some(b"2.5".to_vec()), ..none() };
    assert_eq!(render_cell(&blob), Some(vec![0xff, 0]));
    let real = CellProbe { real: Some(b"2.5".to_vec()), ..none() };
    assert_eq!(render_cell(&real), Some(b"2.5".to_vec()));
    assert_eq!(render_cell(&none()), None);
}

#[test]
fn undecodable_cells_are_skipped() {
    let rs = ResultSet {
        columns: cols(&["a", "b"]),
        rows: vec![vec![none(), integer(3)]],
    };
    let out = render_report(&rs);
    assert_eq!(String::from_utf8(out.text).unwrap(), "a,b\n3\n");
    assert_eq!(out.undecodable, vec![1]);
}

#[test]
fn fields_are_quoted() {
    let rs = ResultSet {
        columns: cols(&["x"]),
        rows: vec![vec![text("a,b")], vec![text("say \"hi\"")]],
    };
    let out = report_result(Ok(rs)).ok().unwrap();
    assert_eq!(
        String::from_utf8(out.text).unwrap(),
        "x\n\"a,b\"\n\"say \"\"hi\"\"\"\n"
    );
}

#[test]
fn report_file_names() {
    assert_eq!(report_file_name("weekly"), "weekly.sql");
    let r = Report { report: "daily".to_string(), args: vec![] };
    assert_eq!(r.file_name(), "daily.sql");
}

#[test]
fn project_names_are_not_empty() {
    assert!(ProjAdd { name: "work".to_string() }.is_valid());
    assert!(!ProjAdd { name: String::new() }.is_valid());
}
