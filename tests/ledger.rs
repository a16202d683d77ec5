use clk::ledger::{
    plan_clock_in, plan_clock_off, status_line, Action, Entry, Ledger, LedgerError, OpenSession,
};

fn open_count(l: &Ledger) -> usize {
    l.entries().iter().filter(|e| e.end.is_none()).count()
}

#[test]
fn at_most_one_open_entry() {
    let mut l = Ledger::new();
    assert_eq!(open_count(&l), 0);
    assert_eq!(l.clock_in(Some(1), 100), Ok(()));
    assert_eq!(open_count(&l), 1);
    let before = l.entries().clone();
    assert_eq!(l.clock_in(Some(2), 150), Err(LedgerError::AlreadyOn));
    assert_eq!(l.entries(), &before);
    assert_eq!(open_count(&l), 1);
    assert_eq!(l.clock_off(200), Ok(()));
    assert_eq!(open_count(&l), 0);
    assert_eq!(l.clock_in(Some(2), 300), Ok(()));
    assert_eq!(open_count(&l), 1);
    assert_eq!(l.clock_off(400), Ok(()));
    assert_eq!(l.entries().len(), 2);
}

#[test]
fn clock_in_then_off() {
    let mut l = Ledger::new();
    l.clock_in(Some(7), 1000).unwrap();
    l.clock_off(1060).unwrap();
    assert_eq!(
        l.entries(),
        &vec![Entry { project_id: 7, start: 1000, end: Some(1060) }]
    );
    assert_eq!(l.current(), None);
    assert_eq!(status_line(None), Ok("off the clock".to_string()));
}

#[test]
fn clock_off_while_off() {
    let mut l = Ledger::new();
    assert_eq!(l.clock_off(5), Err(LedgerError::AlreadyOff));
    assert!(l.entries().is_empty());
    l.clock_in(Some(1), 1).unwrap();
    l.clock_off(2).unwrap();
    let before = l.entries().clone();
    assert_eq!(l.clock_off(3), Err(LedgerError::AlreadyOff));
    assert_eq!(l.entries(), &before);
}

#[test]
fn clock_in_unknown_project() {
    let mut l = Ledger::new();
    assert_eq!(l.clock_in(None, 10), Err(LedgerError::UnknownProject));
    assert!(l.entries().is_empty());
}

#[test]
fn current_entry() {
    let mut l = Ledger::new();
    l.clock_in(Some(3), 50).unwrap();
    assert_eq!(
        l.current(),
        Some(Entry { project_id: 3, start: 50, end: None })
    );
    assert_eq!(l.open_starts(), vec![50]);
}

#[test]
fn clock_off_before_start_is_refused() {
    let mut l = Ledger::new();
    l.clock_in(Some(3), 50).unwrap();
    assert_eq!(l.clock_off(49), Err(LedgerError::InvariantViolated));
    assert_eq!(l.open_starts(), vec![50]);
}

#[test]
fn plans() {
    assert_eq!(plan_clock_in(1, Some(4), 9), Err(LedgerError::AlreadyOn));
    assert_eq!(plan_clock_in(0, None, 9), Err(LedgerError::UnknownProject));
    assert_eq!(
        plan_clock_in(0, Some(4), 9),
        Ok(Action::Insert { project_id: 4, start: 9 })
    );
    assert_eq!(plan_clock_off(&vec![], 9), Err(LedgerError::AlreadyOff));
    assert_eq!(plan_clock_off(&vec![1, 2], 9), Err(LedgerError::InvariantViolated));
    assert_eq!(plan_clock_off(&vec![10], 9), Err(LedgerError::InvariantViolated));
    assert_eq!(plan_clock_off(&vec![5], 9), Ok(Action::Close { end: 9 }));
}

#[test]
fn status_lines() {
    let s = OpenSession { name: "work".to_string(), now: 3661 + 100, start: 100 };
    assert_eq!(status_line(Some(s)), Ok("work 1h 1m 1s".to_string()));
    let s = OpenSession { name: "x".to_string(), now: 5, start: 0 };
    assert_eq!(status_line(Some(s)), Ok("x 5s".to_string()));
    let s = OpenSession { name: "x".to_string(), now: 5, start: 6 };
    assert_eq!(status_line(Some(s)), Err(LedgerError::InvariantViolated));
}
