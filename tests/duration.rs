use clk::duration::{
    adaptive, days, decompose, duration_repr, hours, is_duration, minutes, suppressed,
    Breakdown, ScalarArg,
};
use clk::text::int_to_text;

#[test]
fn decompose_one_of_each() {
    assert_eq!(
        decompose(90061),
        Breakdown { days: 1, hours: 1, minutes: 1, seconds: 1 }
    );
    assert_eq!(
        decompose(0),
        Breakdown { days: 0, hours: 0, minutes: 0, seconds: 0 }
    );
}

#[test]
fn adaptive_renderings() {
    assert_eq!(adaptive(5), "5s");
    assert_eq!(adaptive(3661), "1h 1m 1s");
    assert_eq!(adaptive(45), "45s");
    assert_eq!(adaptive(185), "3m 5s");
    assert_eq!(adaptive(7205), "2h 0m 5s");
    assert_eq!(adaptive(86405), "1d 0h 0m 5s");
    assert_eq!(adaptive(0), "0s");
}

#[test]
fn suppressed_renderings() {
    assert_eq!(suppressed(5), "5s");
    assert_eq!(suppressed(3600), "1h 0m 0s");
    assert_eq!(suppressed(60), "1m 0s");
    assert_eq!(suppressed(90061), "1d 1h 1m 1s");
    assert_eq!(suppressed(172800), "2d 0h 0m 0s");
}

#[test]
fn calc_elapsed() {
    assert_eq!(clk::duration::calc(1_000_100, 1_000_000), "1m 40s");
    assert_eq!(clk::duration::calc(7, 7), "0s");
    assert_eq!(clk::duration::calc(i64::MAX, 0), adaptive(i64::MAX as u64));
}

#[test]
fn storage_scalars() {
    let a = vec![ScalarArg::Integer(90061)];
    assert_eq!(minutes(&a), Some(1));
    assert_eq!(hours(&a), Some(1));
    assert_eq!(days(&a), Some(1));
    assert_eq!(duration_repr(&a), Some("1d 1h 1m 1s".to_string()));
    let b = vec![ScalarArg::Integer(3599)];
    assert_eq!(minutes(&b), Some(59));
    assert_eq!(hours(&b), Some(0));
    assert_eq!(duration_repr(&b), Some("59m 59s".to_string()));
}

#[test]
fn storage_scalars_no_result() {
    let other = vec![ScalarArg::Other];
    assert_eq!(minutes(&other), None);
    assert_eq!(duration_repr(&other), None);
    let two = vec![ScalarArg::Integer(1), ScalarArg::Integer(2)];
    assert_eq!(hours(&two), None);
    let none: Vec<ScalarArg> = vec![];
    assert_eq!(days(&none), None);
    let negative = vec![ScalarArg::Integer(-5)];
    assert_eq!(duration_repr(&negative), None);
    assert!(is_duration(&ScalarArg::Integer(-5)));
    assert!(!is_duration(&ScalarArg::Other));
}

#[test]
fn integer_text() {
    assert_eq!(int_to_text(0), "0");
    assert_eq!(int_to_text(-42), "-42");
    assert_eq!(int_to_text(i64::MIN), "-9223372036854775808");
    assert_eq!(int_to_text(i64::MAX), "9223372036854775807");
}
