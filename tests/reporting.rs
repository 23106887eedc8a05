use rlox::lox::{Lox, Report};

#[test]
fn fresh_run_has_no_error() {
    let lox = Lox::new();
    assert!(!lox.had_error);
    assert!(lox.reports.is_empty());
}

#[test]
fn error_records_report_without_location() {
    let mut lox = Lox::new();
    lox.error(7, "Unexpected character.");
    assert!(lox.had_error);
    assert_eq!(lox.reports.len(), 1);
    assert_eq!(lox.reports[0].render(), "[line 7] Error: Unexpected character.");
}

#[test]
fn report_renders_location_and_large_line() {
    let mut lox = Lox::new();
    lox.report(1203, " at 'x'", "Bad thing.");
    lox.report(10, "", "Again.");
    assert_eq!(lox.reports[0].render(), "[line 1203] Error at 'x': Bad thing.");
    assert_eq!(lox.reports[1].render(), "[line 10] Error: Again.");
    assert!(lox.had_error);
}

#[test]
fn render_line_zero_and_max() {
    let r = Report { line: 0, location: String::new(), message: "m".to_string() };
    assert_eq!(r.render(), "[line 0] Error: m");
    let r = Report { line: usize::MAX, location: String::new(), message: "m".to_string() };
    assert_eq!(r.render(), format!("[line {}] Error: m", usize::MAX));
}
