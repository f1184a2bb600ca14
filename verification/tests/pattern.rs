use ilias_grader::error::ErrorKind;
use ilias_grader::pattern::Pattern;

#[test]
fn pattern_keeps_its_text() {
    let pattern = Pattern::new("^a+b$").unwrap();
    assert_eq!(pattern.source(), "^a+b$");
}

#[test]
fn pattern_that_does_not_compile_is_an_error() {
    let error = Pattern::new("(unclosed").unwrap_err();
    assert_eq!(error.kind, ErrorKind::Pattern);
    assert!(!error.describe().is_empty());
}

#[test]
fn pattern_matches_anywhere_in_the_text() {
    let pattern = Pattern::new("\\.pdf$").unwrap();
    assert!(pattern.matches("report.pdf"));
    assert!(!pattern.matches("report.pdf.txt"));
    assert!(!pattern.matches("\\.pdf$"));
}

#[test]
fn pattern_captures_a_named_group() {
    let pattern = Pattern::new("(?<stem>[a-z]+)\\.(?<ext>[a-z]+)").unwrap();
    assert_eq!(pattern.capture("stem", "12 report.pdf"), Some("report".to_string()));
    assert_eq!(pattern.capture("ext", "12 report.pdf"), Some("pdf".to_string()));
    assert_eq!(pattern.capture("other", "12 report.pdf"), None);
    assert_eq!(pattern.capture("stem", "1234"), None);
}
