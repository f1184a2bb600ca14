use ilias_grader::error::{Error, ErrorKind};

#[test]
fn new_error_has_one_message() {
    let error = Error::new(ErrorKind::Io, "could not write");
    assert_eq!(error.kind, ErrorKind::Io);
    assert_eq!(error.context, vec!["could not write".to_string()]);
    assert_eq!(error.describe(), "could not write");
}

#[test]
fn context_is_described_outermost_first() {
    let error = Error::new(ErrorKind::PathStructure, "too few components")
        .with_context("could not drop components")
        .with_context("could not extract");
    assert_eq!(error.kind, ErrorKind::PathStructure);
    assert_eq!(error.context.len(), 3);
    assert_eq!(
        error.describe(),
        "could not extract: could not drop components: too few components"
    );
}

#[test]
fn error_without_message_describes_as_nothing() {
    let error = Error { kind: ErrorKind::Upload, context: Vec::new() };
    assert_eq!(error.describe(), "");
}
