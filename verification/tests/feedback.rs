use ilias_grader::entry::{DirectoryItem, EntryKind, LocalEntry, Submission};
use ilias_grader::error::ErrorKind;
use ilias_grader::feedback::{
    confirmation, decide_upload, prepare_upload, upload_failure, upload_feedback, FeedbackAction,
    FeedbackEvent, FeedbackOptions, FeedbackState,
};
use ilias_grader::matcher::FeedbackMatcher;
use ilias_grader::pattern::Pattern;

fn submissions() -> Vec<Submission> {
    vec![
        Submission { identifier: "alice".to_string(), points: None },
        Submission { identifier: "bob smith".to_string(), points: Some("3".to_string()) },
    ]
}

fn options(no_confirm: bool, filter: Option<&str>, suffix: Option<&str>) -> FeedbackOptions {
    FeedbackOptions {
        no_confirm,
        filter: filter.map(|f| Pattern::new(f).unwrap()),
        suffix: suffix.map(|s| s.to_string()),
        directory: "feedback".to_string(),
        target: "Sheet 1".to_string(),
    }
}

fn directory(name: &str, files: &[&str]) -> LocalEntry {
    let items = files
        .iter()
        .map(|f| DirectoryItem { name: f.to_string(), kind: EntryKind::File })
        .collect();
    LocalEntry::directory(name, items).unwrap()
}

fn listing() -> Vec<LocalEntry> {
    vec![
        directory("alice", &["report.pdf", "notes.txt"]),
        LocalEntry::file("bob_smith@student.kit.edu_42-report.pdf").unwrap(),
        LocalEntry::file("stray.txt").unwrap(),
    ]
}

#[test]
fn user_is_asked_first() {
    let matcher = FeedbackMatcher::new().unwrap();
    let options = options(false, Some("\\.pdf$"), None);
    let (state, action) =
        upload_feedback(FeedbackState::Start, FeedbackEvent::Begin, &submissions(), &options, &matcher);
    assert!(matches!(state, FeedbackState::Confirming));
    match &action {
        FeedbackAction::Ask { message } => {
            assert_eq!(message, "Upload feedback matching \\.pdf$ from feedback to Sheet 1?")
        },
        _ => panic!("unexpected action {action:?}"),
    }
    let event = FeedbackEvent::Answered { confirmed: true };
    let (state, action) = upload_feedback(state, event, &submissions(), &options, &matcher);
    assert!(matches!(state, FeedbackState::Listing));
    assert!(matches!(action, FeedbackAction::List));
}

#[test]
fn question_names_directory_and_target() {
    assert_eq!(confirmation(&options(false, None, None)), "Upload feedback from feedback to Sheet 1?");
    assert_eq!(
        confirmation(&options(true, Some("a+"), Some("_v2"))),
        "Upload feedback matching a+ from feedback to Sheet 1?"
    );
}

#[test]
fn declined_run_ends_without_error() {
    let matcher = FeedbackMatcher::new().unwrap();
    let options = options(false, None, None);
    let event = FeedbackEvent::Answered { confirmed: false };
    let (state, action) =
        upload_feedback(FeedbackState::Confirming, event, &submissions(), &options, &matcher);
    assert!(matches!(state, FeedbackState::Finished));
    assert!(matches!(action, FeedbackAction::Abandon));
}

#[test]
fn confirmed_run_lists_at_once() {
    let matcher = FeedbackMatcher::new().unwrap();
    let options = options(true, None, None);
    let (state, action) =
        upload_feedback(FeedbackState::Start, FeedbackEvent::Begin, &submissions(), &options, &matcher);
    assert!(matches!(state, FeedbackState::Listing));
    assert!(matches!(action, FeedbackAction::List));
}

#[test]
fn files_are_uploaded_one_by_one() {
    let matcher = FeedbackMatcher::new().unwrap();
    let submissions = submissions();
    let options = options(true, None, Some("_v2"));
    let event = FeedbackEvent::Listed { entries: listing() };
    let (state, action) = upload_feedback(FeedbackState::Listing, event, &submissions, &options, &matcher);
    match &action {
        FeedbackAction::Report { unmatched, ambiguous } => {
            assert_eq!(unmatched, &vec!["stray.txt".to_string()]);
            assert!(ambiguous.is_empty());
        },
        _ => panic!("unexpected action {action:?}"),
    }
    let mut sent = Vec::new();
    let mut state = state;
    let mut event = FeedbackEvent::Continue;
    loop {
        let (next, action) = upload_feedback(state, event, &submissions, &options, &matcher);
        state = next;
        match action {
            FeedbackAction::Upload { local_path, name, submission } => {
                sent.push((local_path.join("/"), name, submission));
                event = FeedbackEvent::Uploaded { accepted: true };
            },
            FeedbackAction::Complete => break,
            other => panic!("unexpected action {other:?}"),
        }
    }
    assert!(matches!(state, FeedbackState::Finished));
    assert_eq!(
        sent,
        vec![
            ("alice/report.pdf".to_string(), "report_v2.pdf".to_string(), 0),
            ("alice/notes.txt".to_string(), "notes_v2.txt".to_string(), 0),
            (
                "bob_smith@student.kit.edu_42-report.pdf".to_string(),
                "report_v2.pdf".to_string(),
                1
            ),
        ]
    );
}

#[test]
fn filtered_files_are_left_out() {
    let matcher = FeedbackMatcher::new().unwrap();
    let submissions = submissions();
    let options = options(true, Some("\\.pdf$"), None);
    let event = FeedbackEvent::Listed { entries: listing() };
    let (state, _) = upload_feedback(FeedbackState::Listing, event, &submissions, &options, &matcher);
    let mut sent = Vec::new();
    let mut skipped = Vec::new();
    let mut state = state;
    let mut event = FeedbackEvent::Continue;
    loop {
        let (next, action) = upload_feedback(state, event, &submissions, &options, &matcher);
        state = next;
        match action {
            FeedbackAction::Upload { name, submission, .. } => {
                sent.push((name, submission));
                event = FeedbackEvent::Uploaded { accepted: true };
            },
            FeedbackAction::Skip { target_filename } => {
                skipped.push(target_filename);
                event = FeedbackEvent::Continue;
            },
            FeedbackAction::Complete => break,
            other => panic!("unexpected action {other:?}"),
        }
    }
    assert_eq!(sent, vec![("report.pdf".to_string(), 0), ("report.pdf".to_string(), 1)]);
    assert_eq!(skipped, vec!["notes.txt".to_string()]);
}

#[test]
fn refused_upload_ends_the_run() {
    let matcher = FeedbackMatcher::new().unwrap();
    let submissions = submissions();
    let options = options(true, None, None);
    let event = FeedbackEvent::Listed {
        entries: vec![LocalEntry::file("bob_smith@student.kit.edu_42-report.pdf").unwrap()],
    };
    let (state, _) = upload_feedback(FeedbackState::Listing, event, &submissions, &options, &matcher);
    let (state, action) = upload_feedback(state, FeedbackEvent::Continue, &submissions, &options, &matcher);
    assert!(matches!(action, FeedbackAction::Upload { .. }));
    let event = FeedbackEvent::Uploaded { accepted: false };
    let (state, action) = upload_feedback(state, event, &submissions, &options, &matcher);
    assert!(matches!(state, FeedbackState::Finished));
    match &action {
        FeedbackAction::Fail { error } => {
            assert_eq!(error.kind, ErrorKind::Upload);
            assert_eq!(error.describe(), "Could not upload report.pdf to bob smith");
        },
        _ => panic!("unexpected action {action:?}"),
    }
}

#[test]
fn upload_failure_names_file_and_submission() {
    let error = upload_failure("report_v2.pdf", "alice");
    assert_eq!(error.kind, ErrorKind::Upload);
    assert_eq!(error.describe(), "Could not upload report_v2.pdf to alice");
}

#[test]
fn nested_directory_ends_the_run_before_any_upload() {
    let matcher = FeedbackMatcher::new().unwrap();
    let submissions = submissions();
    let options = options(true, None, None);
    let nested = LocalEntry::directory(
        "bob_smith",
        vec![
            DirectoryItem { name: "a.txt".to_string(), kind: EntryKind::File },
            DirectoryItem { name: "sub".to_string(), kind: EntryKind::Directory },
        ],
    )
    .unwrap();
    let event = FeedbackEvent::Listed { entries: vec![directory("alice", &["report.pdf"]), nested] };
    let (state, action) = upload_feedback(FeedbackState::Listing, event, &submissions, &options, &matcher);
    assert!(matches!(state, FeedbackState::Finished));
    match &action {
        FeedbackAction::Fail { error } => assert_eq!(error.kind, ErrorKind::UnsupportedStructure),
        _ => panic!("unexpected action {action:?}"),
    }
    let (_, action) = upload_feedback(state, FeedbackEvent::Continue, &submissions, &options, &matcher);
    assert!(matches!(action, FeedbackAction::Fail { .. }));
}

#[test]
fn name_without_stem_ends_the_run() {
    let matcher = FeedbackMatcher::new().unwrap();
    let submissions = submissions();
    let options = options(true, None, Some("_v2"));
    let event = FeedbackEvent::Listed { entries: vec![directory("alice", &[".hidden"])] };
    let (state, _) = upload_feedback(FeedbackState::Listing, event, &submissions, &options, &matcher);
    let (state, action) = upload_feedback(state, FeedbackEvent::Continue, &submissions, &options, &matcher);
    assert!(matches!(state, FeedbackState::Finished));
    match &action {
        FeedbackAction::Fail { error } => assert_eq!(error.kind, ErrorKind::NameStructure),
        _ => panic!("unexpected action {action:?}"),
    }
}

#[test]
fn reported_failure_ends_the_run() {
    let matcher = FeedbackMatcher::new().unwrap();
    let options = options(true, None, None);
    let event = FeedbackEvent::Failed { what: "Unable to read feedback directory".to_string() };
    let (state, action) = upload_feedback(FeedbackState::Listing, event, &submissions(), &options, &matcher);
    assert!(matches!(state, FeedbackState::Finished));
    match &action {
        FeedbackAction::Fail { error } => {
            assert_eq!(error.kind, ErrorKind::Io);
            assert_eq!(error.describe(), "Unable to read feedback directory");
        },
        _ => panic!("unexpected action {action:?}"),
    }
}

#[test]
fn unexpected_report_ends_the_run() {
    let matcher = FeedbackMatcher::new().unwrap();
    let options = options(true, None, None);
    let event = FeedbackEvent::Uploaded { accepted: true };
    let (state, action) = upload_feedback(FeedbackState::Start, event, &submissions(), &options, &matcher);
    assert!(matches!(state, FeedbackState::Finished));
    match &action {
        FeedbackAction::Fail { error } => assert_eq!(error.kind, ErrorKind::Protocol),
        _ => panic!("unexpected action {action:?}"),
    }
}

#[test]
fn upload_of_an_unknown_submission_ends_the_run() {
    let matcher = FeedbackMatcher::new().unwrap();
    let options = options(true, None, None);
    let event = FeedbackEvent::Listed { entries: vec![directory("alice", &["report.pdf"])] };
    let (state, _) = upload_feedback(FeedbackState::Listing, event, &submissions(), &options, &matcher);
    let (state, action) = upload_feedback(state, FeedbackEvent::Continue, &Vec::new(), &options, &matcher);
    assert!(matches!(state, FeedbackState::Finished));
    match &action {
        FeedbackAction::Fail { error } => assert_eq!(error.kind, ErrorKind::Protocol),
        _ => panic!("unexpected action {action:?}"),
    }
}

#[test]
fn decision_follows_filter_and_suffix() {
    assert_eq!(decide_upload("report.pdf", false, Some("_v2")).unwrap(), None);
    assert_eq!(decide_upload("report.pdf", true, None).unwrap(), Some("report.pdf".to_string()));
    assert_eq!(decide_upload("report.pdf", true, Some("")).unwrap(), Some("report.pdf".to_string()));
    assert_eq!(decide_upload("report.pdf", true, Some("_v2")).unwrap(), Some("report_v2.pdf".to_string()));
    assert_eq!(decide_upload("", true, None).unwrap(), Some(String::new()));
    assert_eq!(decide_upload(".pdf", false, Some("_v2")).unwrap(), None);
    let error = decide_upload(".pdf", true, Some("_v2")).unwrap_err();
    assert_eq!(error.kind, ErrorKind::NameStructure);
}

#[test]
fn filter_decides_what_is_uploaded() {
    let filter = Pattern::new("^report").unwrap();
    assert_eq!(
        prepare_upload("report.pdf", Some(&filter), Some("_v2")).unwrap(),
        Some("report_v2.pdf".to_string())
    );
    assert_eq!(prepare_upload("notes.pdf", Some(&filter), Some("_v2")).unwrap(), None);
    assert_eq!(prepare_upload("notes.pdf", None, None).unwrap(), Some("notes.pdf".to_string()));
    assert_eq!(prepare_upload(".pdf", Some(&filter), Some("_v2")).unwrap(), None);
    let error = prepare_upload(".pdf", None, Some("_v2")).unwrap_err();
    assert_eq!(error.kind, ErrorKind::NameStructure);
}
