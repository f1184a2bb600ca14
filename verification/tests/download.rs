use ilias_grader::download::{
    download_submissions, plan_entry, ArchiveEntry, DownloadAction, DownloadEvent, DownloadOptions,
    DownloadState,
};
use ilias_grader::error::ErrorKind;

fn entry(path: &[&str], is_file: bool) -> ArchiveEntry {
    ArchiveEntry { path: Some(path.iter().map(|c| c.to_string()).collect()), is_file }
}

#[test]
fn usual_options_drop_two_components() {
    let options = DownloadOptions::new(true, false);
    assert!(options.extract);
    assert!(!options.flatten);
    assert_eq!(options.strip_components, 2);
}

#[test]
fn archive_is_stored_as_it_is_unless_unpacked() {
    let options = DownloadOptions::new(false, false);
    let (state, action) = download_submissions(DownloadState::Start, DownloadEvent::Begin, &options);
    assert!(matches!(state, DownloadState::Fetching));
    assert!(matches!(action, DownloadAction::Fetch { temporary: false }));
    let (state, action) = download_submissions(state, DownloadEvent::Fetched, &options);
    assert!(matches!(state, DownloadState::Finished));
    assert!(matches!(action, DownloadAction::Finish));
}

#[test]
fn archive_is_unpacked_entry_by_entry() {
    let options = DownloadOptions::new(true, false);
    let (state, action) = download_submissions(DownloadState::Start, DownloadEvent::Begin, &options);
    assert!(matches!(action, DownloadAction::Fetch { temporary: true }));
    let (state, action) = download_submissions(state, DownloadEvent::Fetched, &options);
    assert!(matches!(state, DownloadState::Reading));
    assert!(matches!(action, DownloadAction::Next));

    let event = DownloadEvent::Entry { entry: entry(&["all", "alice"], false) };
    let (state, action) = download_submissions(state, event, &options);
    assert!(matches!(state, DownloadState::Reading));
    assert!(matches!(action, DownloadAction::Next));

    let event = DownloadEvent::Entry { entry: entry(&["all", "alice", "task 1", "main.rs"], true) };
    let (state, action) = download_submissions(state, event, &options);
    match &state {
        DownloadState::Probing { target } => assert_eq!(target, "task 1/main.rs"),
        _ => panic!("unexpected state {state:?}"),
    }
    match &action {
        DownloadAction::Probe { target } => assert_eq!(target, "task 1/main.rs"),
        _ => panic!("unexpected action {action:?}"),
    }

    let (state, action) =
        download_submissions(state, DownloadEvent::Probed { is_directory: false }, &options);
    assert!(matches!(state, DownloadState::Reading));
    match &action {
        DownloadAction::Write { target } => assert_eq!(target, "task 1/main.rs"),
        _ => panic!("unexpected action {action:?}"),
    }

    let (state, action) = download_submissions(state, DownloadEvent::Exhausted, &options);
    assert!(matches!(state, DownloadState::Finished));
    assert!(matches!(action, DownloadAction::Finish));
}

#[test]
fn existing_directory_is_passed_over() {
    let options = DownloadOptions::new(true, false);
    let event = DownloadEvent::Entry { entry: entry(&["all", "alice", "docs"], true) };
    let (state, action) = download_submissions(DownloadState::Reading, event, &options);
    assert!(matches!(action, DownloadAction::Probe { .. }));
    let (state, action) =
        download_submissions(state, DownloadEvent::Probed { is_directory: true }, &options);
    assert!(matches!(state, DownloadState::Reading));
    assert!(matches!(action, DownloadAction::Next));

    let event = DownloadEvent::Entry { entry: entry(&["all", "alice", "docs", "a.txt"], true) };
    let (state, action) = download_submissions(state, event, &options);
    assert!(matches!(action, DownloadAction::Probe { .. }));
    let (_, action) =
        download_submissions(state, DownloadEvent::Probed { is_directory: false }, &options);
    match &action {
        DownloadAction::Write { target } => assert_eq!(target, "docs/a.txt"),
        _ => panic!("unexpected action {action:?}"),
    }
}

#[test]
fn flattened_entry_becomes_one_name() {
    let options = DownloadOptions::new(true, true);
    let plan = plan_entry(&entry(&["all", "alice", "task 1", "my file.txt"], true), &options);
    assert_eq!(plan.unwrap(), Some("task_1-my_file.txt".to_string()));
}

#[test]
fn entry_keeps_its_directories_unless_flattened() {
    let options = DownloadOptions::new(true, false);
    let plan = plan_entry(&entry(&["a", "b", "c", "d.txt"], true), &options);
    assert_eq!(plan.unwrap(), Some("c/d.txt".to_string()));
}

#[test]
fn strip_depth_can_be_chosen() {
    let options = DownloadOptions { extract: true, flatten: false, strip_components: 0 };
    assert_eq!(plan_entry(&entry(&["a", "b"], true), &options).unwrap(), Some("a/b".to_string()));
    let options = DownloadOptions { extract: true, flatten: true, strip_components: 1 };
    assert_eq!(plan_entry(&entry(&["a", "b", "c"], true), &options).unwrap(), Some("b-c".to_string()));
}

#[test]
fn entry_with_nothing_left_goes_to_the_destination_itself() {
    let options = DownloadOptions::new(true, false);
    assert_eq!(plan_entry(&entry(&["a", "b"], true), &options).unwrap(), Some(String::new()));
}

#[test]
fn entry_that_is_no_file_is_passed_over() {
    let options = DownloadOptions::new(true, false);
    assert_eq!(plan_entry(&entry(&["a"], false), &options).unwrap(), None);
    let malformed = ArchiveEntry { path: None, is_file: false };
    assert_eq!(plan_entry(&malformed, &options).unwrap(), None);
}

#[test]
fn entry_with_too_few_components_ends_the_download() {
    let options = DownloadOptions::new(true, false);
    let error = plan_entry(&entry(&["only.txt"], true), &options).unwrap_err();
    assert_eq!(error.kind, ErrorKind::PathStructure);

    let event = DownloadEvent::Entry { entry: entry(&["only.txt"], true) };
    let (state, action) = download_submissions(DownloadState::Reading, event, &options);
    assert!(matches!(state, DownloadState::Finished));
    match &action {
        DownloadAction::Abort { error } => assert_eq!(error.kind, ErrorKind::PathStructure),
        _ => panic!("unexpected action {action:?}"),
    }
}

#[test]
fn entry_without_a_path_ends_the_download() {
    let options = DownloadOptions::new(true, false);
    let malformed = ArchiveEntry { path: None, is_file: true };
    let error = plan_entry(&malformed, &options).unwrap_err();
    assert_eq!(error.kind, ErrorKind::PathStructure);
}

#[test]
fn entry_that_leaves_the_destination_ends_the_download() {
    let options = DownloadOptions::new(true, false);
    for path in [
        vec!["a", "b", "..", "x"],
        vec!["a", "b", ".", "x"],
        vec!["a", "b", "", "x"],
        vec!["a", "b", "c/d"],
        vec!["a", "b", "c\\d"],
        vec!["..", "b", "c"],
    ] {
        let error = plan_entry(&entry(&path, true), &options).unwrap_err();
        assert_eq!(error.kind, ErrorKind::PathStructure);
    }
}

#[test]
fn reported_failure_ends_the_download() {
    let options = DownloadOptions::new(true, false);
    let event = DownloadEvent::Failed { what: "Could not create \"out/a.txt\"".to_string() };
    let (state, action) = download_submissions(DownloadState::Reading, event, &options);
    assert!(matches!(state, DownloadState::Finished));
    match &action {
        DownloadAction::Abort { error } => {
            assert_eq!(error.kind, ErrorKind::Io);
            assert_eq!(error.describe(), "Could not create \"out/a.txt\"");
        },
        _ => panic!("unexpected action {action:?}"),
    }
}

#[test]
fn unexpected_report_ends_the_download() {
    let options = DownloadOptions::new(true, false);
    let (state, action) =
        download_submissions(DownloadState::Start, DownloadEvent::Probed { is_directory: true }, &options);
    assert!(matches!(state, DownloadState::Finished));
    match &action {
        DownloadAction::Abort { error } => assert_eq!(error.kind, ErrorKind::Protocol),
        _ => panic!("unexpected action {action:?}"),
    }
    let (_, action) = download_submissions(DownloadState::Finished, DownloadEvent::Begin, &options);
    assert!(matches!(action, DownloadAction::Abort { .. }));
}
