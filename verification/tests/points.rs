use ilias_grader::entry::Submission;
use ilias_grader::error::ErrorKind;
use ilias_grader::points::{upload_points, PointsAction, PointsEvent, PointsState};

fn submissions() -> Vec<Submission> {
    vec![
        Submission { identifier: "alice".to_string(), points: None },
        Submission { identifier: "bob".to_string(), points: Some("3".to_string()) },
    ]
}

#[test]
fn points_are_collected_until_the_user_is_done() {
    let submissions = submissions();
    let (state, action) = upload_points(PointsState::Start, PointsEvent::Begin, &submissions);
    assert!(matches!(action, PointsAction::Choose));
    let (state, action) = upload_points(state, PointsEvent::Chosen { selected: Some(1) }, &submissions);
    assert!(matches!(action, PointsAction::Enter));
    let (state, action) =
        upload_points(state, PointsEvent::Entered { points: "10".to_string() }, &submissions);
    assert!(matches!(action, PointsAction::Choose));
    let (state, _) = upload_points(state, PointsEvent::Chosen { selected: Some(0) }, &submissions);
    let (state, _) = upload_points(state, PointsEvent::Entered { points: "7,5".to_string() }, &submissions);
    let (state, action) = upload_points(state, PointsEvent::Chosen { selected: None }, &submissions);
    assert!(matches!(state, PointsState::Finished));
    match action {
        PointsAction::Submit { changed } => {
            assert_eq!(changed.len(), 2);
            assert_eq!(changed[0].position, 1);
            assert_eq!(changed[0].submission.identifier, "bob");
            assert_eq!(changed[0].submission.points, Some("10".to_string()));
            assert_eq!(changed[1].position, 0);
            assert_eq!(changed[1].submission.identifier, "alice");
            assert_eq!(changed[1].submission.points, Some("7,5".to_string()));
        },
        other => panic!("unexpected action {other:?}"),
    }
}

#[test]
fn nothing_entered_means_nothing_changed() {
    let submissions = submissions();
    let (state, _) = upload_points(PointsState::Start, PointsEvent::Begin, &submissions);
    let (_, action) = upload_points(state, PointsEvent::Chosen { selected: None }, &submissions);
    match action {
        PointsAction::Submit { changed } => assert!(changed.is_empty()),
        other => panic!("unexpected action {other:?}"),
    }
}

#[test]
fn choice_that_is_not_on_the_list_ends_the_session() {
    let submissions = submissions();
    let state = PointsState::Entering { changed: Vec::new(), selected: 2 };
    let (state, action) =
        upload_points(state, PointsEvent::Entered { points: "1".to_string() }, &submissions);
    assert!(matches!(state, PointsState::Finished));
    match &action {
        PointsAction::Fail { error } => assert_eq!(error.kind, ErrorKind::Selection),
        _ => panic!("unexpected action {action:?}"),
    }
}

#[test]
fn reported_failure_ends_the_session() {
    let event = PointsEvent::Failed { what: "Inputting points failed.".to_string() };
    let (state, action) = upload_points(PointsState::Start, event, &submissions());
    assert!(matches!(state, PointsState::Finished));
    match &action {
        PointsAction::Fail { error } => {
            assert_eq!(error.kind, ErrorKind::Io);
            assert_eq!(error.describe(), "Inputting points failed.");
        },
        _ => panic!("unexpected action {action:?}"),
    }
}

#[test]
fn unexpected_report_ends_the_session() {
    let event = PointsEvent::Entered { points: "1".to_string() };
    let (state, action) = upload_points(PointsState::Start, event, &submissions());
    assert!(matches!(state, PointsState::Finished));
    match &action {
        PointsAction::Fail { error } => assert_eq!(error.kind, ErrorKind::Protocol),
        _ => panic!("unexpected action {action:?}"),
    }
}
