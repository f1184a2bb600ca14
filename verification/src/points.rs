//! Entering points for submissions, one step at a time.
//!
//! The library keeps the list of what was entered; whoever drives it asks the
//! user and hands the list to the backend. `upload_points` takes the state of
//! a session and what the driver just learned, and answers with the next
//! state and what the driver is to do next.

use vstd::prelude::*;
use crate::entry::{submission_views, Submission, SubmissionView};
use crate::error::{Error, ErrorKind};
use crate::text::texts;

verus! {

/// A submission with the points that were entered for it.
#[derive(Debug)]
pub struct Graded {
    /// The position of the submission on the list of submissions.
    pub position: usize,
    /// The submission, with its new points.
    pub submission: Submission,
}

/// A `Graded` as plain values.
pub struct GradedView {
    pub position: int,
    pub submission: SubmissionView,
}

impl View for Graded {
    type V = GradedView;

    open spec fn view(&self) -> GradedView {
        GradedView { position: self.position as int, submission: self.submission@ }
    }
}

/// The views of `changed`, in order.
pub open spec fn graded_views(changed: Seq<Graded>) -> Seq<GradedView> {
    changed.map_values(|g: Graded| g@)
}

/// Where a session stands.
#[derive(Debug)]
pub enum PointsState {
    /// Nothing has happened yet.
    Start,
    /// The user is choosing a submission; `changed` holds what was entered so
    /// far.
    Choosing { changed: Vec<Graded> },
    /// The user is entering the points for the submission at position
    /// `selected`.
    Entering { changed: Vec<Graded>, selected: usize },
    /// The session is over.
    Finished,
}

/// What the driver learned.
#[derive(Debug)]
pub enum PointsEvent {
    /// The session is to begin.
    Begin,
    /// The position of the submission that the user chose, or that the user
    /// is done.
    Chosen { selected: Option<usize> },
    /// The points that the user entered.
    Entered { points: String },
    /// What was asked for could not be done; `what` says what failed.
    Failed { what: String },
}

/// What the driver is to do next.
#[derive(Debug)]
pub enum PointsAction {
    /// Let the user choose a submission, then report the choice.
    Choose,
    /// Let the user enter points, then report them.
    Enter,
    /// Stop: hand `changed` to the backend.
    Submit { changed: Vec<Graded> },
    /// Stop: the session failed.
    Fail { error: Error },
}

/// Whether `next` and `action` are the answer to `event` in `state`.
pub open spec fn points_step(
    state: PointsState,
    event: PointsEvent,
    submissions: Seq<SubmissionView>,
    next: PointsState,
    action: PointsAction,
) -> bool {
    match (state, event) {
        (_, PointsEvent::Failed { what }) => {
            &&& next is Finished
            &&& action matches PointsAction::Fail { error }
            &&& error.kind == ErrorKind::Io
            &&& texts(error.context@) == seq![what@]
        },
        (PointsState::Start, PointsEvent::Begin) => {
            &&& next matches PointsState::Choosing { changed }
            &&& changed@.len() == 0
            &&& action is Choose
        },
        (PointsState::Choosing { changed }, PointsEvent::Chosen { selected: Some(selected) }) => {
            &&& next matches PointsState::Entering { changed: kept, selected: at }
            &&& graded_views(kept@) == graded_views(changed@)
            &&& at == selected
            &&& action is Enter
        },
        (PointsState::Choosing { changed }, PointsEvent::Chosen { selected: None }) => {
            &&& next is Finished
            &&& action matches PointsAction::Submit { changed: handed }
            &&& graded_views(handed@) == graded_views(changed@)
        },
        (PointsState::Entering { changed, selected }, PointsEvent::Entered { points }) => if selected
            < submissions.len() {
            &&& next matches PointsState::Choosing { changed: longer }
            &&& graded_views(longer@) == graded_views(changed@).push(
                GradedView {
                    position: selected as int,
                    submission: SubmissionView {
                        identifier: submissions[selected as int].identifier,
                        points: Some(points@),
                    },
                },
            )
            &&& action is Choose
        } else {
            &&& next is Finished
            &&& action matches PointsAction::Fail { error }
            &&& error.kind == ErrorKind::Selection
        },
        _ => {
            &&& next is Finished
            &&& action matches PointsAction::Fail { error }
            &&& error.kind == ErrorKind::Protocol
        },
    }
}

/// Takes a session one step further: given where it stands and what the
/// driver learned, says where it stands now and what the driver is to do.
///
/// The user chooses a submission and enters its points, again and again,
/// until the user is done; the list of the submissions with their new points,
/// in the order in which they were entered, then goes to the backend. A
/// choice that is not on the list ends the session with an error, and so do
/// a failure that the driver reports and a report that does not answer what
/// was asked.
pub fn upload_points(
    state: PointsState,
    event: PointsEvent,
    submissions: &Vec<Submission>,
) -> (r: (PointsState, PointsAction))
    ensures
        points_step(state, event, submission_views(submissions@), r.0, r.1),
{
    match (state, event) {
        (_, PointsEvent::Failed { what }) => (
            PointsState::Finished,
            PointsAction::Fail { error: Error::new(ErrorKind::Io, what.as_str()) },
        ),
        (PointsState::Start, PointsEvent::Begin) => (
            PointsState::Choosing { changed: Vec::new() },
            PointsAction::Choose,
        ),
        (PointsState::Choosing { changed }, PointsEvent::Chosen { selected: Some(selected) }) => (
            PointsState::Entering { changed, selected },
            PointsAction::Enter,
        ),
        (PointsState::Choosing { changed }, PointsEvent::Chosen { selected: None }) => (
            PointsState::Finished,
            PointsAction::Submit { changed },
        ),
        (PointsState::Entering { changed, selected }, PointsEvent::Entered { points }) => {
            if selected < submissions.len() {
                let graded = Graded {
                    position: selected,
                    submission: Submission {
                        identifier: submissions[selected].identifier.clone(),
                        points: Some(points),
                    },
                };
                let ghost before = graded_views(changed@);
                let mut changed = changed;
                changed.push(graded);
                assert(graded_views(changed@) =~= before.push(graded@));
                (PointsState::Choosing { changed }, PointsAction::Choose)
            } else {
                (
                    PointsState::Finished,
                    PointsAction::Fail {
                        error: Error::new(
                            ErrorKind::Selection,
                            "the chosen submission is not on the list",
                        ),
                    },
                )
            }
        },
        _ => (
            PointsState::Finished,
            PointsAction::Fail {
                error: Error::new(ErrorKind::Protocol, "the driver reported what was not asked for"),
            },
        ),
    }
}

} // verus!
