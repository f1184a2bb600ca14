//! Uploading the files of a feedback directory, one step at a time.
//!
//! The library decides; whoever drives it asks the user, lists the feedback
//! directory and talks to the backend. `upload_feedback` takes the state of a
//! run and what the driver just learned, and answers with the next state and
//! what the driver is to do next.

use vstd::prelude::*;
use crate::entry::{identifiers, LocalEntry, Submission};
use crate::error::{Error, ErrorKind};
use crate::matcher::{
    ambiguous_names, entry_views, matched_uploads, unmatched_names, upload_views, FeedbackMatcher,
    MatchedUpload,
};
use crate::path::{append_suffix, is_component, lemma_suffixed_is_name, separator, suffixed};
use crate::pattern::{pattern_matches, Pattern};
use crate::text::texts;

verus! {

/// How a feedback directory is to be uploaded.
#[derive(Debug)]
pub struct FeedbackOptions {
    /// Whether the upload goes ahead without asking.
    pub no_confirm: bool,
    /// Only files whose target name matches this are uploaded.
    pub filter: Option<Pattern>,
    /// What is put in front of the extension of every target name.
    pub suffix: Option<String>,
    /// The feedback directory, as the user is to read it.
    pub directory: String,
    /// The name of what the feedback is uploaded to.
    pub target: String,
}

/// Where a run stands.
#[derive(Debug)]
pub enum FeedbackState {
    /// Nothing has happened yet.
    Start,
    /// The user is being asked whether to go ahead.
    Confirming,
    /// The feedback directory is being listed.
    Listing,
    /// The uploads from `position` on are still to be made, and the driver is
    /// to say when to go on.
    Queued { queue: Vec<MatchedUpload>, position: usize },
    /// The upload before `position` is on its way, under `name`, to the
    /// submission `identifier`.
    Sending { queue: Vec<MatchedUpload>, position: usize, name: String, identifier: String },
    /// The run is over.
    Finished,
}

/// What the driver learned.
#[derive(Debug)]
pub enum FeedbackEvent {
    /// The run is to begin.
    Begin,
    /// What the user answered.
    Answered { confirmed: bool },
    /// What the feedback directory holds, each directory with what is in it.
    Listed { entries: Vec<LocalEntry> },
    /// The driver has taken note and the run may go on.
    Continue,
    /// Whether the backend accepted the upload.
    Uploaded { accepted: bool },
    /// What was asked for could not be done; `what` says what failed, and
    /// for which path.
    Failed { what: String },
}

/// What the driver is to do next.
#[derive(Debug)]
pub enum FeedbackAction {
    /// Ask the user whether to go ahead, then report the answer.
    Ask { message: String },
    /// List the feedback directory, then report what it holds.
    List,
    /// Take note of the entries that belong to no submission, and of those
    /// that belong to more than one and went to the first, then continue.
    Report { unmatched: Vec<String>, ambiguous: Vec<String> },
    /// Take note that a file is left out by the filter, then continue.
    Skip { target_filename: String },
    /// Upload the file at `local_path`, below the feedback directory, under
    /// `name` to the submission at position `submission`, then report
    /// whether the backend accepted it.
    Upload { local_path: Vec<String>, name: String, submission: usize },
    /// Stop: every upload has been made.
    Complete,
    /// Stop: the user did not want to go ahead.
    Abandon,
    /// Stop: the run failed.
    Fail { error: Error },
}

/// The text of an optional string.
pub open spec fn text_of(text: Option<&str>) -> Option<Seq<char>> {
    match text {
        Some(t) => Some(t@),
        None => None,
    }
}

/// The text of the filter, if there is one.
pub open spec fn filter_text(filter: Option<Pattern>) -> Option<Seq<char>> {
    match filter {
        Some(pattern) => Some(pattern@),
        None => None,
    }
}

/// The suffix, if there is one.
pub open spec fn suffix_text(suffix: Option<String>) -> Option<Seq<char>> {
    match suffix {
        Some(text) => Some(text@),
        None => None,
    }
}

/// Whether the filter lets a file with the target name `name` through.
pub open spec fn passes_filter(filter: Option<Seq<char>>, name: Seq<char>) -> bool {
    match filter {
        Some(pattern) => pattern_matches(pattern, name),
        None => true,
    }
}

/// What becomes of a file with the target name `name`: `Ok(None)` where the
/// filter leaves it out, else the name under which it is uploaded, or the
/// reason why it has none.
pub open spec fn upload_plan(name: Seq<char>, admitted: bool, suffix: Option<Seq<char>>) -> Result<
    Option<Seq<char>>,
    ErrorKind,
> {
    if !admitted {
        Ok(None)
    } else {
        match suffix {
            None => Ok(Some(name)),
            Some(text) => match suffixed(name, text) {
                Some(longer) => Ok(Some(longer)),
                None => Err(ErrorKind::NameStructure),
            },
        }
    }
}

/// What the user is asked before anything is uploaded.
pub open spec fn confirmation_message(
    filter: Option<Seq<char>>,
    directory: Seq<char>,
    target: Seq<char>,
) -> Seq<char> {
    let matching = match filter {
        Some(pattern) => " matching "@ + pattern,
        None => Seq::empty(),
    };
    "Upload feedback"@ + matching + " from "@ + directory + " to "@ + target + "?"@
}

/// What is said of an upload that the backend did not accept.
pub open spec fn upload_failure_message(name: Seq<char>, identifier: Seq<char>) -> Seq<char> {
    "Could not upload "@ + name + " to "@ + identifier
}

/// Whether `next` and `action` end the run with an error of the given kind.
pub open spec fn fails_with(next: FeedbackState, action: FeedbackAction, kind: ErrorKind) -> bool {
    &&& next is Finished
    &&& action matches FeedbackAction::Fail { error }
    &&& error.kind == kind
}

/// Whether `next` and `action` are how a run goes on with the uploads of
/// `queue` from `position` on.
pub open spec fn feedback_advance(
    queue: Seq<MatchedUpload>,
    position: int,
    identifiers: Seq<Seq<char>>,
    options: FeedbackOptions,
    next: FeedbackState,
    action: FeedbackAction,
) -> bool {
    if position >= queue.len() {
        next is Finished && action is Complete
    } else {
        let upload = queue[position]@;
        match upload_plan(
            upload.target_filename,
            passes_filter(filter_text(options.filter), upload.target_filename),
            suffix_text(options.suffix),
        ) {
            Ok(None) => {
                &&& next matches FeedbackState::Queued { queue: kept, position: at }
                &&& upload_views(kept@) == upload_views(queue)
                &&& at == position + 1
                &&& action matches FeedbackAction::Skip { target_filename }
                &&& target_filename@ == upload.target_filename
            },
            Ok(Some(longer)) => if upload.submission < identifiers.len() {
                &&& next matches FeedbackState::Sending {
                    queue: kept,
                    position: at,
                    name: sent,
                    identifier,
                }
                &&& upload_views(kept@) == upload_views(queue)
                &&& at == position + 1
                &&& sent@ == longer
                &&& identifier@ == identifiers[upload.submission]
                &&& action matches FeedbackAction::Upload { local_path, name, submission }
                &&& texts(local_path@) == upload.local_path
                &&& name@ == longer
                &&& submission == upload.submission
            } else {
                fails_with(next, action, ErrorKind::Protocol)
            },
            Err(kind) => fails_with(next, action, kind),
        }
    }
}

/// Whether `next` and `action` are the answer to `event` in `state`.
pub open spec fn feedback_step(
    state: FeedbackState,
    event: FeedbackEvent,
    identifiers: Seq<Seq<char>>,
    options: FeedbackOptions,
    decoder: Seq<char>,
    next: FeedbackState,
    action: FeedbackAction,
) -> bool {
    match (state, event) {
        (_, FeedbackEvent::Failed { what }) => {
            &&& fails_with(next, action, ErrorKind::Io)
            &&& texts(action->Fail_error.context@) == seq![what@]
        },
        (FeedbackState::Start, FeedbackEvent::Begin) => if options.no_confirm {
            next is Listing && action is List
        } else {
            &&& next is Confirming
            &&& action matches FeedbackAction::Ask { message }
            &&& message@ == confirmation_message(
                filter_text(options.filter),
                options.directory@,
                options.target@,
            )
        },
        (FeedbackState::Confirming, FeedbackEvent::Answered { confirmed }) => if confirmed {
            next is Listing && action is List
        } else {
            next is Finished && action is Abandon
        },
        (FeedbackState::Listing, FeedbackEvent::Listed { entries }) => match matched_uploads(
            decoder,
            identifiers,
            entry_views(entries@),
        ) {
            Ok(uploads) => {
                &&& next matches FeedbackState::Queued { queue, position }
                &&& upload_views(queue@) == uploads
                &&& position == 0
                &&& action matches FeedbackAction::Report { unmatched, ambiguous }
                &&& texts(unmatched@) == unmatched_names(
                    identifiers,
                    entry_views(entries@),
                    entries@.len() as int,
                )
                &&& texts(ambiguous@) == ambiguous_names(
                    identifiers,
                    entry_views(entries@),
                    entries@.len() as int,
                )
            },
            Err(kind) => fails_with(next, action, kind),
        },
        (FeedbackState::Queued { queue, position }, FeedbackEvent::Continue) => feedback_advance(
            queue@,
            position as int,
            identifiers,
            options,
            next,
            action,
        ),
        (
            FeedbackState::Sending { queue, position, name, identifier },
            FeedbackEvent::Uploaded { accepted },
        ) => if accepted {
            feedback_advance(queue@, position as int, identifiers, options, next, action)
        } else {
            &&& fails_with(next, action, ErrorKind::Upload)
            &&& texts(action->Fail_error.context@) == seq![
                upload_failure_message(name@, identifier@),
            ]
        },
        _ => fails_with(next, action, ErrorKind::Protocol),
    }
}

/// Nothing is uploaded before the entries of the feedback directory have
/// been paired with the submissions, and nothing at all where one of them
/// cannot be paired properly.
pub proof fn lemma_uploads_follow_matching(
    state: FeedbackState,
    event: FeedbackEvent,
    identifiers: Seq<Seq<char>>,
    options: FeedbackOptions,
    decoder: Seq<char>,
    next: FeedbackState,
    action: FeedbackAction,
)
    requires
        feedback_step(state, event, identifiers, options, decoder, next, action),
    ensures
        action is Upload ==> state is Queued || state is Sending,
        next is Queued || next is Sending ==> state is Queued || state is Sending || (state is Listing
            && event is Listed && matched_uploads(
            decoder,
            identifiers,
            entry_views(event->entries@),
        ) is Ok),
        state is Listing && event is Listed && matched_uploads(
            decoder,
            identifiers,
            entry_views(event->entries@),
        ) is Err ==> next is Finished && action is Fail,
{
}

/// A file that is uploaded has a file name at the backend, as long as the
/// suffix holds no separator: matching gives every target a file name, and
/// the suffix keeps it one.
pub proof fn lemma_uploaded_name_is_file_name(
    queue: Seq<MatchedUpload>,
    position: int,
    identifiers: Seq<Seq<char>>,
    options: FeedbackOptions,
    next: FeedbackState,
    action: FeedbackAction,
)
    requires
        0 <= position < queue.len(),
        is_component(queue[position]@.target_filename),
        options.suffix matches Some(text) ==> !text@.contains(separator()),
        feedback_advance(queue, position, identifiers, options, next, action),
    ensures
        action matches FeedbackAction::Upload { name, .. } ==> is_component(name@),
{
    match options.suffix {
        Some(text) => {
            if suffixed(queue[position]@.target_filename, text@) is Some {
                lemma_suffixed_is_name(queue[position]@.target_filename, text@);
            }
        },
        None => {},
    }
}

/// Decides what becomes of a file with the target name `target_filename`,
/// given whether the filter lets it through: it is left out, or uploaded
/// under its name with the suffix in front of the extension.
pub fn decide_upload(target_filename: &str, admitted: bool, suffix: Option<&str>) -> (r: Result<
    Option<String>,
    Error,
>)
    ensures
        match r {
            Ok(None) => upload_plan(target_filename@, admitted, text_of(suffix)) == Ok::<
                Option<Seq<char>>,
                ErrorKind,
            >(None),
            Ok(Some(name)) => upload_plan(target_filename@, admitted, text_of(suffix)) == Ok::<
                Option<Seq<char>>,
                ErrorKind,
            >(Some(name@)),
            Err(e) => upload_plan(target_filename@, admitted, text_of(suffix)) == Err::<
                Option<Seq<char>>,
                ErrorKind,
            >(e.kind),
        },
{
    if !admitted {
        return Ok(None);
    }
    match suffix {
        None => Ok(Some(target_filename.to_owned())),
        Some(text) => match append_suffix(target_filename, text) {
            Ok(longer) => Ok(Some(longer)),
            Err(e) => Err(e),
        },
    }
}

/// Decides what becomes of a file with the target name `target_filename`:
/// it is left out where there is a filter that does not match the name, and
/// else uploaded under its name with the suffix in front of the extension.
pub fn prepare_upload(
    target_filename: &str,
    filter: Option<&Pattern>,
    suffix: Option<&str>,
) -> (r: Result<Option<String>, Error>)
    ensures
        ({
            let admitted = match filter {
                Some(pattern) => pattern_matches(pattern@, target_filename@),
                None => true,
            };
            match r {
                Ok(None) => upload_plan(target_filename@, admitted, text_of(suffix)) == Ok::<
                    Option<Seq<char>>,
                    ErrorKind,
                >(None),
                Ok(Some(name)) => upload_plan(target_filename@, admitted, text_of(suffix)) == Ok::<
                    Option<Seq<char>>,
                    ErrorKind,
                >(Some(name@)),
                Err(e) => upload_plan(target_filename@, admitted, text_of(suffix)) == Err::<
                    Option<Seq<char>>,
                    ErrorKind,
                >(e.kind),
            }
        }),
{
    let admitted = match filter {
        Some(pattern) => pattern.matches(target_filename),
        None => true,
    };
    decide_upload(target_filename, admitted, suffix)
}

/// What the user is asked before anything is uploaded.
pub fn confirmation(options: &FeedbackOptions) -> (message: String)
    ensures
        message@ == confirmation_message(
            filter_text(options.filter),
            options.directory@,
            options.target@,
        ),
{
    let mut message = "Upload feedback".to_owned();
    match &options.filter {
        Some(pattern) => {
            message.append(" matching ");
            message.append(pattern.source());
        },
        None => {
        },
    }
    message.append(" from ");
    message.append(options.directory.as_str());
    message.append(" to ");
    message.append(options.target.as_str());
    message.append("?");
    proof {
        let matching = match filter_text(options.filter) {
            Some(pattern) => " matching "@ + pattern,
            None => Seq::empty(),
        };
        assert(message@ =~= "Upload feedback"@ + matching + " from "@ + options.directory@ + " to "@
            + options.target@ + "?"@);
    }
    message
}

/// The error for an upload that the backend did not accept.
pub fn upload_failure(name: &str, identifier: &str) -> (error: Error)
    ensures
        error.kind == ErrorKind::Upload,
        texts(error.context@) == seq![upload_failure_message(name@, identifier@)],
{
    let mut message = "Could not upload ".to_owned();
    message.append(name);
    message.append(" to ");
    message.append(identifier);
    Error::new(ErrorKind::Upload, message.as_str())
}

/// A copy of `names`.
fn copy_names(names: &Vec<String>) -> (copy: Vec<String>)
    ensures
        texts(copy@) == texts(names@),
{
    let mut copy: Vec<String> = Vec::new();
    let mut i: usize = 0;
    while i < names.len()
        invariant
            i <= names.len(),
            texts(copy@) == texts(names@).take(i as int),
        decreases names.len() - i,
    {
        copy.push(names[i].clone());
        assert(texts(names@).take(i + 1) =~= texts(names@).take(i as int).push(
            names@[i as int]@,
        ));
        i += 1;
    }
    copy
}

/// Goes on with the uploads of `queue` from `position` on.
fn advance(
    queue: Vec<MatchedUpload>,
    position: usize,
    submissions: &Vec<Submission>,
    options: &FeedbackOptions,
) -> (r: (FeedbackState, FeedbackAction))
    ensures
        feedback_advance(queue@, position as int, identifiers(submissions@), *options, r.0, r.1),
{
    if position >= queue.len() {
        return (FeedbackState::Finished, FeedbackAction::Complete);
    }
    let upload = &queue[position];
    let suffix = match &options.suffix {
        Some(text) => Some(text.as_str()),
        None => None,
    };
    let filter = match &options.filter {
        Some(pattern) => Some(pattern),
        None => None,
    };
    match prepare_upload(upload.target_filename.as_str(), filter, suffix) {
        Ok(None) => {
            let target_filename = upload.target_filename.clone();
            (
                FeedbackState::Queued { queue, position: position + 1 },
                FeedbackAction::Skip { target_filename },
            )
        },
        Ok(Some(name)) => {
            if upload.submission < submissions.len() {
                let identifier = submissions[upload.submission].identifier.clone();
                let local_path = copy_names(&upload.local_path);
                let submission = upload.submission;
                (
                    FeedbackState::Sending {
                        queue,
                        position: position + 1,
                        name: name.clone(),
                        identifier,
                    },
                    FeedbackAction::Upload { local_path, name, submission },
                )
            } else {
                (
                    FeedbackState::Finished,
                    FeedbackAction::Fail {
                        error: Error::new(
                            ErrorKind::Protocol,
                            "an upload names a submission that is not on the list",
                        ),
                    },
                )
            }
        },
        Err(error) => (FeedbackState::Finished, FeedbackAction::Fail { error }),
    }
}

/// Takes a run one step further: given where it stands and what the driver
/// learned, says where it stands now and what the driver is to do.
///
/// Unless told otherwise the run asks the user first, and ends without an
/// error when the user declines. It then has the feedback directory listed
/// and pairs its entries with the submissions; an entry that cannot be
/// paired properly ends the run before anything is uploaded. After that the
/// uploads are made one by one: a file that the filter leaves out is passed
/// over, every other file gets the suffix and is uploaded. A name that cannot
/// take the suffix, an upload that the backend does not accept, a failure
/// that the driver reports, and a report that does not answer what was asked
/// end the run with an error.
pub fn upload_feedback(
    state: FeedbackState,
    event: FeedbackEvent,
    submissions: &Vec<Submission>,
    options: &FeedbackOptions,
    matcher: &FeedbackMatcher,
) -> (r: (FeedbackState, FeedbackAction))
    ensures
        feedback_step(state, event, identifiers(submissions@), *options, matcher.decoder(), r.0, r.1),
{
    match (state, event) {
        (_, FeedbackEvent::Failed { what }) => (
            FeedbackState::Finished,
            FeedbackAction::Fail { error: Error::new(ErrorKind::Io, what.as_str()) },
        ),
        (FeedbackState::Start, FeedbackEvent::Begin) => if options.no_confirm {
            (FeedbackState::Listing, FeedbackAction::List)
        } else {
            (FeedbackState::Confirming, FeedbackAction::Ask { message: confirmation(options) })
        },
        (FeedbackState::Confirming, FeedbackEvent::Answered { confirmed }) => if confirmed {
            (FeedbackState::Listing, FeedbackAction::List)
        } else {
            (FeedbackState::Finished, FeedbackAction::Abandon)
        },
        (FeedbackState::Listing, FeedbackEvent::Listed { entries }) => match matcher.match_entries(
            submissions,
            &entries,
        ) {
            Ok(report) => (
                FeedbackState::Queued { queue: report.uploads, position: 0 },
                FeedbackAction::Report { unmatched: report.unmatched, ambiguous: report.ambiguous },
            ),
            Err(error) => (FeedbackState::Finished, FeedbackAction::Fail { error }),
        },
        (FeedbackState::Queued { queue, position }, FeedbackEvent::Continue) => advance(
            queue,
            position,
            submissions,
            options,
        ),
        (
            FeedbackState::Sending { queue, position, name, identifier },
            FeedbackEvent::Uploaded { accepted },
        ) => if accepted {
            advance(queue, position, submissions, options)
        } else {
            (
                FeedbackState::Finished,
                FeedbackAction::Fail { error: upload_failure(name.as_str(), identifier.as_str()) },
            )
        },
        _ => (
            FeedbackState::Finished,
            FeedbackAction::Fail {
                error: Error::new(ErrorKind::Protocol, "the driver reported what was not asked for"),
            },
        ),
    }
}

} // verus!
