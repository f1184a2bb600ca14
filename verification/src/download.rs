//! Laying out a downloaded archive of submissions, one step at a time.
//!
//! The library decides; whoever drives it fetches the archive, reads its
//! entries, looks at the destination and writes. `download_submissions` takes
//! the state of a download and what the driver just learned, and answers with
//! the next state and what the driver is to do next.

use vstd::prelude::*;
use crate::error::{Error, ErrorKind};
use crate::path::{
    components, drop_components, flatten_path, is_component, join, join_from,
    lemma_components_of_join, lemma_components_of_name, lemma_join_without, separator, underscored,
    views,
};
use crate::text::{chars_of, string_of, texts};

verus! {

/// One entry of an archive: the components of its path inside the archive,
/// where the archive reader could make out a path that stays inside the
/// archive, and whether it is a plain file.
#[derive(Debug)]
pub struct ArchiveEntry {
    pub path: Option<Vec<String>>,
    pub is_file: bool,
}

/// How a download is to be laid out.
#[derive(Clone, Copy, Debug)]
pub struct DownloadOptions {
    /// Whether the archive is unpacked rather than stored as it is.
    pub extract: bool,
    /// Whether each entry becomes one file right in the destination.
    pub flatten: bool,
    /// How many leading components each entry loses.
    pub strip_components: usize,
}

impl DownloadOptions {
    /// The usual options: archives wrap each submission in two directories,
    /// which are dropped.
    pub fn new(extract: bool, flatten: bool) -> (options: DownloadOptions)
        ensures
            options.extract == extract,
            options.flatten == flatten,
            options.strip_components == 2,
    {
        DownloadOptions { extract, flatten, strip_components: 2 }
    }
}

/// Where a download stands.
#[derive(Debug)]
pub enum DownloadState {
    /// Nothing has happened yet.
    Start,
    /// The archive is being fetched.
    Fetching,
    /// The archive is open and the next entry is awaited.
    Reading,
    /// An entry is to be written to `target`, once it is known what lies
    /// there.
    Probing { target: String },
    /// The download is over.
    Finished,
}

/// What the driver learned.
#[derive(Debug)]
pub enum DownloadEvent {
    /// The download is to begin.
    Begin,
    /// The archive has been fetched.
    Fetched,
    /// The archive has another entry.
    Entry { entry: ArchiveEntry },
    /// Whether the target asked about is a directory that exists.
    Probed { is_directory: bool },
    /// The archive has no more entries.
    Exhausted,
    /// What was asked for could not be done; `what` says what failed, and
    /// for which path.
    Failed { what: String },
}

/// What the driver is to do next.
#[derive(Debug)]
pub enum DownloadAction {
    /// Fetch the archive: to a temporary place if it is to be unpacked, to
    /// the destination itself if not. Then report `Fetched`.
    Fetch { temporary: bool },
    /// Report the next entry of the archive, or that there is none.
    Next,
    /// Report whether `target`, below the destination, is a directory that
    /// exists.
    Probe { target: String },
    /// Create the directories that `target` lies in, write the current entry
    /// to `target` below the destination, replacing a file that is there, and
    /// report the next entry.
    Write { target: String },
    /// Stop: the download is complete.
    Finish,
    /// Stop: the download failed. What was written stays.
    Abort { error: Error },
}

/// Whether `name` can be a component of a path that stays below the place it
/// is joined to: a file name other than `.` and `..` that holds no backslash.
pub open spec fn is_plain_component(name: Seq<char>) -> bool {
    &&& is_component(name)
    &&& !name.contains('\\')
    &&& name != seq!['.']
    &&& name != seq!['.', '.']
}

/// Whether every component of `path` is plain.
pub open spec fn is_enclosed(path: Seq<Seq<char>>) -> bool {
    forall|i: int| 0 <= i < path.len() ==> is_plain_component(#[trigger] path[i])
}

/// Where an entry with the components `path` goes, below the destination:
/// the path without its leading components, flattened into one name if asked
/// for.
pub open spec fn entry_target(path: Seq<Seq<char>>, options: DownloadOptions) -> Seq<char> {
    let rest = path.skip(options.strip_components as int);
    if options.flatten {
        join(rest.map_values(|c: Seq<char>| underscored(c)), '-')
    } else {
        join(rest, separator())
    }
}

/// What becomes of an entry: `Ok(None)` where it is passed over, the target
/// where it is to be written, or the reason why the download cannot go on.
pub open spec fn entry_plan(entry: ArchiveEntry, options: DownloadOptions) -> Result<
    Option<Seq<char>>,
    ErrorKind,
> {
    if !entry.is_file {
        Ok(None)
    } else {
        match entry.path {
            None => Err(ErrorKind::PathStructure),
            Some(path) => if is_enclosed(texts(path@)) && options.strip_components <= path@.len() {
                Ok(Some(entry_target(texts(path@), options)))
            } else {
                Err(ErrorKind::PathStructure)
            },
        }
    }
}

/// Whether `next` and `action` are the answer to `event` in `state`.
pub open spec fn download_step(
    state: DownloadState,
    event: DownloadEvent,
    options: DownloadOptions,
    next: DownloadState,
    action: DownloadAction,
) -> bool {
    match (state, event) {
        (_, DownloadEvent::Failed { what }) => {
            &&& next is Finished
            &&& action matches DownloadAction::Abort { error }
            &&& error.kind == ErrorKind::Io
            &&& texts(error.context@) == seq![what@]
        },
        (DownloadState::Start, DownloadEvent::Begin) => {
            &&& next is Fetching
            &&& action == (DownloadAction::Fetch { temporary: options.extract })
        },
        (DownloadState::Fetching, DownloadEvent::Fetched) => if options.extract {
            next is Reading && action is Next
        } else {
            next is Finished && action is Finish
        },
        (DownloadState::Reading, DownloadEvent::Entry { entry }) => match entry_plan(entry, options) {
            Ok(None) => next is Reading && action is Next,
            Ok(Some(target)) => {
                &&& next matches DownloadState::Probing { target: kept }
                &&& kept@ == target
                &&& action matches DownloadAction::Probe { target: asked }
                &&& asked@ == target
            },
            Err(kind) => {
                &&& next is Finished
                &&& action matches DownloadAction::Abort { error }
                &&& error.kind == kind
            },
        },
        (DownloadState::Reading, DownloadEvent::Exhausted) => next is Finished && action is Finish,
        (DownloadState::Probing { target }, DownloadEvent::Probed { is_directory }) => if is_directory {
            next is Reading && action is Next
        } else {
            &&& next is Reading
            &&& action matches DownloadAction::Write { target: written }
            &&& written@ == target@
        },
        _ => {
            &&& next is Finished
            &&& action matches DownloadAction::Abort { error }
            &&& error.kind == ErrorKind::Protocol
        },
    }
}

/// Whether every target that `state` holds stays below the destination.
pub open spec fn state_is_enclosed(state: DownloadState) -> bool {
    state matches DownloadState::Probing { target } ==> is_enclosed(components(target@))
}

/// Whether every target that `action` names stays below the destination.
pub open spec fn action_is_enclosed(action: DownloadAction) -> bool {
    match action {
        DownloadAction::Probe { target } => is_enclosed(components(target@)),
        DownloadAction::Write { target } => is_enclosed(components(target@)),
        _ => true,
    }
}

/// Parts joined by a character hold that character, if there are two or more
/// of them.
proof fn lemma_join_holds_separator(parts: Seq<Seq<char>>, sep: char)
    requires
        parts.len() >= 2,
    ensures
        join(parts, sep).contains(sep),
{
    let head = join(parts.drop_last(), sep);
    let whole = join(parts, sep);
    assert(whole[head.len() as int] == sep);
}

/// Replacing spaces by underscores keeps a plain component plain.
proof fn lemma_underscored_is_plain(name: Seq<char>)
    requires
        is_plain_component(name),
    ensures
        is_plain_component(underscored(name)),
{
    let out = underscored(name);
    if out == seq!['.'] {
        assert(name =~= seq!['.']);
    }
    if out == seq!['.', '.'] {
        assert(name =~= seq!['.', '.']);
    }
}

/// An entry that is written goes to a target whose components are all plain:
/// it stays below the destination.
pub proof fn lemma_target_is_enclosed(path: Seq<Seq<char>>, options: DownloadOptions)
    requires
        is_enclosed(path),
        options.strip_components <= path.len(),
    ensures
        is_enclosed(components(entry_target(path, options))),
        !options.flatten ==> components(entry_target(path, options)) == path.skip(
            options.strip_components as int,
        ),
        options.flatten ==> components(entry_target(path, options)).len() <= 1,
{
    let rest = path.skip(options.strip_components as int);
    if options.flatten {
        let parts = rest.map_values(|c: Seq<char>| underscored(c));
        let target = join(parts, '-');
        assert forall|i: int| 0 <= i < parts.len() implies is_plain_component(#[trigger] parts[i]) by {
            lemma_underscored_is_plain(rest[i]);
        }
        lemma_join_without(parts, '-', separator());
        lemma_join_without(parts, '-', '\\');
        if target.len() > 0 {
            lemma_components_of_name(target);
            if parts.len() >= 2 {
                lemma_join_holds_separator(parts, '-');
            }
        }
    } else {
        lemma_components_of_join(rest);
    }
}

/// Whatever the driver reports, a download that holds only targets below the
/// destination goes on to hold and to name only such targets.
pub proof fn lemma_download_stays_enclosed(
    state: DownloadState,
    event: DownloadEvent,
    options: DownloadOptions,
    next: DownloadState,
    action: DownloadAction,
)
    requires
        state_is_enclosed(state),
        download_step(state, event, options, next, action),
    ensures
        state_is_enclosed(next),
        action_is_enclosed(action),
{
    match (state, event) {
        (DownloadState::Reading, DownloadEvent::Entry { entry }) => {
            match entry_plan(entry, options) {
                Ok(Some(target)) => {
                    lemma_target_is_enclosed(texts(entry.path->Some_0@), options);
                },
                _ => {},
            }
        },
        _ => {},
    }
}

/// Where the target of an entry is a directory that exists, the entry is
/// passed over and the download goes on with the next entry.
pub proof fn lemma_existing_directory_is_passed_over(
    target: String,
    options: DownloadOptions,
    next: DownloadState,
    action: DownloadAction,
)
    requires
        download_step(
            DownloadState::Probing { target },
            DownloadEvent::Probed { is_directory: true },
            options,
            next,
            action,
        ),
    ensures
        next is Reading,
        action is Next,
{
}

/// Whether `name` is a plain component.
fn is_plain_name(name: &Vec<char>) -> (b: bool)
    ensures
        b == is_plain_component(name@),
{
    if name.len() == 0 {
        return false;
    }
    if name.len() == 1 && name[0] == '.' {
        assert(name@ =~= seq!['.']);
        return false;
    }
    if name.len() == 2 && name[0] == '.' && name[1] == '.' {
        assert(name@ =~= seq!['.', '.']);
        return false;
    }
    let mut i: usize = 0;
    while i < name.len()
        invariant
            i <= name.len(),
            forall|k: int| 0 <= k < i ==> name@[k] != separator() && name@[k] != '\\',
        decreases name.len() - i,
    {
        if name[i] == '/' || name[i] == '\\' {
            return false;
        }
        i += 1;
    }
    true
}

/// Decides what becomes of one entry of the archive.
#[verifier::loop_isolation(false)]
pub fn plan_entry(entry: &ArchiveEntry, options: &DownloadOptions) -> (r: Result<
    Option<String>,
    Error,
>)
    ensures
        match r {
            Ok(None) => entry_plan(*entry, *options) == Ok::<Option<Seq<char>>, ErrorKind>(None),
            Ok(Some(target)) => entry_plan(*entry, *options) == Ok::<Option<Seq<char>>, ErrorKind>(
                Some(target@),
            ),
            Err(e) => entry_plan(*entry, *options) == Err::<Option<Seq<char>>, ErrorKind>(e.kind),
        },
{
    if !entry.is_file {
        return Ok(None);
    }
    let path = match &entry.path {
        Some(path) => path,
        None => {
            return Err(Error::new(ErrorKind::PathStructure, "malformed path in archive"));
        },
    };
    let ghost names = texts(path@);
    let mut parts: Vec<Vec<char>> = Vec::new();
    let mut i: usize = 0;
    while i < path.len()
        invariant
            i <= path.len(),
            names == texts(path@),
            views(parts@) == names.take(i as int),
            forall|k: int| 0 <= k < i ==> is_plain_component(#[trigger] names[k]),
        decreases path.len() - i,
    {
        let part = chars_of(path[i].as_str());
        if !is_plain_name(&part) {
            assert(!is_plain_component(names[i as int]));
            return Err(Error::new(ErrorKind::PathStructure, "malformed path in archive"));
        }
        parts.push(part);
        i += 1;
    }
    assert(views(parts@).skip(0) =~= names);
    let whole = string_of(&join_from(&parts, 0, '/'));
    proof {
        lemma_components_of_join(names);
    }
    let rest = match drop_components(whole.as_str(), options.strip_components) {
        Ok(rest) => rest,
        Err(e) => {
            return Err(e.with_context("could not drop the leading path components"));
        },
    };
    proof {
        lemma_components_of_join(names.skip(options.strip_components as int));
    }
    if options.flatten {
        match flatten_path(rest.as_str()) {
            Ok(name) => Ok(Some(name)),
            Err(e) => Err(e.with_context("could not flatten the path")),
        }
    } else {
        Ok(Some(rest))
    }
}

/// Takes a download one step further: given where it stands and what the
/// driver learned, says where it stands now and what the driver is to do.
///
/// Entries that are not plain files are passed over. Every other entry loses
/// its leading components, is flattened if asked for, and is written unless
/// its target is a directory that exists. An entry without a path that stays
/// inside the archive, or with too few components, ends the download with an
/// error, and so do a failure that the driver reports and a report that does
/// not answer what was asked.
pub fn download_submissions(
    state: DownloadState,
    event: DownloadEvent,
    options: &DownloadOptions,
) -> (r: (DownloadState, DownloadAction))
    ensures
        download_step(state, event, *options, r.0, r.1),
{
    match (state, event) {
        (_, DownloadEvent::Failed { what }) => (
            DownloadState::Finished,
            DownloadAction::Abort { error: Error::new(ErrorKind::Io, what.as_str()) },
        ),
        (DownloadState::Start, DownloadEvent::Begin) => (
            DownloadState::Fetching,
            DownloadAction::Fetch { temporary: options.extract },
        ),
        (DownloadState::Fetching, DownloadEvent::Fetched) => if options.extract {
            (DownloadState::Reading, DownloadAction::Next)
        } else {
            (DownloadState::Finished, DownloadAction::Finish)
        },
        (DownloadState::Reading, DownloadEvent::Entry { entry }) => match plan_entry(&entry, options) {
            Ok(None) => (DownloadState::Reading, DownloadAction::Next),
            Ok(Some(target)) => (
                DownloadState::Probing { target: target.clone() },
                DownloadAction::Probe { target },
            ),
            Err(error) => (DownloadState::Finished, DownloadAction::Abort { error }),
        },
        (DownloadState::Reading, DownloadEvent::Exhausted) => (
            DownloadState::Finished,
            DownloadAction::Finish,
        ),
        (DownloadState::Probing { target }, DownloadEvent::Probed { is_directory }) => if is_directory {
            (DownloadState::Reading, DownloadAction::Next)
        } else {
            (DownloadState::Reading, DownloadAction::Write { target })
        },
        _ => (
            DownloadState::Finished,
            DownloadAction::Abort {
                error: Error::new(ErrorKind::Protocol, "the driver reported what was not asked for"),
            },
        ),
    }
}

} // verus!
