//! Pairs the entries of a feedback directory with submissions.
//!
//! An entry belongs to a submission when its name begins with the
//! submission's identifier, as it stands or with underscores for its spaces.
//! An entry goes to the first submission on the list to which it belongs. A
//! directory stands for the files in it; a single file carries the name of
//! its target inside its own name.

use vstd::prelude::*;
use crate::entry::{
    entry_is_named, identifiers, DirectoryItem, EntryKind, EntryView, LocalEntry, Submission,
};
use crate::error::{Error, ErrorKind};
use crate::path::{is_component, is_name, underscore, underscored};
use crate::pattern::{pattern_capture, pattern_compiles, Pattern};
use crate::text::{chars_of, starts_with, texts};

verus! {

/// A local file together with the submission it goes to and the name it gets
/// there.
#[derive(Debug)]
pub struct MatchedUpload {
    /// Where the file lies, as components below the feedback directory.
    pub local_path: Vec<String>,
    /// The name of the file at the backend.
    pub target_filename: String,
    /// The position of the submission on the list of submissions.
    pub submission: usize,
}

/// A `MatchedUpload` as plain values.
pub struct UploadView {
    pub local_path: Seq<Seq<char>>,
    pub target_filename: Seq<char>,
    pub submission: int,
}

impl View for MatchedUpload {
    type V = UploadView;

    open spec fn view(&self) -> UploadView {
        UploadView {
            local_path: texts(self.local_path@),
            target_filename: self.target_filename@,
            submission: self.submission as int,
        }
    }
}

/// The views of `uploads`, in order.
pub open spec fn upload_views(uploads: Seq<MatchedUpload>) -> Seq<UploadView> {
    uploads.map_values(|u: MatchedUpload| u@)
}

/// The views of `entries`, in order.
pub open spec fn entry_views(entries: Seq<LocalEntry>) -> Seq<EntryView> {
    entries.map_values(|e: LocalEntry| e@)
}

/// What matching found.
#[derive(Debug)]
pub struct MatchReport {
    /// The uploads to make.
    pub uploads: Vec<MatchedUpload>,
    /// The names of the entries that belong to no submission.
    pub unmatched: Vec<String>,
    /// The names of the entries that belong to more than one submission.
    /// Each of them went to the first.
    pub ambiguous: Vec<String>,
}

/// The regular expression that takes the name of the target out of the name
/// of a flat feedback file: the name holds the student's address, an
/// underscore, a number, a hyphen and then the name of the target.
pub const FLATTENED_NAME_PATTERN: &'static str = "@student\\.kit\\.edu_\\d+-(?<filename>.*)";

/// The capture group of the pattern that holds the name of the target.
pub const TARGET_GROUP: &'static str = "filename";

/// The text of `FLATTENED_NAME_PATTERN`.
pub open spec fn flattened_name_pattern() -> Seq<char> {
    FLATTENED_NAME_PATTERN@
}

/// The text of `TARGET_GROUP`.
pub open spec fn target_group() -> Seq<char> {
    TARGET_GROUP@
}

/// Whether an entry called `name` belongs to the submission `identifier`.
pub open spec fn belongs_to(name: Seq<char>, identifier: Seq<char>) -> bool {
    identifier.is_prefix_of(name) || underscored(identifier).is_prefix_of(name)
}

/// Whether an entry called `name` goes to the submission at position `s`:
/// it belongs to it and to none before it.
pub open spec fn routes_to(identifiers: Seq<Seq<char>>, name: Seq<char>, s: int) -> bool {
    &&& 0 <= s < identifiers.len()
    &&& belongs_to(name, identifiers[s])
    &&& forall|j: int| 0 <= j < s ==> !belongs_to(name, #[trigger] identifiers[j])
}

/// Whether an entry called `name` belongs to no submission.
pub open spec fn is_unmatched(identifiers: Seq<Seq<char>>, name: Seq<char>) -> bool {
    forall|j: int| 0 <= j < identifiers.len() ==> !belongs_to(name, #[trigger] identifiers[j])
}

/// Whether an entry called `name` belongs to more than one submission.
pub open spec fn is_ambiguous(identifiers: Seq<Seq<char>>, name: Seq<char>) -> bool {
    exists|i: int, j: int|
        0 <= i < j < identifiers.len() && belongs_to(name, #[trigger] identifiers[i]) && belongs_to(
            name,
            #[trigger] identifiers[j],
        )
}

/// The name of the target that `decoder` finds in the name of a flat file,
/// if it finds one that is a file name.
pub open spec fn decoded_name(decoder: Seq<char>, name: Seq<char>) -> Option<Seq<char>> {
    match pattern_capture(decoder, target_group(), name) {
        Some(decoded) => if is_component(decoded) {
            Some(decoded)
        } else {
            None
        },
        None => None,
    }
}

/// Whether everything in the directory `entry` is a plain file.
pub open spec fn holds_only_files(entry: EntryView) -> bool {
    forall|k: int| 0 <= k < entry.items.len() ==> (#[trigger] entry.items[k]).kind == EntryKind::File
}

/// The uploads that the directory `entry` stands for: one for each file in
/// it, under the file's own name.
pub open spec fn directory_uploads(entry: EntryView, s: int) -> Seq<UploadView> {
    Seq::new(
        entry.items.len(),
        |k: int|
            UploadView {
                local_path: seq![entry.name, entry.items[k].name],
                target_filename: entry.items[k].name,
                submission: s,
            },
    )
}

/// The uploads that `entry` stands for once it goes to the submission at
/// position `s`, or why it stands for none.
pub open spec fn entry_uploads(decoder: Seq<char>, entry: EntryView, s: int) -> Result<
    Seq<UploadView>,
    ErrorKind,
> {
    if entry.kind == EntryKind::Directory {
        if holds_only_files(entry) {
            Ok(directory_uploads(entry, s))
        } else {
            Err(ErrorKind::UnsupportedStructure)
        }
    } else {
        match decoded_name(decoder, entry.name) {
            Some(decoded) => Ok(
                seq![
                    UploadView { local_path: seq![entry.name], target_filename: decoded, submission: s },
                ],
            ),
            None => Err(ErrorKind::NameExtraction),
        }
    }
}

/// The uploads for the submission at position `s` that the first `count`
/// entries stand for, or the first reason why one of them stands for none.
pub open spec fn uploads_for(
    decoder: Seq<char>,
    identifiers: Seq<Seq<char>>,
    entries: Seq<EntryView>,
    s: int,
    count: int,
) -> Result<Seq<UploadView>, ErrorKind>
    decreases count,
{
    if count <= 0 {
        Ok(Seq::empty())
    } else {
        match uploads_for(decoder, identifiers, entries, s, count - 1) {
            Err(kind) => Err(kind),
            Ok(before) => if routes_to(identifiers, entries[count - 1].name, s) {
                match entry_uploads(decoder, entries[count - 1], s) {
                    Err(kind) => Err(kind),
                    Ok(more) => Ok(before + more),
                }
            } else {
                Ok(before)
            },
        }
    }
}

/// The uploads for the first `count` submissions, submission by submission,
/// or the first reason why an entry stands for none.
pub open spec fn uploads_until(
    decoder: Seq<char>,
    identifiers: Seq<Seq<char>>,
    entries: Seq<EntryView>,
    count: int,
) -> Result<Seq<UploadView>, ErrorKind>
    decreases count,
{
    if count <= 0 {
        Ok(Seq::empty())
    } else {
        match uploads_until(decoder, identifiers, entries, count - 1) {
            Err(kind) => Err(kind),
            Ok(before) => match uploads_for(
                decoder,
                identifiers,
                entries,
                count - 1,
                entries.len() as int,
            ) {
                Err(kind) => Err(kind),
                Ok(more) => Ok(before + more),
            },
        }
    }
}

/// All uploads that `entries` stand for: submission by submission in the
/// order of the list, and for each submission entry by entry.
pub open spec fn matched_uploads(
    decoder: Seq<char>,
    identifiers: Seq<Seq<char>>,
    entries: Seq<EntryView>,
) -> Result<Seq<UploadView>, ErrorKind> {
    uploads_until(decoder, identifiers, entries, identifiers.len() as int)
}

/// The names of those among the first `count` entries that belong to no
/// submission.
pub open spec fn unmatched_names(
    identifiers: Seq<Seq<char>>,
    entries: Seq<EntryView>,
    count: int,
) -> Seq<Seq<char>>
    decreases count,
{
    if count <= 0 {
        Seq::empty()
    } else {
        let before = unmatched_names(identifiers, entries, count - 1);
        if is_unmatched(identifiers, entries[count - 1].name) {
            before.push(entries[count - 1].name)
        } else {
            before
        }
    }
}

/// The names of those among the first `count` entries that belong to more
/// than one submission.
pub open spec fn ambiguous_names(
    identifiers: Seq<Seq<char>>,
    entries: Seq<EntryView>,
    count: int,
) -> Seq<Seq<char>>
    decreases count,
{
    if count <= 0 {
        Seq::empty()
    } else {
        let before = ambiguous_names(identifiers, entries, count - 1);
        if is_ambiguous(identifiers, entries[count - 1].name) {
            before.push(entries[count - 1].name)
        } else {
            before
        }
    }
}

/// Whether an entry with the name `text` belongs to the submission
/// `identifier`.
fn belongs(text: &Vec<char>, identifier: &str) -> (b: bool)
    ensures
        b == belongs_to(text@, identifier@),
{
    let plain = chars_of(identifier);
    if starts_with(text, &plain) {
        return true;
    }
    let spaceless = underscore(&plain);
    starts_with(text, &spaceless)
}

/// Whether an entry called `name` belongs to more than one submission.
pub fn is_claimed_twice(submissions: &Vec<Submission>, name: &str) -> (b: bool)
    ensures
        b == is_ambiguous(identifiers(submissions@), name@),
{
    let ghost ids = identifiers(submissions@);
    let text = chars_of(name);
    let mut first: Option<usize> = None;
    let mut s: usize = 0;
    while s < submissions.len()
        invariant
            s <= submissions.len(),
            text@ == name@,
            ids == identifiers(submissions@),
            match first {
                Some(i) => i < s && belongs_to(name@, ids[i as int]) && forall|j: int|
                    0 <= j < s && j != i ==> !belongs_to(name@, #[trigger] ids[j]),
                None => forall|j: int| 0 <= j < s ==> !belongs_to(name@, #[trigger] ids[j]),
            },
        decreases submissions.len() - s,
    {
        if belongs(&text, submissions[s].identifier.as_str()) {
            match first {
                Some(i) => {
                    assert(belongs_to(name@, ids[i as int]) && belongs_to(name@, ids[s as int]));
                    return true;
                },
                None => {
                    first = Some(s);
                },
            }
        }
        s += 1;
    }
    false
}

/// The position of the first submission to which an entry called `name`
/// belongs.
pub fn find_submission(submissions: &Vec<Submission>, name: &str) -> (r: Option<usize>)
    ensures
        match r {
            Some(s) => routes_to(identifiers(submissions@), name@, s as int),
            None => is_unmatched(identifiers(submissions@), name@),
        },
{
    let text = chars_of(name);
    let mut s: usize = 0;
    while s < submissions.len()
        invariant
            s <= submissions.len(),
            text@ == name@,
            forall|j: int| 0 <= j < s ==> !belongs_to(name@, #[trigger] identifiers(submissions@)[j]),
        decreases submissions.len() - s,
    {
        if belongs(&text, submissions[s].identifier.as_str()) {
            return Some(s);
        }
        s += 1;
    }
    None
}

/// Pairs entries with submissions.
#[derive(Debug)]
pub struct FeedbackMatcher {
    decoder: Pattern,
}

impl FeedbackMatcher {
    /// The text of the pattern that decodes the names of flat files.
    pub closed spec fn decoder(&self) -> Seq<char> {
        self.decoder@
    }

    /// A matcher that decodes the names of flat files by the usual pattern.
    /// Whether the pattern compiles is for the regular expression engine to
    /// say.
    pub fn new() -> (r: Result<FeedbackMatcher, Error>)
        ensures
            match r {
                Ok(matcher) => pattern_compiles(flattened_name_pattern()) && matcher.decoder()
                    == flattened_name_pattern(),
                Err(e) => !pattern_compiles(flattened_name_pattern()) && e.kind == ErrorKind::Pattern,
            },
    {
        match Pattern::new(FLATTENED_NAME_PATTERN) {
            Ok(decoder) => Ok(FeedbackMatcher { decoder }),
            Err(e) => Err(e),
        }
    }

    /// A matcher that decodes the names of flat files by `decoder`, which
    /// names the target in its group `filename`.
    pub fn with_decoder(decoder: Pattern) -> (matcher: FeedbackMatcher)
        ensures
            matcher.decoder() == decoder@,
    {
        FeedbackMatcher { decoder }
    }

    /// The name of the target that the name of a flat file carries.
    pub fn decode(&self, name: &str) -> (r: Option<String>)
        ensures
            match r {
                Some(decoded) => decoded_name(self.decoder(), name@) == Some(decoded@),
                None => decoded_name(self.decoder(), name@) is None,
            },
    {
        match self.decoder.capture(TARGET_GROUP, name) {
            Some(decoded) => if is_name(decoded.as_str()) {
                Some(decoded)
            } else {
                None
            },
            None => None,
        }
    }

    /// Adds to `uploads` what `entry` stands for once it goes to the
    /// submission at position `s`.
    fn add_entry(&self, entry: &LocalEntry, s: usize, uploads: &mut Vec<MatchedUpload>) -> (r: Result<
        (),
        Error,
    >)
        ensures
            match r {
                Ok(()) => entry_uploads(self.decoder(), entry@, s as int) is Ok && upload_views(
                    final(uploads)@,
                ) == upload_views(old(uploads)@) + entry_uploads(
                    self.decoder(),
                    entry@,
                    s as int,
                )->Ok_0,
                Err(e) => entry_uploads(self.decoder(), entry@, s as int) == Err::<
                    Seq<UploadView>,
                    ErrorKind,
                >(e.kind),
            },
    {
        let name = entry.name();
        match entry.kind() {
            EntryKind::Directory => {
                let items = entry.items();
                let mut k: usize = 0;
                while k < items.len()
                    invariant
                        k <= items.len(),
                        entry@.kind == EntryKind::Directory,
                        items@.map_values(|item: DirectoryItem| item@) == entry@.items,
                        forall|j: int|
                            0 <= j < k ==> (#[trigger] entry@.items[j]).kind == EntryKind::File,
                    decreases items.len() - k,
                {
                    match items[k].kind {
                        EntryKind::File => {},
                        _ => {
                            assert(entry@.items[k as int].kind != EntryKind::File);
                            return Err(
                                Error::new(
                                    ErrorKind::UnsupportedStructure,
                                    "feedback directory holds something that is not a file",
                                ),
                            );
                        },
                    }
                    k += 1;
                }
                let ghost start = upload_views(uploads@);
                let ghost more = directory_uploads(entry@, s as int);
                let mut k: usize = 0;
                while k < items.len()
                    invariant
                        k <= items.len(),
                        name@ == entry@.name,
                        more == directory_uploads(entry@, s as int),
                        items@.map_values(|item: DirectoryItem| item@) == entry@.items,
                        upload_views(uploads@) == start + more.take(k as int),
                    decreases items.len() - k,
                {
                    let mut local_path: Vec<String> = Vec::new();
                    local_path.push(name.to_owned());
                    local_path.push(items[k].name.clone());
                    let upload = MatchedUpload {
                        local_path,
                        target_filename: items[k].name.clone(),
                        submission: s,
                    };
                    assert(upload@.local_path =~= seq![entry@.name, entry@.items[k as int].name]);
                    let ghost before = upload_views(uploads@);
                    uploads.push(upload);
                    assert(upload_views(uploads@) =~= before.push(more[k as int]));
                    k += 1;
                }
                Ok(())
            },
            _ => {
                match self.decode(name) {
                    Some(decoded) => {
                        let mut local_path: Vec<String> = Vec::new();
                        local_path.push(name.to_owned());
                        let upload = MatchedUpload {
                            local_path,
                            target_filename: decoded,
                            submission: s,
                        };
                        assert(upload@.local_path =~= seq![entry@.name]);
                        uploads.push(upload);
                        Ok(())
                    },
                    None => Err(
                        Error::new(
                            ErrorKind::NameExtraction,
                            "file name does not carry the name of its target",
                        ),
                    ),
                }
            },
        }
    }

    /// Pairs `entries` with `submissions`. Each entry goes to the first
    /// submission to which it belongs; the result lists the uploads
    /// submission by submission, and the names of the entries that belong to
    /// none. A directory that holds something other than files, and a flat
    /// file whose name does not carry the name of its target, are errors if
    /// the entry belongs to a submission.
    pub fn match_entries(&self, submissions: &Vec<Submission>, entries: &Vec<LocalEntry>) -> (r: Result<
        MatchReport,
        Error,
    >)
        ensures
            match r {
                Ok(report) => {
                    &&& matched_uploads(
                        self.decoder(),
                        identifiers(submissions@),
                        entry_views(entries@),
                    ) == Ok::<Seq<UploadView>, ErrorKind>(upload_views(report.uploads@))
                    &&& texts(report.unmatched@) == unmatched_names(
                        identifiers(submissions@),
                        entry_views(entries@),
                        entries@.len() as int,
                    )
                    &&& texts(report.ambiguous@) == ambiguous_names(
                        identifiers(submissions@),
                        entry_views(entries@),
                        entries@.len() as int,
                    )
                    &&& forall|i: int|
                        0 <= i < report.uploads@.len() ==> upload_is_sound(
                            #[trigger] upload_views(report.uploads@)[i],
                            self.decoder(),
                            identifiers(submissions@),
                            entry_views(entries@),
                        )
                },
                Err(e) => matched_uploads(
                    self.decoder(),
                    identifiers(submissions@),
                    entry_views(entries@),
                ) == Err::<Seq<UploadView>, ErrorKind>(e.kind),
            },
    {
        let ghost ids = identifiers(submissions@);
        let ghost views = entry_views(entries@);
        let mut routes: Vec<Option<usize>> = Vec::new();
        let mut unmatched: Vec<String> = Vec::new();
        let mut ambiguous: Vec<String> = Vec::new();
        let mut e: usize = 0;
        while e < entries.len()
            invariant
                e <= entries.len(),
                ids == identifiers(submissions@),
                views == entry_views(entries@),
                routes@.len() == e,
                forall|i: int|
                    0 <= i < e ==> match #[trigger] routes@[i] {
                        Some(s) => routes_to(ids, views[i].name, s as int),
                        None => is_unmatched(ids, views[i].name),
                    },
                forall|i: int| 0 <= i < e ==> entry_is_named(#[trigger] views[i]),
                texts(unmatched@) == unmatched_names(ids, views, e as int),
                texts(ambiguous@) == ambiguous_names(ids, views, e as int),
            decreases entries.len() - e,
        {
            let name = entries[e].name();
            let route = find_submission(submissions, name);
            if route.is_none() {
                unmatched.push(name.to_owned());
            }
            if is_claimed_twice(submissions, name) {
                ambiguous.push(name.to_owned());
            }
            routes.push(route);
            e += 1;
        }
        let mut uploads: Vec<MatchedUpload> = Vec::new();
        assert(upload_views(uploads@) =~= Seq::empty());
        let mut s: usize = 0;
        while s < submissions.len()
            invariant
                s <= submissions.len(),
                ids == identifiers(submissions@),
                views == entry_views(entries@),
                forall|i: int| 0 <= i < views.len() ==> entry_is_named(#[trigger] views[i]),
                routes@.len() == entries@.len(),
                forall|i: int|
                    0 <= i < entries@.len() ==> match #[trigger] routes@[i] {
                        Some(s) => routes_to(ids, views[i].name, s as int),
                        None => is_unmatched(ids, views[i].name),
                    },
                uploads_until(self.decoder(), ids, views, s as int) == Ok::<Seq<UploadView>, ErrorKind>(
                    upload_views(uploads@),
                ),
            decreases submissions.len() - s,
        {
            let ghost start = upload_views(uploads@);
            let mut e: usize = 0;
            while e < entries.len()
                invariant
                    e <= entries.len(),
                    s < submissions.len(),
                    ids == identifiers(submissions@),
                    views == entry_views(entries@),
                    routes@.len() == entries@.len(),
                    forall|i: int|
                        0 <= i < entries@.len() ==> match #[trigger] routes@[i] {
                            Some(s) => routes_to(ids, views[i].name, s as int),
                            None => is_unmatched(ids, views[i].name),
                        },
                    uploads_until(self.decoder(), ids, views, s as int) == Ok::<
                        Seq<UploadView>,
                        ErrorKind,
                    >(start),
                    uploads_for(self.decoder(), ids, views, s as int, e as int) is Ok,
                    upload_views(uploads@) == start + uploads_for(
                        self.decoder(),
                        ids,
                        views,
                        s as int,
                        e as int,
                    )->Ok_0,
                decreases entries.len() - e,
            {
                let here = match routes[e] {
                    Some(to) => to == s,
                    None => false,
                };
                if here {
                    match self.add_entry(&entries[e], s, &mut uploads) {
                        Ok(()) => {},
                        Err(error) => {
                            proof {
                                lemma_uploads_for_fails(
                                    self.decoder(),
                                    ids,
                                    views,
                                    s as int,
                                    e + 1,
                                    entries@.len() as int,
                                );
                                lemma_uploads_until_fails(
                                    self.decoder(),
                                    ids,
                                    views,
                                    s + 1,
                                    ids.len() as int,
                                );
                            }
                            return Err(error);
                        },
                    }
                }
                e += 1;
            }
            s += 1;
        }
        proof {
            lemma_matched_uploads_are_sound(self.decoder(), ids, views);
            assert(matched_uploads(self.decoder(), ids, views)->Ok_0 == upload_views(uploads@));
        }
        Ok(MatchReport { uploads, unmatched, ambiguous })
    }
}

/// Whether `upload` is what `entry` stands for, or one of the uploads that
/// it stands for: the entry goes to the upload's submission, the target has a
/// file name, and the local path is the entry itself or a file right in it.
pub open spec fn upload_comes_from(
    upload: UploadView,
    decoder: Seq<char>,
    identifiers: Seq<Seq<char>>,
    entry: EntryView,
) -> bool {
    &&& routes_to(identifiers, entry.name, upload.submission)
    &&& is_component(upload.target_filename)
    &&& forall|c: int| 0 <= c < upload.local_path.len() ==> is_component(#[trigger] upload.local_path[c])
    &&& if entry.kind == EntryKind::Directory {
        exists|k: int|
            0 <= k < entry.items.len() && (#[trigger] entry.items[k]).kind == EntryKind::File
                && upload.local_path == seq![entry.name, entry.items[k].name]
                && upload.target_filename == entry.items[k].name
    } else {
        upload.local_path == seq![entry.name] && decoded_name(decoder, entry.name) == Some(
            upload.target_filename,
        )
    }
}

/// Whether `upload` comes from one of `entries`.
pub open spec fn upload_is_sound(
    upload: UploadView,
    decoder: Seq<char>,
    identifiers: Seq<Seq<char>>,
    entries: Seq<EntryView>,
) -> bool {
    exists|e: int|
        0 <= e < entries.len() && upload_comes_from(upload, decoder, identifiers, #[trigger] entries[e])
}

proof fn lemma_entry_uploads_are_sound(
    decoder: Seq<char>,
    identifiers: Seq<Seq<char>>,
    entry: EntryView,
    s: int,
)
    requires
        entry_is_named(entry),
        routes_to(identifiers, entry.name, s),
        entry_uploads(decoder, entry, s) is Ok,
    ensures
        forall|i: int|
            0 <= i < entry_uploads(decoder, entry, s)->Ok_0.len() ==> upload_comes_from(
                #[trigger] entry_uploads(decoder, entry, s)->Ok_0[i],
                decoder,
                identifiers,
                entry,
            ),
{
}

proof fn lemma_uploads_for_are_sound(
    decoder: Seq<char>,
    identifiers: Seq<Seq<char>>,
    entries: Seq<EntryView>,
    s: int,
    count: int,
)
    requires
        0 <= count <= entries.len(),
        forall|e: int| 0 <= e < entries.len() ==> entry_is_named(#[trigger] entries[e]),
        uploads_for(decoder, identifiers, entries, s, count) is Ok,
    ensures
        forall|i: int|
            0 <= i < uploads_for(decoder, identifiers, entries, s, count)->Ok_0.len()
                ==> upload_is_sound(
                #[trigger] uploads_for(decoder, identifiers, entries, s, count)->Ok_0[i],
                decoder,
                identifiers,
                entries,
            ),
    decreases count,
{
    if count > 0 {
        lemma_uploads_for_are_sound(decoder, identifiers, entries, s, count - 1);
        let entry = entries[count - 1];
        if routes_to(identifiers, entry.name, s) {
            lemma_entry_uploads_are_sound(decoder, identifiers, entry, s);
            let before = uploads_for(decoder, identifiers, entries, s, count - 1)->Ok_0;
            let more = entry_uploads(decoder, entry, s)->Ok_0;
            assert forall|i: int| 0 <= i < (before + more).len() implies upload_is_sound(
                #[trigger] (before + more)[i],
                decoder,
                identifiers,
                entries,
            ) by {
                if i >= before.len() {
                    assert(upload_comes_from(
                        more[i - before.len()],
                        decoder,
                        identifiers,
                        entries[count - 1],
                    ));
                }
            }
        }
    }
}

proof fn lemma_uploads_until_are_sound(
    decoder: Seq<char>,
    identifiers: Seq<Seq<char>>,
    entries: Seq<EntryView>,
    count: int,
)
    requires
        0 <= count,
        forall|e: int| 0 <= e < entries.len() ==> entry_is_named(#[trigger] entries[e]),
        uploads_until(decoder, identifiers, entries, count) is Ok,
    ensures
        forall|i: int|
            0 <= i < uploads_until(decoder, identifiers, entries, count)->Ok_0.len()
                ==> upload_is_sound(
                #[trigger] uploads_until(decoder, identifiers, entries, count)->Ok_0[i],
                decoder,
                identifiers,
                entries,
            ),
    decreases count,
{
    if count > 0 {
        lemma_uploads_until_are_sound(decoder, identifiers, entries, count - 1);
        lemma_uploads_for_are_sound(decoder, identifiers, entries, count - 1, entries.len() as int);
    }
}

/// Every upload that matching finds comes from an entry that goes to the
/// upload's submission and to no submission before it: it lies at the entry
/// itself or one level below it, and its target has a file name.
pub proof fn lemma_matched_uploads_are_sound(
    decoder: Seq<char>,
    identifiers: Seq<Seq<char>>,
    entries: Seq<EntryView>,
)
    requires
        forall|e: int| 0 <= e < entries.len() ==> entry_is_named(#[trigger] entries[e]),
        matched_uploads(decoder, identifiers, entries) is Ok,
    ensures
        forall|i: int|
            0 <= i < matched_uploads(decoder, identifiers, entries)->Ok_0.len() ==> upload_is_sound(
                #[trigger] matched_uploads(decoder, identifiers, entries)->Ok_0[i],
                decoder,
                identifiers,
                entries,
            ),
{
    lemma_uploads_until_are_sound(decoder, identifiers, entries, identifiers.len() as int);
}

proof fn lemma_uploads_for_grow(
    decoder: Seq<char>,
    identifiers: Seq<Seq<char>>,
    entries: Seq<EntryView>,
    s: int,
    count: int,
    more: int,
)
    requires
        0 <= count <= more,
        uploads_for(decoder, identifiers, entries, s, more) is Ok,
    ensures
        uploads_for(decoder, identifiers, entries, s, count) is Ok,
        uploads_for(decoder, identifiers, entries, s, count)->Ok_0.is_prefix_of(
            uploads_for(decoder, identifiers, entries, s, more)->Ok_0,
        ),
    decreases more - count,
{
    if count < more {
        lemma_uploads_for_grow(decoder, identifiers, entries, s, count, more - 1);
    }
}

proof fn lemma_uploads_until_grow(
    decoder: Seq<char>,
    identifiers: Seq<Seq<char>>,
    entries: Seq<EntryView>,
    count: int,
    more: int,
)
    requires
        0 <= count <= more,
        uploads_until(decoder, identifiers, entries, more) is Ok,
    ensures
        uploads_until(decoder, identifiers, entries, count) is Ok,
        uploads_until(decoder, identifiers, entries, count)->Ok_0.is_prefix_of(
            uploads_until(decoder, identifiers, entries, more)->Ok_0,
        ),
    decreases more - count,
{
    if count < more {
        lemma_uploads_until_grow(decoder, identifiers, entries, count, more - 1);
    }
}

/// Where matching succeeds, nothing is left out: every upload that an entry
/// stands for is among the uploads found, if the entry goes to a submission.
pub proof fn lemma_matched_uploads_are_complete(
    decoder: Seq<char>,
    identifiers: Seq<Seq<char>>,
    entries: Seq<EntryView>,
    e: int,
    s: int,
)
    requires
        matched_uploads(decoder, identifiers, entries) is Ok,
        0 <= e < entries.len(),
        routes_to(identifiers, entries[e].name, s),
    ensures
        entry_uploads(decoder, entries[e], s) is Ok,
        forall|k: int|
            0 <= k < entry_uploads(decoder, entries[e], s)->Ok_0.len() ==> matched_uploads(
                decoder,
                identifiers,
                entries,
            )->Ok_0.contains(#[trigger] entry_uploads(decoder, entries[e], s)->Ok_0[k]),
{
    let all = matched_uploads(decoder, identifiers, entries)->Ok_0;
    lemma_uploads_until_grow(decoder, identifiers, entries, s + 1, identifiers.len() as int);
    lemma_uploads_for_grow(decoder, identifiers, entries, s, e + 1, entries.len() as int);
    let until = uploads_until(decoder, identifiers, entries, s + 1)->Ok_0;
    let before = uploads_until(decoder, identifiers, entries, s)->Ok_0;
    let upto = uploads_for(decoder, identifiers, entries, s, e + 1)->Ok_0;
    let head = uploads_for(decoder, identifiers, entries, s, e)->Ok_0;
    let more = entry_uploads(decoder, entries[e], s)->Ok_0;
    assert forall|k: int| 0 <= k < more.len() implies all.contains(#[trigger] more[k]) by {
        assert(upto[head.len() + k] == more[k]);
        assert(until[before.len() + head.len() + k] == more[k]);
    }
}

/// An entry that goes to a submission and stands for no uploads makes the
/// whole matching fail.
pub proof fn lemma_unusable_entry_fails(
    decoder: Seq<char>,
    identifiers: Seq<Seq<char>>,
    entries: Seq<EntryView>,
    e: int,
    s: int,
)
    requires
        0 <= e < entries.len(),
        routes_to(identifiers, entries[e].name, s),
        entry_uploads(decoder, entries[e], s) is Err,
    ensures
        matched_uploads(decoder, identifiers, entries) is Err,
{
    lemma_uploads_for_fails(decoder, identifiers, entries, s, e + 1, entries.len() as int);
    lemma_uploads_until_fails(decoder, identifiers, entries, s + 1, identifiers.len() as int);
}

proof fn lemma_uploads_for_failure(
    decoder: Seq<char>,
    identifiers: Seq<Seq<char>>,
    entries: Seq<EntryView>,
    s: int,
    count: int,
) -> (e: int)
    requires
        0 <= count <= entries.len(),
        uploads_for(decoder, identifiers, entries, s, count) is Err,
    ensures
        0 <= e < count,
        routes_to(identifiers, entries[e].name, s),
        entry_uploads(decoder, entries[e], s) == Err::<Seq<UploadView>, ErrorKind>(
            uploads_for(decoder, identifiers, entries, s, count)->Err_0,
        ),
    decreases count,
{
    if uploads_for(decoder, identifiers, entries, s, count - 1) is Err {
        lemma_uploads_for_failure(decoder, identifiers, entries, s, count - 1)
    } else {
        count - 1
    }
}

proof fn lemma_uploads_until_failure(
    decoder: Seq<char>,
    identifiers: Seq<Seq<char>>,
    entries: Seq<EntryView>,
    count: int,
) -> (at: (int, int))
    requires
        0 <= count,
        uploads_until(decoder, identifiers, entries, count) is Err,
    ensures
        0 <= at.0 < entries.len(),
        routes_to(identifiers, entries[at.0].name, at.1),
        entry_uploads(decoder, entries[at.0], at.1) == Err::<Seq<UploadView>, ErrorKind>(
            uploads_until(decoder, identifiers, entries, count)->Err_0,
        ),
    decreases count,
{
    if uploads_until(decoder, identifiers, entries, count - 1) is Err {
        lemma_uploads_until_failure(decoder, identifiers, entries, count - 1)
    } else {
        let e = lemma_uploads_for_failure(
            decoder,
            identifiers,
            entries,
            count - 1,
            entries.len() as int,
        );
        (e, count - 1)
    }
}

/// Where matching fails, the failure is that of an entry that goes to a
/// submission: the result names such an entry and the submission.
pub proof fn lemma_failure_comes_from_entry(
    decoder: Seq<char>,
    identifiers: Seq<Seq<char>>,
    entries: Seq<EntryView>,
) -> (at: (int, int))
    requires
        matched_uploads(decoder, identifiers, entries) is Err,
    ensures
        0 <= at.0 < entries.len(),
        routes_to(identifiers, entries[at.0].name, at.1),
        entry_uploads(decoder, entries[at.0], at.1) == Err::<Seq<UploadView>, ErrorKind>(
            matched_uploads(decoder, identifiers, entries)->Err_0,
        ),
{
    lemma_uploads_until_failure(decoder, identifiers, entries, identifiers.len() as int)
}

/// A directory that goes to a submission and holds something other than
/// plain files makes matching fail, so that nothing is uploaded. The failure
/// is that of an unsupported structure, unless a flat file that goes to a
/// submission does not carry the name of its target.
pub proof fn lemma_nested_directory_fails(
    decoder: Seq<char>,
    identifiers: Seq<Seq<char>>,
    entries: Seq<EntryView>,
    e: int,
    s: int,
)
    requires
        0 <= e < entries.len(),
        routes_to(identifiers, entries[e].name, s),
        entries[e].kind == EntryKind::Directory,
        !holds_only_files(entries[e]),
    ensures
        matched_uploads(decoder, identifiers, entries) is Err,
        (forall|f: int, t: int|
            0 <= f < entries.len() && #[trigger] routes_to(identifiers, entries[f].name, t)
                && entries[f].kind != EntryKind::Directory ==> decoded_name(decoder, entries[f].name)
                is Some) ==> matched_uploads(decoder, identifiers, entries) == Err::<
            Seq<UploadView>,
            ErrorKind,
        >(ErrorKind::UnsupportedStructure),
{
    lemma_unusable_entry_fails(decoder, identifiers, entries, e, s);
    lemma_failure_comes_from_entry(decoder, identifiers, entries);
}

/// An entry goes to one submission at most.
pub proof fn lemma_route_is_unique(identifiers: Seq<Seq<char>>, name: Seq<char>, s: int, t: int)
    requires
        routes_to(identifiers, name, s),
        routes_to(identifiers, name, t),
    ensures
        s == t,
{
}

/// Once the uploads for a submission cannot be made from some entries, they
/// cannot be made from more entries either, for the same reason.
proof fn lemma_uploads_for_fails(
    decoder: Seq<char>,
    identifiers: Seq<Seq<char>>,
    entries: Seq<EntryView>,
    s: int,
    count: int,
    more: int,
)
    requires
        0 <= count <= more,
        uploads_for(decoder, identifiers, entries, s, count) is Err,
    ensures
        uploads_for(decoder, identifiers, entries, s, more) == uploads_for(
            decoder,
            identifiers,
            entries,
            s,
            count,
        ),
    decreases more - count,
{
    if count < more {
        lemma_uploads_for_fails(decoder, identifiers, entries, s, count, more - 1);
    }
}

/// Once the uploads cannot be made for some submissions, they cannot be made
/// for more submissions either, for the same reason.
proof fn lemma_uploads_until_fails(
    decoder: Seq<char>,
    identifiers: Seq<Seq<char>>,
    entries: Seq<EntryView>,
    count: int,
    more: int,
)
    requires
        0 <= count <= more,
        uploads_until(decoder, identifiers, entries, count) is Err,
    ensures
        uploads_until(decoder, identifiers, entries, more) == uploads_until(
            decoder,
            identifiers,
            entries,
            count,
        ),
    decreases more - count,
{
    if count < more {
        lemma_uploads_until_fails(decoder, identifiers, entries, count, more - 1);
    }
}

} // verus!
