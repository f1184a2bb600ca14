//! What the grading backend lists and what a feedback directory holds.

use vstd::prelude::*;
use crate::path::{is_component, is_name};

verus! {

/// One student's graded work, as the backend lists it.
#[derive(Debug)]
pub struct Submission {
    /// The token by which the backend knows the submission.
    pub identifier: String,
    /// The points given so far.
    pub points: Option<String>,
}

/// A `Submission` as plain values.
pub struct SubmissionView {
    pub identifier: Seq<char>,
    pub points: Option<Seq<char>>,
}

impl View for Submission {
    type V = SubmissionView;

    open spec fn view(&self) -> SubmissionView {
        SubmissionView {
            identifier: self.identifier@,
            points: match self.points {
                Some(points) => Some(points@),
                None => None,
            },
        }
    }
}

/// The views of `submissions`, in order.
pub open spec fn submission_views(submissions: Seq<Submission>) -> Seq<SubmissionView> {
    submissions.map_values(|s: Submission| s@)
}

/// The identifiers of `submissions`, in order.
pub open spec fn identifiers(submissions: Seq<Submission>) -> Seq<Seq<char>> {
    submissions.map_values(|s: Submission| s.identifier@)
}

/// What kind of thing a directory entry is.
#[derive(Clone, Copy, Debug, PartialEq, Eq, Structural)]
pub enum EntryKind {
    File,
    Directory,
    /// Neither a plain file nor a directory.
    Other,
}

/// An entry of a directory that itself lies in the feedback directory.
#[derive(Debug)]
pub struct DirectoryItem {
    pub name: String,
    pub kind: EntryKind,
}

/// A `DirectoryItem` as plain values.
pub struct ItemView {
    pub name: Seq<char>,
    pub kind: EntryKind,
}

impl View for DirectoryItem {
    type V = ItemView;

    open spec fn view(&self) -> ItemView {
        ItemView { name: self.name@, kind: self.kind }
    }
}

/// An entry of the feedback directory. A directory comes with what it holds.
#[derive(Debug)]
pub struct LocalEntry {
    name: String,
    kind: EntryKind,
    items: Vec<DirectoryItem>,
}

/// A `LocalEntry` as plain values.
pub struct EntryView {
    pub name: Seq<char>,
    pub kind: EntryKind,
    pub items: Seq<ItemView>,
}

/// Whether every name in `entry` is a file name.
pub open spec fn entry_is_named(entry: EntryView) -> bool {
    &&& is_component(entry.name)
    &&& forall|k: int| 0 <= k < entry.items.len() ==> is_component(#[trigger] entry.items[k].name)
}

impl View for LocalEntry {
    type V = EntryView;

    closed spec fn view(&self) -> EntryView {
        EntryView {
            name: self.name@,
            kind: self.kind,
            items: self.items@.map_values(|item: DirectoryItem| item@),
        }
    }
}

impl LocalEntry {
    #[verifier::type_invariant]
    spec fn well_formed(&self) -> bool {
        &&& entry_is_named(self@)
        &&& self.kind != EntryKind::Directory ==> self.items@.len() == 0
    }

    /// An entry called `name` that is not a directory. The name must be a
    /// file name: not empty and without a separator.
    pub fn file(name: &str) -> (r: Option<LocalEntry>)
        ensures
            r is Some <==> is_component(name@),
            r matches Some(entry) ==> entry@ == (EntryView {
                name: name@,
                kind: EntryKind::File,
                items: Seq::empty(),
            }),
    {
        if is_name(name) {
            let entry = LocalEntry { name: name.to_owned(), kind: EntryKind::File, items: Vec::new() };
            assert(entry@.items =~= Seq::empty());
            Some(entry)
        } else {
            None
        }
    }

    /// A directory called `name` that holds `items`. The name, and the name
    /// of every item, must be a file name: not empty and without a separator.
    pub fn directory(name: &str, items: Vec<DirectoryItem>) -> (r: Option<LocalEntry>)
        ensures
            r is Some <==> entry_is_named(
                EntryView {
                    name: name@,
                    kind: EntryKind::Directory,
                    items: items@.map_values(|item: DirectoryItem| item@),
                },
            ),
            r matches Some(entry) ==> entry@ == (EntryView {
                name: name@,
                kind: EntryKind::Directory,
                items: items@.map_values(|item: DirectoryItem| item@),
            }),
    {
        if !is_name(name) {
            return None;
        }
        let ghost held = items@.map_values(|item: DirectoryItem| item@);
        let mut k: usize = 0;
        while k < items.len()
            invariant
                k <= items.len(),
                held == items@.map_values(|item: DirectoryItem| item@),
                forall|j: int| 0 <= j < k ==> is_component(#[trigger] held[j].name),
            decreases items.len() - k,
        {
            if !is_name(items[k].name.as_str()) {
                assert(!is_component(held[k as int].name));
                return None;
            }
            k += 1;
        }
        Some(LocalEntry { name: name.to_owned(), kind: EntryKind::Directory, items })
    }

    /// The entry's name. Every name in an entry is a file name.
    pub fn name(&self) -> (name: &str)
        ensures
            name@ == self@.name,
            entry_is_named(self@),
    {
        proof {
            use_type_invariant(self);
        }
        self.name.as_str()
    }

    pub fn kind(&self) -> (kind: EntryKind)
        ensures
            kind == self@.kind,
    {
        self.kind
    }

    /// What the entry holds; nothing unless it is a directory.
    pub fn items(&self) -> (items: &Vec<DirectoryItem>)
        ensures
            items@.map_values(|item: DirectoryItem| item@) == self@.items,
            self@.kind != EntryKind::Directory ==> items@.len() == 0,
    {
        proof {
            use_type_invariant(self);
        }
        &self.items
    }
}

} // verus!
