//! The error value shared by every operation of the library.

use vstd::prelude::*;
use crate::text::texts;

verus! {

/// What went wrong.
#[derive(Clone, Copy, Debug, PartialEq, Eq, Structural)]
pub enum ErrorKind {
    /// A path has fewer components than must be dropped, or is not a plain
    /// relative path.
    PathStructure,
    /// A file name has no stem to which a suffix could be added.
    NameStructure,
    /// A flat feedback file does not carry the encoded name of its target.
    NameExtraction,
    /// A feedback directory holds something other than plain files.
    UnsupportedStructure,
    /// Reading or writing the local file system failed.
    Io,
    /// The backend did not accept an upload.
    Upload,
    /// A regular expression did not compile.
    Pattern,
    /// A submission was chosen that is not on the list.
    Selection,
    /// A driver reported something that the running operation did not ask for.
    Protocol,
}

/// An error: its kind, and the messages that describe it, innermost first.
#[derive(Debug)]
pub struct Error {
    pub kind: ErrorKind,
    pub context: Vec<String>,
}

/// The text that describes an error: its messages, outermost first, with
/// `": "` between two of them.
pub open spec fn described(context: Seq<Seq<char>>) -> Seq<char>
    decreases context.len(),
{
    if context.len() == 0 {
        Seq::empty()
    } else if context.len() == 1 {
        context[0]
    } else {
        context.last() + seq![':', ' '] + described(context.drop_last())
    }
}

impl Error {
    /// An error of the given kind with one message.
    pub fn new(kind: ErrorKind, message: &str) -> (e: Error)
        ensures
            e.kind == kind,
            texts(e.context@) == seq![message@],
    {
        let mut context: Vec<String> = Vec::new();
        context.push(message.to_owned());
        Error { kind, context }
    }

    /// The same error with one more message around it.
    pub fn with_context(self, message: &str) -> (e: Error)
        ensures
            e.kind == self.kind,
            texts(e.context@) == texts(self.context@).push(message@),
    {
        let mut context = self.context;
        context.push(message.to_owned());
        Error { kind: self.kind, context }
    }

    /// The text that describes this error.
    pub fn describe(&self) -> (text: String)
        ensures
            text@ == described(texts(self.context@)),
    {
        let mut text = String::new();
        let mut i: usize = 0;
        while i < self.context.len()
            invariant
                i <= self.context.len(),
                text@ == described(texts(self.context@).take(i as int)),
            decreases self.context.len() - i,
        {
            assert(texts(self.context@).take(i + 1).drop_last() =~= texts(self.context@).take(
                i as int,
            ));
            if i == 0 {
                text = self.context[i].clone();
            } else {
                let mut longer = self.context[i].clone();
                longer.push(':');
                longer.push(' ');
                longer.append(text.as_str());
                text = longer;
            }
            i += 1;
        }
        assert(texts(self.context@).take(i as int) =~= texts(self.context@));
        text
    }
}

} // verus!
