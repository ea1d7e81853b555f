//! The search of a directory and everything below it for files of one name.
use crate::error::HostError;
use crate::text;
use vstd::prelude::*;
use vstd::string::*;

verus! {

broadcast use vstd::string::group_string_axioms;

/// What an entry of a directory is.
#[derive(Clone, Copy, Debug, PartialEq, Eq, Structural)]
pub enum EntryKind {
    Directory,
    File,
    Other,
}

/// A search for the files of one name. `P` is a path.
#[derive(Debug)]
pub struct DirWalk<P> {
    file_name: String,
    stack: Vec<P>,
    files: Vec<P>,
}

#[verifier::ext_equal]
pub struct WalkView<P> {
    pub file_name: Seq<char>,
    pub stack: Seq<P>,
    pub files: Seq<P>,
}

impl<P> View for DirWalk<P> {
    type V = WalkView<P>;

    closed spec fn view(&self) -> WalkView<P> {
        WalkView { file_name: self.file_name@, stack: self.stack@, files: self.files@ }
    }
}

impl<P> WalkView<P> {
    /// The search once an entry of a directory was looked at: directories are searched later, and
    /// files of the name are found.
    pub open spec fn seen(self, path: P, kind: EntryKind, name: Option<Seq<char>>) -> WalkView<P> {
        match kind {
            EntryKind::Directory => WalkView { stack: self.stack.push(path), ..self },
            EntryKind::File => if name == Some(self.file_name) {
                WalkView { files: self.files.push(path), ..self }
            } else {
                self
            },
            EntryKind::Other => self,
        }
    }
}

impl<P> DirWalk<P> {
    /// Starts at a directory. A directory that does not exist holds nothing.
    pub fn new(root: P, exists: bool, file_name: &str) -> (walk: Self)
        ensures
            walk@ == (WalkView {
                file_name: file_name@,
                stack: if exists {
                    seq![root]
                } else {
                    Seq::empty()
                },
                files: Seq::empty(),
            }),
    {
        let mut stack: Vec<P> = Vec::new();
        if exists {
            stack.push(root);
        }
        assert(stack@ =~= if exists {
            seq![root]
        } else {
            Seq::empty()
        });
        DirWalk { file_name: file_name.to_owned(), stack, files: Vec::new() }
    }

    /// The directory that is searched next: the one that was found last.
    pub fn next_directory(&mut self) -> (next: Option<P>)
        ensures
            match next {
                Some(path) => old(self)@.stack.len() > 0 && path == old(self)@.stack.last()
                    && final(self)@ == (WalkView {
                    stack: old(self)@.stack.drop_last(),
                    ..old(self)@
                }),
                None => old(self)@.stack.len() == 0 && final(self)@ == old(self)@,
            },
    {
        self.stack.pop()
    }

    /// Takes in an entry of a directory. `name` is absent where the name of the entry is no text.
    pub fn see(&mut self, path: P, kind: EntryKind, name: Option<String>)
        ensures
            final(self)@ == old(self)@.seen(path, kind, text::opt_text(name)),
    {
        match kind {
            EntryKind::Directory => {
                self.stack.push(path);
            },
            EntryKind::File => {
                if let Some(name) = name {
                    if text::text_eq(name.as_str(), self.file_name.as_str()) {
                        self.files.push(path);
                    }
                }
            },
            EntryKind::Other => {},
        }
    }

    /// The files that were found.
    pub fn into_files(self) -> (files: Vec<P>)
        ensures
            files@ == self@.files,
    {
        self.files
    }
}

/// The error of a directory that cannot be read.
pub fn read_dir_failure(directory: &str, error: &str) -> (failure: HostError)
    ensures
        failure matches HostError::Config(words) && words@ == "failed to read "@ + directory@
            + ": "@ + error@,
{
    HostError::Config(text::join4("failed to read ", directory, ": ", error))
}

/// The error of an entry of a directory that cannot be looked at.
pub fn inspect_failure(path: &str, error: &str) -> (failure: HostError)
    ensures
        failure matches HostError::Config(words) && words@ == "failed to inspect "@ + path@ + ": "@
            + error@,
{
    HostError::Config(text::join4("failed to inspect ", path, ": ", error))
}

/// A search finds the files of its name and goes on into every directory; whatever else it sees
/// changes nothing, and nothing that was found is lost.
pub proof fn law_search_finds_files_of_its_name<P>(
    walk: WalkView<P>,
    path: P,
    kind: EntryKind,
    name: Option<Seq<char>>,
)
    ensures
        ({
            let after = walk.seen(path, kind, name);
            &&& after.file_name == walk.file_name
            &&& kind is Directory ==> after.stack == walk.stack.push(path) && after.files
                == walk.files
            &&& kind is File && name == Some(walk.file_name) ==> after.files == walk.files.push(path)
                && after.stack == walk.stack
            &&& kind is File && name != Some(walk.file_name) || kind is Other ==> after == walk
        }),
{
}

} // verus!
