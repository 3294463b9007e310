//! The work on the disk that the library asks of its caller, and the answers.
//!
//! The library reads and changes nothing on the disk. A panel names the next
//! primitive it needs as a [`Request`]; the caller performs it and hands back
//! the matching [`Reply`].

use vstd::prelude::*;

verus! {

/// What the disk holds at a path, following symbolic links.
#[derive(Debug, Clone, Copy, PartialEq, Eq, Structural)]
pub enum PathState {
    /// Nothing is there.
    Missing,
    /// A plain file.
    File,
    /// A directory.
    Dir,
    /// Something that is neither.
    Other,
}

/// Why a primitive failed.
#[derive(Debug, Clone, Copy, PartialEq, Eq, Structural)]
pub enum IoFailure {
    NotFound,
    PermissionDenied,
    /// Any other reason.
    Other,
}

/// One child of a directory that was read.
#[derive(Debug, PartialEq, Eq)]
pub struct DirEntry {
    /// The child's full path.
    pub path: String,
    pub state: PathState,
}

/// The mathematical value of a [`DirEntry`].
pub struct DirEntryView {
    pub path: Seq<char>,
    pub state: PathState,
}

impl View for DirEntry {
    type V = DirEntryView;

    open spec fn view(&self) -> DirEntryView {
        DirEntryView { path: self.path@, state: self.state }
    }
}

impl DeepView for DirEntry {
    type V = DirEntryView;

    open spec fn deep_view(&self) -> DirEntryView {
        self@
    }
}

/// The paths of the children of a directory, in the order they were read.
pub open spec fn listed_paths(children: Seq<DirEntryView>) -> Seq<Seq<char>> {
    Seq::new(children.len(), |i: int| children[i].path)
}

/// The paths of the children of a directory, in the order they were read.
pub fn paths_of(children: &Vec<DirEntry>) -> (paths: Vec<String>)
    ensures
        paths.deep_view() == listed_paths(children.deep_view()),
{
    let mut paths: Vec<String> = Vec::new();
    let mut i: usize = 0;
    while i < children.len()
        invariant
            i <= children.len(),
            paths.len() == i,
            forall|j: int| 0 <= j < i ==> paths[j]@ == children[j].path@,
        decreases children.len() - i,
    {
        paths.push(children[i].path.clone());
        i += 1;
    }
    assert(paths.deep_view() =~= listed_paths(children.deep_view()));
    paths
}

/// One primitive for the caller to perform.
#[derive(Debug, PartialEq, Eq)]
pub enum Request {
    /// Read the children of a directory.
    List { dir: String },
    /// Find out what is at a path.
    Probe { path: String },
    /// Create an empty file.
    CreateFile { path: String },
    /// Create a directory.
    CreateDir { path: String },
    /// Copy the bytes of one file to a new file.
    CopyFile { from: String, to: String },
    /// Delete a file.
    RemoveFile { path: String },
    /// Delete an empty directory.
    RemoveDir { path: String },
    /// Delete a directory and all it holds.
    RemoveDirAll { path: String },
    /// Rename or move an entry.
    Rename { from: String, to: String },
}

/// The mathematical value of a [`Request`].
pub enum RequestView {
    List { dir: Seq<char> },
    Probe { path: Seq<char> },
    CreateFile { path: Seq<char> },
    CreateDir { path: Seq<char> },
    CopyFile { from: Seq<char>, to: Seq<char> },
    RemoveFile { path: Seq<char> },
    RemoveDir { path: Seq<char> },
    RemoveDirAll { path: Seq<char> },
    Rename { from: Seq<char>, to: Seq<char> },
}

impl View for Request {
    type V = RequestView;

    open spec fn view(&self) -> RequestView {
        match self {
            Request::List { dir } => RequestView::List { dir: dir@ },
            Request::Probe { path } => RequestView::Probe { path: path@ },
            Request::CreateFile { path } => RequestView::CreateFile { path: path@ },
            Request::CreateDir { path } => RequestView::CreateDir { path: path@ },
            Request::CopyFile { from, to } => RequestView::CopyFile { from: from@, to: to@ },
            Request::RemoveFile { path } => RequestView::RemoveFile { path: path@ },
            Request::RemoveDir { path } => RequestView::RemoveDir { path: path@ },
            Request::RemoveDirAll { path } => RequestView::RemoveDirAll { path: path@ },
            Request::Rename { from, to } => RequestView::Rename { from: from@, to: to@ },
        }
    }
}

impl DeepView for Request {
    type V = RequestView;

    open spec fn deep_view(&self) -> RequestView {
        self@
    }
}

/// The caller's answer to a [`Request`].
#[derive(Debug, PartialEq, Eq)]
pub enum Reply {
    /// To `List`: the children, or nothing where the directory could not be
    /// read.
    Listing(Option<Vec<DirEntry>>),
    /// To `Probe`.
    Probed(PathState),
    /// To every other request.
    Done(Result<(), IoFailure>),
}

/// The mathematical value of a [`Reply`].
pub enum ReplyView {
    Listing(Option<Seq<DirEntryView>>),
    Probed(PathState),
    Done(Result<(), IoFailure>),
}

impl View for Reply {
    type V = ReplyView;

    open spec fn view(&self) -> ReplyView {
        match self {
            Reply::Listing(children) => ReplyView::Listing(children.deep_view()),
            Reply::Probed(state) => ReplyView::Probed(*state),
            Reply::Done(outcome) => ReplyView::Done(*outcome),
        }
    }
}

impl DeepView for Reply {
    type V = ReplyView;

    open spec fn deep_view(&self) -> ReplyView {
        self@
    }
}

} // verus!
