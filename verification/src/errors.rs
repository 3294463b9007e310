//! The failures a panel shows to its user.

use crate::disk::IoFailure;
use vstd::prelude::*;

verus! {

/// What a path was expected to be when an operation on it failed.
#[derive(Debug, Clone, Copy, PartialEq, Eq, Structural)]
pub enum PathKind {
    File,
    Dir,
    /// Not known at the time of the failing call.
    Ambiguous,
}

/// A failure of one filesystem operation, as queued by a panel.
#[derive(Debug, PartialEq, Eq)]
pub enum WalkedError {
    PathNotFound { path: String, path_kind: PathKind },
    PermissionDenied { path: String, path_kind: PathKind },
    Message(String),
}

/// The mathematical value of a [`WalkedError`].
pub enum WalkedErrorView {
    PathNotFound { path: Seq<char>, path_kind: PathKind },
    PermissionDenied { path: Seq<char>, path_kind: PathKind },
    Message(Seq<char>),
}

impl View for WalkedError {
    type V = WalkedErrorView;

    open spec fn view(&self) -> WalkedErrorView {
        match self {
            WalkedError::PathNotFound { path, path_kind } => WalkedErrorView::PathNotFound {
                path: path@,
                path_kind: *path_kind,
            },
            WalkedError::PermissionDenied {
                path,
                path_kind,
            } => WalkedErrorView::PermissionDenied { path: path@, path_kind: *path_kind },
            WalkedError::Message(text) => WalkedErrorView::Message(text@),
        }
    }
}

impl DeepView for WalkedError {
    type V = WalkedErrorView;

    open spec fn deep_view(&self) -> WalkedErrorView {
        self@
    }
}

impl PathKind {
    /// The word a message uses for a path of this kind.
    pub open spec fn spec_noun(self) -> Seq<char> {
        match self {
            PathKind::File => "file"@,
            PathKind::Dir => "directory"@,
            PathKind::Ambiguous => "entry"@,
        }
    }

    /// The word a message uses for a path of this kind.
    pub fn noun(self) -> (word: &'static str)
        ensures
            word@ == self.spec_noun(),
    {
        match self {
            PathKind::File => "file",
            PathKind::Dir => "directory",
            PathKind::Ambiguous => "entry",
        }
    }
}

impl WalkedErrorView {
    /// The line shown to the user for this error.
    pub open spec fn text(self) -> Seq<char> {
        match self {
            WalkedErrorView::PathNotFound { path, path_kind } => "Couldn't find "@
                + path_kind.spec_noun() + " '"@ + path + "'"@,
            WalkedErrorView::PermissionDenied { path, path_kind } => "Couldn't access "@
                + path_kind.spec_noun() + " '"@ + path + "'"@,
            WalkedErrorView::Message(text) => text,
        }
    }
}

impl Clone for WalkedError {
    fn clone(&self) -> (copy: WalkedError)
        ensures
            copy@ == self@,
    {
        match self {
            WalkedError::PathNotFound { path, path_kind } => WalkedError::PathNotFound {
                path: path.clone(),
                path_kind: *path_kind,
            },
            WalkedError::PermissionDenied { path, path_kind } => WalkedError::PermissionDenied {
                path: path.clone(),
                path_kind: *path_kind,
            },
            WalkedError::Message(text) => WalkedError::Message(text.clone()),
        }
    }
}

impl WalkedError {
    /// The line shown to the user for this error.
    pub fn to_string(&self) -> (line: String)
        ensures
            line@ == self@.text(),
    {
        match self {
            WalkedError::PathNotFound { path, path_kind } => {
                let mut line = String::from_str("Couldn't find ");
                line.append(path_kind.noun());
                line.append(" '");
                line.append(path.as_str());
                line.append("'");
                line
            },
            WalkedError::PermissionDenied { path, path_kind } => {
                let mut line = String::from_str("Couldn't access ");
                line.append(path_kind.noun());
                line.append(" '");
                line.append(path.as_str());
                line.append("'");
                line
            },
            WalkedError::Message(text) => text.clone(),
        }
    }
}

/// The message for a failure that names one path.
pub open spec fn about_one(before: Seq<char>, path: Seq<char>) -> WalkedErrorView {
    WalkedErrorView::Message(before + path + "'"@)
}

/// The message for a failure that names two paths.
pub open spec fn about_two(
    before: Seq<char>,
    first: Seq<char>,
    between: Seq<char>,
    second: Seq<char>,
) -> WalkedErrorView {
    WalkedErrorView::Message(before + first + between + second + "'"@)
}

fn message_about_one(before: &str, path: &str) -> (error: WalkedError)
    ensures
        error@ == about_one(before@, path@),
{
    let mut text = String::from_str(before);
    text.append(path);
    text.append("'");
    WalkedError::Message(text)
}

fn message_about_two(before: &str, first: &str, between: &str, second: &str) -> (error:
    WalkedError)
    ensures
        error@ == about_two(before@, first@, between@, second@),
{
    let mut text = String::from_str(before);
    text.append(first);
    text.append(between);
    text.append(second);
    text.append("'");
    WalkedError::Message(text)
}

/// The error for a file or directory that could not be created at `path`.
pub open spec fn create_failure(path: Seq<char>, directory: bool, failure: IoFailure)
    -> WalkedErrorView {
    let path_kind = if directory {
        PathKind::Dir
    } else {
        PathKind::File
    };
    match failure {
        IoFailure::PermissionDenied => WalkedErrorView::PermissionDenied { path, path_kind },
        _ => if directory {
            about_one("Couldn't create directory '"@, path)
        } else {
            about_one("Couldn't create file '"@, path)
        },
    }
}

/// The error for a file or directory that could not be created at `path`.
pub fn create_failed(path: &str, directory: bool, failure: IoFailure) -> (error: WalkedError)
    ensures
        error@ == create_failure(path@, directory, failure),
{
    let path_kind = if directory {
        PathKind::Dir
    } else {
        PathKind::File
    };
    match failure {
        IoFailure::PermissionDenied => WalkedError::PermissionDenied {
            path: String::from_str(path),
            path_kind,
        },
        _ => if directory {
            message_about_one("Couldn't create directory '", path)
        } else {
            message_about_one("Couldn't create file '", path)
        },
    }
}

/// The error for a directory of a copied tree that could not be created at
/// `path`, below the top of the copy.
pub open spec fn nested_dir_failure(path: Seq<char>, failure: IoFailure) -> WalkedErrorView {
    match failure {
        IoFailure::NotFound => WalkedErrorView::PathNotFound { path, path_kind: PathKind::Dir },
        _ => create_failure(path, true, failure),
    }
}

/// The error for a directory of a copied tree that could not be created at
/// `path`, below the top of the copy.
pub fn nested_dir_failed(path: &str, failure: IoFailure) -> (error: WalkedError)
    ensures
        error@ == nested_dir_failure(path@, failure),
{
    match failure {
        IoFailure::NotFound => WalkedError::PathNotFound {
            path: String::from_str(path),
            path_kind: PathKind::Dir,
        },
        _ => create_failed(path, true, failure),
    }
}

/// The error for a file that could not be copied from `from` to `to`.
pub open spec fn copy_failure(from: Seq<char>, to: Seq<char>, failure: IoFailure)
    -> WalkedErrorView {
    match failure {
        IoFailure::NotFound => WalkedErrorView::PathNotFound {
            path: from,
            path_kind: PathKind::File,
        },
        IoFailure::PermissionDenied => WalkedErrorView::PermissionDenied {
            path: to,
            path_kind: PathKind::File,
        },
        IoFailure::Other => about_two("Couldn't copy file from '"@, from, "' to '"@, to),
    }
}

/// The error for a file that could not be copied from `from` to `to`.
pub fn copy_failed(from: &str, to: &str, failure: IoFailure) -> (error: WalkedError)
    ensures
        error@ == copy_failure(from@, to@, failure),
{
    match failure {
        IoFailure::NotFound => WalkedError::PathNotFound {
            path: String::from_str(from),
            path_kind: PathKind::File,
        },
        IoFailure::PermissionDenied => WalkedError::PermissionDenied {
            path: String::from_str(to),
            path_kind: PathKind::File,
        },
        IoFailure::Other => message_about_two("Couldn't copy file from '", from, "' to '", to),
    }
}

/// The error for a file or directory at `path` that could not be removed.
pub open spec fn remove_failure(path: Seq<char>, directory: bool, failure: IoFailure)
    -> WalkedErrorView {
    let path_kind = if directory {
        PathKind::Dir
    } else {
        PathKind::File
    };
    match failure {
        IoFailure::NotFound => WalkedErrorView::PathNotFound { path, path_kind },
        IoFailure::PermissionDenied => WalkedErrorView::PermissionDenied { path, path_kind },
        IoFailure::Other => if directory {
            about_one("Couldn't remove directory '"@, path)
        } else {
            about_one("Couldn't remove file '"@, path)
        },
    }
}

/// The error for a file or directory at `path` that could not be removed.
pub fn remove_failed(path: &str, directory: bool, failure: IoFailure) -> (error: WalkedError)
    ensures
        error@ == remove_failure(path@, directory, failure),
{
    let path_kind = if directory {
        PathKind::Dir
    } else {
        PathKind::File
    };
    match failure {
        IoFailure::NotFound => WalkedError::PathNotFound { path: String::from_str(path), path_kind },
        IoFailure::PermissionDenied => WalkedError::PermissionDenied {
            path: String::from_str(path),
            path_kind,
        },
        IoFailure::Other => if directory {
            message_about_one("Couldn't remove directory '", path)
        } else {
            message_about_one("Couldn't remove file '", path)
        },
    }
}

/// The error for an entry that could not be renamed from `from` to `to`.
pub open spec fn rename_failure(from: Seq<char>, to: Seq<char>, failure: IoFailure)
    -> WalkedErrorView {
    match failure {
        IoFailure::NotFound => WalkedErrorView::PathNotFound {
            path: from,
            path_kind: PathKind::Ambiguous,
        },
        IoFailure::PermissionDenied => WalkedErrorView::PermissionDenied {
            path: from,
            path_kind: PathKind::Ambiguous,
        },
        IoFailure::Other => about_two("Couldn't rename '"@, from, "' to '"@, to),
    }
}

/// The error for an entry that could not be renamed from `from` to `to`.
pub fn rename_failed(from: &str, to: &str, failure: IoFailure) -> (error: WalkedError)
    ensures
        error@ == rename_failure(from@, to@, failure),
{
    match failure {
        IoFailure::NotFound => WalkedError::PathNotFound {
            path: String::from_str(from),
            path_kind: PathKind::Ambiguous,
        },
        IoFailure::PermissionDenied => WalkedError::PermissionDenied {
            path: String::from_str(from),
            path_kind: PathKind::Ambiguous,
        },
        IoFailure::Other => message_about_two("Couldn't rename '", from, "' to '", to),
    }
}

/// The error for a directory whose children could not be read.
pub open spec fn list_failure(dir: Seq<char>) -> WalkedErrorView {
    about_one("Couldn't read directory '"@, dir)
}

/// The error for a directory whose children could not be read.
pub fn list_failed(dir: &str) -> (error: WalkedError)
    ensures
        error@ == list_failure(dir@),
{
    message_about_one("Couldn't read directory '", dir)
}

/// The error for a new name that holds a reserved character.
pub open spec fn reserved_character() -> WalkedErrorView {
    WalkedErrorView::Message(
        "Paths can't contain the following characters: ['\\\\', '/', ':', '*', '?', '\"', '<', '>', '|']"@,
    )
}

/// The error for a new name that holds a reserved character.
pub fn reserved_character_error() -> (error: WalkedError)
    ensures
        error@ == reserved_character(),
{
    WalkedError::Message(
        String::from_str(
            "Paths can't contain the following characters: ['\\\\', '/', ':', '*', '?', '\"', '<', '>', '|']",
        ),
    )
}

/// The error for a new name that is empty.
pub open spec fn empty_name() -> WalkedErrorView {
    WalkedErrorView::Message("Names can't be empty"@)
}

/// The error for a new name that is empty.
pub fn empty_name_error() -> (error: WalkedError)
    ensures
        error@ == empty_name(),
{
    WalkedError::Message(String::from_str("Names can't be empty"))
}

/// The error for a new name that another entry already has.
pub open spec fn already_exists(path: Seq<char>) -> WalkedErrorView {
    WalkedErrorView::Message("'"@ + path + "' already exists"@)
}

/// The error for a new name that another entry already has.
pub fn already_exists_error(path: &str) -> (error: WalkedError)
    ensures
        error@ == already_exists(path@),
{
    let mut text = String::from_str("'");
    text.append(path);
    text.append("' already exists");
    WalkedError::Message(text)
}

} // verus!
