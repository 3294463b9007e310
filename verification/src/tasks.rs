//! The work on the disk that a panel still has to do.
//!
//! Each [`Task`] stands for one primitive that the caller performs, and for
//! what the panel does with the answer. A panel keeps its tasks on a stack: the
//! last one is the next to run.

use crate::disk::{DirEntry, DirEntryView, PathState, Request, RequestView};
use crate::paths::{file_name, join, path_file_name, path_join};
use vstd::prelude::*;

verus! {

/// What happens to the cursor once a directory has been read again.
#[derive(Debug, PartialEq, Eq)]
pub enum After {
    /// It stays, moved up only where the listing has become shorter.
    Keep,
    /// It goes to the first entry, and the selection is dropped.
    First,
    /// It goes to the entry with this path, which is then renamed in place.
    Select(String),
}

/// The mathematical value of an [`After`].
pub enum AfterView {
    Keep,
    First,
    Select(Seq<char>),
}

impl View for After {
    type V = AfterView;

    open spec fn view(&self) -> AfterView {
        match self {
            After::Keep => AfterView::Keep,
            After::First => AfterView::First,
            After::Select(path) => AfterView::Select(path@),
        }
    }
}

/// One step of work on the disk.
#[derive(Debug, PartialEq, Eq)]
pub enum Task {
    /// Read the working directory again.
    Reload { after: After, changed: bool },
    /// Make the entry at `index`, which is `dir`, the working directory if
    /// it is a directory.
    Enter { index: usize, dir: String },
    /// Find a free name for a new file or directory.
    Create { directory: bool },
    /// Create the new file or directory at `path`.
    Make { path: String, directory: bool },
    /// Copy `from` into the working directory, to `base` or a free name
    /// derived from it, if it is a file or a directory.
    Transfer { from: String, base: String },
    /// Find a free name for the copy of `from`.
    Place { from: String, base: String, directory: bool },
    /// Copy the file `from` to `to`.
    CopyFile { from: String, to: String },
    /// Create the directory `to`, then copy what `from` holds into it.
    MakeDir { from: String, to: String, nested: bool },
    /// Copy what the directory `from` holds into the directory `to`.
    CopyTree { from: String, to: String },
    /// Remove `path` if it is a file or a directory.
    Remove { path: String },
    /// Delete the file `path`.
    RemoveFile { path: String },
    /// Find out whether the directory `path` is empty.
    Inspect { path: String },
    /// Delete the directory `path`.
    RemoveDir { path: String, recursive: bool },
    /// Give the entry at `index` the path `to` unless something else has it.
    Rename { index: usize, to: String },
    /// Move the entry at `index` from `from` to `to`.
    Move { index: usize, from: String, to: String },
}

/// The mathematical value of a [`Task`].
pub enum TaskView {
    Reload { after: AfterView, changed: bool },
    Enter { index: usize, dir: Seq<char> },
    Create { directory: bool },
    Make { path: Seq<char>, directory: bool },
    Transfer { from: Seq<char>, base: Seq<char> },
    Place { from: Seq<char>, base: Seq<char>, directory: bool },
    CopyFile { from: Seq<char>, to: Seq<char> },
    MakeDir { from: Seq<char>, to: Seq<char>, nested: bool },
    CopyTree { from: Seq<char>, to: Seq<char> },
    Remove { path: Seq<char> },
    RemoveFile { path: Seq<char> },
    Inspect { path: Seq<char> },
    RemoveDir { path: Seq<char>, recursive: bool },
    Rename { index: usize, to: Seq<char> },
    Move { index: usize, from: Seq<char>, to: Seq<char> },
}

impl View for Task {
    type V = TaskView;

    open spec fn view(&self) -> TaskView {
        match self {
            Task::Reload { after, changed } => TaskView::Reload {
                after: after@,
                changed: *changed,
            },
            Task::Enter { index, dir } => TaskView::Enter { index: *index, dir: dir@ },
            Task::Create { directory } => TaskView::Create { directory: *directory },
            Task::Make { path, directory } => TaskView::Make {
                path: path@,
                directory: *directory,
            },
            Task::Transfer { from, base } => TaskView::Transfer { from: from@, base: base@ },
            Task::Place { from, base, directory } => TaskView::Place {
                from: from@,
                base: base@,
                directory: *directory,
            },
            Task::CopyFile { from, to } => TaskView::CopyFile { from: from@, to: to@ },
            Task::MakeDir { from, to, nested } => TaskView::MakeDir {
                from: from@,
                to: to@,
                nested: *nested,
            },
            Task::CopyTree { from, to } => TaskView::CopyTree { from: from@, to: to@ },
            Task::Remove { path } => TaskView::Remove { path: path@ },
            Task::RemoveFile { path } => TaskView::RemoveFile { path: path@ },
            Task::Inspect { path } => TaskView::Inspect { path: path@ },
            Task::RemoveDir { path, recursive } => TaskView::RemoveDir {
                path: path@,
                recursive: *recursive,
            },
            Task::Rename { index, to } => TaskView::Rename { index: *index, to: to@ },
            Task::Move { index, from, to } => TaskView::Move {
                index: *index,
                from: from@,
                to: to@,
            },
        }
    }
}

impl DeepView for Task {
    type V = TaskView;

    open spec fn deep_view(&self) -> TaskView {
        self@
    }
}

impl TaskView {
    /// The primitive that the step needs, for a panel whose working directory is
    /// `working_directory`.
    pub open spec fn request(self, working_directory: Seq<char>) -> RequestView {
        match self {
            TaskView::Reload { .. } => RequestView::List { dir: working_directory },
            TaskView::Enter { dir, .. } => RequestView::Probe { path: dir },
            TaskView::Create { .. } => RequestView::List { dir: working_directory },
            TaskView::Make { path, directory } => if directory {
                RequestView::CreateDir { path }
            } else {
                RequestView::CreateFile { path }
            },
            TaskView::Transfer { from, .. } => RequestView::Probe { path: from },
            TaskView::Place { .. } => RequestView::List { dir: working_directory },
            TaskView::CopyFile { from, to } => RequestView::CopyFile { from, to },
            TaskView::MakeDir { to, .. } => RequestView::CreateDir { path: to },
            TaskView::CopyTree { from, .. } => RequestView::List { dir: from },
            TaskView::Remove { path } => RequestView::Probe { path },
            TaskView::RemoveFile { path } => RequestView::RemoveFile { path },
            TaskView::Inspect { path } => RequestView::List { dir: path },
            TaskView::RemoveDir { path, recursive } => if recursive {
                RequestView::RemoveDirAll { path }
            } else {
                RequestView::RemoveDir { path }
            },
            TaskView::Rename { to, .. } => RequestView::Probe { path: to },
            TaskView::Move { from, to, .. } => RequestView::Rename { from, to },
        }
    }
}

impl Task {
    /// The primitive that the step needs, for a panel whose working directory is
    /// `working_directory`.
    pub fn request(&self, working_directory: &str) -> (request: Request)
        ensures
            request@ == self@.request(working_directory@),
    {
        match self {
            Task::Reload { .. } => Request::List { dir: String::from_str(working_directory) },
            Task::Enter { dir, .. } => Request::Probe { path: dir.clone() },
            Task::Create { .. } => Request::List { dir: String::from_str(working_directory) },
            Task::Make { path, directory } => if *directory {
                Request::CreateDir { path: path.clone() }
            } else {
                Request::CreateFile { path: path.clone() }
            },
            Task::Transfer { from, .. } => Request::Probe { path: from.clone() },
            Task::Place { .. } => Request::List { dir: String::from_str(working_directory) },
            Task::CopyFile { from, to } => Request::CopyFile { from: from.clone(), to: to.clone() },
            Task::MakeDir { to, .. } => Request::CreateDir { path: to.clone() },
            Task::CopyTree { from, .. } => Request::List { dir: from.clone() },
            Task::Remove { path } => Request::Probe { path: path.clone() },
            Task::RemoveFile { path } => Request::RemoveFile { path: path.clone() },
            Task::Inspect { path } => Request::List { dir: path.clone() },
            Task::RemoveDir { path, recursive } => if *recursive {
                Request::RemoveDirAll { path: path.clone() }
            } else {
                Request::RemoveDir { path: path.clone() }
            },
            Task::Rename { to, .. } => Request::Probe { path: to.clone() },
            Task::Move { from, to, .. } => Request::Rename { from: from.clone(), to: to.clone() },
        }
    }
}

/// The task that copies one child of a directory into the directory `dest`:
/// a file is copied, a directory is created and then copied in turn, and
/// anything else, or a child without a name, is passed over.
pub open spec fn child_task(child: DirEntryView, dest: Seq<char>) -> Option<TaskView> {
    match path_file_name(child.path) {
        Some(name) => match child.state {
            PathState::File => Some(
                TaskView::CopyFile { from: child.path, to: path_join(dest, name) },
            ),
            PathState::Dir => Some(
                TaskView::MakeDir { from: child.path, to: path_join(dest, name), nested: true },
            ),
            _ => None,
        },
        None => None,
    }
}

/// The tasks that copy the given children into `dest`, the first child's task
/// last, which is where the next task to run stands.
pub open spec fn tree_tasks(children: Seq<DirEntryView>, dest: Seq<char>) -> Seq<TaskView>
    decreases children.len(),
{
    if children.len() == 0 {
        Seq::empty()
    } else {
        let rest = tree_tasks(children.drop_first(), dest);
        match child_task(children[0], dest) {
            Some(task) => rest.push(task),
            None => rest,
        }
    }
}

/// The number of children that are files or directories and have a name.
pub open spec fn copyable(children: Seq<DirEntryView>, dest: Seq<char>) -> nat
    decreases children.len(),
{
    if children.len() == 0 {
        0
    } else {
        copyable(children.drop_first(), dest) + if child_task(children[0], dest) is Some {
            1nat
        } else {
            0nat
        }
    }
}

/// One level of a recursive copy: schedules the copy of each child of `src`
/// into `dest`, which must already exist. Nothing is copied here; each
/// scheduled task reports its own failure when it runs, so one child that
/// fails leaves the tasks of its siblings in place.
pub fn copy_recursively(children: &Vec<DirEntry>, dest: &str, pending: &mut Vec<Task>)
    ensures
        final(pending).deep_view() == old(pending).deep_view() + tree_tasks(
            children.deep_view(),
            dest@,
        ),
{
    let ghost before = pending.deep_view();
    let ghost all = children.deep_view();
    let mut i: usize = children.len();
    assert(all.subrange(i as int, all.len() as int) =~= Seq::<DirEntryView>::empty());
    while i > 0
        invariant
            i <= children.len(),
            all == children.deep_view(),
            pending.deep_view() == before + tree_tasks(
                all.subrange(i as int, all.len() as int),
                dest@,
            ),
        decreases i,
    {
        i -= 1;
        let child = &children[i];
        let ghost tail = all.subrange(i as int, all.len() as int);
        assert(tail.drop_first() =~= all.subrange(i + 1, all.len() as int));
        assert(tail[0] == child@);
        let ghost so_far = pending.deep_view();
        match file_name(child.path.as_str()) {
            Some(name) => match child.state {
                PathState::File => {
                    let task = Task::CopyFile {
                        from: child.path.clone(),
                        to: join(dest, name.as_str()),
                    };
                    pending.push(task);
                    assert(pending.deep_view() =~= so_far.push(task@));
                },
                PathState::Dir => {
                    let task = Task::MakeDir {
                        from: child.path.clone(),
                        to: join(dest, name.as_str()),
                        nested: true,
                    };
                    pending.push(task);
                    assert(pending.deep_view() =~= so_far.push(task@));
                },
                _ => {},
            },
            None => {},
        }
        assert(pending.deep_view() =~= before + tree_tasks(tail, dest@));
    }
    assert(all.subrange(0, all.len() as int) =~= all);
}

/// One task is scheduled for each child that can be copied, and none for the
/// others.
pub proof fn lemma_tree_tasks_count(children: Seq<DirEntryView>, dest: Seq<char>)
    ensures
        tree_tasks(children, dest).len() == copyable(children, dest),
    decreases children.len(),
{
    if children.len() > 0 {
        lemma_tree_tasks_count(children.drop_first(), dest);
    }
}

} // verus!
