//! What holds of every panel and every window, proved from their models.

use crate::disk::{DirEntryView, IoFailure, PathState, ReplyView, RequestView};
use crate::errors::{already_exists, reserved_character, WalkedErrorView};
use crate::panel::{PanelMode, PanelView};
use crate::paths::path_join;
use crate::disk::listed_paths;
use crate::errors::list_failure;
use crate::paths::{display_name, free_path, lemma_free_path};
use crate::tasks::{child_task, copyable, lemma_tree_tasks_count, tree_tasks, TaskView};
use crate::text::has_reserved;
use crate::window::WindowView;
use vstd::prelude::*;

verus! {

/// Whether `task` performs a primitive that changes the disk and can fail:
/// creation, copy, removal or rename.
pub open spec fn performs(task: TaskView) -> bool {
    task is Make || task is CopyFile || task is MakeDir || task is RemoveFile || task is RemoveDir
        || task is Move
}

/// A primitive that fails queues exactly one error, behind those already
/// queued, and leaves every task below it on the stack: what fails for one
/// entry does not keep its siblings from being handled. A primitive that
/// succeeds queues no error.
pub proof fn lemma_failure_queues_one_error(panel: PanelView, outcome: Result<(), IoFailure>)
    requires
        panel.pending.len() > 0,
        performs(panel.pending.last()),
    ensures
        panel.resumed(ReplyView::Done(outcome)).errors.len() == panel.errors.len() + if outcome
            is Err {
            1nat
        } else {
            0nat
        },
        panel.errors.is_prefix_of(panel.resumed(ReplyView::Done(outcome)).errors),
        panel.pending.drop_last().is_prefix_of(panel.resumed(ReplyView::Done(outcome)).pending),
        outcome is Err && panel.pending.len() > 1 ==> panel.resumed(
            ReplyView::Done(outcome),
        ).pending == panel.pending.drop_last(),
{
    let next = panel.resumed(ReplyView::Done(outcome));
    assert(panel.errors =~= next.errors.subrange(0, panel.errors.len() as int));
    assert(panel.pending.drop_last() =~= next.pending.subrange(0, panel.pending.len() - 1));
}

/// Whether `after` still holds the errors and the tasks of `before`, in their
/// order, with nothing but additions behind them.
pub open spec fn keeps(before: PanelView, after: PanelView) -> bool {
    &&& before.errors.is_prefix_of(after.errors)
    &&& before.pending.is_prefix_of(after.pending)
}

proof fn lemma_keeps_itself(panel: PanelView)
    ensures
        keeps(panel, panel),
{
    assert(panel.errors =~= panel.errors.subrange(0, panel.errors.len() as int));
    assert(panel.pending =~= panel.pending.subrange(0, panel.pending.len() as int));
}

proof fn lemma_keeps_same(before: PanelView, after: PanelView)
    requires
        after.errors == before.errors,
        after.pending == before.pending,
    ensures
        keeps(before, after),
{
    lemma_keeps_itself(before);
}

proof fn lemma_keeps_scheduled(panel: PanelView, task: TaskView)
    ensures
        keeps(panel, panel.scheduled(task)),
        keeps(panel, (PanelView { touched: true, ..panel }).scheduled(task)),
{
    let next = panel.scheduled(task);
    assert(panel.errors =~= next.errors.subrange(0, panel.errors.len() as int));
    assert(panel.pending =~= next.pending.subrange(0, panel.pending.len() as int));
}

proof fn lemma_keeps_failed(panel: PanelView, error: crate::errors::WalkedErrorView)
    ensures
        keeps(panel, panel.failed(error)),
{
    let next = panel.failed(error);
    assert(panel.errors =~= next.errors.subrange(0, panel.errors.len() as int));
    assert(panel.pending =~= next.pending.subrange(0, panel.pending.len() as int));
}

proof fn lemma_keeps_left_insert(panel: PanelView)
    ensures
        keeps(panel, panel.left_insert()),
{
    lemma_keeps_same(panel, panel.left_insert());
}

proof fn lemma_listing_keeps(
    panel: PanelView,
    task: TaskView,
    listing: Option<Seq<DirEntryView>>,
)
    ensures
        panel.listing_answered(task, listing) matches Some(next) ==> keeps(panel, next),
{
    match task {
        TaskView::Reload { after, .. } => {
            lemma_keeps_same(panel, panel.reloaded(after, listing));
        },
        TaskView::Create { directory } => {
            match listing {
                Some(children) => {
                    let base = path_join(
                        panel.working_directory,
                        if directory {
                            "NEWDIR"@
                        } else {
                            "NEWFILE"@
                        },
                    );
                    lemma_keeps_scheduled(
                        panel,
                        TaskView::Make { path: free_path(base, listed_paths(children)), directory },
                    );
                },
                None => lemma_keeps_failed(panel, list_failure(panel.working_directory)),
            }
        },
        TaskView::Place { from, base, directory } => {
            match listing {
                Some(children) => {
                    let to = free_path(base, listed_paths(children));
                    lemma_keeps_scheduled(panel, TaskView::MakeDir { from, to, nested: false });
                    lemma_keeps_scheduled(panel, TaskView::CopyFile { from, to });
                },
                None => lemma_keeps_failed(panel, list_failure(panel.working_directory)),
            }
        },
        TaskView::CopyTree { to, .. } => {
            match listing {
                Some(children) => {
                    let next = PanelView {
                        pending: panel.pending + tree_tasks(children, to),
                        ..panel
                    };
                    assert(panel.errors =~= next.errors.subrange(0, panel.errors.len() as int));
                    assert(panel.pending =~= next.pending.subrange(
                        0,
                        panel.pending.len() as int,
                    ));
                },
                None => lemma_keeps_itself(panel),
            }
        },
        TaskView::Inspect { path } => {
            match listing {
                Some(children) => lemma_keeps_scheduled(
                    panel,
                    TaskView::RemoveDir { path, recursive: children.len() > 0 },
                ),
                None => lemma_keeps_itself(panel),
            }
        },
        _ => {},
    }
}

proof fn lemma_probe_keeps(panel: PanelView, task: TaskView, found: PathState)
    ensures
        panel.probe_answered(task, found) matches Some(next) ==> keeps(panel, next),
{
    lemma_keeps_itself(panel);
    match task {
        TaskView::Enter { index, .. } => {
            if index < panel.entries.len() && found == PathState::Dir {
                lemma_keeps_scheduled(
                    PanelView { working_directory: panel.entries[index as int], ..panel },
                    TaskView::Reload { after: crate::tasks::AfterView::First, changed: false },
                );
            }
        },
        TaskView::Transfer { from, base } => {
            lemma_keeps_scheduled(panel, TaskView::Place { from, base, directory: false });
            lemma_keeps_scheduled(panel, TaskView::Place { from, base, directory: true });
        },
        TaskView::Remove { path } => {
            lemma_keeps_scheduled(panel, TaskView::RemoveFile { path });
            lemma_keeps_scheduled(panel, TaskView::Inspect { path });
        },
        TaskView::Rename { index, to } => {
            if index < panel.entries.len() {
                lemma_keeps_scheduled(
                    panel,
                    TaskView::Move { index, from: panel.entries[index as int], to },
                );
                lemma_keeps_left_insert(panel);
                lemma_keeps_failed(panel, already_exists(to));
            }
        },
        _ => {},
    }
}

proof fn lemma_done_keeps(panel: PanelView, task: TaskView, outcome: Result<(), IoFailure>)
    ensures
        panel.done_answered(task, outcome) matches Some(next) ==> keeps(panel, next),
{
    lemma_keeps_itself(panel);
    match task {
        TaskView::Make { path, directory } => {
            lemma_keeps_scheduled(
                panel,
                TaskView::Reload { after: crate::tasks::AfterView::Select(path), changed: true },
            );
            if let Err(failure) = outcome {
                lemma_keeps_failed(panel, crate::errors::create_failure(path, directory, failure));
            }
        },
        TaskView::CopyFile { from, to } => {
            if let Err(failure) = outcome {
                lemma_keeps_failed(panel, crate::errors::copy_failure(from, to, failure));
            }
        },
        TaskView::MakeDir { from, to, nested } => {
            lemma_keeps_scheduled(panel, TaskView::CopyTree { from, to });
            if let Err(failure) = outcome {
                lemma_keeps_failed(panel, crate::errors::nested_dir_failure(to, failure));
                lemma_keeps_failed(panel, crate::errors::create_failure(to, true, failure));
            }
        },
        TaskView::RemoveFile { path } => {
            if let Err(failure) = outcome {
                lemma_keeps_failed(panel, crate::errors::remove_failure(path, false, failure));
            }
        },
        TaskView::RemoveDir { path, .. } => {
            if let Err(failure) = outcome {
                lemma_keeps_failed(panel, crate::errors::remove_failure(path, true, failure));
            }
        },
        TaskView::Move { index, from, to } => {
            match outcome {
                Ok(_) => {
                    if index < panel.entries.len() {
                        let renamed = PanelView {
                            entries: panel.entries.update(index as int, to),
                            ..panel
                        };
                        lemma_keeps_left_insert(renamed);
                    } else {
                        lemma_keeps_left_insert(panel);
                    }
                },
                Err(failure) => lemma_keeps_failed(
                    panel,
                    crate::errors::rename_failure(from, to, failure),
                ),
            }
        },
        _ => {},
    }
}

/// Whatever is answered, the panel afterwards still holds the errors that
/// were queued and the tasks that were waiting below the top, in their order.
pub proof fn lemma_reply_keeps(panel: PanelView, reply: ReplyView)
    ensures
        keeps(panel.popped(), panel.resumed(reply)) || panel.resumed(reply) == panel,
        panel.errors.is_prefix_of(panel.resumed(reply).errors),
{
    lemma_keeps_itself(panel);
    if panel.pending.len() > 0 {
        let popped = panel.popped();
        let top = panel.pending.last();
        match reply {
            ReplyView::Listing(listing) => lemma_listing_keeps(popped, top, listing),
            ReplyView::Probed(found) => lemma_probe_keeps(popped, top, found),
            ReplyView::Done(outcome) => lemma_done_keeps(popped, top, outcome),
        }
        match popped.answered(top, reply) {
            Some(answered) => {
                let next = answered.settled();
                assert(keeps(popped, answered));
                if next != answered {
                    assert(answered.pending.len() == 0);
                    assert(popped.pending =~= next.pending.subrange(0, 0));
                    assert(popped.errors.is_prefix_of(next.errors));
                }
                assert(keeps(popped, next));
            },
            None => {},
        }
    }
}

/// No reply takes an error out of the queue: whatever is answered, the
/// errors queued before are still queued, in their order.
pub proof fn lemma_replies_keep_errors(panel: PanelView, reply: ReplyView)
    ensures
        panel.errors.is_prefix_of(panel.resumed(reply).errors),
{
    lemma_reply_keeps(panel, reply);
}

/// While errors are queued and no work is pending, a key press empties the
/// queue and does nothing else, and any other key event does nothing at all.
pub proof fn lemma_errors_gate_keys(
    panel: PanelView,
    key: crate::keys::KeyEvent,
    clipboard: Seq<Seq<char>>,
    config: crate::config::ConfigView,
)
    requires
        panel.errors.len() > 0,
        panel.pending.len() == 0,
    ensures
        panel.keyed(key, clipboard, config) == if key.spec_is_press() {
            PanelView { errors: Seq::empty(), ..panel }
        } else {
            panel
        },
        panel.clipboard_keyed(key, clipboard, config) == clipboard,
        !panel.key_report(key, config).quit,
{
}

/// When the children of a copied directory have been read, one task is
/// scheduled for each child that is a file or a directory, on top of the
/// tasks that were waiting, and no error is queued.
pub proof fn lemma_copy_schedules_each_child(
    panel: PanelView,
    from: Seq<char>,
    to: Seq<char>,
    children: Seq<DirEntryView>,
)
    requires
        panel.pending.len() > 0,
        panel.pending.last() == (TaskView::CopyTree { from, to }),
    ensures
        panel.resumed(ReplyView::Listing(Some(children))) == (PanelView {
            pending: panel.pending.drop_last() + tree_tasks(children, to),
            ..panel
        }).settled(),
        tree_tasks(children, to).len() == copyable(children, to),
        panel.resumed(ReplyView::Listing(Some(children))).errors == panel.errors,
{
    lemma_tree_tasks_count(children, to);
}

/// A file is removed by the primitive for files and by nothing else: once
/// the path is found to be a file, the panel asks for that primitive, and
/// when it is answered no task for that path remains.
pub proof fn lemma_file_removal(panel: PanelView, path: Seq<char>, outcome: Result<(), IoFailure>)
    requires
        panel.pending.len() > 0,
        panel.pending.last() == (TaskView::Remove { path }),
    ensures
        panel.resumed(ReplyView::Probed(PathState::File)).request() == Some(
            RequestView::RemoveFile { path },
        ),
        panel.resumed(ReplyView::Probed(PathState::File)).pending == panel.pending.drop_last().push(
            TaskView::RemoveFile { path },
        ),
        panel.pending.drop_last().is_prefix_of(
            panel.resumed(ReplyView::Probed(PathState::File)).resumed(
                ReplyView::Done(outcome),
            ).pending,
        ),
        panel.pending.len() > 1 ==> panel.resumed(ReplyView::Probed(PathState::File)).resumed(
            ReplyView::Done(outcome),
        ).pending == panel.pending.drop_last(),
{
    let probed = panel.resumed(ReplyView::Probed(PathState::File));
    assert(probed.pending =~= panel.pending.drop_last().push(TaskView::RemoveFile { path }));
    assert(probed.pending.drop_last() =~= panel.pending.drop_last());
    let done = probed.resumed(ReplyView::Done(outcome));
    assert(panel.pending.drop_last() =~= done.pending.subrange(0, panel.pending.len() - 1));
}

/// A directory that holds something is removed by the recursive primitive,
/// and an empty directory by the primitive for empty directories, never the
/// other way round.
pub proof fn lemma_directory_removal(panel: PanelView, path: Seq<char>, children: Seq<DirEntryView>)
    requires
        panel.pending.len() > 0,
        panel.pending.last() == (TaskView::Remove { path }),
    ensures
        panel.resumed(ReplyView::Probed(PathState::Dir)).request() == Some(
            RequestView::List { dir: path },
        ),
        panel.resumed(ReplyView::Probed(PathState::Dir)).resumed(
            ReplyView::Listing(Some(children)),
        ).request() == Some(
            if children.len() > 0 {
                RequestView::RemoveDirAll { path }
            } else {
                RequestView::RemoveDir { path }
            },
        ),
{
    let probed = panel.resumed(ReplyView::Probed(PathState::Dir));
    assert(probed.pending =~= panel.pending.drop_last().push(TaskView::Inspect { path }));
    assert(probed.pending.drop_last() =~= panel.pending.drop_last());
}

/// A name with a reserved character is refused when it is committed,
/// whatever the disk holds: one error is queued, the panel stays in Insert
/// mode, and nothing is asked of the disk.
pub proof fn lemma_reserved_name_refused(panel: PanelView)
    requires
        panel.mode == PanelMode::Insert,
        has_reserved(panel.edit_buffer),
    ensures
        panel.committed().errors == panel.errors.push(reserved_character()),
        panel.committed().mode == PanelMode::Insert,
        panel.committed().pending == panel.pending,
        panel.committed().entries == panel.entries,
        panel.committed().edit_buffer == panel.edit_buffer,
{
}

/// A name with `/` in it holds a reserved character.
pub proof fn lemma_slash_is_reserved(name: Seq<char>)
    requires
        name.contains('/'),
    ensures
        has_reserved(name),
{
    let i = choose|i: int| 0 <= i < name.len() && name[i] == '/';
    assert(crate::text::is_reserved(name[i]));
}

/// Committing a name that may be one asks the disk what is at the path the
/// entry would get. Where that path is the entry's own and is found to
/// exist, the commit is accepted without any rename: the panel returns to
/// Normal mode, no error is queued and the entries stay as they are.
pub proof fn lemma_same_name_accepted(panel: PanelView, found: PathState)
    requires
        panel.wf(),
        panel.mode == PanelMode::Insert,
        panel.pending.len() == 0,
        panel.cursor is Some,
        panel.edit_buffer.len() > 0,
        !has_reserved(panel.edit_buffer),
        path_join(panel.working_directory, panel.edit_buffer) == panel.entries[panel.cursor->0 as int],
        found != PathState::Missing,
    ensures
        panel.committed().request() == Some(
            RequestView::Probe { path: path_join(panel.working_directory, panel.edit_buffer) },
        ),
        panel.committed().resumed(ReplyView::Probed(found)).mode == PanelMode::Normal,
        panel.committed().resumed(ReplyView::Probed(found)).errors == panel.errors,
        panel.committed().resumed(ReplyView::Probed(found)).entries == panel.entries,
        panel.committed().resumed(ReplyView::Probed(found)).pending.len() == 0,
{
    let committed = panel.committed();
    let to = path_join(panel.working_directory, panel.edit_buffer);
    assert(committed.pending =~= seq![TaskView::Rename { index: panel.cursor->0, to }]);
    assert(committed.popped().pending =~= Seq::empty());
}

/// Committing a name that another existing entry has is refused: one error
/// is queued, the panel stays in Insert mode with its buffer, and the
/// entries stay as they are.
pub proof fn lemma_taken_name_refused(panel: PanelView, found: PathState)
    requires
        panel.wf(),
        panel.mode == PanelMode::Insert,
        panel.pending.len() == 0,
        panel.cursor is Some,
        panel.edit_buffer.len() > 0,
        !has_reserved(panel.edit_buffer),
        path_join(panel.working_directory, panel.edit_buffer) != panel.entries[panel.cursor->0 as int],
        found != PathState::Missing,
    ensures
        panel.committed().resumed(ReplyView::Probed(found)).errors == panel.errors.push(
            already_exists(path_join(panel.working_directory, panel.edit_buffer)),
        ),
        panel.committed().resumed(ReplyView::Probed(found)).mode == PanelMode::Insert,
        panel.committed().resumed(ReplyView::Probed(found)).edit_buffer == panel.edit_buffer,
        panel.committed().resumed(ReplyView::Probed(found)).entries == panel.entries,
        panel.committed().resumed(ReplyView::Probed(found)).pending.len() == 0,
{
    let committed = panel.committed();
    let to = path_join(panel.working_directory, panel.edit_buffer);
    assert(committed.pending =~= seq![TaskView::Rename { index: panel.cursor->0, to }]);
    assert(committed.popped().pending =~= Seq::empty());
}

/// The panel after `count` select moves down.
pub open spec fn selected_down(panel: PanelView, count: nat) -> PanelView
    decreases count,
{
    if count == 0 {
        panel
    } else {
        selected_down(panel, (count - 1) as nat).moved(false, true)
    }
}

/// Select moves span a range: after one or more select moves down from an
/// entry with no selection under way, the active range runs from that entry
/// to the cursor, which has moved down by as many entries as there were
/// moves, stopping at the last.
pub proof fn lemma_select_moves_span(panel: PanelView, count: nat)
    requires
        panel.wf(),
        panel.cursor is Some,
        panel.selection_start is None,
        panel.entries.len() <= usize::MAX,
        count > 0,
    ensures
        selected_down(panel, count).wf(),
        selected_down(panel, count).entries == panel.entries,
        selected_down(panel, count).selection_start == panel.cursor,
        selected_down(panel, count).range_low() == panel.cursor->0,
        selected_down(panel, count).range_high() == if panel.cursor->0 + count
            < panel.entries.len() {
            panel.cursor->0 + count
        } else {
            panel.entries.len() - 1
        },
        selected_down(panel, count).cursor == Some(selected_down(panel, count).range_high() as usize),
    decreases count,
{
    if count > 1 {
        lemma_select_moves_span(panel, (count - 1) as nat);
    } else {
        assert(selected_down(panel, 0) == panel);
    }
}

/// A plain move ends the selection: afterwards the active range is the one
/// entry under the cursor.
pub proof fn lemma_plain_move_collapses(panel: PanelView, up: bool)
    requires
        panel.wf(),
        panel.cursor is Some,
    ensures
        panel.moved(up, false).selection_start is None,
        panel.moved(up, false).cursor is Some,
        panel.moved(up, false).range_low() == panel.moved(up, false).cursor->0,
        panel.moved(up, false).range_high() == panel.moved(up, false).cursor->0,
{
}

/// Closing a panel that shares its row takes one panel out of that row,
/// leaves every other row as it is, and moves the focus to the neighbour on
/// the left, or keeps it on the first column.
pub proof fn lemma_close_in_shared_row(window: WindowView)
    requires
        window.wf(),
        window.panels[window.panel_focus_i as int].len() > 1,
    ensures
        window.closed().panels.len() == window.panels.len(),
        window.closed().panels[window.panel_focus_i as int].len()
            == window.panels[window.panel_focus_i as int].len() - 1,
        forall|i: int|
            0 <= i < window.panels.len() && i != window.panel_focus_i
                ==> window.closed().panels[i] == window.panels[i],
        window.closed().panel_focus_i == window.panel_focus_i,
        window.closed().panel_focus_j == if window.panel_focus_j > 0 {
            window.panel_focus_j - 1
        } else {
            0
        },
{
    crate::window::lemma_focus_within(window);
}

/// Closing the only panel of a window changes nothing.
pub proof fn lemma_close_last_panel(window: WindowView)
    requires
        window.wf(),
        window.panels.len() == 1,
        window.panels[0].len() == 1,
    ensures
        window.closed() == window,
{
    crate::window::lemma_focus_within(window);
}

/// With an entry selected, measuring its name leaves the horizontal cursor
/// at the lesser of where it was and the length of the name, in either mode,
/// and records that length.
pub proof fn lemma_refresh_bounds_cursor(panel: PanelView)
    requires
        panel.on_entry(),
        display_name(panel.entries[panel.cursor->0 as int]).len() <= usize::MAX,
    ensures
        panel.refreshed().current_entry_length == display_name(
            panel.entries[panel.cursor->0 as int],
        ).len(),
        panel.refreshed().cursor_offset == if panel.cursor_offset <= display_name(
            panel.entries[panel.cursor->0 as int],
        ).len() {
            panel.cursor_offset as int
        } else {
            display_name(panel.entries[panel.cursor->0 as int]).len() as int
        },
        panel.refreshed().cursor_offset <= display_name(
            panel.entries[panel.cursor->0 as int],
        ).len(),
{
}

/// A new file or directory is asked for only at a path that the listing of
/// the working directory shows to be free. Where the working directory could
/// not be read, nothing is asked for and one error is queued.
pub proof fn lemma_new_entry_gets_free_path(
    panel: PanelView,
    directory: bool,
    listing: Option<Seq<DirEntryView>>,
)
    requires
        panel.pending.len() > 0,
        panel.pending.last() == (TaskView::Create { directory }),
    ensures
        match listing {
            Some(children) => {
                let path = free_path(
                    path_join(
                        panel.working_directory,
                        if directory {
                            "NEWDIR"@
                        } else {
                            "NEWFILE"@
                        },
                    ),
                    listed_paths(children),
                );
                &&& !listed_paths(children).contains(path)
                &&& panel.resumed(ReplyView::Listing(listing)).request() == Some(
                    if directory {
                        RequestView::CreateDir { path }
                    } else {
                        RequestView::CreateFile { path }
                    },
                )
                &&& panel.resumed(ReplyView::Listing(listing)).errors == panel.errors
            },
            None => {
                &&& panel.resumed(ReplyView::Listing(listing)).errors == panel.errors.push(
                    list_failure(panel.working_directory),
                )
                &&& panel.resumed(ReplyView::Listing(listing)).pending.len() == panel.pending.len()
                    - 1 + if panel.pending.len() == 1 && panel.touched {
                    1int
                } else {
                    0int
                }
                &&& panel.pending.drop_last().is_prefix_of(
                    panel.resumed(ReplyView::Listing(listing)).pending,
                )
            },
        },
{
    let next = panel.resumed(ReplyView::Listing(listing));
    match listing {
        Some(children) => {
            let base = path_join(
                panel.working_directory,
                if directory {
                    "NEWDIR"@
                } else {
                    "NEWFILE"@
                },
            );
            lemma_free_path(base, listed_paths(children));
            assert(next.pending.last() == (TaskView::Make {
                path: free_path(base, listed_paths(children)),
                directory,
            }));
        },
        None => {
            assert(panel.pending.drop_last() =~= next.pending.subrange(
                0,
                panel.pending.len() - 1,
            ));
        },
    }
}

/// A copy is asked for only to a path that the listing of the working
/// directory shows to be free. Where the working directory could not be
/// read, nothing is copied and one error is queued.
pub proof fn lemma_copy_gets_free_path(
    panel: PanelView,
    from: Seq<char>,
    base: Seq<char>,
    directory: bool,
    listing: Option<Seq<DirEntryView>>,
)
    requires
        panel.pending.len() > 0,
        panel.pending.last() == (TaskView::Place { from, base, directory }),
    ensures
        match listing {
            Some(children) => {
                let to = free_path(base, listed_paths(children));
                &&& !listed_paths(children).contains(to)
                &&& panel.resumed(ReplyView::Listing(listing)).request() == Some(
                    if directory {
                        RequestView::CreateDir { path: to }
                    } else {
                        RequestView::CopyFile { from, to }
                    },
                )
                &&& panel.resumed(ReplyView::Listing(listing)).errors == panel.errors
            },
            None => {
                &&& panel.resumed(ReplyView::Listing(listing)).errors == panel.errors.push(
                    list_failure(panel.working_directory),
                )
                &&& panel.pending.drop_last().is_prefix_of(
                    panel.resumed(ReplyView::Listing(listing)).pending,
                )
                &&& panel.resumed(ReplyView::Listing(listing)).touched == (panel.touched
                    && panel.pending.len() > 1)
            },
        },
{
    let next = panel.resumed(ReplyView::Listing(listing));
    match listing {
        Some(children) => {
            lemma_free_path(base, listed_paths(children));
            let to = free_path(base, listed_paths(children));
            assert(next.pending.last() == if directory {
                TaskView::MakeDir { from, to, nested: false }
            } else {
                TaskView::CopyFile { from, to }
            });
        },
        None => {
            assert(panel.pending.drop_last() =~= next.pending.subrange(
                0,
                panel.pending.len() - 1,
            ));
        },
    }
}

/// No reply takes a waiting task off the stack: whatever is answered, the
/// tasks below the top are still there, in their order.
pub proof fn lemma_waiting_tasks_stay(panel: PanelView, reply: ReplyView)
    requires
        panel.pending.len() > 0,
    ensures
        panel.pending.drop_last().is_prefix_of(panel.resumed(reply).pending),
{
    lemma_reply_keeps(panel, reply);
    assert(panel.popped().pending == panel.pending.drop_last());
    if panel.resumed(reply) == panel {
        assert(panel.pending.drop_last() =~= panel.pending.subrange(
            0,
            panel.pending.len() - 1,
        ));
    }
}

/// The panel after a run of replies, each given to the panel as the one
/// before has left it.
pub open spec fn replayed(panel: PanelView, replies: Seq<ReplyView>) -> PanelView
    decreases replies.len(),
{
    if replies.len() == 0 {
        panel
    } else {
        replayed(panel.resumed(replies[0]), replies.drop_first())
    }
}

/// Whether `task` is a step of a recursive copy, or the reload that follows
/// the copy.
pub open spec fn in_walk(task: TaskView) -> bool {
    task is CopyTree || task is CopyFile || task is MakeDir || task is Reload
}

/// Whether all the panel still has to do is a recursive copy and the reload
/// that follows it.
pub open spec fn walking(panel: PanelView) -> bool {
    forall|i: int| 0 <= i < panel.pending.len() ==> in_walk(#[trigger] panel.pending[i])
}

/// Whether `reply` tells the panel that the copy of a file or the creation of
/// a directory, which it had asked for, has failed.
pub open spec fn fails(panel: PanelView, reply: ReplyView) -> bool {
    &&& panel.pending.len() > 0
    &&& (panel.pending.last() is CopyFile || panel.pending.last() is MakeDir)
    &&& reply matches ReplyView::Done(Err(_))
}

/// The number of replies in a run that report a failed copy or a failed
/// creation of a directory.
pub open spec fn failures(panel: PanelView, replies: Seq<ReplyView>) -> nat
    decreases replies.len(),
{
    if replies.len() == 0 {
        0
    } else {
        failures(panel.resumed(replies[0]), replies.drop_first()) + if fails(panel, replies[0]) {
            1nat
        } else {
            0nat
        }
    }
}

/// Every task that one level of a recursive copy schedules is a step of the
/// copy.
pub proof fn lemma_tree_tasks_in_walk(children: Seq<DirEntryView>, dest: Seq<char>)
    ensures
        forall|i: int|
            0 <= i < tree_tasks(children, dest).len() ==> in_walk(
                #[trigger] tree_tasks(children, dest)[i],
            ),
    decreases children.len(),
{
    if children.len() > 0 {
        lemma_tree_tasks_in_walk(children.drop_first(), dest);
        let rest = tree_tasks(children.drop_first(), dest);
        match child_task(children[0], dest) {
            Some(task) => {
                assert(in_walk(task));
                assert forall|i: int| 0 <= i < rest.push(task).len() implies in_walk(
                    #[trigger] rest.push(task)[i],
                ) by {
                    if i < rest.len() {
                        assert(rest.push(task)[i] == rest[i]);
                    }
                }
            },
            None => {},
        }
    }
}

/// One reply during a recursive copy: the panel is still copying afterwards,
/// and its queue has grown by one error if the reply reports a failed copy or
/// creation, and by none otherwise.
pub proof fn lemma_walk_step(panel: PanelView, reply: ReplyView)
    requires
        walking(panel),
    ensures
        walking(panel.resumed(reply)),
        panel.errors.is_prefix_of(panel.resumed(reply).errors),
        panel.resumed(reply).errors.len() == panel.errors.len() + if fails(panel, reply) {
            1nat
        } else {
            0nat
        },
{
    let next = panel.resumed(reply);
    lemma_replies_keep_errors(panel, reply);
    if panel.pending.len() > 0 {
        let top = panel.pending.last();
        let rest = panel.pending.drop_last();
        assert(in_walk(top));
        assert forall|i: int| 0 <= i < rest.len() implies in_walk(#[trigger] rest[i]) by {
            assert(rest[i] == panel.pending[i]);
        }
        match panel.popped().answered(top, reply) {
            Some(answered) => {
                if let TaskView::CopyTree { to, .. } = top {
                    if let ReplyView::Listing(Some(children)) = reply {
                        lemma_tree_tasks_in_walk(children, to);
                        let added = tree_tasks(children, to);
                        assert forall|i: int| 0 <= i < answered.pending.len() implies in_walk(
                            #[trigger] answered.pending[i],
                        ) by {
                            if i < rest.len() {
                                assert(answered.pending[i] == rest[i]);
                            } else {
                                assert(answered.pending[i] == added[i - rest.len()]);
                            }
                        }
                    }
                }
                assert forall|i: int| 0 <= i < answered.pending.len() implies in_walk(
                    #[trigger] answered.pending[i],
                ) by {
                    if i < rest.len() {
                        assert(answered.pending[i] == rest[i]);
                    }
                }
                assert(walking(answered));
                assert(walking(answered.settled()));
            },
            None => {},
        }
    }
}

/// A whole recursive copy, however many replies it takes and however many of
/// them report failures: at its end the queue holds the errors it held
/// before, and behind them exactly one error for each copy of a file and each
/// creation of a directory that has failed.
pub proof fn lemma_walk_counts_failures(panel: PanelView, replies: Seq<ReplyView>)
    requires
        walking(panel),
    ensures
        walking(replayed(panel, replies)),
        panel.errors.is_prefix_of(replayed(panel, replies).errors),
        replayed(panel, replies).errors.len() == panel.errors.len() + failures(panel, replies),
    decreases replies.len(),
{
    if replies.len() > 0 {
        let next = panel.resumed(replies[0]);
        lemma_walk_step(panel, replies[0]);
        lemma_walk_counts_failures(next, replies.drop_first());
        let last = replayed(panel, replies);
        assert(panel.errors =~= last.errors.subrange(0, panel.errors.len() as int)) by {
            assert(panel.errors == next.errors.subrange(0, panel.errors.len() as int));
            assert(next.errors == last.errors.subrange(0, next.errors.len() as int));
        }
    }
}

/// A task that waits on the stack is never dropped unanswered, whatever
/// happens to the tasks above it: after any run of replies it either still
/// stands where it stood, or some part of the run has brought it to the top,
/// where the next reply is its own.
pub proof fn lemma_waiting_task_gets_its_turn(panel: PanelView, replies: Seq<ReplyView>, at: int)
    requires
        0 <= at < panel.pending.len(),
    ensures
        ({
            let last = replayed(panel, replies);
            &&& last.pending.len() > at
            &&& last.pending[at] == panel.pending[at]
        }) || exists|count: int|
            0 <= count <= replies.len() && {
                let then = replayed(panel, #[trigger] replies.subrange(0, count));
                &&& then.pending.len() == at + 1
                &&& then.pending[at] == panel.pending[at]
            },
    decreases replies.len(),
{
    if panel.pending.len() == at + 1 {
        assert(replies.subrange(0, 0) =~= Seq::<ReplyView>::empty());
        let then = replayed(panel, replies.subrange(0, 0));
        assert(then == panel);
    } else if replies.len() > 0 {
        let next = panel.resumed(replies[0]);
        lemma_waiting_tasks_stay(panel, replies[0]);
        assert(next.pending.len() > at);
        assert(next.pending[at] == panel.pending.drop_last()[at]);
        lemma_waiting_task_gets_its_turn(next, replies.drop_first(), at);
        let last = replayed(panel, replies);
        if !(last.pending.len() > at && last.pending[at] == panel.pending[at]) {
            let rest = replies.drop_first();
            let count = choose|count: int|
                0 <= count <= rest.len() && {
                    let then = replayed(next, #[trigger] rest.subrange(0, count));
                    &&& then.pending.len() == at + 1
                    &&& then.pending[at] == next.pending[at]
                };
            let part = replies.subrange(0, count + 1);
            assert(part[0] == replies[0]);
            assert(part.drop_first() =~= rest.subrange(0, count));
            assert(replayed(panel, part) == replayed(next, rest.subrange(0, count)));
        }
    }
}

/// A directory as the caller finds it on the disk: its children, as a
/// listing shows them, and, for each child, what stands below it where it is
/// a directory.
pub struct Tree {
    pub children: Seq<DirEntryView>,
    /// `below[i]` is what stands below `children[i]`.
    pub below: Seq<Tree>,
}

/// The replies of a caller that finds `tree` at the source of a recursive
/// copy into the directory `to`, performs each primitive the panel asks for
/// in turn, and is told by `answers` which of them succeed: first the listing
/// of the source, then what each child's copy takes.
pub open spec fn tree_replies(
    tree: Tree,
    to: Seq<char>,
    answers: spec_fn(RequestView) -> Result<(), IoFailure>,
) -> Seq<ReplyView>
    decreases tree, tree.children.len() + 1,
{
    seq![ReplyView::Listing(Some(tree.children))] + children_replies(tree, to, answers, 0)
}

/// The replies that the copies of the children of `tree` from index `from`
/// on take: one outcome for a file; for a directory the outcome of its
/// creation and, where it was created, the replies for what stands below it;
/// none for a child that is not copied.
pub open spec fn children_replies(
    tree: Tree,
    to: Seq<char>,
    answers: spec_fn(RequestView) -> Result<(), IoFailure>,
    from: int,
) -> Seq<ReplyView>
    decreases tree, tree.children.len() - from,
{
    if 0 <= from < tree.children.len() {
        let later = children_replies(tree, to, answers, from + 1);
        match child_task(tree.children[from], to) {
            Some(TaskView::CopyFile { from: source, to: target }) => seq![
                ReplyView::Done(answers(RequestView::CopyFile { from: source, to: target })),
            ] + later,
            Some(TaskView::MakeDir { to: target, .. }) => {
                let outcome = answers(RequestView::CreateDir { path: target });
                if outcome is Err {
                    seq![ReplyView::Done(outcome)] + later
                } else if from < tree.below.len() {
                    seq![ReplyView::Done(outcome)] + tree_replies(tree.below[from], target, answers)
                        + later
                } else {
                    seq![ReplyView::Done(outcome), ReplyView::Listing(None)] + later
                }
            },
            _ => later,
        }
    } else {
        Seq::empty()
    }
}

/// The number of files of `tree` that a recursive copy into `to` copies: the
/// files whose own copy succeeds, below directories that were all created.
pub open spec fn files_copied(
    tree: Tree,
    to: Seq<char>,
    answers: spec_fn(RequestView) -> Result<(), IoFailure>,
    from: int,
) -> nat
    decreases tree, tree.children.len() - from,
{
    if 0 <= from < tree.children.len() {
        let later = files_copied(tree, to, answers, from + 1);
        match child_task(tree.children[from], to) {
            Some(TaskView::CopyFile { from: source, to: target }) => later + if answers(
                RequestView::CopyFile { from: source, to: target },
            ) is Ok {
                1nat
            } else {
                0nat
            },
            Some(TaskView::MakeDir { to: target, .. }) => {
                if answers(RequestView::CreateDir { path: target }) is Ok && from
                    < tree.below.len() {
                    later + files_copied(tree.below[from], target, answers, 0)
                } else {
                    later
                }
            },
            _ => later,
        }
    } else {
        0
    }
}

/// The number of directories of `tree` that a recursive copy into `to`
/// creates: the directories whose own creation succeeds, below directories
/// that were all created.
pub open spec fn dirs_created(
    tree: Tree,
    to: Seq<char>,
    answers: spec_fn(RequestView) -> Result<(), IoFailure>,
    from: int,
) -> nat
    decreases tree, tree.children.len() - from,
{
    if 0 <= from < tree.children.len() {
        let later = dirs_created(tree, to, answers, from + 1);
        match child_task(tree.children[from], to) {
            Some(TaskView::MakeDir { to: target, .. }) => {
                if answers(RequestView::CreateDir { path: target }) is Err {
                    later
                } else if from < tree.below.len() {
                    later + 1 + dirs_created(tree.below[from], target, answers, 0)
                } else {
                    later + 1
                }
            },
            _ => later,
        }
    } else {
        0
    }
}

/// The number of copies of files and creations of directories that fail in
/// a recursive copy of `tree` into `to`; what stands below a directory that
/// could not be created is not tried and does not count.
pub open spec fn failed_in(
    tree: Tree,
    to: Seq<char>,
    answers: spec_fn(RequestView) -> Result<(), IoFailure>,
    from: int,
) -> nat
    decreases tree, tree.children.len() - from,
{
    if 0 <= from < tree.children.len() {
        let later = failed_in(tree, to, answers, from + 1);
        match child_task(tree.children[from], to) {
            Some(TaskView::CopyFile { from: source, to: target }) => later + if answers(
                RequestView::CopyFile { from: source, to: target },
            ) is Err {
                1nat
            } else {
                0nat
            },
            Some(TaskView::MakeDir { to: target, .. }) => {
                if answers(RequestView::CreateDir { path: target }) is Err {
                    later + 1
                } else if from < tree.below.len() {
                    later + failed_in(tree.below[from], target, answers, 0)
                } else {
                    later
                }
            },
            _ => later,
        }
    } else {
        0
    }
}

/// Whether a child is a file with a name, which a recursive copy copies.
pub open spec fn is_file(child: DirEntryView) -> bool {
    child.state == PathState::File && crate::paths::path_file_name(child.path) is Some
}

/// Whether a child is a directory with a name, which a recursive copy
/// creates at the destination.
pub open spec fn is_dir(child: DirEntryView) -> bool {
    child.state == PathState::Dir && crate::paths::path_file_name(child.path) is Some
}

/// The number of files in `tree`, at any depth, counted from the child at
/// `from` on.
pub open spec fn files_in(tree: Tree, from: int) -> nat
    decreases tree, tree.children.len() - from,
{
    if 0 <= from < tree.children.len() {
        files_in(tree, from + 1) + if is_file(tree.children[from]) {
            1nat
        } else if is_dir(tree.children[from]) && from < tree.below.len() {
            files_in(tree.below[from], 0)
        } else {
            0nat
        }
    } else {
        0
    }
}

/// The number of directories in `tree`, at any depth, counted from the child
/// at `from` on.
pub open spec fn dirs_in(tree: Tree, from: int) -> nat
    decreases tree, tree.children.len() - from,
{
    if 0 <= from < tree.children.len() {
        dirs_in(tree, from + 1) + if is_dir(tree.children[from]) {
            if from < tree.below.len() {
                1 + dirs_in(tree.below[from], 0)
            } else {
                1nat
            }
        } else {
            0nat
        }
    } else {
        0
    }
}

/// Where every primitive succeeds, a recursive copy copies every file of the
/// tree and creates every directory of it, and nothing fails.
pub proof fn lemma_all_succeed(
    tree: Tree,
    to: Seq<char>,
    answers: spec_fn(RequestView) -> Result<(), IoFailure>,
    from: int,
)
    requires
        forall|request: RequestView| (#[trigger] answers(request)) is Ok,
    ensures
        files_copied(tree, to, answers, from) == files_in(tree, from),
        dirs_created(tree, to, answers, from) == dirs_in(tree, from),
        failed_in(tree, to, answers, from) == 0,
    decreases tree, tree.children.len() - from,
{
    if 0 <= from < tree.children.len() {
        lemma_all_succeed(tree, to, answers, from + 1);
        match child_task(tree.children[from], to) {
            Some(TaskView::CopyFile { from: source, to: target }) => {
                assert(answers(RequestView::CopyFile { from: source, to: target }) is Ok);
            },
            Some(TaskView::MakeDir { to: target, .. }) => {
                assert(answers(RequestView::CreateDir { path: target }) is Ok);
                if from < tree.below.len() {
                    lemma_all_succeed(tree.below[from], target, answers, 0);
                }
            },
            _ => {},
        }
    }
}

/// Whether `reply` tells the panel that the copy of a file, which it had
/// asked for, has succeeded.
pub open spec fn copies_file(panel: PanelView, reply: ReplyView) -> bool {
    &&& panel.pending.len() > 0
    &&& panel.pending.last() is CopyFile
    &&& reply matches ReplyView::Done(Ok(_))
}

/// Whether `reply` tells the panel that the creation of a directory of a
/// copy, which it had asked for, has succeeded.
pub open spec fn creates_dir(panel: PanelView, reply: ReplyView) -> bool {
    &&& panel.pending.len() > 0
    &&& panel.pending.last() is MakeDir
    &&& reply matches ReplyView::Done(Ok(_))
}

/// The number of replies in a run that report a copied file.
pub open spec fn copied(panel: PanelView, replies: Seq<ReplyView>) -> nat
    decreases replies.len(),
{
    if replies.len() == 0 {
        0
    } else {
        copied(panel.resumed(replies[0]), replies.drop_first()) + if copies_file(
            panel,
            replies[0],
        ) {
            1nat
        } else {
            0nat
        }
    }
}

/// The number of replies in a run that report a created directory.
pub open spec fn created(panel: PanelView, replies: Seq<ReplyView>) -> nat
    decreases replies.len(),
{
    if replies.len() == 0 {
        0
    } else {
        created(panel.resumed(replies[0]), replies.drop_first()) + if creates_dir(
            panel,
            replies[0],
        ) {
            1nat
        } else {
            0nat
        }
    }
}

/// A run of replies can be taken in two parts: the panel and the counts come
/// out the same.
pub proof fn lemma_replay_in_parts(panel: PanelView, first: Seq<ReplyView>, second: Seq<ReplyView>)
    ensures
        replayed(panel, first + second) == replayed(replayed(panel, first), second),
        copied(panel, first + second) == copied(panel, first) + copied(
            replayed(panel, first),
            second,
        ),
        created(panel, first + second) == created(panel, first) + created(
            replayed(panel, first),
            second,
        ),
        failures(panel, first + second) == failures(panel, first) + failures(
            replayed(panel, first),
            second,
        ),
    decreases first.len(),
{
    if first.len() == 0 {
        assert(first + second =~= second);
    } else {
        let whole = first + second;
        assert(whole[0] == first[0]);
        assert(whole.drop_first() =~= first.drop_first() + second);
        lemma_replay_in_parts(panel.resumed(first[0]), first.drop_first(), second);
    }
}

/// What one reply does to a panel and to the counts of a run.
proof fn lemma_replay_one(panel: PanelView, reply: ReplyView)
    ensures
        replayed(panel, seq![reply]) == panel.resumed(reply),
        copied(panel, seq![reply]) == if copies_file(panel, reply) {
            1nat
        } else {
            0nat
        },
        created(panel, seq![reply]) == if creates_dir(panel, reply) {
            1nat
        } else {
            0nat
        },
        failures(panel, seq![reply]) == if fails(panel, reply) {
            1nat
        } else {
            0nat
        },
{
    let one = seq![reply];
    assert(one[0] == reply);
    assert(one.drop_first() =~= Seq::<ReplyView>::empty());
    assert(replayed(panel.resumed(reply), one.drop_first()) == panel.resumed(reply));
    assert(copied(panel.resumed(reply), one.drop_first()) == 0);
    assert(created(panel.resumed(reply), one.drop_first()) == 0);
    assert(failures(panel.resumed(reply), one.drop_first()) == 0);
}

/// `panel` with its stack and its queue of errors replaced.
pub open spec fn cut(panel: PanelView, pending: Seq<TaskView>, errors: Seq<WalkedErrorView>)
    -> PanelView {
    PanelView { pending, errors, ..panel }
}

/// Whether `last` is `panel` with the stack cut back to `rest`, whatever
/// errors were queued meanwhile, and the reload scheduled that follows work
/// which has run out.
pub open spec fn back_at(panel: PanelView, rest: Seq<TaskView>, last: PanelView) -> bool {
    last == cut(panel, rest, last.errors).settled()
}

/// The answer to the copy of a file takes the task off the stack and changes
/// nothing but the queue of errors.
proof fn lemma_file_answered(
    panel: PanelView,
    waiting: Seq<TaskView>,
    source: Seq<char>,
    target: Seq<char>,
    outcome: Result<(), IoFailure>,
)
    requires
        panel.pending == waiting.push(TaskView::CopyFile { from: source, to: target }),
    ensures
        back_at(panel, waiting, panel.resumed(ReplyView::Done(outcome))),
        panel.resumed(ReplyView::Done(outcome)).errors.len() == panel.errors.len() + if outcome
            is Err {
            1nat
        } else {
            0nat
        },
{
    let task = TaskView::CopyFile { from: source, to: target };
    assert(panel.pending.drop_last() =~= waiting);
    let answered = panel.popped().answered(task, ReplyView::Done(outcome))->0;
    assert(answered =~= cut(panel, waiting, answered.errors));
}

/// The answer to the creation of a directory of a copy: where it failed, the
/// task leaves the stack and an error is queued; where it succeeded, the copy
/// of what the directory holds takes its place.
proof fn lemma_dir_answered(
    panel: PanelView,
    waiting: Seq<TaskView>,
    source: Seq<char>,
    target: Seq<char>,
    nested: bool,
    outcome: Result<(), IoFailure>,
)
    requires
        panel.pending == waiting.push(TaskView::MakeDir { from: source, to: target, nested }),
    ensures
        outcome is Err ==> back_at(panel, waiting, panel.resumed(ReplyView::Done(outcome))),
        outcome is Err ==> panel.resumed(ReplyView::Done(outcome)).errors.len()
            == panel.errors.len() + 1,
        outcome is Ok ==> panel.resumed(ReplyView::Done(outcome)) == cut(
            panel,
            waiting.push(TaskView::CopyTree { from: source, to: target }),
            panel.errors,
        ),
{
    let task = TaskView::MakeDir { from: source, to: target, nested };
    assert(panel.pending.drop_last() =~= waiting);
    let answered = panel.popped().answered(task, ReplyView::Done(outcome))->0;
    if outcome is Err {
        assert(answered =~= cut(panel, waiting, answered.errors));
    } else {
        assert(answered =~= cut(
            panel,
            waiting.push(TaskView::CopyTree { from: source, to: target }),
            panel.errors,
        ));
    }
}

/// The listing of a directory that is being copied puts the copies of its
/// children on the stack in its place; a directory that cannot be read is
/// passed over.
proof fn lemma_tree_opened(
    panel: PanelView,
    waiting: Seq<TaskView>,
    source: Seq<char>,
    target: Seq<char>,
    listing: Option<Seq<DirEntryView>>,
)
    requires
        panel.pending == waiting.push(TaskView::CopyTree { from: source, to: target }),
    ensures
        panel.resumed(ReplyView::Listing(listing)) == cut(
            panel,
            match listing {
                Some(children) => waiting + tree_tasks(children, target),
                None => waiting,
            },
            panel.errors,
        ).settled(),
{
    let task = TaskView::CopyTree { from: source, to: target };
    assert(panel.pending.drop_last() =~= waiting);
    let answered = panel.popped().answered(task, ReplyView::Listing(listing))->0;
    assert(answered =~= cut(
        panel,
        match listing {
            Some(children) => waiting + tree_tasks(children, target),
            None => waiting,
        },
        panel.errors,
    ));
}

/// The tasks for the children from `from` on are those for the children
/// after it, with the task of the child at `from`, if it has one, on top.
proof fn lemma_tasks_from(children: Seq<DirEntryView>, to: Seq<char>, from: int)
    requires
        0 <= from < children.len(),
    ensures
        tree_tasks(children.subrange(from, children.len() as int), to) == match child_task(
            children[from],
            to,
        ) {
            Some(task) => tree_tasks(children.subrange(from + 1, children.len() as int), to).push(
                task,
            ),
            None => tree_tasks(children.subrange(from + 1, children.len() as int), to),
        },
{
    let here = children.subrange(from, children.len() as int);
    assert(here.drop_first() =~= children.subrange(from + 1, children.len() as int));
    assert(here[0] == children[from]);
}

/// The copies of the children of a directory from index `from` on, taken to
/// their end: the stack is back at the tasks that waited below, and the
/// replies reported as many copied files and created directories as the
/// tree holds below directories that were created.
proof fn lemma_children_copied(
    tree: Tree,
    to: Seq<char>,
    answers: spec_fn(RequestView) -> Result<(), IoFailure>,
    from: int,
    panel: PanelView,
    rest: Seq<TaskView>,
)
    requires
        0 <= from <= tree.children.len(),
        panel.pending == rest + tree_tasks(
            tree.children.subrange(from, tree.children.len() as int),
            to,
        ),
    ensures
        back_at(
            panel,
            rest,
            replayed(panel.settled(), children_replies(tree, to, answers, from)),
        ),
        copied(panel.settled(), children_replies(tree, to, answers, from)) == files_copied(
            tree,
            to,
            answers,
            from,
        ),
        created(panel.settled(), children_replies(tree, to, answers, from)) == dirs_created(
            tree,
            to,
            answers,
            from,
        ),
        failures(panel.settled(), children_replies(tree, to, answers, from)) == failed_in(
            tree,
            to,
            answers,
            from,
        ),
        replayed(panel.settled(), children_replies(tree, to, answers, from)).errors.len()
            == panel.errors.len() + failed_in(tree, to, answers, from),
    decreases tree, tree.children.len() - from,
{
    let count = tree.children.len() as int;
    let replies = children_replies(tree, to, answers, from);
    if from == count {
        assert(tree.children.subrange(from, count) =~= Seq::<DirEntryView>::empty());
        assert(panel.pending =~= rest);
        assert(panel =~= cut(panel, rest, panel.errors));
    } else {
        lemma_tasks_from(tree.children, to, from);
        let later = children_replies(tree, to, answers, from + 1);
        let waiting = rest + tree_tasks(tree.children.subrange(from + 1, count), to);
        match child_task(tree.children[from], to) {
            Some(TaskView::CopyFile { from: source, to: target }) => {
                let task = TaskView::CopyFile { from: source, to: target };
                assert(panel.pending =~= waiting.push(task));
                let reply = ReplyView::Done(
                    answers(RequestView::CopyFile { from: source, to: target }),
                );
                lemma_file_answered(panel, waiting, source, target, reply->Done_0);
                let next = panel.resumed(reply);
                let answered = cut(panel, waiting, next.errors);
                lemma_children_copied(tree, to, answers, from + 1, answered, rest);
                lemma_replay_one(panel, reply);
                lemma_replay_in_parts(panel, seq![reply], later);
            },
            Some(TaskView::MakeDir { from: source, to: target, nested }) => {
                let task = TaskView::MakeDir { from: source, to: target, nested };
                assert(panel.pending =~= waiting.push(task));
                let outcome = answers(RequestView::CreateDir { path: target });
                let reply = ReplyView::Done(outcome);
                lemma_dir_answered(panel, waiting, source, target, nested, outcome);
                lemma_replay_one(panel, reply);
                let next = panel.resumed(reply);
                if outcome is Err {
                    let answered = cut(panel, waiting, next.errors);
                    lemma_children_copied(tree, to, answers, from + 1, answered, rest);
                    lemma_replay_in_parts(panel, seq![reply], later);
                } else {
                    lemma_dir_created_then_copied(
                        tree,
                        to,
                        answers,
                        from,
                        panel,
                        rest,
                        source,
                        target,
                    );
                }
            },
            _ => {
                lemma_children_copied(tree, to, answers, from + 1, panel, rest);
            },
        }
    }
}

/// The part of [`lemma_children_copied`] for a child directory that was
/// created: what stands below it is copied, and then its later siblings are.
proof fn lemma_dir_created_then_copied(
    tree: Tree,
    to: Seq<char>,
    answers: spec_fn(RequestView) -> Result<(), IoFailure>,
    from: int,
    panel: PanelView,
    rest: Seq<TaskView>,
    source: Seq<char>,
    target: Seq<char>,
)
    requires
        0 <= from < tree.children.len(),
        child_task(tree.children[from], to) == Some(
            TaskView::MakeDir { from: source, to: target, nested: true },
        ),
        answers(RequestView::CreateDir { path: target }) is Ok,
        panel.pending.len() > 0,
        panel.resumed(ReplyView::Done(answers(RequestView::CreateDir { path: target }))) == cut(
            panel,
            (rest + tree_tasks(
                tree.children.subrange(from + 1, tree.children.len() as int),
                to,
            )).push(TaskView::CopyTree { from: source, to: target }),
            panel.errors,
        ),
        creates_dir(panel, ReplyView::Done(answers(RequestView::CreateDir { path: target }))),
        !copies_file(panel, ReplyView::Done(answers(RequestView::CreateDir { path: target }))),
        !fails(panel, ReplyView::Done(answers(RequestView::CreateDir { path: target }))),
    ensures
        back_at(panel, rest, replayed(panel, children_replies(tree, to, answers, from))),
        copied(panel, children_replies(tree, to, answers, from)) == files_copied(
            tree,
            to,
            answers,
            from,
        ),
        created(panel, children_replies(tree, to, answers, from)) == dirs_created(
            tree,
            to,
            answers,
            from,
        ),
        failures(panel, children_replies(tree, to, answers, from)) == failed_in(
            tree,
            to,
            answers,
            from,
        ),
        replayed(panel, children_replies(tree, to, answers, from)).errors.len()
            == panel.errors.len() + failed_in(tree, to, answers, from),
    decreases tree, tree.children.len() - from, 0nat,
{
    let count = tree.children.len() as int;
    let replies = children_replies(tree, to, answers, from);
    let later = children_replies(tree, to, answers, from + 1);
    let waiting = rest + tree_tasks(tree.children.subrange(from + 1, count), to);
    let walk = TaskView::CopyTree { from: source, to: target };
    let reply = ReplyView::Done(answers(RequestView::CreateDir { path: target }));
    let created_dir = panel.resumed(reply);
    lemma_replay_one(panel, reply);
    assert(created_dir.pending == waiting.push(walk));
    if from < tree.below.len() {
        let inner = tree.below[from];
        let listing = ReplyView::Listing(Some(inner.children));
        let inside = children_replies(inner, target, answers, 0);
        lemma_tree_opened(created_dir, waiting, source, target, Some(inner.children));
        let opened = cut(created_dir, waiting + tree_tasks(inner.children, target), created_dir.errors);
        assert(inner.children.subrange(0, inner.children.len() as int) =~= inner.children);
        lemma_children_copied(inner, target, answers, 0, opened, waiting);
        lemma_replay_one(created_dir, listing);
        let done = replayed(opened.settled(), inside);
        let resumed = cut(opened, waiting, done.errors);
        lemma_children_copied(tree, to, answers, from + 1, resumed, rest);
        let tree_part = tree_replies(inner, target, answers);
        assert(tree_part == seq![listing] + inside);
        assert(replies == seq![reply] + tree_part + later);
        lemma_replay_in_parts(panel, seq![reply] + tree_part, later);
        lemma_replay_in_parts(panel, seq![reply], tree_part);
        lemma_replay_in_parts(created_dir, seq![listing], inside);
        assert(replayed(panel, seq![reply] + tree_part) == done);
        let last = replayed(panel, replies);
        assert(last == replayed(resumed.settled(), later));
        assert(cut(resumed, rest, last.errors) == cut(panel, rest, last.errors));
    } else {
        let listing = ReplyView::Listing(None);
        lemma_tree_opened(created_dir, waiting, source, target, None);
        let opened = cut(created_dir, waiting, created_dir.errors);
        lemma_children_copied(tree, to, answers, from + 1, opened, rest);
        lemma_replay_one(created_dir, listing);
        let head = seq![reply, listing];
        assert(head =~= seq![reply] + seq![listing]);
        assert(replies == head + later);
        lemma_replay_in_parts(panel, head, later);
        lemma_replay_in_parts(panel, seq![reply], seq![listing]);
        let last = replayed(panel, replies);
        assert(last == replayed(opened.settled(), later));
        assert(cut(opened, rest, last.errors) == cut(panel, rest, last.errors));
    }
}

/// No run of replies takes an error out of the queue.
pub proof fn lemma_replay_keeps_errors(panel: PanelView, replies: Seq<ReplyView>)
    ensures
        panel.errors.is_prefix_of(replayed(panel, replies).errors),
    decreases replies.len(),
{
    if replies.len() > 0 {
        let next = panel.resumed(replies[0]);
        lemma_replies_keep_errors(panel, replies[0]);
        lemma_replay_keeps_errors(next, replies.drop_first());
        let last = replayed(panel, replies);
        assert(panel.errors =~= last.errors.subrange(0, panel.errors.len() as int)) by {
            assert(panel.errors == next.errors.subrange(0, panel.errors.len() as int));
            assert(next.errors == last.errors.subrange(0, next.errors.len() as int));
        }
    } else {
        assert(panel.errors =~= panel.errors.subrange(0, panel.errors.len() as int));
    }
}

/// A whole recursive copy of `tree` into `to`, with a caller that performs
/// every primitive asked for. When the last reply is in, the stack is back
/// at the tasks that waited below the copy, so the copy has come to its end
/// whatever failed on the way. One file was reported copied for each file of
/// the tree whose copy succeeded below directories that were created, and
/// one directory was reported created for each directory whose creation
/// succeeded below directories that were created. The queue holds the errors
/// it held before and, behind them, exactly one for each copy and each
/// creation that failed. Where nothing failed, every file and every
/// directory of the tree was reported copied and no error was queued.
pub proof fn lemma_walk_copies_tree(
    panel: PanelView,
    source: Seq<char>,
    to: Seq<char>,
    tree: Tree,
    answers: spec_fn(RequestView) -> Result<(), IoFailure>,
)
    requires
        panel.pending.len() > 0,
        panel.pending.last() == (TaskView::CopyTree { from: source, to }),
    ensures
        back_at(panel, panel.pending.drop_last(), replayed(panel, tree_replies(tree, to, answers))),
        copied(panel, tree_replies(tree, to, answers)) == files_copied(tree, to, answers, 0),
        created(panel, tree_replies(tree, to, answers)) == dirs_created(tree, to, answers, 0),
        failures(panel, tree_replies(tree, to, answers)) == failed_in(tree, to, answers, 0),
        replayed(panel, tree_replies(tree, to, answers)).errors.len() == panel.errors.len()
            + failed_in(tree, to, answers, 0),
        panel.errors.is_prefix_of(replayed(panel, tree_replies(tree, to, answers)).errors),
        (forall|request: RequestView| (#[trigger] answers(request)) is Ok) ==> {
            &&& copied(panel, tree_replies(tree, to, answers)) == files_in(tree, 0)
            &&& created(panel, tree_replies(tree, to, answers)) == dirs_in(tree, 0)
            &&& replayed(panel, tree_replies(tree, to, answers)).errors == panel.errors
        },
{
    lemma_replay_keeps_errors(panel, tree_replies(tree, to, answers));
    if forall|request: RequestView| (#[trigger] answers(request)) is Ok {
        lemma_all_succeed(tree, to, answers, 0);
    }
    let rest = panel.pending.drop_last();
    let listing = ReplyView::Listing(Some(tree.children));
    let inside = children_replies(tree, to, answers, 0);
    assert(panel.pending =~= rest.push(TaskView::CopyTree { from: source, to }));
    lemma_tree_opened(panel, rest, source, to, Some(tree.children));
    let opened = cut(panel, rest + tree_tasks(tree.children, to), panel.errors);
    assert(tree.children.subrange(0, tree.children.len() as int) =~= tree.children);
    lemma_children_copied(tree, to, answers, 0, opened, rest);
    lemma_replay_one(panel, listing);
    lemma_replay_in_parts(panel, seq![listing], inside);
    let last = replayed(panel, tree_replies(tree, to, answers));
    assert(cut(opened, rest, last.errors) == cut(panel, rest, last.errors));
}

} // verus!
