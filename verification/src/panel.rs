//! One directory-browsing view: its listing, cursor, selection, edit buffer,
//! error queue, and the state machine that key events and disk replies drive.

use crate::config::{Config, ConfigView, InsertAction, PanelAction};
use crate::disk::{
    listed_paths, paths_of, DirEntry, DirEntryView, IoFailure, PathState, Reply, ReplyView,
    Request, RequestView,
};
use crate::errors::{
    list_failed, list_failure, already_exists, already_exists_error, copy_failed, copy_failure, create_failed,
    create_failure, empty_name, empty_name_error, nested_dir_failed, nested_dir_failure,
    remove_failed, remove_failure, rename_failed, rename_failure, reserved_character,
    reserved_character_error, WalkedError, WalkedErrorView,
};
use crate::keys::KeyEvent;
use crate::paths::{
    display_name, file_name, free_path, join, new_path, parent, path_file_name, path_join,
    path_parent, same_text,
};
use crate::table::{row_above, row_below, table_offset, table_selected, table_selected_column};
use crate::tasks::{copy_recursively, tree_tasks, After, AfterView, Task, TaskView};
use crate::text::{contains_reserved, has_reserved, insert_char, remove_char};
use ratatui::widgets::TableState;
use vstd::prelude::*;

verus! {

/// The least width of the column in front of the entry names.
pub const TABLE_HEADER_MIN_WIDTH: u16 = 8;

/// Whether a panel moves through its listing or edits a name.
#[derive(Debug, Clone, Copy, PartialEq, Eq, Structural)]
pub enum PanelMode {
    Normal,
    Insert,
}

/// What a panel reports to its window after a step.
#[derive(Debug, Clone, Copy, PartialEq, Eq, Structural)]
pub struct PanelFrameData {
    /// The disk was changed: every other panel should read its directory again.
    pub should_refresh: bool,
    /// The user asked to end the session.
    pub quit: bool,
}

/// One panel.
#[derive(Debug)]
pub struct Panel {
    /// The failures not yet acknowledged; while there are any, the next key
    /// press only dismisses them.
    pub errors: Vec<WalkedError>,
    /// The selected row and column and the scroll offset of the table.
    pub table_state: TableState,
    pub mode: PanelMode,
    pub left: u16,
    pub top: u16,
    pub bottom: u16,
    /// The paths of the children of the working directory, in the order read.
    pub entries: Vec<String>,
    pub working_directory: String,
    /// The name being typed in Insert mode.
    pub edit_buffer: String,
    /// The horizontal position of the cursor, in characters.
    pub cursor_offset: u16,
    /// The number of characters in the selected entry's name.
    pub current_entry_length: usize,
    pub header_width: u16,
    /// The other end of the selection, where one is under way.
    pub selection_start: Option<usize>,
    /// The work on the disk still to do; the last task is the next to run.
    pub pending: Vec<Task>,
    /// Whether the work under way has changed the working directory.
    pub touched: bool,
}

/// The mathematical value of a [`Panel`].
#[verifier::ext_equal]
pub struct PanelView {
    pub errors: Seq<WalkedErrorView>,
    /// The index of the selected entry.
    pub cursor: Option<usize>,
    pub column: Option<usize>,
    pub offset: usize,
    pub mode: PanelMode,
    pub left: u16,
    pub top: u16,
    pub bottom: u16,
    pub entries: Seq<Seq<char>>,
    pub working_directory: Seq<char>,
    pub edit_buffer: Seq<char>,
    pub cursor_offset: u16,
    pub current_entry_length: usize,
    pub header_width: u16,
    pub selection_start: Option<usize>,
    pub pending: Seq<TaskView>,
    pub touched: bool,
}

impl View for Panel {
    type V = PanelView;

    open spec fn view(&self) -> PanelView {
        PanelView {
            errors: self.errors.deep_view(),
            cursor: table_selected(self.table_state),
            column: table_selected_column(self.table_state),
            offset: table_offset(self.table_state),
            mode: self.mode,
            left: self.left,
            top: self.top,
            bottom: self.bottom,
            entries: self.entries.deep_view(),
            working_directory: self.working_directory@,
            edit_buffer: self.edit_buffer@,
            cursor_offset: self.cursor_offset,
            current_entry_length: self.current_entry_length,
            header_width: self.header_width,
            selection_start: self.selection_start,
            pending: self.pending.deep_view(),
            touched: self.touched,
        }
    }
}

impl DeepView for Panel {
    type V = PanelView;

    open spec fn deep_view(&self) -> PanelView {
        self@
    }
}

/// The greatest index at which `path` stands in `entries`, if it is there.
pub open spec fn last_position(entries: Seq<Seq<char>>, path: Seq<char>) -> Option<usize>
    decreases entries.len(),
{
    if entries.len() == 0 {
        None
    } else if entries.last() == path {
        Some((entries.len() - 1) as usize)
    } else {
        last_position(entries.drop_last(), path)
    }
}

/// The tasks that copy each of `sources` into the directory `dir`, those
/// without a name left out, the first source's task last.
pub open spec fn paste_tasks(sources: Seq<Seq<char>>, dir: Seq<char>) -> Seq<TaskView>
    decreases sources.len(),
{
    if sources.len() == 0 {
        Seq::empty()
    } else {
        let rest = paste_tasks(sources.drop_first(), dir);
        match path_file_name(sources[0]) {
            Some(name) => rest.push(
                TaskView::Transfer { from: sources[0], base: path_join(dir, name) },
            ),
            None => rest,
        }
    }
}

/// Nothing to report.
pub open spec fn quiet() -> PanelFrameData {
    PanelFrameData { should_refresh: false, quit: false }
}

impl PanelView {
    /// The invariant of a panel: cursor and selection point at entries, the
    /// horizontal cursor stays within the text it moves over, and work that
    /// has changed the directory is followed by a reload.
    pub open spec fn wf(self) -> bool {
        &&& self.positioned()
        &&& (self.pending.len() == 0 ==> !self.touched)
    }

    /// The part of the invariant that speaks of cursor and selection: both
    /// point at entries, and the horizontal cursor stays within the text it
    /// moves over.
    pub open spec fn positioned(self) -> bool {
        &&& (self.cursor matches Some(i) ==> i < self.entries.len())
        &&& (self.entries.len() > 0 ==> self.cursor is Some)
        &&& (self.selection_start matches Some(s) ==> s < self.entries.len())
        &&& (self.mode == PanelMode::Normal ==> self.cursor_offset <= self.current_entry_length)
        &&& (self.mode == PanelMode::Insert ==> self.cursor_offset <= self.edit_buffer.len())
    }

    /// A panel just opened on `dir`: nothing listed yet, and the first
    /// reading of the directory scheduled.
    pub open spec fn fresh(dir: Seq<char>) -> PanelView {
        PanelView {
            errors: Seq::empty(),
            cursor: None,
            column: None,
            offset: 0,
            mode: PanelMode::Normal,
            left: 2,
            top: 2,
            bottom: 1,
            entries: Seq::empty(),
            working_directory: dir,
            edit_buffer: Seq::empty(),
            cursor_offset: 0,
            current_entry_length: 0,
            header_width: TABLE_HEADER_MIN_WIDTH,
            selection_start: None,
            pending: seq![TaskView::Reload { after: AfterView::First, changed: false }],
            touched: false,
        }
    }

    /// The primitive the caller is to perform next, if any.
    pub open spec fn request(self) -> Option<RequestView> {
        if self.pending.len() == 0 {
            None
        } else {
            Some(self.pending.last().request(self.working_directory))
        }
    }

    /// The panel with `cursor` selected; selecting nothing resets the scroll
    /// offset.
    pub open spec fn with_cursor(self, cursor: Option<usize>) -> PanelView {
        PanelView {
            cursor,
            offset: if cursor is None {
                0
            } else {
                self.offset
            },
            ..self
        }
    }

    /// `cursor` brought into a listing of `count` entries: nothing where the
    /// listing is empty, the first entry where nothing was selected, the last
    /// entry where the cursor was beyond it.
    pub open spec fn clamp(cursor: Option<usize>, count: nat) -> Option<usize> {
        if count == 0 {
            None
        } else {
            match cursor {
                Some(i) => if i < count {
                    Some(i)
                } else {
                    Some((count - 1) as usize)
                },
                None => Some(0),
            }
        }
    }

    /// The panel with the cursor brought into the listing.
    pub open spec fn clamped(self) -> PanelView {
        self.with_cursor(Self::clamp(self.cursor, self.entries.len()))
    }

    /// Whether the cursor stands on an entry of the listing.
    pub open spec fn on_entry(self) -> bool {
        self.cursor matches Some(i) && i < self.entries.len()
    }

    /// The panel after the selected entry's name has been measured: its
    /// length in characters is recorded, and a horizontal cursor beyond the
    /// end of the name is pulled back to it, whatever the mode. With no entry
    /// selected nothing changes.
    pub open spec fn refreshed(self) -> PanelView {
        if self.on_entry() {
            let length = display_name(self.entries[self.cursor->0 as int]).len() as usize;
            PanelView {
                current_entry_length: length,
                cursor_offset: if self.cursor_offset > length {
                    length as u16
                } else {
                    self.cursor_offset
                },
                ..self
            }
        } else {
            self
        }
    }

    /// The panel after the listing was read: replaced by `listing` where
    /// there is one, unchanged where the directory could not be read.
    pub open spec fn listed(self, listing: Option<Seq<DirEntryView>>) -> PanelView {
        match listing {
            Some(children) => PanelView {
                entries: listed_paths(children),
                header_width: TABLE_HEADER_MIN_WIDTH,
                ..self
            },
            None => self,
        }
    }

    /// The panel back in Normal mode with the edit buffer emptied, the
    /// selected entry's name measured again, and the horizontal cursor
    /// within the recorded length of the name.
    pub open spec fn left_insert(self) -> PanelView {
        let measured = PanelView {
            mode: PanelMode::Normal,
            column: None,
            edit_buffer: Seq::empty(),
            ..self
        }.refreshed();
        PanelView {
            cursor_offset: if measured.cursor_offset > measured.current_entry_length {
                measured.current_entry_length as u16
            } else {
                measured.cursor_offset
            },
            ..measured
        }
    }

    /// The panel with one more task on its stack.
    pub open spec fn scheduled(self, task: TaskView) -> PanelView {
        PanelView { pending: self.pending.push(task), ..self }
    }

    /// The panel with one more error in its queue.
    pub open spec fn failed(self, error: WalkedErrorView) -> PanelView {
        PanelView { errors: self.errors.push(error), ..self }
    }

    /// The panel once the work under way has run out: where it changed the
    /// directory, one reload follows, which reports the change.
    pub open spec fn settled(self) -> PanelView {
        if self.pending.len() == 0 && self.touched {
            PanelView {
                touched: false,
                pending: seq![TaskView::Reload { after: AfterView::Keep, changed: true }],
                ..self
            }
        } else {
            self
        }
    }

    /// The first index of the active range: the lesser of cursor and
    /// selection start, or the cursor alone.
    pub open spec fn range_low(self) -> int {
        match (self.cursor, self.selection_start) {
            (Some(c), Some(s)) => if c <= s {
                c as int
            } else {
                s as int
            },
            (Some(c), None) => c as int,
            (None, _) => 0,
        }
    }

    /// The last index of the active range: the greater of cursor and
    /// selection start, or the cursor alone.
    pub open spec fn range_high(self) -> int {
        match (self.cursor, self.selection_start) {
            (Some(c), Some(s)) => if c <= s {
                s as int
            } else {
                c as int
            },
            (Some(c), None) => c as int,
            (None, _) => -1,
        }
    }

    /// The paths of the entries in the active range, in order.
    pub open spec fn range_paths(self) -> Seq<Seq<char>> {
        self.entries.subrange(self.range_low(), self.range_high() + 1)
    }

    /// The panel after one step up or down. A plain move drops the
    /// selection; a select move starts one at the cursor unless one is under
    /// way.
    pub open spec fn moved(self, up: bool, select: bool) -> PanelView {
        let target = if up {
            row_above(self.cursor, 1)
        } else {
            row_below(self.cursor, 1)
        };
        PanelView {
            selection_start: if select {
                if self.selection_start is None {
                    self.cursor
                } else {
                    self.selection_start
                }
            } else {
                None
            },
            ..self
        }.with_cursor(Self::clamp(Some(target), self.entries.len()))
    }

    /// The tasks for the entries of the active range, the first entry's task
    /// last: removals, or else duplications.
    pub open spec fn range_tasks(self, remove: bool) -> Seq<TaskView> {
        let low = self.range_low();
        let high = self.range_high();
        Seq::new(
            (high - low + 1) as nat,
            |k: int|
                if remove {
                    TaskView::Remove { path: self.entries[high - k] }
                } else {
                    TaskView::Transfer { from: self.entries[high - k], base: self.entries[high - k] }
                },
        )
    }

    /// The panel that entered Insert mode on the selected entry: the buffer
    /// holds the entry's name and the cursor stands at its end.
    pub open spec fn inserting(self) -> PanelView {
        if self.entries.len() == 0 {
            self
        } else {
            let name = match self.cursor {
                Some(i) => if i < self.entries.len() {
                    display_name(self.entries[i as int])
                } else {
                    self.edit_buffer
                },
                None => self.edit_buffer,
            };
            PanelView {
                mode: PanelMode::Insert,
                edit_buffer: name,
                column: Some(1),
                cursor_offset: if name.len() > u16::MAX {
                    u16::MAX
                } else {
                    name.len() as u16
                },
                ..self
            }
        }
    }

    /// The panel after an action of Normal mode, before the selected name is
    /// measured again.
    pub open spec fn acted(self, action: PanelAction, clipboard: Seq<Seq<char>>) -> PanelView {
        match action {
            PanelAction::DirWalk => match self.cursor {
                Some(i) => if i < self.entries.len() {
                    self.scheduled(TaskView::Enter { index: i, dir: self.entries[i as int] })
                } else {
                    self
                },
                None => self,
            },
            PanelAction::DirUp => self.went_up(),
            PanelAction::Up => self.moved(true, false),
            PanelAction::SelectUp => self.moved(true, true),
            PanelAction::Down => self.moved(false, false),
            PanelAction::SelectDown => self.moved(false, true),
            PanelAction::Left => if self.cursor_offset > 0 {
                PanelView { cursor_offset: (self.cursor_offset - 1) as u16, ..self }
            } else {
                self
            },
            PanelAction::Right => if self.cursor_offset < self.current_entry_length
                && self.cursor_offset < u16::MAX {
                PanelView { cursor_offset: (self.cursor_offset + 1) as u16, ..self }
            } else {
                self
            },
            PanelAction::NewFile => self.scheduled(TaskView::Create { directory: false }),
            PanelAction::NewDirectory => self.scheduled(TaskView::Create { directory: true }),
            PanelAction::Duplicate => if self.cursor is Some {
                PanelView {
                    selection_start: None,
                    pending: self.pending + self.range_tasks(false),
                    ..self
                }
            } else {
                self
            },
            PanelAction::Copy => self,
            PanelAction::Paste => PanelView {
                pending: self.pending + paste_tasks(clipboard, self.working_directory),
                ..self
            },
            PanelAction::Remove => if self.cursor is Some {
                PanelView {
                    selection_start: None,
                    pending: self.pending + self.range_tasks(true),
                    ..self
                }
            } else {
                self
            },
            PanelAction::InsertMode => self.inserting(),
            PanelAction::Quit => self,
        }
    }

    /// The panel after a whole action of Normal mode.
    pub open spec fn normal(self, action: PanelAction, clipboard: Seq<Seq<char>>) -> PanelView {
        if action == PanelAction::Quit {
            self
        } else {
            self.acted(action, clipboard).refreshed()
        }
    }

    /// The clipboard after an action of Normal mode: copying replaces it by
    /// the paths of the active range, nothing else touches it.
    pub open spec fn clipboard_after(self, action: PanelAction, clipboard: Seq<Seq<char>>) -> Seq<
        Seq<char>,
    > {
        if action == PanelAction::Copy && self.cursor is Some {
            self.range_paths()
        } else {
            clipboard
        }
    }

    /// The panel after the step to the parent directory: where the working
    /// directory has a parent, that becomes the working directory and its
    /// reading is scheduled.
    pub open spec fn went_up(self) -> PanelView {
        match path_parent(self.working_directory) {
            Some(dir) => PanelView { working_directory: dir, ..self }.scheduled(
                TaskView::Reload { after: AfterView::First, changed: false },
            ),
            None => self,
        }
    }

    /// The panel after the selected entry was found to be `found`: where it
    /// is a directory, that becomes the working directory and its reading is
    /// scheduled.
    pub open spec fn walked(self, index: usize, found: PathState) -> PanelView {
        if index < self.entries.len() && found == PathState::Dir {
            PanelView { working_directory: self.entries[index as int], ..self }.scheduled(
                TaskView::Reload { after: AfterView::First, changed: false },
            )
        } else {
            self
        }
    }

    /// The panel after an action of Insert mode.
    pub open spec fn edited(self, action: InsertAction) -> PanelView {
        match action {
            InsertAction::Commit => self.committed(),
            InsertAction::Backspace => if self.cursor_offset > 0 {
                PanelView {
                    edit_buffer: self.edit_buffer.remove(self.cursor_offset - 1),
                    cursor_offset: (self.cursor_offset - 1) as u16,
                    ..self
                }
            } else {
                self
            },
            InsertAction::Type(c) => if self.cursor_offset < u16::MAX {
                PanelView {
                    edit_buffer: self.edit_buffer.insert(self.cursor_offset as int, c),
                    cursor_offset: (self.cursor_offset + 1) as u16,
                    ..self
                }
            } else {
                self
            },
        }
    }

    /// The panel after the edit buffer was committed. An empty name and a
    /// name with a reserved character are refused with an error. Any other
    /// name is checked against the disk next, for the selected entry; with
    /// nothing selected there is nothing to rename, and the panel just
    /// leaves Insert mode.
    pub open spec fn committed(self) -> PanelView {
        if self.edit_buffer.len() == 0 {
            self.failed(empty_name())
        } else if has_reserved(self.edit_buffer) {
            self.failed(reserved_character())
        } else {
            match self.cursor {
                Some(i) => if i < self.entries.len() {
                    self.scheduled(
                        TaskView::Rename {
                            index: i,
                            to: path_join(self.working_directory, self.edit_buffer),
                        },
                    )
                } else {
                    self.left_insert()
                },
                None => self.left_insert(),
            }
        }
    }

    /// The panel after a key event. While work is pending the key is
    /// ignored. While errors are queued, a press dismisses them and does
    /// nothing else. Otherwise the key is looked up for the panel's mode and
    /// its action applied.
    pub open spec fn keyed(self, key: KeyEvent, clipboard: Seq<Seq<char>>, config: ConfigView)
        -> PanelView {
        if self.pending.len() > 0 {
            self
        } else if self.errors.len() > 0 {
            if key.spec_is_press() {
                PanelView { errors: Seq::empty(), ..self }
            } else {
                self
            }
        } else {
            match self.mode {
                PanelMode::Normal => match config.panel_action(key) {
                    Some(action) => self.normal(action, clipboard),
                    None => self.refreshed(),
                },
                PanelMode::Insert => match config.insert_action(key) {
                    Some(action) => self.edited(action),
                    None => self,
                },
            }
        }
    }

    /// The clipboard after a key event.
    pub open spec fn clipboard_keyed(
        self,
        key: KeyEvent,
        clipboard: Seq<Seq<char>>,
        config: ConfigView,
    ) -> Seq<Seq<char>> {
        if self.pending.len() == 0 && self.errors.len() == 0 && self.mode == PanelMode::Normal {
            match config.panel_action(key) {
                Some(action) => self.clipboard_after(action, clipboard),
                None => clipboard,
            }
        } else {
            clipboard
        }
    }

    /// What a key event reports: only the quit action reports anything.
    pub open spec fn key_report(self, key: KeyEvent, config: ConfigView) -> PanelFrameData {
        PanelFrameData {
            should_refresh: false,
            quit: self.pending.len() == 0 && self.errors.len() == 0 && self.mode
                == PanelMode::Normal && config.panel_action(key) == Some(PanelAction::Quit),
        }
    }

    /// The panel after the working directory was read again for a task that
    /// asked for `after`.
    pub open spec fn reloaded(self, after: AfterView, listing: Option<Seq<DirEntryView>>)
        -> PanelView {
        let read = self.listed(listing);
        let count = read.entries.len();
        let anchored = PanelView {
            selection_start: match read.selection_start {
                Some(s) => if s < count {
                    Some(s)
                } else {
                    None
                },
                None => None,
            },
            ..read
        };
        match after {
            AfterView::Keep => anchored.clamped().refreshed(),
            AfterView::First => PanelView { selection_start: None, ..read }.with_cursor(
                Self::clamp(Some(0), count),
            ).refreshed(),
            AfterView::Select(path) => match last_position(read.entries, path) {
                Some(i) => PanelView {
                    mode: PanelMode::Insert,
                    edit_buffer: Seq::empty(),
                    cursor_offset: 0,
                    column: Some(1),
                    ..anchored
                }.with_cursor(Some(i)).refreshed(),
                None => anchored.clamped().refreshed(),
            },
        }
    }

    /// The panel after `task`, already taken off the stack, was answered by
    /// a listing; nothing where the task did not ask for one. A new entry or
    /// a copy gets a path that the listing of the working directory shows to
    /// be free; where the working directory could not be read, no path is
    /// known to be free, so an error is queued and nothing is created.
    pub open spec fn listing_answered(self, task: TaskView, listing: Option<Seq<DirEntryView>>)
        -> Option<PanelView> {
        match task {
            TaskView::Reload { after, .. } => Some(self.reloaded(after, listing)),
            TaskView::Create { directory } => {
                let base = path_join(
                    self.working_directory,
                    if directory {
                        "NEWDIR"@
                    } else {
                        "NEWFILE"@
                    },
                );
                Some(
                    match listing {
                        Some(children) => self.scheduled(
                            TaskView::Make {
                                path: free_path(base, listed_paths(children)),
                                directory,
                            },
                        ),
                        None => self.failed(list_failure(self.working_directory)),
                    },
                )
            },
            TaskView::Place { from, base, directory } => Some(
                match listing {
                    Some(children) => {
                        let to = free_path(base, listed_paths(children));
                        PanelView { touched: true, ..self }.scheduled(
                            if directory {
                                TaskView::MakeDir { from, to, nested: false }
                            } else {
                                TaskView::CopyFile { from, to }
                            },
                        )
                    },
                    None => self.failed(list_failure(self.working_directory)),
                },
            ),
            TaskView::CopyTree { to, .. } => Some(
                match listing {
                    Some(children) => PanelView {
                        pending: self.pending + tree_tasks(children, to),
                        ..self
                    },
                    None => self,
                },
            ),
            TaskView::Inspect { path } => Some(
                match listing {
                    Some(children) => PanelView { touched: true, ..self }.scheduled(
                        TaskView::RemoveDir { path, recursive: children.len() > 0 },
                    ),
                    None => self,
                },
            ),
            _ => None,
        }
    }

    /// The panel after `task`, already taken off the stack, was answered by
    /// what a path was found to be; nothing where the task did not ask for
    /// that.
    pub open spec fn probe_answered(self, task: TaskView, found: PathState) -> Option<PanelView> {
        match task {
            TaskView::Enter { index, .. } => Some(self.walked(index, found)),
            TaskView::Transfer { from, base } => Some(
                match found {
                    PathState::File => self.scheduled(
                        TaskView::Place { from, base, directory: false },
                    ),
                    PathState::Dir => self.scheduled(
                        TaskView::Place { from, base, directory: true },
                    ),
                    _ => self,
                },
            ),
            TaskView::Remove { path } => Some(
                match found {
                    PathState::File => PanelView { touched: true, ..self }.scheduled(
                        TaskView::RemoveFile { path },
                    ),
                    PathState::Dir => self.scheduled(TaskView::Inspect { path }),
                    _ => self,
                },
            ),
            TaskView::Rename { index, to } => Some(
                if index >= self.entries.len() {
                    self
                } else if found == PathState::Missing {
                    self.scheduled(
                        TaskView::Move { index, from: self.entries[index as int], to },
                    )
                } else if to == self.entries[index as int] {
                    self.left_insert()
                } else {
                    self.failed(already_exists(to))
                },
            ),
            _ => None,
        }
    }

    /// The panel after `task`, already taken off the stack, was answered by
    /// the outcome of its primitive; nothing where the task did not ask for
    /// one.
    pub open spec fn done_answered(self, task: TaskView, outcome: Result<(), IoFailure>)
        -> Option<PanelView> {
        match task {
            TaskView::Make { path, directory } => Some(
                match outcome {
                    Ok(_) => self.scheduled(
                        TaskView::Reload { after: AfterView::Select(path), changed: true },
                    ),
                    Err(failure) => self.failed(create_failure(path, directory, failure)),
                },
            ),
            TaskView::CopyFile { from, to } => Some(
                match outcome {
                    Ok(_) => self,
                    Err(failure) => self.failed(copy_failure(from, to, failure)),
                },
            ),
            TaskView::MakeDir { from, to, nested } => Some(
                match outcome {
                    Ok(_) => self.scheduled(TaskView::CopyTree { from, to }),
                    Err(failure) => self.failed(
                        if nested {
                            nested_dir_failure(to, failure)
                        } else {
                            create_failure(to, true, failure)
                        },
                    ),
                },
            ),
            TaskView::RemoveFile { path } => Some(
                match outcome {
                    Ok(_) => self,
                    Err(failure) => self.failed(remove_failure(path, false, failure)),
                },
            ),
            TaskView::RemoveDir { path, .. } => Some(
                match outcome {
                    Ok(_) => self,
                    Err(failure) => self.failed(remove_failure(path, true, failure)),
                },
            ),
            TaskView::Move { index, from, to } => Some(
                match outcome {
                    Ok(_) => if index < self.entries.len() {
                        PanelView {
                            entries: self.entries.update(index as int, to),
                            ..self
                        }.left_insert()
                    } else {
                        self.left_insert()
                    },
                    Err(failure) => self.failed(rename_failure(from, to, failure)),
                },
            ),
            _ => None,
        }
    }

    /// The panel after `task`, already taken off the stack, was answered by
    /// `reply`; nothing where the reply is not of the kind the task asked for.
    pub open spec fn answered(self, task: TaskView, reply: ReplyView) -> Option<PanelView> {
        match reply {
            ReplyView::Listing(listing) => self.listing_answered(task, listing),
            ReplyView::Probed(found) => self.probe_answered(task, found),
            ReplyView::Done(outcome) => self.done_answered(task, outcome),
        }
    }

    /// Whether answering `task` with `reply` changed what is on the disk in
    /// a way that other panels must learn of at once.
    pub open spec fn announces(task: TaskView, reply: ReplyView) -> bool {
        match (task, reply) {
            (TaskView::Reload { changed, .. }, ReplyView::Listing(_)) => changed,
            (TaskView::Move { .. }, ReplyView::Done(outcome)) => outcome is Ok,
            _ => false,
        }
    }

    /// The panel without the task on top of its stack.
    pub open spec fn popped(self) -> PanelView {
        PanelView { pending: self.pending.drop_last(), ..self }
    }

    /// The panel after the caller's reply to its request. The task on top of
    /// the stack takes a reply of its kind and leaves the stack; a reply of
    /// another kind, or one that nothing asked for, changes nothing.
    pub open spec fn resumed(self, reply: ReplyView) -> PanelView {
        if self.pending.len() == 0 {
            self
        } else {
            match self.popped().answered(self.pending.last(), reply) {
                Some(next) => next.settled(),
                None => self,
            }
        }
    }

    /// What the reply reports to the window.
    pub open spec fn resume_report(self, reply: ReplyView) -> PanelFrameData {
        PanelFrameData {
            should_refresh: self.pending.len() > 0 && self.popped().answered(
                self.pending.last(),
                reply,
            ) is Some && Self::announces(self.pending.last(), reply),
            quit: false,
        }
    }
}


impl Panel {
    /// A panel opened on `current_dir`. Its listing is empty until the
    /// caller has answered the first request.
    pub fn new(current_dir: String) -> (panel: Panel)
        ensures
            panel@ == PanelView::fresh(current_dir@),
            panel@.wf(),
    {
        let mut pending: Vec<Task> = Vec::new();
        pending.push(Task::Reload { after: After::First, changed: false });
        let panel = Panel {
            errors: Vec::new(),
            table_state: TableState::new(),
            mode: PanelMode::Normal,
            left: 2,
            top: 2,
            bottom: 1,
            entries: Vec::new(),
            working_directory: current_dir,
            edit_buffer: String::new(),
            cursor_offset: 0,
            current_entry_length: 0,
            header_width: TABLE_HEADER_MIN_WIDTH,
            selection_start: None,
            pending,
            touched: false,
        };
        assert(panel@ =~= PanelView::fresh(current_dir@));
        panel
    }

    /// The primitive the caller is to perform next; none while the panel
    /// waits for a key.
    pub fn next_request(&self) -> (request: Option<Request>)
        ensures
            request.deep_view() == self@.request(),
    {
        let count = self.pending.len();
        if count == 0 {
            None
        } else {
            Some(self.pending[count - 1].request(self.working_directory.as_str()))
        }
    }

    /// Measures the selected entry's name and pulls a horizontal cursor
    /// beyond its end back to it, in either mode. With no entry selected
    /// nothing changes.
    pub fn refresh_cursor(&mut self)
        ensures
            final(self)@ == old(self)@.refreshed(),
            old(self)@.wf() ==> final(self)@.wf(),
    {
        if let Some(i) = self.table_state.selected() {
            if i < self.entries.len() {
                self.current_entry_length = match file_name(self.entries[i].as_str()) {
                    Some(name) => name.as_str().unicode_len(),
                    None => 0,
                };
                if self.cursor_offset as usize > self.current_entry_length {
                    self.cursor_offset = self.current_entry_length as u16;
                }
            }
        }
        assert(self@ =~= old(self)@.refreshed());
    }

    /// Brings the cursor into the listing.
    fn clamp_cursor(&mut self)
        ensures
            final(self)@ == old(self)@.clamped(),
    {
        let count = self.entries.len();
        if count == 0 {
            self.table_state.select(None);
        } else {
            match self.table_state.selected() {
                Some(i) => {
                    if i >= count {
                        self.table_state.select(Some(count - 1));
                    }
                },
                None => {
                    self.table_state.select(Some(0));
                },
            }
        }
        assert(self@ =~= old(self)@.clamped());
    }

    /// Takes in what the caller read of the working directory: the listing
    /// replaces the entries; where the directory could not be read they stay.
    pub fn read_working_dir(&mut self, listing: Option<Vec<DirEntry>>)
        ensures
            final(self)@ == old(self)@.listed(listing.deep_view()),
    {
        if let Some(children) = listing {
            self.entries = paths_of(&children);
            self.header_width = TABLE_HEADER_MIN_WIDTH;
        }
        assert(self@ =~= old(self)@.listed(listing.deep_view()));
    }

    /// Steps to the parent of the working directory, if it has one, and
    /// schedules its reading.
    pub fn parent(&mut self) -> (went: bool)
        ensures
            final(self)@ == old(self)@.went_up(),
            went == (path_parent(old(self)@.working_directory) is Some),
            old(self)@.wf() ==> final(self)@.wf(),
    {
        match parent(self.working_directory.as_str()) {
            Some(dir) => {
                self.working_directory = dir;
                self.schedule(Task::Reload { after: After::First, changed: false });
                true
            },
            None => false,
        }
    }

    /// Steps into the entry at `current_entry`, which the caller found to be
    /// `found`: a directory becomes the working directory and its reading is
    /// scheduled.
    pub fn walk(&mut self, current_entry: usize, found: PathState) -> (went: bool)
        ensures
            final(self)@ == old(self)@.walked(current_entry, found),
            went == (current_entry < old(self)@.entries.len() && found == PathState::Dir),
            old(self)@.wf() ==> final(self)@.wf(),
    {
        if current_entry < self.entries.len() && found == PathState::Dir {
            self.working_directory = self.entries[current_entry].clone();
            self.schedule(Task::Reload { after: After::First, changed: false });
            true
        } else {
            false
        }
    }

    fn schedule(&mut self, task: Task)
        ensures
            final(self)@ == old(self)@.scheduled(task@),
    {
        self.pending.push(task);
        assert(self@ =~= old(self)@.scheduled(task@));
    }

    fn fail(&mut self, error: WalkedError)
        ensures
            final(self)@ == old(self)@.failed(error@),
    {
        self.errors.push(error);
        assert(self@ =~= old(self)@.failed(error@));
    }
}

impl Panel {
    /// Moves the cursor one entry up or down; see [`PanelView::moved`].
    fn step(&mut self, up: bool, select: bool)
        ensures
            final(self)@ == old(self)@.moved(up, select),
    {
        if select {
            if self.selection_start.is_none() {
                self.selection_start = self.table_state.selected();
            }
        } else {
            self.selection_start = None;
        }
        if up {
            self.table_state.scroll_up_by(1);
        } else {
            self.table_state.scroll_down_by(1);
        }
        self.clamp_cursor();
        assert(self@ =~= old(self)@.moved(up, select));
    }

    /// The first and the last index of the active range.
    fn range(&self) -> (ends: (usize, usize))
        requires
            self@.wf(),
            self@.cursor is Some,
        ensures
            ends.0 == self@.range_low(),
            ends.1 == self@.range_high(),
            ends.0 <= ends.1 < self.entries.len(),
    {
        let cursor = match self.table_state.selected() {
            Some(i) => i,
            None => 0,
        };
        let anchor = match self.selection_start {
            Some(s) => s,
            None => cursor,
        };
        if cursor <= anchor {
            (cursor, anchor)
        } else {
            (anchor, cursor)
        }
    }

    /// Schedules the removal, or else the duplication, of each entry in the
    /// active range, and drops the selection.
    fn schedule_range(&mut self, remove: bool)
        requires
            old(self)@.wf(),
            old(self)@.cursor is Some,
        ensures
            final(self)@ == (PanelView {
                selection_start: None,
                pending: old(self)@.pending + old(self)@.range_tasks(remove),
                ..old(self)@
            }),
    {
        let (low, high) = self.range();
        let ghost before = self@;
        let ghost tasks = before.range_tasks(remove);
        let mut i: usize = high + 1;
        while i > low
            invariant
                low <= i <= high + 1,
                high < self.entries.len(),
                low == before.range_low(),
                high == before.range_high(),
                tasks == before.range_tasks(remove),
                self@ == (PanelView {
                    pending: before.pending + tasks.subrange(0, high + 1 - i),
                    ..before
                }),
            decreases i,
        {
            i -= 1;
            let ghost so_far = self@.pending;
            let path = self.entries[i].clone();
            let task = if remove {
                Task::Remove { path }
            } else {
                Task::Transfer { from: path.clone(), base: path }
            };
            assert(task@ == tasks[high - i]);
            self.pending.push(task);
            assert(self@.pending =~= so_far.push(task@));
            assert(self@.pending =~= before.pending + tasks.subrange(0, high + 1 - i));
        }
        self.selection_start = None;
        assert(tasks.subrange(0, high + 1 - low) =~= tasks);
    }

    /// Replaces the clipboard by the paths of the active range.
    fn copy_range(&self, clipboard: &mut Vec<String>)
        requires
            self@.wf(),
            self@.cursor is Some,
        ensures
            final(clipboard).deep_view() == self@.range_paths(),
    {
        let (low, high) = self.range();
        clipboard.clear();
        let mut i: usize = low;
        while i <= high
            invariant
                low <= i <= high + 1,
                high < self.entries.len(),
                clipboard.deep_view() == self@.entries.subrange(low as int, i as int),
            decreases high + 1 - i,
        {
            let ghost so_far = clipboard.deep_view();
            clipboard.push(self.entries[i].clone());
            assert(clipboard.deep_view() =~= so_far.push(self@.entries[i as int]));
            i += 1;
            assert(clipboard.deep_view() =~= self@.entries.subrange(low as int, i as int));
        }
    }

    /// Schedules the copy of each clipboard entry into the working directory.
    fn schedule_paste(&mut self, clipboard: &Vec<String>)
        ensures
            final(self)@ == (PanelView {
                pending: old(self)@.pending + paste_tasks(
                    clipboard.deep_view(),
                    old(self)@.working_directory,
                ),
                ..old(self)@
            }),
    {
        let ghost before = self@;
        let ghost all = clipboard.deep_view();
        let mut i: usize = clipboard.len();
        assert(all.subrange(i as int, all.len() as int) =~= Seq::<Seq<char>>::empty());
        assert(self@ =~= (PanelView { pending: before.pending + Seq::empty(), ..before }));
        while i > 0
            invariant
                i <= clipboard.len(),
                all == clipboard.deep_view(),
                self@ == (PanelView {
                    pending: before.pending + paste_tasks(
                        all.subrange(i as int, all.len() as int),
                        before.working_directory,
                    ),
                    ..before
                }),
            decreases i,
        {
            i -= 1;
            let ghost tail = all.subrange(i as int, all.len() as int);
            assert(tail.drop_first() =~= all.subrange(i + 1, all.len() as int));
            assert(tail[0] == clipboard[i as int]@);
            let ghost so_far = self@.pending;
            match file_name(clipboard[i].as_str()) {
                Some(name) => {
                    let task = Task::Transfer {
                        from: clipboard[i].clone(),
                        base: join(self.working_directory.as_str(), name.as_str()),
                    };
                    self.pending.push(task);
                    assert(self@.pending =~= so_far.push(task@));
                },
                None => {},
            }
            assert(self@.pending =~= before.pending + paste_tasks(tail, before.working_directory));
        }
        assert(all.subrange(0, all.len() as int) =~= all);
    }

    /// Enters Insert mode on the selected entry.
    fn enter_insert(&mut self)
        ensures
            final(self)@ == old(self)@.inserting(),
    {
        if self.entries.len() > 0 {
            self.mode = PanelMode::Insert;
            if let Some(i) = self.table_state.selected() {
                if i < self.entries.len() {
                    self.edit_buffer = match file_name(self.entries[i].as_str()) {
                        Some(name) => name,
                        None => String::new(),
                    };
                }
            }
            self.table_state.select_column(Some(1));
            let length = self.edit_buffer.as_str().unicode_len();
            self.cursor_offset = if length > u16::MAX as usize {
                u16::MAX
            } else {
                length as u16
            };
        }
        assert(self@ =~= old(self)@.inserting());
    }

    /// Applies an action of Normal mode.
    pub fn act(&mut self, action: PanelAction, clipboard: &mut Vec<String>) -> (result:
        PanelFrameData)
        requires
            old(self)@.wf(),
            old(self)@.mode == PanelMode::Normal,
        ensures
            final(self)@ == old(self)@.normal(action, old(clipboard).deep_view()),
            final(clipboard).deep_view() == old(self)@.clipboard_after(
                action,
                old(clipboard).deep_view(),
            ),
            result == (PanelFrameData {
                should_refresh: false,
                quit: action == PanelAction::Quit,
            }),
            final(self)@.wf(),
    {
        match action {
            PanelAction::DirWalk => {
                if let Some(i) = self.table_state.selected() {
                    if i < self.entries.len() {
                        let dir = self.entries[i].clone();
                        self.schedule(Task::Enter { index: i, dir });
                    }
                }
            },
            PanelAction::DirUp => {
                self.parent();
            },
            PanelAction::Up => self.step(true, false),
            PanelAction::SelectUp => self.step(true, true),
            PanelAction::Down => self.step(false, false),
            PanelAction::SelectDown => self.step(false, true),
            PanelAction::Left => {
                if self.cursor_offset > 0 {
                    self.cursor_offset -= 1;
                }
            },
            PanelAction::Right => {
                if (self.cursor_offset as usize) < self.current_entry_length && self.cursor_offset
                    < u16::MAX {
                    self.cursor_offset += 1;
                }
            },
            PanelAction::NewFile => self.schedule(Task::Create { directory: false }),
            PanelAction::NewDirectory => self.schedule(Task::Create { directory: true }),
            PanelAction::Duplicate => {
                if self.table_state.selected().is_some() {
                    self.schedule_range(false);
                }
            },
            PanelAction::Copy => {
                if self.table_state.selected().is_some() {
                    self.copy_range(clipboard);
                }
            },
            PanelAction::Paste => self.schedule_paste(clipboard),
            PanelAction::Remove => {
                if self.table_state.selected().is_some() {
                    self.schedule_range(true);
                }
            },
            PanelAction::InsertMode => self.enter_insert(),
            PanelAction::Quit => {
                return PanelFrameData { should_refresh: false, quit: true };
            },
        }
        assert(self@ =~= old(self)@.acted(action, old(clipboard).deep_view()));
        self.refresh_cursor();
        PanelFrameData { should_refresh: false, quit: false }
    }
}

impl Panel {
    /// Leaves Insert mode and empties the edit buffer.
    fn leave_insert(&mut self)
        ensures
            final(self)@ == old(self)@.left_insert(),
    {
        self.mode = PanelMode::Normal;
        self.table_state.select_column(None);
        self.edit_buffer = String::new();
        self.refresh_cursor();
        if self.cursor_offset as usize > self.current_entry_length {
            self.cursor_offset = self.current_entry_length as u16;
        }
        assert(self@ =~= old(self)@.left_insert());
    }

    /// Checks the edit buffer and, where it may be a name, schedules the
    /// look at the disk that decides on the rename.
    fn commit(&mut self)
        ensures
            final(self)@ == old(self)@.committed(),
    {
        if self.edit_buffer.as_str().unicode_len() == 0 {
            self.fail(empty_name_error());
        } else if contains_reserved(self.edit_buffer.as_str()) {
            self.fail(reserved_character_error());
        } else {
            match self.table_state.selected() {
                Some(i) => {
                    if i < self.entries.len() {
                        let to = join(self.working_directory.as_str(), self.edit_buffer.as_str());
                        self.schedule(Task::Rename { index: i, to });
                    } else {
                        self.leave_insert();
                    }
                },
                None => self.leave_insert(),
            }
        }
    }

    /// Applies an action of Insert mode.
    pub fn edit(&mut self, action: InsertAction)
        requires
            old(self)@.wf(),
            old(self)@.mode == PanelMode::Insert,
        ensures
            final(self)@ == old(self)@.edited(action),
            final(self)@.wf(),
    {
        match action {
            InsertAction::Commit => self.commit(),
            InsertAction::Backspace => {
                if self.cursor_offset > 0 {
                    self.edit_buffer = remove_char(
                        self.edit_buffer.as_str(),
                        (self.cursor_offset - 1) as usize,
                    );
                    self.cursor_offset -= 1;
                }
            },
            InsertAction::Type(c) => {
                if self.cursor_offset < u16::MAX {
                    self.edit_buffer = insert_char(
                        self.edit_buffer.as_str(),
                        self.cursor_offset as usize,
                        c,
                    );
                    self.cursor_offset += 1;
                }
            },
        }
        assert(self@ =~= old(self)@.edited(action));
    }

    /// Handles one key event. While work on the disk is pending the key is
    /// ignored. While errors are queued, a press dismisses them and nothing
    /// else happens. Otherwise the key's action for the panel's mode is
    /// applied; it may schedule work, which [`Panel::next_request`] then
    /// hands out.
    pub fn process_key_event(
        &mut self,
        key_event: KeyEvent,
        clipboard: &mut Vec<String>,
        config: &Config,
    ) -> (result: PanelFrameData)
        requires
            old(self)@.wf(),
        ensures
            final(self)@ == old(self)@.keyed(key_event, old(clipboard).deep_view(), config@),
            final(clipboard).deep_view() == old(self)@.clipboard_keyed(
                key_event,
                old(clipboard).deep_view(),
                config@,
            ),
            result == old(self)@.key_report(key_event, config@),
            final(self)@.wf(),
    {
        let mut result = PanelFrameData { should_refresh: false, quit: false };
        if self.pending.len() > 0 {
        } else if self.errors.len() > 0 {
            if key_event.is_press() {
                self.errors = Vec::new();
                assert(self@ =~= (PanelView { errors: Seq::empty(), ..old(self)@ }));
            }
        } else {
            match self.mode {
                PanelMode::Normal => match config.panel_action(&key_event) {
                    Some(action) => {
                        result = self.act(action, clipboard);
                    },
                    None => self.refresh_cursor(),
                },
                PanelMode::Insert => match config.insert_action(&key_event) {
                    Some(action) => self.edit(action),
                    None => {},
                },
            }
        }
        result
    }
}

/// A position found in a listing lies within it.
pub proof fn lemma_last_position_within(entries: Seq<Seq<char>>, path: Seq<char>)
    ensures
        last_position(entries, path) matches Some(i) ==> i < entries.len(),
    decreases entries.len(),
{
    if entries.len() > 0 && entries.last() != path {
        lemma_last_position_within(entries.drop_last(), path);
    }
}

/// The greatest index at which `path` stands in `entries`, if it is there.
pub fn find_last(entries: &Vec<String>, path: &str) -> (found: Option<usize>)
    ensures
        found == last_position(entries.deep_view(), path@),
{
    let ghost all = entries.deep_view();
    let mut i: usize = entries.len();
    assert(all.subrange(0, i as int) =~= all);
    while i > 0
        invariant
            i <= entries.len(),
            all == entries.deep_view(),
            last_position(all, path@) == last_position(all.subrange(0, i as int), path@),
        decreases i,
    {
        let ghost head = all.subrange(0, i as int);
        i -= 1;
        assert(head.last() == all[i as int]);
        assert(head.drop_last() =~= all.subrange(0, i as int));
        if same_text(entries[i].as_str(), path) {
            return Some(i);
        }
    }
    None
}


impl Panel {
    /// Takes in the working directory as read again and places the cursor
    /// as `after` asks.
    fn reload(&mut self, after: After, listing: Option<Vec<DirEntry>>)
        ensures
            final(self)@ == old(self)@.reloaded(after@, listing.deep_view()),
    {
        self.read_working_dir(listing);
        let ghost read = self@;
        let count = self.entries.len();
        match after {
            After::Keep => {
                self.drop_lost_anchor();
                self.clamp_cursor();
            },
            After::First => {
                self.selection_start = None;
                if count == 0 {
                    self.table_state.select(None);
                } else {
                    self.table_state.select_first();
                }
            },
            After::Select(path) => {
                self.drop_lost_anchor();
                match find_last(&self.entries, path.as_str()) {
                    Some(i) => {
                        self.mode = PanelMode::Insert;
                        self.edit_buffer = String::new();
                        self.cursor_offset = 0;
                        self.table_state.select_column(Some(1));
                        self.table_state.select(Some(i));
                    },
                    None => self.clamp_cursor(),
                }
            },
        }
        self.refresh_cursor();
        assert(self@ =~= old(self)@.reloaded(after@, listing.deep_view()));
    }

    /// Drops the selection start where it no longer points at an entry.
    fn drop_lost_anchor(&mut self)
        ensures
            final(self)@ == (PanelView {
                selection_start: match old(self)@.selection_start {
                    Some(s) => if s < old(self)@.entries.len() {
                        Some(s)
                    } else {
                        None
                    },
                    None => None,
                },
                ..old(self)@
            }),
    {
        if let Some(s) = self.selection_start {
            if s >= self.entries.len() {
                self.selection_start = None;
            }
        }
    }

    /// Schedules the reload that follows work which changed the directory,
    /// once that work has run out.
    fn settle(&mut self)
        ensures
            final(self)@ == old(self)@.settled(),
    {
        if self.pending.len() == 0 && self.touched {
            self.touched = false;
            self.pending.push(Task::Reload { after: After::Keep, changed: true });
            assert(self@ =~= old(self)@.settled());
        }
    }

    /// Schedules one more reading of the working directory, after which the
    /// cursor is brought back into the listing.
    pub fn schedule_refresh(&mut self)
        ensures
            final(self)@ == old(self)@.scheduled(
                TaskView::Reload { after: AfterView::Keep, changed: false },
            ),
            old(self)@.wf() ==> final(self)@.wf(),
    {
        self.schedule(Task::Reload { after: After::Keep, changed: false });
    }

    /// Answers `task` with a listing; hands the task back where it did not
    /// ask for one.
    fn on_listing(&mut self, task: Task, listing: Option<Vec<DirEntry>>) -> (handled: Result<
        bool,
        Task,
    >)
        ensures
            match handled {
                Ok(changed) => Some(final(self)@) == old(self)@.listing_answered(
                    task@,
                    listing.deep_view(),
                ) && changed == PanelView::announces(task@, ReplyView::Listing(listing.deep_view())),
                Err(same) => same@ == task@ && final(self)@ == old(self)@
                    && old(self)@.listing_answered(task@, listing.deep_view()) is None,
            },
    {
        match task {
            Task::Reload { after, changed } => {
                self.reload(after, listing);
                Ok(changed)
            },
            Task::Create { directory } => {
                let name = if directory {
                    "NEWDIR"
                } else {
                    "NEWFILE"
                };
                match listing {
                    Some(children) => {
                        let base = join(self.working_directory.as_str(), name);
                        let path = new_path(base.as_str(), &paths_of(&children));
                        self.schedule(Task::Make { path, directory });
                    },
                    None => self.fail(list_failed(self.working_directory.as_str())),
                }
                Ok(false)
            },
            Task::Place { from, base, directory } => {
                match listing {
                    Some(children) => {
                        let to = new_path(base.as_str(), &paths_of(&children));
                        self.touched = true;
                        if directory {
                            self.schedule(Task::MakeDir { from, to, nested: false });
                        } else {
                            self.schedule(Task::CopyFile { from, to });
                        }
                    },
                    None => self.fail(list_failed(self.working_directory.as_str())),
                }
                Ok(false)
            },
            Task::CopyTree { to, .. } => {
                match listing {
                    Some(children) => {
                        copy_recursively(&children, to.as_str(), &mut self.pending);
                    },
                    None => {},
                }
                Ok(false)
            },
            Task::Inspect { path } => {
                match listing {
                    Some(children) => {
                        self.touched = true;
                        self.schedule(Task::RemoveDir { path, recursive: children.len() > 0 });
                    },
                    None => {},
                }
                Ok(false)
            },
            other => Err(other),
        }
    }

    /// Answers `task` with what its path was found to be; hands the task
    /// back where it did not ask for that.
    fn on_probe(&mut self, task: Task, found: PathState) -> (handled: Result<bool, Task>)
        ensures
            match handled {
                Ok(changed) => Some(final(self)@) == old(self)@.probe_answered(task@, found)
                    && !changed,
                Err(same) => same@ == task@ && final(self)@ == old(self)@
                    && old(self)@.probe_answered(task@, found) is None,
            },
    {
        match task {
            Task::Enter { index, .. } => {
                self.walk(index, found);
                Ok(false)
            },
            Task::Transfer { from, base } => {
                match found {
                    PathState::File => self.schedule(Task::Place { from, base, directory: false }),
                    PathState::Dir => self.schedule(Task::Place { from, base, directory: true }),
                    _ => {},
                }
                Ok(false)
            },
            Task::Remove { path } => {
                match found {
                    PathState::File => {
                        self.touched = true;
                        self.schedule(Task::RemoveFile { path });
                    },
                    PathState::Dir => self.schedule(Task::Inspect { path }),
                    _ => {},
                }
                Ok(false)
            },
            Task::Rename { index, to } => {
                if index >= self.entries.len() {
                } else if found == PathState::Missing {
                    let from = self.entries[index].clone();
                    self.schedule(Task::Move { index, from, to });
                } else if same_text(to.as_str(), self.entries[index].as_str()) {
                    self.leave_insert();
                } else {
                    self.fail(already_exists_error(to.as_str()));
                }
                Ok(false)
            },
            other => Err(other),
        }
    }

    /// Answers `task` with the outcome of its primitive; hands the task back
    /// where it did not ask for one.
    fn on_done(&mut self, task: Task, outcome: Result<(), IoFailure>) -> (handled: Result<
        bool,
        Task,
    >)
        ensures
            match handled {
                Ok(changed) => Some(final(self)@) == old(self)@.done_answered(task@, outcome)
                    && changed == PanelView::announces(task@, ReplyView::Done(outcome)),
                Err(same) => same@ == task@ && final(self)@ == old(self)@
                    && old(self)@.done_answered(task@, outcome) is None,
            },
    {
        match task {
            Task::Make { path, directory } => {
                match outcome {
                    Ok(_) => self.schedule(
                        Task::Reload { after: After::Select(path), changed: true },
                    ),
                    Err(failure) => self.fail(create_failed(path.as_str(), directory, failure)),
                }
                Ok(false)
            },
            Task::CopyFile { from, to } => {
                match outcome {
                    Ok(_) => {},
                    Err(failure) => self.fail(copy_failed(from.as_str(), to.as_str(), failure)),
                }
                Ok(false)
            },
            Task::MakeDir { from, to, nested } => {
                match outcome {
                    Ok(_) => self.schedule(Task::CopyTree { from, to }),
                    Err(failure) => {
                        if nested {
                            self.fail(nested_dir_failed(to.as_str(), failure));
                        } else {
                            self.fail(create_failed(to.as_str(), true, failure));
                        }
                    },
                }
                Ok(false)
            },
            Task::RemoveFile { path } => {
                match outcome {
                    Ok(_) => {},
                    Err(failure) => self.fail(remove_failed(path.as_str(), false, failure)),
                }
                Ok(false)
            },
            Task::RemoveDir { path, .. } => {
                match outcome {
                    Ok(_) => {},
                    Err(failure) => self.fail(remove_failed(path.as_str(), true, failure)),
                }
                Ok(false)
            },
            Task::Move { index, from, to } => {
                match outcome {
                    Ok(_) => {
                        if index < self.entries.len() {
                            let ghost before = self@;
                            self.entries.set(index, to);
                            assert(self@ =~= (PanelView {
                                entries: before.entries.update(index as int, to@),
                                ..before
                            }));
                        }
                        self.leave_insert();
                        Ok(true)
                    },
                    Err(failure) => {
                        self.fail(rename_failed(from.as_str(), to.as_str(), failure));
                        Ok(false)
                    },
                }
            },
            other => Err(other),
        }
    }

    /// Takes the caller's reply to the request last handed out. The task on
    /// top of the stack decides what follows: an error is queued for a
    /// primitive that failed, the next task is scheduled, the listing or
    /// the mode changes. A reply of a kind that the task did not ask for
    /// changes nothing.
    pub fn resume(&mut self, reply: Reply) -> (result: PanelFrameData)
        requires
            old(self)@.wf(),
        ensures
            final(self)@ == old(self)@.resumed(reply@),
            result == old(self)@.resume_report(reply@),
            final(self)@.wf(),
    {
        let task = match self.pending.pop() {
            Some(task) => task,
            None => {
                assert(self@ =~= old(self)@);
                return PanelFrameData { should_refresh: false, quit: false };
            },
        };
        assert(self@ =~= old(self)@.popped());
        assert(task@ == old(self)@.pending.last());
        let ghost popped = self@;
        let handled = match reply {
            Reply::Listing(listing) => self.on_listing(task, listing),
            Reply::Probed(found) => self.on_probe(task, found),
            Reply::Done(outcome) => self.on_done(task, outcome),
        };
        match handled {
            Ok(changed) => {
                proof {
                    lemma_answered_positioned(popped, task@, reply@);
                }
                self.settle();
                PanelFrameData { should_refresh: changed, quit: false }
            },
            Err(task) => {
                self.pending.push(task);
                assert(self@.pending =~= popped.pending.push(task@));
                assert(old(self)@.pending =~= popped.pending.push(old(self)@.pending.last()));
                assert(self@ =~= old(self)@);
                PanelFrameData { should_refresh: false, quit: false }
            },
        }
    }
}

/// Answering a task keeps cursor and selection within the listing.
pub proof fn lemma_answered_positioned(panel: PanelView, task: TaskView, reply: ReplyView)
    requires
        panel.positioned(),
    ensures
        panel.answered(task, reply) matches Some(next) ==> next.positioned(),
{
    if let ReplyView::Listing(listing) = reply {
        if let TaskView::Reload { after, .. } = task {
            if let AfterView::Select(path) = after {
                lemma_last_position_within(panel.listed(listing).entries, path);
            }
        }
    }
}

} // verus!
