use std::collections::BTreeMap;
use std::path::Path;

use walked::config::{Config, InsertAction, PanelAction};
use walked::disk::{DirEntry, IoFailure, PathState, Reply, Request};
use walked::errors::{PathKind, WalkedError};
use walked::keys::{KeyCode, KeyEvent, KeyEventKind, KeyEventState, KeyModifiers};
use walked::panel::{find_last, Panel, PanelFrameData, PanelMode};
use walked::tasks::{After, Task};
use walked::window::Window;

#[derive(Clone, Debug, PartialEq)]
enum Node {
    File(String),
    Dir,
    Socket,
}

/// A filesystem kept in memory that performs the library's requests.
struct Disk {
    nodes: BTreeMap<String, Node>,
    denied: Vec<String>,
    unreadable: Vec<String>,
    log: Vec<Request>,
}

fn parent_of(path: &str) -> Option<String> {
    Path::new(path).parent().map(|p| p.to_string_lossy().into_owned())
}

impl Disk {
    fn new() -> Disk {
        let mut nodes = BTreeMap::new();
        nodes.insert("/".to_string(), Node::Dir);
        Disk { nodes, denied: Vec::new(), unreadable: Vec::new(), log: Vec::new() }
    }

    fn dir(mut self, path: &str) -> Disk {
        self.nodes.insert(path.to_string(), Node::Dir);
        self
    }

    fn file(mut self, path: &str, content: &str) -> Disk {
        self.nodes.insert(path.to_string(), Node::File(content.to_string()));
        self
    }

    fn socket(mut self, path: &str) -> Disk {
        self.nodes.insert(path.to_string(), Node::Socket);
        self
    }

    fn deny(mut self, path: &str) -> Disk {
        self.denied.push(path.to_string());
        self
    }

    fn state(&self, path: &str) -> PathState {
        match self.nodes.get(path) {
            None => PathState::Missing,
            Some(Node::File(_)) => PathState::File,
            Some(Node::Dir) => PathState::Dir,
            Some(Node::Socket) => PathState::Other,
        }
    }

    fn children(&self, dir: &str) -> Vec<String> {
        self.nodes
            .keys()
            .filter(|p| p.as_str() != dir && parent_of(p).as_deref() == Some(dir))
            .cloned()
            .collect()
    }

    fn content(&self, path: &str) -> Option<String> {
        match self.nodes.get(path) {
            Some(Node::File(content)) => Some(content.clone()),
            _ => None,
        }
    }

    fn count_under(&self, dir: &str, wanted: PathState) -> usize {
        let prefix = format!("{}/", dir);
        self.nodes.keys().filter(|p| p.starts_with(&prefix) && self.state(p) == wanted).count()
    }

    fn check_target(&self, path: &str) -> Result<(), IoFailure> {
        if self.denied.iter().any(|d| d == path) {
            return Err(IoFailure::PermissionDenied);
        }
        match parent_of(path) {
            Some(dir) if self.state(&dir) == PathState::Dir => Ok(()),
            _ => Err(IoFailure::NotFound),
        }
    }

    fn perform(&mut self, request: Request) -> Reply {
        self.log.push(match &request {
            Request::List { dir } => Request::List { dir: dir.clone() },
            Request::Probe { path } => Request::Probe { path: path.clone() },
            Request::CreateFile { path } => Request::CreateFile { path: path.clone() },
            Request::CreateDir { path } => Request::CreateDir { path: path.clone() },
            Request::CopyFile { from, to } => {
                Request::CopyFile { from: from.clone(), to: to.clone() }
            }
            Request::RemoveFile { path } => Request::RemoveFile { path: path.clone() },
            Request::RemoveDir { path } => Request::RemoveDir { path: path.clone() },
            Request::RemoveDirAll { path } => Request::RemoveDirAll { path: path.clone() },
            Request::Rename { from, to } => Request::Rename { from: from.clone(), to: to.clone() },
        });
        match request {
            Request::List { dir } => {
                if self.state(&dir) != PathState::Dir || self.unreadable.contains(&dir) {
                    return Reply::Listing(None);
                }
                let children = self
                    .children(&dir)
                    .into_iter()
                    .map(|path| {
                        let state = self.state(&path);
                        DirEntry { path, state }
                    })
                    .collect();
                Reply::Listing(Some(children))
            }
            Request::Probe { path } => Reply::Probed(self.state(&path)),
            Request::CreateFile { path } => Reply::Done(self.check_target(&path).map(|_| {
                self.nodes.insert(path, Node::File(String::new()));
            })),
            Request::CreateDir { path } => {
                let outcome = self.check_target(&path).and_then(|_| {
                    if self.state(&path) == PathState::Missing {
                        self.nodes.insert(path, Node::Dir);
                        Ok(())
                    } else {
                        Err(IoFailure::Other)
                    }
                });
                Reply::Done(outcome)
            }
            Request::CopyFile { from, to } => {
                let outcome = match self.content(&from) {
                    None => Err(IoFailure::NotFound),
                    Some(content) => self.check_target(&to).map(|_| {
                        self.nodes.insert(to, Node::File(content));
                    }),
                };
                Reply::Done(outcome)
            }
            Request::RemoveFile { path } => {
                let outcome = if self.denied.contains(&path) {
                    Err(IoFailure::PermissionDenied)
                } else if self.state(&path) == PathState::File {
                    self.nodes.remove(&path);
                    Ok(())
                } else {
                    Err(IoFailure::NotFound)
                };
                Reply::Done(outcome)
            }
            Request::RemoveDir { path } => {
                let outcome = if self.denied.contains(&path) {
                    Err(IoFailure::PermissionDenied)
                } else if self.state(&path) != PathState::Dir {
                    Err(IoFailure::NotFound)
                } else if !self.children(&path).is_empty() {
                    Err(IoFailure::Other)
                } else {
                    self.nodes.remove(&path);
                    Ok(())
                };
                Reply::Done(outcome)
            }
            Request::RemoveDirAll { path } => {
                let outcome = if self.denied.contains(&path) {
                    Err(IoFailure::PermissionDenied)
                } else if self.state(&path) != PathState::Dir {
                    Err(IoFailure::NotFound)
                } else {
                    let prefix = format!("{}/", path);
                    self.nodes.retain(|p, _| p != &path && !p.starts_with(&prefix));
                    Ok(())
                };
                Reply::Done(outcome)
            }
            Request::Rename { from, to } => {
                let outcome = if self.denied.contains(&from) {
                    Err(IoFailure::PermissionDenied)
                } else {
                    match self.nodes.remove(&from) {
                        None => Err(IoFailure::NotFound),
                        Some(node) => {
                            self.nodes.insert(to, node);
                            Ok(())
                        }
                    }
                };
                Reply::Done(outcome)
            }
        }
    }
}

/// Performs the panel's requests until it waits for a key; tells whether any
/// step reported a change of the disk.
fn settle(panel: &mut Panel, disk: &mut Disk) -> bool {
    let mut changed = false;
    let mut steps = 0;
    while let Some(request) = panel.next_request() {
        let reply = disk.perform(request);
        changed |= panel.resume(reply).should_refresh;
        steps += 1;
        assert!(steps < 10_000);
    }
    changed
}

fn settle_window(window: &mut Window, disk: &mut Disk) {
    let mut steps = 0;
    while let Some(request) = window.next_request() {
        let reply = disk.perform(request);
        window.resume(reply);
        steps += 1;
        assert!(steps < 10_000);
    }
}

fn open(dir: &str, disk: &mut Disk) -> Panel {
    let mut panel = Panel::new(dir.to_string());
    settle(&mut panel, disk);
    panel
}

fn press(panel: &mut Panel, key: KeyEvent, clipboard: &mut Vec<String>) -> PanelFrameData {
    panel.process_key_event(key, clipboard, &Config::default())
}

fn key(c: char) -> KeyEvent {
    KeyEvent::new(KeyCode::Char(c), KeyModifiers::none())
}

fn ctrl(c: char) -> KeyEvent {
    KeyEvent::new(KeyCode::Char(c), KeyModifiers::control())
}

fn alt(c: char) -> KeyEvent {
    KeyEvent::new(KeyCode::Char(c), KeyModifiers::alt())
}

fn esc() -> KeyEvent {
    KeyEvent::new(KeyCode::Esc, KeyModifiers::none())
}

fn enter() -> KeyEvent {
    KeyEvent::new(KeyCode::Enter, KeyModifiers::none())
}

fn backspace() -> KeyEvent {
    KeyEvent::new(KeyCode::Backspace, KeyModifiers::none())
}

fn type_text(panel: &mut Panel, text: &str) {
    let mut clipboard = Vec::new();
    for c in text.chars() {
        press(panel, key(c), &mut clipboard);
    }
}

fn seven() -> Disk {
    Disk::new()
        .dir("/d")
        .file("/d/e0", "0")
        .file("/d/e1", "1")
        .file("/d/e2", "2")
        .file("/d/e3", "3")
        .file("/d/e4", "4")
        .file("/d/e5", "5")
        .file("/d/e6", "6")
}

fn cursor(panel: &Panel) -> Option<usize> {
    panel.table_state.selected()
}

#[test]
fn new_panel_asks_for_its_listing_first() {
    let panel = Panel::new("/a".to_string());
    assert_eq!(panel.next_request(), Some(Request::List { dir: "/a".to_string() }));
    assert!(panel.entries.is_empty());
    assert_eq!(cursor(&panel), None);
    assert_eq!(panel.mode, PanelMode::Normal);
    assert_eq!((panel.left, panel.top, panel.bottom), (2, 2, 1));
    assert_eq!(panel.header_width, 8);
}

#[test]
fn first_listing_selects_the_first_entry() {
    let mut disk = Disk::new().dir("/a").dir("/a/sub").file("/a/x.txt", "x");
    let panel = open("/a", &mut disk);
    assert_eq!(panel.entries, vec!["/a/sub".to_string(), "/a/x.txt".to_string()]);
    assert_eq!(cursor(&panel), Some(0));
    assert_eq!(panel.current_entry_length, 3);
    assert_eq!(panel.next_request(), None);
    assert!(panel.pending.is_empty());
}

#[test]
fn empty_directory_leaves_nothing_selected() {
    let mut disk = Disk::new().dir("/a");
    let panel = open("/a", &mut disk);
    assert!(panel.entries.is_empty());
    assert_eq!(cursor(&panel), None);
}

#[test]
fn new_file_is_created_selected_and_renamed() {
    let mut disk = Disk::new().dir("/a").dir("/a/sub").file("/a/x.txt", "x");
    let mut panel = open("/a", &mut disk);
    let mut clipboard = Vec::new();

    let result = press(&mut panel, ctrl('n'), &mut clipboard);
    assert_eq!(result, PanelFrameData { should_refresh: false, quit: false });
    assert!(settle(&mut panel, &mut disk));
    assert_eq!(disk.state("/a/NEWFILE"), PathState::File);
    let at = panel.entries.iter().position(|e| e == "/a/NEWFILE").unwrap();
    assert_eq!(cursor(&panel), Some(at));
    assert_eq!(panel.mode, PanelMode::Insert);
    assert_eq!(panel.edit_buffer, "");
    assert_eq!(panel.cursor_offset, 0);
    assert_eq!(panel.table_state.selected_column(), Some(1));

    type_text(&mut panel, "report.txt");
    assert_eq!(panel.edit_buffer, "report.txt");
    assert_eq!(panel.cursor_offset, 10);
    press(&mut panel, esc(), &mut clipboard);
    assert!(settle(&mut panel, &mut disk));

    assert_eq!(disk.state("/a/NEWFILE"), PathState::Missing);
    assert_eq!(disk.state("/a/report.txt"), PathState::File);
    assert_eq!(panel.mode, PanelMode::Normal);
    assert_eq!(panel.entries[at], "/a/report.txt");
    assert_eq!(cursor(&panel), Some(at));
    assert_eq!(panel.edit_buffer, "");
    assert_eq!(panel.table_state.selected_column(), None);
    assert!(panel.errors.is_empty());
}

#[test]
fn new_file_avoids_a_taken_name() {
    let mut disk = Disk::new().dir("/a").file("/a/NEWFILE", "old").file("/a/NEWFILE.1", "older");
    let mut panel = open("/a", &mut disk);
    press(&mut panel, ctrl('n'), &mut Vec::new());
    settle(&mut panel, &mut disk);
    assert_eq!(disk.content("/a/NEWFILE"), Some("old".to_string()));
    assert_eq!(disk.content("/a/NEWFILE.1"), Some("older".to_string()));
    assert_eq!(disk.content("/a/NEWFILE.1.1"), Some(String::new()));
    assert_eq!(panel.entries[cursor(&panel).unwrap()], "/a/NEWFILE.1.1");
    assert_eq!(panel.mode, PanelMode::Insert);
}

#[test]
fn new_directory_is_created_and_selected() {
    let mut disk = Disk::new().dir("/a").file("/a/x", "x");
    let mut panel = open("/a", &mut disk);
    press(&mut panel, ctrl('b'), &mut Vec::new());
    assert!(settle(&mut panel, &mut disk));
    assert_eq!(disk.state("/a/NEWDIR"), PathState::Dir);
    assert_eq!(panel.entries[cursor(&panel).unwrap()], "/a/NEWDIR");
    assert_eq!(panel.mode, PanelMode::Insert);
}

#[test]
fn failed_creation_queues_an_error_and_stays_normal() {
    let mut disk = Disk::new().dir("/a").deny("/a/NEWFILE");
    let mut panel = open("/a", &mut disk);
    press(&mut panel, ctrl('n'), &mut Vec::new());
    assert!(!settle(&mut panel, &mut disk));
    assert_eq!(panel.mode, PanelMode::Normal);
    assert_eq!(
        panel.errors,
        vec![WalkedError::PermissionDenied {
            path: "/a/NEWFILE".to_string(),
            path_kind: PathKind::File
        }]
    );
    assert_eq!(disk.state("/a/NEWFILE"), PathState::Missing);
}

#[test]
fn failed_directory_creation_in_a_lost_directory() {
    let mut disk = Disk::new().dir("/a");
    let mut panel = open("/a", &mut disk);
    press(&mut panel, ctrl('b'), &mut Vec::new());
    let listing = disk.perform(panel.next_request().unwrap());
    panel.resume(listing);
    disk.nodes.remove("/a");
    settle(&mut panel, &mut disk);
    assert_eq!(
        panel.errors,
        vec![WalkedError::Message("Couldn't create directory '/a/NEWDIR'".to_string())]
    );
}

#[test]
fn nothing_is_created_in_a_directory_that_cannot_be_read() {
    let mut disk = Disk::new().dir("/a").file("/a/NEWFILE", "precious");
    let mut panel = open("/a", &mut disk);
    disk.unreadable.push("/a".to_string());
    disk.log.clear();
    press(&mut panel, ctrl('n'), &mut Vec::new());
    assert!(!settle(&mut panel, &mut disk));
    assert_eq!(disk.log, vec![Request::List { dir: "/a".to_string() }]);
    assert_eq!(
        panel.errors,
        vec![WalkedError::Message("Couldn't read directory '/a'".to_string())]
    );
    assert_eq!(panel.mode, PanelMode::Normal);
    assert_eq!(disk.content("/a/NEWFILE"), Some("precious".to_string()));
    assert_eq!(panel.next_request(), None);
}

#[test]
fn nothing_is_copied_into_a_directory_that_cannot_be_read() {
    let mut disk = Disk::new().dir("/a").file("/a/f", "new").dir("/b").file("/b/f", "precious");
    let mut target = open("/b", &mut disk);
    disk.unreadable.push("/b".to_string());
    disk.log.clear();
    let mut clipboard = vec!["/a/f".to_string()];
    press(&mut target, ctrl('p'), &mut clipboard);
    assert!(!settle(&mut target, &mut disk));
    assert_eq!(
        disk.log,
        vec![Request::Probe { path: "/a/f".to_string() }, Request::List { dir: "/b".to_string() }]
    );
    assert_eq!(
        target.errors,
        vec![WalkedError::Message("Couldn't read directory '/b'".to_string())]
    );
    assert_eq!(disk.content("/b/f"), Some("precious".to_string()));
}

#[test]
fn a_refresh_pulls_the_cursor_back_to_the_name_in_insert_mode_too() {
    let mut disk = Disk::new().dir("/a").file("/a/abc", "");
    let mut panel = open("/a", &mut disk);
    let mut clipboard = Vec::new();
    press(&mut panel, key('i'), &mut clipboard);
    type_text(&mut panel, "defgh");
    assert_eq!(panel.cursor_offset, 8);
    panel.refresh_cursor();
    assert_eq!(panel.mode, PanelMode::Insert);
    assert_eq!(panel.current_entry_length, 3);
    assert_eq!(panel.cursor_offset, 3);
    assert_eq!(panel.edit_buffer, "abcdefgh");
    press(&mut panel, key('X'), &mut clipboard);
    assert_eq!(panel.edit_buffer, "abcXdefgh");

    type_text(&mut panel, "yz");
    assert_eq!(panel.cursor_offset, 6);
    panel.schedule_refresh();
    settle(&mut panel, &mut disk);
    assert_eq!(panel.cursor_offset, 3);
}

#[test]
fn a_refresh_with_nothing_selected_changes_nothing() {
    let mut disk = Disk::new().dir("/a");
    let mut panel = open("/a", &mut disk);
    panel.current_entry_length = 4;
    panel.cursor_offset = 9;
    panel.refresh_cursor();
    assert_eq!(panel.current_entry_length, 4);
    assert_eq!(panel.cursor_offset, 9);
}

#[test]
fn queued_errors_swallow_one_key_press() {
    let mut disk = seven();
    let mut panel = open("/d", &mut disk);
    panel.errors.push(WalkedError::Message("first".to_string()));
    panel.errors.push(WalkedError::Message("second".to_string()));
    let mut clipboard = vec!["kept".to_string()];

    let release = KeyEvent {
        code: KeyCode::Char('j'),
        modifiers: KeyModifiers::none(),
        kind: KeyEventKind::Release,
        state: KeyEventState::none(),
    };
    press(&mut panel, release, &mut clipboard);
    assert_eq!(panel.errors.len(), 2);

    let result = press(&mut panel, key('q'), &mut clipboard);
    assert!(!result.quit);
    assert!(panel.errors.is_empty());
    assert_eq!(cursor(&panel), Some(0));
    assert_eq!(clipboard, vec!["kept".to_string()]);

    press(&mut panel, key('j'), &mut clipboard);
    assert_eq!(cursor(&panel), Some(1));
}

#[test]
fn quit_reports_and_changes_nothing() {
    let mut disk = seven();
    let mut panel = open("/d", &mut disk);
    let result = press(&mut panel, key('q'), &mut Vec::new());
    assert_eq!(result, PanelFrameData { should_refresh: false, quit: true });
    assert_eq!(cursor(&panel), Some(0));
    assert_eq!(panel.next_request(), None);
}

#[test]
fn unbound_key_changes_nothing() {
    let mut disk = seven();
    let mut panel = open("/d", &mut disk);
    let result = press(&mut panel, key('z'), &mut Vec::new());
    assert_eq!(result, PanelFrameData { should_refresh: false, quit: false });
    assert_eq!(cursor(&panel), Some(0));
    assert_eq!(panel.mode, PanelMode::Normal);
}

#[test]
fn keys_are_ignored_while_work_is_pending() {
    let mut disk = seven();
    let mut panel = open("/d", &mut disk);
    press(&mut panel, ctrl('n'), &mut Vec::new());
    assert!(panel.next_request().is_some());
    let result = press(&mut panel, key('q'), &mut Vec::new());
    assert!(!result.quit);
    press(&mut panel, key('j'), &mut Vec::new());
    assert_eq!(cursor(&panel), Some(0));
    assert_eq!(panel.pending.len(), 1);
}

#[test]
fn cursor_moves_stop_at_both_ends() {
    let mut disk = Disk::new().dir("/a").file("/a/1", "").file("/a/2", "").file("/a/3", "");
    let mut panel = open("/a", &mut disk);
    let mut clipboard = Vec::new();
    press(&mut panel, key('k'), &mut clipboard);
    assert_eq!(cursor(&panel), Some(0));
    press(&mut panel, key('j'), &mut clipboard);
    press(&mut panel, key('j'), &mut clipboard);
    assert_eq!(cursor(&panel), Some(2));
    press(&mut panel, key('j'), &mut clipboard);
    assert_eq!(cursor(&panel), Some(2));
    press(&mut panel, key('k'), &mut clipboard);
    assert_eq!(cursor(&panel), Some(1));
}

#[test]
fn select_moves_span_a_range_and_a_plain_move_collapses_it() {
    let mut disk = seven();
    let mut panel = open("/d", &mut disk);
    let mut clipboard = Vec::new();
    press(&mut panel, key('j'), &mut clipboard);
    press(&mut panel, key('j'), &mut clipboard);
    assert_eq!(cursor(&panel), Some(2));
    assert_eq!(panel.selection_start, None);

    for _ in 0..3 {
        press(&mut panel, key('J'), &mut clipboard);
    }
    assert_eq!(cursor(&panel), Some(5));
    assert_eq!(panel.selection_start, Some(2));
    press(&mut panel, ctrl('y'), &mut clipboard);
    assert_eq!(clipboard, vec!["/d/e2", "/d/e3", "/d/e4", "/d/e5"]);
    assert_eq!(panel.selection_start, Some(2));

    press(&mut panel, key('k'), &mut clipboard);
    assert_eq!(cursor(&panel), Some(4));
    assert_eq!(panel.selection_start, None);
    press(&mut panel, ctrl('y'), &mut clipboard);
    assert_eq!(clipboard, vec!["/d/e4"]);
}

#[test]
fn select_moves_upwards_span_the_same_way() {
    let mut disk = seven();
    let mut panel = open("/d", &mut disk);
    let mut clipboard = Vec::new();
    for _ in 0..4 {
        press(&mut panel, key('j'), &mut clipboard);
    }
    let shifted_k = KeyEvent::new(KeyCode::Char('k'), KeyModifiers::shift());
    press(&mut panel, shifted_k, &mut clipboard);
    press(&mut panel, key('K'), &mut clipboard);
    assert_eq!(cursor(&panel), Some(2));
    assert_eq!(panel.selection_start, Some(4));
    press(&mut panel, ctrl('y'), &mut clipboard);
    assert_eq!(clipboard, vec!["/d/e2", "/d/e3", "/d/e4"]);
}

#[test]
fn copy_without_entries_leaves_the_clipboard() {
    let mut disk = Disk::new().dir("/a");
    let mut panel = open("/a", &mut disk);
    let mut clipboard = vec!["/old".to_string()];
    press(&mut panel, ctrl('y'), &mut clipboard);
    assert_eq!(clipboard, vec!["/old"]);
}

#[test]
fn horizontal_cursor_stays_within_the_name() {
    let mut disk = Disk::new().dir("/a").file("/a/abc", "").file("/a/z", "");
    let mut panel = open("/a", &mut disk);
    let mut clipboard = Vec::new();
    assert_eq!(panel.current_entry_length, 3);
    press(&mut panel, key('h'), &mut clipboard);
    assert_eq!(panel.cursor_offset, 0);
    for _ in 0..5 {
        press(&mut panel, key('l'), &mut clipboard);
    }
    assert_eq!(panel.cursor_offset, 3);
    press(&mut panel, key('j'), &mut clipboard);
    assert_eq!(panel.current_entry_length, 1);
    assert_eq!(panel.cursor_offset, 1);
    press(&mut panel, key('h'), &mut clipboard);
    assert_eq!(panel.cursor_offset, 0);
}

#[test]
fn insert_mode_starts_at_the_end_of_the_name() {
    let mut disk = Disk::new().dir("/a").file("/a/nämé.txt", "");
    let mut panel = open("/a", &mut disk);
    press(&mut panel, key('i'), &mut Vec::new());
    assert_eq!(panel.mode, PanelMode::Insert);
    assert_eq!(panel.edit_buffer, "nämé.txt");
    assert_eq!(panel.cursor_offset, 8);
    assert_eq!(panel.table_state.selected_column(), Some(1));
}

#[test]
fn insert_mode_needs_an_entry() {
    let mut disk = Disk::new().dir("/a");
    let mut panel = open("/a", &mut disk);
    press(&mut panel, key('i'), &mut Vec::new());
    assert_eq!(panel.mode, PanelMode::Normal);
}

#[test]
fn editing_works_by_characters() {
    let mut disk = Disk::new().dir("/a").file("/a/äb", "");
    let mut panel = open("/a", &mut disk);
    let mut clipboard = Vec::new();
    press(&mut panel, key('i'), &mut clipboard);
    press(&mut panel, key('ö'), &mut clipboard);
    assert_eq!(panel.edit_buffer, "äbö");
    assert_eq!(panel.cursor_offset, 3);
    press(&mut panel, backspace(), &mut clipboard);
    press(&mut panel, backspace(), &mut clipboard);
    assert_eq!(panel.edit_buffer, "ä");
    assert_eq!(panel.cursor_offset, 1);
    panel.cursor_offset = 0;
    press(&mut panel, backspace(), &mut clipboard);
    assert_eq!(panel.edit_buffer, "ä");
    press(&mut panel, key('x'), &mut clipboard);
    assert_eq!(panel.edit_buffer, "xä");
    assert_eq!(panel.cursor_offset, 1);
    press(&mut panel, key('y'), &mut clipboard);
    assert_eq!(panel.edit_buffer, "xyä");
}

#[test]
fn releases_do_not_edit() {
    let mut disk = Disk::new().dir("/a").file("/a/n", "");
    let mut panel = open("/a", &mut disk);
    let mut clipboard = Vec::new();
    press(&mut panel, key('i'), &mut clipboard);
    let release = KeyEvent {
        code: KeyCode::Char('x'),
        modifiers: KeyModifiers::none(),
        kind: KeyEventKind::Release,
        state: KeyEventState::none(),
    };
    press(&mut panel, release, &mut clipboard);
    assert_eq!(panel.edit_buffer, "n");
    let left = KeyEvent::new(KeyCode::Left, KeyModifiers::none());
    press(&mut panel, left, &mut clipboard);
    assert_eq!(panel.edit_buffer, "n");
    assert_eq!(panel.mode, PanelMode::Insert);
}

#[test]
fn committing_the_unchanged_name_is_accepted_without_a_rename() {
    let mut disk = Disk::new().dir("/a").file("/a/keep", "k").file("/a/other", "o");
    let mut panel = open("/a", &mut disk);
    let mut clipboard = Vec::new();
    press(&mut panel, key('i'), &mut clipboard);
    disk.log.clear();
    press(&mut panel, enter(), &mut clipboard);
    assert!(!settle(&mut panel, &mut disk));
    assert_eq!(disk.log, vec![Request::Probe { path: "/a/keep".to_string() }]);
    assert_eq!(panel.mode, PanelMode::Normal);
    assert!(panel.errors.is_empty());
    assert_eq!(panel.entries, vec!["/a/keep", "/a/other"]);
    assert_eq!(disk.content("/a/keep"), Some("k".to_string()));
}

#[test]
fn committing_the_name_of_another_entry_is_refused() {
    let mut disk = Disk::new().dir("/a").file("/a/keep", "k").file("/a/other", "o");
    let mut panel = open("/a", &mut disk);
    let mut clipboard = Vec::new();
    press(&mut panel, key('i'), &mut clipboard);
    for _ in 0..4 {
        press(&mut panel, backspace(), &mut clipboard);
    }
    type_text(&mut panel, "other");
    press(&mut panel, esc(), &mut clipboard);
    assert!(!settle(&mut panel, &mut disk));
    assert_eq!(panel.mode, PanelMode::Insert);
    assert_eq!(panel.edit_buffer, "other");
    assert_eq!(panel.errors, vec![WalkedError::Message("'/a/other' already exists".to_string())]);
    assert_eq!(disk.content("/a/keep"), Some("k".to_string()));
    assert_eq!(disk.content("/a/other"), Some("o".to_string()));
    assert_eq!(panel.entries, vec!["/a/keep", "/a/other"]);
}

#[test]
fn committing_a_name_with_a_slash_is_refused_before_the_disk_is_asked() {
    let mut disk = Disk::new().dir("/a").file("/a/keep", "k").dir("/a/sub");
    let mut panel = open("/a", &mut disk);
    let mut clipboard = Vec::new();
    press(&mut panel, key('i'), &mut clipboard);
    type_text(&mut panel, "/x");
    disk.log.clear();
    press(&mut panel, esc(), &mut clipboard);
    assert_eq!(panel.next_request(), None);
    assert!(disk.log.is_empty());
    assert_eq!(panel.mode, PanelMode::Insert);
    assert_eq!(panel.edit_buffer, "keep/x");
    assert_eq!(
        panel.errors,
        vec![WalkedError::Message(
            "Paths can't contain the following characters: ['\\\\', '/', ':', '*', '?', '\"', '<', '>', '|']"
                .to_string()
        )]
    );
}

#[test]
fn each_reserved_character_is_refused() {
    for c in ['\\', '/', ':', '*', '?', '"', '<', '>', '|'] {
        let mut disk = Disk::new().dir("/a").file("/a/n", "");
        let mut panel = open("/a", &mut disk);
        let mut clipboard = Vec::new();
        press(&mut panel, key('i'), &mut clipboard);
        press(&mut panel, key(c), &mut clipboard);
        press(&mut panel, esc(), &mut clipboard);
        assert_eq!(panel.mode, PanelMode::Insert);
        assert_eq!(panel.errors.len(), 1);
        assert_eq!(panel.next_request(), None);
    }
}

#[test]
fn committing_an_empty_name_is_refused() {
    let mut disk = Disk::new().dir("/a").file("/a/n", "");
    let mut panel = open("/a", &mut disk);
    let mut clipboard = Vec::new();
    press(&mut panel, key('i'), &mut clipboard);
    press(&mut panel, backspace(), &mut clipboard);
    assert_eq!(panel.edit_buffer, "");
    press(&mut panel, esc(), &mut clipboard);
    assert_eq!(panel.mode, PanelMode::Insert);
    assert_eq!(panel.errors, vec![WalkedError::Message("Names can't be empty".to_string())]);
    assert_eq!(panel.next_request(), None);
}

#[test]
fn failed_rename_keeps_insert_mode() {
    let mut disk = Disk::new().dir("/a").file("/a/n", "").deny("/a/n");
    let mut panel = open("/a", &mut disk);
    let mut clipboard = Vec::new();
    press(&mut panel, key('i'), &mut clipboard);
    type_text(&mut panel, "ew");
    press(&mut panel, enter(), &mut clipboard);
    assert!(!settle(&mut panel, &mut disk));
    assert_eq!(panel.mode, PanelMode::Insert);
    assert_eq!(panel.edit_buffer, "new");
    assert_eq!(
        panel.errors,
        vec![WalkedError::PermissionDenied {
            path: "/a/n".to_string(),
            path_kind: PathKind::Ambiguous
        }]
    );
    assert_eq!(panel.entries, vec!["/a/n"]);
}

#[test]
fn rename_of_a_vanished_entry_reports_not_found() {
    let mut disk = Disk::new().dir("/a").file("/a/n", "");
    let mut panel = open("/a", &mut disk);
    let mut clipboard = Vec::new();
    press(&mut panel, key('i'), &mut clipboard);
    type_text(&mut panel, "2");
    disk.nodes.remove("/a/n");
    press(&mut panel, enter(), &mut clipboard);
    settle(&mut panel, &mut disk);
    assert_eq!(
        panel.errors,
        vec![WalkedError::PathNotFound { path: "/a/n".to_string(), path_kind: PathKind::Ambiguous }]
    );
    assert_eq!(panel.mode, PanelMode::Insert);
}

#[test]
fn removing_a_file_uses_the_file_primitive_only() {
    let mut disk = Disk::new().dir("/a").file("/a/f", "x").dir("/a/z");
    let mut panel = open("/a", &mut disk);
    disk.log.clear();
    press(&mut panel, ctrl('x'), &mut Vec::new());
    assert!(settle(&mut panel, &mut disk));
    assert_eq!(
        disk.log,
        vec![
            Request::Probe { path: "/a/f".to_string() },
            Request::RemoveFile { path: "/a/f".to_string() },
            Request::List { dir: "/a".to_string() },
        ]
    );
    assert_eq!(disk.state("/a/f"), PathState::Missing);
    assert_eq!(panel.entries, vec!["/a/z"]);
    assert!(panel.errors.is_empty());
}

#[test]
fn removing_an_empty_directory_is_not_recursive() {
    let mut disk = Disk::new().dir("/a").dir("/a/empty").file("/a/f", "");
    let mut panel = open("/a", &mut disk);
    disk.log.clear();
    press(&mut panel, ctrl('x'), &mut Vec::new());
    assert!(settle(&mut panel, &mut disk));
    assert_eq!(
        disk.log,
        vec![
            Request::Probe { path: "/a/empty".to_string() },
            Request::List { dir: "/a/empty".to_string() },
            Request::RemoveDir { path: "/a/empty".to_string() },
            Request::List { dir: "/a".to_string() },
        ]
    );
    assert_eq!(disk.state("/a/empty"), PathState::Missing);
}

#[test]
fn removing_a_directory_with_content_is_recursive() {
    let mut disk =
        Disk::new().dir("/a").dir("/a/full").file("/a/full/f", "").dir("/a/full/d").file("/a/g", "");
    let mut panel = open("/a", &mut disk);
    disk.log.clear();
    press(&mut panel, ctrl('x'), &mut Vec::new());
    assert!(settle(&mut panel, &mut disk));
    assert_eq!(
        disk.log,
        vec![
            Request::Probe { path: "/a/full".to_string() },
            Request::List { dir: "/a/full".to_string() },
            Request::RemoveDirAll { path: "/a/full".to_string() },
            Request::List { dir: "/a".to_string() },
        ]
    );
    assert_eq!(disk.state("/a/full"), PathState::Missing);
    assert_eq!(disk.state("/a/full/f"), PathState::Missing);
    assert_eq!(panel.entries, vec!["/a/g"]);
}

#[test]
fn removing_a_range_collects_one_error_for_each_failure() {
    let mut disk = seven().deny("/d/e2").deny("/d/e4");
    let mut panel = open("/d", &mut disk);
    let mut clipboard = Vec::new();
    press(&mut panel, key('j'), &mut clipboard);
    for _ in 0..4 {
        press(&mut panel, key('J'), &mut clipboard);
    }
    press(&mut panel, ctrl('x'), &mut clipboard);
    assert_eq!(panel.selection_start, None);
    assert!(settle(&mut panel, &mut disk));
    assert_eq!(
        panel.errors,
        vec![
            WalkedError::PermissionDenied { path: "/d/e2".to_string(), path_kind: PathKind::File },
            WalkedError::PermissionDenied { path: "/d/e4".to_string(), path_kind: PathKind::File },
        ]
    );
    assert_eq!(panel.entries, vec!["/d/e0", "/d/e2", "/d/e4", "/d/e6"]);
    assert_eq!(cursor(&panel), Some(3));
}

#[test]
fn removing_something_else_does_nothing() {
    let mut disk = Disk::new().dir("/a").socket("/a/s");
    let mut panel = open("/a", &mut disk);
    disk.log.clear();
    press(&mut panel, ctrl('x'), &mut Vec::new());
    assert!(!settle(&mut panel, &mut disk));
    assert_eq!(disk.log, vec![Request::Probe { path: "/a/s".to_string() }]);
    assert_eq!(disk.state("/a/s"), PathState::Other);
}

#[test]
fn removing_an_unreadable_directory_does_nothing() {
    let mut disk = Disk::new().dir("/a").dir("/a/locked").file("/a/locked/f", "");
    disk.unreadable.push("/a/locked".to_string());
    let mut panel = open("/a", &mut disk);
    press(&mut panel, ctrl('x'), &mut Vec::new());
    assert!(!settle(&mut panel, &mut disk));
    assert_eq!(disk.state("/a/locked"), PathState::Dir);
    assert!(panel.errors.is_empty());
}

#[test]
fn duplicating_a_file_copies_it_beside_itself() {
    let mut disk = Disk::new().dir("/a").file("/a/f", "body").file("/a/f.1", "taken");
    let mut panel = open("/a", &mut disk);
    press(&mut panel, ctrl('d'), &mut Vec::new());
    assert!(settle(&mut panel, &mut disk));
    assert_eq!(disk.content("/a/f.1.1"), Some("body".to_string()));
    assert_eq!(disk.content("/a/f.1"), Some("taken".to_string()));
    assert_eq!(panel.entries, vec!["/a/f", "/a/f.1", "/a/f.1.1"]);
    assert!(panel.errors.is_empty());
}

#[test]
fn duplicating_a_range_sees_what_earlier_copies_created() {
    let mut disk = Disk::new().dir("/a").file("/a/f", "one").file("/a/f.1", "two");
    let mut panel = open("/a", &mut disk);
    let mut clipboard = Vec::new();
    press(&mut panel, key('J'), &mut clipboard);
    press(&mut panel, ctrl('d'), &mut clipboard);
    settle(&mut panel, &mut disk);
    assert_eq!(disk.content("/a/f.1.1"), Some("one".to_string()));
    assert_eq!(disk.content("/a/f.1.1.1"), Some("two".to_string()));
    assert_eq!(panel.selection_start, None);
}

fn tree() -> Disk {
    Disk::new()
        .dir("/a")
        .dir("/a/t")
        .file("/a/t/f1", "1")
        .file("/a/t/f2", "2")
        .dir("/a/t/s1")
        .file("/a/t/s1/g1", "g1")
        .file("/a/t/s1/g2", "g2")
        .dir("/a/t/s1/deep")
        .file("/a/t/s1/deep/h", "h")
        .dir("/a/t/s2")
        .file("/a/t/s2/k", "k")
        .socket("/a/t/sock")
}

#[test]
fn duplicating_a_directory_copies_the_whole_tree() {
    let mut disk = tree();
    let mut panel = open("/a", &mut disk);
    press(&mut panel, ctrl('d'), &mut Vec::new());
    assert!(settle(&mut panel, &mut disk));
    assert!(panel.errors.is_empty());
    assert_eq!(disk.count_under("/a/t", PathState::File), 6);
    assert_eq!(disk.count_under("/a/t", PathState::Dir), 3);
    assert_eq!(disk.count_under("/a/t.1", PathState::File), 6);
    assert_eq!(disk.count_under("/a/t.1", PathState::Dir), 3);
    assert_eq!(disk.count_under("/a/t.1", PathState::Other), 0);
    assert_eq!(disk.content("/a/t.1/s1/deep/h"), Some("h".to_string()));
    assert_eq!(disk.content("/a/t.1/s2/k"), Some("k".to_string()));
    assert_eq!(panel.entries, vec!["/a/t", "/a/t.1"]);
}

#[test]
fn a_failure_in_one_subtree_does_not_stop_its_siblings() {
    let mut disk = tree().deny("/a/t.1/s1").deny("/a/t.1/f2");
    let mut panel = open("/a", &mut disk);
    press(&mut panel, ctrl('d'), &mut Vec::new());
    assert!(settle(&mut panel, &mut disk));
    assert_eq!(
        panel.errors,
        vec![
            WalkedError::PermissionDenied {
                path: "/a/t.1/f2".to_string(),
                path_kind: PathKind::File
            },
            WalkedError::PermissionDenied { path: "/a/t.1/s1".to_string(), path_kind: PathKind::Dir },
        ]
    );
    assert_eq!(disk.count_under("/a/t.1", PathState::File), 2);
    assert_eq!(disk.count_under("/a/t.1", PathState::Dir), 1);
    assert_eq!(disk.content("/a/t.1/f1"), Some("1".to_string()));
    assert_eq!(disk.content("/a/t.1/s2/k"), Some("k".to_string()));
    assert_eq!(disk.state("/a/t.1/s1"), PathState::Missing);
}

#[test]
fn a_failed_top_directory_is_one_error_and_no_copy() {
    let mut disk = tree().deny("/a/t.1");
    let mut panel = open("/a", &mut disk);
    press(&mut panel, ctrl('d'), &mut Vec::new());
    assert!(settle(&mut panel, &mut disk));
    assert_eq!(
        panel.errors,
        vec![WalkedError::PermissionDenied { path: "/a/t.1".to_string(), path_kind: PathKind::Dir }]
    );
    assert_eq!(disk.state("/a/t.1"), PathState::Missing);
}

#[test]
fn paste_copies_files_and_trees_under_free_names() {
    let mut disk = tree().dir("/b").file("/b/f", "mine").file("/a/f", "theirs");
    let mut source = open("/a", &mut disk);
    let mut clipboard = Vec::new();
    press(&mut source, key('J'), &mut clipboard);
    press(&mut source, ctrl('y'), &mut clipboard);
    assert_eq!(clipboard, vec!["/a/f", "/a/t"]);

    let mut target = open("/b", &mut disk);
    let result = press(&mut target, ctrl('p'), &mut clipboard);
    assert!(!result.should_refresh);
    assert!(settle(&mut target, &mut disk));
    assert!(target.errors.is_empty());
    assert_eq!(disk.content("/b/f"), Some("mine".to_string()));
    assert_eq!(disk.content("/b/f.1"), Some("theirs".to_string()));
    assert_eq!(disk.count_under("/b/t", PathState::File), 6);
    assert_eq!(disk.count_under("/b/t", PathState::Dir), 3);
    assert_eq!(target.entries, vec!["/b/f", "/b/f.1", "/b/t"]);
    assert_eq!(clipboard, vec!["/a/f", "/a/t"]);
}

#[test]
fn paste_of_a_vanished_source_does_nothing() {
    let mut disk = Disk::new().dir("/b");
    let mut target = open("/b", &mut disk);
    let mut clipboard = vec!["/gone/file".to_string()];
    press(&mut target, ctrl('p'), &mut clipboard);
    assert!(!settle(&mut target, &mut disk));
    assert!(target.errors.is_empty());
    assert!(target.entries.is_empty());
}

#[test]
fn paste_of_a_source_that_vanishes_midway_reports_it() {
    let mut disk = Disk::new().dir("/a").file("/a/f", "x").dir("/b");
    let mut target = open("/b", &mut disk);
    let mut clipboard = vec!["/a/f".to_string()];
    press(&mut target, ctrl('p'), &mut clipboard);
    let probe = target.next_request().unwrap();
    let reply = disk.perform(probe);
    target.resume(reply);
    disk.nodes.remove("/a/f");
    assert!(settle(&mut target, &mut disk));
    assert_eq!(
        target.errors,
        vec![WalkedError::PathNotFound { path: "/a/f".to_string(), path_kind: PathKind::File }]
    );
}

#[test]
fn paste_with_an_empty_clipboard_asks_nothing() {
    let mut disk = Disk::new().dir("/b");
    let mut target = open("/b", &mut disk);
    press(&mut target, ctrl('p'), &mut Vec::new());
    assert_eq!(target.next_request(), None);
}

#[test]
fn walking_into_a_directory_lists_it_from_the_top() {
    let mut disk = tree();
    let mut panel = open("/a", &mut disk);
    let mut clipboard = Vec::new();
    press(&mut panel, key(' '), &mut clipboard);
    assert!(!settle(&mut panel, &mut disk));
    assert_eq!(panel.working_directory, "/a/t");
    assert_eq!(panel.entries, vec!["/a/t/f1", "/a/t/f2", "/a/t/s1", "/a/t/s2", "/a/t/sock"]);
    assert_eq!(cursor(&panel), Some(0));

    press(&mut panel, key('J'), &mut clipboard);
    press(&mut panel, key('J'), &mut clipboard);
    press(&mut panel, key(' '), &mut clipboard);
    settle(&mut panel, &mut disk);
    assert_eq!(panel.working_directory, "/a/t/s1");
    assert_eq!(cursor(&panel), Some(0));
    assert_eq!(panel.selection_start, None);
}

#[test]
fn walking_into_a_file_does_nothing() {
    let mut disk = Disk::new().dir("/a").file("/a/f", "");
    let mut panel = open("/a", &mut disk);
    press(&mut panel, key(' '), &mut Vec::new());
    settle(&mut panel, &mut disk);
    assert_eq!(panel.working_directory, "/a");
    assert_eq!(panel.entries, vec!["/a/f"]);
}

#[test]
fn walking_in_an_empty_directory_asks_nothing() {
    let mut disk = Disk::new().dir("/a");
    let mut panel = open("/a", &mut disk);
    press(&mut panel, key(' '), &mut Vec::new());
    assert_eq!(panel.next_request(), None);
}

#[test]
fn going_up_lists_the_parent() {
    let mut disk = tree();
    let mut panel = open("/a/t/s1", &mut disk);
    let mut clipboard = Vec::new();
    press(&mut panel, key('j'), &mut clipboard);
    press(&mut panel, key('x'), &mut clipboard);
    assert!(!settle(&mut panel, &mut disk));
    assert_eq!(panel.working_directory, "/a/t");
    assert_eq!(cursor(&panel), Some(0));
    press(&mut panel, key('x'), &mut clipboard);
    settle(&mut panel, &mut disk);
    press(&mut panel, key('x'), &mut clipboard);
    settle(&mut panel, &mut disk);
    assert_eq!(panel.working_directory, "/");
    press(&mut panel, key('x'), &mut clipboard);
    assert_eq!(panel.next_request(), None);
    assert_eq!(panel.working_directory, "/");
}

#[test]
fn walk_and_parent_report_whether_they_went() {
    let mut disk = tree();
    let mut panel = open("/a/t", &mut disk);
    assert!(!panel.walk(0, PathState::File));
    assert!(!panel.walk(99, PathState::Dir));
    assert!(panel.walk(2, PathState::Dir));
    assert_eq!(panel.working_directory, "/a/t/s1");
    assert_eq!(panel.next_request(), Some(Request::List { dir: "/a/t/s1".to_string() }));
    settle(&mut panel, &mut disk);
    assert!(panel.parent());
    assert_eq!(panel.working_directory, "/a/t");
    let mut root = open("/", &mut disk);
    assert!(!root.parent());
}

#[test]
fn read_working_dir_replaces_the_entries_or_keeps_them() {
    let mut disk = Disk::new().dir("/a").file("/a/old", "");
    let mut panel = open("/a", &mut disk);
    panel.header_width = 20;
    panel.read_working_dir(None);
    assert_eq!(panel.entries, vec!["/a/old"]);
    assert_eq!(panel.header_width, 20);
    panel.read_working_dir(Some(vec![
        DirEntry { path: "/a/n1".to_string(), state: PathState::File },
        DirEntry { path: "/a/n2".to_string(), state: PathState::Dir },
    ]));
    assert_eq!(panel.entries, vec!["/a/n1", "/a/n2"]);
    assert_eq!(panel.header_width, 8);
}

#[test]
fn refresh_cursor_measures_the_selected_name() {
    let mut disk = Disk::new().dir("/a").file("/a/abcdef", "");
    let mut panel = open("/a", &mut disk);
    panel.cursor_offset = 6;
    panel.entries[0] = "/a/äö".to_string();
    panel.refresh_cursor();
    assert_eq!(panel.current_entry_length, 2);
    assert_eq!(panel.cursor_offset, 2);
    panel.entries[0] = "/".to_string();
    panel.refresh_cursor();
    assert_eq!(panel.current_entry_length, 0);
    assert_eq!(panel.cursor_offset, 0);
}

#[test]
fn a_reload_pulls_the_cursor_back_into_a_shorter_listing() {
    let mut disk = seven();
    let mut panel = open("/d", &mut disk);
    let mut clipboard = Vec::new();
    for _ in 0..4 {
        press(&mut panel, key('j'), &mut clipboard);
    }
    press(&mut panel, key('J'), &mut clipboard);
    press(&mut panel, key('J'), &mut clipboard);
    assert_eq!((cursor(&panel), panel.selection_start), (Some(6), Some(4)));
    for name in ["/d/e3", "/d/e4", "/d/e5", "/d/e6"] {
        disk.nodes.remove(name);
    }
    panel.schedule_refresh();
    assert!(!settle(&mut panel, &mut disk));
    assert_eq!(panel.entries.len(), 3);
    assert_eq!(cursor(&panel), Some(2));
    assert_eq!(panel.selection_start, None);
}

#[test]
fn an_unreadable_directory_keeps_the_old_listing() {
    let mut disk = seven();
    let mut panel = open("/d", &mut disk);
    disk.unreadable.push("/d".to_string());
    panel.schedule_refresh();
    settle(&mut panel, &mut disk);
    assert_eq!(panel.entries.len(), 7);
}

#[test]
fn a_reply_of_the_wrong_kind_changes_nothing() {
    let mut panel = Panel::new("/a".to_string());
    let result = panel.resume(Reply::Probed(PathState::Dir));
    assert_eq!(result, PanelFrameData { should_refresh: false, quit: false });
    assert_eq!(panel.pending, vec![Task::Reload { after: After::First, changed: false }]);
    let result = panel.resume(Reply::Done(Ok(())));
    assert!(!result.should_refresh);
    assert_eq!(panel.pending.len(), 1);
    panel.resume(Reply::Listing(Some(Vec::new())));
    assert!(panel.pending.is_empty());
    let result = panel.resume(Reply::Listing(None));
    assert!(!result.should_refresh);
    assert!(panel.pending.is_empty());
}

#[test]
fn actions_can_be_applied_without_keys() {
    let mut disk = seven();
    let mut panel = open("/d", &mut disk);
    let mut clipboard = Vec::new();
    panel.act(PanelAction::Down, &mut clipboard);
    panel.act(PanelAction::SelectDown, &mut clipboard);
    panel.act(PanelAction::Copy, &mut clipboard);
    assert_eq!(clipboard, vec!["/d/e1", "/d/e2"]);
    let result = panel.act(PanelAction::Quit, &mut clipboard);
    assert!(result.quit);
    panel.act(PanelAction::InsertMode, &mut clipboard);
    panel.edit(InsertAction::Type('!'));
    assert_eq!(panel.edit_buffer, "e2!");
    panel.edit(InsertAction::Backspace);
    panel.edit(InsertAction::Commit);
    assert_eq!(panel.next_request(), Some(Request::Probe { path: "/d/e2".to_string() }));
}

#[test]
fn find_last_gives_the_greatest_index() {
    let entries = vec!["a".to_string(), "b".to_string(), "a".to_string(), "c".to_string()];
    assert_eq!(find_last(&entries, "a"), Some(2));
    assert_eq!(find_last(&entries, "c"), Some(3));
    assert_eq!(find_last(&entries, "d"), None);
    assert_eq!(find_last(&Vec::new(), "a"), None);
}

fn grid(window: &Window) -> Vec<usize> {
    window.panels.iter().map(|row| row.len()).collect()
}

fn focus(window: &Window) -> (usize, usize) {
    (window.panel_focus_i, window.panel_focus_j)
}

fn start(disk: &mut Disk, dir: &str) -> Window {
    let mut window = Window::new(Config::default(), dir.to_string());
    settle_window(&mut window, disk);
    window
}

#[test]
fn a_window_starts_with_one_panel() {
    let mut disk = seven();
    let window = start(&mut disk, "/d");
    assert_eq!(grid(&window), vec![1]);
    assert_eq!(focus(&window), (0, 0));
    assert_eq!(window.panel().working_directory, "/d");
    assert_eq!(window.panel().entries.len(), 7);
    assert!(window.clipboard.is_empty());
}

#[test]
fn closing_in_a_row_of_three_leaves_two_and_moves_focus_left() {
    let mut disk = tree();
    let mut window = start(&mut disk, "/a");
    window.handle_key(alt('l'));
    window.handle_key(alt('l'));
    settle_window(&mut window, &mut disk);
    assert_eq!(grid(&window), vec![3]);
    assert_eq!(focus(&window), (0, 2));
    window.handle_key(ctrl('h'));
    assert_eq!(focus(&window), (0, 1));
    window.panels[0][0].working_directory = "/left".to_string();
    window.panels[0][2].working_directory = "/right".to_string();

    window.handle_key(ctrl('q'));
    assert_eq!(grid(&window), vec![2]);
    assert_eq!(focus(&window), (0, 0));
    assert_eq!(window.panels[0][0].working_directory, "/left");
    assert_eq!(window.panels[0][1].working_directory, "/right");

    window.close_active();
    assert_eq!(grid(&window), vec![1]);
    assert_eq!(focus(&window), (0, 0));
    assert_eq!(window.panels[0][0].working_directory, "/right");
}

#[test]
fn closing_the_only_panel_changes_nothing() {
    let mut disk = tree();
    let mut window = start(&mut disk, "/a");
    window.handle_key(ctrl('q'));
    assert_eq!(grid(&window), vec![1]);
    assert_eq!(focus(&window), (0, 0));
    assert_eq!(window.panel().working_directory, "/a");
    assert_eq!(window.panel().entries, vec!["/a/t"]);
}

#[test]
fn closing_a_row_of_one_removes_the_row_and_moves_focus_up() {
    let mut disk = tree();
    let mut window = start(&mut disk, "/a");
    window.split_down();
    window.split_down();
    window.split_right();
    settle_window(&mut window, &mut disk);
    assert_eq!(grid(&window), vec![1, 1, 2]);
    window.pane_up();
    assert_eq!(focus(&window), (1, 0));
    window.close_active();
    assert_eq!(grid(&window), vec![1, 2]);
    assert_eq!(focus(&window), (0, 0));
    window.close_active();
    assert_eq!(grid(&window), vec![2]);
    assert_eq!(focus(&window), (0, 0));
}

#[test]
fn splits_put_the_new_panel_beside_the_focused_one() {
    let mut disk = tree();
    let mut window = start(&mut disk, "/a");
    window.panels[0][0].working_directory = "/a/t".to_string();
    window.handle_key(alt('h'));
    assert_eq!(grid(&window), vec![2]);
    assert_eq!(focus(&window), (0, 0));
    assert_eq!(window.panel().working_directory, "/a/t");
    assert!(window.panel().entries.is_empty());
    settle_window(&mut window, &mut disk);
    assert_eq!(window.panel().entries.len(), 5);

    window.handle_key(alt('k'));
    assert_eq!(grid(&window), vec![1, 2]);
    assert_eq!(focus(&window), (0, 0));
    window.handle_key(alt('j'));
    assert_eq!(grid(&window), vec![1, 1, 2]);
    assert_eq!(focus(&window), (1, 0));
    window.handle_key(alt('l'));
    assert_eq!(grid(&window), vec![1, 2, 2]);
    assert_eq!(focus(&window), (1, 1));
    for row in &window.panels {
        for panel in row {
            assert_eq!(panel.working_directory, "/a/t");
        }
    }
}

#[test]
fn focus_moves_keep_the_column_where_the_row_is_long_enough() {
    let mut disk = tree();
    let mut window = start(&mut disk, "/a");
    window.split_right();
    window.split_right();
    window.split_down();
    window.split_right();
    settle_window(&mut window, &mut disk);
    assert_eq!(grid(&window), vec![3, 2]);
    assert_eq!(focus(&window), (1, 1));
    window.handle_key(ctrl('l'));
    assert_eq!(focus(&window), (1, 1));
    window.handle_key(ctrl('j'));
    assert_eq!(focus(&window), (1, 1));
    window.handle_key(ctrl('k'));
    assert_eq!(focus(&window), (0, 1));
    window.handle_key(ctrl('l'));
    assert_eq!(focus(&window), (0, 2));
    window.handle_key(ctrl('j'));
    assert_eq!(focus(&window), (1, 1));
    window.handle_key(ctrl('h'));
    window.handle_key(ctrl('h'));
    assert_eq!(focus(&window), (1, 0));
    window.handle_key(ctrl('k'));
    window.handle_key(ctrl('k'));
    assert_eq!(focus(&window), (0, 0));
}

#[test]
fn other_keys_go_to_the_focused_panel() {
    let mut disk = seven();
    let mut window = start(&mut disk, "/d");
    window.split_right();
    settle_window(&mut window, &mut disk);
    assert_eq!(window.handle_key(key('j')), None);
    assert_eq!(window.panels[0][1].table_state.selected(), Some(1));
    assert_eq!(window.panels[0][0].table_state.selected(), Some(0));
    window.handle_key(key('J'));
    window.handle_key(ctrl('y'));
    assert_eq!(window.clipboard, vec!["/d/e1", "/d/e2"]);
}

#[test]
fn quit_hands_out_the_focused_working_directory() {
    let mut disk = tree();
    let mut window = start(&mut disk, "/a");
    window.split_right();
    settle_window(&mut window, &mut disk);
    window.handle_key(key(' '));
    settle_window(&mut window, &mut disk);
    assert_eq!(window.handle_key(key('q')), Some("/a/t".to_string()));
    window.pane_left();
    assert_eq!(window.handle_key(key('q')), Some("/a".to_string()));
}

#[test]
fn a_change_in_one_panel_refreshes_every_other() {
    let mut disk = seven().dir("/o").file("/o/f", "");
    let mut window = start(&mut disk, "/d");
    window.split_right();
    window.split_down();
    settle_window(&mut window, &mut disk);
    window.panels[1][0].working_directory = "/o".to_string();
    window.panels[1][0].schedule_refresh();
    settle_window(&mut window, &mut disk);
    assert_eq!(window.panels[1][0].entries, vec!["/o/f"]);
    window.pane_up();
    window.pane_left();
    assert_eq!(focus(&window), (0, 0));

    disk.nodes.insert("/o/new".to_string(), Node::Dir);
    window.handle_key(ctrl('x'));
    assert_eq!(window.panels[0][1].entries.len(), 7);
    settle_window(&mut window, &mut disk);
    assert_eq!(window.panels[0][0].entries.len(), 6);
    assert_eq!(window.panels[0][1].entries.len(), 6);
    assert_eq!(window.panels[1][0].entries, vec!["/o/f", "/o/new"]);
}

#[test]
fn moving_about_refreshes_nobody() {
    let mut disk = seven();
    let mut window = start(&mut disk, "/d");
    window.split_right();
    settle_window(&mut window, &mut disk);
    disk.nodes.remove("/d/e6");
    disk.log.clear();
    window.handle_key(key('j'));
    window.handle_key(key('x'));
    settle_window(&mut window, &mut disk);
    assert_eq!(disk.log, vec![Request::List { dir: "/".to_string() }]);
    assert_eq!(window.panels[0][0].entries.len(), 7);
}

#[test]
fn requests_come_from_the_focused_panel_first() {
    let mut disk = seven().dir("/o");
    let mut window = start(&mut disk, "/d");
    window.split_up();
    window.panels[0][0].working_directory = "/o".to_string();
    window.pane_down();
    window.panels[1][0].schedule_refresh();
    assert_eq!(window.next_request(), Some(Request::List { dir: "/d".to_string() }));
    window.resume(Reply::Listing(None));
    assert_eq!(window.next_request(), Some(Request::List { dir: "/o".to_string() }));
    window.resume(Reply::Listing(None));
    assert_eq!(window.next_request(), None);
    window.resume(Reply::Listing(None));
    assert_eq!(grid(&window), vec![1, 1]);
}

#[test]
fn window_actions_apply_by_name() {
    let mut disk = seven();
    let mut window = start(&mut disk, "/d");
    window.apply(walked::config::WindowAction::SplitRight);
    window.apply(walked::config::WindowAction::SplitUp);
    assert_eq!(grid(&window), vec![1, 2]);
    window.apply(walked::config::WindowAction::PaneDown);
    window.apply(walked::config::WindowAction::PaneRight);
    assert_eq!(focus(&window), (1, 1));
    window.apply(walked::config::WindowAction::CloseActive);
    assert_eq!(grid(&window), vec![1, 1]);
    assert_eq!(focus(&window), (1, 0));
}

#[test]
fn a_reserved_character_is_refused_even_with_nothing_selected() {
    let mut disk = Disk::new().dir("/a").file("/a/n", "");
    let mut panel = open("/a", &mut disk);
    let mut clipboard = Vec::new();
    press(&mut panel, key('i'), &mut clipboard);
    press(&mut panel, key('/'), &mut clipboard);
    disk.nodes.remove("/a/n");
    panel.schedule_refresh();
    settle(&mut panel, &mut disk);
    assert_eq!(cursor(&panel), None);
    assert_eq!(panel.mode, PanelMode::Insert);
    press(&mut panel, esc(), &mut clipboard);
    assert_eq!(panel.mode, PanelMode::Insert);
    assert_eq!(panel.errors.len(), 1);
    press(&mut panel, esc(), &mut clipboard);
    press(&mut panel, backspace(), &mut clipboard);
    press(&mut panel, esc(), &mut clipboard);
    assert_eq!(panel.mode, PanelMode::Normal);
    assert!(panel.errors.is_empty());
    assert_eq!(panel.next_request(), None);
}
