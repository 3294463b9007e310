//! The configuration: labels, switches, and the key bound to each action.

use crate::keys::{KeyCode, KeyEvent, KeyModifiers};
use crate::paths::same_text;
use crate::text::{contains_char, find_char};
use toml::Value;
use vstd::prelude::*;

verus! {

/// What the user has configured. Each action is bound to one key event.
#[derive(Debug, PartialEq, Eq)]
pub struct Config {
    /// The label shown for Normal mode.
    pub normal_mode_text: String,
    /// The label shown for Insert mode.
    pub insert_mode_text: String,
    /// Whether a row starts with the entry's index.
    pub show_entry_number: bool,
    /// Whether a row names the entry's type.
    pub show_entry_type: bool,
    /// Whether a panel is titled with its directory.
    pub show_working_directory: bool,
    /// Whether the title is shortened.
    pub simple_working_directory: bool,
    /// The type label of a directory.
    pub directory_text: String,
    /// The type label of a file.
    pub file_text: String,
    /// The type label of a symbolic link.
    pub symlink_text: String,
    /// The type label of anything else.
    pub other_text: String,
    pub new_file: KeyEvent,
    pub new_directory: KeyEvent,
    pub duplicate: KeyEvent,
    pub remove: KeyEvent,
    pub copy: KeyEvent,
    pub paste: KeyEvent,
    pub up: KeyEvent,
    pub select_up: KeyEvent,
    pub pane_up: KeyEvent,
    pub split_pane_up: KeyEvent,
    pub down: KeyEvent,
    pub select_down: KeyEvent,
    pub pane_down: KeyEvent,
    pub split_pane_down: KeyEvent,
    pub left: KeyEvent,
    pub pane_left: KeyEvent,
    pub split_pane_left: KeyEvent,
    pub right: KeyEvent,
    pub pane_right: KeyEvent,
    pub split_pane_right: KeyEvent,
    pub dir_walk: KeyEvent,
    pub dir_up: KeyEvent,
    pub insert_mode: KeyEvent,
    pub normal_mode: KeyEvent,
    pub close_active_pane: KeyEvent,
    pub quit: KeyEvent,
}

/// The mathematical value of a [`Config`].
pub struct ConfigView {
    pub normal_mode_text: Seq<char>,
    pub insert_mode_text: Seq<char>,
    pub show_entry_number: bool,
    pub show_entry_type: bool,
    pub show_working_directory: bool,
    pub simple_working_directory: bool,
    pub directory_text: Seq<char>,
    pub file_text: Seq<char>,
    pub symlink_text: Seq<char>,
    pub other_text: Seq<char>,
    pub new_file: KeyEvent,
    pub new_directory: KeyEvent,
    pub duplicate: KeyEvent,
    pub remove: KeyEvent,
    pub copy: KeyEvent,
    pub paste: KeyEvent,
    pub up: KeyEvent,
    pub select_up: KeyEvent,
    pub pane_up: KeyEvent,
    pub split_pane_up: KeyEvent,
    pub down: KeyEvent,
    pub select_down: KeyEvent,
    pub pane_down: KeyEvent,
    pub split_pane_down: KeyEvent,
    pub left: KeyEvent,
    pub pane_left: KeyEvent,
    pub split_pane_left: KeyEvent,
    pub right: KeyEvent,
    pub pane_right: KeyEvent,
    pub split_pane_right: KeyEvent,
    pub dir_walk: KeyEvent,
    pub dir_up: KeyEvent,
    pub insert_mode: KeyEvent,
    pub normal_mode: KeyEvent,
    pub close_active_pane: KeyEvent,
    pub quit: KeyEvent,
}

impl View for Config {
    type V = ConfigView;

    open spec fn view(&self) -> ConfigView {
        ConfigView {
            normal_mode_text: self.normal_mode_text@,
            insert_mode_text: self.insert_mode_text@,
            show_entry_number: self.show_entry_number,
            show_entry_type: self.show_entry_type,
            show_working_directory: self.show_working_directory,
            simple_working_directory: self.simple_working_directory,
            directory_text: self.directory_text@,
            file_text: self.file_text@,
            symlink_text: self.symlink_text@,
            other_text: self.other_text@,
            new_file: self.new_file,
            new_directory: self.new_directory,
            duplicate: self.duplicate,
            remove: self.remove,
            copy: self.copy,
            paste: self.paste,
            up: self.up,
            select_up: self.select_up,
            pane_up: self.pane_up,
            split_pane_up: self.split_pane_up,
            down: self.down,
            select_down: self.select_down,
            pane_down: self.pane_down,
            split_pane_down: self.split_pane_down,
            left: self.left,
            pane_left: self.pane_left,
            split_pane_left: self.split_pane_left,
            right: self.right,
            pane_right: self.pane_right,
            split_pane_right: self.split_pane_right,
            dir_walk: self.dir_walk,
            dir_up: self.dir_up,
            insert_mode: self.insert_mode,
            normal_mode: self.normal_mode,
            close_active_pane: self.close_active_pane,
            quit: self.quit,
        }
    }
}

impl DeepView for Config {
    type V = ConfigView;

    open spec fn deep_view(&self) -> ConfigView {
        self@
    }
}

/// What a key asks of a panel in Normal mode.
#[derive(Debug, Clone, Copy, PartialEq, Eq, Structural)]
pub enum PanelAction {
    DirWalk,
    DirUp,
    Up,
    SelectUp,
    Down,
    SelectDown,
    Left,
    Right,
    NewFile,
    NewDirectory,
    Duplicate,
    Copy,
    Paste,
    Remove,
    InsertMode,
    Quit,
}

/// What a key asks of a panel in Insert mode.
#[derive(Debug, Clone, Copy, PartialEq, Eq, Structural)]
pub enum InsertAction {
    /// Apply the edit buffer and leave Insert mode.
    Commit,
    /// Remove the character before the cursor.
    Backspace,
    /// Insert a character at the cursor.
    Type(char),
}

/// What a key asks of the window.
#[derive(Debug, Clone, Copy, PartialEq, Eq, Structural)]
pub enum WindowAction {
    PaneUp,
    PaneDown,
    PaneLeft,
    PaneRight,
    SplitUp,
    SplitDown,
    SplitLeft,
    SplitRight,
    CloseActive,
}

impl ConfigView {
    /// The configuration a session starts with.
    pub open spec fn initial() -> ConfigView {
        ConfigView {
            normal_mode_text: "NORMAL"@,
            insert_mode_text: "INSERT"@,
            show_entry_number: true,
            show_entry_type: true,
            show_working_directory: true,
            simple_working_directory: false,
            directory_text: "D"@,
            file_text: "F"@,
            symlink_text: "S"@,
            other_text: "O"@,
            new_file: KeyEvent::spec_new(KeyCode::Char('n'), (KeyModifiers { control: true, ..KeyModifiers::spec_none() })),
            new_directory: KeyEvent::spec_new(KeyCode::Char('b'), (KeyModifiers { control: true, ..KeyModifiers::spec_none() })),
            duplicate: KeyEvent::spec_new(KeyCode::Char('d'), (KeyModifiers { control: true, ..KeyModifiers::spec_none() })),
            remove: KeyEvent::spec_new(KeyCode::Char('x'), (KeyModifiers { control: true, ..KeyModifiers::spec_none() })),
            copy: KeyEvent::spec_new(KeyCode::Char('y'), (KeyModifiers { control: true, ..KeyModifiers::spec_none() })),
            paste: KeyEvent::spec_new(KeyCode::Char('p'), (KeyModifiers { control: true, ..KeyModifiers::spec_none() })),
            up: KeyEvent::spec_new(KeyCode::Char('k'), KeyModifiers::spec_none()),
            select_up: KeyEvent::spec_new(KeyCode::Char('K'), KeyModifiers::spec_none()),
            pane_up: KeyEvent::spec_new(KeyCode::Char('k'), (KeyModifiers { control: true, ..KeyModifiers::spec_none() })),
            split_pane_up: KeyEvent::spec_new(KeyCode::Char('k'), (KeyModifiers { alt: true, ..KeyModifiers::spec_none() })),
            down: KeyEvent::spec_new(KeyCode::Char('j'), KeyModifiers::spec_none()),
            select_down: KeyEvent::spec_new(KeyCode::Char('J'), KeyModifiers::spec_none()),
            pane_down: KeyEvent::spec_new(KeyCode::Char('j'), (KeyModifiers { control: true, ..KeyModifiers::spec_none() })),
            split_pane_down: KeyEvent::spec_new(KeyCode::Char('j'), (KeyModifiers { alt: true, ..KeyModifiers::spec_none() })),
            left: KeyEvent::spec_new(KeyCode::Char('h'), KeyModifiers::spec_none()),
            pane_left: KeyEvent::spec_new(KeyCode::Char('h'), (KeyModifiers { control: true, ..KeyModifiers::spec_none() })),
            split_pane_left: KeyEvent::spec_new(KeyCode::Char('h'), (KeyModifiers { alt: true, ..KeyModifiers::spec_none() })),
            right: KeyEvent::spec_new(KeyCode::Char('l'), KeyModifiers::spec_none()),
            pane_right: KeyEvent::spec_new(KeyCode::Char('l'), (KeyModifiers { control: true, ..KeyModifiers::spec_none() })),
            split_pane_right: KeyEvent::spec_new(KeyCode::Char('l'), (KeyModifiers { alt: true, ..KeyModifiers::spec_none() })),
            dir_walk: KeyEvent::spec_new(KeyCode::Char(' '), KeyModifiers::spec_none()),
            dir_up: KeyEvent::spec_new(KeyCode::Char('x'), KeyModifiers::spec_none()),
            insert_mode: KeyEvent::spec_new(KeyCode::Char('i'), KeyModifiers::spec_none()),
            normal_mode: KeyEvent::spec_new(KeyCode::Esc, KeyModifiers::spec_none()),
            close_active_pane: KeyEvent::spec_new(KeyCode::Char('q'), (KeyModifiers { control: true, ..KeyModifiers::spec_none() })),
            quit: KeyEvent::spec_new(KeyCode::Char('q'), KeyModifiers::spec_none()),
        }
    }

    /// The action of Normal mode bound to `key`: the first binding that
    /// matches, in the order of [`PanelAction`].
    pub open spec fn panel_action(self, key: KeyEvent) -> Option<PanelAction> {
        if key.spec_matches(&self.dir_walk) {
            Some(PanelAction::DirWalk)
        } else if key.spec_matches(&self.dir_up) {
            Some(PanelAction::DirUp)
        } else if key.spec_matches(&self.up) {
            Some(PanelAction::Up)
        } else if key.spec_matches(&self.select_up) {
            Some(PanelAction::SelectUp)
        } else if key.spec_matches(&self.down) {
            Some(PanelAction::Down)
        } else if key.spec_matches(&self.select_down) {
            Some(PanelAction::SelectDown)
        } else if key.spec_matches(&self.left) {
            Some(PanelAction::Left)
        } else if key.spec_matches(&self.right) {
            Some(PanelAction::Right)
        } else if key.spec_matches(&self.new_file) {
            Some(PanelAction::NewFile)
        } else if key.spec_matches(&self.new_directory) {
            Some(PanelAction::NewDirectory)
        } else if key.spec_matches(&self.duplicate) {
            Some(PanelAction::Duplicate)
        } else if key.spec_matches(&self.copy) {
            Some(PanelAction::Copy)
        } else if key.spec_matches(&self.paste) {
            Some(PanelAction::Paste)
        } else if key.spec_matches(&self.remove) {
            Some(PanelAction::Remove)
        } else if key.spec_matches(&self.insert_mode) {
            Some(PanelAction::InsertMode)
        } else if key.spec_matches(&self.quit) {
            Some(PanelAction::Quit)
        } else {
            None
        }
    }

    /// The action of Insert mode that `key` asks for: the bound key or the
    /// press of Enter commits; the press of Backspace or of a character edits.
    pub open spec fn insert_action(self, key: KeyEvent) -> Option<InsertAction> {
        if key.spec_matches(&self.normal_mode) || (key.code == KeyCode::Enter
            && key.spec_is_press()) {
            Some(InsertAction::Commit)
        } else if key.spec_is_press() {
            match key.code {
                KeyCode::Backspace => Some(InsertAction::Backspace),
                KeyCode::Char(c) => Some(InsertAction::Type(c)),
                _ => None,
            }
        } else {
            None
        }
    }

    /// The action of the window bound to `key`: the first binding that
    /// matches, in the order of [`WindowAction`].
    pub open spec fn window_action(self, key: KeyEvent) -> Option<WindowAction> {
        if key.spec_matches(&self.pane_up) {
            Some(WindowAction::PaneUp)
        } else if key.spec_matches(&self.pane_down) {
            Some(WindowAction::PaneDown)
        } else if key.spec_matches(&self.pane_left) {
            Some(WindowAction::PaneLeft)
        } else if key.spec_matches(&self.pane_right) {
            Some(WindowAction::PaneRight)
        } else if key.spec_matches(&self.split_pane_up) {
            Some(WindowAction::SplitUp)
        } else if key.spec_matches(&self.split_pane_down) {
            Some(WindowAction::SplitDown)
        } else if key.spec_matches(&self.split_pane_left) {
            Some(WindowAction::SplitLeft)
        } else if key.spec_matches(&self.split_pane_right) {
            Some(WindowAction::SplitRight)
        } else if key.spec_matches(&self.close_active_pane) {
            Some(WindowAction::CloseActive)
        } else {
            None
        }
    }
}

impl Default for Config {
    fn default() -> (config: Config)
        ensures
            config@ == ConfigView::initial(),
    {
        Config {
            normal_mode_text: String::from_str("NORMAL"),
            insert_mode_text: String::from_str("INSERT"),
            show_entry_number: true,
            show_entry_type: true,
            show_working_directory: true,
            simple_working_directory: false,
            directory_text: String::from_str("D"),
            file_text: String::from_str("F"),
            symlink_text: String::from_str("S"),
            other_text: String::from_str("O"),
            new_file: KeyEvent::new(KeyCode::Char('n'), KeyModifiers::control()),
            new_directory: KeyEvent::new(KeyCode::Char('b'), KeyModifiers::control()),
            duplicate: KeyEvent::new(KeyCode::Char('d'), KeyModifiers::control()),
            remove: KeyEvent::new(KeyCode::Char('x'), KeyModifiers::control()),
            copy: KeyEvent::new(KeyCode::Char('y'), KeyModifiers::control()),
            paste: KeyEvent::new(KeyCode::Char('p'), KeyModifiers::control()),
            up: KeyEvent::new(KeyCode::Char('k'), KeyModifiers::none()),
            select_up: KeyEvent::new(KeyCode::Char('K'), KeyModifiers::none()),
            pane_up: KeyEvent::new(KeyCode::Char('k'), KeyModifiers::control()),
            split_pane_up: KeyEvent::new(KeyCode::Char('k'), KeyModifiers::alt()),
            down: KeyEvent::new(KeyCode::Char('j'), KeyModifiers::none()),
            select_down: KeyEvent::new(KeyCode::Char('J'), KeyModifiers::none()),
            pane_down: KeyEvent::new(KeyCode::Char('j'), KeyModifiers::control()),
            split_pane_down: KeyEvent::new(KeyCode::Char('j'), KeyModifiers::alt()),
            left: KeyEvent::new(KeyCode::Char('h'), KeyModifiers::none()),
            pane_left: KeyEvent::new(KeyCode::Char('h'), KeyModifiers::control()),
            split_pane_left: KeyEvent::new(KeyCode::Char('h'), KeyModifiers::alt()),
            right: KeyEvent::new(KeyCode::Char('l'), KeyModifiers::none()),
            pane_right: KeyEvent::new(KeyCode::Char('l'), KeyModifiers::control()),
            split_pane_right: KeyEvent::new(KeyCode::Char('l'), KeyModifiers::alt()),
            dir_walk: KeyEvent::new(KeyCode::Char(' '), KeyModifiers::none()),
            dir_up: KeyEvent::new(KeyCode::Char('x'), KeyModifiers::none()),
            insert_mode: KeyEvent::new(KeyCode::Char('i'), KeyModifiers::none()),
            normal_mode: KeyEvent::new(KeyCode::Esc, KeyModifiers::none()),
            close_active_pane: KeyEvent::new(KeyCode::Char('q'), KeyModifiers::control()),
            quit: KeyEvent::new(KeyCode::Char('q'), KeyModifiers::none()),
        }
    }
}

impl Config {
    /// The action of Normal mode bound to `key`.
    pub fn panel_action(&self, key: &KeyEvent) -> (action: Option<PanelAction>)
        ensures
            action == self@.panel_action(*key),
    {
        if key.matches(&self.dir_walk) {
            Some(PanelAction::DirWalk)
        } else if key.matches(&self.dir_up) {
            Some(PanelAction::DirUp)
        } else if key.matches(&self.up) {
            Some(PanelAction::Up)
        } else if key.matches(&self.select_up) {
            Some(PanelAction::SelectUp)
        } else if key.matches(&self.down) {
            Some(PanelAction::Down)
        } else if key.matches(&self.select_down) {
            Some(PanelAction::SelectDown)
        } else if key.matches(&self.left) {
            Some(PanelAction::Left)
        } else if key.matches(&self.right) {
            Some(PanelAction::Right)
        } else if key.matches(&self.new_file) {
            Some(PanelAction::NewFile)
        } else if key.matches(&self.new_directory) {
            Some(PanelAction::NewDirectory)
        } else if key.matches(&self.duplicate) {
            Some(PanelAction::Duplicate)
        } else if key.matches(&self.copy) {
            Some(PanelAction::Copy)
        } else if key.matches(&self.paste) {
            Some(PanelAction::Paste)
        } else if key.matches(&self.remove) {
            Some(PanelAction::Remove)
        } else if key.matches(&self.insert_mode) {
            Some(PanelAction::InsertMode)
        } else if key.matches(&self.quit) {
            Some(PanelAction::Quit)
        } else {
            None
        }
    }

    /// The action of Insert mode that `key` asks for.
    pub fn insert_action(&self, key: &KeyEvent) -> (action: Option<InsertAction>)
        ensures
            action == self@.insert_action(*key),
    {
        if key.matches(&self.normal_mode) || (key.code == KeyCode::Enter && key.is_press()) {
            Some(InsertAction::Commit)
        } else if key.is_press() {
            match key.code {
                KeyCode::Backspace => Some(InsertAction::Backspace),
                KeyCode::Char(c) => Some(InsertAction::Type(c)),
                _ => None,
            }
        } else {
            None
        }
    }

    /// The action of the window bound to `key`.
    pub fn window_action(&self, key: &KeyEvent) -> (action: Option<WindowAction>)
        ensures
            action == self@.window_action(*key),
    {
        if key.matches(&self.pane_up) {
            Some(WindowAction::PaneUp)
        } else if key.matches(&self.pane_down) {
            Some(WindowAction::PaneDown)
        } else if key.matches(&self.pane_left) {
            Some(WindowAction::PaneLeft)
        } else if key.matches(&self.pane_right) {
            Some(WindowAction::PaneRight)
        } else if key.matches(&self.split_pane_up) {
            Some(WindowAction::SplitUp)
        } else if key.matches(&self.split_pane_down) {
            Some(WindowAction::SplitDown)
        } else if key.matches(&self.split_pane_left) {
            Some(WindowAction::SplitLeft)
        } else if key.matches(&self.split_pane_right) {
            Some(WindowAction::SplitRight)
        } else if key.matches(&self.close_active_pane) {
            Some(WindowAction::CloseActive)
        } else {
            None
        }
    }
}

/// Makes `toml::Value` known to the verifier, as a value it cannot look into.
#[verifier::external_type_specification]
#[verifier::external_body]
pub struct ExValue(Value);

/// What a TOML table holds under one key, as far as the configuration reads
/// it.
pub enum Setting {
    /// A string.
    Text(Seq<char>),
    /// A boolean.
    Flag(bool),
    /// A value of any other type.
    Other,
}

/// The entries of a TOML value that is a table, by key; no entries for a
/// value that is not a table.
pub uninterp spec fn toml_entries(value: Value) -> Map<Seq<char>, Setting>;

/// The string that `entries` holds under `key`, if it holds one there.
pub open spec fn text_in(entries: Map<Seq<char>, Setting>, key: Seq<char>) -> Option<Seq<char>> {
    if entries.contains_key(key) {
        match entries[key] {
            Setting::Text(text) => Some(text),
            _ => None,
        }
    } else {
        None
    }
}

/// The boolean that `entries` holds under `key`, if it holds one there.
pub open spec fn flag_in(entries: Map<Seq<char>, Setting>, key: Seq<char>) -> Option<bool> {
    if entries.contains_key(key) {
        match entries[key] {
            Setting::Flag(flag) => Some(flag),
            _ => None,
        }
    } else {
        None
    }
}

/// Calls `toml::Value::get` with a string key and `toml::Value::as_str` on
/// what it finds: the string under `key` where `value` is a table that holds
/// a string there, nothing otherwise.
#[verifier::external_body]
fn text_at(value: &Value, key: &str) -> (text: Option<String>)
    ensures
        text.deep_view() == text_in(toml_entries(*value), key@),
{
    match value.get(key) {
        Some(item) => match item.as_str() {
            Some(text) => Some(text.to_string()),
            None => None,
        },
        None => None,
    }
}

/// Calls `toml::Value::get` with a string key and `toml::Value::as_bool` on
/// what it finds: the boolean under `key` where `value` is a table that holds
/// a boolean there, nothing otherwise.
#[verifier::external_body]
fn flag_at(value: &Value, key: &str) -> (flag: Option<bool>)
    ensures
        flag == flag_in(toml_entries(*value), key@),
{
    match value.get(key) {
        Some(item) => item.as_bool(),
        None => None,
    }
}

/// Whether `c` is one of `0` to `9`.
pub open spec fn is_digit(c: char) -> bool {
    '0' <= c && c <= '9'
}

/// The number that a text of decimal digits writes.
pub open spec fn digits_value(digits: Seq<char>) -> nat
    decreases digits.len(),
{
    if digits.len() == 0 {
        0
    } else {
        digits_value(digits.drop_last()) * 10 + (digits.last() as u8 - '0' as u8) as nat
    }
}

/// `text` without its leading `+`, if it has one.
pub open spec fn unsigned_part(text: Seq<char>) -> Seq<char> {
    if text.len() > 0 && text[0] == '+' {
        text.subrange(1, text.len() as int)
    } else {
        text
    }
}

/// The number below 256 that `text` writes in decimal digits, with or
/// without a leading `+`; nothing for any other text.
pub open spec fn small_number(text: Seq<char>) -> Option<u8> {
    let digits = unsigned_part(text);
    if digits.len() > 0 && (forall|i: int| 0 <= i < digits.len() ==> is_digit(#[trigger] digits[i]))
        && digits_value(digits) <= 255 {
        Some(digits_value(digits) as u8)
    } else {
        None
    }
}

/// The value of digits only grows as more digits follow.
proof fn lemma_digits_grow(digits: Seq<char>, upto: int)
    requires
        0 <= upto <= digits.len(),
    ensures
        digits_value(digits.subrange(0, upto)) <= digits_value(digits),
    decreases digits.len() - upto,
{
    if upto < digits.len() {
        lemma_digits_grow(digits, upto + 1);
        assert(digits.subrange(0, upto + 1).drop_last() =~= digits.subrange(0, upto));
    } else {
        assert(digits.subrange(0, upto) =~= digits);
    }
}

/// Reads a number below 256 from its decimal digits.
pub fn parse_small_number(text: &str) -> (number: Option<u8>)
    ensures
        number == small_number(text@),
{
    let count = text.unicode_len();
    let start: usize = if count > 0 && text.get_char(0) == '+' {
        1
    } else {
        0
    };
    let ghost digits = text@.subrange(start as int, count as int);
    assert(digits =~= unsigned_part(text@));
    if start == count {
        return None;
    }
    let mut value: u16 = 0;
    let mut i: usize = start;
    assert(digits.subrange(0, 0) =~= Seq::<char>::empty());
    while i < count
        invariant
            start <= i <= count,
            count == text@.len(),
            digits == text@.subrange(start as int, count as int),
            digits == unsigned_part(text@),
            forall|k: int| 0 <= k < i - start ==> is_digit(#[trigger] digits[k]),
            value == digits_value(digits.subrange(0, i - start)),
            value <= 255,
        decreases count - i,
    {
        let c = text.get_char(i);
        assert(c == digits[i - start]);
        if !('0' <= c && c <= '9') {
            assert(!is_digit(digits[i - start]));
            return None;
        }
        let digit = (c as u8 - '0' as u8) as u16;
        assert(digits.subrange(0, i - start + 1).drop_last() =~= digits.subrange(0, i - start));
        value = value * 10 + digit;
        if value > 255 {
            proof {
                lemma_digits_grow(digits, i - start + 1);
            }
            return None;
        }
        i += 1;
    }
    assert(digits.subrange(0, count - start) =~= digits);
    Some(value as u8)
}

/// The key that a name from the configuration stands for, apart from single
/// characters and function keys.
pub open spec fn named_key(name: Seq<char>) -> Option<KeyCode> {
    if name == "Backspace"@ {
        Some(KeyCode::Backspace)
    } else if name == "Enter"@ {
        Some(KeyCode::Enter)
    } else if name == "Left"@ {
        Some(KeyCode::Left)
    } else if name == "Right"@ {
        Some(KeyCode::Right)
    } else if name == "Up"@ {
        Some(KeyCode::Up)
    } else if name == "Down"@ {
        Some(KeyCode::Down)
    } else if name == "Home"@ {
        Some(KeyCode::Home)
    } else if name == "End"@ {
        Some(KeyCode::End)
    } else if name == "PageUp"@ {
        Some(KeyCode::PageUp)
    } else if name == "PageDown"@ {
        Some(KeyCode::PageDown)
    } else if name == "Tab"@ {
        Some(KeyCode::Tab)
    } else if name == "BackTab"@ {
        Some(KeyCode::BackTab)
    } else if name == "Delete"@ {
        Some(KeyCode::Delete)
    } else if name == "Insert"@ {
        Some(KeyCode::Insert)
    } else if name == "Esc"@ {
        Some(KeyCode::Esc)
    } else {
        None
    }
}

/// The key that a text from the configuration stands for: a single character
/// is that character's key, `F` before a number below 256 is a function key,
/// and a few keys go by name.
pub open spec fn key_code(text: Seq<char>) -> Option<KeyCode> {
    if text.len() == 1 {
        Some(KeyCode::Char(text[0]))
    } else if text.len() > 1 && text[0] == 'F' && small_number(text.subrange(1, text.len() as int))
        is Some {
        Some(KeyCode::F(small_number(text.subrange(1, text.len() as int))->0))
    } else {
        named_key(text)
    }
}

/// The modifiers that the letters before the `-` of a binding ask for: `c` or
/// `C` for control, `s` or `S` for shift, `a` or `S` for alt.
pub open spec fn modifiers_in(letters: Seq<char>) -> KeyModifiers {
    KeyModifiers {
        control: letters.contains('c') || letters.contains('C'),
        shift: letters.contains('s') || letters.contains('S'),
        alt: letters.contains('a') || letters.contains('S'),
        ..KeyModifiers::spec_none()
    }
}

/// Whether `at` is the index of the first `-` in `text`.
pub open spec fn first_dash(text: Seq<char>, at: int) -> bool {
    &&& 0 <= at < text.len()
    &&& text[at] == '-'
    &&& forall|k: int| 0 <= k < at ==> text[k] != '-'
}

/// The key and modifiers that a binding from the configuration asks for. The
/// text before the first `-` names the modifiers, the text after it the key;
/// without a `-` the whole text names the key. Nothing where the key is not
/// known.
pub open spec fn binding(text: Seq<char>) -> Option<(KeyCode, KeyModifiers)> {
    if text.contains('-') {
        let at = choose|at: int| first_dash(text, at);
        match key_code(text.subrange(at + 1, text.len() as int)) {
            Some(code) => Some((code, modifiers_in(text.subrange(0, at)))),
            None => None,
        }
    } else {
        match key_code(text) {
            Some(code) => Some((code, KeyModifiers::spec_none())),
            None => None,
        }
    }
}

/// `event` with the key and modifiers that `text` asks for, or as it is where
/// there is no text or its key is not known.
pub open spec fn rebound(event: KeyEvent, text: Option<Seq<char>>) -> KeyEvent {
    match text {
        Some(text) => match binding(text) {
            Some((code, modifiers)) => KeyEvent { code, modifiers, ..event },
            None => event,
        },
        None => event,
    }
}

/// `old` replaced by `new` where there is one.
pub open spec fn replaced<T>(old: T, new: Option<T>) -> T {
    match new {
        Some(value) => value,
        None => old,
    }
}

impl ConfigView {
    /// The configuration with each label taken over that `entries` holds as
    /// a string under the label's name.
    pub open spec fn labelled(self, entries: Map<Seq<char>, Setting>) -> ConfigView {
        ConfigView {
            normal_mode_text: replaced(self.normal_mode_text, text_in(entries, "normal_mode_text"@)),
            insert_mode_text: replaced(self.insert_mode_text, text_in(entries, "insert_mode_text"@)),
            directory_text: replaced(self.directory_text, text_in(entries, "directory_text"@)),
            file_text: replaced(self.file_text, text_in(entries, "file_text"@)),
            symlink_text: replaced(self.symlink_text, text_in(entries, "symlink_text"@)),
            other_text: replaced(self.other_text, text_in(entries, "other_text"@)),
            ..self
        }
    }

    /// The configuration with each switch taken over that `entries` holds as
    /// a boolean under the switch's name.
    pub open spec fn switched(self, entries: Map<Seq<char>, Setting>) -> ConfigView {
        ConfigView {
            show_entry_number: replaced(self.show_entry_number, flag_in(entries, "show_entry_number"@)),
            show_entry_type: replaced(self.show_entry_type, flag_in(entries, "show_entry_type"@)),
            show_working_directory: replaced(self.show_working_directory, flag_in(entries, "show_working_directory"@)),
            simple_working_directory: replaced(self.simple_working_directory, flag_in(entries, "simple_working_directory"@)),
            ..self
        }
    }

    /// The configuration with each action of a panel bound anew for which
    /// `entries` holds, under the action's name, a string that names a known
    /// key.
    pub open spec fn panel_bound(self, entries: Map<Seq<char>, Setting>) -> ConfigView {
        ConfigView {
            new_file: rebound(self.new_file, text_in(entries, "new_file"@)),
            new_directory: rebound(self.new_directory, text_in(entries, "new_directory"@)),
            duplicate: rebound(self.duplicate, text_in(entries, "duplicate"@)),
            remove: rebound(self.remove, text_in(entries, "remove"@)),
            copy: rebound(self.copy, text_in(entries, "copy"@)),
            paste: rebound(self.paste, text_in(entries, "paste"@)),
            up: rebound(self.up, text_in(entries, "up"@)),
            select_up: rebound(self.select_up, text_in(entries, "select_up"@)),
            down: rebound(self.down, text_in(entries, "down"@)),
            select_down: rebound(self.select_down, text_in(entries, "select_down"@)),
            left: rebound(self.left, text_in(entries, "left"@)),
            right: rebound(self.right, text_in(entries, "right"@)),
            dir_walk: rebound(self.dir_walk, text_in(entries, "dir_walk"@)),
            dir_up: rebound(self.dir_up, text_in(entries, "dir_up"@)),
            insert_mode: rebound(self.insert_mode, text_in(entries, "insert_mode"@)),
            normal_mode: rebound(self.normal_mode, text_in(entries, "normal_mode"@)),
            quit: rebound(self.quit, text_in(entries, "quit"@)),
            ..self
        }
    }

    /// The configuration with each action of the window bound anew for which
    /// `entries` holds, under the action's name, a string that names a known
    /// key.
    pub open spec fn window_bound(self, entries: Map<Seq<char>, Setting>) -> ConfigView {
        ConfigView {
            pane_up: rebound(self.pane_up, text_in(entries, "pane_up"@)),
            split_pane_up: rebound(self.split_pane_up, text_in(entries, "split_pane_up"@)),
            pane_down: rebound(self.pane_down, text_in(entries, "pane_down"@)),
            split_pane_down: rebound(self.split_pane_down, text_in(entries, "split_pane_down"@)),
            pane_left: rebound(self.pane_left, text_in(entries, "pane_left"@)),
            split_pane_left: rebound(self.split_pane_left, text_in(entries, "split_pane_left"@)),
            pane_right: rebound(self.pane_right, text_in(entries, "pane_right"@)),
            split_pane_right: rebound(self.split_pane_right, text_in(entries, "split_pane_right"@)),
            close_active_pane: rebound(self.close_active_pane, text_in(entries, "close_active_pane"@)),
            ..self
        }
    }

    /// The configuration with every setting that `entries` holds under the
    /// name of a field taken over: labels, switches, and bindings.
    pub open spec fn configured(self, entries: Map<Seq<char>, Setting>) -> ConfigView {
        self.labelled(entries).switched(entries).panel_bound(entries).window_bound(entries)
    }
}

impl Config {
    /// The key that a text from the configuration stands for.
    pub fn key_code_from_str(text: &str) -> (code: Option<KeyCode>)
        ensures
            code == key_code(text@),
    {
        let count = text.unicode_len();
        if count == 1 {
            return Some(KeyCode::Char(text.get_char(0)));
        }
        if count > 1 && text.get_char(0) == 'F' {
            if let Some(number) = parse_small_number(text.substring_char(1, count)) {
                return Some(KeyCode::F(number));
            }
        }
        if same_text(text, "Backspace") {
            Some(KeyCode::Backspace)
        } else if same_text(text, "Enter") {
            Some(KeyCode::Enter)
        } else if same_text(text, "Left") {
            Some(KeyCode::Left)
        } else if same_text(text, "Right") {
            Some(KeyCode::Right)
        } else if same_text(text, "Up") {
            Some(KeyCode::Up)
        } else if same_text(text, "Down") {
            Some(KeyCode::Down)
        } else if same_text(text, "Home") {
            Some(KeyCode::Home)
        } else if same_text(text, "End") {
            Some(KeyCode::End)
        } else if same_text(text, "PageUp") {
            Some(KeyCode::PageUp)
        } else if same_text(text, "PageDown") {
            Some(KeyCode::PageDown)
        } else if same_text(text, "Tab") {
            Some(KeyCode::Tab)
        } else if same_text(text, "BackTab") {
            Some(KeyCode::BackTab)
        } else if same_text(text, "Delete") {
            Some(KeyCode::Delete)
        } else if same_text(text, "Insert") {
            Some(KeyCode::Insert)
        } else if same_text(text, "Esc") {
            Some(KeyCode::Esc)
        } else {
            None
        }
    }

    /// Gives `key_event` the key and modifiers that `text` asks for, where
    /// there is a text and its key is known.
    pub fn key_event_from_toml(key_event: &mut KeyEvent, text: Option<String>)
        ensures
            *final(key_event) == rebound(*old(key_event), text.deep_view()),
    {
        if let Some(text) = text {
            let text = text.as_str();
            let (code, modifiers) = match find_char(text, '-') {
                Some(at) => {
                    let count = text.unicode_len();
                    let letters = text.substring_char(0, at);
                    let modifiers = KeyModifiers {
                        control: contains_char(letters, 'c') || contains_char(letters, 'C'),
                        shift: contains_char(letters, 's') || contains_char(letters, 'S'),
                        alt: contains_char(letters, 'a') || contains_char(letters, 'S'),
                        ..KeyModifiers::none()
                    };
                    proof {
                        assert(first_dash(text@, at as int));
                        assert(text@.contains('-'));
                        let chosen = choose|k: int| first_dash(text@, k);
                        assert(chosen == at);
                    }
                    (Self::key_code_from_str(text.substring_char(at + 1, count)), modifiers)
                },
                None => {
                    proof {
                        if text@.contains('-') {
                            let k = choose|k: int| 0 <= k < text@.len() && text@[k] == '-';
                            assert(text@[k] != '-');
                        }
                    }
                    (Self::key_code_from_str(text), KeyModifiers::none())
                },
            };
            if let Some(code) = code {
                key_event.code = code;
                key_event.modifiers = modifiers;
            }
        }
    }

    /// Replaces `label` by `text` where there is one.
    fn take_text(label: &mut String, text: Option<String>)
        ensures
            final(label)@ == replaced(old(label)@, text.deep_view()),
    {
        if let Some(text) = text {
            *label = text;
        }
    }

    /// Replaces `switch` by `flag` where there is one.
    fn take_flag(switch: &mut bool, flag: Option<bool>)
        ensures
            *final(switch) == replaced(*old(switch), flag),
    {
        if let Some(flag) = flag {
            *switch = flag;
        }
    }

    /// Takes over the labels that `toml` holds.
    fn labels_from_toml(&mut self, toml: &Value)
        ensures
            final(self)@ == old(self)@.labelled(toml_entries(*toml)),
    {
        Self::take_text(&mut self.normal_mode_text, text_at(toml, "normal_mode_text"));
        Self::take_text(&mut self.insert_mode_text, text_at(toml, "insert_mode_text"));
        Self::take_text(&mut self.directory_text, text_at(toml, "directory_text"));
        Self::take_text(&mut self.file_text, text_at(toml, "file_text"));
        Self::take_text(&mut self.symlink_text, text_at(toml, "symlink_text"));
        Self::take_text(&mut self.other_text, text_at(toml, "other_text"));
    }

    /// Takes over the switches that `toml` holds.
    fn switches_from_toml(&mut self, toml: &Value)
        ensures
            final(self)@ == old(self)@.switched(toml_entries(*toml)),
    {
        Self::take_flag(&mut self.show_entry_number, flag_at(toml, "show_entry_number"));
        Self::take_flag(&mut self.show_entry_type, flag_at(toml, "show_entry_type"));
        Self::take_flag(&mut self.show_working_directory, flag_at(toml, "show_working_directory"));
        Self::take_flag(&mut self.simple_working_directory, flag_at(toml, "simple_working_directory"));
    }

    /// Takes over the bindings of a panel's actions that `toml` holds.
    fn panel_keys_from_toml(&mut self, toml: &Value)
        ensures
            final(self)@ == old(self)@.panel_bound(toml_entries(*toml)),
    {
        Self::key_event_from_toml(&mut self.new_file, text_at(toml, "new_file"));
        Self::key_event_from_toml(&mut self.new_directory, text_at(toml, "new_directory"));
        Self::key_event_from_toml(&mut self.duplicate, text_at(toml, "duplicate"));
        Self::key_event_from_toml(&mut self.remove, text_at(toml, "remove"));
        Self::key_event_from_toml(&mut self.copy, text_at(toml, "copy"));
        Self::key_event_from_toml(&mut self.paste, text_at(toml, "paste"));
        Self::key_event_from_toml(&mut self.up, text_at(toml, "up"));
        Self::key_event_from_toml(&mut self.select_up, text_at(toml, "select_up"));
        Self::key_event_from_toml(&mut self.down, text_at(toml, "down"));
        Self::key_event_from_toml(&mut self.select_down, text_at(toml, "select_down"));
        Self::key_event_from_toml(&mut self.left, text_at(toml, "left"));
        Self::key_event_from_toml(&mut self.right, text_at(toml, "right"));
        Self::key_event_from_toml(&mut self.dir_walk, text_at(toml, "dir_walk"));
        Self::key_event_from_toml(&mut self.dir_up, text_at(toml, "dir_up"));
        Self::key_event_from_toml(&mut self.insert_mode, text_at(toml, "insert_mode"));
        Self::key_event_from_toml(&mut self.normal_mode, text_at(toml, "normal_mode"));
        Self::key_event_from_toml(&mut self.quit, text_at(toml, "quit"));
    }

    /// Takes over the bindings of the window's actions that `toml` holds.
    fn window_keys_from_toml(&mut self, toml: &Value)
        ensures
            final(self)@ == old(self)@.window_bound(toml_entries(*toml)),
    {
        Self::key_event_from_toml(&mut self.pane_up, text_at(toml, "pane_up"));
        Self::key_event_from_toml(&mut self.split_pane_up, text_at(toml, "split_pane_up"));
        Self::key_event_from_toml(&mut self.pane_down, text_at(toml, "pane_down"));
        Self::key_event_from_toml(&mut self.split_pane_down, text_at(toml, "split_pane_down"));
        Self::key_event_from_toml(&mut self.pane_left, text_at(toml, "pane_left"));
        Self::key_event_from_toml(&mut self.split_pane_left, text_at(toml, "split_pane_left"));
        Self::key_event_from_toml(&mut self.pane_right, text_at(toml, "pane_right"));
        Self::key_event_from_toml(&mut self.split_pane_right, text_at(toml, "split_pane_right"));
        Self::key_event_from_toml(&mut self.close_active_pane, text_at(toml, "close_active_pane"));
    }

    /// Takes over every setting that the TOML table `toml` holds under the
    /// name of a field; see [`ConfigView::configured`]. Settings of the wrong
    /// type, unknown keys and unknown names leave the configuration as it is.
    pub fn from_toml(&mut self, toml: Value)
        ensures
            final(self)@ == old(self)@.configured(toml_entries(toml)),
    {
        self.labels_from_toml(&toml);
        self.switches_from_toml(&toml);
        self.panel_keys_from_toml(&toml);
        self.window_keys_from_toml(&toml);
    }
}

} // verus!
