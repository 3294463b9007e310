//! What a panel shows: its title, the text in front of each entry, which
//! entries are marked as selected, and where the cursor stands on screen.
//! Drawing itself is the caller's work.

use crate::config::{Config, ConfigView};
use crate::errors::WalkedErrorView;
use crate::panel::{Panel, PanelMode, PanelView};
use crate::paths::{file_name, path_file_name};
use vstd::prelude::*;

verus! {

/// The number of columns that the mark in front of the selected row takes.
pub const HIGHLIGHT_WIDTH: u16 = 2;

/// How an entry is labelled by type.
#[derive(Debug, Clone, Copy, PartialEq, Eq, Structural)]
pub enum EntryLook {
    File,
    Dir,
    Symlink,
    Other,
}

/// What is known of an entry's size.
#[derive(Debug, Clone, Copy, PartialEq, Eq, Structural)]
pub enum EntrySize {
    /// The entry's metadata could not be read.
    Unknown,
    /// A file of this many bytes.
    Bytes(u64),
    /// Not a file.
    NotAFile,
}

/// The character for one decimal digit.
pub open spec fn digit_char(digit: nat) -> char {
    ('0' as u8 + digit) as char
}

/// The decimal digits of `n`.
pub open spec fn decimal(n: nat) -> Seq<char>
    decreases n,
{
    if n < 10 {
        seq![digit_char(n)]
    } else {
        decimal(n / 10).push(digit_char(n % 10))
    }
}

/// The decimal digits of `n`.
pub fn decimal_text(n: usize) -> (text: String)
    ensures
        text@ == decimal(n as nat),
    decreases n,
{
    if n < 10 {
        let mut text = String::new();
        text.push((48u8 + n as u8) as char);
        assert(text@ =~= seq![digit_char(n as nat)]);
        text
    } else {
        let mut text = decimal_text(n / 10);
        text.push((48u8 + (n % 10) as u8) as char);
        text
    }
}

/// `text` with spaces in front until it is `width` characters long.
pub open spec fn padded(text: Seq<char>, width: nat) -> Seq<char> {
    if text.len() >= width {
        text
    } else {
        Seq::new((width - text.len()) as nat, |i: int| ' ') + text
    }
}

/// `text` with spaces in front until it is `width` characters long.
pub fn pad_left(text: &str, width: usize) -> (out: String)
    ensures
        out@ == padded(text@, width as nat),
{
    let count = text.unicode_len();
    let mut out = String::new();
    if count < width {
        let mut i: usize = 0;
        while i < width - count
            invariant
                count < width,
                i <= width - count,
                out@ == Seq::new(i as nat, |k: int| ' '),
            decreases width - count - i,
        {
            out.push(' ');
            i += 1;
            assert(out@ =~= Seq::new(i as nat, |k: int| ' '));
        }
    }
    out.append(text);
    assert(out@ =~= padded(text@, width as nat));
    out
}

/// The words in which `bytesize::ByteSize` displays a size of `bytes` bytes.
pub uninterp spec fn size_words(bytes: u64) -> Seq<char>;

/// Calls `bytesize::ByteSize::b` and formats the size as its `Display` does:
/// the result is named by the number of bytes alone. Below 1000 bytes it is
/// the number followed by ` B`; larger sizes are divided by a power of 1000
/// and shown with one decimal and a unit.
#[verifier::external_body]
fn size_label(bytes: u64) -> (label: String)
    ensures
        label@ == size_words(bytes),
        bytes < 1000 ==> label@ == decimal(bytes as nat) + " B"@,
{
    format!("{}", bytesize::ByteSize::b(bytes))
}

impl ConfigView {
    /// The label for an entry of the given look.
    pub open spec fn look_text(self, look: EntryLook) -> Seq<char> {
        match look {
            EntryLook::File => self.file_text,
            EntryLook::Dir => self.directory_text,
            EntryLook::Symlink => self.symlink_text,
            EntryLook::Other => self.other_text,
        }
    }

    /// The label for a mode.
    pub open spec fn mode_text(self, mode: PanelMode) -> Seq<char> {
        match mode {
            PanelMode::Normal => self.normal_mode_text,
            PanelMode::Insert => self.insert_mode_text,
        }
    }

    /// The text in front of the entry at `index` of `count` entries: its
    /// index, padded to the width of the greatest index, where entry numbers
    /// are shown; its type label, after a colon if the index stands before
    /// it, where entry types are shown; and what `size` gives, if anything.
    pub open spec fn header(self, index: nat, count: nat, look: EntryLook, size: Option<Seq<char>>)
        -> Seq<char> {
        let number = if self.show_entry_number {
            padded(decimal(index), decimal((count - 1) as nat).len())
        } else {
            Seq::empty()
        };
        let kind = if self.show_entry_type {
            if self.show_entry_number {
                seq![':'] + self.look_text(look)
            } else {
                self.look_text(look)
            }
        } else {
            Seq::empty()
        };
        let detail = match size {
            Some(text) => text,
            None => Seq::empty(),
        };
        number + kind + detail
    }
}

/// What a header shows of an entry's size: nothing where it is unknown, the
/// size in words after a space for a file, and a dash for anything else.
pub open spec fn size_text(size: EntrySize) -> Option<Seq<char>> {
    match size {
        EntrySize::Unknown => None,
        EntrySize::Bytes(bytes) => Some(" "@ + size_words(bytes)),
        EntrySize::NotAFile => Some(" - "@),
    }
}

impl Config {
    /// The label for an entry of the given look.
    pub fn look_text(&self, look: EntryLook) -> (text: &String)
        ensures
            text@ == self@.look_text(look),
    {
        match look {
            EntryLook::File => &self.file_text,
            EntryLook::Dir => &self.directory_text,
            EntryLook::Symlink => &self.symlink_text,
            EntryLook::Other => &self.other_text,
        }
    }

    /// The text in front of an entry, given its size in words; see
    /// [`ConfigView::header`].
    pub fn compose_header(&self, index: usize, count: usize, look: EntryLook, size: Option<&str>)
        -> (header: String)
        requires
            index < count,
        ensures
            header@ == self@.header(index as nat, count as nat, look, size.deep_view()),
    {
        let mut header = String::new();
        if self.show_entry_number {
            let width = decimal_text(count - 1).as_str().unicode_len();
            header.append(pad_left(decimal_text(index).as_str(), width).as_str());
        }
        if self.show_entry_type {
            if self.show_entry_number {
                header.push(':');
            }
            header.append(self.look_text(look).as_str());
        }
        if let Some(text) = size {
            header.append(text);
        }
        assert(header@ =~= self@.header(index as nat, count as nat, look, size.deep_view()));
        header
    }

    /// The text in front of an entry. The size of a file is put into words
    /// by the `bytesize` crate.
    pub fn entry_header(&self, index: usize, count: usize, look: EntryLook, size: EntrySize) -> (header:
        String)
        requires
            index < count,
        ensures
            header@ == self@.header(index as nat, count as nat, look, size_text(size)),
            size matches EntrySize::Bytes(bytes) ==> bytes < 1000 ==> size_text(size) == Some(
                " "@ + (decimal(bytes as nat) + " B"@),
            ),
    {
        match size {
            EntrySize::Unknown => self.compose_header(index, count, look, None),
            EntrySize::Bytes(bytes) => {
                let label = size_label(bytes);
                let mut text = String::from_str(" ");
                text.append(label.as_str());
                self.compose_header(index, count, look, Some(text.as_str()))
            },
            EntrySize::NotAFile => self.compose_header(index, count, look, Some(" - ")),
        }
    }
}

impl PanelMode {
    /// The label the configuration gives this mode.
    pub fn to_string(&self, config: &Config) -> (label: String)
        ensures
            label@ == config@.mode_text(*self),
    {
        match self {
            PanelMode::Normal => config.normal_mode_text.clone(),
            PanelMode::Insert => config.insert_mode_text.clone(),
        }
    }
}

/// The name an entry is listed under: the final component of its path, or
/// `..` for a path that has none.
pub open spec fn listed_name(path: Seq<char>) -> Seq<char> {
    match path_file_name(path) {
        Some(name) => name,
        None => ".."@,
    }
}

/// The name an entry is listed under.
pub fn entry_name(path: &str) -> (name: String)
    ensures
        name@ == listed_name(path@),
{
    match file_name(path) {
        Some(name) => name,
        None => String::from_str(".."),
    }
}

/// The texts of queued errors, each followed by a space, one after another.
pub open spec fn error_line(errors: Seq<WalkedErrorView>) -> Seq<char>
    decreases errors.len(),
{
    if errors.len() == 0 {
        Seq::empty()
    } else {
        error_line(errors.drop_last()) + errors.last().text() + " "@
    }
}

/// Whether the entry at `index` is marked as part of the selection: it lies
/// between the selection start and the cursor, the start included and the
/// cursor, which is marked in its own way, left out.
pub open spec fn in_selection(index: usize, cursor: Option<usize>, start: Option<usize>) -> bool {
    match (cursor, start) {
        (Some(cursor), Some(start)) => if cursor > start {
            start <= index && index < cursor
        } else if cursor < start {
            cursor < index && index <= start
        } else {
            false
        },
        _ => false,
    }
}

/// The lesser of two numbers.
pub open spec fn least(a: int, b: int) -> int {
    if a <= b {
        a
    } else {
        b
    }
}

/// The sum of two numbers, stopping at the greatest `u16`.
pub open spec fn capped_sum(a: u16, b: u16) -> u16 {
    if a + b > u16::MAX {
        u16::MAX
    } else {
        (a + b) as u16
    }
}

/// The sum of two numbers, stopping at the greatest `u16`.
pub fn add_capped(a: u16, b: u16) -> (sum: u16)
    ensures
        sum == capped_sum(a, b),
{
    if a > u16::MAX - b {
        u16::MAX
    } else {
        a + b
    }
}

impl PanelView {
    /// The title of the panel: its working directory, or the queued errors
    /// while there are any.
    pub open spec fn title(self) -> Seq<char> {
        if self.errors.len() > 0 {
            error_line(self.errors)
        } else {
            self.working_directory
        }
    }

    /// Whether the entry at `index` is marked as part of the selection.
    pub open spec fn marks(self, index: usize) -> bool {
        in_selection(index, self.cursor, self.selection_start)
    }

    /// The row of the table, counted from the first row shown, on which the
    /// cursor stands when the table is `height` rows high.
    pub open spec fn cursor_row(self, height: u16) -> u16 {
        match self.cursor {
            Some(cursor) => if cursor < self.offset || self.entries.len() == 0 {
                0
            } else {
                least(
                    cursor - self.offset,
                    least(self.entries.len() - 1, if height == 0 {
                        0
                    } else {
                        height - 1
                    }),
                ) as u16
            },
            None => 0,
        }
    }

    /// The column of the screen on which the cursor stands, for a panel drawn
    /// from column `x`: after the left margin, the header, one column of
    /// spacing, and in Normal mode the mark of the selected row.
    pub open spec fn cursor_column(self, x: u16) -> u16 {
        let mark = if self.mode == PanelMode::Normal {
            HIGHLIGHT_WIDTH
        } else {
            0
        };
        capped_sum(
            capped_sum(
                capped_sum(capped_sum(capped_sum(x, self.left), self.header_width), 1),
                self.cursor_offset,
            ),
            mark,
        )
    }

    /// The line of the screen on which the cursor stands, for a panel drawn
    /// from line `y` whose table is `height` rows high.
    pub open spec fn cursor_line(self, y: u16, height: u16) -> u16 {
        capped_sum(capped_sum(capped_sum(y, self.top), 1), self.cursor_row(height))
    }
}

impl Panel {
    /// The title of the panel and whether it shows errors.
    pub fn title(&self) -> (title: (String, bool))
        ensures
            title.0@ == self@.title(),
            title.1 == (self@.errors.len() > 0),
    {
        if self.errors.len() > 0 {
            let mut line = String::new();
            let mut i: usize = 0;
            assert(self@.errors.subrange(0, 0) =~= Seq::<WalkedErrorView>::empty());
            while i < self.errors.len()
                invariant
                    i <= self.errors.len(),
                    line@ == error_line(self@.errors.subrange(0, i as int)),
                decreases self.errors.len() - i,
            {
                let ghost head = self@.errors.subrange(0, i + 1);
                assert(head.drop_last() =~= self@.errors.subrange(0, i as int));
                assert(head.last() == self.errors[i as int]@);
                line.append(self.errors[i].to_string().as_str());
                line.append(" ");
                i += 1;
            }
            assert(self@.errors.subrange(0, i as int) =~= self@.errors);
            (line, true)
        } else {
            (self.working_directory.clone(), false)
        }
    }

    /// Whether the entry at `index` is marked as part of the selection.
    pub fn is_in_selection(&self, index: usize) -> (marked: bool)
        ensures
            marked == self@.marks(index),
    {
        match (self.table_state.selected(), self.selection_start) {
            (Some(cursor), Some(start)) => {
                if cursor > start {
                    start <= index && index < cursor
                } else if cursor < start {
                    cursor < index && index <= start
                } else {
                    false
                }
            },
            _ => false,
        }
    }

    /// Makes the header column at least as wide as `header`.
    pub fn widen_header(&mut self, header: &str)
        ensures
            final(self)@ == (PanelView {
                header_width: if header@.len() > old(self)@.header_width {
                    if header@.len() > u16::MAX {
                        u16::MAX
                    } else {
                        header@.len() as u16
                    }
                } else {
                    old(self)@.header_width
                },
                ..old(self)@
            }),
    {
        let count = header.unicode_len();
        if count > self.header_width as usize {
            self.header_width = if count > u16::MAX as usize {
                u16::MAX
            } else {
                count as u16
            };
        }
    }

    /// Where the cursor stands on screen, as column and line, for a panel
    /// drawn from column `x` and line `y` whose table is `height` rows high;
    /// nothing while no entry is selected.
    pub fn cursor_position(&self, x: u16, y: u16, height: u16) -> (position: Option<(u16, u16)>)
        ensures
            position == match self@.cursor {
                Some(_) => Some((self@.cursor_column(x), self@.cursor_line(y, height))),
                None => None,
            },
    {
        match self.table_state.selected() {
            Some(cursor) => {
                let offset = self.table_state.offset();
                let row: u16 = if cursor < offset || self.entries.len() == 0 {
                    0
                } else {
                    let below = cursor - offset;
                    let last = self.entries.len() - 1;
                    let room = if height == 0 {
                        0
                    } else {
                        (height - 1) as usize
                    };
                    let bound = if last <= room {
                        last
                    } else {
                        room
                    };
                    if below <= bound {
                        below as u16
                    } else {
                        bound as u16
                    }
                };
                let mark = if self.mode == PanelMode::Normal {
                    HIGHLIGHT_WIDTH
                } else {
                    0
                };
                let column = add_capped(
                    add_capped(
                        add_capped(add_capped(add_capped(x, self.left), self.header_width), 1),
                        self.cursor_offset,
                    ),
                    mark,
                );
                let line = add_capped(add_capped(add_capped(y, self.top), 1), row);
                Some((column, line))
            },
            None => None,
        }
    }
}

/// The part of the screen that one panel of a grid gets.
#[derive(Debug, Clone, Copy, PartialEq, Eq, Structural)]
pub struct PaneArea {
    pub x: u16,
    pub y: u16,
    pub width: u16,
    pub height: u16,
}

/// The area of the panel at row `i`, column `j`, when an area is shared out
/// evenly among `rows` rows and, within the row, among `columns` panels.
pub open spec fn pane_area(area: PaneArea, rows: nat, columns: nat, i: nat, j: nat) -> PaneArea {
    let height = area.height as nat / rows;
    let width = area.width as nat / columns;
    PaneArea {
        x: (area.x + j * width) as u16,
        y: (area.y + i * height) as u16,
        width: width as u16,
        height: height as u16,
    }
}

/// The area of the panel at row `i`, column `j`, when `area` is shared out
/// evenly among `rows` rows and, within the row, among `columns` panels.
/// Nothing where the area would not fit the screen's coordinates.
pub fn layout_pane(area: PaneArea, rows: usize, columns: usize, i: usize, j: usize) -> (pane:
    Option<PaneArea>)
    requires
        i < rows,
        j < columns,
    ensures
        pane matches Some(p) ==> p == pane_area(
            area,
            rows as nat,
            columns as nat,
            i as nat,
            j as nat,
        ),
        pane is None <==> area.x + area.width > u16::MAX || area.y + area.height > u16::MAX,
{
    if area.x as u32 + area.width as u32 > u16::MAX as u32 || area.y as u32 + area.height as u32
        > u16::MAX as u32 {
        return None;
    }
    let height = area.height as usize / rows;
    let width = area.width as usize / columns;
    assert(j * width <= area.width && i * height <= area.height) by (nonlinear_arith)
        requires
            i < rows,
            j < columns,
            height == area.height as usize / rows,
            width == area.width as usize / columns,
    ;
    Some(
        PaneArea {
            x: (area.x as usize + j * width) as u16,
            y: (area.y as usize + i * height) as u16,
            width: width as u16,
            height: height as u16,
        },
    )
}

} // verus!
