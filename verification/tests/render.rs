use walked::config::Config;
use walked::errors::{PathKind, WalkedError};
use walked::panel::{Panel, PanelMode};
use walked::render::{
    add_capped, decimal_text, layout_pane, pad_left, EntryLook, EntrySize, PaneArea,
};

fn listed(dir: &str, names: &[&str]) -> Panel {
    let mut panel = Panel::new(dir.to_string());
    let children = names
        .iter()
        .map(|n| walked::disk::DirEntry {
            path: format!("{}/{}", dir, n),
            state: walked::disk::PathState::File,
        })
        .collect();
    panel.resume(walked::disk::Reply::Listing(Some(children)));
    panel
}

#[test]
fn decimal_digits() {
    assert_eq!(decimal_text(0), "0");
    assert_eq!(decimal_text(7), "7");
    assert_eq!(decimal_text(10), "10");
    assert_eq!(decimal_text(909), "909");
    assert_eq!(decimal_text(1234567890), "1234567890");
    assert_eq!(decimal_text(usize::MAX), usize::MAX.to_string());
}

#[test]
fn padding_on_the_left() {
    assert_eq!(pad_left("7", 3), "  7");
    assert_eq!(pad_left("123", 3), "123");
    assert_eq!(pad_left("1234", 3), "1234");
    assert_eq!(pad_left("", 2), "  ");
    assert_eq!(pad_left("ä", 2), " ä");
    assert_eq!(pad_left("x", 0), "x");
}

#[test]
fn header_with_number_type_and_size() {
    let config = Config::default();
    assert_eq!(config.entry_header(3, 12, EntryLook::File, EntrySize::Bytes(512)), " 3:F 512 B");
    assert_eq!(config.entry_header(11, 12, EntryLook::Dir, EntrySize::NotAFile), "11:D - ");
    assert_eq!(config.entry_header(0, 1, EntryLook::Symlink, EntrySize::Unknown), "0:S");
    assert_eq!(config.entry_header(5, 101, EntryLook::Other, EntrySize::NotAFile), "  5:O - ");
    assert_eq!(config.entry_header(9, 10, EntryLook::File, EntrySize::Bytes(0)), "9:F 0 B");
    assert_eq!(config.entry_header(9, 11, EntryLook::File, EntrySize::Bytes(999)), " 9:F 999 B");
}

#[test]
fn header_of_a_large_file_uses_a_unit() {
    let config = Config::default();
    assert_eq!(config.entry_header(0, 1, EntryLook::File, EntrySize::Bytes(1500)), "0:F 1.5 KB");
    assert_eq!(
        config.entry_header(0, 1, EntryLook::File, EntrySize::Bytes(1000)),
        format!("0:F {}", bytesize::ByteSize::b(1000))
    );
}

#[test]
fn header_follows_the_switches() {
    let mut config = Config::default();
    config.show_entry_number = false;
    assert_eq!(config.entry_header(3, 12, EntryLook::File, EntrySize::Bytes(5)), "F 5 B");
    config.show_entry_type = false;
    assert_eq!(config.entry_header(3, 12, EntryLook::File, EntrySize::Bytes(5)), " 5 B");
    assert_eq!(config.entry_header(3, 12, EntryLook::File, EntrySize::Unknown), "");
    config.show_entry_number = true;
    assert_eq!(config.entry_header(3, 12, EntryLook::Dir, EntrySize::NotAFile), " 3 - ");
    config.show_entry_type = true;
    config.directory_text = "dir".to_string();
    assert_eq!(config.entry_header(3, 12, EntryLook::Dir, EntrySize::Unknown), " 3:dir");
}

#[test]
fn composed_header_takes_the_size_in_words() {
    let config = Config::default();
    assert_eq!(config.compose_header(2, 3, EntryLook::File, Some(" 1.0 MB")), "2:F 1.0 MB");
    assert_eq!(config.compose_header(2, 3, EntryLook::File, None), "2:F");
    assert_eq!(config.look_text(EntryLook::Other), "O");
}

#[test]
fn mode_labels_come_from_the_configuration() {
    let mut config = Config::default();
    assert_eq!(PanelMode::Normal.to_string(&config), "NORMAL");
    assert_eq!(PanelMode::Insert.to_string(&config), "INSERT");
    config.insert_mode_text = "edit".to_string();
    assert_eq!(PanelMode::Insert.to_string(&config), "edit");
}

#[test]
fn title_is_the_directory_or_the_errors() {
    let mut panel = listed("/a", &["x"]);
    assert_eq!(panel.title(), ("/a".to_string(), false));
    panel.errors.push(WalkedError::PathNotFound {
        path: "/a/x".to_string(),
        path_kind: PathKind::File,
    });
    panel.errors.push(WalkedError::Message("second".to_string()));
    assert_eq!(panel.title(), ("Couldn't find file '/a/x' second ".to_string(), true));
}

#[test]
fn entries_between_anchor_and_cursor_are_marked() {
    let mut panel = listed("/a", &["0", "1", "2", "3", "4", "5", "6"]);
    assert!((0..7).all(|i| !panel.is_in_selection(i)));
    panel.selection_start = Some(2);
    panel.table_state.select(Some(5));
    let marked: Vec<usize> = (0..7).filter(|i| panel.is_in_selection(*i)).collect();
    assert_eq!(marked, vec![2, 3, 4]);
    panel.selection_start = Some(5);
    panel.table_state.select(Some(2));
    let marked: Vec<usize> = (0..7).filter(|i| panel.is_in_selection(*i)).collect();
    assert_eq!(marked, vec![3, 4, 5]);
    panel.selection_start = Some(2);
    assert!((0..7).all(|i| !panel.is_in_selection(i)));
}

#[test]
fn header_column_only_grows() {
    let mut panel = listed("/a", &["x"]);
    assert_eq!(panel.header_width, 8);
    panel.widen_header("short");
    assert_eq!(panel.header_width, 8);
    panel.widen_header("123456789012");
    assert_eq!(panel.header_width, 12);
    panel.widen_header("äöüäöüäöüäöüä");
    assert_eq!(panel.header_width, 13);
    panel.widen_header("1234567890");
    assert_eq!(panel.header_width, 13);
}

#[test]
fn cursor_position_on_screen() {
    let mut panel = listed("/a", &["abc", "b", "c", "d", "e"]);
    assert_eq!(panel.cursor_position(0, 0, 10), Some((2 + 8 + 1 + 0 + 2, 2 + 1 + 0)));
    panel.table_state.select(Some(3));
    panel.cursor_offset = 1;
    assert_eq!(panel.cursor_position(40, 5, 10), Some((40 + 2 + 8 + 1 + 1 + 2, 5 + 2 + 1 + 3)));
    assert_eq!(panel.cursor_position(40, 5, 3), Some((54, 5 + 2 + 1 + 2)));
    assert_eq!(panel.cursor_position(40, 5, 0), Some((54, 8)));
    panel.mode = PanelMode::Insert;
    assert_eq!(panel.cursor_position(40, 5, 10), Some((52, 11)));
    *panel.table_state.offset_mut() = 2;
    assert_eq!(panel.cursor_position(40, 5, 10), Some((52, 9)));
    *panel.table_state.offset_mut() = 4;
    assert_eq!(panel.cursor_position(40, 5, 10), Some((52, 8)));
    assert_eq!(panel.cursor_position(u16::MAX, u16::MAX, 10), Some((u16::MAX, u16::MAX)));
}

#[test]
fn cursor_position_needs_a_selected_entry() {
    let panel = listed("/a", &[]);
    assert_eq!(panel.cursor_position(0, 0, 10), None);
}

#[test]
fn capped_sums() {
    assert_eq!(add_capped(1, 2), 3);
    assert_eq!(add_capped(u16::MAX, 1), u16::MAX);
    assert_eq!(add_capped(65000, 535), u16::MAX);
    assert_eq!(add_capped(65000, 536), u16::MAX);
    assert_eq!(add_capped(0, 0), 0);
}

#[test]
fn panes_share_the_area_evenly() {
    let area = PaneArea { x: 0, y: 0, width: 100, height: 41 };
    assert_eq!(layout_pane(area, 1, 1, 0, 0), Some(area));
    assert_eq!(
        layout_pane(area, 2, 3, 1, 2),
        Some(PaneArea { x: 66, y: 20, width: 33, height: 20 })
    );
    assert_eq!(
        layout_pane(area, 2, 3, 0, 1),
        Some(PaneArea { x: 33, y: 0, width: 33, height: 20 })
    );
    let shifted = PaneArea { x: 5, y: 7, width: 10, height: 9 };
    assert_eq!(
        layout_pane(shifted, 3, 2, 2, 1),
        Some(PaneArea { x: 10, y: 13, width: 5, height: 3 })
    );
    let beyond = PaneArea { x: 65000, y: 0, width: 1000, height: 10 };
    assert_eq!(layout_pane(beyond, 1, 1, 0, 0), None);
    let below = PaneArea { x: 0, y: 65535, width: 10, height: 1 };
    assert_eq!(layout_pane(below, 1, 1, 0, 0), None);
}

#[test]
fn entries_are_listed_by_their_last_component() {
    assert_eq!(walked::render::entry_name("/a/b/c.txt"), "c.txt");
    assert_eq!(walked::render::entry_name("/a/b/"), "b");
    assert_eq!(walked::render::entry_name("/"), "..");
    assert_eq!(walked::render::entry_name("/a/.."), "..");
    assert_eq!(walked::render::entry_name("name"), "name");
}
