use dezes::app::{App, EditingTarget};
use dezes::hex::selection::{
    fill_selection_with, format_selection_for_target, format_selection_hex, is_printable, Selection,
};

#[test]
fn forward_selection_stops_at_the_last_byte() {
    let size = 0x100usize;
    let last = size - 1;

    let mut sel = Selection::new();
    sel.start = last;
    sel.end = last;

    for _ in 0..4 {
        sel.select_right_or_down(last, 0x40);
    }

    assert_eq!(sel.end, last, "selection end must not pass the last byte");
    assert!(
        !sel.contains(size),
        "offset {} is past EOF and must not be selected",
        size
    );
    for ofs in sel.start..=sel.end {
        assert!(ofs < size, "iterated offset {:X} is past EOF", ofs);
    }
}

#[test]
fn empty_file_selects_nothing() {
    let last = 0usize.saturating_sub(1);
    let mut sel = Selection::new();
    sel.select_right_or_down(last, 16);
    assert_eq!(sel.start, 0);
    assert_eq!(sel.end, 0);
}

const BYTES: &[u8] = &[0xB0, 0xA1, b'H', b'i'];
const CONTROL_BYTES: &[u8] = &[b'X', 0x00, 0x01, 0x02, b'Y', 0x1F, 0x7F, b'Z'];

fn app_from(bytes: &[u8]) -> App {
    let mut blob = bytes.to_vec();
    blob.resize(0x40, 0);
    let mut app = App::with_buffer(blob);
    app.config.database = false;
    app.hex_view.selection.start = 0;
    app.hex_view.selection.end = 3;
    app
}

#[test]
fn the_hex_column_yields_hex_bytes() {
    let mut app = app_from(BYTES);
    app.hex_view.selection_target = EditingTarget::Hex;

    assert_eq!(format_selection_for_target(&mut app), "B0 A1 48 69");
}

#[test]
fn an_encoding_column_yields_decoded_text() {
    let mut app = app_from(BYTES);

    app.enc1 = "EUC-KR".to_string();
    app.hex_view.selection_target = EditingTarget::Enc1;
    assert_eq!(format_selection_for_target(&mut app), "가Hi");

    app.hex_view.enc2 = Some("UTF-8".to_string());
    app.hex_view.selection_target = EditingTarget::Enc2;
    let utf8 = format_selection_for_target(&mut app);
    assert!(utf8.ends_with("Hi") && utf8 != "가Hi", "got '{utf8}'");
}

#[test]
fn non_printable_bytes_copy_as_the_placeholder() {
    let mut app = app_from(CONTROL_BYTES);
    app.enc1 = "UTF-8".to_string();
    app.hex_view.selection_target = EditingTarget::Enc1;
    app.hex_view.selection.start = 0;
    app.hex_view.selection.end = 7;

    let copied = format_selection_for_target(&mut app);

    assert_eq!(copied, "X...Y..Z");
    assert!(!copied.contains('\0'));
    assert_eq!(copied.chars().count(), 8);
}

#[test]
fn the_placeholder_follows_the_setting() {
    let mut app = app_from(CONTROL_BYTES);
    app.enc1 = "UTF-8".to_string();
    app.hex_view.selection_target = EditingTarget::Enc1;
    app.hex_view.selection.start = 0;
    app.hex_view.selection.end = 7;
    app.config.hex_mode_non_graphic_char = ' ';

    assert_eq!(format_selection_for_target(&mut app), "X   Y  Z");
}

#[test]
fn the_hex_column_still_copies_exact_bytes() {
    let mut app = app_from(CONTROL_BYTES);
    app.hex_view.selection_target = EditingTarget::Hex;
    app.hex_view.selection.start = 0;
    app.hex_view.selection.end = 3;

    assert_eq!(
        format_selection_for_target(&mut app),
        "58 00 01 02",
        "byte-accurate copying is what the hex column is for"
    );
}

#[test]
fn pending_edits_are_included() {
    let mut app = app_from(BYTES);
    app.hex_view.selection_target = EditingTarget::Hex;
    app.hex_view.changed_bytes.insert(0, 0x41);

    assert_eq!(
        format_selection_for_target(&mut app),
        "41 A1 48 69",
        "the column shows the edited byte, so the copy must contain it"
    );
}

#[test]
fn hex_rows_break_every_line() {
    let mut app = App::with_buffer((0u8..40).collect());
    app.config.hex_mode_bytes_per_line = 4;
    app.hex_view.selection.start = 9;
    app.hex_view.selection.end = 0;
    assert_eq!(format_selection_hex(&app), "00 01 02 03 \r\n04 05 06 07 \r\n08 09");
}

#[test]
fn printable_follows_the_column_rule() {
    assert!(is_printable('A'));
    assert!(!is_printable(' '));
    assert!(!is_printable('\u{7F}'));
    assert!(is_printable('가'));
    assert!(!is_printable('\u{85}'));
    assert!(!is_printable('\u{3000}'));
    assert!(!is_printable('\u{FFFD}'));
}

#[test]
fn filling_a_selection_stages_every_byte() {
    let mut app = App::with_buffer(vec![0u8; 8]);
    app.hex_view.changed_bytes.insert(5, 1);
    app.hex_view.changed_history.push(5);
    app.hex_view.selection.start = 4;
    app.hex_view.selection.end = 9;
    fill_selection_with(&mut app, 0x90);
    for ofs in 4..8usize {
        assert_eq!(app.hex_view.changed_bytes.get(&ofs).copied(), Some(0x90));
    }
    assert!(!app.hex_view.changed_bytes.contains_key(&8));
    assert_eq!(app.hex_view.changed_history, vec![5, 4, 6, 7]);
    assert_eq!(app.logs.last().map(String::as_str), Some("Filled 6 byte(s) with 0x90"));
}

#[test]
fn selecting_backwards_then_forwards() {
    let mut sel = Selection::new();
    sel.start = 10;
    sel.end = 10;
    sel.select_left_or_up(3);
    assert_eq!((sel.start, sel.end), (7, 10));
    sel.select_left_or_up(20);
    assert_eq!((sel.start, sel.end), (0, 10));
    sel.select_right_or_down(100, 10);
    assert_eq!((sel.start, sel.end), (10, 10));
    assert!(sel.direction.is_none());
    sel.clear();
    assert_eq!((sel.start, sel.end), (0, 0));
}

#[test]
fn a_mouse_dump_shows_the_lines_of_the_range() {
    let mut app = dezes::app::App::with_buffer((0x41u8..0x41 + 26).collect());
    let dump = dezes::hex::selection::format_mouse_selection_dump(&mut app, 0x0E, 0x11);
    assert_eq!(
        dump,
        "         00 01 02 03 04 05 06 07 08 09 0A 0B 0C 0D 0E 0F \r\n\
         00000000                                           4F 50                OP\r\n\
         00000010 51 52                                            QR              \r\n"
    );
}

#[test]
fn a_mouse_dump_marks_unprintable_bytes_and_shows_addresses() {
    let mut app = dezes::app::App::with_buffer(vec![0x00, 0x20, 0x7F, 0x41]);
    app.config.hex_mode_bytes_per_line = 4;
    app.hex_view.show_va = true;
    app.image_base = 0x1000;
    let dump = dezes::hex::selection::format_mouse_selection_dump(&mut app, 0, 9);
    assert_eq!(dump, "         00 01 02 03 \r\n00001000 00 20 7F 41  . .A\r\n");
}
