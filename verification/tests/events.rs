use dezes::app::{App, EditingTarget, UIState};
use dezes::hex::edit::{edit_command_for, edit_events, EditCommand};
use dezes::hex::events::{
    hex_command, hex_mode_events, movement_target, parse_hex_or_text_bytes, HexAction, HexCommand, Key, KeyPress,
};
use dezes::hex::selection::{select_events, Selection};

fn key(code: Key) -> KeyPress {
    KeyPress { code, ctrl: false, alt: false, shift: false }
}

fn with(code: Key, ctrl: bool, alt: bool, shift: bool) -> KeyPress {
    KeyPress { code, ctrl, alt, shift }
}

fn press(app: &mut App, k: KeyPress) -> HexAction {
    hex_mode_events(app, k)
}

fn app_with_file() -> App {
    App::with_buffer(vec![0x41u8; 0x400])
}

fn alt_m(app: &mut App) {
    press(app, with(Key::Char('m'), false, true, false));
}

fn byte_at(app: &App, offset: usize) -> Option<u8> {
    app.hex_view.changed_bytes.get(&offset).copied()
}

// ---------------------------------------------------------------------------
// Pasted text
// ---------------------------------------------------------------------------

#[test]
fn hex_text_is_still_read_as_bytes() {
    for enc in ["UTF-8", "EUC-KR"] {
        assert_eq!(parse_hex_or_text_bytes("B0 A1 48 69", enc), vec![0xB0, 0xA1, 0x48, 0x69]);
        assert_eq!(parse_hex_or_text_bytes("0x41,0x42", enc), vec![0x41, 0x42]);
    }
}

#[test]
fn text_is_encoded_through_the_column() {
    assert_eq!(
        parse_hex_or_text_bytes("가", "EUC-KR"),
        vec![0xB0, 0xA1],
        "a CP949 column must round-trip its own two bytes"
    );
    assert_eq!(
        parse_hex_or_text_bytes("가", "UTF-8"),
        vec![0xEA, 0xB0, 0x80],
        "a UTF-8 column encodes the same character in three"
    );
    assert_ne!(
        parse_hex_or_text_bytes("가", "EUC-KR"),
        parse_hex_or_text_bytes("가", "UTF-8"),
        "if these matched, the column would be being ignored"
    );
}

#[test]
fn ascii_is_unchanged() {
    for enc in ["UTF-8", "EUC-KR"] {
        assert_eq!(parse_hex_or_text_bytes("Hi!", enc), b"Hi!".to_vec());
    }
}

#[test]
fn empty_input_pastes_nothing() {
    assert!(parse_hex_or_text_bytes("   ", "UTF-8").is_empty());
}

// ---------------------------------------------------------------------------
// Alt+M
// ---------------------------------------------------------------------------

#[test]
fn alt_m_colours_a_shift_selection() {
    let mut app = app_with_file();
    assert!(app.state == UIState::Normal);
    assert!(app.hex_view.blocks.is_empty());

    app.hex_view.offset = 0x10;
    for _ in 0..4 {
        press(&mut app, with(Key::Right, false, false, true));
    }
    assert_ne!(
        app.hex_view.selection.start, app.hex_view.selection.end,
        "Shift+Right did not select anything"
    );

    alt_m(&mut app);

    assert_eq!(app.hex_view.blocks.len(), 1, "Alt+M did not create a block");
    assert_eq!(app.hex_view.blocks[0].start, 0x10);
    assert_eq!(app.hex_view.blocks[0].end, 0x14);
}

#[test]
fn alt_m_recolours_instead_of_stacking() {
    let mut app = app_with_file();
    app.hex_view.offset = 0x20;
    for _ in 0..3 {
        press(&mut app, with(Key::Right, false, false, true));
    }
    alt_m(&mut app);
    assert_eq!(app.hex_view.blocks.len(), 1);

    app.hex_view.offset = 0x21;
    let before = app.hex_view.blocks[0].bg_color;
    let mut recoloured = false;
    for _ in 0..20 {
        alt_m(&mut app);
        assert_eq!(app.hex_view.blocks.len(), 1, "a second block was stacked on top");
        if app.hex_view.blocks[0].bg_color != before {
            recoloured = true;
        }
    }
    assert!(recoloured, "the colour never changed");
}

#[test]
fn alt_m_reports_when_there_is_nothing_to_colour() {
    let mut app = app_with_file();
    app.hex_view.offset = 0x30;

    alt_m(&mut app);

    assert!(app.hex_view.blocks.is_empty());
    assert!(
        app.status_error.is_some(),
        "doing nothing silently is what made this look broken"
    );
}

// ---------------------------------------------------------------------------
// The hex view's keys
// ---------------------------------------------------------------------------

#[test]
fn the_keys_are_classified() {
    let app = app_with_file();
    assert_eq!(hex_command(&app, key(Key::Char('V'))), HexCommand::Paste);
    assert_eq!(hex_command(&app, with(Key::Char('c'), true, false, false)), HexCommand::Copy);
    assert_eq!(hex_command(&app, with(Key::Char('e'), true, false, false)), HexCommand::EditData);
    assert_eq!(hex_command(&app, with(Key::Char('e'), false, true, false)), HexCommand::Encoding);
    assert_eq!(hex_command(&app, with(Key::Char('E'), false, true, false)), HexCommand::Encoding2);
    assert_eq!(hex_command(&app, with(Key::Char('e'), false, true, true)), HexCommand::Encoding2);
    assert_eq!(hex_command(&app, key(Key::Insert)), HexCommand::Fill(0));
    assert_eq!(hex_command(&app, key(Key::Delete)), HexCommand::Fill(0x90));
    assert_eq!(hex_command(&app, with(Key::Backspace, false, true, false)), HexCommand::Undo);
    assert_eq!(hex_command(&app, with(Key::F(3), false, true, false)), HexCommand::RevertByte);
    assert_eq!(hex_command(&app, with(Key::F(2), false, true, false)), HexCommand::Nothing);
    assert_eq!(hex_command(&app, key(Key::Char('['))), HexCommand::MarkStart);
    assert_eq!(hex_command(&app, with(Key::Char(']'), false, true, false)), HexCommand::JumpEnd);
    assert_eq!(hex_command(&app, key(Key::Char('q'))), HexCommand::Nothing);
    assert_eq!(hex_command(&app, key(Key::Left)), HexCommand::Nothing, "no room on the left");
    assert_eq!(hex_command(&app, with(Key::Right, false, false, true)), HexCommand::SelectTo(1));
}

#[test]
fn movement_keys_land_where_movement_target_says() {
    let mut app = app_with_file();
    app.reader.page_current_size = 0x100;
    app.hex_view.offset = 0x185;
    app.hex_view.cursor.x = 5;
    assert_eq!(movement_target(&app, &key(Key::Home)), Some(0x180));
    assert_eq!(movement_target(&app, &key(Key::End)), Some(0x18F));
    assert_eq!(movement_target(&app, &key(Key::PageDown)), Some(0x285));
    assert_eq!(movement_target(&app, &key(Key::PageUp)), Some(0x85));
    assert_eq!(movement_target(&app, &with(Key::End, true, false, false)), Some(0x3FF));
    assert_eq!(movement_target(&app, &key(Key::Esc)), None);

    press(&mut app, key(Key::Down));
    assert_eq!(app.hex_view.offset, 0x195);
    press(&mut app, with(Key::Home, true, false, false));
    assert_eq!(app.hex_view.offset, 0);
}

#[test]
fn undo_and_redo_walk_the_history() {
    let mut app = app_with_file();
    dezes::hex::edit::record_edit(&mut app, 3, 0x99);
    assert_eq!(press(&mut app, with(Key::Char('z'), true, false, false)), HexAction::Nothing);
    assert!(app.hex_view.changed_bytes.is_empty());
    assert_eq!(app.logs.last().unwrap(), "Undid change at offset 0x3");
    assert_eq!(press(&mut app, with(Key::Char('y'), true, false, false)), HexAction::Nothing);
    assert_eq!(byte_at(&app, 3), Some(0x99));
    assert_eq!(app.logs.last().unwrap(), "Redid change at offset 0x3");
    assert_eq!(press(&mut app, with(Key::Char('y'), true, false, false)), HexAction::Beep);
}

#[test]
fn copying_needs_a_selection() {
    let mut app = app_with_file();
    assert_eq!(press(&mut app, with(Key::Char('c'), true, false, false)), HexAction::Nothing);
    assert!(app.status_error.is_some());

    let mut app = App::with_buffer(vec![0xB0, 0xA1, b'H', b'i']);
    app.hex_view.selection.start = 0;
    app.hex_view.selection.end = 3;
    let act = press(&mut app, with(Key::Char('c'), true, false, false));
    assert_eq!(act, HexAction::Copy("B0 A1 48 69".to_string()));
    assert_eq!(app.logs.last().unwrap(), "Selection copied to clipboard as hex bytes");
}

#[test]
fn paste_is_left_to_the_caller_unless_read_only() {
    let mut app = app_with_file();
    assert_eq!(press(&mut app, key(Key::Char('V'))), HexAction::Paste);
    app.file_info.is_read_only = true;
    assert_eq!(press(&mut app, key(Key::Char('V'))), HexAction::Nothing);
    assert!(app.status_error.is_some());
}

#[test]
fn insert_fills_the_cursor_byte_and_logs_it() {
    let mut app = app_with_file();
    app.hex_view.offset = 0x20;
    press(&mut app, key(Key::Insert));
    assert_eq!(byte_at(&app, 0x20), Some(0));
    assert_eq!(app.logs.last().unwrap(), "Filled byte at 0x20 with 0x00");
    press(&mut app, key(Key::Delete));
    assert_eq!(byte_at(&app, 0x20), Some(0x90));
}

#[test]
fn delete_fills_a_shift_selection_and_drops_it() {
    let mut app = app_with_file();
    app.hex_view.offset = 0x10;
    press(&mut app, with(Key::Right, false, false, true));
    press(&mut app, with(Key::Right, false, false, true));
    press(&mut app, key(Key::Delete));
    for ofs in 0x10..=0x12usize {
        assert_eq!(byte_at(&app, ofs), Some(0x90));
    }
    assert_eq!(byte_at(&app, 0x13), None);
    assert_eq!(app.hex_view.selection.start, app.hex_view.selection.end);
    assert!(app.hex_view.shift_anchor.is_none());
}

#[test]
fn brackets_mark_and_walk_the_block() {
    let mut app = app_with_file();
    app.hex_view.offset = 0x40;
    press(&mut app, key(Key::Char('[')));
    assert_eq!(app.logs.last().unwrap(), "Block start at 0x40 (1 byte(s))");
    app.hex_view.offset = 0x4F;
    press(&mut app, key(Key::Char(']')));
    assert_eq!(app.hex_view.selection.start, 0x40);
    assert_eq!(app.hex_view.selection.end, 0x4F);
    assert_eq!(app.logs.last().unwrap(), "Block end at 0x4F (16 byte(s))");
    press(&mut app, with(Key::Char('['), false, true, false));
    assert_eq!(app.hex_view.offset, 0x40);
    press(&mut app, with(Key::Char(']'), false, true, false));
    assert_eq!(app.hex_view.offset, 0x4F);
}

#[test]
fn tilde_flips_the_letter_and_steps_on() {
    let mut app = App::with_buffer(b"aB1".to_vec());
    press(&mut app, key(Key::Char('~')));
    assert_eq!(byte_at(&app, 0), Some(b'A'));
    assert_eq!(app.hex_view.offset, 1);
    press(&mut app, key(Key::Char('~')));
    assert_eq!(byte_at(&app, 1), Some(b'b'));
    assert_eq!(press(&mut app, key(Key::Char('~'))), HexAction::Beep, "a digit has no case");
}

#[test]
fn dialogs_and_modes_open_from_their_keys() {
    let mut app = app_with_file();
    press(&mut app, key(Key::F(2)));
    assert!(app.state == UIState::HexEditing);
    let mut app = app_with_file();
    press(&mut app, with(Key::Char('e'), true, false, false));
    assert!(app.state == UIState::DialogEditData);
    let mut app = app_with_file();
    press(&mut app, with(Key::Char('n'), false, true, false));
    assert!(app.state == UIState::DialogNames);
    assert_eq!(app.hex_view.names_selected, Some(0));
    let mut app = app_with_file();
    press(&mut app, key(Key::F(6)));
    assert!(app.state == UIState::DialogStrings);
}

#[test]
fn alt_h_toggles_the_value_under_the_cursor() {
    let mut app = app_with_file();
    press(&mut app, with(Key::Char('h'), false, true, false));
    assert_eq!(app.hex_view.highlights, vec![0x41]);
    press(&mut app, with(Key::Char('h'), false, true, false));
    assert!(app.hex_view.highlights.is_empty());
}

#[test]
fn backspace_returns_to_the_last_visited_offset() {
    let mut app = app_with_file();
    app.hex_view.offset = 0x300;
    app.hex_view.last_visited_offset = 0x44;
    press(&mut app, key(Key::Backspace));
    assert_eq!(app.hex_view.offset, 0x44);
}

// ---------------------------------------------------------------------------
// Edit mode
// ---------------------------------------------------------------------------

fn app_in_edit_mode() -> App {
    let mut app = App::with_buffer(vec![0xAAu8; 0x400]);
    app.config.hex_mode_bytes_per_line = 16;
    app.reader.page_current_size = 0x100;
    app.state = UIState::HexEditing;
    app
}

fn edit_press(app: &mut App, code: Key, ctrl: bool, shift: bool) -> HexAction {
    edit_events(app, KeyPress { code, ctrl, alt: false, shift })
}

#[test]
fn one_byte_produces_one_undo_entry() {
    let mut app = App::with_buffer(vec![0xAB; 0x40]);
    app.hex_view.offset = 0x10;

    edit_press(&mut app, Key::Char('7'), false, false);
    edit_press(&mut app, Key::Char('f'), false, false);

    assert_eq!(app.hex_view.changed_history, vec![0x10], "the offset must appear exactly once");
}

#[test]
fn moving_the_cursor_ends_the_pending_byte() {
    let mut app = App::with_buffer(vec![0xAB; 0x40]);
    app.hex_view.offset = 0x10;

    edit_press(&mut app, Key::Char('7'), false, false);
    edit_press(&mut app, Key::Right, false, false);
    assert!(app.hex_view.nibble_pending.is_none());

    edit_press(&mut app, Key::Char('c'), false, false);
    assert_eq!(byte_at(&app, 0x10), Some(0x7B), "0x10 keeps its edit");
    assert_eq!(byte_at(&app, 0x11), Some(0xCB), "the digit at 0x11 starts a fresh high nibble");
}

#[test]
fn leaving_edit_mode_clears_the_pending_byte() {
    let mut app = App::with_buffer(vec![0x00; 0x40]);
    app.hex_view.offset = 0;
    edit_press(&mut app, Key::Char('a'), false, false);
    assert_eq!(app.hex_view.nibble_pending, Some(0));

    edit_press(&mut app, Key::Esc, false, false);
    assert!(app.hex_view.nibble_pending.is_none());
}

#[test]
fn page_and_line_keys_move_the_cursor() {
    let mut app = app_in_edit_mode();
    let page = app.reader.page_current_size;
    let last = app.file_info.buffer_len() - 1;

    app.hex_view.offset = 0x180;
    edit_press(&mut app, Key::PageDown, false, false);
    assert_eq!(app.hex_view.offset, 0x180 + page, "PageDown");

    edit_press(&mut app, Key::PageUp, false, false);
    assert_eq!(app.hex_view.offset, 0x180, "PageUp");

    app.hex_view.offset = 0x185;
    app.hex_view.cursor.x = 5;
    edit_press(&mut app, Key::Home, false, false);
    assert_eq!(app.hex_view.offset, 0x180, "Home");

    app.hex_view.offset = 0x185;
    app.hex_view.cursor.x = 5;
    edit_press(&mut app, Key::End, false, false);
    assert_eq!(app.hex_view.offset, 0x18F, "End");

    edit_press(&mut app, Key::Home, true, false);
    assert_eq!(app.hex_view.offset, 0, "Ctrl+Home");

    edit_press(&mut app, Key::End, true, false);
    assert_eq!(app.hex_view.offset, last, "Ctrl+End");
}

#[test]
fn edit_mode_lands_where_normal_mode_does() {
    for code in [Key::Left, Key::Right, Key::Up, Key::Down, Key::Home, Key::End, Key::PageUp, Key::PageDown] {
        let mut editing = app_in_edit_mode();
        editing.hex_view.offset = 0x185;
        editing.hex_view.cursor.x = 5;

        let expected = movement_target(&editing, &key(code)).expect("every key here is a movement");

        edit_press(&mut editing, code, false, false);
        assert_eq!(
            editing.hex_view.offset, expected,
            "{code:?} landed somewhere other than Normal mode would"
        );
    }
}

#[test]
fn moving_does_not_change_any_byte() {
    let mut app = app_in_edit_mode();
    app.hex_view.editing_target = EditingTarget::Enc1;
    app.hex_view.offset = 0x100;

    for code in [Key::PageDown, Key::PageUp, Key::Home, Key::End, Key::Up, Key::Down] {
        edit_press(&mut app, code, false, false);
    }

    assert!(
        app.hex_view.changed_bytes.is_empty(),
        "navigation wrote {} byte(s) into the file",
        app.hex_view.changed_bytes.len()
    );
    assert!(app.state == UIState::HexEditing, "must stay in edit mode");
}

#[test]
fn shift_page_keys_extend_the_selection() {
    let mut app = app_in_edit_mode();
    app.hex_view.editing_target = EditingTarget::Enc2;
    app.hex_view.offset = 0x100;

    edit_press(&mut app, Key::End, false, true);

    assert_eq!(app.hex_view.selection.start, 0x100);
    assert_eq!(app.hex_view.selection.end, 0x10F, "Shift+End to the row's end");
    assert_eq!(
        app.hex_view.selection_target,
        EditingTarget::Enc2,
        "the focused column decides what a copy of this block means"
    );
}

#[test]
fn backspace_still_steps_left() {
    let mut app = app_in_edit_mode();
    app.hex_view.offset = 0x40;
    edit_press(&mut app, Key::Backspace, false, false);
    assert_eq!(app.hex_view.offset, 0x3F);
}

fn app_with_bytes() -> App {
    let mut blob = vec![0xB0, 0xA1, b'H', b'i'];
    blob.resize(0x40, 0);
    let mut app = App::with_buffer(blob);
    app.hex_view.selection.start = 0;
    app.hex_view.selection.end = 3;
    app
}

#[test]
fn shift_arrows_select_inside_an_encoding_column() {
    let mut app = app_with_bytes();
    app.hex_view.selection.clear();
    app.state = UIState::HexEditing;
    app.hex_view.editing_target = EditingTarget::Enc1;
    app.hex_view.offset = 0;

    for _ in 0..3 {
        edit_press(&mut app, Key::Right, false, true);
    }

    assert_eq!(app.hex_view.selection.start, 0);
    assert_eq!(app.hex_view.selection.end, 3, "the block must extend as Shift is held");
    assert_eq!(app.hex_view.selection_target, EditingTarget::Enc1, "the column with focus decides what a yank means");
    assert!(app.state == UIState::HexEditing, "selecting must not drop out of edit mode");
}

#[test]
fn ctrl_c_copies_and_does_not_type() {
    let mut app = app_with_bytes();
    app.state = UIState::HexEditing;
    app.hex_view.editing_target = EditingTarget::Enc1;
    app.hex_view.selection_target = EditingTarget::Enc1;

    let act = edit_press(&mut app, Key::Char('c'), true, false);

    assert!(app.hex_view.changed_bytes.is_empty(), "Ctrl+C must not write a literal 'c' into the file");
    assert!(matches!(act, HexAction::Copy(_)));
}

#[test]
fn plain_arrows_drop_the_selection() {
    let mut app = app_with_bytes();
    app.state = UIState::HexEditing;
    app.hex_view.offset = 0;
    app.hex_view.shift_anchor = Some(0);

    edit_press(&mut app, Key::Right, false, false);

    assert_eq!(app.hex_view.selection.start, app.hex_view.selection.end);
    assert!(app.hex_view.shift_anchor.is_none());
}

#[test]
fn leaving_edit_mode_returns_focus_to_hex() {
    let mut app = app_with_bytes();
    app.state = UIState::HexEditing;
    app.hex_view.editing_target = EditingTarget::Enc2;

    edit_press(&mut app, Key::Esc, false, false);

    assert_eq!(app.hex_view.editing_target, EditingTarget::Hex, "a later 'v' in Normal mode must mean a hex selection");
}

#[test]
fn typing_into_an_encoding_column_encodes_the_character() {
    let mut app = App::with_buffer(vec![0u8; 8]);
    app.enc1 = "EUC-KR".to_string();
    app.hex_view.editing_target = EditingTarget::Enc1;
    app.hex_view.offset = 2;
    assert_eq!(edit_command_for(&app, key(Key::Char('가'))), EditCommand::TypeChar('가'));
    edit_press(&mut app, Key::Char('가'), false, false);
    assert_eq!(byte_at(&app, 2), Some(0xB0));
    assert_eq!(byte_at(&app, 3), Some(0xA1));
    assert_eq!(app.hex_view.offset, 4);
}

#[test]
fn typing_stops_at_the_end_of_the_file() {
    let mut app = App::with_buffer(vec![0u8; 4]);
    app.hex_view.editing_target = EditingTarget::Enc1;
    app.hex_view.offset = 3;
    edit_press(&mut app, Key::Char('가'), false, false);
    assert_eq!(byte_at(&app, 3), Some(0xEA), "only the first UTF-8 byte fits");
    assert_eq!(app.hex_view.changed_bytes.len(), 1);
    assert_eq!(app.hex_view.offset, 3);
}

#[test]
fn tab_skips_a_missing_second_encoding() {
    let mut app = App::with_buffer(vec![0u8; 4]);
    edit_press(&mut app, Key::Tab, false, false);
    assert_eq!(app.hex_view.editing_target, EditingTarget::Enc1);
    assert_eq!(app.logs.last().unwrap(), "Edit target switched to ENC1 (UTF-8)");
    edit_press(&mut app, Key::Tab, false, false);
    assert_eq!(app.hex_view.editing_target, EditingTarget::Hex);
    assert!(app.hex_view.editing_hex);
}

// ---------------------------------------------------------------------------
// Selection mode
// ---------------------------------------------------------------------------

fn app_with_block_edits() -> App {
    let mut app = App::with_buffer(vec![0u8; 0x40]);
    for ofs in 0x10..0x14usize {
        app.hex_view.changed_bytes.insert(ofs, 0x90);
        app.hex_view.changed_history.push(ofs);
    }
    app.hex_view.selection.start = 0x10;
    app.hex_view.selection.end = 0x13;
    app.state = UIState::HexSelection;
    app
}

#[test]
fn block_revert_is_redoable() {
    let mut app = app_with_block_edits();

    select_events(&mut app, with(Key::Char('z'), true, false, false));

    assert!(app.hex_view.changed_bytes.is_empty(), "the block's edits should be reverted");
    assert_eq!(app.hex_view.redo_history.len(), 4, "Ctrl+Y must be able to put all four bytes back");

    while let Some((ofs, val)) = app.hex_view.redo_history.pop() {
        app.hex_view.changed_bytes.insert(ofs, val);
    }
    assert_eq!(app.hex_view.changed_bytes.len(), 4);
    for ofs in 0x10..0x14usize {
        assert_eq!(app.hex_view.changed_bytes.get(&ofs).copied(), Some(0x90));
    }
}

#[test]
fn selection_mode_arrows_grow_the_block() {
    let mut app = App::with_buffer(vec![0u8; 0x40]);
    app.state = UIState::HexSelection;
    app.hex_view.offset = 0x10;
    app.hex_view.selection = Selection { start: 0x10, end: 0x10, direction: None, is_mouse: true };
    select_events(&mut app, key(Key::Right));
    assert_eq!((app.hex_view.selection.start, app.hex_view.selection.end), (0x10, 0x11));
    assert_eq!(app.hex_view.offset, 0x11);
    select_events(&mut app, key(Key::Down));
    assert_eq!((app.hex_view.selection.start, app.hex_view.selection.end), (0x10, 0x21));
    select_events(&mut app, key(Key::Enter));
    assert!(app.state == UIState::Normal);
    assert_eq!(app.hex_view.selection.end, 0x21, "Enter keeps the block");
}

#[test]
fn selection_mode_insert_fills_and_returns_to_normal() {
    let mut app = App::with_buffer(vec![0xFFu8; 0x10]);
    app.state = UIState::HexSelection;
    app.hex_view.selection.start = 2;
    app.hex_view.selection.end = 4;
    select_events(&mut app, key(Key::Insert));
    assert_eq!(byte_at(&app, 2), Some(0));
    assert_eq!(byte_at(&app, 4), Some(0));
    assert_eq!(byte_at(&app, 5), None);
    assert!(app.state == UIState::Normal);
    assert_eq!(app.hex_view.selection.end, 0);
}
