use dezes::app::{App, UIState};
use dezes::hex::blocks::ColoredBlock;
use dezes::hex::edit_dialog::{open_edit_dialog, EditDialog, EditDialogFocus};
use dezes::hex::field_box::TextInput;
use dezes::input_history::DialogHistoryEntry;

#[test]
fn test_edit_dialog_sync_utf8_to_hex() {
    let mut dialog = EditDialog::default();
    dialog.focus = EditDialogFocus::Utf8;
    dialog.input_utf8 = TextInput::new(r"\n\n[SYSTEM NOTE".to_string());
    dialog.sync_from_focus();

    assert_eq!(dialog.input_hex.value, "0A0A5B53595354454D204E4F5445");
    assert_eq!(
        dialog.get_bytes(),
        &[0x0A, 0x0A, 0x5B, 0x53, 0x59, 0x53, 0x54, 0x45, 0x4D, 0x20, 0x4E, 0x4F, 0x54, 0x45]
    );
    assert_eq!(dialog.input_enc1.value, r"\n\n[SYSTEM NOTE");
}

#[test]
fn test_edit_dialog_sync_hex_to_utf8() {
    let mut dialog = EditDialog::default();
    dialog.focus = EditDialogFocus::Hex;
    dialog.input_hex = TextInput::new("0A0A5B53595354454D204E4F5445".to_string());
    dialog.sync_from_focus();

    assert_eq!(dialog.input_utf8.value, r"\n\n[SYSTEM NOTE");
    assert_eq!(
        dialog.get_bytes(),
        &[0x0A, 0x0A, 0x5B, 0x53, 0x59, 0x53, 0x54, 0x45, 0x4D, 0x20, 0x4E, 0x4F, 0x54, 0x45]
    );
}

fn entry_for(dialog: &EditDialog) -> DialogHistoryEntry {
    DialogHistoryEntry { focus: dialog.focus, value: dialog.active_input().value.clone() }
}

#[test]
fn test_edit_dialog_history_navigation_and_sync() {
    let mut dialog = EditDialog::default();
    dialog.focus = EditDialogFocus::Utf8;
    dialog.input_utf8 = TextInput::new("DraftInput".to_string());
    dialog.sync_from_focus();

    dialog.history.push(DialogHistoryEntry { focus: EditDialogFocus::Hex, value: "909090".to_string() });
    dialog.history.push(DialogHistoryEntry { focus: EditDialogFocus::Utf8, value: "NewString".to_string() });

    let cur_entry = entry_for(&dialog);
    let res = dialog.history.navigate_up(&cur_entry).unwrap();
    assert_eq!(res.focus, EditDialogFocus::Utf8);
    assert_eq!(res.value, "NewString");
    dialog.focus = res.focus;
    dialog.set_active_input(TextInput::new(res.value));
    dialog.sync_from_focus();
    assert_eq!(dialog.input_hex.value, "4E6577537472696E67");

    let cur_entry2 = entry_for(&dialog);
    let res2 = dialog.history.navigate_up(&cur_entry2).unwrap();
    assert_eq!(res2.focus, EditDialogFocus::Hex);
    assert_eq!(res2.value, "909090");
    dialog.focus = res2.focus;
    dialog.set_active_input(TextInput::new(res2.value));
    dialog.sync_from_focus();
    assert_eq!(dialog.get_bytes(), &[0x90, 0x90, 0x90]);

    let cur_entry3 = entry_for(&dialog);
    let res3 = dialog.history.navigate_down(&cur_entry3).unwrap();
    assert_eq!(res3.value, "NewString");

    let cur_entry4 = entry_for(&dialog);
    let res4 = dialog.history.navigate_down(&cur_entry4).unwrap();
    assert_eq!(res4.value, "DraftInput");
}

#[test]
fn a_half_typed_byte_is_left_waiting() {
    let mut dialog = EditDialog::default();
    dialog.focus = EditDialogFocus::Hex;
    dialog.input_hex = TextInput::new("41 4".to_string());
    dialog.sync_from_focus();
    assert_eq!(dialog.get_bytes(), &[0x41]);
    assert_eq!(dialog.input_utf8.value, "A");

    dialog.input_hex = TextInput::new("z".to_string());
    dialog.sync_from_focus();
    assert!(dialog.get_bytes().is_empty());
    assert_eq!(dialog.input_utf8.value, "");
    assert_eq!(dialog.input_hex.value, "z");
}

#[test]
fn utf16_fields_show_each_unit() {
    let mut dialog = EditDialog::default();
    dialog.focus = EditDialogFocus::Utf16Le;
    dialog.input_utf16le = TextInput::new("Hi".to_string());
    dialog.sync_from_focus();
    assert_eq!(dialog.get_bytes(), &[0x48, 0x00, 0x69, 0x00]);
    assert_eq!(dialog.input_hex.value, "48006900");
    assert_eq!(dialog.input_utf8.value, "H\\0i\\0");
}

#[test]
fn deleting_a_selection_keeps_the_rest() {
    let mut dialog = EditDialog::default();
    dialog.input_enc1 = TextInput::with_cursor("abcdef".to_string(), 4);
    dialog.selection_anchor = Some(1);
    assert_eq!(dialog.get_selection_range(), Some((1, 4)));
    assert!(dialog.delete_selection());
    assert_eq!(dialog.input_enc1.value, "aef");
    assert_eq!(dialog.input_enc1.cursor, 1);
    assert_eq!(dialog.selection_anchor, None);
    assert!(!dialog.delete_selection());
}

#[test]
fn the_dialog_opens_on_the_block_under_the_cursor() {
    let mut app = App::with_buffer(b"0123456789ABCDEF".to_vec());
    app.hex_view.blocks.push(ColoredBlock::new(4, 6));
    app.hex_view.offset = 5;
    open_edit_dialog(&mut app);
    assert_eq!(app.state, UIState::DialogEditData);
    assert_eq!(app.hex_view.edit_dialog.get_bytes(), b"456");
    assert_eq!(app.hex_view.edit_dialog.input_hex.value, "343536");
    assert_eq!(app.hex_view.edit_dialog.input_enc1.value, "456");
    assert_eq!(app.hex_view.offset, 4);
}

#[test]
fn the_dialog_opens_on_the_selection_and_shows_pending_edits() {
    let mut app = App::with_buffer(b"0123456789ABCDEF".to_vec());
    app.hex_view.selection.start = 9;
    app.hex_view.selection.end = 7;
    dezes::hex::edit::record_edit(&mut app, 8, b'x');
    open_edit_dialog(&mut app);
    assert_eq!(app.hex_view.edit_dialog.get_bytes(), b"7x9");
    assert_eq!(app.hex_view.offset, 7);
}

#[test]
fn a_read_only_file_refuses_the_edit_dialog() {
    let mut app = App::with_buffer(b"0123".to_vec());
    app.file_info.is_read_only = true;
    open_edit_dialog(&mut app);
    assert!(app.status_error.is_some());
    assert!(app.logs.last().unwrap().contains("edit data"));
}
