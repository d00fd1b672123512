use dezes::app::App;
use dezes::hex::blocks::ColoredBlock;
use dezes::hex::field_box::TextInput;
use dezes::hex::replace_dialog::ReplaceDialog;

#[test]
fn a_new_file_forgets_the_old_one() {
    let mut app = App::with_buffer(vec![0u8; 0x100]);
    app.hex_view.changed_bytes.insert(4, 1);
    app.hex_view.changed_history.push(4);
    app.hex_view.redo_history.push((5, 2));
    app.hex_view.blocks.push(ColoredBlock::new(1, 2));
    app.hex_view.comments.insert(8, "c".to_string());
    app.hex_view.selection.start = 3;
    app.hex_view.selection.end = 9;
    app.hex_view.nibble_pending = Some(4);
    app.hex_view.search.matches.push(7);
    app.hex_view.search.match_len = 1;
    app.hex_view.strings_filtered.push(0);
    app.hex_view.last_visited_offset = 0x40;
    app.hex_view.offset = 0x20;
    app.hex_view.disabled_bytes.insert(9, 9);

    app.hex_view.reset_for_new_file();

    assert!(app.hex_view.changed_bytes.is_empty());
    assert!(app.hex_view.changed_history.is_empty());
    assert!(app.hex_view.redo_history.is_empty());
    assert!(app.hex_view.blocks.is_empty());
    assert!(app.hex_view.comments.is_empty());
    assert_eq!((app.hex_view.selection.start, app.hex_view.selection.end), (0, 0));
    assert_eq!(app.hex_view.nibble_pending, None);
    assert!(app.hex_view.search.matches.is_empty());
    assert_eq!(app.hex_view.search.match_len, 0);
    assert!(app.hex_view.strings_filtered.is_empty());
    assert_eq!(app.hex_view.last_visited_offset, 0);
    assert_eq!(app.hex_view.offset, 0x20, "the cursor offset is left to the loader");
    assert_eq!(app.hex_view.disabled_bytes.len(), 1);
}

#[test]
fn the_replace_dialog_resets_to_new() {
    let mut d = ReplaceDialog::new();
    assert_eq!(d.active_field, 0);
    assert!(d.search_input.value.is_empty() && d.replace_input.value.is_empty());
    d.search_input = TextInput::new("90 90".to_string());
    d.replace_input = TextInput::new("CC".to_string());
    d.active_field = 1;
    d.anchor = Some(1);
    d.error_message = Some("bad".to_string());
    d.reset();
    assert!(d.search_input.value.is_empty());
    assert!(d.replace_input.value.is_empty());
    assert_eq!(d.active_field, 0);
    assert_eq!(d.anchor, None);
    assert!(d.error_message.is_none() && d.status_message.is_none());
}
