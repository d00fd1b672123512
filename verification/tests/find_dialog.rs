use dezes::app::App;
use dezes::hex::edit_dialog::EditDialogFocus;
use dezes::hex::field_box::TextInput;
use dezes::hex::find_dialog::{execute_find, text_to_exact_pattern, FindDialog};
use dezes::hex::search::HexPatternByte;

fn exact_bytes(pattern: &[HexPatternByte]) -> Vec<u8> {
    pattern
        .iter()
        .map(|b| match b {
            HexPatternByte::Exact(v) => *v,
            HexPatternByte::Wildcard => panic!("no wildcards in a text pattern"),
        })
        .collect()
}

#[test]
fn utf16le_text_encodes_to_utf16_bytes() {
    let pattern = text_to_exact_pattern("分析", "UTF-16LE").expect("a pattern");
    let bytes = exact_bytes(&pattern);
    assert_eq!(bytes, vec![0x06, 0x52, 0x90, 0x67]);
    assert_ne!(bytes, "分析".as_bytes().to_vec(), "the UTF-8 spelling must not be what UNICODE (LE) searches for");
}

#[test]
fn ascii_in_utf16le_is_interleaved_with_zeros() {
    let pattern = text_to_exact_pattern("Hi", "UTF-16LE").expect("a pattern");
    assert_eq!(exact_bytes(&pattern), vec![b'H', 0x00, b'i', 0x00]);
}

#[test]
fn the_other_fields_keep_their_encodings() {
    let utf8 = text_to_exact_pattern("分析", "UTF-8").expect("a pattern");
    assert_eq!(utf8.len(), 6, "分析 is six bytes in UTF-8");

    let cp949 = text_to_exact_pattern("가", "EUC-KR").expect("a pattern");
    assert_eq!(cp949.len(), 2, "가 is two bytes in CP949");
    assert!(text_to_exact_pattern("", "UTF-8").is_none());
}

fn dialog_with(focus: EditDialogFocus, value: &str) -> FindDialog {
    let mut dialog = FindDialog::new();
    dialog.focus = focus;
    let input = TextInput::new(value.to_string());
    match focus {
        EditDialogFocus::Enc1 => dialog.input_enc1 = input,
        EditDialogFocus::Utf8 => dialog.input_utf8 = input,
        EditDialogFocus::Utf16Le => dialog.input_utf16le = input,
        EditDialogFocus::Hex => dialog.input_hex = input,
    }
    dialog
}

#[test]
fn text_fills_the_hex_field() {
    let mut dialog = dialog_with(EditDialogFocus::Utf16Le, "分析");
    dialog.sync_from_focus("UTF-8");
    assert_eq!(dialog.input_hex.value, "06529067");

    let mut dialog = dialog_with(EditDialogFocus::Utf8, "Hi");
    dialog.sync_from_focus("UTF-8");
    assert_eq!(dialog.input_hex.value, "4869");
}

#[test]
fn hex_fills_the_text_fields() {
    let mut dialog = dialog_with(EditDialogFocus::Hex, "06529067");
    dialog.sync_from_focus("UTF-8");
    assert_eq!(dialog.input_utf16le.value, "分析");
    assert_eq!(dialog.input_hex.value, "06529067", "the focused field must not be rewritten under the cursor");
}

#[test]
fn a_half_typed_byte_is_ignored() {
    let mut dialog = dialog_with(EditDialogFocus::Hex, "486");
    dialog.sync_from_focus("UTF-8");
    assert_eq!(dialog.input_utf8.value, "H");
}

#[test]
fn wildcards_clear_the_text_fields() {
    let mut dialog = dialog_with(EditDialogFocus::Hex, "48??4A");
    dialog.input_utf8 = TextInput::new("stale".to_string());
    dialog.sync_from_focus("UTF-8");
    assert_eq!(dialog.input_utf8.value, "");
    assert_eq!(dialog.input_hex.value, "48??4A", "the pattern itself is kept");
}

#[test]
fn invalid_utf8_shows_replacement_characters() {
    let mut dialog = dialog_with(EditDialogFocus::Hex, "EFBBBF41FFE282");
    dialog.sync_from_focus("UTF-8");
    assert_eq!(dialog.input_utf8.value, "A\u{FFFD}\u{FFFD}");
}

#[test]
fn a_find_selects_the_hit_and_reports_it() {
    let mut app = App::with_buffer(b"..abcabc..".to_vec());
    app.hex_view.find_dialog = dialog_with(EditDialogFocus::Utf8, "abc");
    execute_find(&mut app, true);
    assert_eq!(app.hex_view.offset, 2);
    assert_eq!(app.hex_view.selection.start, 2);
    assert_eq!(app.hex_view.selection.end, 4);
    assert_eq!(app.hex_view.search.matches, vec![2, 5]);
    assert!(app.hex_view.find_dialog.status_message.is_some());
    assert!(app.hex_view.find_dialog.error_message.is_none());

    execute_find(&mut app, true);
    assert_eq!(app.hex_view.offset, 5);
}

#[test]
fn an_empty_or_broken_pattern_is_explained() {
    let mut app = App::with_buffer(b"abc".to_vec());
    app.hex_view.find_dialog = dialog_with(EditDialogFocus::Hex, "  ");
    execute_find(&mut app, true);
    assert!(app.hex_view.find_dialog.status_message.is_some());
    assert!(app.hex_view.find_dialog.error_message.is_none());

    app.hex_view.find_dialog = dialog_with(EditDialogFocus::Hex, "4G");
    execute_find(&mut app, true);
    assert!(app.hex_view.find_dialog.error_message.is_some());

    app.hex_view.find_dialog = dialog_with(EditDialogFocus::Hex, "7A7A");
    execute_find(&mut app, true);
    assert_eq!(app.hex_view.find_dialog.status_message.as_deref(), Some("No matching pattern found."));
}
