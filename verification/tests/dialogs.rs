use dezes::app::{App, UIState};
use dezes::hex::bookmark::{
    dialog_bookmark_input_events, dialog_bookmarks_events, open_add_bookmark_dialog, open_bookmarks_dialog, Bookmark,
};
use dezes::hex::comment::{dialog_comment_events, open_comment_dialog};
use dezes::hex::blocks::ColoredBlock;
use dezes::hex::comment::Commands;
use dezes::hex::edit_dialog::{dialog_edit_events, open_edit_dialog, EditDialogFocus};
use dezes::hex::events::{HexAction, Key, KeyPress};
use dezes::hex::find_dialog::dialog_find_events;
use dezes::hex::modify_dialog::{dialog_modify_events, ModifyFocus};
use dezes::hex::names::{dialog_names_events, dialog_names_regex_events, filtered_comments, selected_offset};
use dezes::hex::patches_dialog::{dialog_patches_events, open_patches_dialog};
use dezes::hex::string_edit::{commit_string_edit, dialog_string_edit_events, open_string_edit};
use dezes::hex::field_box::TextInput;
use dezes::hex::strings::{FoundString, StringEdit};
use dezes::input_history::DialogHistoryEntry;
use dezes::hex::strings::StringEncoding;
use dezes::hex::strings_list::dialog_strings_events;

fn key(code: Key) -> KeyPress {
    KeyPress { code, ctrl: false, alt: false, shift: false }
}

fn ctrl(c: char) -> KeyPress {
    KeyPress { code: Key::Char(c), ctrl: true, alt: false, shift: false }
}

fn app() -> App {
    let mut app = App::with_buffer(vec![0u8; 0x1000]);
    app.config.database = false;
    app
}

fn type_text(app: &mut App, text: &str, f: fn(&mut App, KeyPress)) {
    for c in text.chars() {
        f(app, key(Key::Char(c)));
    }
}

// ---------------------------------------------------------------------------
// The comment box
// ---------------------------------------------------------------------------

#[test]
fn comment_box_stores_text_at_the_cursor() {
    let mut app = app();
    app.hex_view.offset = 0x20;
    open_comment_dialog(&mut app);
    assert_eq!(app.state, UIState::DialogComment);
    assert_eq!(app.hex_view.comment_input.value, "");
    type_text(&mut app, "entry", dialog_comment_events);
    dialog_comment_events(&mut app, key(Key::Backspace));
    assert_eq!(app.hex_view.comment_input.value, "entr");
    dialog_comment_events(&mut app, key(Key::Enter));
    assert_eq!(app.state, UIState::Normal);
    assert_eq!(app.hex_view.comments.get(&0x20).map(String::as_str), Some("entr"));
    assert_eq!(app.hex_view.comment_name_list.len(), 1);
    assert_eq!(app.hex_view.comment_input.value, "");
}

#[test]
fn comment_box_opens_on_the_existing_comment() {
    let mut app = app();
    app.hex_view.offset = 0x30;
    open_comment_dialog(&mut app);
    type_text(&mut app, "abc", dialog_comment_events);
    dialog_comment_events(&mut app, key(Key::Enter));
    open_comment_dialog(&mut app);
    assert_eq!(app.hex_view.comment_input.value, "abc");
    assert_eq!(app.hex_view.comment_input.cursor, 3);
}

#[test]
fn empty_comment_removes_the_entry() {
    let mut app = app();
    app.hex_view.offset = 0x30;
    open_comment_dialog(&mut app);
    type_text(&mut app, "x", dialog_comment_events);
    dialog_comment_events(&mut app, key(Key::Enter));
    open_comment_dialog(&mut app);
    dialog_comment_events(&mut app, key(Key::Backspace));
    dialog_comment_events(&mut app, key(Key::Enter));
    assert!(app.hex_view.comments.get(&0x30).is_none());
    assert!(app.hex_view.comment_name_list.is_empty());
}

#[test]
fn esc_leaves_the_comments_alone() {
    let mut app = app();
    open_comment_dialog(&mut app);
    type_text(&mut app, "lost", dialog_comment_events);
    dialog_comment_events(&mut app, key(Key::Esc));
    assert_eq!(app.state, UIState::Normal);
    assert!(app.hex_view.comments.get(&0).is_none());
}

// ---------------------------------------------------------------------------
// Bookmarks
// ---------------------------------------------------------------------------

fn add_mark(app: &mut App, offset: usize, label: &str) {
    open_add_bookmark_dialog(app, offset);
    type_text(app, label, dialog_bookmark_input_events);
    dialog_bookmark_input_events(app, key(Key::Enter));
}

#[test]
fn bookmarks_are_kept_in_offset_order() {
    let mut app = app();
    add_mark(&mut app, 0x300, "c");
    add_mark(&mut app, 0x100, " a ");
    add_mark(&mut app, 0x200, "b");
    let offsets: Vec<usize> = app.hex_view.bookmarks.iter().map(|b| b.offset).collect();
    assert_eq!(offsets, vec![0x100, 0x200, 0x300]);
    assert_eq!(app.hex_view.bookmarks[0].label, "a", "labels are trimmed");
    assert_eq!(app.hex_view.bookmark_dialog.selected_index, 1);
    assert_eq!(app.logs.last().map(String::as_str), Some("Bookmark saved at 0x200: 'b'"));
    assert_eq!(app.state, UIState::Normal);
}

#[test]
fn a_second_label_at_an_offset_replaces_the_first() {
    let mut app = app();
    add_mark(&mut app, 0x40, "one");
    open_add_bookmark_dialog(&mut app, 0x40);
    assert_eq!(app.hex_view.bookmark_dialog.input.value, "one");
    for _ in 0..3 {
        dialog_bookmark_input_events(&mut app, key(Key::Backspace));
    }
    type_text(&mut app, "two", dialog_bookmark_input_events);
    dialog_bookmark_input_events(&mut app, key(Key::Enter));
    assert_eq!(app.hex_view.bookmarks.len(), 1);
    assert_eq!(app.hex_view.bookmarks[0].label, "two");
}

#[test]
fn bookmark_list_moves_goes_and_copies() {
    let mut app = app();
    for i in 0..15usize {
        app.hex_view.bookmarks.push(Bookmark { offset: 0x10 * i, label: format!("m{}", i) });
    }
    open_bookmarks_dialog(&mut app);
    assert_eq!(app.state, UIState::DialogBookmarks);
    dialog_bookmarks_events(&mut app, key(Key::Down));
    dialog_bookmarks_events(&mut app, key(Key::Char('j')));
    assert_eq!(app.hex_view.bookmark_dialog.selected_index, 2);
    dialog_bookmarks_events(&mut app, key(Key::PageDown));
    assert_eq!(app.hex_view.bookmark_dialog.selected_index, 12);
    dialog_bookmarks_events(&mut app, key(Key::PageDown));
    assert_eq!(app.hex_view.bookmark_dialog.selected_index, 14);
    dialog_bookmarks_events(&mut app, key(Key::Home));
    assert_eq!(app.hex_view.bookmark_dialog.selected_index, 0);
    dialog_bookmarks_events(&mut app, key(Key::Up));
    assert_eq!(app.hex_view.bookmark_dialog.selected_index, 0);
    dialog_bookmarks_events(&mut app, key(Key::End));
    assert_eq!(app.hex_view.bookmark_dialog.selected_index, 14);
    let act = dialog_bookmarks_events(&mut app, ctrl('c'));
    assert_eq!(act, HexAction::Copy("0xE0\tm14".to_string()));
    dialog_bookmarks_events(&mut app, key(Key::Enter));
    assert_eq!(app.state, UIState::Normal);
    assert_eq!(app.hex_view.offset, 0xE0);
}

#[test]
fn deleting_the_last_bookmark_moves_the_selection_up() {
    let mut app = app();
    add_mark(&mut app, 0x10, "a");
    add_mark(&mut app, 0x20, "b");
    open_bookmarks_dialog(&mut app);
    dialog_bookmarks_events(&mut app, key(Key::End));
    dialog_bookmarks_events(&mut app, key(Key::Delete));
    assert_eq!(app.hex_view.bookmarks.len(), 1);
    assert_eq!(app.hex_view.bookmark_dialog.selected_index, 0);
    assert_eq!(app.logs.last().map(String::as_str), Some("Deleted bookmark at 0x20 (b)"));
    dialog_bookmarks_events(&mut app, key(Key::Backspace));
    assert!(app.hex_view.bookmarks.is_empty());
    let logs = app.logs.len();
    dialog_bookmarks_events(&mut app, key(Key::Delete));
    assert_eq!(app.logs.len(), logs, "nothing left to delete");
}

#[test]
fn label_box_from_the_list_goes_back_to_it() {
    let mut app = app();
    add_mark(&mut app, 0x10, "a");
    open_bookmarks_dialog(&mut app);
    dialog_bookmarks_events(&mut app, key(Key::F(2)));
    assert_eq!(app.state, UIState::DialogBookmarkInput);
    assert_eq!(app.hex_view.bookmark_dialog.input.value, "a");
    dialog_bookmark_input_events(&mut app, key(Key::Esc));
    assert_eq!(app.state, UIState::DialogBookmarks);
    dialog_bookmarks_events(&mut app, ctrl('d'));
    assert_eq!(app.state, UIState::DialogBookmarkInput);
    assert!(app.hex_view.bookmark_dialog.is_new);
    dialog_bookmark_input_events(&mut app, key(Key::Enter));
    assert_eq!(app.state, UIState::DialogBookmarks);
    dialog_bookmarks_events(&mut app, key(Key::Esc));
    assert_eq!(app.state, UIState::Normal);
}

#[test]
fn copying_with_no_bookmarks_does_nothing() {
    let mut app = app();
    open_bookmarks_dialog(&mut app);
    assert_eq!(dialog_bookmarks_events(&mut app, ctrl('c')), HexAction::Nothing);
}

// ---------------------------------------------------------------------------
// The Strings dialog
// ---------------------------------------------------------------------------

fn strings_app() -> App {
    let mut bytes = vec![0u8; 0x80];
    bytes[0x10..0x15].copy_from_slice(b"HELLO");
    bytes[0x20..0x27].copy_from_slice(b"WORLD!!");
    bytes[0x30..0x39].copy_from_slice(b"WORLDWIDE");
    let mut app = App::with_buffer(bytes);
    Commands::strings(&mut app);
    app.state = UIState::DialogStrings;
    app
}

fn shown_strings(app: &App) -> Vec<String> {
    app.hex_view.strings_filtered.iter().map(|&i| app.strings[i].content.clone()).collect()
}

#[test]
fn strings_list_moves_and_chooses() {
    let mut app = strings_app();
    assert_eq!(shown_strings(&app), vec!["HELLO", "WORLD!!", "WORLDWIDE"]);
    assert_eq!(app.list_selected, Some(0));
    dialog_strings_events(&mut app, key(Key::Down));
    assert_eq!(app.list_selected, Some(1));
    dialog_strings_events(&mut app, key(Key::PageDown));
    assert_eq!(app.list_selected, Some(2), "the selection stops at the last row");
    dialog_strings_events(&mut app, key(Key::Up));
    let act = dialog_strings_events(&mut app, key(Key::Enter));
    assert_eq!(act, HexAction::Nothing);
    assert_eq!(app.state, UIState::Normal);
    assert_eq!(app.hex_view.offset, 0x20);
    assert_eq!(app.hex_view.selection.start, 0x20);
    assert_eq!(app.hex_view.selection.end, 0x26);
}

#[test]
fn strings_filter_box_narrows_the_list() {
    let mut app = strings_app();
    dialog_strings_events(&mut app, key(Key::Char('/')));
    assert!(app.hex_view.strings_dialog.focus_filter);
    for c in "WIDE".chars() {
        dialog_strings_events(&mut app, key(Key::Char(c)));
    }
    assert_eq!(app.hex_view.strings_dialog.regex_input, "WIDE");
    assert_eq!(app.hex_view.strings_dialog.filter_cursor, 4);
    assert_eq!(shown_strings(&app), vec!["WORLDWIDE"]);
    assert_eq!(app.list_selected, Some(0));
    let act = dialog_strings_events(&mut app, ctrl('c'));
    assert_eq!(act, HexAction::Copy("WIDE".to_string()));
    dialog_strings_events(&mut app, key(Key::Home));
    assert_eq!(app.hex_view.strings_dialog.filter_cursor, 0);
    dialog_strings_events(&mut app, key(Key::Esc));
    assert!(!app.hex_view.strings_dialog.focus_filter);
    assert_eq!(app.state, UIState::DialogStrings);
    dialog_strings_events(&mut app, key(Key::Esc));
    assert_eq!(app.state, UIState::Normal);
}

#[test]
fn strings_tab_swaps_the_keyboard() {
    let mut app = strings_app();
    dialog_strings_events(&mut app, key(Key::Tab));
    assert!(app.hex_view.strings_dialog.focus_filter);
    dialog_strings_events(&mut app, key(Key::Char('q')));
    assert_eq!(app.hex_view.strings_dialog.regex_input, "q");
    dialog_strings_events(&mut app, key(Key::Tab));
    assert!(!app.hex_view.strings_dialog.focus_filter);
}

#[test]
fn strings_length_keys_rescan() {
    let mut app = strings_app();
    for _ in 0..2 {
        dialog_strings_events(&mut app, key(Key::Char('+')));
    }
    assert_eq!(app.config.minimum_string_length, 6);
    assert_eq!(shown_strings(&app), vec!["WORLD!!", "WORLDWIDE"]);
    dialog_strings_events(&mut app, key(Key::Char('-')));
    assert_eq!(app.config.minimum_string_length, 5);
    assert_eq!(shown_strings(&app), vec!["HELLO", "WORLD!!", "WORLDWIDE"]);
}

#[test]
fn strings_f2_cycles_the_encoding() {
    let mut app = strings_app();
    assert_eq!(app.hex_view.strings_dialog.encoding, StringEncoding::Ascii);
    dialog_strings_events(&mut app, key(Key::F(2)));
    assert_ne!(app.hex_view.strings_dialog.encoding, StringEncoding::Ascii);
    dialog_strings_events(&mut app, KeyPress { code: Key::F(2), ctrl: false, alt: false, shift: true });
    assert_eq!(app.hex_view.strings_dialog.encoding, StringEncoding::Ascii);
}

#[test]
fn strings_copy_one_row() {
    let mut app = strings_app();
    let act = dialog_strings_events(&mut app, ctrl('c'));
    assert_eq!(act, HexAction::Copy("00000010\tHELLO".to_string()));
}

// ---------------------------------------------------------------------------
// The Edit Data dialog
// ---------------------------------------------------------------------------

fn edit_app() -> App {
    let mut app = App::with_buffer(b"0123456789ABCDEF".to_vec());
    app.hex_view.blocks.push(ColoredBlock::new(4, 6));
    app.hex_view.offset = 5;
    open_edit_dialog(&mut app);
    app
}

#[test]
fn edit_dialog_select_all_and_copy() {
    let mut app = edit_app();
    assert_eq!(app.hex_view.edit_dialog.focus, EditDialogFocus::Enc1);
    dialog_edit_events(&mut app, ctrl('a'));
    assert_eq!(app.hex_view.edit_dialog.get_selection_range(), Some((0, 3)));
    let act = dialog_edit_events(&mut app, ctrl('c'));
    assert_eq!(act, HexAction::Copy("456".to_string()));
    assert_eq!(dialog_edit_events(&mut app, ctrl('v')), HexAction::Paste);
}

#[test]
fn edit_dialog_typing_replaces_the_selection_and_enter_writes() {
    let mut app = edit_app();
    dialog_edit_events(&mut app, ctrl('a'));
    dialog_edit_events(&mut app, key(Key::Char('x')));
    dialog_edit_events(&mut app, key(Key::Char('y')));
    assert_eq!(app.hex_view.edit_dialog.input_enc1.value, "xy");
    assert_eq!(app.hex_view.edit_dialog.input_hex.value, "7879");
    dialog_edit_events(&mut app, key(Key::Enter));
    assert_eq!(app.state, UIState::Normal);
    assert_eq!(app.hex_view.changed_bytes.get(&4).copied(), Some(b'x'));
    assert_eq!(app.hex_view.changed_bytes.get(&5).copied(), Some(b'y'));
    assert!(app.hex_view.changed_bytes.get(&6).is_none());
    assert_eq!(app.hex_view.offset, 6);
    assert_eq!(app.hex_view.edit_dialog.input_enc1.value, "");
}

#[test]
fn edit_dialog_tab_walks_the_fields() {
    let mut app = edit_app();
    dialog_edit_events(&mut app, key(Key::Tab));
    assert_eq!(app.hex_view.edit_dialog.focus, EditDialogFocus::Utf8);
    dialog_edit_events(&mut app, key(Key::Down));
    assert_eq!(app.hex_view.edit_dialog.focus, EditDialogFocus::Utf16Le);
    dialog_edit_events(&mut app, key(Key::Down));
    assert_eq!(app.hex_view.edit_dialog.focus, EditDialogFocus::Hex);
    dialog_edit_events(&mut app, key(Key::Tab));
    assert_eq!(app.hex_view.edit_dialog.focus, EditDialogFocus::Enc1);
    dialog_edit_events(&mut app, key(Key::BackTab));
    assert_eq!(app.hex_view.edit_dialog.focus, EditDialogFocus::Hex);
}

#[test]
fn edit_dialog_hex_field_drives_the_others() {
    let mut app = edit_app();
    dialog_edit_events(&mut app, key(Key::BackTab));
    dialog_edit_events(&mut app, ctrl('a'));
    dialog_edit_events(&mut app, key(Key::Backspace));
    assert_eq!(app.hex_view.edit_dialog.input_hex.value, "");
    for c in "4142".chars() {
        dialog_edit_events(&mut app, key(Key::Char(c)));
    }
    assert_eq!(app.hex_view.edit_dialog.input_enc1.value, "AB");
    assert_eq!(app.hex_view.edit_dialog.input_utf8.value, "AB");
    assert_eq!(app.hex_view.edit_dialog.get_bytes(), b"AB");
}

#[test]
fn edit_dialog_esc_writes_nothing() {
    let mut app = edit_app();
    dialog_edit_events(&mut app, key(Key::Char('z')));
    dialog_edit_events(&mut app, key(Key::Esc));
    assert_eq!(app.state, UIState::Normal);
    assert!(app.hex_view.changed_bytes.get(&4).is_none());
    assert_eq!(app.hex_view.edit_dialog.input_enc1.value, "");
}

#[test]
fn edit_dialog_history_recalls_the_last_value() {
    let mut app = edit_app();
    dialog_edit_events(&mut app, ctrl('a'));
    dialog_edit_events(&mut app, key(Key::Char('q')));
    dialog_edit_events(&mut app, key(Key::Enter));
    app.hex_view.offset = 0;
    app.hex_view.blocks.clear();
    open_edit_dialog(&mut app);
    dialog_edit_events(&mut app, KeyPress { code: Key::Up, ctrl: true, alt: false, shift: false });
    assert_eq!(app.hex_view.edit_dialog.focus, EditDialogFocus::Enc1);
    assert_eq!(app.hex_view.edit_dialog.input_enc1.value, "q");
}

// ---------------------------------------------------------------------------
// The Patches dialog
// ---------------------------------------------------------------------------

fn patched_app() -> App {
    let mut app = App::with_buffer(vec![0x11u8; 0x100]);
    app.config.database = false;
    app.hex_view.changed_bytes.insert(0x20, 0xAA);
    app.hex_view.changed_bytes.insert(0x21, 0xAB);
    app.hex_view.changed_bytes.insert(0x40, 0xBB);
    open_patches_dialog(&mut app);
    app
}

#[test]
fn patches_toggle_moves_bytes_aside_and_back() {
    let mut app = patched_app();
    dialog_patches_events(&mut app, key(Key::Char(' ')));
    assert!(app.hex_view.changed_bytes.get(&0x20).is_none());
    assert_eq!(app.hex_view.disabled_bytes.get(&0x21).copied(), Some(0xAB));
    assert!(!app.hex_view.patches_dialog.items[0].enabled);
    assert_eq!(app.logs.last().map(String::as_str), Some("Disabled patch at 0x20 (2 byte(s))"));
    dialog_patches_events(&mut app, key(Key::Char(' ')));
    assert_eq!(app.hex_view.changed_bytes.get(&0x20).copied(), Some(0xAA));
    assert!(app.hex_view.disabled_bytes.get(&0x20).is_none());
    assert_eq!(app.logs.last().map(String::as_str), Some("Enabled patch at 0x20 (2 byte(s))"));
}

#[test]
fn patches_toggle_all() {
    let mut app = patched_app();
    dialog_patches_events(&mut app, key(Key::Char('a')));
    assert!(app.hex_view.changed_bytes.get(&0x40).is_none());
    assert_eq!(app.hex_view.disabled_bytes.get(&0x40).copied(), Some(0xBB));
    assert_eq!(app.logs.last().map(String::as_str), Some("Disabled all patches"));
    dialog_patches_events(&mut app, key(Key::Char('A')));
    assert_eq!(app.hex_view.changed_bytes.get(&0x40).copied(), Some(0xBB));
    assert_eq!(app.logs.last().map(String::as_str), Some("Enabled all patches"));
}

#[test]
fn patches_revert_drops_the_selected_run() {
    let mut app = patched_app();
    dialog_patches_events(&mut app, key(Key::Char('j')));
    dialog_patches_events(&mut app, key(Key::Char('r')));
    assert!(app.hex_view.changed_bytes.get(&0x40).is_none());
    assert_eq!(app.hex_view.changed_bytes.get(&0x20).copied(), Some(0xAA));
    assert_eq!(app.hex_view.patches_dialog.items.len(), 1);
    assert_eq!(app.hex_view.patches_dialog.selected_index, 0);
    assert_eq!(app.logs.last().map(String::as_str), Some("Reverted patch at 0x40 (1 byte(s))"));
}

#[test]
fn patches_enter_goes_to_the_run() {
    let mut app = patched_app();
    dialog_patches_events(&mut app, key(Key::End));
    assert_eq!(app.hex_view.patches_dialog.selected_index, 1);
    dialog_patches_events(&mut app, key(Key::Enter));
    assert_eq!(app.state, UIState::Normal);
    assert_eq!(app.hex_view.offset, 0x40);
}

#[test]
fn patches_copy_one_and_all() {
    let mut app = patched_app();
    let act = dialog_patches_events(&mut app, ctrl('c'));
    assert_eq!(act, HexAction::Copy("[\u{25CF}] 0x20: 11 11 -> AA AB (2 bytes)".to_string()));
    let all = dialog_patches_events(&mut app, KeyPress { code: Key::Char('C'), ctrl: true, alt: false, shift: true });
    assert_eq!(
        all,
        HexAction::Copy(
            "[\u{25CF}] 0x20: 11 11 -> AA AB (2 bytes)\r\n[\u{25CF}] 0x40: 11 -> BB (1 bytes)".to_string()
        )
    );
    assert_eq!(app.logs.last().map(String::as_str), Some("Copied 2 patch(es) to clipboard"));
}

#[test]
fn patches_f4_opens_the_edit_dialog_on_the_run() {
    let mut app = patched_app();
    dialog_patches_events(&mut app, key(Key::F(4)));
    assert_eq!(app.state, UIState::DialogEditData);
    assert_eq!(app.hex_view.offset, 0x20);
}

// ---------------------------------------------------------------------------
// The Names dialog
// ---------------------------------------------------------------------------

fn named_app() -> App {
    let mut app = app();
    Commands::comment(&mut app, 0x10, "alpha".to_string());
    Commands::comment(&mut app, 0x30, "Beta".to_string());
    Commands::comment(&mut app, 0x20, "gamma".to_string());
    app.state = UIState::DialogNames;
    app
}

fn name_offsets(app: &App) -> Vec<usize> {
    filtered_comments(app).iter().map(|c| c.offset).collect()
}

#[test]
fn names_move_and_go() {
    let mut app = named_app();
    assert_eq!(app.hex_view.names_selected, None);
    dialog_names_events(&mut app, key(Key::Down));
    assert_eq!(app.hex_view.names_selected, Some(0));
    dialog_names_events(&mut app, key(Key::Down));
    assert_eq!(app.hex_view.names_selected, Some(1));
    dialog_names_events(&mut app, key(Key::End));
    assert_eq!(app.hex_view.names_selected, Some(2));
    dialog_names_events(&mut app, key(Key::PageUp));
    assert_eq!(app.hex_view.names_selected, Some(0));
    dialog_names_events(&mut app, key(Key::Down));
    dialog_names_events(&mut app, key(Key::Enter));
    assert_eq!(app.state, UIState::Normal);
    assert_eq!(app.hex_view.offset, 0x30);
}

#[test]
fn names_sort_by_offset_and_text() {
    let mut app = named_app();
    assert_eq!(name_offsets(&app), vec![0x10, 0x30, 0x20]);
    dialog_names_events(&mut app, key(Key::Char('o')));
    assert_eq!(name_offsets(&app), vec![0x10, 0x20, 0x30]);
    dialog_names_events(&mut app, key(Key::Char('n')));
    assert_eq!(name_offsets(&app), vec![0x30, 0x10, 0x20], "upper case sorts first");
}

#[test]
fn names_filter_box_narrows_the_list() {
    let mut app = named_app();
    dialog_names_events(&mut app, key(Key::Char('/')));
    assert_eq!(app.state, UIState::DialogNamesRegex);
    for c in "BET".chars() {
        dialog_names_regex_events(&mut app, key(Key::Char(c)));
    }
    dialog_names_regex_events(&mut app, key(Key::Enter));
    assert_eq!(app.state, UIState::DialogNames);
    assert_eq!(app.hex_view.names_regex, "BET");
    assert_eq!(app.hex_view.names_selected, Some(0));
    assert_eq!(name_offsets(&app), vec![0x30]);
    let act = dialog_names_events(&mut app, key(Key::Char('y')));
    assert_eq!(act, HexAction::Copy("00000030\tBeta".to_string()));
}

#[test]
fn names_delete_removes_the_comment() {
    let mut app = named_app();
    dialog_names_events(&mut app, KeyPress { code: Key::End, ctrl: false, alt: false, shift: false });
    assert_eq!(dialog_names_events(&mut app, key(Key::Delete)), HexAction::Beep, "nothing highlighted");
    dialog_names_events(&mut app, KeyPress { code: Key::Home, ctrl: true, alt: false, shift: false });
    dialog_names_events(&mut app, key(Key::Delete));
    assert!(app.hex_view.comments.get(&0x10).is_none());
    assert_eq!(name_offsets(&app), vec![0x30, 0x20]);
    assert_eq!(app.hex_view.names_selected, Some(0));
    assert_eq!(app.logs.last().map(String::as_str), Some("Deleted the comment at 0x10"));
}

#[test]
fn names_f2_edits_the_comment() {
    let mut app = named_app();
    dialog_names_events(&mut app, KeyPress { code: Key::Home, ctrl: true, alt: false, shift: false });
    dialog_names_events(&mut app, key(Key::F(2)));
    assert_eq!(app.state, UIState::DialogComment);
    assert_eq!(app.hex_view.offset, 0x10);
    assert_eq!(app.hex_view.comment_input.value, "alpha");
}

// ---------------------------------------------------------------------------
// The Modify Block dialog
// ---------------------------------------------------------------------------

fn modify_app(bytes: &[u8]) -> App {
    let mut app = App::with_buffer(bytes.to_vec());
    app.hex_view.selection.start = 0;
    app.hex_view.selection.end = bytes.len() - 1;
    app.state = UIState::DialogModifyBlock;
    app
}

#[test]
fn modify_grid_arrows_wrap() {
    let mut app = modify_app(&[0]);
    assert_eq!(app.hex_view.modify_dialog.op_index, 4);
    dialog_modify_events(&mut app, key(Key::Left));
    assert_eq!(app.hex_view.modify_dialog.op_index, 3);
    dialog_modify_events(&mut app, key(Key::Left));
    assert_eq!(app.hex_view.modify_dialog.op_index, 5, "a row wraps around");
    dialog_modify_events(&mut app, key(Key::Up));
    assert_eq!(app.hex_view.modify_dialog.op_index, 2);
    dialog_modify_events(&mut app, key(Key::Up));
    assert_eq!(app.hex_view.modify_dialog.op_index, 12, "the last row is short");
    dialog_modify_events(&mut app, key(Key::Down));
    assert_eq!(app.hex_view.modify_dialog.op_index, 0);
    dialog_modify_events(&mut app, key(Key::Right));
    assert_eq!(app.hex_view.modify_dialog.op_index, 1);
}

#[test]
fn modify_tab_walks_the_fields_and_space_flips() {
    let mut app = modify_app(&[0]);
    let order = [ModifyFocus::Operand, ModifyFocus::Step, ModifyFocus::HexMode, ModifyFocus::BitSize, ModifyFocus::Operation];
    for f in order {
        dialog_modify_events(&mut app, key(Key::Tab));
        assert_eq!(app.hex_view.modify_dialog.focus, f);
    }
    dialog_modify_events(&mut app, key(Key::BackTab));
    assert_eq!(app.hex_view.modify_dialog.focus, ModifyFocus::BitSize);
    for expected in [16, 32, 64, 8] {
        dialog_modify_events(&mut app, key(Key::Char(' ')));
        assert_eq!(app.hex_view.modify_dialog.bit_size, expected);
    }
    dialog_modify_events(&mut app, key(Key::BackTab));
    assert_eq!(app.hex_view.modify_dialog.focus, ModifyFocus::HexMode);
    dialog_modify_events(&mut app, key(Key::Char(' ')));
    assert!(!app.hex_view.modify_dialog.is_hex);
}

#[test]
fn modify_enter_applies_the_operation() {
    let mut app = modify_app(&[0x0F, 0xF0]);
    dialog_modify_events(&mut app, key(Key::Tab));
    for c in "FF".chars() {
        dialog_modify_events(&mut app, key(Key::Char(c)));
    }
    assert_eq!(app.hex_view.modify_dialog.operand_input, "FF");
    assert_eq!(app.hex_view.modify_dialog.cursor, 2);
    dialog_modify_events(&mut app, key(Key::Enter));
    assert_eq!(app.state, UIState::Normal);
    assert_eq!(app.hex_view.changed_bytes.get(&0).copied(), Some(0xF0));
    assert_eq!(app.hex_view.changed_bytes.get(&1).copied(), Some(0x0F));
}

#[test]
fn modify_esc_changes_nothing() {
    let mut app = modify_app(&[1, 2]);
    dialog_modify_events(&mut app, key(Key::Tab));
    dialog_modify_events(&mut app, key(Key::Char('1')));
    dialog_modify_events(&mut app, key(Key::Esc));
    assert_eq!(app.state, UIState::Normal);
    assert!(app.hex_view.changed_bytes.get(&0).is_none());
}

// ---------------------------------------------------------------------------
// The Find dialog
// ---------------------------------------------------------------------------

fn find_app() -> App {
    let mut bytes = vec![0u8; 0x40];
    bytes[0x08..0x0A].copy_from_slice(b"Hi");
    bytes[0x20..0x22].copy_from_slice(b"Hi");
    App::with_buffer(bytes)
}

#[test]
fn find_typing_fills_every_field() {
    let mut app = find_app();
    for c in "Hi".chars() {
        dialog_find_events(&mut app, key(Key::Char(c)));
    }
    let d = &app.hex_view.find_dialog;
    assert_eq!(d.input_enc1.value, "Hi");
    assert_eq!(d.input_utf8.value, "Hi");
    assert_eq!(d.input_hex.value, "4869");
    assert_eq!(d.input_utf16le.value, "\u{6948}");
    dialog_find_events(&mut app, key(Key::Backspace));
    assert_eq!(app.hex_view.find_dialog.input_hex.value, "48");
}

#[test]
fn find_tab_walks_the_fields() {
    let mut app = find_app();
    dialog_find_events(&mut app, key(Key::Tab));
    assert_eq!(app.hex_view.find_dialog.focus, EditDialogFocus::Utf8);
    dialog_find_events(&mut app, key(Key::Down));
    assert_eq!(app.hex_view.find_dialog.focus, EditDialogFocus::Utf16Le);
    dialog_find_events(&mut app, key(Key::Up));
    assert_eq!(app.hex_view.find_dialog.focus, EditDialogFocus::Utf8);
    dialog_find_events(&mut app, key(Key::BackTab));
    dialog_find_events(&mut app, key(Key::BackTab));
    assert_eq!(app.hex_view.find_dialog.focus, EditDialogFocus::Hex);
}

#[test]
fn find_hex_field_drops_other_characters() {
    let mut app = find_app();
    dialog_find_events(&mut app, key(Key::BackTab));
    for c in "4g8?x 6z9".chars() {
        dialog_find_events(&mut app, key(Key::Char(c)));
    }
    assert_eq!(app.hex_view.find_dialog.input_hex.value, "48?x 69");
    assert_eq!(app.hex_view.find_dialog.input_enc1.value, "", "a wildcard empties the text fields");
}

#[test]
fn find_enter_and_f3_step_through_hits() {
    let mut app = find_app();
    dialog_find_events(&mut app, key(Key::BackTab));
    for c in "4869".chars() {
        dialog_find_events(&mut app, key(Key::Char(c)));
    }
    dialog_find_events(&mut app, key(Key::Enter));
    assert_eq!(app.hex_view.offset, 0x08);
    assert_eq!((app.hex_view.selection.start, app.hex_view.selection.end), (0x08, 0x09));
    assert!(app.hex_view.find_dialog.status_message.is_some());
    assert!(app.hex_view.find_dialog.error_message.is_none());
    dialog_find_events(&mut app, key(Key::F(3)));
    assert_eq!(app.hex_view.offset, 0x20);
    dialog_find_events(&mut app, KeyPress { code: Key::F(3), ctrl: false, alt: false, shift: true });
    assert_eq!(app.hex_view.offset, 0x08);
}

#[test]
fn find_reports_an_empty_field_and_no_match() {
    let mut app = find_app();
    dialog_find_events(&mut app, key(Key::Enter));
    assert!(app.hex_view.find_dialog.status_message.is_some());
    assert_eq!(app.hex_view.offset, 0);
    for c in "zz".chars() {
        dialog_find_events(&mut app, key(Key::Char(c)));
    }
    dialog_find_events(&mut app, key(Key::Enter));
    assert_eq!(app.hex_view.find_dialog.status_message.as_deref(), Some("No matching pattern found."));
}

#[test]
fn find_esc_empties_and_closes() {
    let mut app = find_app();
    app.state = UIState::DialogHelp;
    dialog_find_events(&mut app, key(Key::Char('q')));
    dialog_find_events(&mut app, key(Key::Tab));
    dialog_find_events(&mut app, key(Key::Esc));
    assert_eq!(app.state, UIState::Normal);
    assert_eq!(app.hex_view.find_dialog.input_enc1.value, "");
    assert_eq!(app.hex_view.find_dialog.input_hex.value, "");
    assert_eq!(app.hex_view.find_dialog.focus, EditDialogFocus::Enc1);
}

// ---------------------------------------------------------------------------
// Replacing a string
// ---------------------------------------------------------------------------

#[test]
fn string_edit_opens_on_the_chosen_string() {
    let mut app = strings_app();
    assert_eq!(open_string_edit(&mut app), HexAction::Nothing);
    assert_eq!(app.state, UIState::DialogStringEdit);
    let e = &app.hex_view.string_edit;
    assert_eq!(e.offset, 0x10);
    assert_eq!(e.total_capacity, 16, "five letters and the eleven zeros after them");
    assert_eq!(e.budget, 15);
    assert_eq!(e.encoding, StringEncoding::Cp949);
    assert_eq!(e.input.value, "HELLO");
    assert_eq!(e.input.cursor, 5);
    assert_eq!(e.return_state, Some(UIState::DialogStrings));
}

#[test]
fn string_edit_writes_the_text_and_zeroes_the_rest() {
    let mut app = strings_app();
    open_string_edit(&mut app);
    dialog_string_edit_events(&mut app, key(Key::Char('!')));
    assert_eq!(dialog_string_edit_events(&mut app, key(Key::Enter)), HexAction::Nothing);
    assert_eq!(app.state, UIState::DialogStrings);
    assert_eq!(app.hex_view.changed_bytes.get(&0x15).copied(), Some(b'!'));
    for o in 0x16..0x20 {
        assert_eq!(app.hex_view.changed_bytes.get(&o).copied(), Some(0), "offset {:#x}", o);
    }
    assert!(app.hex_view.changed_bytes.get(&0x20).is_none());
    assert_eq!(app.strings[0].content, "HELLO!");
    assert_eq!(
        app.logs.last().map(String::as_str),
        Some("Replaced the string at 0x10 with 6 byte(s), 10 padded with 00")
    );
    assert_eq!(app.hex_view.string_edit.input.value, "");
}

#[test]
fn string_edit_refuses_text_over_budget() {
    let mut app = strings_app();
    open_string_edit(&mut app);
    for c in "ABCDEFGHIJK".chars() {
        dialog_string_edit_events(&mut app, key(Key::Char(c)));
    }
    assert_eq!(dialog_string_edit_events(&mut app, key(Key::Enter)), HexAction::Beep);
    assert_eq!(app.state, UIState::DialogStringEdit);
    assert_eq!(
        app.hex_view.string_edit.error.as_deref(),
        Some("String is too long: 16 bytes needed, 15 available")
    );
    assert!(app.hex_view.changed_bytes.get(&0x10).is_none());
    dialog_string_edit_events(&mut app, key(Key::Backspace));
    assert!(app.hex_view.string_edit.error.is_none(), "an edit clears the message");
}

#[test]
fn string_edit_ascii_takes_only_ascii() {
    let mut app = strings_app();
    open_string_edit(&mut app);
    let alt_e = KeyPress { code: Key::Char('e'), ctrl: false, alt: true, shift: false };
    for expected in [StringEncoding::Cp936, StringEncoding::Utf16, StringEncoding::Ascii] {
        dialog_string_edit_events(&mut app, alt_e);
        assert_eq!(app.hex_view.string_edit.encoding, expected);
    }
    dialog_string_edit_events(&mut app, key(Key::Char('\u{AC00}')));
    assert_eq!(dialog_string_edit_events(&mut app, key(Key::Enter)), HexAction::Beep);
    assert!(app.hex_view.string_edit.error.as_deref().unwrap().starts_with("ASCII mode only allows ASCII characters"));
}

#[test]
fn string_edit_esc_goes_back_unchanged() {
    let mut app = strings_app();
    open_string_edit(&mut app);
    dialog_string_edit_events(&mut app, key(Key::Char('x')));
    dialog_string_edit_events(&mut app, key(Key::Esc));
    assert_eq!(app.state, UIState::DialogStrings);
    assert!(app.hex_view.changed_bytes.get(&0x10).is_none());
    assert_eq!(app.strings[0].content, "HELLO");
}

#[test]
fn string_edit_needs_a_chosen_string_and_a_writable_file() {
    let mut app = strings_app();
    app.list_selected = None;
    assert_eq!(open_string_edit(&mut app), HexAction::Beep);
    let mut app = strings_app();
    app.file_info.is_read_only = true;
    assert_eq!(open_string_edit(&mut app), HexAction::Nothing);
    assert!(app.status_error.is_some());
    assert_ne!(app.state, UIState::DialogStringEdit);
}

// ---------------------------------------------------------------------------
// Names: deleting, editing and copying rows
// ---------------------------------------------------------------------------

fn app_with_comments() -> App {
    let mut app = App::with_buffer(vec![0x90u8; 0x400]);
    app.file_info.is_read_only = true;
    app.config.database = false;
    Commands::comment(&mut app, 0x100, "first".to_string());
    Commands::comment(&mut app, 0x200, "second".to_string());
    Commands::comment(&mut app, 0x300, "third".to_string());
    app.state = UIState::DialogNames;
    app.hex_view.names_selected = Some(1);
    app
}

#[test]
fn delete_removes_only_the_selected_comment() {
    let mut app = app_with_comments();

    dialog_names_events(&mut app, key(Key::Delete));

    assert!(!app.hex_view.comments.contains_key(&0x200), "the selected one goes");
    assert!(app.hex_view.comments.contains_key(&0x100), "the others stay");
    assert!(app.hex_view.comments.contains_key(&0x300));
    assert_eq!(app.hex_view.comment_name_list.len(), 2, "the list entry goes too");
    assert!(app.state == UIState::DialogNames, "the dialog stays open so several can be deleted in a row");
}

#[test]
fn the_selection_stays_valid_after_deleting_the_last_row() {
    let mut app = app_with_comments();
    app.hex_view.names_selected = Some(2);

    dialog_names_events(&mut app, key(Key::Delete));
    assert_eq!(app.hex_view.names_selected, Some(1));

    dialog_names_events(&mut app, key(Key::Delete));
    dialog_names_events(&mut app, key(Key::Delete));
    assert_eq!(app.hex_view.names_selected, None, "an empty list must not keep an index");
    assert!(app.hex_view.comments.is_empty());
}

#[test]
fn f2_edits_the_selected_comment() {
    let mut app = app_with_comments();

    dialog_names_events(&mut app, key(Key::F(2)));

    assert!(app.state == UIState::DialogComment);
    assert_eq!(app.hex_view.comment_input.value, "second");
    assert_eq!(app.hex_view.offset, 0x200, "the cursor follows, so the box names the offset it will change");
}

#[test]
fn the_filter_decides_which_entry_a_row_is() {
    let mut app = app_with_comments();
    app.hex_view.names_regex = "third".to_string();
    app.hex_view.names_selected = Some(0);

    assert_eq!(selected_offset(&app), Some(0x300));

    dialog_names_events(&mut app, key(Key::Delete));
    assert!(!app.hex_view.comments.contains_key(&0x300));
    assert_eq!(app.hex_view.comments.len(), 2);
}

#[test]
fn y_and_shift_y_copy_names() {
    let mut app = app_with_comments();
    app.hex_view.names_selected = Some(0);

    dialog_names_events(&mut app, key(Key::Char('y')));
    assert!(app.logs.last().unwrap().contains("1 name"));

    dialog_names_events(&mut app, KeyPress { code: Key::Char('Y'), ctrl: false, alt: false, shift: true });
    assert!(app.logs.last().unwrap().contains("3 name(s)"));
}

// ---------------------------------------------------------------------------
// Replacing a string: the cases the scan module pins down
// ---------------------------------------------------------------------------

#[test]
fn ascii_mode_refuses_non_ascii_replacements() {
    let mut app = App::new();
    app.hex_view.string_edit = StringEdit {
        offset: 0,
        budget: 10,
        total_capacity: 10,
        row: 0,
        encoding: StringEncoding::Ascii,
        input: TextInput::new("\u{D55C}\u{AE00}".to_string()),
        anchor: None,
        error: None,
        return_state: None,
    };
    commit_string_edit(&mut app);
    assert!(app.hex_view.string_edit.error.is_some(), "non-ASCII replacement in ASCII mode must be refused");
}

#[test]
fn ascii_scan_defaults_string_edit_to_cp949() {
    let mut app = App::new();
    app.strings = vec![FoundString::new(0x10, "license", 7)];
    app.hex_view.strings_filtered = vec![0];
    app.list_selected = Some(0);
    app.hex_view.strings_dialog.encoding = StringEncoding::Ascii;

    open_string_edit(&mut app);

    assert!(matches!(app.state, UIState::DialogStringEdit));
    assert_eq!(app.hex_view.string_edit.encoding, StringEncoding::Cp949);
}

// ---------------------------------------------------------------------------
// Edit Data: plain and Ctrl arrows
// ---------------------------------------------------------------------------

#[test]
fn test_edit_dialog_events_ctrl_and_plain_arrows() {
    let mut app = App::new();
    app.hex_view.edit_dialog.reset();
    app.hex_view.edit_dialog.focus = EditDialogFocus::Enc1;

    app.hex_view.edit_dialog.history.push(DialogHistoryEntry { focus: EditDialogFocus::Hex, value: "9090".to_string() });

    let plain_down = key(Key::Down);
    let plain_up = key(Key::Up);
    let ctrl_up = KeyPress { code: Key::Up, ctrl: true, alt: false, shift: false };
    let ctrl_down = KeyPress { code: Key::Down, ctrl: true, alt: false, shift: false };

    let _ = dialog_edit_events(&mut app, plain_down);
    assert_eq!(app.hex_view.edit_dialog.focus, EditDialogFocus::Utf8);

    let _ = dialog_edit_events(&mut app, plain_up);
    assert_eq!(app.hex_view.edit_dialog.focus, EditDialogFocus::Enc1);

    let _ = dialog_edit_events(&mut app, ctrl_up);
    assert_eq!(app.hex_view.edit_dialog.focus, EditDialogFocus::Hex);
    assert_eq!(app.hex_view.edit_dialog.input_hex.value, "9090");

    let _ = dialog_edit_events(&mut app, ctrl_down);
    assert_eq!(app.hex_view.edit_dialog.focus, EditDialogFocus::Enc1);
    assert_eq!(app.hex_view.edit_dialog.input_enc1.value, "");
}

// ---------------------------------------------------------------------------
// Replacing a string from the Strings list (F4)
// ---------------------------------------------------------------------------

fn sample() -> Vec<u8> {
    let mut bytes = vec![0u8; 0x60];
    bytes[0x10..0x1B].copy_from_slice(b"Hello world");
    bytes[0x1B] = 0;
    bytes[0x1C] = 0xFF;
    bytes[0x30..0x35].copy_from_slice(b"Short");
    bytes
}

fn listed(bytes: &[u8], encoding: StringEncoding) -> App {
    let mut app = App::with_buffer(bytes.to_vec());
    app.hex_view.strings_dialog.encoding = encoding;
    Commands::strings(&mut app);
    app.list_selected = Some(0);
    app
}

fn staged_byte(app: &App, offset: usize) -> Option<u8> {
    app.hex_view.changed_bytes.get(&offset).copied()
}

#[test]
fn e_opens_the_box_with_the_budget() {
    let mut app = listed(&sample(), StringEncoding::Ascii);
    dialog_strings_events(&mut app, key(Key::F(4)));

    assert!(app.state == UIState::DialogStringEdit);
    assert_eq!(app.hex_view.string_edit.input.value, "Hello world");
    assert_eq!(app.hex_view.string_edit.offset, 0x10);
    assert_eq!(app.hex_view.string_edit.budget, 11);
}

#[test]
fn a_longer_replacement_is_refused() {
    let mut app = listed(&sample(), StringEncoding::Ascii);
    dialog_strings_events(&mut app, key(Key::F(4)));

    for c in " and then some more".chars() {
        dialog_string_edit_events(&mut app, key(Key::Char(c)));
    }
    dialog_string_edit_events(&mut app, key(Key::Enter));

    assert!(app.state == UIState::DialogStringEdit, "the box must stay open");
    assert!(app.hex_view.changed_bytes.is_empty(), "bytes were written anyway");
    let error = app.hex_view.string_edit.error.clone().expect("no reason given");
    assert!(error.contains("11"), "the budget is not named: {:?}", error);

    dialog_string_edit_events(&mut app, key(Key::Backspace));
    assert!(app.hex_view.string_edit.error.is_none());
}

#[test]
fn the_budget_counts_bytes_in_the_rows_encoding() {
    let korean = encoding_rs::EUC_KR.encode("\u{D55C}\u{AE00}\u{BB38}\u{C790}\u{C785}\u{B2C8}").0.into_owned();
    assert_eq!(korean.len(), 12);
    let mut bytes = vec![0u8; 0x40];
    bytes[0x10..0x10 + korean.len()].copy_from_slice(&korean);
    bytes[0x10 + korean.len()] = 0;
    bytes[0x10 + korean.len() + 1] = 0xFF;

    let mut app = listed(&bytes, StringEncoding::Cp949);
    dialog_strings_events(&mut app, key(Key::F(4)));
    assert_eq!(app.hex_view.string_edit.budget, 12);

    app.hex_view.string_edit.input = TextInput::new("\u{D55C}\u{AE00}\u{BB38}\u{C790}\u{C785}\u{B2C8}\u{B2E4}".to_string());
    dialog_string_edit_events(&mut app, key(Key::Enter));
    assert!(app.hex_view.string_edit.error.is_some(), "14 bytes should not fit in 12");
    assert!(app.hex_view.changed_bytes.is_empty());

    app.hex_view.string_edit.error = None;
    app.hex_view.string_edit.input = TextInput::new("\u{D55C}\u{AE00}\u{BB38}\u{C790}\u{C785}".to_string());
    dialog_string_edit_events(&mut app, key(Key::Enter));

    let expected = encoding_rs::EUC_KR.encode("\u{D55C}\u{AE00}\u{BB38}\u{C790}\u{C785}").0.into_owned();
    for (i, byte) in expected.iter().enumerate() {
        assert_eq!(staged_byte(&app, 0x10 + i), Some(*byte), "byte {} differs", i);
    }
    assert_eq!(staged_byte(&app, 0x10 + 10), Some(0));
    assert_eq!(staged_byte(&app, 0x10 + 11), Some(0));
}

#[test]
fn a_utf16_row_is_written_as_utf16() {
    let wide: Vec<u8> = "Hello".encode_utf16().flat_map(|u| u.to_le_bytes()).collect();
    let mut bytes = vec![0u8; 0x40];
    bytes[0x10..0x10 + wide.len()].copy_from_slice(&wide);
    bytes[0x10 + wide.len()] = 0;
    bytes[0x10 + wide.len() + 1] = 0;
    bytes[0x10 + wide.len() + 2] = 0xFF;

    let mut app = listed(&bytes, StringEncoding::Utf16);
    dialog_strings_events(&mut app, key(Key::F(4)));
    assert_eq!(app.hex_view.string_edit.budget, 10, "five wide characters are ten bytes");

    app.hex_view.string_edit.input = TextInput::new("Hi".to_string());
    dialog_string_edit_events(&mut app, key(Key::Enter));

    assert_eq!(staged_byte(&app, 0x10), Some(b'H'));
    assert_eq!(staged_byte(&app, 0x11), Some(0));
    assert_eq!(staged_byte(&app, 0x12), Some(b'i'));
    assert_eq!(staged_byte(&app, 0x13), Some(0));
    for offset in 0x14..0x1C {
        assert_eq!(staged_byte(&app, offset), Some(0), "0x{:X} was not padded", offset);
    }
}

#[test]
fn a_read_only_file_refuses_up_front() {
    let mut app = listed(&sample(), StringEncoding::Ascii);
    app.file_info.is_read_only = true;

    dialog_strings_events(&mut app, key(Key::F(4)));

    assert!(app.state == UIState::DialogStrings, "the box opened on a read-only file");
    assert!(app.status_error.is_some(), "the refusal was not reported");
    assert!(app.hex_view.changed_bytes.is_empty());
}

#[test]
fn esc_writes_nothing() {
    let mut app = listed(&sample(), StringEncoding::Ascii);
    dialog_strings_events(&mut app, key(Key::F(4)));
    dialog_string_edit_events(&mut app, key(Key::Char('!')));

    dialog_string_edit_events(&mut app, key(Key::Esc));

    assert!(app.state == UIState::DialogStrings);
    assert!(app.hex_view.changed_bytes.is_empty(), "Esc wrote bytes");
    assert_eq!(app.strings[0].content, "Hello world", "the row was changed anyway");
}

#[test]
fn the_edit_is_undoable() {
    let mut app = listed(&sample(), StringEncoding::Ascii);
    dialog_strings_events(&mut app, key(Key::F(4)));
    app.hex_view.string_edit.input = TextInput::new("Bye".to_string());
    dialog_string_edit_events(&mut app, key(Key::Enter));

    assert_eq!(app.hex_view.changed_bytes.len(), 12, "every byte of the total capacity is staged");
    assert_eq!(app.hex_view.changed_history.len(), 12, "the undo history has to carry them too");
}
