use dezes::app::App;
use dezes::hex::edit_dialog::{encode_upper, EditDialog, EditDialogFocus};
use dezes::hex::events::{flip_selection_case, toggle_highlight};
use dezes::hex::field_box::TextInput;
use dezes::hex::pattern_engine::{HexPattern, HexReplacer};
use dezes::hex::selection::color_block_at_cursor;
use dezes::i18n::Lang;

fn shown(app: &App, n: usize) -> Vec<u8> {
    (0..n).map(|i| app.hex_view.changed_bytes.get(&i).copied().unwrap_or(app.file_info.buffer[i])).collect()
}

#[test]
fn flipping_case_twice_shows_the_same_bytes() {
    let mut app = App::with_buffer(b"abC1-Z".to_vec());
    app.hex_view.selection.start = 0;
    app.hex_view.selection.end = 5;
    let first = flip_selection_case(&mut app);
    assert_eq!(shown(&app, 6), b"ABc1-z".to_vec());
    let second = flip_selection_case(&mut app);
    assert_eq!(first, 4);
    assert_eq!(second, first);
    assert_eq!(shown(&app, 6), b"abC1-Z".to_vec());
}

#[test]
fn highlighting_twice_leaves_no_highlight() {
    let mut app = App::with_buffer(vec![0x41, 0x42]);
    app.hex_view.highlights.push(0x42);
    toggle_highlight(&mut app);
    assert!(app.hex_view.highlights.contains(&0x41));
    toggle_highlight(&mut app);
    assert_eq!(app.hex_view.highlights, vec![0x42]);
}

#[test]
fn the_hex_field_reads_back_its_bytes() {
    let bytes = [0x00u8, 0x7F, 0x80, 0xAB, 0xFF];
    let mut dialog = EditDialog::default();
    dialog.focus = EditDialogFocus::Hex;
    let hex = encode_upper(&bytes);
    assert_eq!(hex, "007F80ABFF");
    dialog.input_hex = TextInput::new(hex);
    dialog.sync_from_focus();
    assert_eq!(dialog.get_bytes(), &bytes);
}

#[test]
fn coloured_blocks_stay_sorted_by_start() {
    let mut app = App::with_buffer(vec![0u8; 0x100]);
    for (s, e) in [(0x30, 0x40), (0x10, 0x20), (0x50, 0x58)] {
        app.hex_view.offset = 0;
        app.hex_view.selection.start = s;
        app.hex_view.selection.end = e;
        color_block_at_cursor(&mut app);
    }
    let starts: Vec<usize> = app.hex_view.blocks.iter().map(|b| b.start).collect();
    assert_eq!(starts, vec![0x10, 0x30, 0x50]);
}

#[test]
fn overlapping_matches_are_taken_leftmost_first() {
    let search = HexPattern::parse("AA AA").unwrap();
    let replace = HexPattern::parse("?? 01").unwrap();
    let mut data = vec![0xAA, 0xAA, 0xAA, 0x00, 0xAA, 0xAA, 0xAA, 0xAA];
    let r = HexReplacer::new(search, replace, &[]).unwrap();
    assert_eq!(r.find_all(&data), vec![0, 4, 6], "the match at 1 overlaps the one at 0");
    r.replace_all(&mut data);
    assert_eq!(data, vec![0xAA, 0x01, 0xAA, 0x00, 0xAA, 0x01, 0xAA, 0x01]);
}

#[test]
fn language_names_ignore_case_and_spaces() {
    for l in [Lang::En, Lang::Ko, Lang::Zh] {
        assert_eq!(Lang::from_name(l.name()), Some(l));
    }
    assert_eq!(Lang::from_name(" KR "), Some(Lang::Ko));
    assert_eq!(Lang::from_name("zh"), Some(Lang::Zh));
    assert_eq!(Lang::from_name("\u{D55C}\u{AD6D}\u{C5B4}"), Some(Lang::Ko));
    assert_eq!(Lang::from_name("  English"), Lang::from_name("english"));
    assert_eq!(Lang::from_name("fr"), None);
}

#[test]
fn reverting_either_way_round_is_the_same() {
    let mut a = App::with_buffer(vec![0u8; 16]);
    for o in [2usize, 5, 9] {
        dezes::hex::edit::record_edit(&mut a, o, 0xFF);
    }
    let mut b = App::with_buffer(vec![0u8; 16]);
    for o in [2usize, 5, 9] {
        dezes::hex::edit::record_edit(&mut b, o, 0xFF);
    }
    let n1 = dezes::hex::edit::revert_range(&mut a, 3, 9);
    let n2 = dezes::hex::edit::revert_range(&mut b, 9, 3);
    assert_eq!(n1, 2);
    assert_eq!(n1, n2);
    assert_eq!(a.hex_view.redo_history, b.hex_view.redo_history);
    assert_eq!(a.hex_view.changed_history, vec![2]);
    assert_eq!(b.hex_view.changed_history, vec![2]);
}

#[test]
fn hits_may_repeat_in_an_ascending_list() {
    let mut app = App::with_buffer(vec![0u8; 0x40]);
    app.hex_view.search.matches = vec![0x10, 0x10, 0x12];
    app.hex_view.search.match_len = 2;
    assert!(dezes::hex::search::in_match(&app, 0x10));
    assert!(dezes::hex::search::in_match(&app, 0x13));
    assert!(!dezes::hex::search::in_match(&app, 0x14));
    assert!(!dezes::hex::search::in_match(&app, 0x0F));
}
