use dezes::app::App;
use dezes::hex::comment::Commands;
use dezes::hex::strings::{matches_the_empty_string, StringEncoding};
use dezes::hex::strings_list::{
    filtered_rows_as_tsv, move_selection, page_step, row_as_tsv, update_strings_filter,
};

fn sample() -> Vec<u8> {
    let mut bytes = vec![0u8; 0x80];
    bytes[0x10..0x15].copy_from_slice(b"HELLO");
    bytes[0x20..0x27].copy_from_slice(b"WORLD!!");
    bytes[0x30..0x39].copy_from_slice(b"WORLDWIDE");
    bytes
}

fn wide_file(count: usize, tail: &str) -> Vec<u8> {
    let mut buffer = vec![0u8, 0u8];
    for i in 0..count {
        let s = format!("string-{:05}", i);
        for unit in s.encode_utf16() {
            buffer.extend_from_slice(&unit.to_le_bytes());
        }
        buffer.extend_from_slice(&[0, 0]);
    }
    for unit in tail.encode_utf16() {
        buffer.extend_from_slice(&unit.to_le_bytes());
    }
    buffer.extend_from_slice(&[0, 0]);
    buffer
}

fn shown(app: &App) -> Vec<String> {
    app.hex_view
        .strings_filtered
        .iter()
        .filter_map(|&i| app.strings.get(i))
        .map(|s| s.content.clone())
        .collect()
}

#[test]
fn a_row_is_tab_separated_and_uses_the_displayed_address() {
    let mut bytes = vec![0u8; 0x40];
    bytes[0x10..0x15].copy_from_slice(b"HELLO");
    let mut app = App::with_buffer(bytes);
    Commands::strings(&mut app);

    let found = &app.strings[0];
    assert_eq!(row_as_tsv(&app, found), "00000010\tHELLO");

    app.hex_view.show_va = true;
    let found = &app.strings[0];
    let va = app.get_va(found.offset);
    assert_eq!(row_as_tsv(&app, found), format!("{:08X}\tHELLO", va));
}

#[test]
fn y_copies_one_row_and_shift_y_copies_the_filtered_list() {
    let mut app = App::with_buffer(sample());
    Commands::strings(&mut app);
    assert_eq!(app.strings.len(), 3);

    let (text, count) = filtered_rows_as_tsv(&app);
    assert_eq!(count, 3);
    assert_eq!(text.lines().count(), 3);
    assert!(text.starts_with("00000010\tHELLO"), "got {:?}", text);

    app.hex_view.strings_dialog.regex_input = "^WORLD".to_string();
    update_strings_filter(&mut app);
    let (text, count) = filtered_rows_as_tsv(&app);
    assert_eq!(count, 2, "Y must copy the filtered rows");
    assert!(!text.contains("HELLO"), "got {:?}", text);
}

#[test]
fn an_empty_match_no_longer_counts() {
    let mut app = App::with_buffer(sample());
    Commands::strings(&mut app);

    app.hex_view.strings_dialog.regex_input = "(WORLD)*?".to_string();
    update_strings_filter(&mut app);
    assert_eq!(app.hex_view.strings_filtered.len(), 0, "a zero-length match is not a hit");

    app.hex_view.strings_dialog.regex_input = "(WORLD)*".to_string();
    update_strings_filter(&mut app);
    assert_eq!(shown(&app), vec!["WORLD!!".to_string(), "WORLDWIDE".to_string()]);
}

#[test]
fn an_empty_scan_pattern_is_not_a_filter() {
    let mut app = App::with_buffer(sample());
    app.string_regex = String::new();
    Commands::rescan_strings(&mut app);
    assert_eq!(app.strings.len(), 3, "an empty pattern must not filter anything out");
    assert_eq!(app.logs.last().unwrap(), "Strings: 3 found (min 4 chars, ASCII)");
}

#[test]
fn a_pattern_that_matches_nothing_is_reported() {
    assert!(matches_the_empty_string("[a-z]*"));
    assert!(matches_the_empty_string("([一-龥]*?){4,}"));
    assert!(matches_the_empty_string("(x?)"));
    assert!(!matches_the_empty_string("[a-z]+"));
    assert!(!matches_the_empty_string("[一-龥]{2,}"));
    assert!(!matches_the_empty_string(""), "an empty box is not a warning");
    assert!(!matches_the_empty_string("["), "a half-typed pattern is not a warning");

    let mut app = App::with_buffer(sample());
    Commands::strings(&mut app);
    app.hex_view.strings_dialog.regex_input = "([一-龥]*?){4,}".to_string();
    update_strings_filter(&mut app);
    assert_eq!(app.hex_view.strings_filtered.len(), 0);

    app.hex_view.strings_dialog.regex_input = "ZZZZ".to_string();
    update_strings_filter(&mut app);
    assert_eq!(app.hex_view.strings_filtered.len(), 0);

    app.hex_view.strings_dialog.regex_input = "WORLD".to_string();
    update_strings_filter(&mut app);
    assert_eq!(app.hex_view.strings_filtered.len(), 2);
}

#[test]
fn a_scan_that_finds_nothing_because_of_an_empty_match_warns() {
    let mut app = App::with_buffer(sample());
    app.string_regex = "(x?)".to_string();
    Commands::rescan_strings(&mut app);
    assert!(app.strings.is_empty());
    assert!(app.status_error.is_some());
}

#[test]
fn a_string_past_the_old_cap_is_still_found() {
    let bytes = wide_file(4000, "한글 파일 이름");
    let mut app = App::with_buffer(bytes);
    app.hex_view.strings_dialog.encoding = StringEncoding::Utf16;

    Commands::strings(&mut app);
    let scanned = app.strings.len();

    app.hex_view.strings_dialog.regex_input = "[가-힣]{2,}".to_string();
    update_strings_filter(&mut app);
    assert!(scanned > 4000, "the scan stopped early: only {} strings", scanned);
    assert_eq!(shown(&app), vec!["한글 파일 이름".to_string()], "the late string was not reachable");
}

#[test]
fn the_selection_stays_inside_the_list() {
    let bytes = wide_file(3, "tail");
    let mut app = App::with_buffer(bytes);
    app.hex_view.strings_dialog.encoding = StringEncoding::Utf16;
    Commands::strings(&mut app);

    let len = app.hex_view.strings_filtered.len();
    assert!(len >= 2, "fixture should hold a few strings, got {}", len);

    for _ in 0..len + 10 {
        move_selection(&mut app, 1);
    }
    assert_eq!(app.list_selected, Some(len - 1), "walked past the end");

    let step = page_step(&app) * 5;
    move_selection(&mut app, step);
    assert_eq!(app.list_selected, Some(len - 1));

    for _ in 0..len + 10 {
        move_selection(&mut app, -1);
    }
    assert_eq!(app.list_selected, Some(0), "walked past the start");

    move_selection(&mut app, isize::MAX / 2);
    assert_eq!(app.list_selected, Some(len - 1), "Ctrl+End must reach the last row");
    move_selection(&mut app, isize::MIN);
    assert_eq!(app.list_selected, Some(0));
}

#[test]
fn a_plain_pattern_that_is_not_a_regex_filters_by_substring() {
    let mut app = App::with_buffer(sample());
    Commands::strings(&mut app);
    app.list_selected = Some(2);
    app.hex_view.strings_dialog.regex_input = "  world!!(  ".to_string();
    update_strings_filter(&mut app);
    assert!(shown(&app).is_empty());
    assert_eq!(app.list_selected, None);

    app.hex_view.strings_dialog.regex_input = "wor[".to_string();
    update_strings_filter(&mut app);
    assert!(shown(&app).is_empty());

    app.hex_view.strings_dialog.regex_input = "hel".to_string();
    update_strings_filter(&mut app);
    assert_eq!(shown(&app), vec!["HELLO".to_string()]);
    assert_eq!(app.list_selected, Some(0));
}

#[test]
fn page_step_follows_the_drawn_height() {
    let mut app = App::new();
    assert_eq!(page_step(&app), 29);
    app.hex_view.strings_dialog.page_rows = 12;
    assert_eq!(page_step(&app), 11);
}
