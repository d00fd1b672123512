use dezes::app::App;
use dezes::hex::events::{hex_mode_events, Key, KeyPress};
use dezes::hex::field_box::reveal_behind_dialog;

/// A 64 KiB file, 16 bytes per line, a page of 27 lines.
fn app_with_file() -> App {
    let mut app = App::with_buffer(vec![0u8; 0x10000]);
    app.config.database = false;
    app.file_info.is_read_only = true;
    app.config.hex_mode_bytes_per_line = 16;
    app.screen_width = 100;
    app.screen_height = 30;
    app.reader.page_current_size = 16 * 27;
    app
}

fn show_page(app: &mut App, start: usize) {
    app.reader.page_start = start;
    app.reader.page_end = start + app.reader.page_current_size - 1;
}

#[test]
fn the_page_follows_the_match() {
    let mut app = app_with_file();
    show_page(&mut app, 0);
    reveal_behind_dialog(&mut app, 0x2289, 7, 8);

    assert_eq!(app.hex_view.offset, 0x2289);
    let page_start = app.reader.page_start;
    assert!(
        page_start <= 0x2289 && 0x2289 < page_start + app.reader.page_current_size,
        "0x2289 is not on the page starting at 0x{:X}",
        page_start
    );
}

#[test]
fn a_hidden_row_is_scrolled_clear_of_the_dialog() {
    let mut app = app_with_file();
    let (top, height) = (7u16, 8u16);

    show_page(&mut app, 0x1000);
    let target = 0x1000 + 8 * 16;
    reveal_behind_dialog(&mut app, target, top, height);

    let row = 1 + app.hex_view.cursor.y as u16;
    assert!(
        row >= top + height,
        "the match is still under the dialog: row {} vs dialog {}..{}",
        row,
        top,
        top + height
    );
    assert_eq!(app.hex_view.offset, target, "the cursor itself must not move");
}

#[test]
fn a_visible_row_is_left_alone() {
    let mut app = app_with_file();

    show_page(&mut app, 0x1000);
    let target = 0x1000 + 20 * 16;
    let before = app.reader.page_start;
    reveal_behind_dialog(&mut app, target, 7, 8);

    assert_eq!(app.reader.page_start, before, "the page must not move");
}

#[test]
fn the_top_of_the_file_is_handled() {
    let mut app = app_with_file();

    show_page(&mut app, 0);
    reveal_behind_dialog(&mut app, 0x20, 0, 8);

    assert_eq!(app.reader.page_start, 0);
    assert_eq!(app.hex_view.offset, 0x20);
}

fn key(code: Key) -> KeyPress {
    KeyPress { code, ctrl: false, alt: false, shift: false }
}

#[test]
fn goto_sets_the_cursor_cell_and_scrolls() {
    let mut app = app_with_file();
    show_page(&mut app, 0x100);
    app.goto(0x125);
    assert_eq!((app.hex_view.cursor.x, app.hex_view.cursor.y), (5, 2));
    assert_eq!(app.reader.page_start, 0x100, "on the page: no scroll");
    app.goto(0x4007);
    assert_eq!(app.reader.page_start, 0x4000, "off the page: the page starts at the target's line");
    assert_eq!(app.reader.page_end, 0x4000 + 16 * 27 - 1);
    assert_eq!((app.hex_view.cursor.x, app.hex_view.cursor.y), (7, 0));
    app.goto(0x10000);
    assert_eq!(app.hex_view.offset, 0x4007, "a target past the end is ignored");
}

#[test]
fn home_and_end_move_within_the_line() {
    let mut app = app_with_file();
    show_page(&mut app, 0);
    app.goto(0x35);
    hex_mode_events(&mut app, key(Key::Home));
    assert_eq!(app.hex_view.offset, 0x30);
    assert_eq!(app.hex_view.cursor.x, 0);
    hex_mode_events(&mut app, key(Key::End));
    assert_eq!(app.hex_view.offset, 0x3F);
    assert_eq!(app.hex_view.cursor.x, 15);
}

#[test]
fn moving_down_off_the_page_scrolls() {
    let mut app = app_with_file();
    show_page(&mut app, 0);
    app.goto(16 * 26 + 3);
    hex_mode_events(&mut app, key(Key::Down));
    assert_eq!(app.hex_view.offset, 16 * 27 + 3);
    assert!(app.reader.page_start <= app.hex_view.offset && app.hex_view.offset <= app.reader.page_end);
}

#[test]
fn goto_with_history_records_the_offset_left() {
    let mut app = app_with_file();
    show_page(&mut app, 0);
    app.goto(0x40);
    app.goto_with_history(0x2000, true);
    assert_eq!(app.hex_view.offset, 0x2000);
    assert_eq!(app.hex_view.last_visited_offset, 0x40);
    app.goto_with_history(0x10, false);
    assert_eq!(app.hex_view.last_visited_offset, 0x40);
    assert_eq!(app.hex_view.offset, 0x10);
}
