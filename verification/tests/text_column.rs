use dezes::app::App;
use dezes::hex::text_column::{page_bytes, text_column_cells};

#[test]
fn utf8_cells_cover_multibyte_characters() {
    let page = [0x41, 0x0A, 0xEA, 0xB0, 0x80, 0x01, 0x20];
    let cells = text_column_cells(&page, "UTF-8", '.');
    assert_eq!(
        cells,
        vec![('A', 1), ('\u{25D9}', 1), ('\u{AC00}', 2), ('\0', 0), ('.', 1), ('.', 1), ('.', 1)],
        "the byte after a wide character's columns is read afresh"
    );
}

#[test]
fn a_truncated_sequence_shows_the_placeholder() {
    let cells = text_column_cells(&[0xEA, 0xB0], "UTF-8", '?');
    assert_eq!(cells, vec![('?', 1), ('?', 1)]);
}

#[test]
fn cp949_pairs_take_two_columns() {
    let cells = text_column_cells(&[0xB0, 0xA1, 0x41], "EUC-KR", '.');
    assert_eq!(cells, vec![('\u{AC00}', 2), ('\0', 0), ('A', 1)]);
}

#[test]
fn utf16_reads_code_units_and_pairs() {
    let cells = text_column_cells(&[0x48, 0x00, 0x69, 0x00], "UTF-16LE", '.');
    assert_eq!(cells, vec![('H', 1), (' ', 1), ('i', 1), (' ', 1)]);

    let cells = text_column_cells(&[0x3D, 0xD8, 0x00, 0xDE], "UTF-16LE", '.');
    assert_eq!(cells, vec![('\u{1F600}', 2), ('\0', 0), (' ', 1), (' ', 1)]);

    let cells = text_column_cells(&[0x00, 0x48, 0xDC], "UTF-16BE", '.');
    assert_eq!(cells, vec![('H', 1), (' ', 1), ('.', 1)], "a lone trailing byte");

    let cells = text_column_cells(&[0x00, 0xDC, 0x0A, 0x00], "UTF-16LE", '.');
    assert_eq!(cells, vec![('.', 1), ('.', 1), ('.', 1), ('.', 1)], "a lone low surrogate and a control");
}

#[test]
fn the_page_shows_pending_edits() {
    let mut app = App::with_buffer(vec![1, 2, 3, 4, 5, 6]);
    app.reader.page_start = 2;
    app.reader.page_current_size = 10;
    app.hex_view.changed_bytes.insert(3, 0xAA);
    assert_eq!(page_bytes(&app), vec![3, 0xAA, 5, 6]);
    app.reader.page_current_size = 2;
    assert_eq!(page_bytes(&app), vec![3, 0xAA]);
}
