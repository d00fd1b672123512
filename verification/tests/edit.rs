use dezes::app::App;
use dezes::hex::edit::{displayed_byte, fill_with, record_edit, revert_range, type_hex_nibble};

fn app_with_edits() -> App {
    let mut app = App::new();
    app.config.database = false;
    for ofs in 0x10..0x18usize {
        app.hex_view.changed_bytes.insert(ofs, ofs as u8);
        app.hex_view.changed_history.push(ofs);
    }
    app
}

#[test]
fn reverting_a_range_fills_the_redo_stack() {
    let mut app = app_with_edits();

    let count = revert_range(&mut app, 0x12, 0x14);

    assert_eq!(count, 3);
    assert_eq!(app.hex_view.redo_history.len(), 3, "Ctrl+Y needs these");
    let mut redone: Vec<usize> = app.hex_view.redo_history.iter().map(|(o, _)| *o).collect();
    redone.sort();
    assert_eq!(redone, vec![0x12, 0x13, 0x14]);
    for (ofs, val) in &app.hex_view.redo_history {
        assert_eq!(*val, *ofs as u8);
    }
}

#[test]
fn only_the_range_is_reverted() {
    let mut app = app_with_edits();

    revert_range(&mut app, 0x12, 0x14);

    for ofs in 0x12..=0x14usize {
        assert!(!app.hex_view.changed_bytes.contains_key(&ofs));
        assert!(!app.hex_view.changed_history.contains(&ofs));
    }
    for ofs in [0x10usize, 0x11, 0x15, 0x16, 0x17] {
        assert!(app.hex_view.changed_bytes.contains_key(&ofs), "0x{:X}", ofs);
        assert!(app.hex_view.changed_history.contains(&ofs));
    }
}

#[test]
fn reversed_bounds_work() {
    let mut app = app_with_edits();
    assert_eq!(revert_range(&mut app, 0x14, 0x12), 3);
}

#[test]
fn empty_range_reports_zero() {
    let mut app = app_with_edits();
    assert_eq!(revert_range(&mut app, 0x100, 0x200), 0);
    assert!(app.hex_view.redo_history.is_empty());
}

#[test]
fn pending_nibble_inside_the_range_is_dropped() {
    let mut app = app_with_edits();
    app.hex_view.nibble_pending = Some(0x13);

    revert_range(&mut app, 0x12, 0x14);

    assert!(
        app.hex_view.nibble_pending.is_none(),
        "the byte being typed no longer exists"
    );
}

#[test]
fn pending_nibble_outside_the_range_survives() {
    let mut app = app_with_edits();
    app.hex_view.nibble_pending = Some(0x20);

    revert_range(&mut app, 0x12, 0x14);

    assert_eq!(app.hex_view.nibble_pending, Some(0x20));
}

#[test]
fn a_single_digit_never_commits_a_half_byte() {
    let mut app = App::with_buffer(vec![0xAB; 0x40]);
    app.hex_view.offset = 0x10;

    type_hex_nibble(&mut app, '7');

    assert_eq!(app.hex_view.changed_bytes.get(&0x10).copied(), Some(0x7B));
    assert_ne!(app.hex_view.changed_bytes.get(&0x10).copied(), Some(0x07));
}

#[test]
fn two_digits_make_the_byte_and_advance() {
    let mut app = App::with_buffer(vec![0xAB; 0x40]);
    app.hex_view.offset = 0x10;

    type_hex_nibble(&mut app, '7');
    type_hex_nibble(&mut app, 'f');

    assert_eq!(app.hex_view.changed_bytes.get(&0x10).copied(), Some(0x7F));
    assert_eq!(app.hex_view.offset, 0x11, "cursor advances after a full byte");
    assert!(app.hex_view.nibble_pending.is_none());
    assert_eq!(app.hex_view.changed_history, vec![0x10]);
}

#[test]
fn retyping_the_same_byte_adds_no_extra_history() {
    let mut app = App::with_buffer(vec![0xAB; 0x40]);
    app.hex_view.offset = 0x10;

    type_hex_nibble(&mut app, '1');
    type_hex_nibble(&mut app, '2');
    app.hex_view.offset = 0x10;
    type_hex_nibble(&mut app, '3');
    type_hex_nibble(&mut app, '4');

    assert_eq!(app.hex_view.changed_bytes.get(&0x10).copied(), Some(0x34));
    assert_eq!(app.hex_view.changed_history, vec![0x10]);
}

#[test]
fn a_non_hex_character_types_nothing() {
    let mut app = App::with_buffer(vec![0xAB; 0x40]);
    type_hex_nibble(&mut app, 'g');
    assert!(app.hex_view.changed_bytes.is_empty());
    assert!(app.hex_view.nibble_pending.is_none());
}

#[test]
fn edits_past_the_end_are_ignored() {
    let mut app = App::with_buffer(vec![0u8; 4]);
    record_edit(&mut app, 4, 0x41);
    assert!(app.hex_view.changed_bytes.is_empty());
    assert!(app.hex_view.changed_history.is_empty());
    record_edit(&mut app, 3, 0x41);
    assert_eq!(displayed_byte(&app, 3), 0x41);
    assert_eq!(displayed_byte(&app, 2), 0);
    assert_eq!(displayed_byte(&app, 100), 0);
}

#[test]
fn revert_then_shows_the_disk_byte_again() {
    let mut app = App::with_buffer(vec![0x11, 0x22, 0x33]);
    record_edit(&mut app, 1, 0x99);
    assert_eq!(displayed_byte(&app, 1), 0x99);
    assert_eq!(revert_range(&mut app, 1, 1), 1);
    assert_eq!(displayed_byte(&app, 1), 0x22);
    assert_eq!(app.hex_view.redo_history, vec![(1, 0x99)]);
}

#[test]
fn fill_with_advances_the_cursor() {
    let mut app = App::with_buffer(vec![0u8; 8]);
    app.hex_view.offset = 2;
    fill_with(&mut app, 0x90, true);
    assert_eq!(app.hex_view.changed_bytes.get(&2).copied(), Some(0x90));
    assert_eq!(app.hex_view.offset, 3);
    fill_with(&mut app, 0x00, false);
    assert_eq!(app.hex_view.changed_bytes.get(&3).copied(), Some(0x00));
    assert_eq!(app.hex_view.offset, 3);
}
