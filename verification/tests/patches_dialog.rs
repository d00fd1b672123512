use dezes::app::{App, UIState};
use dezes::hex::patches_dialog::{
    collect_patches, format_hex_bytes, open_patches_dialog, patch_row_as_text, PatchesDialog,
};

fn app_with(bytes: Vec<u8>) -> App {
    let mut app = App::with_buffer(bytes);
    app.config.database = false;
    app
}

#[test]
fn collect_patches_groups_contiguous_modifications() {
    let mut bytes = vec![0x90u8; 0x100];
    bytes[0x10] = 0x74;
    bytes[0x11] = 0x05;
    let mut app = app_with(bytes);

    app.hex_view.changed_bytes.insert(0x10, 0x90);
    app.hex_view.changed_bytes.insert(0x11, 0x90);
    app.hex_view.changed_bytes.insert(0x50, 0xCC);

    let items = collect_patches(&app);
    assert_eq!(items.len(), 2);

    assert_eq!(items[0].offset, 0x10);
    assert_eq!(items[0].size, 2);
    assert_eq!(items[0].orig_bytes, vec![0x74, 0x05]);
    assert_eq!(items[0].patched_bytes, vec![0x90, 0x90]);

    assert_eq!(items[1].offset, 0x50);
    assert_eq!(items[1].size, 1);
    assert_eq!(items[1].orig_bytes, vec![0x90]);
    assert_eq!(items[1].patched_bytes, vec![0xCC]);
}

#[test]
fn disabled_edits_form_their_own_runs() {
    let mut app = app_with(vec![0u8; 0x20]);
    app.hex_view.changed_bytes.insert(4, 1);
    app.hex_view.disabled_bytes.insert(5, 2);
    app.hex_view.disabled_bytes.insert(6, 3);
    app.hex_view.changed_bytes.insert(7, 4);
    let items = collect_patches(&app);
    let shape: Vec<(usize, usize, bool)> = items.iter().map(|p| (p.offset, p.size, p.enabled)).collect();
    assert_eq!(shape, vec![(4, 1, true), (5, 2, false), (7, 1, true)]);
    assert_eq!(items[1].patched_bytes, vec![2, 3]);
}

#[test]
fn opening_the_dialog_lists_and_logs() {
    let mut app = app_with(vec![0u8; 0x100]);
    app.hex_view.changed_bytes.insert(0x20, 0xAA);
    app.hex_view.changed_bytes.insert(0x40, 0xBB);
    open_patches_dialog(&mut app);
    assert_eq!(app.state, UIState::DialogPatches);
    assert_eq!(app.hex_view.patches_dialog.items.len(), 2);
    assert_eq!(app.hex_view.patches_dialog.selected_index, 0);
    assert_eq!(app.logs.last().map(String::as_str), Some("Patches: 2 chunk(s), 2 byte(s)"));
}

#[test]
fn rows_read_as_text() {
    let mut app = app_with(vec![0x11u8, 0x22, 0x33]);
    app.hex_view.changed_bytes.insert(1, 0xAB);
    app.hex_view.changed_bytes.insert(2, 0xCD);
    let items = collect_patches(&app);
    assert_eq!(patch_row_as_text(&app, &items[0]), "[\u{25CF}] 0x1: 22 33 -> AB CD (2 bytes)");
    assert_eq!(format_hex_bytes(&[1, 2, 3], 2), "01 02..");
    assert_eq!(format_hex_bytes(&[1, 2], 2), "01 02");
    let mut d = PatchesDialog::new();
    d.selected_index = 3;
    d.reset();
    assert_eq!(d.selected_index, 0);
}
