use dezes::app::{App, UIState};
use dezes::hex::modify_dialog::{apply_block_modification, modify_values, ModifyDialog, ModifyOp};
use dezes::i18n::Lang;

fn app_with(bytes: &[u8], op_index: usize, operand: &str, bit_size: usize) -> App {
    let mut app = App::with_buffer(bytes.to_vec());
    app.hex_view.selection.start = 0;
    app.hex_view.selection.end = bytes.len() - 1;
    app.hex_view.modify_dialog.op_index = op_index;
    app.hex_view.modify_dialog.operand_input = operand.to_string();
    app.hex_view.modify_dialog.bit_size = bit_size;
    app
}

fn staged(app: &App, n: usize) -> Vec<u8> {
    (0..n).map(|i| *app.hex_view.changed_bytes.get(&i).unwrap()).collect()
}

#[test]
fn bytes_wrap_around() {
    let mut app = app_with(&[0xFF, 0x01], 0, "2", 8);
    apply_block_modification(&mut app);
    assert_eq!(staged(&app, 2), vec![0x01, 0x03]);
    assert!(app.state == UIState::HexEditing);
    assert_eq!((app.hex_view.selection.start, app.hex_view.selection.end), (0, 0));
    assert_eq!(app.hex_view.changed_history, vec![0, 1]);
}

#[test]
fn words_are_little_endian_and_the_tail_is_kept() {
    let mut app = app_with(&[0xFF, 0x00, 0x05], 0, "1", 16);
    apply_block_modification(&mut app);
    assert_eq!(staged(&app, 3), vec![0x00, 0x01, 0x05]);
}

#[test]
fn endian_swap_reverses_each_group() {
    let mut app = app_with(&[1, 2, 3, 4, 5], 8, "", 32);
    apply_block_modification(&mut app);
    assert_eq!(staged(&app, 5), vec![4, 3, 2, 1, 5]);
}

#[test]
fn rolling_xor_steps_the_key() {
    let mut app = app_with(&[0, 0, 0], 12, "1", 8);
    apply_block_modification(&mut app);
    assert_eq!(staged(&app, 3), vec![1, 2, 3]);
}

#[test]
fn decimal_operands_and_other_operations() {
    assert_eq!(modify_values(ModifyOp::Not, &[0x0F, 0xF0], 8, 0, 1, 1), vec![0xF0, 0x0F]);
    assert_eq!(modify_values(ModifyOp::Mul, &[0x10, 0x00], 16, 0x10, 1, 1), vec![0x00, 0x01]);
    assert_eq!(modify_values(ModifyOp::Div, &[100], 8, 0, 1, 1), vec![100], "division by zero is skipped");
    assert_eq!(modify_values(ModifyOp::ShiftLeft, &[0x81], 8, 9, 1, 1), vec![0x02]);
    assert_eq!(modify_values(ModifyOp::Sub, &[0, 0, 0, 0], 32, 1, 1, 1), vec![0xFF; 4]);
    assert_eq!(modify_values(ModifyOp::Xor, &[1, 2, 3], 24, 0xFF, 1, 1), vec![1, 2, 3], "24-bit units are not supported");
    assert_eq!(modify_values(ModifyOp::Random, &[0; 5], 8, 0, 1, 7).len(), 5);

    let mut app = app_with(&[10], 0, "10", 8);
    app.hex_view.modify_dialog.is_hex = false;
    apply_block_modification(&mut app);
    assert_eq!(staged(&app, 1), vec![20]);
}

#[test]
fn a_read_only_file_is_refused() {
    let mut app = app_with(&[1, 2], 0, "1", 8);
    app.file_info.is_read_only = true;
    apply_block_modification(&mut app);
    assert!(app.hex_view.changed_bytes.is_empty());
    assert!(app.status_error.is_some());
    assert!(!app.logs.is_empty());
}

#[test]
fn the_grid_wraps_and_clamps() {
    let mut d = ModifyDialog::new();
    assert_eq!(d.current_op(), ModifyOp::Xor);
    d.move_op_grid(-1, 0);
    assert_eq!(d.op_index, 3);
    d.move_op_grid(0, -1);
    assert_eq!(d.op_index, 0);
    d.move_op_grid(0, -1);
    assert_eq!(d.op_index, 12);
    d.move_op_grid(1, 0);
    assert_eq!(d.op_index, 12, "a cell past the last operation lands on it");
    d.next_bit_size();
    assert_eq!(d.bit_size, 16);
    d.reset();
    assert_eq!(d.op_index, 4);
    assert_eq!(ModifyOp::all().len(), 13);
    assert_eq!(ModifyOp::Add.label(), "Add (+)");
    assert!(!ModifyOp::Add.label_for(Lang::Ko).is_empty());
}
