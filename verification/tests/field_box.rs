use dezes::hex::field_box::{char_index_at_column, field_prefix, label_width};

#[test]
fn ascii_columns_equal_char_indices() {
    let chars: Vec<char> = "abcdef".chars().collect();
    for col in 0..=6 {
        assert_eq!(char_index_at_column(&chars, col), col);
    }
}

#[test]
fn wide_characters_shift_the_mapping() {
    let chars: Vec<char> = "가나다라".chars().collect();
    assert_eq!(char_index_at_column(&chars, 0), 0);
    assert_eq!(char_index_at_column(&chars, 2), 1);
    assert_eq!(char_index_at_column(&chars, 4), 2);
    assert_eq!(char_index_at_column(&chars, 6), 3);
}

#[test]
fn a_column_inside_a_wide_char_resolves_to_it() {
    let chars: Vec<char> = "가나".chars().collect();
    assert_eq!(char_index_at_column(&chars, 1), 1);
    assert_eq!(char_index_at_column(&chars, 3), 2);
}

#[test]
fn mixed_width_text() {
    let chars: Vec<char> = "ab가cd".chars().collect();
    assert_eq!(char_index_at_column(&chars, 0), 0);
    assert_eq!(char_index_at_column(&chars, 1), 1);
    assert_eq!(char_index_at_column(&chars, 2), 2);
    assert_eq!(char_index_at_column(&chars, 4), 3);
    assert_eq!(char_index_at_column(&chars, 5), 4);
}

#[test]
fn out_of_range_columns_clamp() {
    let chars: Vec<char> = "abc".chars().collect();
    assert_eq!(char_index_at_column(&chars, 99), 3);
    assert_eq!(char_index_at_column(&[], 0), 0);
    assert_eq!(char_index_at_column(&[], 5), 0);
}

#[test]
fn labels_line_up() {
    assert_eq!(label_width(&["UTF-8", "Hex", "가나다"]), 5);
    assert_eq!(label_width(&[]), 0);
    assert_eq!(field_prefix("Hex", 5), "  Hex   : [");
    assert_eq!(field_prefix("Longer", 3), "  Longer : [");
}
