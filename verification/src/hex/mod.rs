pub mod blocks;
pub mod bookmark;
pub mod comment;
pub mod hex_view;
pub mod patches_dialog;
pub mod pattern_engine;
pub mod search;
pub mod selection;
pub mod edit;
pub mod edit_dialog;
pub mod field_box;
pub mod help;
pub mod strings;
pub mod modify_dialog;
pub mod string_scan;
pub mod strings_list;
pub mod find_dialog;
pub mod events;
pub mod names;
pub mod string_edit;
pub mod text_column;
pub mod replace_dialog;
pub mod escape_law;
