//! What the hex view holds: pending edits, annotations, the cursor, the
//! selection and the last search.
use vstd::prelude::*;

use crate::app::EditingTarget;
use crate::hex::blocks::ColoredBlock;
use crate::hex::bookmark::{Bookmark, BookmarksDialog};
use crate::hex::comment::Comment;
use crate::hex::modify_dialog::{ModifyDialog, ModifyFocus};
use crate::hex::patches_dialog::PatchesDialog;
use crate::hex::search::{Search, SearchDirection};
use crate::hex::strings::{StringEdit, StringEncoding, StringsDialog};
use crate::hex::edit_dialog::{EditDialog, EditDialogFocus};
use crate::hex::field_box::TextInput;
use crate::hex::find_dialog::FindDialog;
use crate::hex::replace_dialog::{fresh_replace_dialog, ReplaceDialog};
use crate::hex::selection::Selection;
use crate::offset_map::OffsetMap;

verus! {

/// The cursor's cell on screen.
#[derive(Debug, Clone, Copy, PartialEq, Eq)]
pub struct Point {
    pub x: usize,
    pub y: usize,
}

pub struct HexView {
    /// Coloured ranges, in order of their start.
    pub blocks: Vec<ColoredBlock>,
    pub bookmarks: Vec<Bookmark>,
    /// Pending edits: the new byte for each edited offset.
    pub changed_bytes: OffsetMap<u8>,
    /// Edits switched off in the patches list, kept so they can be switched on.
    pub disabled_bytes: OffsetMap<u8>,
    /// Edited offsets in the order they were first touched (the undo stack).
    pub changed_history: Vec<usize>,
    /// Reverted edits, most recent last (the redo stack).
    pub redo_history: Vec<(usize, u8)>,
    /// Comments as the Names list shows them.
    pub comment_name_list: Vec<Comment>,
    /// Comments by offset.
    pub comments: OffsetMap<String>,
    pub cursor: Point,
    /// The cursor's file offset.
    pub offset: usize,
    /// Where a Shift-selection started, if one is in progress.
    pub shift_anchor: Option<usize>,
    pub editing_hex: bool,
    /// Offset whose high nibble has been typed, waiting for the low one.
    pub nibble_pending: Option<usize>,
    pub editing_target: EditingTarget,
    /// The column the selection was made in.
    pub selection_target: EditingTarget,
    pub search: Search,
    pub selection: Selection,
    /// Whether addresses are shown as virtual addresses.
    pub show_va: bool,
    /// Indices of the found strings that pass the filter.
    pub strings_filtered: Vec<usize>,
    pub patches_dialog: PatchesDialog,
    pub bookmark_dialog: BookmarksDialog,
    pub modify_dialog: ModifyDialog,
    /// Label of the secondary text encoding, if one is set.
    pub enc2: Option<String>,
    /// The Strings dialog's filter box and settings.
    pub strings_dialog: StringsDialog,
    pub edit_dialog: EditDialog,
    pub find_dialog: FindDialog,
    pub replace_dialog: ReplaceDialog,
    /// Byte values drawn highlighted wherever they occur.
    pub highlights: Vec<u8>,
    /// Where the cursor was before the last jump.
    pub last_visited_offset: usize,
    /// The selected row of the Names list.
    pub names_selected: Option<usize>,
    /// The comment box's text.
    pub comment_input: TextInput,
    /// The pattern that filters the Names list.
    pub names_regex: String,
    /// The Names list's filter box, applied with Enter.
    pub names_regex_input: TextInput,
    /// The box that replaces a found string.
    pub string_edit: StringEdit,
}

/// A hex view with nothing in it: no edits, annotations, hits or selection,
/// the cursor at the top, every dialog in its initial state.
pub open spec fn fresh_hex_view(h: HexView) -> bool {
    &&& h.blocks@.len() == 0
    &&& h.bookmarks@.len() == 0
    &&& h.changed_bytes@ == Map::<usize, u8>::empty()
    &&& h.disabled_bytes@ == Map::<usize, u8>::empty()
    &&& h.changed_history@.len() == 0
    &&& h.redo_history@.len() == 0
    &&& h.comment_name_list@.len() == 0
    &&& h.comments@ == Map::<usize, String>::empty()
    &&& h.cursor == Point { x: 0, y: 0 }
    &&& h.offset == 0
    &&& h.shift_anchor is None
    &&& h.editing_hex
    &&& h.nibble_pending is None
    &&& h.editing_target == EditingTarget::Hex
    &&& h.selection_target == EditingTarget::Hex
    &&& h.search.direction == SearchDirection::Forward
    &&& h.search.matches@.len() == 0
    &&& h.search.match_index is None
    &&& h.search.match_len == 0
    &&& h.selection.start == 0 && h.selection.end == 0
    &&& h.selection.direction is None && !h.selection.is_mouse
    &&& !h.show_va
    &&& h.strings_filtered@.len() == 0
    &&& h.patches_dialog.items@.len() == 0 && h.patches_dialog.selected_index == 0
    &&& h.bookmark_dialog.selected_index == 0
    &&& h.bookmark_dialog.input.value@.len() == 0 && h.bookmark_dialog.input.cursor == 0
    &&& h.bookmark_dialog.target_offset == 0
    &&& !h.bookmark_dialog.is_new && !h.bookmark_dialog.return_to_list
    &&& h.modify_dialog.op_index == 4
    &&& h.modify_dialog.operand_input@.len() == 0
    &&& h.modify_dialog.step_input@ == "1"@
    &&& h.modify_dialog.anchor is None
    &&& h.modify_dialog.is_hex
    &&& h.modify_dialog.bit_size == 8
    &&& h.modify_dialog.focus == ModifyFocus::Operation
    &&& h.modify_dialog.cursor == 0
    &&& h.enc2 is None
    &&& h.strings_dialog.regex_input@.len() == 0
    &&& h.strings_dialog.encoding == StringEncoding::Ascii
    &&& h.strings_dialog.page_rows == 0
    &&& !h.strings_dialog.focus_filter
    &&& h.strings_dialog.filter_cursor == 0
    &&& h.edit_dialog.input_enc1.value@.len() == 0
    &&& h.edit_dialog.input_utf8.value@.len() == 0
    &&& h.edit_dialog.input_utf16le.value@.len() == 0
    &&& h.edit_dialog.input_hex.value@.len() == 0
    &&& h.edit_dialog.focus == EditDialogFocus::Enc1
    &&& h.edit_dialog.enc1_label() == "UTF-8"@
    &&& h.edit_dialog.bytes().len() == 0
    &&& h.edit_dialog.selection_anchor is None
    &&& h.edit_dialog.history.history@.len() == 0
    &&& h.find_dialog.input_enc1.value@.len() == 0 && h.find_dialog.input_enc1.cursor == 0
    &&& h.find_dialog.input_utf8.value@.len() == 0 && h.find_dialog.input_utf8.cursor == 0
    &&& h.find_dialog.input_utf16le.value@.len() == 0 && h.find_dialog.input_utf16le.cursor == 0
    &&& h.find_dialog.input_hex.value@.len() == 0 && h.find_dialog.input_hex.cursor == 0
    &&& h.find_dialog.focus == EditDialogFocus::Enc1
    &&& h.find_dialog.anchor is None
    &&& h.find_dialog.error_message is None
    &&& h.find_dialog.status_message is None
    &&& fresh_replace_dialog(h.replace_dialog)
    &&& h.highlights@.len() == 0
    &&& h.last_visited_offset == 0
    &&& h.names_selected is None
    &&& h.comment_input.value@.len() == 0 && h.comment_input.cursor == 0
    &&& h.names_regex@.len() == 0
    &&& h.names_regex_input.value@.len() == 0 && h.names_regex_input.cursor == 0
    &&& h.string_edit.offset == 0
    &&& h.string_edit.budget == 0
    &&& h.string_edit.total_capacity == 0
    &&& h.string_edit.row == 0
    &&& h.string_edit.encoding == StringEncoding::Ascii
    &&& h.string_edit.input.value@.len() == 0 && h.string_edit.input.cursor == 0
    &&& h.string_edit.anchor is None
    &&& h.string_edit.error is None
    &&& h.string_edit.return_state is None
}

impl HexView {
    /// Everything but the pending edits and the half-typed byte is the same in
    /// `self` and `other`.
    pub open spec fn same_but_edits(self, other: HexView) -> bool {
        &&& self.blocks == other.blocks
        &&& self.bookmarks == other.bookmarks
        &&& self.disabled_bytes == other.disabled_bytes
        &&& self.comment_name_list == other.comment_name_list
        &&& self.comments == other.comments
        &&& self.cursor == other.cursor
        &&& self.offset == other.offset
        &&& self.shift_anchor == other.shift_anchor
        &&& self.editing_hex == other.editing_hex
        &&& self.editing_target == other.editing_target
        &&& self.selection_target == other.selection_target
        &&& self.search == other.search
        &&& self.selection == other.selection
        &&& self.show_va == other.show_va
        &&& self.strings_filtered == other.strings_filtered
        &&& self.patches_dialog == other.patches_dialog
        &&& self.bookmark_dialog == other.bookmark_dialog
        &&& self.modify_dialog == other.modify_dialog
        &&& self.enc2 == other.enc2
        &&& self.strings_dialog == other.strings_dialog
        &&& self.edit_dialog == other.edit_dialog
        &&& self.find_dialog == other.find_dialog
        &&& self.replace_dialog == other.replace_dialog
        &&& self.highlights == other.highlights
        &&& self.last_visited_offset == other.last_visited_offset
        &&& self.names_selected == other.names_selected
        &&& self.comment_input == other.comment_input
        &&& self.names_regex == other.names_regex
        &&& self.names_regex_input == other.names_regex_input
        &&& self.string_edit == other.string_edit
    }

    /// Everything but the cursor, its offset and its cell on screen, is the
    /// same in `self` and `other`.
    pub open spec fn same_but_offset(self, other: HexView) -> bool {
        &&& self.changed_bytes == other.changed_bytes
        &&& self.changed_history == other.changed_history
        &&& self.redo_history == other.redo_history
        &&& self.nibble_pending == other.nibble_pending
        &&& self.blocks == other.blocks
        &&& self.bookmarks == other.bookmarks
        &&& self.disabled_bytes == other.disabled_bytes
        &&& self.comment_name_list == other.comment_name_list
        &&& self.comments == other.comments
        &&& self.shift_anchor == other.shift_anchor
        &&& self.editing_hex == other.editing_hex
        &&& self.editing_target == other.editing_target
        &&& self.selection_target == other.selection_target
        &&& self.search == other.search
        &&& self.selection == other.selection
        &&& self.show_va == other.show_va
        &&& self.strings_filtered == other.strings_filtered
        &&& self.patches_dialog == other.patches_dialog
        &&& self.bookmark_dialog == other.bookmark_dialog
        &&& self.modify_dialog == other.modify_dialog
        &&& self.enc2 == other.enc2
        &&& self.strings_dialog == other.strings_dialog
        &&& self.edit_dialog == other.edit_dialog
        &&& self.find_dialog == other.find_dialog
        &&& self.replace_dialog == other.replace_dialog
        &&& self.highlights == other.highlights
        &&& self.last_visited_offset == other.last_visited_offset
        &&& self.names_selected == other.names_selected
        &&& self.comment_input == other.comment_input
        &&& self.names_regex == other.names_regex
        &&& self.names_regex_input == other.names_regex_input
        &&& self.string_edit == other.string_edit
    }

    /// Everything but the last search is the same in `self` and `other`.
    pub open spec fn same_but_search(self, other: HexView) -> bool {
        &&& self.changed_bytes == other.changed_bytes
        &&& self.changed_history == other.changed_history
        &&& self.redo_history == other.redo_history
        &&& self.nibble_pending == other.nibble_pending
        &&& self.blocks == other.blocks
        &&& self.bookmarks == other.bookmarks
        &&& self.disabled_bytes == other.disabled_bytes
        &&& self.comment_name_list == other.comment_name_list
        &&& self.comments == other.comments
        &&& self.cursor == other.cursor
        &&& self.offset == other.offset
        &&& self.shift_anchor == other.shift_anchor
        &&& self.editing_hex == other.editing_hex
        &&& self.editing_target == other.editing_target
        &&& self.selection_target == other.selection_target
        &&& self.selection == other.selection
        &&& self.show_va == other.show_va
        &&& self.strings_filtered == other.strings_filtered
        &&& self.patches_dialog == other.patches_dialog
        &&& self.bookmark_dialog == other.bookmark_dialog
        &&& self.modify_dialog == other.modify_dialog
        &&& self.enc2 == other.enc2
        &&& self.strings_dialog == other.strings_dialog
        &&& self.edit_dialog == other.edit_dialog
        &&& self.find_dialog == other.find_dialog
        &&& self.replace_dialog == other.replace_dialog
        &&& self.highlights == other.highlights
        &&& self.last_visited_offset == other.last_visited_offset
        &&& self.names_selected == other.names_selected
        &&& self.comment_input == other.comment_input
        &&& self.names_regex == other.names_regex
        &&& self.names_regex_input == other.names_regex_input
        &&& self.string_edit == other.string_edit
    }

    /// Forgets what belonged to the previous file: pending edits and the undo
    /// and redo stacks, blocks, bookmarks and comments, the selection, the
    /// last search and the strings list, and the offsets into the old file.
    pub fn reset_for_new_file(&mut self)
        ensures
            final(self).changed_bytes@ == Map::<usize, u8>::empty(),
            final(self).changed_history@.len() == 0,
            final(self).redo_history@.len() == 0,
            final(self).blocks@.len() == 0,
            final(self).bookmarks@.len() == 0,
            final(self).comments@ == Map::<usize, String>::empty(),
            final(self).comment_name_list@.len() == 0,
            final(self).selection.start == 0 && final(self).selection.end == 0,
            final(self).selection.direction is None && !final(self).selection.is_mouse,
            final(self).shift_anchor is None,
            final(self).nibble_pending is None,
            final(self).search.direction == SearchDirection::Forward,
            final(self).search.matches@.len() == 0,
            final(self).search.match_index is None,
            final(self).search.match_len == 0,
            final(self).last_visited_offset == 0,
            final(self).cursor == (Point { x: 0, y: 0 }),
            final(self).strings_filtered@.len() == 0,
            *final(self) == (HexView {
                changed_bytes: final(self).changed_bytes,
                changed_history: final(self).changed_history,
                redo_history: final(self).redo_history,
                blocks: final(self).blocks,
                bookmarks: final(self).bookmarks,
                comments: final(self).comments,
                comment_name_list: final(self).comment_name_list,
                selection: final(self).selection,
                shift_anchor: None,
                nibble_pending: None,
                search: final(self).search,
                last_visited_offset: 0,
                cursor: Point { x: 0, y: 0 },
                strings_filtered: final(self).strings_filtered,
                ..*old(self)
            }),
    {
        self.changed_bytes.clear();
        self.changed_history.clear();
        self.redo_history.clear();
        self.blocks.clear();
        self.bookmarks.clear();
        self.comments.clear();
        self.comment_name_list.clear();
        self.selection = Selection::new();
        self.shift_anchor = None;
        self.nibble_pending = None;
        self.search = Search::new();
        self.last_visited_offset = 0;
        self.cursor = Point { x: 0, y: 0 };
        self.strings_filtered.clear();
    }

    pub fn new() -> (h: Self)
        ensures
            fresh_hex_view(h),
    {
        HexView {
            blocks: Vec::new(),
            bookmarks: Vec::new(),
            changed_bytes: OffsetMap::new(),
            disabled_bytes: OffsetMap::new(),
            changed_history: Vec::new(),
            redo_history: Vec::new(),
            comment_name_list: Vec::new(),
            comments: OffsetMap::new(),
            cursor: Point { x: 0, y: 0 },
            offset: 0,
            shift_anchor: None,
            editing_hex: true,
            nibble_pending: None,
            editing_target: EditingTarget::Hex,
            selection_target: EditingTarget::Hex,
            search: Search::new(),
            selection: Selection::new(),
            show_va: false,
            strings_filtered: Vec::new(),
            patches_dialog: PatchesDialog::new(),
            bookmark_dialog: BookmarksDialog::new(),
            modify_dialog: ModifyDialog::new(),
            enc2: None,
            strings_dialog: StringsDialog::new(),
            edit_dialog: EditDialog::default(),
            find_dialog: FindDialog::new(),
            replace_dialog: ReplaceDialog::new(),
            highlights: Vec::new(),
            last_visited_offset: 0,
            names_selected: None,
            comment_input: TextInput::empty(),
            names_regex: String::new(),
            names_regex_input: TextInput::empty(),
            string_edit: StringEdit::default(),
        }
    }
}

} // verus!
