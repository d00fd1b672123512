//! The Find Pattern dialog: the same bytes spelled four ways (the primary
//! encoding, UTF-8, UTF-16LE and hex), and a search for whichever field has
//! the keyboard.
use vstd::prelude::*;

use crate::app::{App, EditingTarget, UIState};
use crate::codec::{decode_no_bom, decoded_without_bom, encode_text, is_encoding_label, text_bytes};
use crate::hex::edit_dialog::{
    decode_pairs, encode_upper, from_utf8_lossy, hex_digits_of, hex_pairs, hex_upper,
    keep_hex_digits, lossy_utf8, next_focus, prev_focus, EditDialogFocus,
};
use crate::hex::events::{Key, KeyPress};
use crate::hex::field_box::{input_edit, input_edit_for, input_edited, TextInput};
use crate::hex::hex_view::HexView;
use crate::hex::search::{
    effective, found_at_message, lemma_pattern_hits_increasing, hex_pattern_spec, hex_string_to_pattern, next_target,
    pattern_hits, position_message, search_pattern, HexPatternByte, SearchDirection,
};
use crate::i18n::M;
use crate::text::{chars_of, is_hex_digit, string_from, to_digit, trim};

verus! {

/// The Find dialog's state.
pub struct FindDialog {
    /// Where a Shift-selection in the focused field started.
    pub anchor: Option<usize>,
    pub input_enc1: TextInput,
    pub input_utf8: TextInput,
    pub input_utf16le: TextInput,
    pub input_hex: TextInput,
    pub focus: EditDialogFocus,
    pub error_message: Option<String>,
    pub status_message: Option<String>,
}

impl FindDialog {
    pub fn new() -> (d: Self)
        ensures
            d.input_enc1.value@.len() == 0 && d.input_enc1.cursor == 0,
            d.input_utf8.value@.len() == 0 && d.input_utf8.cursor == 0,
            d.input_utf16le.value@.len() == 0 && d.input_utf16le.cursor == 0,
            d.input_hex.value@.len() == 0 && d.input_hex.cursor == 0,
            d.focus == EditDialogFocus::Enc1,
            d.anchor is None,
            d.error_message is None,
            d.status_message is None,
    {
        FindDialog {
            anchor: None,
            input_enc1: TextInput::empty(),
            input_utf8: TextInput::empty(),
            input_utf16le: TextInput::empty(),
            input_hex: TextInput::empty(),
            focus: EditDialogFocus::Enc1,
            error_message: None,
            status_message: None,
        }
    }

    /// Empties every field and message, gives the first field the keyboard
    /// and drops the anchor.
    pub fn reset(&mut self)
        ensures
            final(self).input_enc1.value@.len() == 0 && final(self).input_enc1.cursor == 0,
            final(self).input_utf8.value@.len() == 0 && final(self).input_utf8.cursor == 0,
            final(self).input_utf16le.value@.len() == 0 && final(self).input_utf16le.cursor == 0,
            final(self).input_hex.value@.len() == 0 && final(self).input_hex.cursor == 0,
            final(self).focus == EditDialogFocus::Enc1,
            final(self).anchor is None,
            final(self).error_message is None,
            final(self).status_message is None,
    {
        *self = FindDialog::new();
    }

    /// The field `f`.
    pub open spec fn field(&self, f: EditDialogFocus) -> TextInput {
        match f {
            EditDialogFocus::Enc1 => self.input_enc1,
            EditDialogFocus::Utf8 => self.input_utf8,
            EditDialogFocus::Utf16Le => self.input_utf16le,
            EditDialogFocus::Hex => self.input_hex,
        }
    }
}

/// The label of the encoding a text field is read in.
pub open spec fn field_label(f: EditDialogFocus, enc1: Seq<char>) -> Seq<char> {
    match f {
        EditDialogFocus::Enc1 => enc1,
        EditDialogFocus::Utf8 => "UTF-8"@,
        _ => "UTF-16LE"@,
    }
}

/// The bytes the focused field spells: a text field's text encoded (nothing
/// for an unknown encoding), or the hex field's whole pairs of digits; `None`
/// when the hex field holds a wildcard `?`.
pub open spec fn spelled_bytes(d: FindDialog, enc1: Seq<char>) -> Option<Seq<u8>> {
    match d.focus {
        EditDialogFocus::Hex => {
            let v = d.input_hex.value@;
            if v.contains('?') {
                None
            } else {
                let raw = hex_digits_of(v);
                Some(hex_pairs(raw.take(raw.len() - raw.len() % 2)))
            }
        },
        f => {
            let label = field_label(f, enc1);
            if is_encoding_label(label) {
                Some(text_bytes(label, d.field(f).value@))
            } else {
                Some(seq![])
            }
        },
    }
}

/// A text without its leading byte-order mark, if it has one.
pub open spec fn without_bom(t: Seq<char>) -> Seq<char> {
    if t.len() > 0 && t[0] == '\u{FEFF}' {
        t.skip(1)
    } else {
        t
    }
}

/// What field `f` shows for `bytes`.
pub open spec fn find_field_text(f: EditDialogFocus, enc1: Seq<char>, bytes: Seq<u8>) -> Seq<char> {
    match f {
        EditDialogFocus::Enc1 => if is_encoding_label(enc1) {
            decoded_without_bom(enc1, bytes).0
        } else {
            seq![]
        },
        EditDialogFocus::Utf8 => without_bom(lossy_utf8(bytes, 0)),
        EditDialogFocus::Utf16Le => decoded_without_bom("UTF-16LE"@, bytes).0,
        EditDialogFocus::Hex => hex_upper(bytes),
    }
}

/// Field `f` of `new` after a sync from the focused field of `old`.
pub open spec fn find_field_synced(old: FindDialog, new: FindDialog, f: EditDialogFocus, enc1: Seq<char>) -> bool {
    match spelled_bytes(old, enc1) {
        None => if f == EditDialogFocus::Hex {
            new.field(f) == old.field(f)
        } else {
            new.field(f).value@.len() == 0 && new.field(f).cursor == 0
        },
        Some(b) => if f == old.focus {
            new.field(f) == old.field(f)
        } else {
            &&& new.field(f).value@ == find_field_text(f, enc1, b)
            &&& new.field(f).cursor == find_field_text(f, enc1, b).len()
        },
    }
}

fn decoded_or_empty(bytes: &[u8], label: &str) -> (s: String)
    ensures
        label@ == "UTF-16LE"@ ==> is_encoding_label(label@),
        s@ == if is_encoding_label(label@) {
            decoded_without_bom(label@, bytes@).0
        } else {
            Seq::<char>::empty()
        },
{
    match decode_no_bom(label, bytes) {
        Some((t, _)) => t,
        None => String::new(),
    }
}

fn strip_bom(s: String) -> (r: String)
    ensures
        r@ == without_bom(s@),
{
    let cs = chars_of(s.as_str());
    if cs.len() > 0 && cs[0] == '\u{FEFF}' {
        let rest = crate::text::copy_range(cs.as_slice(), 1, cs.len());
        assert(rest@ =~= s@.skip(1));
        crate::text::string_of(rest.as_slice())
    } else {
        s
    }
}

/// Whether `c` occurs in `cs`.
fn has_char(cs: &[char], c: char) -> (b: bool)
    ensures
        b == cs@.contains(c),
{
    let mut i: usize = 0;
    while i < cs.len()
        invariant
            i <= cs@.len(),
            forall|j: int| 0 <= j < i ==> cs@[j] != c,
        decreases cs.len() - i,
    {
        if cs[i] == c {
            assert(cs@[i as int] == c);
            return true;
        }
        i = i + 1;
    }
    false
}

impl FindDialog {
    /// Rewrites the other fields from what the focused one spells, the first
    /// field's encoding being labelled `enc1`; a wildcard in the hex field
    /// empties the text fields instead.
    pub fn sync_from_focus(&mut self, enc1: &str)
        ensures
            find_field_synced(*old(self), *final(self), EditDialogFocus::Enc1, enc1@),
            find_field_synced(*old(self), *final(self), EditDialogFocus::Utf8, enc1@),
            find_field_synced(*old(self), *final(self), EditDialogFocus::Utf16Le, enc1@),
            find_field_synced(*old(self), *final(self), EditDialogFocus::Hex, enc1@),
            final(self).focus == old(self).focus,
            final(self).anchor == old(self).anchor,
            final(self).error_message == old(self).error_message,
            final(self).status_message == old(self).status_message,
    {
        let focus = self.focus;
        let bytes: Vec<u8> = match focus {
            EditDialogFocus::Hex => {
                let cs = chars_of(self.input_hex.value.as_str());
                if has_char(cs.as_slice(), '?') {
                    self.input_enc1 = TextInput::empty();
                    self.input_utf8 = TextInput::empty();
                    self.input_utf16le = TextInput::empty();
                    return;
                }
                let raw = keep_hex_digits(cs.as_slice());
                let even = raw.len() - raw.len() % 2;
                decode_pairs(raw.as_slice(), even)
            },
            EditDialogFocus::Enc1 => match encode_text(self.input_enc1.value.as_str(), enc1) {
                Some(b) => b,
                None => Vec::new(),
            },
            EditDialogFocus::Utf8 => match encode_text(self.input_utf8.value.as_str(), "UTF-8") {
                Some(b) => b,
                None => Vec::new(),
            },
            EditDialogFocus::Utf16Le => match encode_text(self.input_utf16le.value.as_str(), "UTF-16LE") {
                Some(b) => b,
                None => Vec::new(),
            },
        };
        if focus != EditDialogFocus::Enc1 {
            self.input_enc1 = TextInput::new(decoded_or_empty(bytes.as_slice(), enc1));
        }
        if focus != EditDialogFocus::Utf8 {
            self.input_utf8 = TextInput::new(strip_bom(from_utf8_lossy(bytes.as_slice())));
        }
        if focus != EditDialogFocus::Utf16Le {
            self.input_utf16le = TextInput::new(decoded_or_empty(bytes.as_slice(), "UTF-16LE"));
        }
        if focus != EditDialogFocus::Hex {
            self.input_hex = TextInput::new(encode_upper(bytes.as_slice()));
        }
    }
}

/// The exact-match pattern for `text` encoded in the encoding labelled
/// `label`: `None` for empty text, an unknown label, or text that encodes to
/// no bytes.
pub open spec fn text_pattern(text: Seq<char>, label: Seq<char>) -> Option<Seq<HexPatternByte>> {
    if text.len() == 0 || !is_encoding_label(label) || text_bytes(label, text).len() == 0 {
        None
    } else {
        Some(text_bytes(label, text).map_values(|b: u8| HexPatternByte::Exact(b)))
    }
}

/// Encodes `text` and turns the bytes into an exact-match pattern for
/// `search_pattern` (see `text_pattern`).
pub fn text_to_exact_pattern(text: &str, label: &str) -> (r: Option<Vec<HexPatternByte>>)
    ensures
        match text_pattern(text@, label@) {
            Some(p) => r matches Some(v) && v@ == p,
            None => r is None,
        },
{
    if text.is_empty() {
        return None;
    }
    let bytes = match encode_text(text, label) {
        Some(b) => b,
        None => return None,
    };
    if bytes.len() == 0 {
        return None;
    }
    let mut out: Vec<HexPatternByte> = Vec::new();
    let mut i: usize = 0;
    while i < bytes.len()
        invariant
            i <= bytes@.len(),
            out@ == bytes@.take(i as int).map_values(|b: u8| HexPatternByte::Exact(b)),
        decreases bytes.len() - i,
    {
        out.push(HexPatternByte::Exact(bytes[i]));
        i = i + 1;
        assert(out@ =~= bytes@.take(i as int).map_values(|b: u8| HexPatternByte::Exact(b)));
    }
    assert(bytes@.take(bytes@.len() as int) =~= bytes@);
    Some(out)
}

/// The pattern a search from the Find dialog looks for, or the message that
/// explains why there is none: `Err((m, true))` for an error, `Err((m,
/// false))` for a hint.
pub open spec fn find_request(app: App) -> Result<Seq<HexPatternByte>, (M, bool)> {
    let d = app.hex_view.find_dialog;
    match d.focus {
        EditDialogFocus::Hex => {
            let s = d.input_hex.value@;
            if trim(s).len() == 0 {
                Err((M::FindEnterHex, false))
            } else {
                match hex_pattern_spec(s) {
                    Some(p) => Ok(p),
                    None => Err((M::FindInvalidHex, true)),
                }
            }
        },
        f => match text_pattern(d.field(f).value@, field_label(f, app.enc1@)) {
            Some(p) => Ok(p),
            None => Err((M::FindEnterText, false)),
        },
    }
}

/// The last byte a hit at `o` of a pattern `n` bytes long covers, kept inside
/// the file and never before `o`.
pub open spec fn hit_end(o: usize, n: nat, size: usize) -> usize {
    let last = if n == 0 { o as int } else { o + n - 1 };
    let cap = if size == 0 { 0 } else { size - 1 };
    let e = if last < cap { last } else { cap };
    (if e > o { e } else { o as int }) as usize
}

/// The pattern the Find dialog's focused field asks for (see
/// `find_request`).
fn find_pattern(app: &App) -> (r: Result<Vec<HexPatternByte>, (M, bool)>)
    ensures
        match find_request(*app) {
            Ok(p) => r matches Ok(v) && v@ == p,
            Err(e) => r == Err::<Vec<HexPatternByte>, (M, bool)>(e),
        },
{
    let focus = app.hex_view.find_dialog.focus;
    match focus {
        EditDialogFocus::Hex => {
            let cs = chars_of(app.hex_view.find_dialog.input_hex.value.as_str());
            let t = crate::text::trim_chars(cs.as_slice());
            if t.len() == 0 {
                return Err((M::FindEnterHex, false));
            }
            match hex_string_to_pattern(app.hex_view.find_dialog.input_hex.value.as_str()) {
                Some(p) => Ok(p),
                None => Err((M::FindInvalidHex, true)),
            }
        },
        _ => {
            let label = match focus {
                EditDialogFocus::Enc1 => string_from(app.enc1.as_str()),
                EditDialogFocus::Utf8 => string_from("UTF-8"),
                _ => string_from("UTF-16LE"),
            };
            let text = match focus {
                EditDialogFocus::Enc1 => string_from(app.hex_view.find_dialog.input_enc1.value.as_str()),
                EditDialogFocus::Utf8 => string_from(app.hex_view.find_dialog.input_utf8.value.as_str()),
                _ => string_from(app.hex_view.find_dialog.input_utf16le.value.as_str()),
            };
            assert(text@ == app.hex_view.find_dialog.field(focus).value@);
            assert(label@ == field_label(focus, app.enc1@));
            match text_to_exact_pattern(text.as_str(), label.as_str()) {
                Some(p) => Ok(p),
                None => Err((M::FindEnterText, false)),
            }
        },
    }
}

/// Selects a hit of `n` bytes at `ofs` in the hex column.
fn select_hit(app: &mut App, ofs: usize, n: usize)
    ensures
        final(app).hex_view.selection.start == ofs,
        final(app).hex_view.selection.end == hit_end(ofs, n as nat, old(app).file_info.size),
        final(app).hex_view.selection_target == EditingTarget::Hex,
        final(app).hex_view == (crate::hex::hex_view::HexView {
            selection: final(app).hex_view.selection,
            selection_target: final(app).hex_view.selection_target,
            ..old(app).hex_view
        }),
        *final(app) == (App { hex_view: final(app).hex_view, ..*old(app) }),
{
    let size = app.file_info.size;
    let last: usize = if n == 0 {
        ofs
    } else if n - 1 > usize::MAX - ofs {
        usize::MAX
    } else {
        ofs + (n - 1)
    };
    let cap: usize = if size == 0 { 0 } else { size - 1 };
    let e = if last < cap { last } else { cap };
    let end = if e > ofs { e } else { ofs };
    app.hex_view.selection.start = ofs;
    app.hex_view.selection.end = end;
    app.hex_view.selection.direction = None;
    app.hex_view.selection.is_mouse = false;
    app.hex_view.selection_target = EditingTarget::Hex;
}

/// What a search from the Find dialog does (see `execute_find`): the
/// direction is kept for the next search; on a hit the cursor moves there,
/// the hit is selected and its position reported; otherwise the dialog says
/// why nothing was found.
pub open spec fn find_post(a: App, b: App, forward: bool) -> bool {
    &&& b.hex_view.search.direction == if forward {
        SearchDirection::Forward
    } else {
        SearchDirection::Backward
    }
    &&& b.file_info == a.file_info
    &&& b.hex_view.changed_bytes == a.hex_view.changed_bytes
    &&& match find_request(a) {
        Err((m, is_error)) => {
            &&& if is_error {
                &&& b.hex_view.find_dialog.error_message matches Some(e) && e@ == m.text(a.config.lang)
                &&& b.hex_view.find_dialog.status_message is None
            } else {
                &&& b.hex_view.find_dialog.error_message is None
                &&& b.hex_view.find_dialog.status_message matches Some(s) && s@ == m.text(a.config.lang)
            }
            &&& b.hex_view.offset == a.hex_view.offset
            &&& b.hex_view.search.matches == a.hex_view.search.matches
        },
        Ok(p) => {
            let all = pattern_hits(p, effective(a));
            let t = if all.len() == 0 {
                None
            } else {
                next_target(all, a.hex_view.offset, forward, a.config.search_wrap)
            };
            &&& b.hex_view.search.matches@ == all
            &&& b.hex_view.search.match_len == p.len()
            &&& b.hex_view.find_dialog.error_message is None
            &&& match t {
                Some(o) => {
                    &&& crate::app::view_went(a, b, o)
                    &&& b.hex_view.selection.start == o
                    &&& b.hex_view.selection.end == hit_end(o, p.len(), a.file_info.size)
                    &&& b.hex_view.selection_target == EditingTarget::Hex
                    &&& b.hex_view.find_dialog.status_message matches Some(s) && s@ == position_message(b, o)
                },
                None => {
                    &&& crate::app::view_stayed(a, b)
                    &&& b.hex_view.find_dialog.status_message matches Some(s) && s@ == M::FindNoMatch.text(a.config.lang)
                },
            }
        },
    }
}

/// Searches for what the focused field spells (see `find_request`), in the
/// given direction (see `find_post`).
#[verifier::rlimit(40)]
pub fn execute_find(app: &mut App, forward: bool)
    ensures
        find_post(*old(app), *final(app), forward),
{
    let ghost start = *app;
    let request = find_pattern(app);
    app.hex_view.search.direction = if forward { SearchDirection::Forward } else { SearchDirection::Backward };
    let lang = app.config.lang;
    let pattern = match request {
        Ok(p) => p,
        Err((m, is_error)) => {
            if is_error {
                app.hex_view.find_dialog.error_message = Some(string_from(m.tr(lang)));
                app.hex_view.find_dialog.status_message = None;
            } else {
                app.hex_view.find_dialog.error_message = None;
                app.hex_view.find_dialog.status_message = Some(string_from(m.tr(lang)));
            }
            return;
        },
    };
    let buf_len = app.file_info.buffer.len();
    let n = pattern.len();
    let ghost before = *app;
    assert(effective(before) =~= effective(start));
    proof {
        assert(effective(before).len() == buf_len);
        lemma_pattern_hits_increasing(pattern@, effective(before));
    }
    assert(find_request(start) == Ok::<Seq<HexPatternByte>, (M, bool)>(pattern@));
    let ghost hits = pattern_hits(pattern@, effective(start));
    match search_pattern(app, pattern.as_slice()) {
        Some(ofs) => {
            assert(app.hex_view.search.matches@ == hits);
            proof {
                let all = pattern_hits(pattern@, effective(before));
                crate::hex::search::lemma_below_len(all, ofs);
            }
            let msg = found_at_message(app, ofs);
            let ghost before = *app;
            app.goto(ofs);
            proof {
                crate::app::lemma_goto_same_view(start, before, ofs);
            }
            select_hit(app, ofs, n);
            app.hex_view.find_dialog.error_message = None;
            app.hex_view.find_dialog.status_message = Some(msg);
            assert(app.hex_view.search.matches@ == hits);
        },
        None => {
            assert(app.hex_view.search.matches@ == hits);
            app.hex_view.find_dialog.error_message = None;
            app.hex_view.find_dialog.status_message = Some(string_from(M::FindNoMatch.tr(lang)));
        },
    }
}

/// `new` is `old` with every field brought in step with the focused one
/// (see `FindDialog::sync_from_focus`), the first field's encoding being
/// labelled `enc1`.
pub open spec fn find_synced(old: FindDialog, new: FindDialog, enc1: Seq<char>) -> bool {
    &&& find_field_synced(old, new, EditDialogFocus::Enc1, enc1)
    &&& find_field_synced(old, new, EditDialogFocus::Utf8, enc1)
    &&& find_field_synced(old, new, EditDialogFocus::Utf16Le, enc1)
    &&& find_field_synced(old, new, EditDialogFocus::Hex, enc1)
    &&& new.focus == old.focus
    &&& new.anchor == old.anchor
    &&& new.error_message == old.error_message
    &&& new.status_message == old.status_message
}

/// `m` is `d` with the focused field holding `v`, its cursor at `c`.
pub open spec fn focused_field_set(d: FindDialog, m: FindDialog, v: Seq<char>, c: nat) -> bool {
    &&& m.field(d.focus).value@ == v
    &&& m.field(d.focus).cursor == c
    &&& forall|g: EditDialogFocus| g != d.focus ==> #[trigger] m.field(g) == d.field(g)
    &&& m.focus == d.focus
    &&& m.anchor == d.anchor
    &&& m.error_message == d.error_message
    &&& m.status_message == d.status_message
}

/// The text and cursor of field `t` after `key` (see `input_edit`).
pub open spec fn field_typed(t: TextInput, key: KeyPress) -> (Seq<char>, nat) {
    match input_edit(key) {
        Some(e) => input_edited(t.value@, t.cursor as nat, e),
        None => (t.value@, t.cursor as nat),
    }
}

/// A key typed into the focused field: its edit (see `input_edit`) is made,
/// and then the other fields follow the focused one.
pub open spec fn find_typed(a: App, b: App, key: KeyPress) -> bool {
    let d = a.hex_view.find_dialog;
    let vc = field_typed(d.field(d.focus), key);
    &&& exists|m: FindDialog| #[trigger] focused_field_set(d, m, vc.0, vc.1) && find_synced(m, b.hex_view.find_dialog, a.enc1@)
    &&& b == (App { hex_view: HexView { find_dialog: b.hex_view.find_dialog, ..a.hex_view }, ..a })
}

/// The characters the hex field takes: hex digits, `x`, a space and the
/// `?` wildcard.
pub open spec fn hex_field_char(c: char) -> bool {
    is_hex_digit(c) || c == 'x' || c == 'X' || c == ' ' || c == '?'
}

/// What a key does in the Find dialog: Esc empties and closes it, Tab and
/// Down (Shift+Tab and Up) move to the next (previous) field and drop the
/// Shift-selection, Enter and F3 search forward (with Shift, backward, see
/// `find_post`), the hex field ignores characters it cannot hold, and any
/// other key is typed into the focused field (see `find_typed`).
pub open spec fn find_key_post(a: App, b: App, key: KeyPress) -> bool {
    let d = a.hex_view.find_dialog;
    let focus_to = |f: EditDialogFocus| b == (App {
        hex_view: HexView { find_dialog: FindDialog { focus: f, anchor: None, ..d }, ..a.hex_view },
        ..a
    });
    match key.code {
        Key::Esc => {
            let e = b.hex_view.find_dialog;
            &&& e.input_enc1.value@.len() == 0 && e.input_enc1.cursor == 0
            &&& e.input_utf8.value@.len() == 0 && e.input_utf8.cursor == 0
            &&& e.input_utf16le.value@.len() == 0 && e.input_utf16le.cursor == 0
            &&& e.input_hex.value@.len() == 0 && e.input_hex.cursor == 0
            &&& e.focus == EditDialogFocus::Enc1
            &&& e.anchor is None
            &&& e.error_message is None
            &&& e.status_message is None
            &&& b == (App { hex_view: HexView { find_dialog: e, ..a.hex_view }, state: UIState::Normal, ..a })
        },
        Key::Tab => focus_to(next_focus(d.focus)),
        Key::Down => focus_to(next_focus(d.focus)),
        Key::BackTab => focus_to(prev_focus(d.focus)),
        Key::Up => focus_to(prev_focus(d.focus)),
        Key::Enter => find_post(a, b, !key.shift),
        Key::F(n) => if n == 3 { find_post(a, b, !key.shift) } else { find_typed(a, b, key) },
        Key::Char(c) => if d.focus == EditDialogFocus::Hex && !hex_field_char(c) {
            b == a
        } else {
            find_typed(a, b, key)
        },
        _ => find_typed(a, b, key),
    }
}

fn find_type_key(app: &mut App, key: KeyPress)
    requires
        old(app).hex_view.find_dialog.field(old(app).hex_view.find_dialog.focus).value@.len() < usize::MAX,
    ensures
        find_typed(*old(app), *final(app), key),
{
    let ghost d = app.hex_view.find_dialog;
    let f = app.hex_view.find_dialog.focus;
    match input_edit_for(key) {
        Some(e) => {
            let mut t = TextInput::empty();
            match f {
                EditDialogFocus::Enc1 => std::mem::swap(&mut t, &mut app.hex_view.find_dialog.input_enc1),
                EditDialogFocus::Utf8 => std::mem::swap(&mut t, &mut app.hex_view.find_dialog.input_utf8),
                EditDialogFocus::Utf16Le => std::mem::swap(&mut t, &mut app.hex_view.find_dialog.input_utf16le),
                EditDialogFocus::Hex => std::mem::swap(&mut t, &mut app.hex_view.find_dialog.input_hex),
            }
            t.apply(e);
            match f {
                EditDialogFocus::Enc1 => app.hex_view.find_dialog.input_enc1 = t,
                EditDialogFocus::Utf8 => app.hex_view.find_dialog.input_utf8 = t,
                EditDialogFocus::Utf16Le => app.hex_view.find_dialog.input_utf16le = t,
                EditDialogFocus::Hex => app.hex_view.find_dialog.input_hex = t,
            }
        },
        None => {},
    }
    let ghost m = app.hex_view.find_dialog;
    let ghost vc = field_typed(d.field(d.focus), key);
    assert(focused_field_set(d, m, vc.0, vc.1));
    let enc1 = string_from(app.enc1.as_str());
    app.hex_view.find_dialog.sync_from_focus(enc1.as_str());
    assert(find_synced(m, app.hex_view.find_dialog, enc1@));
    assert(focused_field_set(d, m, vc.0, vc.1) && find_synced(m, app.hex_view.find_dialog, app.enc1@));
}

/// Handles a key in the Find dialog (see `find_key_post`).
pub fn dialog_find_events(app: &mut App, key: KeyPress)
    requires
        old(app).hex_view.find_dialog.field(old(app).hex_view.find_dialog.focus).value@.len() < usize::MAX,
    ensures
        find_key_post(*old(app), *final(app), key),
{
    match key.code {
        Key::Esc => {
            app.hex_view.find_dialog.reset();
            app.state = UIState::Normal;
        },
        Key::Tab | Key::Down => {
            app.hex_view.find_dialog.focus = match app.hex_view.find_dialog.focus {
                EditDialogFocus::Enc1 => EditDialogFocus::Utf8,
                EditDialogFocus::Utf8 => EditDialogFocus::Utf16Le,
                EditDialogFocus::Utf16Le => EditDialogFocus::Hex,
                EditDialogFocus::Hex => EditDialogFocus::Enc1,
            };
            app.hex_view.find_dialog.anchor = None;
        },
        Key::BackTab | Key::Up => {
            app.hex_view.find_dialog.focus = match app.hex_view.find_dialog.focus {
                EditDialogFocus::Enc1 => EditDialogFocus::Hex,
                EditDialogFocus::Utf8 => EditDialogFocus::Enc1,
                EditDialogFocus::Utf16Le => EditDialogFocus::Utf8,
                EditDialogFocus::Hex => EditDialogFocus::Utf16Le,
            };
            app.hex_view.find_dialog.anchor = None;
        },
        Key::Enter => execute_find(app, !key.shift),
        Key::F(n) => {
            if n == 3 {
                execute_find(app, !key.shift);
            } else {
                find_type_key(app, key);
            }
        },
        Key::Char(c) => {
            let ok = to_digit(c, 16).is_some() || c == 'x' || c == 'X' || c == ' ' || c == '?';
            if app.hex_view.find_dialog.focus == EditDialogFocus::Hex && !ok {
            } else {
                find_type_key(app, key);
            }
        },
        _ => find_type_key(app, key),
    }
}

} // verus!
