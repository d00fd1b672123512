//! What keys do in the hex view: where a movement key takes the cursor, how
//! pasted text becomes bytes, and the editing commands behind the keys.
use vstd::prelude::*;

use crate::app::{after_goto, view_stayed, view_went, error_shown, shown_byte, App, EditingTarget, UIState};
use crate::hex::blocks::ColoredBlock;
use crate::codec::{canonical_name, encode_text, encoding_name, is_encoding_label, text_bytes};
use crate::hex::edit::{
    displayed, edits_in, fill_with, in_range, max_usize, min_usize, outside, record_edit, revert_range, staged,
};
use crate::hex::selection::{
    color_block_at_cursor, colour_post, enc2_label, fill_selection_post, fill_selection_with, format_selection_for_target,
    fresh_offsets, selection_copy, Selection,
};
use crate::hex::edit_dialog::{EditDialog, EditDialogFocus};
use crate::hex::comment::Commands;
use crate::hex::strings_list::strings_opened;
use crate::i18n::M;
use crate::hex::hex_view::HexView;
use crate::text::{
    chars_of, dec_digits, hex2, hex_digits, parse_radix, push_dec, push_hex, push_hex2, push_str, split_whitespace,
    string_from, trim, trim_chars, words,
};

verus! {

/// A key, as the terminal reports it.
#[derive(Clone, Copy, PartialEq, Eq, Debug, Structural)]
pub enum Key {
    Left,
    Right,
    Up,
    Down,
    Home,
    End,
    PageUp,
    PageDown,
    Backspace,
    Enter,
    Tab,
    BackTab,
    Esc,
    Insert,
    Delete,
    F(u8),
    Char(char),
}

/// A key press with its modifiers.
#[derive(Clone, Copy, PartialEq, Eq, Debug, Structural)]
pub struct KeyPress {
    pub code: Key,
    pub ctrl: bool,
    pub alt: bool,
    pub shift: bool,
}

// ---------------------------------------------------------------------------
// Movement
// ---------------------------------------------------------------------------

/// The bytes a row holds, at least one.
pub open spec fn row_len(app: App) -> nat {
    if app.config.hex_mode_bytes_per_line == 0 {
        1
    } else {
        app.config.hex_mode_bytes_per_line as nat
    }
}

/// The last offset the cursor may reach (zero for an empty file).
pub open spec fn last_offset(app: App) -> int {
    if app.file_info.buffer@.len() == 0 {
        0
    } else {
        app.file_info.buffer@.len() - 1
    }
}

pub open spec fn sat_sub(a: int, b: int) -> int {
    if a >= b {
        a - b
    } else {
        0
    }
}

pub open spec fn min_int(a: int, b: int) -> int {
    if a <= b {
        a
    } else {
        b
    }
}

/// Where a movement key takes the cursor: left and right by a byte, up and
/// down by a row, Home and End to the ends of the row (of the file with
/// Ctrl), the page keys by a page; never past the last byte. `None` for a key
/// that is not a movement.
pub open spec fn movement_spec(app: App, key: KeyPress) -> Option<int> {
    let ofs = app.hex_view.offset as int;
    let bpl = row_len(app) as int;
    let last = last_offset(app);
    match key.code {
        Key::Left => Some(sat_sub(ofs, 1)),
        Key::Right => Some(min_int(ofs + 1, last)),
        Key::Up => Some(sat_sub(ofs, bpl)),
        Key::Down => Some(min_int(ofs + bpl, last)),
        Key::Home => Some(if key.ctrl {
            0
        } else {
            sat_sub(ofs, app.hex_view.cursor.x as int)
        }),
        Key::End => Some(if key.ctrl {
            last
        } else {
            min_int(sat_sub(sat_sub(min_int(ofs + bpl, usize::MAX as int), app.hex_view.cursor.x as int), 1), last)
        }),
        Key::PageDown => Some(min_int(ofs + app.reader.page_current_size, last)),
        Key::PageUp => Some(sat_sub(ofs, app.reader.page_current_size as int)),
        _ => None,
    }
}

/// Where a plain movement key takes the cursor (see `movement_spec`).
pub fn movement_target(app: &App, key: &KeyPress) -> (r: Option<usize>)
    requires
        key.code == Key::Right ==> app.hex_view.offset < usize::MAX,
        key.code == Key::Down ==> app.hex_view.offset + row_len(*app) <= usize::MAX,
        key.code == Key::PageDown ==> app.hex_view.offset + app.reader.page_current_size <= usize::MAX,
    ensures
        match movement_spec(*app, *key) {
            Some(t) => r == Some(t as usize),
            None => r is None,
        },
{
    let bpl = if app.config.hex_mode_bytes_per_line == 0 { 1 } else { app.config.hex_mode_bytes_per_line };
    let ofs = app.hex_view.offset;
    let n = app.file_info.buffer.len();
    let last = if n == 0 { 0 } else { n - 1 };
    let x = app.hex_view.cursor.x;
    let target = match key.code {
        Key::Left => if ofs >= 1 { ofs - 1 } else { 0 },
        Key::Right => if ofs + 1 < last { ofs + 1 } else { last },
        Key::Up => if ofs >= bpl { ofs - bpl } else { 0 },
        Key::Down => if ofs + bpl < last { ofs + bpl } else { last },
        Key::Home => if key.ctrl {
            0
        } else if ofs >= x {
            ofs - x
        } else {
            0
        },
        Key::End => if key.ctrl {
            last
        } else {
            let a = if bpl > usize::MAX - ofs { usize::MAX } else { ofs + bpl };
            let b = if a >= x { a - x } else { 0 };
            let c = if b >= 1 { b - 1 } else { 0 };
            if c < last { c } else { last }
        },
        Key::PageDown => {
            let p = app.reader.page_current_size;
            if ofs + p < last { ofs + p } else { last }
        },
        Key::PageUp => {
            let p = app.reader.page_current_size;
            if ofs >= p { ofs - p } else { 0 }
        },
        _ => return None,
    };
    Some(target)
}

// ---------------------------------------------------------------------------
// Pasting
// ---------------------------------------------------------------------------

/// `s` with every `0x`, `0X` and comma turned into a space.
pub open spec fn hex_separators_spaced(s: Seq<char>) -> Seq<char>
    decreases s.len(),
{
    if s.len() == 0 {
        s
    } else if s.len() >= 2 && s[0] == '0' && (s[1] == 'x' || s[1] == 'X') {
        seq![' '] + hex_separators_spaced(s.skip(2))
    } else if s[0] == ',' {
        seq![' '] + hex_separators_spaced(s.skip(1))
    } else {
        seq![s[0]] + hex_separators_spaced(s.skip(1))
    }
}

pub open spec fn is_ascii_seq(t: Seq<char>) -> bool {
    forall|i: int| 0 <= i < t.len() ==> (#[trigger] t[i] as u32) < 0x80
}

/// The bytes of a run of two-digit hex pairs, each read as `u8::from_str_radix`
/// reads it.
pub open spec fn hex_pair_bytes(t: Seq<char>) -> Option<Seq<u8>>
    decreases t.len(),
{
    if t.len() == 0 {
        Some(seq![])
    } else if t.len() < 2 {
        None
    } else {
        match (parse_radix(t.take(2), 16, 255), hex_pair_bytes(t.skip(2))) {
            (Some(v), Some(rest)) => Some(seq![v as u8] + rest),
            _ => None,
        }
    }
}

/// The bytes one pasted word stands for: a one- or two-digit hex number, or
/// an even number of characters read as hex pairs; `None` when it is not hex.
pub open spec fn token_bytes(t: Seq<char>) -> Option<Seq<u8>> {
    if !is_ascii_seq(t) {
        None
    } else if t.len() == 1 || t.len() == 2 {
        match parse_radix(t, 16, 255) {
            Some(v) => Some(seq![v as u8]),
            None => None,
        }
    } else if t.len() % 2 == 0 {
        hex_pair_bytes(t)
    } else {
        None
    }
}

/// The bytes of every word in turn, `None` as soon as one is not hex.
pub open spec fn tokens_hex(ts: Seq<Seq<char>>) -> Option<Seq<u8>>
    decreases ts.len(),
{
    if ts.len() == 0 {
        Some(seq![])
    } else {
        match (tokens_hex(ts.drop_last()), token_bytes(ts.last())) {
            (Some(a), Some(b)) => Some(a + b),
            _ => None,
        }
    }
}

/// Each character of `s` encoded on its own in the encoding labelled
/// `label` (nothing for an unknown label).
pub open spec fn chars_encoded(s: Seq<char>, label: Seq<char>) -> Seq<u8>
    decreases s.len(),
{
    if s.len() == 0 || !is_encoding_label(label) {
        seq![]
    } else {
        chars_encoded(s.drop_last(), label) + text_bytes(label, seq![s.last()])
    }
}

/// The bytes pasting `text` writes: the text read as hex when every word of
/// it (after `0x` prefixes and commas become spaces) is hex, otherwise the
/// trimmed text encoded character by character in the encoding labelled
/// `label`.
pub open spec fn pasted_bytes(text: Seq<char>, label: Seq<char>) -> Seq<u8> {
    let clean = trim(text);
    let ts = words(hex_separators_spaced(clean));
    if clean.len() == 0 {
        seq![]
    } else {
        match tokens_hex(ts) {
            Some(b) if ts.len() > 0 && b.len() > 0 => b,
            _ => chars_encoded(clean, label),
        }
    }
}

fn space_hex_separators(s: &[char]) -> (r: Vec<char>)
    ensures
        r@ == hex_separators_spaced(s@),
{
    let mut r: Vec<char> = Vec::new();
    let mut i: usize = 0;
    assert(s@.skip(0) =~= s@);
    assert(r@ + hex_separators_spaced(s@) =~= hex_separators_spaced(s@));
    while i < s.len()
        invariant
            i <= s@.len(),
            r@ + hex_separators_spaced(s@.skip(i as int)) == hex_separators_spaced(s@),
        decreases s.len() - i,
    {
        let ghost rest = s@.skip(i as int);
        if s.len() - i >= 2 && s[i] == '0' && (s[i + 1] == 'x' || s[i + 1] == 'X') {
            r.push(' ');
            proof {
                assert(rest.skip(2) =~= s@.skip(i + 2));
                assert(r@ + hex_separators_spaced(s@.skip(i + 2)) =~= r@.drop_last() + hex_separators_spaced(rest));
            }
            i = i + 2;
        } else {
            let c = s[i];
            r.push(if c == ',' { ' ' } else { c });
            proof {
                assert(rest.skip(1) =~= s@.skip(i + 1));
                assert(r@ + hex_separators_spaced(s@.skip(i + 1)) =~= r@.drop_last() + hex_separators_spaced(rest));
            }
            i = i + 1;
        }
    }
    assert(s@.skip(i as int) =~= Seq::<char>::empty());
    assert(r@ =~= r@ + Seq::<char>::empty());
    r
}

fn all_ascii(t: &[char]) -> (b: bool)
    ensures
        b == is_ascii_seq(t@),
{
    let mut i: usize = 0;
    while i < t.len()
        invariant
            i <= t@.len(),
            forall|j: int| 0 <= j < i ==> (#[trigger] t@[j] as u32) < 0x80,
        decreases t.len() - i,
    {
        if (t[i] as u32) >= 0x80 {
            return false;
        }
        i = i + 1;
    }
    true
}

fn pair_bytes(t: &[char]) -> (r: Option<Vec<u8>>)
    requires
        t@.len() % 2 == 0,
    ensures
        match hex_pair_bytes(t@) {
            Some(b) => r matches Some(v) && v@ == b,
            None => r is None,
        },
{
    let mut out: Vec<u8> = Vec::new();
    let mut k: usize = 0;
    assert(t@.skip(0) =~= t@);
    while k < t.len()
        invariant
            k <= t@.len(),
            k % 2 == 0,
            t@.len() % 2 == 0,
            hex_pair_bytes(t@) == match hex_pair_bytes(t@.skip(k as int)) {
                Some(rest) => Some(out@ + rest),
                None => None::<Seq<u8>>,
            },
        decreases t.len() - k,
    {
        let ghost rest = t@.skip(k as int);
        let pair = crate::text::copy_range(t, k, k + 2);
        assert(pair@ =~= rest.take(2));
        assert(rest.skip(2) =~= t@.skip(k + 2));
        match crate::text::parse_hex_u8(pair.as_slice()) {
            Some(v) => {
                proof {
                    let tail = hex_pair_bytes(t@.skip(k + 2));
                    if let Some(tb) = tail {
                        assert(out@.push(v) + tb =~= out@ + (seq![v] + tb));
                    }
                }
                out.push(v);
            },
            None => return None,
        }
        k = k + 2;
    }
    assert(t@.skip(k as int) =~= Seq::<char>::empty());
    assert(out@ + Seq::<u8>::empty() =~= out@);
    Some(out)
}

fn word_bytes(t: &[char]) -> (r: Option<Vec<u8>>)
    ensures
        match token_bytes(t@) {
            Some(b) => r matches Some(v) && v@ == b,
            None => r is None,
        },
{
    if !all_ascii(t) {
        return None;
    }
    if t.len() == 1 || t.len() == 2 {
        match crate::text::parse_hex_u8(t) {
            Some(v) => Some(vec![v]),
            None => None,
        }
    } else if t.len() % 2 == 0 {
        pair_bytes(t)
    } else {
        None
    }
}

/// Each character of `cs` encoded on its own in the encoding labelled
/// `label`.
fn encode_each_char(cs: &[char], label: &str) -> (r: Vec<u8>)
    ensures
        r@ == chars_encoded(cs@, label@),
{
    let mut out: Vec<u8> = Vec::new();
    let mut i: usize = 0;
    while i < cs.len()
        invariant
            i <= cs@.len(),
            out@ == chars_encoded(cs@.take(i as int), label@),
        decreases cs.len() - i,
    {
        let mut one = String::new();
        crate::text::push_char(&mut one, cs[i]);
        proof {
            assert(cs@.take(i + 1).drop_last() =~= cs@.take(i as int));
            assert(one@ =~= seq![cs@[i as int]]);
        }
        match encode_text(one.as_str(), label) {
            Some(b) => {
                let mut k: usize = 0;
                let ghost before = out@;
                while k < b.len()
                    invariant
                        k <= b@.len(),
                        out@ == before + b@.take(k as int),
                    decreases b.len() - k,
                {
                    out.push(b[k]);
                    k = k + 1;
                    assert(out@ =~= before + b@.take(k as int));
                }
                assert(b@.take(b@.len() as int) =~= b@);
            },
            None => {},
        }
        i = i + 1;
    }
    assert(cs@.take(cs@.len() as int) =~= cs@);
    out
}

/// The bytes pasting `text` writes (see `pasted_bytes`).
pub fn parse_hex_or_text_bytes(text: &str, label: &str) -> (r: Vec<u8>)
    ensures
        r@ == pasted_bytes(text@, label@),
{
    let cs = chars_of(text);
    let clean = trim_chars(cs.as_slice());
    if clean.len() == 0 {
        return Vec::new();
    }
    let spaced = space_hex_separators(clean.as_slice());
    let tokens = split_whitespace(spaced.as_slice());
    let ghost ts = words(spaced@);
    assert(crate::text::views(tokens@) == ts);
    let mut bytes: Vec<u8> = Vec::new();
    let mut all_hex = tokens.len() > 0;
    let mut i: usize = 0;
    while i < tokens.len() && all_hex
        invariant
            i <= tokens@.len(),
            crate::text::views(tokens@) == ts,
            all_hex ==> tokens_hex(ts.take(i as int)) == Some(bytes@),
            !all_hex ==> (ts.len() == 0 || tokens_hex(ts) is None),
        decreases tokens.len() - i,
    {
        proof {
            assert(ts.take(i + 1).drop_last() =~= ts.take(i as int));
            assert(ts[i as int] == tokens@[i as int]@);
        }
        match word_bytes(tokens[i].as_slice()) {
            Some(b) => {
                let mut k: usize = 0;
                let ghost before = bytes@;
                while k < b.len()
                    invariant
                        k <= b@.len(),
                        bytes@ == before + b@.take(k as int),
                    decreases b.len() - k,
                {
                    bytes.push(b[k]);
                    k = k + 1;
                    assert(bytes@ =~= before + b@.take(k as int));
                }
                assert(b@.take(b@.len() as int) =~= b@);
            },
            None => {
                proof {
                    lemma_tokens_hex_prefix_none(ts, (i + 1) as nat);
                }
                all_hex = false;
            },
        }
        i = i + 1;
    }
    if all_hex {
        assert(ts.take(ts.len() as int) =~= ts);
    }
    if all_hex && bytes.len() > 0 {
        bytes
    } else {
        encode_each_char(clean.as_slice(), label)
    }
}

/// Once a prefix of the words is not hex, neither is the whole list.
proof fn lemma_tokens_hex_prefix_none(ts: Seq<Seq<char>>, n: nat)
    requires
        n <= ts.len(),
        tokens_hex(ts.take(n as int)) is None,
    ensures
        tokens_hex(ts) is None,
    decreases ts.len() - n,
{
    if n < ts.len() {
        assert(ts.take((n + 1) as int).drop_last() =~= ts.take(n as int));
        lemma_tokens_hex_prefix_none(ts, n + 1);
    } else {
        assert(ts.take(n as int) =~= ts);
    }
}

// ---------------------------------------------------------------------------
// Undo, redo, revert
// ---------------------------------------------------------------------------

/// `0x` and `n` in upper-case hex.
pub open spec fn hex_0x(n: nat) -> Seq<char> {
    "0x"@ + hex_digits(n)
}

fn push_0x(out: &mut String, n: u64)
    ensures
        final(out)@ == old(out)@ + hex_0x(n as nat),
{
    push_str(out, "0x");
    push_hex(out, n, 0);
    proof {
        reveal_strlit("0x");
        assert(out@ =~= old(out)@ + hex_0x(n as nat));
    }
}

/// The log line for reverting `n` edits of a block.
pub open spec fn reverted_block_message(n: nat) -> Seq<char> {
    "Reverted "@ + dec_digits(n) + " changed byte(s) in selected block"@
}

/// The pending edits in `lo..=hi` of the pending edits `m` (in offset order).
pub open spec fn undone_in(a: App, lo: usize, hi: usize) -> Seq<(usize, u8)> {
    edits_in(a.hex_view.changed_bytes.key_seq(), a.hex_view.changed_bytes@, lo, hi)
}

/// What Ctrl+Z does, `done` telling whether there was anything to undo.
pub open spec fn undo_post(a: App, b: App, done: bool) -> bool {
    &&& a.hex_view.selection.start != a.hex_view.selection.end ==> {
                let lo = min_usize(a.hex_view.selection.start, a.hex_view.selection.end);
                let hi = max_usize(a.hex_view.selection.start, a.hex_view.selection.end);
                let undone = undone_in(a, lo, hi);
                &&& b.hex_view.changed_bytes@ == a.hex_view.changed_bytes@.remove_keys(in_range(lo, hi))
                &&& b.hex_view.redo_history@ == a.hex_view.redo_history@ + undone
                &&& b.hex_view.changed_history@ == outside(a.hex_view.changed_history@, lo, hi)
                &&& b.hex_view.same_but_edits(a.hex_view)
                &&& done == (undone.len() > 0)
                &&& b.logs@ == if done {
                    a.logs@.push(b.logs@.last())
                } else {
                    a.logs@
                }
                &&& done ==> b.logs@.last()@ == reverted_block_message(undone.len())
            }
    &&& a.hex_view.selection.start == a.hex_view.selection.end ==> {
                let h = a.hex_view.changed_history@;
                let m = a.hex_view.changed_bytes@;
                &&& done == (h.len() > 0)
                &&& h.len() == 0 ==> b == a
                &&& h.len() > 0 ==> {
                    let ofs = h.last();
                    &&& b.hex_view == (HexView {
                        changed_history: b.hex_view.changed_history,
                        changed_bytes: b.hex_view.changed_bytes,
                        redo_history: b.hex_view.redo_history,
                        ..a.hex_view
                    })
                    &&& b.hex_view.changed_history@ == h.drop_last()
                    &&& b.hex_view.changed_bytes@ == m.remove(ofs)
                    &&& b.hex_view.redo_history@ == if m.contains_key(ofs) {
                        a.hex_view.redo_history@.push((ofs, m[ofs]))
                    } else {
                        a.hex_view.redo_history@
                    }
                    &&& b.logs@ == a.logs@.push(b.logs@.last())
                    &&& b.logs@.last()@ == "Undid change at offset "@ + hex_0x(ofs as nat)
                }
            }
    &&& b.file_info == a.file_info
    &&& b.config == a.config
    &&& b.state == a.state
}

/// Undoes with Ctrl+Z: with a selection, reverts every pending edit inside it
/// (logging how many); without one, drops the most recent edit, moving it to
/// the redo stack. Returns `false` when there was nothing to undo.
pub fn perform_undo(app: &mut App) -> (done: bool)
    ensures
        undo_post(*old(app), *final(app), done),
{
    let start = app.hex_view.selection.start;
    let end = app.hex_view.selection.end;
    if start != end {
        let n = revert_range(app, start, end);
        if n > 0 {
            let mut msg = string_from("Reverted ");
            push_dec(&mut msg, n as u64);
            push_str(&mut msg, " changed byte(s) in selected block");
            proof {
                reveal_strlit("Reverted ");
            }
            app.log(msg);
            return true;
        }
        return false;
    }
    if app.hex_view.changed_history.len() == 0 {
        return false;
    }
    match app.hex_view.changed_history.pop() {
        Some(ofs) => {
            if app.hex_view.changed_bytes.contains_key(&ofs) {
                match app.hex_view.changed_bytes.remove(&ofs) {
                    Some(val) => app.hex_view.redo_history.push((ofs, val)),
                    None => {},
                }
            } else {
                assert(app.hex_view.changed_bytes@ =~= app.hex_view.changed_bytes@.remove(ofs));
            }
            let mut msg = string_from("Undid change at offset ");
            push_0x(&mut msg, ofs as u64);
            proof {
                reveal_strlit("Undid change at offset ");
            }
            app.log(msg);
            true
        },
        None => false,
    }
}

/// What Ctrl+Y does, `done` telling whether there was anything to redo.
pub open spec fn redo_post(a: App, b: App, done: bool) -> bool {
    &&& done == (a.hex_view.redo_history@.len() > 0)
    &&& !done ==> b == a
    &&& done ==> {
                let (ofs, val) = a.hex_view.redo_history@.last();
                let mid = App {
                    hex_view: HexView {
                        redo_history: b.hex_view.redo_history,
                        ..a.hex_view
                    },
                    ..a
                };
                &&& b.hex_view.redo_history@ == a.hex_view.redo_history@.drop_last()
                &&& staged(mid, b, ofs, val)
                &&& b.hex_view.same_but_edits(a.hex_view)
                &&& b.hex_view.nibble_pending == a.hex_view.nibble_pending
                &&& b.logs@ == a.logs@.push(b.logs@.last())
                &&& b.logs@.last()@ == "Redid change at offset "@ + hex_0x(ofs as nat)
            }
    &&& b.file_info == a.file_info
    &&& b.config == a.config
    &&& b.state == a.state
}

/// Redoes with Ctrl+Y: stages again the most recently undone edit. Returns
/// `false` when there is nothing to redo.
pub fn perform_redo(app: &mut App) -> (done: bool)
    ensures
        redo_post(*old(app), *final(app), done),
{
    if app.hex_view.redo_history.len() == 0 {
        return false;
    }
    match app.hex_view.redo_history.pop() {
        Some((ofs, val)) => {
            record_edit(app, ofs, val);
            let mut msg = string_from("Redid change at offset ");
            push_0x(&mut msg, ofs as u64);
            proof {
                reveal_strlit("Redid change at offset ");
            }
            app.log(msg);
            true
        },
        None => false,
    }
}

/// What Alt+F3 does, `done` telling whether the byte had a pending edit.
pub open spec fn revert_byte_post(a: App, b: App, done: bool) -> bool {
    &&& ({
                let ofs = a.hex_view.offset;
                let m = a.hex_view.changed_bytes@;
                &&& done == m.contains_key(ofs)
                &&& !done ==> b == a
                &&& done ==> {
                    let len = a.file_info.buffer@.len();
                    let next = min_int(ofs + 1, if len == 0 { 0 } else { len - 1 });
                    &&& b.hex_view.changed_bytes@ == m.remove(ofs)
                    &&& b.hex_view.changed_history@ == outside(a.hex_view.changed_history@, ofs, ofs)
                    &&& b.hex_view.redo_history@ == a.hex_view.redo_history@.push((ofs, m[ofs]))
                    &&& view_went(a, b, next as usize)
                    &&& b.logs@ == a.logs@.push(b.logs@.last())
                    &&& b.logs@.last()@ == "Reverted byte at offset "@ + hex_0x(ofs as nat)
                        + " to its original value"@
                }
            })
    &&& b.file_info == a.file_info
    &&& b.config == a.config
    &&& b.state == a.state
}

/// Reverts only the byte under the cursor (Alt+F3): its pending edit goes to
/// the redo stack and out of the undo history, and the cursor steps on by
/// one. Returns `false` when the byte has no pending edit.
pub fn revert_byte_at_cursor(app: &mut App) -> (done: bool)
    ensures
        revert_byte_post(*old(app), *final(app), done),
{
    let ofs = app.hex_view.offset;
    if !app.hex_view.changed_bytes.contains_key(&ofs) {
        return false;
    }
    match app.hex_view.changed_bytes.remove(&ofs) {
        Some(val) => {
            let h = crate::hex::edit::outside_vec(app.hex_view.changed_history.as_slice(), ofs, ofs);
            app.hex_view.changed_history = h;
            app.hex_view.redo_history.push((ofs, val));
            let len = app.file_info.buffer.len();
            let last = if len == 0 { 0 } else { len - 1 };
            let next = if ofs < last { ofs + 1 } else { last };
            app.goto(next);
            let mut msg = string_from("Reverted byte at offset ");
            push_0x(&mut msg, ofs as u64);
            push_str(&mut msg, " to its original value");
            proof {
                reveal_strlit("Reverted byte at offset ");
                reveal_strlit(" to its original value");
            }
            app.log(msg);
            true
        },
        None => false,
    }
}

// ---------------------------------------------------------------------------
// Walking to a different byte
// ---------------------------------------------------------------------------

/// Where the walk for a byte different from `cur`, from `ofs` in steps of
/// `delta`, stops: the first offset whose shown byte differs, or offset zero
/// when a backwards walk reaches it; `None` when it runs off the end.
pub open spec fn other_byte_from(app: App, ofs: int, delta: int, cur: u8) -> Option<int>
    decreases (if delta > 0 { app.file_info.buffer@.len() - ofs } else { ofs }),
{
    let len = app.file_info.buffer@.len() as int;
    if ofs < 0 || ofs >= len || delta == 0 || len > usize::MAX {
        None
    } else if displayed(app, ofs as usize) != cur {
        Some(ofs)
    } else {
        let n = if ofs + delta < 0 {
            0
        } else if ofs + delta > usize::MAX {
            usize::MAX as int
        } else {
            ofs + delta
        };
        if n == 0 {
            Some(0)
        } else if n >= len {
            None
        } else {
            other_byte_from(app, n, delta, cur)
        }
    }
}

/// Moves to the next byte (or, with a negative `delta`, the previous one) that
/// differs from the byte under the cursor, stepping `delta` bytes at a time;
/// a backwards walk that reaches the start stops there. Returns `false` when
/// the cursor is past the end of the file.
pub fn goto_other_byte(app: &mut App, delta: isize) -> (done: bool)
    requires
        delta != 0,
    ensures
        done == (old(app).hex_view.offset < old(app).file_info.buffer@.len()),
        !done ==> *final(app) == *old(app),
        done ==> match other_byte_from(
            *old(app),
            old(app).hex_view.offset as int,
            delta as int,
            displayed(*old(app), old(app).hex_view.offset),
        ) {
            Some(t) => view_went(*old(app), *final(app), t as usize),
            None => view_stayed(*old(app), *final(app)),
        },
        final(app).hex_view.same_but_offset(old(app).hex_view),
        final(app).same_but_view(*old(app)),
{
    let start = app.hex_view.offset;
    let cur = match app.read_u8(start) {
        Some(b) => b,
        None => return false,
    };
    let len = app.file_info.buffer.len();
    let mut ofs = start;
    let ghost a = *app;
    while ofs < len
        invariant
            *app == a,
            a == *old(app),
            len == a.file_info.buffer@.len(),
            start < len,
            start == a.hex_view.offset,
            delta != 0,
            other_byte_from(a, start as int, delta as int, cur) == other_byte_from(a, ofs as int, delta as int, cur),
            cur == displayed(a, start),
        decreases (if delta > 0 { len - ofs } else { ofs as int }),
    {
        let b = crate::hex::edit::displayed_byte(app, ofs);
        if b != cur {
            app.goto(ofs);
            return true;
        }
        let next: usize = if delta < 0 {
            let back: usize = if delta == isize::MIN { (isize::MAX as usize) + 1 } else { (0 - delta) as usize };
            if ofs >= back { ofs - back } else { 0 }
        } else {
            let fwd: usize = delta as usize;
            if fwd > usize::MAX - ofs { usize::MAX } else { ofs + fwd }
        };
        if next == 0 {
            app.goto(0);
            return true;
        }
        if next >= len {
            return true;
        }
        ofs = next;
    }
    true
}

// ---------------------------------------------------------------------------
// Pasting
// ---------------------------------------------------------------------------

/// The label of the encoding a paste into the focused column uses: the second
/// encoding in its column, the primary one elsewhere.
pub open spec fn paste_label(app: App) -> Seq<char> {
    if app.hex_view.editing_target == EditingTarget::Enc2 {
        enc2_label(app)
    } else {
        app.enc1@
    }
}

/// The pending edits `m` and the undo history additions after staging `b[i]`
/// at `lo + i` for every `i < n` (offsets from `size` on are not staged).
pub open spec fn pasted(m: Map<usize, u8>, lo: usize, b: Seq<u8>, n: nat, size: usize) -> (Map<usize, u8>, Seq<usize>)
    decreases n,
{
    if n == 0 {
        (m, seq![])
    } else {
        let (pm, ph) = pasted(m, lo, b, (n - 1) as nat, size);
        let k = (lo + n - 1) as usize;
        if k < size {
            (pm.insert(k, b[n - 1]), if pm.contains_key(k) { ph } else { ph.push(k) })
        } else {
            (pm, ph)
        }
    }
}

/// How many pasted bytes fit between `start` and the end of a file of `len`
/// bytes.
pub open spec fn paste_count(start: usize, b: Seq<u8>, len: nat) -> nat {
    if start >= len {
        0
    } else {
        min_int(b.len() as int, len - start) as nat
    }
}

/// Pastes `text` at the cursor (see `pasted_bytes`), staging as many bytes
/// as fit before the end of the file, moving past them and logging the
/// count. A read-only file refuses; text that gives no bytes returns `false`.
pub fn paste_text(app: &mut App, text: &str) -> (done: bool)
    ensures
        old(app).file_info.is_read_only ==> !done && error_shown(
            *old(app),
            *final(app),
            M::RoPaste.text(old(app).config.lang),
        ),
        !old(app).file_info.is_read_only ==> {
            let b = pasted_bytes(text@, paste_label(*old(app)));
            let start = old(app).hex_view.offset;
            let len = old(app).file_info.buffer@.len();
            let n = paste_count(start, b, len);
            let m = old(app).hex_view.changed_bytes@;
            &&& done == (b.len() > 0)
            &&& final(app).hex_view.changed_bytes@ == pasted(m, start, b, n, old(app).file_info.size).0
            &&& final(app).hex_view.changed_history@ == old(app).hex_view.changed_history@ + pasted(m, start, b, n, old(app).file_info.size).1
            &&& final(app).hex_view.redo_history == old(app).hex_view.redo_history
            &&& n > 0 ==> {
                &&& view_went(*old(app), *final(app), min_int(start + n, len - 1) as usize)
                &&& final(app).logs@ == old(app).logs@.push(final(app).logs@.last())
                &&& final(app).logs@.last()@ == "Pasted "@ + dec_digits(n) + " byte(s) from clipboard at "@
                    + hex_0x(start as nat)
            }
            &&& n == 0 ==> final(app).hex_view.offset == start && final(app).logs == old(app).logs
            &&& final(app).state == old(app).state
        },
        final(app).file_info == old(app).file_info,
        final(app).config == old(app).config,
{
    if app.file_info.is_read_only {
        app.read_only_error(M::RoPaste);
        return false;
    }
    let label = match app.hex_view.editing_target {
        EditingTarget::Enc2 => match &app.hex_view.enc2 {
            Some(l) => string_from(l.as_str()),
            None => string_from("UTF-8"),
        },
        _ => string_from(app.enc1.as_str()),
    };
    let bytes = parse_hex_or_text_bytes(text, label.as_str());
    if bytes.len() == 0 {
        return false;
    }
    let start = app.hex_view.offset;
    let len = app.file_info.buffer.len();
    let n: usize = if start >= len {
        0
    } else if bytes.len() < len - start {
        bytes.len()
    } else {
        len - start
    };
    let ghost a = *app;
    let mut i: usize = 0;
    assert(a.hex_view.changed_history@ + Seq::<usize>::empty() =~= a.hex_view.changed_history@);
    while i < n
        invariant
            i <= n,
            n == paste_count(start, bytes@, len as nat),
            n > 0 ==> start + n <= len,
            len == a.file_info.buffer@.len(),
            app.hex_view.changed_bytes@ == pasted(a.hex_view.changed_bytes@, start, bytes@, i as nat, a.file_info.size).0,
            app.hex_view.changed_history@ == a.hex_view.changed_history@ + pasted(a.hex_view.changed_bytes@, start, bytes@, i as nat, a.file_info.size).1,
            app.hex_view.redo_history == a.hex_view.redo_history,
            app.hex_view.nibble_pending == a.hex_view.nibble_pending,
            app.hex_view.same_but_edits(a.hex_view),
            app.same_but_hex_view(a),
        decreases n - i,
    {
        let k = start + i;
        record_edit(app, k, bytes[i]);
        i = i + 1;
        assert(app.hex_view.changed_history@ =~= a.hex_view.changed_history@ + pasted(
            a.hex_view.changed_bytes@,
            start,
            bytes@,
            i as nat,
            a.file_info.size,
        ).1);
    }
    if n > 0 {
        let last = len - 1;
        let target = if start + n < last { start + n } else { last };
        app.goto(target);
        let mut msg = string_from("Pasted ");
        push_dec(&mut msg, n as u64);
        push_str(&mut msg, " byte(s) from clipboard at ");
        push_0x(&mut msg, start as u64);
        proof {
            reveal_strlit("Pasted ");
            reveal_strlit(" byte(s) from clipboard at ");
        }
        app.log(msg);
    }
    true
}

// ---------------------------------------------------------------------------
// Marking and walking blocks
// ---------------------------------------------------------------------------

/// The log line for a block mark: which end, the offset and the block's size.
pub open spec fn mark_message(start: bool, ofs: usize, size: nat) -> Seq<char> {
    (if start { "Block start at "@ } else { "Block end at "@ }) + hex_0x(ofs as nat) + " ("@ + dec_digits(size)
        + " byte(s))"@
}

/// What `[` does.
pub open spec fn mark_start_post(a: App, b: App) -> bool {
    &&& ({
                let ofs = a.hex_view.offset;
                let end = if a.hex_view.selection.end < ofs { ofs } else { a.hex_view.selection.end };
                &&& b.hex_view.selection.start == ofs
                &&& b.hex_view.selection.end == end
                &&& b.hex_view.selection.direction is None
                &&& !b.hex_view.selection.is_mouse
                &&& b.hex_view.selection_target == a.hex_view.editing_target
                &&& b.hex_view.shift_anchor is None
                &&& b.hex_view == (HexView {
                    selection: b.hex_view.selection,
                    selection_target: b.hex_view.selection_target,
                    shift_anchor: None,
                    ..a.hex_view
                })
                &&& b.logs@ == a.logs@.push(b.logs@.last())
                &&& b.logs@.last()@ == mark_message(true, ofs, (end - ofs + 1) as nat)
                &&& b == (App { hex_view: b.hex_view, logs: b.logs, ..a })
            })
}

/// Sets the start of the marked block at the cursor (`[`), pulling the end
/// along when it lay before; the block belongs to the focused column.
pub fn mark_block_start(app: &mut App)
    requires
        old(app).hex_view.selection.end >= old(app).hex_view.offset ==> old(app).hex_view.selection.end
            - old(app).hex_view.offset < usize::MAX,
    ensures
        mark_start_post(*old(app), *final(app)),
{
    let ofs = app.hex_view.offset;
    app.hex_view.selection.start = ofs;
    if app.hex_view.selection.end < ofs {
        app.hex_view.selection.end = ofs;
    }
    app.hex_view.selection.direction = None;
    app.hex_view.selection.is_mouse = false;
    app.hex_view.selection_target = app.hex_view.editing_target;
    app.hex_view.shift_anchor = None;
    let len = app.hex_view.selection.end - app.hex_view.selection.start;
    let mut msg = string_from("Block start at ");
    push_0x(&mut msg, ofs as u64);
    push_str(&mut msg, " (");
    push_dec(&mut msg, (len + 1) as u64);
    push_str(&mut msg, " byte(s))");
    proof {
        reveal_strlit("Block start at ");
        reveal_strlit(" (");
        reveal_strlit(" byte(s))");
    }
    app.log(msg);
}

/// What `]` does.
pub open spec fn mark_end_post(a: App, b: App) -> bool {
    &&& ({
                let ofs = a.hex_view.offset;
                let start = if a.hex_view.selection.start > ofs { ofs } else { a.hex_view.selection.start };
                &&& b.hex_view.selection.start == start
                &&& b.hex_view.selection.end == ofs
                &&& b.hex_view.selection.direction is None
                &&& !b.hex_view.selection.is_mouse
                &&& b.hex_view.selection_target == a.hex_view.editing_target
                &&& b.hex_view.shift_anchor is None
                &&& b.hex_view == (HexView {
                    selection: b.hex_view.selection,
                    selection_target: b.hex_view.selection_target,
                    shift_anchor: None,
                    ..a.hex_view
                })
                &&& b.logs@ == a.logs@.push(b.logs@.last())
                &&& b.logs@.last()@ == mark_message(false, ofs, (ofs - start + 1) as nat)
                &&& b == (App { hex_view: b.hex_view, logs: b.logs, ..a })
            })
}

/// Sets the end of the marked block at the cursor (`]`), pulling the start
/// along when it lay after.
pub fn mark_block_end(app: &mut App)
    requires
        old(app).hex_view.offset >= old(app).hex_view.selection.start ==> old(app).hex_view.offset
            - old(app).hex_view.selection.start < usize::MAX,
    ensures
        mark_end_post(*old(app), *final(app)),
{
    let ofs = app.hex_view.offset;
    app.hex_view.selection.end = ofs;
    if app.hex_view.selection.start > ofs {
        app.hex_view.selection.start = ofs;
    }
    app.hex_view.selection.direction = None;
    app.hex_view.selection.is_mouse = false;
    app.hex_view.selection_target = app.hex_view.editing_target;
    app.hex_view.shift_anchor = None;
    let len = app.hex_view.selection.end - app.hex_view.selection.start;
    let mut msg = string_from("Block end at ");
    push_0x(&mut msg, ofs as u64);
    push_str(&mut msg, " (");
    push_dec(&mut msg, (len + 1) as u64);
    push_str(&mut msg, " byte(s))");
    proof {
        reveal_strlit("Block end at ");
        reveal_strlit(" (");
        reveal_strlit(" byte(s))");
    }
    app.log(msg);
}

/// Where Alt+[ goes when nothing is marked: walking the blocks from the last
/// one back, the first end before the cursor, or the first start before it.
pub open spec fn block_boundary_before(blocks: Seq<ColoredBlock>, ofs: usize, k: int) -> Option<usize>
    decreases k,
{
    if k <= 0 || k > blocks.len() {
        None
    } else {
        let b = blocks[k - 1];
        if b.end < ofs {
            Some(b.end)
        } else if b.start < ofs {
            Some(b.start)
        } else {
            block_boundary_before(blocks, ofs, k - 1)
        }
    }
}

/// Where Alt+] goes when nothing is marked: walking the blocks in order, the
/// first start after the cursor, or the first end after it.
pub open spec fn block_boundary_after(blocks: Seq<ColoredBlock>, ofs: usize, k: int) -> Option<usize>
    decreases blocks.len() - k,
{
    if k < 0 || k >= blocks.len() {
        None
    } else {
        let b = blocks[k];
        if b.start > ofs {
            Some(b.start)
        } else if b.end > ofs {
            Some(b.end)
        } else {
            block_boundary_after(blocks, ofs, k + 1)
        }
    }
}

/// What Alt+[ does.
pub open spec fn jump_start_post(a: App, b: App) -> bool {
    &&& ({
                let sel = a.hex_view.selection;
                let t = if sel.start != sel.end {
                    Some(sel.start)
                } else {
                    block_boundary_before(a.hex_view.blocks@, a.hex_view.offset, a.hex_view.blocks@.len() as int)
                };
                &&& match t {
                    Some(o) => view_went(a, b, o),
                    None => view_stayed(a, b),
                }
                &&& b.hex_view.same_but_offset(a.hex_view)
                &&& b.same_but_view(a)
            })
}

/// Alt+[: to the start of the marked block, or else to the nearest coloured
/// block boundary before the cursor.
pub fn jump_block_start(app: &mut App)
    ensures
        jump_start_post(*old(app), *final(app)),
{
    if app.hex_view.selection.start != app.hex_view.selection.end {
        let t = app.hex_view.selection.start;
        app.goto(t);
        return;
    }
    let ofs = app.hex_view.offset;
    let mut k = app.hex_view.blocks.len();
    while k > 0
        invariant
            k <= app.hex_view.blocks@.len(),
            *app == *old(app),
            old(app).hex_view.selection.start == old(app).hex_view.selection.end,
            ofs == app.hex_view.offset,
            block_boundary_before(app.hex_view.blocks@, ofs, app.hex_view.blocks@.len() as int)
                == block_boundary_before(app.hex_view.blocks@, ofs, k as int),
        decreases k,
    {
        let b_end = app.hex_view.blocks[k - 1].end;
        let b_start = app.hex_view.blocks[k - 1].start;
        if b_end < ofs {
            app.goto(b_end);
            return;
        } else if b_start < ofs {
            app.goto(b_start);
            return;
        }
        k = k - 1;
    }
}

/// What Alt+] does.
pub open spec fn jump_end_post(a: App, b: App) -> bool {
    &&& ({
                let sel = a.hex_view.selection;
                let t = if sel.start != sel.end {
                    Some(sel.end)
                } else {
                    block_boundary_after(a.hex_view.blocks@, a.hex_view.offset, 0)
                };
                &&& match t {
                    Some(o) => view_went(a, b, o),
                    None => view_stayed(a, b),
                }
                &&& b.hex_view.same_but_offset(a.hex_view)
                &&& b.same_but_view(a)
            })
}

/// Alt+]: to the end of the marked block, or else to the nearest coloured
/// block boundary after the cursor.
pub fn jump_block_end(app: &mut App)
    ensures
        jump_end_post(*old(app), *final(app)),
{
    if app.hex_view.selection.start != app.hex_view.selection.end {
        let t = app.hex_view.selection.end;
        app.goto(t);
        return;
    }
    let ofs = app.hex_view.offset;
    let n = app.hex_view.blocks.len();
    let mut k: usize = 0;
    while k < n
        invariant
            k <= n,
            n == app.hex_view.blocks@.len(),
            *app == *old(app),
            old(app).hex_view.selection.start == old(app).hex_view.selection.end,
            ofs == app.hex_view.offset,
            block_boundary_after(app.hex_view.blocks@, ofs, 0) == block_boundary_after(app.hex_view.blocks@, ofs, k as int),
        decreases n - k,
    {
        let b_end = app.hex_view.blocks[k].end;
        let b_start = app.hex_view.blocks[k].start;
        if b_start > ofs {
            app.goto(b_start);
            return;
        } else if b_end > ofs {
            app.goto(b_end);
            return;
        }
        k = k + 1;
    }
}

/// What extending a Shift-selection to `target` does.
pub open spec fn shift_select_post(a: App, b: App, target: usize) -> bool {
    &&& ({
                let anchor = match a.hex_view.shift_anchor {
                    Some(a) => a,
                    None => a.hex_view.offset,
                };
                &&& b.hex_view.shift_anchor == Some(anchor)
                &&& b.hex_view.selection.start == if anchor <= target { anchor } else { target }
                &&& b.hex_view.selection.end == if anchor <= target { target } else { anchor }
                &&& b.hex_view.selection.direction is None
                &&& !b.hex_view.selection.is_mouse
                &&& b.hex_view.selection_target == a.hex_view.editing_target
                &&& view_went(a, b, target)
                &&& b.hex_view == (HexView {
                    selection: b.hex_view.selection,
                    selection_target: b.hex_view.selection_target,
                    shift_anchor: b.hex_view.shift_anchor,
                    offset: b.hex_view.offset,
                    cursor: b.hex_view.cursor,
                    ..a.hex_view
                })
                &&& b.same_but_view(a)
            })
}

/// Extends a Shift-selection to `target`: the anchor is where the selection
/// started (the cursor, if none had), the block runs between anchor and
/// target in the focused column, and the cursor moves to `target`.
pub fn shift_select(app: &mut App, target: usize)
    ensures
        shift_select_post(*old(app), *final(app), target),
{
    let anchor = match app.hex_view.shift_anchor {
        Some(a) => a,
        None => app.hex_view.offset,
    };
    app.hex_view.shift_anchor = Some(anchor);
    app.hex_view.selection_target = app.hex_view.editing_target;
    app.hex_view.selection.start = if anchor <= target { anchor } else { target };
    app.hex_view.selection.end = if anchor <= target { target } else { anchor };
    app.hex_view.selection.direction = None;
    app.hex_view.selection.is_mouse = false;
    app.goto(target);
}

/// What Alt+H does.
pub open spec fn highlight_post(a: App, b: App) -> bool {
    &&& match shown_byte(&a, a.hex_view.offset as int) {
        Some(v) => forall|x: u8| #[trigger] b.hex_view.highlights@.contains(x) == if x == v {
            !a.hex_view.highlights@.contains(v)
        } else {
            a.hex_view.highlights@.contains(x)
        },
        None => b.hex_view.highlights == a.hex_view.highlights,
    }
    &&& b.hex_view == (HexView { highlights: b.hex_view.highlights, ..a.hex_view })
    &&& b == (App { hex_view: b.hex_view, ..a })
}

/// Alt+H: the value of the byte under the cursor joins the highlighted
/// values, or leaves them if it was there. Nothing happens past the end of
/// the file.
pub fn toggle_highlight(app: &mut App)
    ensures
        highlight_post(*old(app), *final(app)),
{
    let ofs = app.hex_view.offset;
    match app.read_u8(ofs) {
        Some(b) => {
            let n = app.hex_view.highlights.len();
            let mut kept: Vec<u8> = Vec::new();
            let mut found = false;
            let mut i: usize = 0;
            while i < n
                invariant
                    i <= n,
                    n == app.hex_view.highlights@.len(),
                    *app == *old(app),
                    found == app.hex_view.highlights@.take(i as int).contains(b),
                    forall|x: u8| #[trigger] kept@.contains(x) == (x != b && app.hex_view.highlights@.take(i as int).contains(x)),
                decreases n - i,
            {
                let v = app.hex_view.highlights[i];
                proof {
                    broadcast use vstd::seq_lib::lemma_seq_contains_after_push;
                    assert(app.hex_view.highlights@.take(i + 1) =~= app.hex_view.highlights@.take(i as int).push(v));
                }
                if v == b {
                    found = true;
                } else {
                    kept.push(v);
                }
                i = i + 1;
                proof {
                    broadcast use vstd::seq_lib::lemma_seq_contains_after_push;
                }
            }
            assert(app.hex_view.highlights@.take(n as int) =~= app.hex_view.highlights@);
            if !found {
                kept.push(b);
                proof {
                    broadcast use vstd::seq_lib::lemma_seq_contains_after_push;
                }
            }
            app.hex_view.highlights = kept;
        },
        None => {},
    }
}

/// Toggling the highlight of the byte under the cursor twice leaves the
/// highlighted values, and everything else, as they were.
pub proof fn law_highlight_twice(a: App, b: App, c: App, x: u8)
    requires
        highlight_post(a, b),
        highlight_post(b, c),
    ensures
        c.hex_view.highlights@.contains(x) == a.hex_view.highlights@.contains(x),
        c == (App { hex_view: HexView { highlights: c.hex_view.highlights, ..a.hex_view }, ..a }),
{
    assert(shown_byte(&b, b.hex_view.offset as int) == shown_byte(&a, a.hex_view.offset as int));
}

/// Whether `b` is an ASCII letter, and the same letter in the other case.
pub open spec fn case_flipped(b: u8) -> Option<u8> {
    if 0x61 <= b && b <= 0x7A {
        Some((b - 32) as u8)
    } else if 0x41 <= b && b <= 0x5A {
        Some((b + 32) as u8)
    } else {
        None
    }
}

/// Flipping the case of the letters shown at `lo..lo + n`: the pending edits,
/// the offsets that join the undo history, and how many letters there were.
pub open spec fn case_toggled(a: App, lo: usize, n: nat) -> (Map<usize, u8>, Seq<usize>, nat)
    decreases n,
{
    if n == 0 {
        (a.hex_view.changed_bytes@, seq![], 0)
    } else {
        let (m, h, c) = case_toggled(a, lo, (n - 1) as nat);
        let k = (lo + n - 1) as usize;
        match case_flipped(displayed(a, k)) {
            Some(f) => if k < a.file_info.size {
                (m.insert(k, f), if m.contains_key(k) { h } else { h.push(k) }, c + 1)
            } else {
                (m, h, c + 1)
            },
            None => (m, h, c),
        }
    }
}

/// The number of offsets of the selection `lo..=hi` inside a file of `len`
/// bytes.
pub open spec fn sel_in_file(lo: usize, hi: usize, len: nat) -> nat {
    if lo > hi || lo >= len {
        0
    } else {
        (min_int(hi as int, len - 1) - lo + 1) as nat
    }
}

/// What flipping the case of every letter in the selection does: the pending
/// edits and history `case_toggled` gives, and how many letters there were.
pub open spec fn flip_selection_post(a: App, b: App, count: usize) -> bool {
    &&& selection_flipped(a, b)
    &&& count == flipped_count(a)
}

/// How many letters the selection shows.
pub open spec fn flipped_count(a: App) -> nat {
    let lo = a.hex_view.selection.start;
    case_toggled(a, lo, sel_in_file(lo, a.hex_view.selection.end, a.file_info.buffer@.len())).2
}

/// What flipping the case of the selection does to the editor.
pub open spec fn selection_flipped(a: App, b: App) -> bool {
    let lo = a.hex_view.selection.start;
    let n = sel_in_file(lo, a.hex_view.selection.end, a.file_info.buffer@.len());
    let (m, h, c) = case_toggled(a, lo, n);
    &&& b.hex_view.changed_bytes@ == m
    &&& b.hex_view.changed_history@ == a.hex_view.changed_history@ + h
    &&& b.hex_view.redo_history == a.hex_view.redo_history
    &&& b.hex_view.nibble_pending == a.hex_view.nibble_pending
    &&& b.hex_view.same_but_edits(a.hex_view)
    &&& b.same_but_hex_view(a)
}

/// Flips the case of every ASCII letter shown in the selection
/// (`start..=end`, inside the file), staging the flipped bytes; returns how
/// many letters it flipped.
pub fn flip_selection_case(app: &mut App) -> (count: usize)
    ensures
        flip_selection_post(*old(app), *final(app), count),
{
    let lo = app.hex_view.selection.start;
    let hi = app.hex_view.selection.end;
    let len = app.file_info.buffer.len();
    let n: usize = if lo > hi || lo >= len {
        0
    } else {
        (if hi < len - 1 { hi } else { len - 1 }) - lo + 1
    };
    let ghost a = *app;
    let mut count: usize = 0;
    let mut i: usize = 0;
    assert(a.hex_view.changed_history@ + Seq::<usize>::empty() =~= a.hex_view.changed_history@);
    while i < n
        invariant
            i <= n,
            n == sel_in_file(lo, hi, len as nat),
            n > 0 ==> lo + n <= len,
            len == a.file_info.buffer@.len(),
            lo == a.hex_view.selection.start,
            ({
                let (m, h, c) = case_toggled(a, lo, i as nat);
                &&& app.hex_view.changed_bytes@ == m
                &&& app.hex_view.changed_history@ == a.hex_view.changed_history@ + h
                &&& count == c
            }),
            count <= i,
            forall|k: usize| lo + i <= k < lo + n ==> (#[trigger] app.hex_view.changed_bytes@.contains_key(k)) == a.hex_view.changed_bytes@.contains_key(k)
                && (a.hex_view.changed_bytes@.contains_key(k) ==> app.hex_view.changed_bytes@[k] == a.hex_view.changed_bytes@[k]),
            app.hex_view.same_but_edits(a.hex_view),
            app.hex_view.redo_history == a.hex_view.redo_history,
            app.hex_view.nibble_pending == a.hex_view.nibble_pending,
            app.same_but_hex_view(a),
        decreases n - i,
    {
        let k = lo + i;
        let ghost m_before = app.hex_view.changed_bytes@;
        let b = crate::hex::edit::displayed_byte(app, k);
        assert(b == displayed(a, k));
        let flipped: Option<u8> = if 0x61 <= b && b <= 0x7A {
            Some(b - 32)
        } else if 0x41 <= b && b <= 0x5A {
            Some(b + 32)
        } else {
            None
        };
        match flipped {
            Some(f) => {
                record_edit(app, k, f);
                count = count + 1;
            },
            None => {},
        }
        i = i + 1;
        proof {
            assert forall|j: usize| lo + i <= j < lo + n implies (#[trigger] app.hex_view.changed_bytes@.contains_key(j))
                == a.hex_view.changed_bytes@.contains_key(j) && (a.hex_view.changed_bytes@.contains_key(j)
                ==> app.hex_view.changed_bytes@[j] == a.hex_view.changed_bytes@[j]) by {
                assert(j != k);
                assert(m_before.contains_key(j) == a.hex_view.changed_bytes@.contains_key(j));
            }
            let (m, h, c) = case_toggled(a, lo, i as nat);
            assert(app.hex_view.changed_bytes@ =~= m);
            assert(app.hex_view.changed_history@ =~= a.hex_view.changed_history@ + h);
        }
    }
    count
}

/// What a byte shows once its case is flipped: the other case of a letter,
/// anything else as it was.
pub open spec fn flip_or_keep(x: u8) -> u8 {
    match case_flipped(x) {
        Some(f) => f,
        None => x,
    }
}

/// The byte shown at `k` with pending edits `m` over the bytes `buf`.
pub open spec fn shown_with(m: Map<usize, u8>, buf: Seq<u8>, k: usize) -> u8 {
    if m.contains_key(k) {
        m[k]
    } else if k < buf.len() {
        buf[k as int]
    } else {
        0
    }
}

proof fn lemma_case_toggled_shows(a: App, lo: usize, n: nat, k: usize)
    requires
        n > 0 ==> lo + n <= a.file_info.buffer@.len(),
        lo + n <= usize::MAX + 1,
    ensures
        shown_with(case_toggled(a, lo, n).0, a.file_info.buffer@, k) == if lo <= k < lo + n && k < a.file_info.size {
            flip_or_keep(displayed(a, k))
        } else {
            displayed(a, k)
        },
    decreases n,
{
    if n > 0 {
        lemma_case_toggled_shows(a, lo, (n - 1) as nat, k);
    }
}

proof fn lemma_case_toggled_count(a: App, b: App, lo: usize, n: nat)
    requires
        lo + n <= usize::MAX + 1,
        forall|k: usize| lo <= k < lo + n ==> (case_flipped(#[trigger] displayed(a, k)) is Some) == (case_flipped(displayed(b, k)) is Some),
    ensures
        case_toggled(a, lo, n).2 == case_toggled(b, lo, n).2,
    decreases n,
{
    if n > 0 {
        lemma_case_toggled_count(a, b, lo, (n - 1) as nat);
        let k = (lo + n - 1) as usize;
        assert(lo <= k < lo + n);
    }
}

/// Flipping the case of the selection twice shows every byte as it was, and
/// both flips count the same letters.
pub proof fn law_flip_case_twice(a: App, b: App, c: App, first: usize, second: usize, k: usize)
    requires
        flip_selection_post(a, b, first),
        flip_selection_post(b, c, second),
    ensures
        displayed(c, k) == displayed(a, k),
        first == second,
{
    let lo = a.hex_view.selection.start;
    let n = sel_in_file(lo, a.hex_view.selection.end, a.file_info.buffer@.len());
    assert forall|j: usize| #![auto] displayed(b, j) == if lo <= j < lo + n && j < a.file_info.size {
        flip_or_keep(displayed(a, j))
    } else {
        displayed(a, j)
    } by {
        lemma_case_toggled_shows(a, lo, n, j);
    }
    assert forall|j: usize| #![auto] displayed(c, j) == if lo <= j < lo + n && j < a.file_info.size {
        flip_or_keep(displayed(b, j))
    } else {
        displayed(b, j)
    } by {
        lemma_case_toggled_shows(b, lo, n, j);
    }
    assert forall|j: usize| lo <= j < lo + n implies (case_flipped(#[trigger] displayed(a, j)) is Some) == (case_flipped(displayed(b, j)) is Some) by {
        assert(displayed(b, j) == if j < a.file_info.size { flip_or_keep(displayed(a, j)) } else { displayed(a, j) });
    }
    lemma_case_toggled_count(a, b, lo, n);
}

/// What `~` does, `done` telling whether anything was flipped.
pub open spec fn toggle_case_post(a: App, b: App, done: bool) -> bool {
    &&& a.file_info.is_read_only ==> !done && error_shown(a, b, M::RoCase.text(a.config.lang))
    &&& !a.file_info.is_read_only && a.hex_view.selection.start != a.hex_view.selection.end ==> {
                let lo = a.hex_view.selection.start;
                let n = sel_in_file(lo, a.hex_view.selection.end, a.file_info.buffer@.len());
                let (m, h, c) = case_toggled(a, lo, n);
                &&& done
                &&& b.hex_view.changed_bytes@ == m
                &&& b.hex_view.changed_history@ == a.hex_view.changed_history@ + h
                &&& b.hex_view.selection.start == 0 && b.hex_view.selection.end == 0
                &&& b.hex_view.shift_anchor is None
                &&& b.logs@ == a.logs@.push(b.logs@.last())
                &&& b.logs@.last()@ == "Toggled case of "@ + dec_digits(c) + " byte(s) in selection"@
            }
    &&& !a.file_info.is_read_only && a.hex_view.selection.start == a.hex_view.selection.end ==> {
                let ofs = a.hex_view.offset;
                &&& done == (case_flipped(displayed(a, ofs)) is Some)
                &&& !done ==> b == a
                &&& done ==> {
                    &&& staged(a, b, ofs, case_flipped(displayed(a, ofs))->0)
                    &&& view_went(a, b, (ofs + 1) as usize)
                }
            }
    &&& b.file_info == a.file_info
    &&& b.config == a.config
}

/// `~`: with a selection, flips the case of every ASCII letter in it (pending
/// edits included), logs how many and drops the selection; without one,
/// flips the letter under the cursor and steps on. A read-only file refuses.
/// Returns `false` when there was nothing to flip under the cursor.
pub fn toggle_case(app: &mut App) -> (done: bool)
    requires
        old(app).hex_view.offset < usize::MAX,
    ensures
        toggle_case_post(*old(app), *final(app), done),
{
    if app.file_info.is_read_only {
        app.read_only_error(M::RoCase);
        return false;
    }
    let lo = app.hex_view.selection.start;
    let hi = app.hex_view.selection.end;
    if lo != hi {
        let count = flip_selection_case(app);
        let mut msg = string_from("Toggled case of ");
        push_dec(&mut msg, count as u64);
        push_str(&mut msg, " byte(s) in selection");
        proof {
            reveal_strlit("Toggled case of ");
            reveal_strlit(" byte(s) in selection");
        }
        app.log(msg);
        app.hex_view.selection.clear();
        app.hex_view.shift_anchor = None;
        return true;
    }
    let ofs = app.hex_view.offset;
    let b = crate::hex::edit::displayed_byte(app, ofs);
    if 0x61 <= b && b <= 0x7A {
        crate::hex::edit::fill_with(app, b - 32, true);
        true
    } else if 0x41 <= b && b <= 0x5A {
        crate::hex::edit::fill_with(app, b + 32, true);
        true
    } else {
        false
    }
}

// ---------------------------------------------------------------------------
// The hex view's keys
// ---------------------------------------------------------------------------

/// What a key in the hex view leaves to the caller: the work only the
/// terminal side can do.
#[derive(PartialEq, Eq, Debug)]
pub enum HexAction {
    Nothing,
    /// Sound the bell: the key had nothing to act on.
    Beep,
    /// Put this text on the clipboard.
    Copy(String),
    /// Read the clipboard and hand its text to `paste_text`.
    Paste,
}

/// What a key in the hex view asks for.
#[derive(Clone, Copy, PartialEq, Eq, Debug, Structural)]
pub enum HexCommand {
    /// Shift with a movement key: extend the selection to this offset.
    SelectTo(usize),
    Goto(usize),
    ToggleHighlight,
    Paste,
    Copy,
    EditData,
    ToggleCase,
    EditMode,
    Strings,
    Names,
    ClearSelection,
    Fill(u8),
    Undo,
    Redo,
    RevertByte,
    Colour,
    MarkStart,
    MarkEnd,
    JumpStart,
    JumpEnd,
    Encoding,
    Encoding2,
    Nothing,
}

/// What a letter or symbol key asks for, given its modifiers.
pub open spec fn char_command(app: App, key: KeyPress, c: char) -> HexCommand {
    if c == 'h' && key.alt {
        HexCommand::ToggleHighlight
    } else if c == 'V' && !key.ctrl && !key.alt {
        HexCommand::Paste
    } else if (c == 'c' || c == 'C') && key.ctrl {
        HexCommand::Copy
    } else if (c == 'e' || c == 'E') && key.ctrl {
        HexCommand::EditData
    } else if c == '~' && app.hex_view.offset < app.file_info.size {
        HexCommand::ToggleCase
    } else if (c == 'n' || c == 'N') && key.alt {
        HexCommand::Names
    } else if (c == 'z' || c == 'Z') && key.ctrl {
        HexCommand::Undo
    } else if (c == 'y' || c == 'Y') && key.ctrl {
        HexCommand::Redo
    } else if c == 'm' && key.alt {
        HexCommand::Colour
    } else if c == '[' {
        if key.alt { HexCommand::JumpStart } else { HexCommand::MarkStart }
    } else if c == ']' {
        if key.alt { HexCommand::JumpEnd } else { HexCommand::MarkEnd }
    } else if (c == 'e' || c == 'E') && key.alt {
        if key.shift || c == 'E' { HexCommand::Encoding2 } else { HexCommand::Encoding }
    } else {
        HexCommand::Nothing
    }
}

/// What a key asks for when it is not a Shift-selection: the cursor keys
/// move (Left and Up only when there is room, End only in a non-empty file),
/// Backspace returns to the last visited offset, and the rest name commands.
pub open spec fn key_command(app: App, key: KeyPress) -> HexCommand {
    let ofs = app.hex_view.offset as int;
    let bpl = app.config.hex_mode_bytes_per_line as int;
    let len = app.file_info.buffer@.len() as int;
    match key.code {
        Key::Left => if ofs > 0 && !key.ctrl {
            HexCommand::Goto((ofs - 1) as usize)
        } else {
            HexCommand::Nothing
        },
        Key::Right => if !key.alt && !key.ctrl {
            HexCommand::Goto((ofs + 1) as usize)
        } else {
            HexCommand::Nothing
        },
        Key::Up => if ofs >= bpl { HexCommand::Goto((ofs - bpl) as usize) } else { HexCommand::Nothing },
        Key::Down => HexCommand::Goto((ofs + bpl) as usize),
        Key::Home => HexCommand::Goto(
            if key.ctrl { 0usize } else { sat_sub(ofs, app.hex_view.cursor.x as int) as usize },
        ),
        Key::End => if len > 0 {
            HexCommand::Goto(
                if key.ctrl {
                    (len - 1) as usize
                } else {
                    min_int(
                        sat_sub(sat_sub(min_int(ofs + bpl, usize::MAX as int), app.hex_view.cursor.x as int), 1),
                        len - 1,
                    ) as usize
                },
            )
        } else {
            HexCommand::Nothing
        },
        Key::PageDown => HexCommand::Goto((ofs + app.reader.page_current_size) as usize),
        Key::PageUp => HexCommand::Goto(sat_sub(ofs, app.reader.page_current_size as int) as usize),
        Key::Backspace => if key.alt {
            HexCommand::Undo
        } else {
            HexCommand::Goto(app.hex_view.last_visited_offset)
        },
        Key::F(n) => if n == 2 && !key.alt {
            HexCommand::EditMode
        } else if n == 3 && key.alt {
            HexCommand::RevertByte
        } else if n == 6 && !key.alt {
            HexCommand::Strings
        } else {
            HexCommand::Nothing
        },
        Key::Esc => HexCommand::ClearSelection,
        Key::Insert => HexCommand::Fill(0),
        Key::Delete => HexCommand::Fill(0x90),
        Key::Char(c) => char_command(app, key, c),
        _ => HexCommand::Nothing,
    }
}

/// What a key asks for: Shift with a movement key extends the selection in
/// a non-empty file; any other key goes by `key_command`.
pub open spec fn command_for(app: App, key: KeyPress) -> HexCommand {
    match movement_spec(app, key) {
        Some(t) => if key.shift && app.file_info.buffer@.len() > 0 {
            HexCommand::SelectTo(t as usize)
        } else {
            key_command(app, key)
        },
        None => key_command(app, key),
    }
}

/// The offsets the keys may compute stay inside `usize`.
pub open spec fn keys_fit(app: App) -> bool {
    app.hex_view.offset + row_len(app) + app.reader.page_current_size < usize::MAX
}

/// Classifies a key in the hex view (see `command_for`).
pub fn hex_command(app: &App, key: KeyPress) -> (c: HexCommand)
    requires
        keys_fit(*app),
    ensures
        c == command_for(*app, key),
{
    match movement_target(app, &key) {
        Some(t) => {
            if key.shift && app.file_info.buffer.len() > 0 {
                return HexCommand::SelectTo(t);
            }
        },
        None => {},
    }
    let ofs = app.hex_view.offset;
    let bpl = app.config.hex_mode_bytes_per_line;
    let len = app.file_info.buffer.len();
    match key.code {
        Key::Left => if ofs > 0 && !key.ctrl {
            HexCommand::Goto(ofs - 1)
        } else {
            HexCommand::Nothing
        },
        Key::Right => if !key.alt && !key.ctrl {
            HexCommand::Goto(ofs + 1)
        } else {
            HexCommand::Nothing
        },
        Key::Up => if ofs >= bpl { HexCommand::Goto(ofs - bpl) } else { HexCommand::Nothing },
        Key::Down => HexCommand::Goto(ofs + bpl),
        Key::Home => {
            let x = app.hex_view.cursor.x;
            HexCommand::Goto(if key.ctrl { 0 } else if ofs >= x { ofs - x } else { 0 })
        },
        Key::End => if len > 0 {
            if key.ctrl {
                HexCommand::Goto(len - 1)
            } else {
                let x = app.hex_view.cursor.x;
                let a = if bpl > usize::MAX - ofs { usize::MAX } else { ofs + bpl };
                let b = if a >= x { a - x } else { 0 };
                let c = if b >= 1 { b - 1 } else { 0 };
                HexCommand::Goto(if c < len - 1 { c } else { len - 1 })
            }
        } else {
            HexCommand::Nothing
        },
        Key::PageDown => HexCommand::Goto(ofs + app.reader.page_current_size),
        Key::PageUp => {
            let p = app.reader.page_current_size;
            HexCommand::Goto(if ofs >= p { ofs - p } else { 0 })
        },
        Key::Backspace => if key.alt {
            HexCommand::Undo
        } else {
            HexCommand::Goto(app.hex_view.last_visited_offset)
        },
        Key::F(n) => if n == 2 && !key.alt {
            HexCommand::EditMode
        } else if n == 3 && key.alt {
            HexCommand::RevertByte
        } else if n == 6 && !key.alt {
            HexCommand::Strings
        } else {
            HexCommand::Nothing
        },
        Key::Esc => HexCommand::ClearSelection,
        Key::Insert => HexCommand::Fill(0),
        Key::Delete => HexCommand::Fill(0x90),
        Key::Char(c) => {
            if c == 'h' && key.alt {
                HexCommand::ToggleHighlight
            } else if c == 'V' && !key.ctrl && !key.alt {
                HexCommand::Paste
            } else if (c == 'c' || c == 'C') && key.ctrl {
                HexCommand::Copy
            } else if (c == 'e' || c == 'E') && key.ctrl {
                HexCommand::EditData
            } else if c == '~' && ofs < app.file_info.size {
                HexCommand::ToggleCase
            } else if (c == 'n' || c == 'N') && key.alt {
                HexCommand::Names
            } else if (c == 'z' || c == 'Z') && key.ctrl {
                HexCommand::Undo
            } else if (c == 'y' || c == 'Y') && key.ctrl {
                HexCommand::Redo
            } else if c == 'm' && key.alt {
                HexCommand::Colour
            } else if c == '[' {
                if key.alt { HexCommand::JumpStart } else { HexCommand::MarkStart }
            } else if c == ']' {
                if key.alt { HexCommand::JumpEnd } else { HexCommand::MarkEnd }
            } else if (c == 'e' || c == 'E') && key.alt {
                if key.shift || c == 'E' { HexCommand::Encoding2 } else { HexCommand::Encoding }
            } else {
                HexCommand::Nothing
            }
        },
        _ => HexCommand::Nothing,
    }
}

/// The selection dropped, Shift anchor included.
pub open spec fn no_selection(h: HexView) -> HexView {
    HexView {
        selection: Selection { start: 0, end: 0, direction: None, is_mouse: false },
        shift_anchor: None,
        ..h
    }
}

/// `b` with the selection and Shift anchor that `m` had.
pub open spec fn with_selection_of(b: App, m: App) -> App {
    App {
        hex_view: HexView {
            selection: m.hex_view.selection,
            shift_anchor: m.hex_view.shift_anchor,
            ..b.hex_view
        },
        ..b
    }
}

/// The state a key acts on: a movement key without Shift drops a
/// Shift-selection first.
pub open spec fn dropped(a: App, key: KeyPress) -> App {
    if movement_spec(a, key) is Some && !(key.shift && a.file_info.buffer@.len() > 0)
        && a.hex_view.shift_anchor is Some {
        App { hex_view: no_selection(a.hex_view), ..a }
    } else {
        a
    }
}

/// An action refused with an error naming it.
pub open spec fn refused(a: App, b: App, what: M) -> bool {
    error_shown(a, b, what.text(a.config.lang))
}

/// The name the log gives an encoding: its canonical name, or the label
/// itself for one `encoding_rs` does not know.
pub open spec fn shown_encoding_name(label: Seq<char>) -> Seq<char> {
    if is_encoding_label(label) {
        encoding_name(label)
    } else {
        label
    }
}

/// What the log says a copy holds, by the column it was made in.
pub open spec fn copied_as(app: App) -> Seq<char> {
    match app.hex_view.selection_target {
        EditingTarget::Hex => "hex bytes"@,
        EditingTarget::Enc1 => shown_encoding_name(app.enc1@) + " text"@,
        EditingTarget::Enc2 => shown_encoding_name(enc2_label(app)) + " text"@,
    }
}

pub(crate) fn encoding_display_name(label: &str) -> (r: String)
    ensures
        r@ == shown_encoding_name(label@),
{
    match canonical_name(label) {
        Some(n) => n,
        None => string_from(label),
    }
}

/// The Edit Data dialog as Ctrl+E opens it from `d`: every field empty, the
/// first one focused, the encoding `label`, the history kept.
pub open spec fn fresh_edit_dialog(e: EditDialog, d: EditDialog, label: Seq<char>) -> bool {
    &&& e.input_enc1.value@.len() == 0 && e.input_enc1.cursor == 0
    &&& e.input_utf8.value@.len() == 0 && e.input_utf8.cursor == 0
    &&& e.input_utf16le.value@.len() == 0 && e.input_utf16le.cursor == 0
    &&& e.input_hex.value@.len() == 0 && e.input_hex.cursor == 0
    &&& e.focus == EditDialogFocus::Enc1
    &&& e.bytes().len() == 0
    &&& e.selection_anchor is None
    &&& e.enc1_label() == label
    &&& e.history.history@ == d.history.history@
    &&& e.history.history_index is None
    &&& e.history.draft is None
}

/// What filling the byte under the cursor with `v` (no selection) does.
pub open spec fn fill_byte_post(m: App, b: App, v: u8) -> bool {
    let c = App { logs: m.logs, ..b };
    &&& staged(m, c, m.hex_view.offset, v)
    &&& c.hex_view.redo_history == m.hex_view.redo_history
    &&& c.hex_view.nibble_pending == m.hex_view.nibble_pending
    &&& c.hex_view.offset == m.hex_view.offset
    &&& c.same_but_hex_view(m)
    &&& b.logs@ == m.logs@.push(b.logs@.last())
    &&& b.logs@.last()@ == "Filled byte at "@ + hex_0x(m.hex_view.offset as nat) + " with 0x"@ + hex2(v)
}

/// What carrying out `cmd` on `m` does, `act` being what is left to the
/// caller. A command whose key finds nothing to act on asks for a beep.
pub open spec fn command_post(m: App, b: App, cmd: HexCommand, act: HexAction) -> bool {
    let ro = m.file_info.is_read_only;
    let sel = m.hex_view.selection;
    match cmd {
        HexCommand::SelectTo(t) => act is Nothing && shift_select_post(m, b, t),
        HexCommand::Goto(t) => {
            &&& act is Nothing
            &&& view_went(m, b, t)
            &&& b.hex_view.same_but_offset(m.hex_view)
            &&& b.same_but_view(m)
        },
        HexCommand::ToggleHighlight => act is Nothing && highlight_post(m, b),
        HexCommand::Paste => if ro {
            act is Nothing && refused(m, b, M::RoPaste)
        } else {
            act is Paste && b == m
        },
        HexCommand::Copy => if sel.start == sel.end {
            act is Nothing && error_shown(m, b, M::ErrNothingSelected.text(m.config.lang))
        } else {
            copy_post(m, b, act)
        },
        HexCommand::EditData => act is Nothing && if ro {
            refused(m, b, M::RoEditData)
        } else {
            &&& fresh_edit_dialog(b.hex_view.edit_dialog, m.hex_view.edit_dialog, m.enc1@)
            &&& b == (App {
                state: UIState::DialogEditData,
                hex_view: HexView { edit_dialog: b.hex_view.edit_dialog, ..m.hex_view },
                ..m
            })
        },
        HexCommand::ToggleCase => (act is Nothing || act is Beep) && toggle_case_post(m, b, !ro && act is Nothing),
        HexCommand::EditMode => act is Nothing && if ro {
            refused(m, b, M::RoEditMode)
        } else if m.hex_view.offset < m.file_info.size {
            b == (App { state: UIState::HexEditing, ..m })
        } else {
            b == m
        },
        HexCommand::Strings => act is Nothing && strings_opened(m, b),
        HexCommand::Names => act is Nothing && b == (App {
            state: UIState::DialogNames,
            hex_view: HexView {
                names_selected: if m.hex_view.names_selected is None {
                    Some(0usize)
                } else {
                    m.hex_view.names_selected
                },
                ..m.hex_view
            },
            ..m
        }),
        HexCommand::ClearSelection => act is Nothing && b == (App { hex_view: no_selection(m.hex_view), ..m }),
        HexCommand::Fill(v) => act is Nothing && if ro {
            refused(m, b, if v == 0 { M::RoFillZero } else { M::RoFillNop })
        } else if sel.start != sel.end {
            fill_selection_post(m, with_selection_of(b, m), v) && b.hex_view == no_selection(b.hex_view)
        } else {
            fill_byte_post(m, b, v)
        },
        HexCommand::Undo => (act is Nothing || act is Beep) && undo_post(m, b, act is Nothing),
        HexCommand::Redo => (act is Nothing || act is Beep) && redo_post(m, b, act is Nothing),
        HexCommand::RevertByte => (act is Nothing || act is Beep) && revert_byte_post(m, b, act is Nothing),
        HexCommand::Colour => {
            &&& act is Nothing
            &&& colour_post(m, with_selection_of(b, m))
            &&& b.hex_view == no_selection(b.hex_view)
        },
        HexCommand::MarkStart => act is Nothing && mark_start_post(m, b),
        HexCommand::MarkEnd => act is Nothing && mark_end_post(m, b),
        HexCommand::JumpStart => act is Nothing && jump_start_post(m, b),
        HexCommand::JumpEnd => act is Nothing && jump_end_post(m, b),
        HexCommand::Encoding => act is Nothing && b == (App { state: UIState::DialogEncoding, ..m }),
        HexCommand::Encoding2 => act is Nothing && b == (App { state: UIState::DialogEncoding2, ..m }),
        HexCommand::Nothing => act is Nothing && b == m,
    }
}

/// Handles a key in the hex view: Shift with a movement key extends the
/// selection; any other key first drops a Shift-selection if it is a
/// movement, then carries out `command_for`. What only the terminal can do
/// (the bell, the clipboard) comes back as the action.
pub fn hex_mode_events(app: &mut App, key: KeyPress) -> (act: HexAction)
    requires
        keys_fit(*old(app)),
        key.code == Key::Insert || key.code == Key::Delete ==> (old(app).hex_view.selection.start
            <= old(app).hex_view.selection.end ==> old(app).hex_view.selection.end
            - old(app).hex_view.selection.start < usize::MAX),
        key.code == Key::Char('[') ==> (old(app).hex_view.selection.end >= old(app).hex_view.offset
            ==> old(app).hex_view.selection.end - old(app).hex_view.offset < usize::MAX),
        key.code == Key::Char(']') ==> (old(app).hex_view.offset >= old(app).hex_view.selection.start
            ==> old(app).hex_view.offset - old(app).hex_view.selection.start < usize::MAX),
    ensures
        command_post(dropped(*old(app), key), *final(app), command_for(*old(app), key), act),
{
    let cmd = hex_command(app, key);
    if !(key.shift && app.file_info.buffer.len() > 0) {
        match movement_target(app, &key) {
            Some(_) => {
                if app.hex_view.shift_anchor.is_some() {
                    app.hex_view.shift_anchor = None;
                    app.hex_view.selection.clear();
                }
            },
            None => {},
        }
    }
    assert(*app == dropped(*old(app), key));
    run_command(app, cmd)
}

fn copy_selection(app: &mut App) -> (act: HexAction)
    ensures
        command_post(*old(app), *final(app), HexCommand::Copy, act),
{
    if app.hex_view.selection.start == app.hex_view.selection.end {
        let message = string_from(M::ErrNothingSelected.tr(app.config.lang));
        app.error(message);
        return HexAction::Nothing;
    }
    copy_block(app)
}

/// What copying the block does: the text goes to the caller for the
/// clipboard, and the log says what it holds.
pub open spec fn copy_post(m: App, b: App, act: HexAction) -> bool {
    &&& act matches HexAction::Copy(s) && selection_copy(m, s@)
    &&& b.logs@ == m.logs@.push(b.logs@.last())
    &&& b.logs@.last()@ == "Selection copied to clipboard as "@ + copied_as(m)
    &&& b == (App { logs: b.logs, ..m })
}

/// Copies the block in the terms of the column it was selected in.
pub fn copy_block(app: &mut App) -> (act: HexAction)
    ensures
        copy_post(*old(app), *final(app), act),
{
    let text = format_selection_for_target(app);
    let what = match app.hex_view.selection_target {
        EditingTarget::Hex => string_from("hex bytes"),
        EditingTarget::Enc1 => {
            let mut w = encoding_display_name(app.enc1.as_str());
            push_str(&mut w, " text");
            w
        },
        EditingTarget::Enc2 => {
            let mut w = match &app.hex_view.enc2 {
                Some(l) => encoding_display_name(l.as_str()),
                None => encoding_display_name("UTF-8"),
            };
            push_str(&mut w, " text");
            w
        },
    };
    let mut msg = string_from("Selection copied to clipboard as ");
    push_str(&mut msg, what.as_str());
    proof {
        reveal_strlit("Selection copied to clipboard as ");
        reveal_strlit("hex bytes");
        reveal_strlit(" text");
    }
    app.log(msg);
    HexAction::Copy(text)
}

pub(crate) fn open_edit_data(app: &mut App) -> (act: HexAction)
    ensures
        command_post(*old(app), *final(app), HexCommand::EditData, act),
{
    if app.file_info.is_read_only {
        app.read_only_error(M::RoEditData);
    } else {
        app.state = UIState::DialogEditData;
        app.hex_view.edit_dialog.reset();
        let label = string_from(app.enc1.as_str());
        app.hex_view.edit_dialog.set_enc1(label.as_str());
    }
    HexAction::Nothing
}

fn fill_at_cursor(app: &mut App, v: u8) -> (act: HexAction)
    requires
        old(app).hex_view.selection.start <= old(app).hex_view.selection.end ==> old(app).hex_view.selection.end
            - old(app).hex_view.selection.start < usize::MAX,
    ensures
        command_post(*old(app), *final(app), HexCommand::Fill(v), act),
{
    if app.file_info.is_read_only {
        app.read_only_error(if v == 0 { M::RoFillZero } else { M::RoFillNop });
        return HexAction::Nothing;
    }
    if app.hex_view.selection.start != app.hex_view.selection.end {
        fill_selection_with(app, v);
        app.hex_view.selection.clear();
        app.hex_view.shift_anchor = None;
    } else {
        fill_with(app, v, false);
        let mut msg = string_from("Filled byte at ");
        push_0x(&mut msg, app.hex_view.offset as u64);
        push_str(&mut msg, " with 0x");
        push_hex2(&mut msg, v);
        proof {
            reveal_strlit("Filled byte at ");
            reveal_strlit(" with 0x");
        }
        app.log(msg);
    }
    HexAction::Nothing
}

/// Carries out `cmd` (see `command_post`).
pub fn run_command(app: &mut App, cmd: HexCommand) -> (act: HexAction)
    requires
        cmd is ToggleCase ==> old(app).hex_view.offset < usize::MAX,
        cmd is Fill ==> (old(app).hex_view.selection.start <= old(app).hex_view.selection.end
            ==> old(app).hex_view.selection.end - old(app).hex_view.selection.start < usize::MAX),
        cmd is MarkStart ==> (old(app).hex_view.selection.end >= old(app).hex_view.offset
            ==> old(app).hex_view.selection.end - old(app).hex_view.offset < usize::MAX),
        cmd is MarkEnd ==> (old(app).hex_view.offset >= old(app).hex_view.selection.start
            ==> old(app).hex_view.offset - old(app).hex_view.selection.start < usize::MAX),
    ensures
        command_post(*old(app), *final(app), cmd, act),
{
    match cmd {
        HexCommand::SelectTo(t) => {
            shift_select(app, t);
            HexAction::Nothing
        },
        HexCommand::Goto(t) => {
            app.goto(t);
            HexAction::Nothing
        },
        HexCommand::ToggleHighlight => {
            toggle_highlight(app);
            HexAction::Nothing
        },
        HexCommand::Paste => {
            if app.file_info.is_read_only {
                app.read_only_error(M::RoPaste);
                HexAction::Nothing
            } else {
                HexAction::Paste
            }
        },
        HexCommand::Copy => copy_selection(app),
        HexCommand::EditData => open_edit_data(app),
        HexCommand::ToggleCase => {
            let done = toggle_case(app);
            if !done && !app.file_info.is_read_only {
                HexAction::Beep
            } else {
                HexAction::Nothing
            }
        },
        HexCommand::EditMode => {
            if app.file_info.is_read_only {
                app.read_only_error(M::RoEditMode);
            } else if app.hex_view.offset < app.file_info.size {
                app.state = UIState::HexEditing;
            }
            HexAction::Nothing
        },
        HexCommand::Strings => {
            Commands::strings(app);
            HexAction::Nothing
        },
        HexCommand::Names => {
            app.state = UIState::DialogNames;
            if app.hex_view.names_selected.is_none() {
                app.hex_view.names_selected = Some(0);
            }
            HexAction::Nothing
        },
        HexCommand::ClearSelection => {
            app.hex_view.selection.clear();
            app.hex_view.shift_anchor = None;
            HexAction::Nothing
        },
        HexCommand::Fill(v) => fill_at_cursor(app, v),
        HexCommand::Undo => {
            if perform_undo(app) { HexAction::Nothing } else { HexAction::Beep }
        },
        HexCommand::Redo => {
            if perform_redo(app) { HexAction::Nothing } else { HexAction::Beep }
        },
        HexCommand::RevertByte => {
            if revert_byte_at_cursor(app) { HexAction::Nothing } else { HexAction::Beep }
        },
        HexCommand::Colour => {
            color_block_at_cursor(app);
            app.hex_view.selection.clear();
            app.hex_view.shift_anchor = None;
            HexAction::Nothing
        },
        HexCommand::MarkStart => {
            mark_block_start(app);
            HexAction::Nothing
        },
        HexCommand::MarkEnd => {
            mark_block_end(app);
            HexAction::Nothing
        },
        HexCommand::JumpStart => {
            jump_block_start(app);
            HexAction::Nothing
        },
        HexCommand::JumpEnd => {
            jump_block_end(app);
            HexAction::Nothing
        },
        HexCommand::Encoding => {
            app.state = UIState::DialogEncoding;
            HexAction::Nothing
        },
        HexCommand::Encoding2 => {
            app.state = UIState::DialogEncoding2;
            HexAction::Nothing
        },
        HexCommand::Nothing => HexAction::Nothing,
    }
}

// ---------------------------------------------------------------------------
// Pasted hex
// ---------------------------------------------------------------------------

proof fn lemma_spaced_plain(s: Seq<char>)
    requires
        forall|k: int| 0 <= k < s.len() ==> #[trigger] s[k] != 'x' && s[k] != 'X' && s[k] != ',',
    ensures
        hex_separators_spaced(s) == s,
    decreases s.len(),
{
    if s.len() > 0 {
        assert(s[0] != ',');
        if s.len() >= 2 {
            assert(s[1] != 'x' && s[1] != 'X');
        }
        let t = s.skip(1);
        assert forall|k: int| 0 <= k < t.len() implies #[trigger] t[k] != 'x' && t[k] != 'X' && t[k] != ',' by {
            assert(t[k] == s[k + 1]);
        }
        lemma_spaced_plain(t);
        assert(seq![s[0]] + t =~= s);
    }
}

proof fn lemma_pair_bytes_of_hex(t: Seq<char>)
    requires
        t.len() % 2 == 0,
        forall|i: int| 0 <= i < t.len() ==> crate::text::is_hex_digit(#[trigger] t[i]),
    ensures
        hex_pair_bytes(t) == Some(crate::text::hex_pair_values(t)),
    decreases t.len(),
{
    if t.len() == 0 {
        assert(crate::text::hex_pair_values(t) =~= Seq::<u8>::empty());
    } else {
        let h = t.take(2);
        let rest = t.skip(2);
        assert forall|i: int| 0 <= i < rest.len() implies crate::text::is_hex_digit(#[trigger] rest[i]) by {
            assert(rest[i] == t[i + 2]);
        }
        lemma_pair_bytes_of_hex(rest);
        assert(h[0] == t[0] && h[1] == t[1]);
        crate::text::lemma_parse_hex_pair(h);
        crate::text::lemma_hex_digit_char(t[0]);
        crate::text::lemma_hex_digit_char(t[1]);
        let v = (crate::text::digit_value(t[0], 16)->0 * 16 + crate::text::digit_value(t[1], 16)->0) as nat;
        assert(crate::text::hex_pair_values(t) =~= seq![v as u8] + crate::text::hex_pair_values(rest));
    }
}

proof fn lemma_paste_token(w: Seq<char>)
    requires
        crate::text::hex_word(w),
    ensures
        token_bytes(w) == Some(crate::text::hex_pair_values(w)),
{
    assert forall|k: int| 0 <= k < w.len() implies (#[trigger] w[k] as u32) < 0x80 by {
        crate::text::lemma_hex_digit_char(w[k]);
    }
    lemma_pair_bytes_of_hex(w);
    assert(is_ascii_seq(w));
    if w.len() == 2 {
        assert(w =~= seq![w[0], w[1]]);
        crate::text::lemma_parse_hex_pair(w);
        assert(crate::text::hex_pair_values(w) =~= seq![
            (crate::text::digit_value(w[0], 16)->0 * 16 + crate::text::digit_value(w[1], 16)->0) as u8,
        ]);
    }
}

/// Pasting a word of an even number of hex digits stages the bytes its digit
/// pairs spell, one byte per pair, whatever the column's encoding; the
/// digits are never taken as text.
pub proof fn law_paste_hex_word(w: Seq<char>, label: Seq<char>)
    requires
        crate::text::hex_word(w),
    ensures
        pasted_bytes(w, label) == crate::text::hex_pair_values(w),
        pasted_bytes(w, label).len() == w.len() / 2,
{
    assert forall|k: int| 0 <= k < w.len() implies !crate::text::is_ws(#[trigger] w[k]) && w[k] != 'x' && w[k] != 'X'
        && w[k] != ',' && (w[k] as u32) < 0x80 by {
        crate::text::lemma_hex_digit_char(w[k]);
    }
    crate::text::lemma_trim_plain(w);
    lemma_spaced_plain(w);
    crate::text::lemma_words_plain(w, w);
    lemma_pair_bytes_of_hex(w);
    let ts = seq![w];
    assert(ts.drop_last() =~= Seq::<Seq<char>>::empty());
    assert(tokens_hex(ts.drop_last()) == Some(Seq::<u8>::empty()));
    assert(ts.last() == w);
    assert(is_ascii_seq(w));
    if w.len() == 2 {
        assert(w =~= seq![w[0], w[1]]);
        crate::text::lemma_parse_hex_pair(w);
        assert(crate::text::hex_pair_values(w) =~= seq![
            (crate::text::digit_value(w[0], 16)->0 * 16 + crate::text::digit_value(w[1], 16)->0) as u8,
        ]);
    }
    assert(token_bytes(w) == Some(crate::text::hex_pair_values(w)));
    assert(Seq::<u8>::empty() + crate::text::hex_pair_values(w) =~= crate::text::hex_pair_values(w));
}

proof fn lemma_spaced_front(w: Seq<char>, sep: char, rest: Seq<char>)
    requires
        crate::text::hex_word(w),
        sep == ',' || sep == ' ',
    ensures
        hex_separators_spaced(w + seq![sep] + rest) == w + seq![' '] + hex_separators_spaced(rest),
    decreases w.len(),
{
    let s = w + seq![sep] + rest;
    crate::text::lemma_hex_digit_char(w[0]);
    if w.len() >= 2 {
        crate::text::lemma_hex_digit_char(w[1]);
    }
    assert(s[0] == w[0]);
    if w.len() == 1 {
        assert(s.skip(1) =~= seq![sep] + rest);
        assert(!(s.len() >= 2 && s[0] == '0' && (s[1] == 'x' || s[1] == 'X')));
        let t = seq![sep] + rest;
        assert(t.skip(1) =~= rest);
        assert(hex_separators_spaced(t) == seq![' '] + hex_separators_spaced(rest));
        assert(w + seq![' '] + hex_separators_spaced(rest) =~= seq![w[0]] + (seq![' '] + hex_separators_spaced(rest)));
    } else {
        assert(s[1] == w[1]);
        let w2 = w.skip(1);
        assert(s.skip(1) =~= w2 + seq![sep] + rest);
        lemma_spaced_front_tail(w2, sep, rest);
        assert(w + seq![' '] + hex_separators_spaced(rest) =~= seq![w[0]] + (w2 + seq![' '] + hex_separators_spaced(rest)));
    }
}

proof fn lemma_spaced_front_tail(w: Seq<char>, sep: char, rest: Seq<char>)
    requires
        w.len() > 0,
        forall|i: int| 0 <= i < w.len() ==> crate::text::is_hex_digit(#[trigger] w[i]),
        sep == ',' || sep == ' ',
    ensures
        hex_separators_spaced(w + seq![sep] + rest) == w + seq![' '] + hex_separators_spaced(rest),
    decreases w.len(),
{
    let s = w + seq![sep] + rest;
    crate::text::lemma_hex_digit_char(w[0]);
    assert(s[0] == w[0]);
    if w.len() == 1 {
        assert(s[1] == sep);
        let t = seq![sep] + rest;
        assert(s.skip(1) =~= t);
        assert(t.skip(1) =~= rest);
        assert(hex_separators_spaced(t) == seq![' '] + hex_separators_spaced(rest));
        assert(w + seq![' '] + hex_separators_spaced(rest) =~= seq![w[0]] + (seq![' '] + hex_separators_spaced(rest)));
    } else {
        crate::text::lemma_hex_digit_char(w[1]);
        assert(s[1] == w[1]);
        let w2 = w.skip(1);
        assert forall|i: int| 0 <= i < w2.len() implies crate::text::is_hex_digit(#[trigger] w2[i]) by {
            assert(w2[i] == w[i + 1]);
        }
        assert(s.skip(1) =~= w2 + seq![sep] + rest);
        lemma_spaced_front_tail(w2, sep, rest);
        assert(w + seq![' '] + hex_separators_spaced(rest) =~= seq![w[0]] + (w2 + seq![' '] + hex_separators_spaced(rest)));
    }
}

/// Pasting two hex words separated by a space or a comma stages the bytes of
/// the first word, then those of the second.
pub proof fn law_paste_two_hex_words(w1: Seq<char>, w2: Seq<char>, sep: char, label: Seq<char>)
    requires
        crate::text::hex_word(w1),
        crate::text::hex_word(w2),
        sep == ',' || sep == ' ',
    ensures
        pasted_bytes(w1 + seq![sep] + w2, label) == crate::text::hex_pair_values(w1) + crate::text::hex_pair_values(w2),
{
    law_paste_hex_word(w1, label);
    law_paste_hex_word(w2, label);
    let s = w1 + seq![sep] + w2;
    assert forall|k: int| 0 <= k < w2.len() implies #[trigger] w2[k] != 'x' && w2[k] != 'X' && w2[k] != ',' && !crate::text::is_ws(w2[k]) by {
        crate::text::lemma_hex_digit_char(w2[k]);
    }
    assert forall|k: int| 0 <= k < w1.len() implies !crate::text::is_ws(#[trigger] w1[k]) by {
        crate::text::lemma_hex_digit_char(w1[k]);
    }
    lemma_spaced_plain(w2);
    lemma_spaced_front_tail(w1, sep, w2);
    // trim keeps the text: both ends are hex digits
    crate::text::lemma_hex_digit_char(w1[0]);
    crate::text::lemma_hex_digit_char(w2[w2.len() - 1]);
    assert(s[0] == w1[0]);
    assert(s[s.len() - 1] == w2[w2.len() - 1]);
    crate::text::lemma_trim_start_skip(s, 0);
    assert(s.skip(0) =~= s);
    crate::text::lemma_trim_end_take(s, s.len() as int);
    assert(s.take(s.len() as int) =~= s);
    assert(crate::text::trim(s) == s);
    crate::text::lemma_words_front(w1, w2);
    crate::text::lemma_words_plain(w2, w2);
    let ts = seq![w1, w2];
    assert(crate::text::words(w1 + seq![' '] + w2) =~= ts);
    assert(ts.drop_last() =~= seq![w1]);
    assert(seq![w1].drop_last() =~= Seq::<Seq<char>>::empty());
    assert(tokens_hex(Seq::<Seq<char>>::empty()) == Some(Seq::<u8>::empty()));
    assert(seq![w1].last() == w1);
    assert(ts.last() == w2);
    assert(Seq::<u8>::empty() + crate::text::hex_pair_values(w1) =~= crate::text::hex_pair_values(w1));
    assert(crate::text::hex_pair_values(w1).len() > 0);
    lemma_paste_token(w1);
    lemma_paste_token(w2);
    assert(tokens_hex(seq![w1]) == Some(crate::text::hex_pair_values(w1)));
    assert(tokens_hex(ts) == Some(crate::text::hex_pair_values(w1) + crate::text::hex_pair_values(w2)));
    assert(hex_separators_spaced(s) == w1 + seq![' '] + w2);
    assert(crate::text::words(hex_separators_spaced(crate::text::trim(s))) == ts);
}

} // verus!
