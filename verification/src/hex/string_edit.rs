//! Replacing a found string in place: the new text is written over the old
//! one in the chosen encoding, and what it leaves of the string's room is
//! zeroed.
use vstd::prelude::*;

use crate::app::{error_shown, App, UIState};
use crate::codec::{encode_text, is_encoding_label, text_bytes};
use crate::hex::edit::{displayed, record_edit};
use crate::hex::events::{pasted, HexAction, Key, KeyPress};
use crate::hex::field_box::{input_edit, input_edit_for, input_edited, TextInput};
use crate::hex::hex_view::HexView;
use crate::hex::strings::{next_encoding, row_text, zeros_from, StringEdit, StringEncoding};
use crate::hex::strings_list::{chosen_string, shown_address};
use crate::i18n::{fill, fill_spec, M};
use crate::text::{chars_of, dec_digits, hex_digits, push_dec, push_hex, string_from};

verus! {

/// The encoding a string is first rewritten in: that of the scan, except
/// that an ASCII scan offers CP949.
pub open spec fn first_encoding(e: StringEncoding) -> StringEncoding {
    if e == StringEncoding::Ascii { StringEncoding::Cp949 } else { e }
}

/// The zeros after `offset` that the string may grow into (see
/// `count_trailing_zeros`).
pub open spec fn spare_zeros(buf: Seq<u8>, offset: int, utf16: bool) -> int {
    let z = zeros_from(buf, offset, 0);
    if utf16 { z - z % 2 } else { z as int }
}

/// The label of the encoding text is written in.
pub open spec fn write_label(e: StringEncoding) -> Seq<char> {
    match e {
        StringEncoding::Ascii => "UTF-8"@,
        StringEncoding::Utf8 => "UTF-8"@,
        StringEncoding::Cp949 => "EUC-KR"@,
        StringEncoding::Cp936 => "GBK"@,
        StringEncoding::Utf16 => "UTF-16LE"@,
    }
}

/// A closed box.
pub open spec fn fresh_string_edit(e: StringEdit) -> bool {
    &&& e.offset == 0
    &&& e.budget == 0
    &&& e.total_capacity == 0
    &&& e.row == 0
    &&& e.encoding == StringEncoding::Ascii
    &&& e.input.value@.len() == 0
    &&& e.input.cursor == 0
    &&& e.anchor is None
    &&& e.error is None
    &&& e.return_state is None
}

/// The screen a closed box goes back to.
pub open spec fn edit_return(e: StringEdit) -> UIState {
    match e.return_state {
        Some(s) => s,
        None => UIState::DialogStrings,
    }
}

/// What opening the box does: a read-only file refuses; with no string
/// chosen in the list it beeps; otherwise the box opens on the chosen
/// string's text, with room for the string and the zeros after it (less a
/// terminator), in the encoding `first_encoding` gives.
pub open spec fn string_edit_opened(a: App, b: App, act: HexAction) -> bool {
    if a.file_info.is_read_only {
        act is Nothing && error_shown(a, b, M::RoStringEdit.text(a.config.lang))
    } else {
        match chosen_string(a) {
            None => act is Beep && b == a,
            Some(row) => {
                let f = a.strings@[row];
                let enc = first_encoding(a.hex_view.strings_dialog.encoding);
                let utf16 = enc == StringEncoding::Utf16;
                let total = f.size + spare_zeros(a.file_info.buffer@, f.offset + f.size, utf16);
                let term: int = if utf16 { 2 } else { 1 };
                let e = b.hex_view.string_edit;
                &&& act is Nothing
                &&& e.offset == f.offset
                &&& e.total_capacity == total
                &&& e.budget == if total >= term { total - term } else { 0 }
                &&& e.row == row
                &&& e.encoding == enc
                &&& e.input.value@ == f.content@
                &&& e.input.cursor == f.content@.len()
                &&& e.anchor == Some(0usize)
                &&& e.error is None
                &&& e.return_state == Some(UIState::DialogStrings)
                &&& b == (App {
                    hex_view: HexView { string_edit: e, ..a.hex_view },
                    state: UIState::DialogStringEdit,
                    ..a
                })
            },
        }
    }
}

proof fn lemma_zeros_bound(b: Seq<u8>, offset: int, count: nat)
    requires
        count <= 512,
    ensures
        count <= zeros_from(b, offset, count) <= 512,
    decreases 512 - count,
{
    if count < 512 && offset + count < b.len() && b[offset + count] == 0 {
        lemma_zeros_bound(b, offset, count + 1);
    }
}

/// Opens the box that replaces the string chosen in the Strings list (see
/// `string_edit_opened`).
pub fn open_string_edit(app: &mut App) -> (act: HexAction)
    requires
        chosen_string(*old(app)) matches Some(r) ==> old(app).strings@[r].offset + old(app).strings@[r].size + 512
            <= usize::MAX,
    ensures
        string_edit_opened(*old(app), *final(app), act),
{
    if app.file_info.is_read_only {
        app.read_only_error(M::RoStringEdit);
        return HexAction::Nothing;
    }
    let row = match app.list_selected {
        Some(i) => {
            if i < app.hex_view.strings_filtered.len() {
                app.hex_view.strings_filtered[i]
            } else {
                return HexAction::Beep;
            }
        },
        None => {
            return HexAction::Beep;
        },
    };
    if row >= app.strings.len() {
        return HexAction::Beep;
    }
    let enc = if app.hex_view.strings_dialog.encoding == StringEncoding::Ascii {
        StringEncoding::Cp949
    } else {
        app.hex_view.strings_dialog.encoding
    };
    let is_utf16 = enc == StringEncoding::Utf16;
    let term: usize = if is_utf16 { 2 } else { 1 };
    let offset = app.strings[row].offset;
    let size = app.strings[row].size;
    let extra = crate::hex::strings::count_trailing_zeros(app.file_info.buffer.as_slice(), offset + size, is_utf16);
    proof {
        lemma_zeros_bound(app.file_info.buffer@, (offset + size) as int, 0);
    }
    let total = size + extra;
    let budget = if total >= term { total - term } else { 0 };
    let content = string_from(app.strings[row].content.as_str());
    let n = chars_of(content.as_str()).len();
    app.hex_view.string_edit = StringEdit {
        offset,
        budget,
        total_capacity: total,
        row,
        encoding: enc,
        input: TextInput::with_cursor(content, n),
        anchor: Some(0),
        error: None,
        return_state: Some(UIState::DialogStrings),
    };
    app.state = UIState::DialogStringEdit;
    HexAction::Nothing
}

/// Whether every character of `t` is ASCII.
pub open spec fn all_ascii(t: Seq<char>) -> bool {
    forall|i: int| 0 <= i < t.len() ==> (t[i] as u32) < 128
}

fn is_ascii_text(s: &str) -> (b: bool)
    ensures
        b == all_ascii(s@),
{
    let cs = chars_of(s);
    let mut i: usize = 0;
    while i < cs.len()
        invariant
            i <= cs@.len(),
            cs@ == s@,
            forall|j: int| 0 <= j < i ==> (cs@[j] as u32) < 128,
        decreases cs.len() - i,
    {
        if (cs[i] as u32) >= 128 {
            return false;
        }
        i = i + 1;
    }
    true
}

/// The bytes written over the string: the new text, then zeros up to
/// `total`.
pub open spec fn written_bytes(bytes: Seq<u8>, total: nat) -> Seq<u8> {
    bytes + Seq::new((total - bytes.len()) as nat, |_i: int| 0u8)
}

/// How many of `n` bytes from `offset` have an offset that fits in `usize`.
pub open spec fn fitting(offset: usize, n: nat) -> nat {
    if n <= usize::MAX - offset + 1 { n } else { (usize::MAX - offset + 1) as nat }
}

/// `b` is `a` with the box's error set to `text`, the key refused.
pub open spec fn edit_refused(a: App, b: App, act: HexAction, text: Seq<char>) -> bool {
    let e = a.hex_view.string_edit;
    &&& act is Beep
    &&& b.hex_view.string_edit.error matches Some(m) && m@ == text
    &&& b == (App {
        hex_view: HexView { string_edit: StringEdit { error: b.hex_view.string_edit.error, ..e }, ..a.hex_view },
        ..a
    })
}

/// What Enter in the box does: a read-only file refuses; non-ASCII text in
/// ASCII, and text whose bytes outgrow the budget, are refused with a
/// message in the box; otherwise the text's bytes are staged over the
/// string and the rest of its room is zeroed, the list shows the new text,
/// the replacement is logged and the box closes.
pub open spec fn string_committed(a: App, b: App, act: HexAction) -> bool {
    let e = a.hex_view.string_edit;
    let text = e.input.value@;
    let lang = a.config.lang;
    let label = write_label(e.encoding);
    let total: nat = if e.total_capacity >= e.budget { e.total_capacity as nat } else { e.budget as nat };
    if a.file_info.is_read_only {
        act is Nothing && error_shown(a, b, M::RoStringEdit.text(lang))
    } else if e.encoding == StringEncoding::Ascii && !all_ascii(text) {
        edit_refused(a, b, act, M::ErrAsciiOnly.text(lang))
    } else if !is_encoding_label(label) {
        act is Beep && b == a
    } else {
        let bytes = text_bytes(label, text);
        if bytes.len() > e.budget {
            edit_refused(
                a,
                b,
                act,
                fill_spec(M::ErrStringTooLong.text(lang), seq![dec_digits(bytes.len()), dec_digits(e.budget as nat)]),
            )
        } else {
            let w = written_bytes(bytes, total);
            let (pm, ph) = pasted(a.hex_view.changed_bytes@, e.offset, w, fitting(e.offset, w.len()), a.file_info.size);
            &&& act is Nothing
            &&& b.hex_view.changed_bytes@ == pm
            &&& b.hex_view.changed_history@ == a.hex_view.changed_history@ + ph
            &&& fresh_string_edit(b.hex_view.string_edit)
            &&& b.hex_view == (HexView {
                changed_bytes: b.hex_view.changed_bytes,
                changed_history: b.hex_view.changed_history,
                string_edit: b.hex_view.string_edit,
                ..a.hex_view
            })
            &&& b.strings@.len() == a.strings@.len()
            &&& forall|k: int| 0 <= k < a.strings@.len() && k != e.row ==> #[trigger] b.strings@[k] == a.strings@[k]
            &&& e.row < a.strings@.len() ==> {
                let f = b.strings@[e.row as int];
                let g = a.strings@[e.row as int];
                &&& f.offset == g.offset
                &&& f.size == g.size
                &&& f.content@ == text
                &&& f.display@ == row_text(shown_address(a, e.offset) as nat, text)
            }
            &&& b.logs@ == a.logs@.push(b.logs@.last())
            &&& b.logs@.last()@ == fill_spec(
                M::StringReplaced.text(lang),
                seq!["0x"@ + hex_digits(e.offset as nat), dec_digits(bytes.len()), dec_digits((total - bytes.len()) as nat)],
            )
            &&& b == (App { hex_view: b.hex_view, strings: b.strings, logs: b.logs, state: edit_return(e), ..a })
        }
    }
}

fn refuse_string_edit(app: &mut App, message: String) -> (act: HexAction)
    ensures
        edit_refused(*old(app), *final(app), act, message@),
{
    app.hex_view.string_edit.error = Some(message);
    HexAction::Beep
}

fn decimal(n: usize) -> (s: String)
    ensures
        s@ == dec_digits(n as nat),
{
    let mut s = String::new();
    push_dec(&mut s, n as u64);
    s
}

/// Writes the box's text over the string (see `string_committed`).
#[verifier::rlimit(40)]
pub fn commit_string_edit(app: &mut App) -> (act: HexAction)
    ensures
        string_committed(*old(app), *final(app), act),
{
    if app.file_info.is_read_only {
        app.read_only_error(M::RoStringEdit);
        return HexAction::Nothing;
    }
    let lang = app.config.lang;
    let text = string_from(app.hex_view.string_edit.input.value.as_str());
    let budget = app.hex_view.string_edit.budget;
    let cap = app.hex_view.string_edit.total_capacity;
    let total = if cap >= budget { cap } else { budget };
    let offset = app.hex_view.string_edit.offset;
    let encoding = app.hex_view.string_edit.encoding;
    if encoding == StringEncoding::Ascii && !is_ascii_text(text.as_str()) {
        return refuse_string_edit(app, string_from(M::ErrAsciiOnly.tr(lang)));
    }
    let label = encoding.codec_label();
    let bytes = match encode_text(text.as_str(), label) {
        Some(b) => b,
        None => {
            return HexAction::Beep;
        },
    };
    let len = bytes.len();
    if len > budget {
        let a0 = decimal(len);
        let a1 = decimal(budget);
        let args = [a0.as_str(), a1.as_str()];
        let msg = fill(M::ErrStringTooLong.tr(lang), &args);
        proof {
            assert(crate::i18n::str_views(args@) =~= seq![a0@, a1@]);
        }
        return refuse_string_edit(app, msg);
    }
    let ghost a = *app;
    let ghost w = written_bytes(bytes@, total as nat);
    let n: usize = if total <= usize::MAX - offset { total } else { usize::MAX - offset + 1 };
    assert(n == fitting(offset, w.len()));
    let mut i: usize = 0;
    assert(a.hex_view.changed_history@ + Seq::<usize>::empty() =~= a.hex_view.changed_history@);
    while i < n
        invariant
            i <= n,
            n == fitting(offset, w.len()),
            w.len() == total,
            len <= total,
            w == written_bytes(bytes@, total as nat),
            len == bytes@.len(),
            offset == a.hex_view.string_edit.offset,
            app.hex_view.changed_bytes@ == pasted(a.hex_view.changed_bytes@, offset, w, i as nat, a.file_info.size).0,
            app.hex_view.changed_history@ == a.hex_view.changed_history@ + pasted(
                a.hex_view.changed_bytes@,
                offset,
                w,
                i as nat,
                a.file_info.size,
            ).1,
            app.hex_view.redo_history == a.hex_view.redo_history,
            app.hex_view.nibble_pending == a.hex_view.nibble_pending,
            app.hex_view.same_but_edits(a.hex_view),
            app.same_but_hex_view(a),
        decreases n - i,
    {
        let byte: u8 = if i < len { bytes[i] } else { 0 };
        assert(byte == w[i as int]);
        record_edit(app, offset + i, byte);
        i = i + 1;
        assert(app.hex_view.changed_history@ =~= a.hex_view.changed_history@ + pasted(
            a.hex_view.changed_bytes@,
            offset,
            w,
            i as nat,
            a.file_info.size,
        ).1);
    }
    let row = app.hex_view.string_edit.row;
    let addr = crate::hex::strings_list::address_for(app, offset);
    if row < app.strings.len() {
        let ghost s0 = app.strings@;
        let mut found = app.strings.remove(row);
        found.content = string_from(text.as_str());
        found.set_address(addr);
        app.strings.insert(row, found);
        assert forall|k: int| 0 <= k < s0.len() && k != row implies #[trigger] app.strings@[k] == s0[k] by {
            if k < row {
                assert(app.strings@[k] == s0[k]);
            } else {
                assert(app.strings@[k] == s0[k]);
            }
        }
    }
    let mut h = string_from("0x");
    push_hex(&mut h, offset as u64, 0);
    let a1 = decimal(len);
    let a2 = decimal(total - len);
    let args = [h.as_str(), a1.as_str(), a2.as_str()];
    let msg = fill(M::StringReplaced.tr(lang), &args);
    proof {
        reveal_strlit("0x");
        assert(crate::text::zero_pad(hex_digits(offset as nat), 0) == hex_digits(offset as nat));
        assert(crate::i18n::str_views(args@) =~= seq![h@, a1@, a2@]);
    }
    app.log(msg);
    let back = match app.hex_view.string_edit.return_state {
        Some(s) => s,
        None => UIState::DialogStrings,
    };
    app.hex_view.string_edit = StringEdit::default();
    app.state = back;
    HexAction::Nothing
}

/// What a key does in the box: Esc closes it and goes back, Enter writes
/// the text (see `string_committed`), Alt+E moves to the next encoding, and
/// any other key edits the text (see `input_edit`); an edit or a new
/// encoding clears the box's message.
pub open spec fn string_edit_key_post(a: App, b: App, key: KeyPress, act: HexAction) -> bool {
    let e = a.hex_view.string_edit;
    match key.code {
        Key::Esc => {
            &&& act is Nothing
            &&& fresh_string_edit(b.hex_view.string_edit)
            &&& b == (App {
                hex_view: HexView { string_edit: b.hex_view.string_edit, ..a.hex_view },
                state: edit_return(e),
                ..a
            })
        },
        Key::Enter => string_committed(a, b, act),
        _ => if key.code == Key::Char('e') && key.alt || key.code == Key::Char('E') && key.alt {
            act is Nothing && b == (App {
                hex_view: HexView {
                    string_edit: StringEdit { encoding: next_encoding(e.encoding), error: None, ..e },
                    ..a.hex_view
                },
                ..a
            })
        } else {
            act is Nothing && match input_edit(key) {
                None => b == a,
                Some(ed) => {
                    let (v, c) = input_edited(e.input.value@, e.input.cursor as nat, ed);
                    let f = b.hex_view.string_edit;
                    &&& f.input.value@ == v
                    &&& f.input.cursor == c
                    &&& b == (App {
                        hex_view: HexView { string_edit: StringEdit { input: f.input, error: None, ..e }, ..a.hex_view },
                        ..a
                    })
                },
            }
        },
    }
}

/// Handles a key in the box that replaces a string (see
/// `string_edit_key_post`).
pub fn dialog_string_edit_events(app: &mut App, key: KeyPress) -> (act: HexAction)
    requires
        old(app).hex_view.string_edit.input.value@.len() < usize::MAX,
    ensures
        string_edit_key_post(*old(app), *final(app), key, act),
{
    match key.code {
        Key::Esc => {
            let back = match app.hex_view.string_edit.return_state {
                Some(s) => s,
                None => UIState::DialogStrings,
            };
            app.hex_view.string_edit = StringEdit::default();
            app.state = back;
            HexAction::Nothing
        },
        Key::Enter => commit_string_edit(app),
        _ => {
            if key.code == Key::Char('e') && key.alt || key.code == Key::Char('E') && key.alt {
                app.hex_view.string_edit.encoding = app.hex_view.string_edit.encoding.next();
                app.hex_view.string_edit.error = None;
            } else {
                match input_edit_for(key) {
                    None => {},
                    Some(ed) => {
                        let mut t = TextInput::empty();
                        std::mem::swap(&mut t, &mut app.hex_view.string_edit.input);
                        t.apply(ed);
                        app.hex_view.string_edit.input = t;
                        app.hex_view.string_edit.error = None;
                    },
                }
            }
            HexAction::Nothing
        },
    }
}

proof fn lemma_pasted_at(m: Map<usize, u8>, lo: usize, b: Seq<u8>, n: nat, size: usize, k: usize)
    requires
        n <= b.len(),
        lo + n <= usize::MAX + 1,
        lo <= k < lo + n,
        k < size,
    ensures
        pasted(m, lo, b, n, size).0.contains_key(k),
        pasted(m, lo, b, n, size).0[k] == b[k - lo],
    decreases n,
{
    if k < lo + n - 1 {
        lemma_pasted_at(m, lo, b, (n - 1) as nat, size, k);
    }
}

/// A replaced string reads back: once Enter has written the box's text,
/// each byte of the string's room that lies in the file shows the encoded
/// text, then zeros.
pub proof fn law_replaced_string_reads_back(a: App, b: App, act: HexAction, j: int)
    requires
        string_committed(a, b, act),
        act is Nothing,
        !a.file_info.is_read_only,
        0 <= j < a.hex_view.string_edit.total_capacity,
        a.hex_view.string_edit.offset + j < a.file_info.size,
    ensures
        displayed(b, (a.hex_view.string_edit.offset + j) as usize) == written_bytes(
            text_bytes(write_label(a.hex_view.string_edit.encoding), a.hex_view.string_edit.input.value@),
            a.hex_view.string_edit.total_capacity as nat,
        )[j],
{
    let e = a.hex_view.string_edit;
    let bytes = text_bytes(write_label(e.encoding), e.input.value@);
    let total: nat = if e.total_capacity >= e.budget { e.total_capacity as nat } else { e.budget as nat };
    let w = written_bytes(bytes, total);
    let n = fitting(e.offset, w.len());
    let k = (e.offset + j) as usize;
    lemma_pasted_at(a.hex_view.changed_bytes@, e.offset, w, n, a.file_info.size, k);
    assert(w[j] == written_bytes(bytes, e.total_capacity as nat)[j]);
}

} // verus!
