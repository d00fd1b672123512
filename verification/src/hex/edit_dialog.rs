//! The Edit Data dialog: one field per reading of the bytes at the cursor.
use vstd::prelude::*;

use crate::codec::{
    canonical_name, decode_no_bom, decoded_without_bom, encode_text, encoding_name,
    is_encoding_label, text_bytes,
};
use crate::hex::string_scan::{char_from_u32, cont, lead_len, scalar_at};
use crate::app::{after_goto, error_shown, App, UIState};
use crate::hex::blocks::ColoredBlock;
use crate::hex::edit::record_edit;
use crate::hex::events::{fresh_edit_dialog, paste_count, pasted, HexAction, Key, KeyPress};
use crate::hex::hex_view::HexView;
use crate::hex::field_box::{input_edit, input_edit_for, input_edited, InputEdit, TextInput};
use crate::hex::selection::shown_range;
use crate::i18n::M;
use crate::input_history::{pushed, views, DialogHistoryEntry, HistoryQueue};
use crate::text::{
    string_from, string_of, chars_of, digit_value, hex2, hex_char, is_hex_digit, push_char, push_hex2, push_str, to_digit, trim,
};

verus! {

/// The field of the Edit Data dialog that has the keyboard.
#[derive(Debug, PartialEq, Eq, Clone, Copy, Structural)]
pub enum EditDialogFocus {
    /// The user's primary encoding.
    Enc1,
    Utf8,
    Utf16Le,
    Hex,
}

/// The field Tab moves to.
pub open spec fn next_focus(f: EditDialogFocus) -> EditDialogFocus {
    match f {
        EditDialogFocus::Enc1 => EditDialogFocus::Utf8,
        EditDialogFocus::Utf8 => EditDialogFocus::Utf16Le,
        EditDialogFocus::Utf16Le => EditDialogFocus::Hex,
        EditDialogFocus::Hex => EditDialogFocus::Enc1,
    }
}

/// The field Shift+Tab moves to.
pub open spec fn prev_focus(f: EditDialogFocus) -> EditDialogFocus {
    match f {
        EditDialogFocus::Enc1 => EditDialogFocus::Hex,
        EditDialogFocus::Utf8 => EditDialogFocus::Enc1,
        EditDialogFocus::Utf16Le => EditDialogFocus::Utf8,
        EditDialogFocus::Hex => EditDialogFocus::Utf16Le,
    }
}

impl EditDialogFocus {
    pub fn next(&self) -> (f: Self)
        ensures
            f == next_focus(*self),
    {
        match self {
            EditDialogFocus::Enc1 => EditDialogFocus::Utf8,
            EditDialogFocus::Utf8 => EditDialogFocus::Utf16Le,
            EditDialogFocus::Utf16Le => EditDialogFocus::Hex,
            EditDialogFocus::Hex => EditDialogFocus::Enc1,
        }
    }

    pub fn prev(&self) -> (f: Self)
        ensures
            f == prev_focus(*self),
    {
        match self {
            EditDialogFocus::Enc1 => EditDialogFocus::Hex,
            EditDialogFocus::Utf8 => EditDialogFocus::Enc1,
            EditDialogFocus::Utf16Le => EditDialogFocus::Utf8,
            EditDialogFocus::Hex => EditDialogFocus::Utf16Le,
        }
    }
}

/// Shift+Tab undoes Tab, and Tab undoes Shift+Tab.
pub proof fn law_focus_cycle(f: EditDialogFocus)
    ensures
        prev_focus(next_focus(f)) == f,
        next_focus(prev_focus(f)) == f,
{
}

// ---------------------------------------------------------------------------
// Escaped text
// ---------------------------------------------------------------------------

/// The character a C-style escape letter stands for: `\n`, `\r`, `\t`, `\0`
/// and `\\`.
pub open spec fn escape_target(c: char) -> Option<char> {
    if c == 'n' {
        Some('\n')
    } else if c == 'r' {
        Some('\r')
    } else if c == 't' {
        Some('\t')
    } else if c == '0' {
        Some('\0')
    } else if c == '\\' {
        Some('\\')
    } else {
        None
    }
}

/// Whether a `\xHH` (or `\XHH`) escape starts at `i`.
pub open spec fn hex_escape_at(t: Seq<char>, i: int) -> bool {
    &&& 0 <= i
    &&& i + 3 < t.len()
    &&& t[i] == '\\'
    &&& (t[i + 1] == 'x' || t[i + 1] == 'X')
    &&& is_hex_digit(t[i + 2])
    &&& is_hex_digit(t[i + 3])
}

/// The byte a `\xHH` escape at `i` names.
pub open spec fn hex_escape_value(t: Seq<char>, i: int) -> u8 {
    (digit_value(t[i + 2], 16)->0 * 16 + digit_value(t[i + 3], 16)->0) as u8
}

/// What a `\xHH` escape writes in the encoding named `name`: the byte, as a
/// whole code unit in UTF-16.
pub open spec fn raw_byte(name: Seq<char>, v: u8) -> Seq<u8> {
    if name == "UTF-16LE"@ {
        seq![v, 0]
    } else if name == "UTF-16BE"@ {
        seq![0, v]
    } else {
        seq![v]
    }
}

/// The bytes of a run of plain text, none for an empty run.
pub open spec fn run_bytes(label: Seq<char>, run: Seq<char>) -> Seq<u8> {
    if run.len() == 0 {
        seq![]
    } else {
        text_bytes(label, run)
    }
}

/// The bytes `t[i..]` stands for in the encoding labelled `label`, given the
/// plain text `run` read before `i` and not yet written: plain text is
/// encoded run by run, `\n \r \t \0 \\` are encoded as the character they
/// name, `\xHH` writes the byte itself, and any other backslash is plain text.
pub open spec fn unescaped(t: Seq<char>, i: int, run: Seq<char>, label: Seq<char>) -> Seq<u8>
    decreases t.len() - i,
{
    if i < 0 || i >= t.len() {
        run_bytes(label, run)
    } else if t[i] == '\\' && i + 1 < t.len() && escape_target(t[i + 1]) is Some {
        run_bytes(label, run) + text_bytes(label, seq![escape_target(t[i + 1])->0]) + unescaped(
            t,
            i + 2,
            seq![],
            label,
        )
    } else if hex_escape_at(t, i) {
        run_bytes(label, run) + raw_byte(encoding_name(label), hex_escape_value(t, i)) + unescaped(
            t,
            i + 4,
            seq![],
            label,
        )
    } else {
        unescaped(t, i + 1, run.push(t[i]), label)
    }
}

/// Writes the pending plain text `run` to `out` and empties it.
fn flush_run(out: &mut Vec<u8>, run: &mut Vec<char>, label: &str)
    requires
        is_encoding_label(label@),
    ensures
        final(out)@ == old(out)@ + run_bytes(label@, old(run)@),
        final(run)@.len() == 0,
{
    if run.len() > 0 {
        let text = crate::text::string_of(run.as_slice());
        match encode_text(text.as_str(), label) {
            Some(b) => {
                let mut k: usize = 0;
                while k < b.len()
                    invariant
                        k <= b@.len(),
                        out@ == old(out)@ + b@.take(k as int),
                    decreases b.len() - k,
                {
                    out.push(b[k]);
                    k = k + 1;
                    assert(out@ =~= old(out)@ + b@.take(k as int));
                }
                assert(b@.take(b@.len() as int) =~= b@);
            },
            None => {},
        }
        *run = Vec::new();
    }
}

/// Appends `bytes` to `out`.
fn append_bytes(out: &mut Vec<u8>, bytes: &[u8])
    ensures
        final(out)@ == old(out)@ + bytes@,
{
    let mut k: usize = 0;
    while k < bytes.len()
        invariant
            k <= bytes@.len(),
            out@ == old(out)@ + bytes@.take(k as int),
        decreases bytes.len() - k,
    {
        out.push(bytes[k]);
        k = k + 1;
        assert(out@ =~= old(out)@ + bytes@.take(k as int));
    }
    assert(bytes@.take(bytes@.len() as int) =~= bytes@);
}

/// Reads C-style escapes (`\n`, `\r`, `\t`, `\0`, `\\`, `\xHH`) in `text`
/// and encodes the rest in the encoding labelled `enc` (see `unescaped`);
/// a backslash that starts no escape is kept as text, so a half-typed escape
/// is harmless. `None` for a label `encoding_rs` does not know.
pub fn unescape_to_bytes(text: &str, enc: &str) -> (r: Option<Vec<u8>>)
    ensures
        r is Some == is_encoding_label(enc@),
        r matches Some(b) ==> b@ == unescaped(text@, 0, seq![], enc@),
{
    let name = match canonical_name(enc) {
        Some(n) => n,
        None => return None,
    };
    let utf16le = crate::text::chars_eq(chars_of(name.as_str()).as_slice(), chars_of("UTF-16LE").as_slice());
    let utf16be = crate::text::chars_eq(chars_of(name.as_str()).as_slice(), chars_of("UTF-16BE").as_slice());
    let chars = chars_of(text);
    let mut out: Vec<u8> = Vec::new();
    let mut run: Vec<char> = Vec::new();
    let mut i: usize = 0;
    while i < chars.len()
        invariant
            i <= chars@.len(),
            chars@ == text@,
            is_encoding_label(enc@),
            utf16le == (encoding_name(enc@) == "UTF-16LE"@),
            utf16be == (encoding_name(enc@) == "UTF-16BE"@),
            out@ + unescaped(text@, i as int, run@, enc@) == unescaped(text@, 0, seq![], enc@),
        decreases chars.len() - i,
    {
        let c = chars[i];
        let ghost before = out@;
        let ghost run_before = run@;
        if c == '\\' && i + 1 < chars.len() {
            let next = chars[i + 1];
            let target: Option<char> = if next == 'n' {
                Some('\n')
            } else if next == 'r' {
                Some('\r')
            } else if next == 't' {
                Some('\t')
            } else if next == '0' {
                Some('\0')
            } else if next == '\\' {
                Some('\\')
            } else {
                None
            };
            match target {
                Some(e) => {
                    flush_run(&mut out, &mut run, enc);
                    let mut one = String::new();
                    crate::text::push_char(&mut one, e);
                    match encode_text(one.as_str(), enc) {
                        Some(b) => append_bytes(&mut out, b.as_slice()),
                        None => {},
                    }
                    proof {
                        assert(run@ =~= Seq::<char>::empty());
                        assert(one@ =~= seq![e]);
                        assert(out@ + unescaped(text@, i + 2, seq![], enc@) =~= before
                            + unescaped(text@, i as int, run_before, enc@));
                    }
                    i = i + 2;
                    continue;
                },
                None => {},
            }
            if (next == 'x' || next == 'X') && chars.len() - i > 3 {
                let h1 = to_digit(chars[i + 2], 16);
                let h2 = to_digit(chars[i + 3], 16);
                match (h1, h2) {
                    (Some(d1), Some(d2)) => {
                        let v: u8 = (d1 * 16 + d2) as u8;
                        flush_run(&mut out, &mut run, enc);
                        if utf16le {
                            out.push(v);
                            out.push(0);
                        } else if utf16be {
                            out.push(0);
                            out.push(v);
                        } else {
                            out.push(v);
                        }
                        proof {
                            assert(run@ =~= Seq::<char>::empty());
                            assert(out@ + unescaped(text@, i + 4, seq![], enc@) =~= before
                                + unescaped(text@, i as int, run_before, enc@));
                        }
                        i = i + 4;
                        continue;
                    },
                    _ => {},
                }
            }
        }
        run.push(c);
        i = i + 1;
    }
    flush_run(&mut out, &mut run, enc);
    proof {
        assert(out@ =~= out@ + Seq::<u8>::empty());
    }
    Some(out)
}

/// How one character is shown in an escaped field: `\n \r \t \0 \\` for
/// those characters, `\xHH` for the other controls and DEL, the character
/// itself otherwise.
pub open spec fn escape_char(c: char) -> Seq<char> {
    if c == '\n' {
        seq!['\\', 'n']
    } else if c == '\r' {
        seq!['\\', 'r']
    } else if c == '\t' {
        seq!['\\', 't']
    } else if c == '\0' {
        seq!['\\', '0']
    } else if c == '\\' {
        seq!['\\', '\\']
    } else if (c as u32) < 0x20 || c == '\x7F' {
        seq!['\\', 'x'] + hex2((c as u32) as u8)
    } else {
        seq![c]
    }
}

/// `s` with every character escaped.
pub open spec fn escaped(s: Seq<char>) -> Seq<char>
    decreases s.len(),
{
    if s.len() == 0 {
        seq![]
    } else {
        escaped(s.drop_last()) + escape_char(s.last())
    }
}

/// `\xHH` for a raw byte.
pub open spec fn byte_escape(b: u8) -> Seq<char> {
    seq!['\\', 'x'] + hex2(b)
}

fn push_escaped_char(out: &mut String, c: char)
    ensures
        final(out)@ == old(out)@ + escape_char(c),
{
    if c == '\n' {
        push_str(out, "\\n");
    } else if c == '\r' {
        push_str(out, "\\r");
    } else if c == '\t' {
        push_str(out, "\\t");
    } else if c == '\0' {
        push_str(out, "\\0");
    } else if c == '\\' {
        push_str(out, "\\\\");
    } else if (c as u32) < 0x20 || c == '\x7F' {
        push_str(out, "\\x");
        push_hex2(out, (c as u32) as u8);
    } else {
        push_char(out, c);
    }
    proof {
        reveal_strlit("\\n");
        reveal_strlit("\\r");
        reveal_strlit("\\t");
        reveal_strlit("\\0");
        reveal_strlit("\\\\");
        reveal_strlit("\\x");
        assert(out@ =~= old(out)@ + escape_char(c));
    }
}

/// Appends `s` to `out` with every character escaped.
pub fn push_escaped_str(out: &mut String, s: &str)
    ensures
        final(out)@ == old(out)@ + escaped(s@),
{
    let cs = chars_of(s);
    let mut i: usize = 0;
    while i < cs.len()
        invariant
            i <= cs@.len(),
            cs@ == s@,
            out@ == old(out)@ + escaped(cs@.take(i as int)),
        decreases cs.len() - i,
    {
        push_escaped_char(out, cs[i]);
        proof {
            assert(cs@.take(i + 1).drop_last() =~= cs@.take(i as int));
        }
        i = i + 1;
    }
    assert(cs@.take(cs@.len() as int) =~= cs@);
}

fn push_byte_escape(out: &mut String, b: u8)
    ensures
        final(out)@ == old(out)@ + byte_escape(b),
{
    push_str(out, "\\x");
    push_hex2(out, b);
    proof {
        reveal_strlit("\\x");
        assert(out@ =~= old(out)@ + byte_escape(b));
    }
}

/// Whether `y` may follow the lead byte `x` as the second byte of a UTF-8
/// sequence (the ranges that rule out overlong forms, surrogates and values
/// past U+10FFFF).
pub open spec fn second_ok(x: u8, y: u8) -> bool {
    if 0xC2 <= x && x <= 0xDF {
        0x80 <= y && y <= 0xBF
    } else if x == 0xE0 {
        0xA0 <= y && y <= 0xBF
    } else if (0xE1 <= x && x <= 0xEC) || x == 0xEE || x == 0xEF {
        0x80 <= y && y <= 0xBF
    } else if x == 0xED {
        0x80 <= y && y <= 0x9F
    } else if x == 0xF0 {
        0x90 <= y && y <= 0xBF
    } else if 0xF1 <= x && x <= 0xF3 {
        0x80 <= y && y <= 0xBF
    } else if x == 0xF4 {
        0x80 <= y && y <= 0x8F
    } else {
        false
    }
}

/// What UTF-8 validation (`std::str::from_utf8`) finds at `p`: a valid
/// character and its length, or an invalid sequence and the number of bytes
/// it spans (one when the input ends inside a sequence).
pub open spec fn utf8_at(b: Seq<u8>, p: int) -> (bool, int) {
    let x = b[p];
    let w = lead_len(x);
    if x < 0x80 {
        (true, 1)
    } else if w == 0 || p + 1 >= b.len() {
        (false, 1)
    } else if !second_ok(x, b[p + 1]) {
        (false, 1)
    } else if w == 2 {
        (true, 2)
    } else if p + 2 >= b.len() {
        (false, 1)
    } else if !cont(b[p + 2]) {
        (false, 2)
    } else if w == 3 {
        (true, 3)
    } else if p + 3 >= b.len() {
        (false, 1)
    } else if !cont(b[p + 3]) {
        (false, 3)
    } else {
        (true, 4)
    }
}

/// The character of a valid sequence of `n` bytes at `p`.
pub open spec fn utf8_char_of(b: Seq<u8>, p: int, n: int) -> char {
    if n == 1 {
        b[p] as char
    } else {
        scalar_at(b, p, n) as char
    }
}

/// `b[p..]` shown as escaped text: each valid UTF-8 character escaped, each
/// byte of an invalid sequence as `\xHH`.
pub open spec fn escaped_utf8(b: Seq<u8>, p: int) -> Seq<char>
    decreases b.len() - p,
{
    if p < 0 || p >= b.len() {
        seq![]
    } else {
        let (ok, n) = utf8_at(b, p);
        let here = if ok {
            escape_char(utf8_char_of(b, p, n))
        } else {
            bytes_escaped(b.subrange(p, p + n))
        };
        here + escaped_utf8(b, p + n)
    }
}

/// Each byte as `\xHH`.
pub open spec fn bytes_escaped(b: Seq<u8>) -> Seq<char>
    decreases b.len(),
{
    if b.len() == 0 {
        seq![]
    } else {
        bytes_escaped(b.drop_last()) + byte_escape(b.last())
    }
}

fn utf8_at_exec(b: &[u8], p: usize) -> (r: (bool, usize))
    requires
        p < b@.len(),
    ensures
        (r.0, r.1 as int) == utf8_at(b@, p as int),
        1 <= r.1 <= 4,
        p + r.1 <= b@.len(),
{
    let x = b[p];
    if x < 0x80 {
        return (true, 1);
    }
    let w: usize = if 0xC2 <= x && x <= 0xDF {
        2
    } else if 0xE0 <= x && x <= 0xEF {
        3
    } else if 0xF0 <= x && x <= 0xF4 {
        4
    } else {
        0
    };
    if w == 0 || b.len() - p <= 1 {
        return (false, 1);
    }
    let y = b[p + 1];
    let ok2 = if 0xC2 <= x && x <= 0xDF {
        0x80 <= y && y <= 0xBF
    } else if x == 0xE0 {
        0xA0 <= y && y <= 0xBF
    } else if (0xE1 <= x && x <= 0xEC) || x == 0xEE || x == 0xEF {
        0x80 <= y && y <= 0xBF
    } else if x == 0xED {
        0x80 <= y && y <= 0x9F
    } else if x == 0xF0 {
        0x90 <= y && y <= 0xBF
    } else if 0xF1 <= x && x <= 0xF3 {
        0x80 <= y && y <= 0xBF
    } else if x == 0xF4 {
        0x80 <= y && y <= 0x8F
    } else {
        false
    };
    if !ok2 {
        return (false, 1);
    }
    if w == 2 {
        return (true, 2);
    }
    if b.len() - p <= 2 {
        return (false, 1);
    }
    let z = b[p + 2];
    if !(0x80 <= z && z <= 0xBF) {
        return (false, 2);
    }
    if w == 3 {
        return (true, 3);
    }
    if b.len() - p <= 3 {
        return (false, 1);
    }
    let q = b[p + 3];
    if !(0x80 <= q && q <= 0xBF) {
        return (false, 3);
    }
    (true, 4)
}

/// The scalar value of the valid sequence of `n` bytes at `p`.
fn scalar_exec(b: &[u8], p: usize, n: usize) -> (v: u32)
    requires
        2 <= n <= 4,
        p + n <= b@.len(),
        utf8_at(b@, p as int) == (true, n as int),
    ensures
        v == scalar_at(b@, p as int, n as int),
        v < 0xD800 || (0xE000 <= v && v <= 0x10FFFF),
{
    let x = b[p] as u32;
    let y = b[p + 1] as u32;
    if n == 2 {
        (x - 0xC0) * 64 + (y - 0x80)
    } else if n == 3 {
        let z = b[p + 2] as u32;
        (x - 0xE0) * 4096 + (y - 0x80) * 64 + (z - 0x80)
    } else {
        let z = b[p + 2] as u32;
        let q = b[p + 3] as u32;
        (x - 0xF0) * 262144 + (y - 0x80) * 4096 + (z - 0x80) * 64 + (q - 0x80)
    }
}

/// Bytes as escaped text in UTF-8: valid characters escaped, the bytes of
/// invalid sequences as `\xHH`.
pub fn bytes_to_escaped_string_utf8(bytes: &[u8]) -> (s: String)
    ensures
        s@ == escaped_utf8(bytes@, 0),
{
    let mut out = String::new();
    let mut pos: usize = 0;
    while pos < bytes.len()
        invariant
            pos <= bytes@.len(),
            out@ + escaped_utf8(bytes@, pos as int) == escaped_utf8(bytes@, 0),
        decreases bytes.len() - pos,
    {
        let ghost before = out@;
        let (ok, n) = utf8_at_exec(bytes, pos);
        if ok {
            if n == 1 {
                push_escaped_char(&mut out, bytes[pos] as char);
            } else {
                let v = scalar_exec(bytes, pos, n);
                match char_from_u32(v) {
                    Some(c) => push_escaped_char(&mut out, c),
                    None => {},
                }
            }
        } else {
            let mut k: usize = 0;
            while k < n
                invariant
                    k <= n,
                    pos + n <= bytes@.len(),
                    bytes@.len() == bytes.len(),
                    out@ == before + bytes_escaped(bytes@.subrange(pos as int, pos + k)),
                decreases n - k,
            {
                push_byte_escape(&mut out, bytes[pos + k]);
                proof {
                    assert(bytes@.subrange(pos as int, pos + k + 1).drop_last() =~= bytes@.subrange(pos as int, pos + k));
                }
                k = k + 1;
            }
        }
        proof {
            assert(out@ + escaped_utf8(bytes@, pos + n) =~= before + escaped_utf8(bytes@, pos as int));
        }
        pos = pos + n;
    }
    assert(out@ =~= out@ + escaped_utf8(bytes@, pos as int));
    out
}

/// The 16-bit little-endian unit `k` of `b`.
pub open spec fn le_unit(b: Seq<u8>, k: int) -> int {
    b[2 * k] + b[2 * k + 1] * 256
}

pub open spec fn is_high_surrogate(u: int) -> bool {
    0xD800 <= u && u <= 0xDBFF
}

pub open spec fn is_low_surrogate(u: int) -> bool {
    0xDC00 <= u && u <= 0xDFFF
}

/// The units `k..n` of `b` shown as escaped text, decoding UTF-16: a surrogate
/// pair as its character, an unpaired surrogate as its two bytes in `\xHH`
/// form, any other unit as its character, escaped.
pub open spec fn escaped_utf16(b: Seq<u8>, k: int, n: int) -> Seq<char>
    decreases n - k,
{
    if k < 0 || k >= n {
        seq![]
    } else {
        let u = le_unit(b, k);
        if is_high_surrogate(u) && k + 1 < n && is_low_surrogate(le_unit(b, k + 1)) {
            let c = (0x10000 + (u - 0xD800) * 1024 + (le_unit(b, k + 1) - 0xDC00)) as char;
            escape_char(c) + escaped_utf16(b, k + 2, n)
        } else if is_high_surrogate(u) || is_low_surrogate(u) {
            byte_escape(b[2 * k]) + byte_escape(b[2 * k + 1]) + escaped_utf16(b, k + 1, n)
        } else {
            escape_char(u as char) + escaped_utf16(b, k + 1, n)
        }
    }
}

/// Bytes as escaped text in UTF-16LE; an odd last byte as `\xHH`.
pub fn bytes_to_escaped_string_utf16le(bytes: &[u8]) -> (s: String)
    ensures
        s@ == escaped_utf16(bytes@, 0, (bytes@.len() / 2) as int) + if bytes@.len() % 2 == 1 {
            byte_escape(bytes@.last())
        } else {
            Seq::<char>::empty()
        },
{
    let n = bytes.len() / 2;
    let mut out = String::new();
    let mut k: usize = 0;
    while k < n
        invariant
            k <= n,
            n == bytes@.len() / 2,
            bytes@.len() == bytes.len(),
            out@ + escaped_utf16(bytes@, k as int, n as int) == escaped_utf16(bytes@, 0, n as int),
        decreases n - k,
    {
        let ghost before = out@;
        let u: u32 = (bytes[2 * k] as u32) + (bytes[2 * k + 1] as u32) * 256;
        let mut step: usize = 1;
        if 0xD800 <= u && u <= 0xDBFF && k + 1 < n {
            let lo: u32 = (bytes[2 * k + 2] as u32) + (bytes[2 * k + 3] as u32) * 256;
            if 0xDC00 <= lo && lo <= 0xDFFF {
                let v = 0x10000 + (u - 0xD800) * 1024 + (lo - 0xDC00);
                match char_from_u32(v) {
                    Some(c) => push_escaped_char(&mut out, c),
                    None => {},
                }
                step = 2;
            }
        }
        if step == 1 {
            if 0xD800 <= u && u <= 0xDFFF {
                push_byte_escape(&mut out, bytes[2 * k]);
                push_byte_escape(&mut out, bytes[2 * k + 1]);
            } else {
                match char_from_u32(u) {
                    Some(c) => push_escaped_char(&mut out, c),
                    None => {},
                }
            }
        }
        proof {
            assert(out@ + escaped_utf16(bytes@, k + step, n as int) =~= before + escaped_utf16(
                bytes@,
                k as int,
                n as int,
            ));
        }
        k = k + step;
    }
    let ghost body = out@;
    assert(body =~= escaped_utf16(bytes@, 0, n as int));
    if bytes.len() % 2 == 1 {
        push_byte_escape(&mut out, bytes[bytes.len() - 1]);
    }
    out
}

/// Bytes as escaped text in the encoding labelled `label`, decoded without
/// looking for a byte-order mark; `None` for an unknown label.
pub fn bytes_to_escaped_string_other(bytes: &[u8], label: &str) -> (s: Option<String>)
    ensures
        s is Some == is_encoding_label(label@),
        s matches Some(t) ==> t@ == escaped(decoded_without_bom(label@, bytes@).0),
{
    match decode_no_bom(label, bytes) {
        Some((text, _)) => {
            let mut out = String::new();
            push_escaped_str(&mut out, text.as_str());
            assert(out@ =~= escaped(text@));
            Some(out)
        },
        None => None,
    }
}

/// Bytes as escaped text for a single-line field that can be edited and read
/// back (see `unescape_to_bytes`): decoded as UTF-16LE or UTF-8 when the
/// label names one of those, otherwise through `encoding_rs`. `None` for a
/// label `encoding_rs` does not know.
pub fn bytes_to_escaped_string(bytes: &[u8], enc: &str) -> (s: Option<String>)
    ensures
        s is Some == is_encoding_label(enc@),
        s matches Some(t) ==> t@ == if encoding_name(enc@) == "UTF-16LE"@ {
            escaped_utf16(bytes@, 0, (bytes@.len() / 2) as int) + if bytes@.len() % 2 == 1 {
                byte_escape(bytes@.last())
            } else {
                Seq::<char>::empty()
            }
        } else if encoding_name(enc@) == "UTF-8"@ {
            escaped_utf8(bytes@, 0)
        } else {
            escaped(decoded_without_bom(enc@, bytes@).0)
        },
{
    let name = match canonical_name(enc) {
        Some(n) => n,
        None => return None,
    };
    if crate::text::chars_eq(chars_of(name.as_str()).as_slice(), chars_of("UTF-16LE").as_slice()) {
        Some(bytes_to_escaped_string_utf16le(bytes))
    } else if crate::text::chars_eq(chars_of(name.as_str()).as_slice(), chars_of("UTF-8").as_slice()) {
        Some(bytes_to_escaped_string_utf8(bytes))
    } else {
        bytes_to_escaped_string_other(bytes, enc)
    }
}

/// What `bytes_to_escaped_string` shows for `bytes` in the encoding labelled
/// `label`; empty for a label `encoding_rs` does not know.
pub open spec fn escaped_view(bytes: Seq<u8>, label: Seq<char>) -> Seq<char> {
    if !is_encoding_label(label) {
        seq![]
    } else if encoding_name(label) == "UTF-16LE"@ {
        escaped_utf16(bytes, 0, (bytes.len() / 2) as int) + if bytes.len() % 2 == 1 {
            byte_escape(bytes.last())
        } else {
            Seq::<char>::empty()
        }
    } else if encoding_name(label) == "UTF-8"@ {
        escaped_utf8(bytes, 0)
    } else {
        escaped(decoded_without_bom(label, bytes).0)
    }
}

/// The escaped text of `bytes` in the encoding labelled `label`, empty for
/// an unknown label.
fn escaped_or_empty(bytes: &[u8], label: &str) -> (s: String)
    ensures
        s@ == escaped_view(bytes@, label@),
{
    match bytes_to_escaped_string(bytes, label) {
        Some(t) => t,
        None => String::new(),
    }
}

/// Bytes as upper-case hex digits, two per byte.
pub open spec fn hex_upper(b: Seq<u8>) -> Seq<char>
    decreases b.len(),
{
    if b.len() == 0 {
        seq![]
    } else {
        hex_upper(b.drop_last()) + hex2(b.last())
    }
}

/// `bytes` as upper-case hex, two digits each, unseparated.
pub fn encode_upper(bytes: &[u8]) -> (s: String)
    ensures
        s@ == hex_upper(bytes@),
{
    let mut out = String::new();
    let mut k: usize = 0;
    while k < bytes.len()
        invariant
            k <= bytes@.len(),
            out@ == hex_upper(bytes@.take(k as int)),
        decreases bytes.len() - k,
    {
        push_hex2(&mut out, bytes[k]);
        proof {
            assert(bytes@.take(k + 1).drop_last() =~= bytes@.take(k as int));
        }
        k = k + 1;
    }
    assert(bytes@.take(bytes@.len() as int) =~= bytes@);
    out
}

/// The bytes spelled by pairs of hex digits.
pub open spec fn hex_pairs(h: Seq<char>) -> Seq<u8>
    decreases h.len(),
{
    if h.len() < 2 {
        seq![]
    } else {
        seq![(digit_value(h[0], 16)->0 * 16 + digit_value(h[1], 16)->0) as u8] + hex_pairs(h.skip(2))
    }
}

/// The characters of `s` that are hex digits.
pub open spec fn hex_digits_of(s: Seq<char>) -> Seq<char>
    decreases s.len(),
{
    if s.len() == 0 {
        seq![]
    } else if is_hex_digit(s.last()) {
        hex_digits_of(s.drop_last()).push(s.last())
    } else {
        hex_digits_of(s.drop_last())
    }
}

proof fn lemma_hex_char_digit(n: nat)
    requires
        n < 16,
    ensures
        digit_value(hex_char(n), 16) == Some(n as u32),
{
}

proof fn lemma_hex2_digits(x: u8)
    ensures
        is_hex_digit(hex2(x)[0]),
        is_hex_digit(hex2(x)[1]),
        (digit_value(hex2(x)[0], 16)->0 * 16 + digit_value(hex2(x)[1], 16)->0) as u8 == x,
{
    lemma_hex_char_digit((x / 16) as nat);
    lemma_hex_char_digit((x % 16) as nat);
}

proof fn lemma_hex_upper_len(b: Seq<u8>)
    ensures
        hex_upper(b).len() == 2 * b.len(),
    decreases b.len(),
{
    if b.len() > 0 {
        lemma_hex_upper_len(b.drop_last());
    }
}

proof fn lemma_hex_upper_all_digits(b: Seq<u8>)
    ensures
        hex_digits_of(hex_upper(b)) == hex_upper(b),
    decreases b.len(),
{
    if b.len() > 0 {
        let s = hex_upper(b.drop_last());
        let t = hex2(b.last());
        lemma_hex_upper_all_digits(b.drop_last());
        lemma_hex2_digits(b.last());
        let st = s + t;
        let u = s.push(t[0]);
        assert(st.drop_last() =~= u);
        assert(u.drop_last() =~= s);
        assert(st.last() == t[1]);
        assert(u.last() == t[0]);
        assert(hex_digits_of(st) == hex_digits_of(u).push(t[1]));
        assert(hex_digits_of(u) == hex_digits_of(s).push(t[0]));
        assert(st =~= u.push(t[1]));
    }
}

proof fn lemma_hex_pairs_append(s: Seq<char>, x: u8)
    requires
        s.len() % 2 == 0,
    ensures
        hex_pairs(s + hex2(x)) == hex_pairs(s).push(x),
    decreases s.len(),
{
    lemma_hex2_digits(x);
    if s.len() == 0 {
        assert(s + hex2(x) =~= hex2(x));
        let h = hex2(x);
        assert(h.skip(2) =~= Seq::<char>::empty());
        assert(hex_pairs(h.skip(2)) == Seq::<u8>::empty());
        assert(hex_pairs(s) == Seq::<u8>::empty());
        assert(hex_pairs(h) == seq![x] + hex_pairs(h.skip(2)));
        assert(hex_pairs(s + hex2(x)) =~= hex_pairs(s).push(x));
    } else {
        lemma_hex_pairs_append(s.skip(2), x);
        let st = s + hex2(x);
        assert(st.skip(2) =~= s.skip(2) + hex2(x));
        assert(st[0] == s[0] && st[1] == s[1]);
        let p = (digit_value(s[0], 16)->0 * 16 + digit_value(s[1], 16)->0) as u8;
        assert(hex_pairs(st) == seq![p] + hex_pairs(st.skip(2)));
        assert(hex_pairs(s) == seq![p] + hex_pairs(s.skip(2)));
        assert(hex_pairs(st) =~= hex_pairs(s).push(x));
    }
}

proof fn lemma_hex_pairs_of_upper(b: Seq<u8>)
    ensures
        hex_pairs(hex_upper(b)) == b,
    decreases b.len(),
{
    if b.len() > 0 {
        lemma_hex_pairs_of_upper(b.drop_last());
        lemma_hex_upper_len(b.drop_last());
        lemma_hex_pairs_append(hex_upper(b.drop_last()), b.last());
        assert(b.drop_last().push(b.last()) =~= b);
    }
}

/// The hex field reads back the bytes it was filled with: a field holding
/// the upper-case hex of non-empty `b` spells exactly `b`.
pub proof fn law_hex_field_reads_back(d: EditDialog, b: Seq<u8>)
    requires
        d.focus == EditDialogFocus::Hex,
        d.input_hex.value@ == hex_upper(b),
        b.len() > 0,
    ensures
        focused_bytes(d) == Some(Some(b)),
{
    lemma_hex_upper_all_digits(b);
    lemma_hex_upper_len(b);
    lemma_hex_pairs_of_upper(b);
    let raw = hex_upper(b);
    assert(raw.take(raw.len() - raw.len() % 2) =~= raw);
}

pub(crate) fn keep_hex_digits(cs: &[char]) -> (r: Vec<char>)
    ensures
        r@ == hex_digits_of(cs@),
        forall|i: int| 0 <= i < r@.len() ==> is_hex_digit(#[trigger] r@[i]),
{
    let mut r: Vec<char> = Vec::new();
    let mut i: usize = 0;
    while i < cs.len()
        invariant
            i <= cs@.len(),
            r@ == hex_digits_of(cs@.take(i as int)),
            forall|j: int| 0 <= j < r@.len() ==> is_hex_digit(#[trigger] r@[j]),
        decreases cs.len() - i,
    {
        let c = cs[i];
        proof {
            assert(cs@.take(i + 1).drop_last() =~= cs@.take(i as int));
        }
        if to_digit(c, 16).is_some() {
            r.push(c);
        }
        i = i + 1;
    }
    assert(cs@.take(cs@.len() as int) =~= cs@);
    r
}

/// The bytes of the first `n` hex digits (`n` even).
pub(crate) fn decode_pairs(h: &[char], n: usize) -> (r: Vec<u8>)
    requires
        n <= h@.len(),
        n % 2 == 0,
        forall|i: int| 0 <= i < h@.len() ==> is_hex_digit(#[trigger] h@[i]),
    ensures
        r@ == hex_pairs(h@.take(n as int)),
{
    let mut r: Vec<u8> = Vec::new();
    let mut k: usize = 0;
    assert(h@.take(n as int).skip(0) =~= h@.take(n as int));
    assert(r@ + hex_pairs(h@.take(n as int)) =~= hex_pairs(h@.take(n as int)));
    while k < n
        invariant
            k <= n,
            n <= h@.len(),
            n % 2 == 0,
            k % 2 == 0,
            forall|i: int| 0 <= i < h@.len() ==> is_hex_digit(#[trigger] h@[i]),
            r@ + hex_pairs(h@.take(n as int).skip(k as int)) == hex_pairs(h@.take(n as int)),
        decreases n - k,
    {
        let ghost rest = h@.take(n as int).skip(k as int);
        let d1 = to_digit(h[k], 16);
        let d2 = to_digit(h[k + 1], 16);
        let (a, b) = match (d1, d2) {
            (Some(a), Some(b)) => (a, b),
            _ => (0, 0),
        };
        assert(is_hex_digit(h@[k as int]) && is_hex_digit(h@[k + 1]));
        r.push((a * 16 + b) as u8);
        proof {
            assert(rest[0] == h@[k as int] && rest[1] == h@[k + 1]);
            assert(rest.skip(2) =~= h@.take(n as int).skip(k + 2));
        }
        k = k + 2;
    }
    assert(h@.take(n as int).skip(n as int) =~= Seq::<char>::empty());
    assert(r@ =~= r@ + Seq::<u8>::empty());
    r
}

// ---------------------------------------------------------------------------
// The dialog
// ---------------------------------------------------------------------------

/// The Edit Data dialog: the same bytes shown four ways (the primary
/// encoding, UTF-8, UTF-16LE and hex), kept in step as one of them is edited.
pub struct EditDialog {
    pub input_enc1: TextInput,
    pub input_utf8: TextInput,
    pub input_utf16le: TextInput,
    pub input_hex: TextInput,
    pub focus: EditDialogFocus,
    /// Label of the encoding behind the first field, mirrored from the
    /// editor's primary encoding when the dialog opens.
    pub enc1: String,
    /// The bytes the fields currently spell.
    pub cached_bytes: Vec<u8>,
    pub selection_anchor: Option<usize>,
    pub history: HistoryQueue<DialogHistoryEntry>,
}

impl EditDialog {
    /// The label of the first field's encoding.
    pub open spec fn enc1_label(&self) -> Seq<char> {
        self.enc1@
    }

    /// The bytes the fields currently spell.
    pub open spec fn bytes(&self) -> Seq<u8> {
        self.cached_bytes@
    }

    /// The field `f`.
    pub open spec fn field(&self, f: EditDialogFocus) -> TextInput {
        match f {
            EditDialogFocus::Enc1 => self.input_enc1,
            EditDialogFocus::Utf8 => self.input_utf8,
            EditDialogFocus::Utf16Le => self.input_utf16le,
            EditDialogFocus::Hex => self.input_hex,
        }
    }
}

impl Default for EditDialog {
    fn default() -> (d: Self)
        ensures
            d.input_enc1.value@.len() == 0,
            d.input_utf8.value@.len() == 0,
            d.input_utf16le.value@.len() == 0,
            d.input_hex.value@.len() == 0,
            d.focus == EditDialogFocus::Enc1,
            d.enc1_label() == "UTF-8"@,
            d.bytes().len() == 0,
            d.selection_anchor is None,
            d.history.history@.len() == 0,
    {
        EditDialog {
            input_enc1: TextInput::empty(),
            input_utf8: TextInput::empty(),
            input_utf16le: TextInput::empty(),
            input_hex: TextInput::empty(),
            focus: EditDialogFocus::Enc1,
            enc1: string_from("UTF-8"),
            cached_bytes: Vec::new(),
            selection_anchor: None,
            history: HistoryQueue::new(),
        }
    }
}

/// The text field `f` shows for `bytes` when the first field's encoding is
/// labelled `enc1`.
pub open spec fn field_text(enc1: Seq<char>, f: EditDialogFocus, bytes: Seq<u8>) -> Seq<char> {
    match f {
        EditDialogFocus::Enc1 => escaped_view(bytes, enc1),
        EditDialogFocus::Utf8 => escaped_view(bytes, "UTF-8"@),
        EditDialogFocus::Utf16Le => escaped_view(bytes, "UTF-16LE"@),
        EditDialogFocus::Hex => hex_upper(bytes),
    }
}

/// Field `f` of `new` after the fields were refilled from `bytes` typed in
/// `source`: the source field as it was, every other field rewritten with
/// the cursor at its end.
pub open spec fn field_refilled(old: EditDialog, new: EditDialog, f: EditDialogFocus, source: EditDialogFocus, bytes: Seq<u8>) -> bool {
    if f == source {
        new.field(f) == old.field(f)
    } else {
        &&& new.field(f).value@ == field_text(old.enc1_label(), f, bytes)
        &&& new.field(f).cursor == field_text(old.enc1_label(), f, bytes).len()
    }
}

/// Field `f` of `new` after the fields were cleared because `source` was
/// emptied.
pub open spec fn field_cleared(old: EditDialog, new: EditDialog, f: EditDialogFocus, source: EditDialogFocus) -> bool {
    if f == source {
        new.field(f) == old.field(f)
    } else {
        new.field(f).value@.len() == 0 && new.field(f).cursor == 0
    }
}

/// `new` and `old` agree on everything but the fields and the bytes.
pub open spec fn same_but_fields(old: EditDialog, new: EditDialog) -> bool {
    &&& new.enc1_label() == old.enc1_label()
    &&& new.focus == old.focus
    &&& new.selection_anchor == old.selection_anchor
    &&& new.history == old.history
}

/// `new` is `old` refilled from `bytes` typed in `source`.
pub open spec fn refilled(old: EditDialog, new: EditDialog, source: EditDialogFocus, bytes: Seq<u8>) -> bool {
    &&& new.bytes() == bytes
    &&& same_but_fields(old, new)
    &&& field_refilled(old, new, EditDialogFocus::Enc1, source, bytes)
    &&& field_refilled(old, new, EditDialogFocus::Utf8, source, bytes)
    &&& field_refilled(old, new, EditDialogFocus::Utf16Le, source, bytes)
    &&& field_refilled(old, new, EditDialogFocus::Hex, source, bytes)
}

/// `new` is `old` with every field but `source` emptied and no bytes.
pub open spec fn cleared(old: EditDialog, new: EditDialog, source: EditDialogFocus) -> bool {
    &&& new.bytes().len() == 0
    &&& same_but_fields(old, new)
    &&& field_cleared(old, new, EditDialogFocus::Enc1, source)
    &&& field_cleared(old, new, EditDialogFocus::Utf8, source)
    &&& field_cleared(old, new, EditDialogFocus::Utf16Le, source)
    &&& field_cleared(old, new, EditDialogFocus::Hex, source)
}

/// `e` is `d` after the fields were brought in step with the one that has
/// the keyboard (see `focused_bytes`): an emptied field clears the others, a
/// field that spells nothing yet changes nothing.
pub open spec fn synced(d: EditDialog, e: EditDialog) -> bool {
    match focused_bytes(d) {
        None => cleared(d, e, d.focus),
        Some(None) => e == d,
        Some(Some(b)) => refilled(d, e, d.focus, b),
    }
}

/// What the field with the keyboard spells, as `sync_from_focus` reads it:
/// `None` when the field is empty (the others are cleared), `Some(None)` when
/// it spells nothing yet (a lone hex digit, or an unknown encoding), and
/// `Some(Some(bytes))` otherwise.
pub open spec fn focused_bytes(d: EditDialog) -> Option<Option<Seq<u8>>> {
    let text = d.field(d.focus).value@;
    match d.focus {
        EditDialogFocus::Hex => {
            let raw = hex_digits_of(text);
            if raw.len() == 0 {
                None
            } else if raw.len() < 2 {
                Some(None)
            } else {
                Some(Some(hex_pairs(raw.take(raw.len() - raw.len() % 2))))
            }
        },
        _ => {
            let label = match d.focus {
                EditDialogFocus::Enc1 => d.enc1_label(),
                EditDialogFocus::Utf8 => "UTF-8"@,
                _ => "UTF-16LE"@,
            };
            if text.len() == 0 {
                None
            } else if !is_encoding_label(label) {
                Some(None)
            } else {
                Some(Some(unescaped(text, 0, seq![], label)))
            }
        },
    }
}

impl EditDialog {
    /// Points the first field at the encoding labelled `label`.
    pub fn set_enc1(&mut self, label: &str)
        ensures
            final(self).enc1_label() == label@,
            final(self).bytes() == old(self).bytes(),
            final(self).input_enc1 == old(self).input_enc1,
            final(self).input_utf8 == old(self).input_utf8,
            final(self).input_utf16le == old(self).input_utf16le,
            final(self).input_hex == old(self).input_hex,
            final(self).focus == old(self).focus,
            final(self).selection_anchor == old(self).selection_anchor,
            final(self).history == old(self).history,
    {
        self.enc1 = string_from(label);
    }

    pub fn enc1(&self) -> (s: &str)
        ensures
            s@ == self.enc1_label(),
    {
        self.enc1.as_str()
    }

    /// Empties every field and the bytes, gives the first field the
    /// keyboard, drops the selection and ends any history walk.
    pub fn reset(&mut self)
        ensures
            final(self).input_enc1.value@.len() == 0 && final(self).input_enc1.cursor == 0,
            final(self).input_utf8.value@.len() == 0 && final(self).input_utf8.cursor == 0,
            final(self).input_utf16le.value@.len() == 0 && final(self).input_utf16le.cursor == 0,
            final(self).input_hex.value@.len() == 0 && final(self).input_hex.cursor == 0,
            final(self).focus == EditDialogFocus::Enc1,
            final(self).bytes().len() == 0,
            final(self).selection_anchor is None,
            final(self).enc1_label() == old(self).enc1_label(),
            final(self).history.history@ == old(self).history.history@,
            final(self).history.history_index is None,
            final(self).history.draft is None,
    {
        self.input_enc1 = TextInput::empty();
        self.input_utf8 = TextInput::empty();
        self.input_utf16le = TextInput::empty();
        self.input_hex = TextInput::empty();
        self.focus = EditDialogFocus::Enc1;
        self.cached_bytes = Vec::new();
        self.selection_anchor = None;
        self.history.reset_nav();
    }

    /// The field with the keyboard.
    pub fn active_input(&self) -> (r: &TextInput)
        ensures
            *r == self.field(self.focus),
    {
        match self.focus {
            EditDialogFocus::Enc1 => &self.input_enc1,
            EditDialogFocus::Utf8 => &self.input_utf8,
            EditDialogFocus::Utf16Le => &self.input_utf16le,
            EditDialogFocus::Hex => &self.input_hex,
        }
    }

    /// Replaces the field with the keyboard.
    pub fn set_active_input(&mut self, input: TextInput)
        ensures
            final(self).field(old(self).focus) == input,
            forall|f: EditDialogFocus| f != old(self).focus ==> #[trigger] final(self).field(f) == old(self).field(f),
            final(self).bytes() == old(self).bytes(),
            same_but_fields(*old(self), *final(self)),
    {
        match self.focus {
            EditDialogFocus::Enc1 => self.input_enc1 = input,
            EditDialogFocus::Utf8 => self.input_utf8 = input,
            EditDialogFocus::Utf16Le => self.input_utf16le = input,
            EditDialogFocus::Hex => self.input_hex = input,
        }
    }

    /// The selected span of the field with the keyboard, as the smaller and
    /// the larger of the anchor and the cursor; `None` without an anchor or
    /// when the anchor is at the cursor.
    pub fn get_selection_range(&self) -> (r: Option<(usize, usize)>)
        ensures
            r == match self.selection_anchor {
                Some(a) => {
                    let c = self.field(self.focus).cursor;
                    if a == c {
                        None
                    } else if a < c {
                        Some((a, c))
                    } else {
                        Some((c, a))
                    }
                },
                None => None,
            },
    {
        match self.selection_anchor {
            Some(anchor) => {
                let cursor = self.active_input().cursor;
                if anchor == cursor {
                    None
                } else if anchor < cursor {
                    Some((anchor, cursor))
                } else {
                    Some((cursor, anchor))
                }
            },
            None => None,
        }
    }

    /// Deletes the selected characters of the field with the keyboard (the
    /// span clamped to the text), leaves the cursor where the span started
    /// and drops the anchor; `false` when nothing is selected.
    pub fn delete_selection(&mut self) -> (b: bool)
        ensures
            b == (old(self).get_selection_range_spec() is Some),
            !b ==> *final(self) == *old(self),
            b ==> selection_deleted(*old(self), *final(self)),
    {
        match self.get_selection_range() {
            Some((start, end)) => {
                let chars = chars_of(self.active_input().value.as_str());
                let safe_start = if start < chars.len() { start } else { chars.len() };
                let safe_end = if end < chars.len() { end } else { chars.len() };
                let mut kept: Vec<char> = Vec::new();
                let mut i: usize = 0;
                while i < safe_start
                    invariant
                        i <= safe_start <= chars@.len(),
                        kept@ == chars@.take(i as int),
                    decreases safe_start - i,
                {
                    kept.push(chars[i]);
                    i = i + 1;
                    assert(kept@ =~= chars@.take(i as int));
                }
                let mut j: usize = safe_end;
                while j < chars.len()
                    invariant
                        safe_start <= safe_end <= j <= chars@.len(),
                        kept@ == chars@.take(safe_start as int) + chars@.subrange(safe_end as int, j as int),
                    decreases chars.len() - j,
                {
                    kept.push(chars[j]);
                    j = j + 1;
                    assert(kept@ =~= chars@.take(safe_start as int) + chars@.subrange(safe_end as int, j as int));
                }
                assert(chars@.subrange(safe_end as int, chars@.len() as int) =~= chars@.skip(safe_end as int));
                let value = crate::text::string_of(kept.as_slice());
                let ghost before = *self;
                self.set_active_input(TextInput::with_cursor(value, safe_start));
                let ghost mid = *self;
                self.selection_anchor = None;
                proof {
                    assert(chars@ == before.field(before.focus).value@);
                    assert(self.field(before.focus).value@ == kept@);
                    assert forall|f: EditDialogFocus| f != before.focus implies #[trigger] self.field(f) == before.field(f) by {
                        assert(mid.field(f) == before.field(f));
                        match f {
                            EditDialogFocus::Enc1 => {},
                            EditDialogFocus::Utf8 => {},
                            EditDialogFocus::Utf16Le => {},
                            EditDialogFocus::Hex => {},
                        }
                    }
                }
                true
            },
            None => false,
        }
    }

    /// The selection span as `get_selection_range` computes it.
    pub open spec fn get_selection_range_spec(&self) -> Option<(usize, usize)> {
        match self.selection_anchor {
            Some(a) => {
                let c = self.field(self.focus).cursor;
                if a == c {
                    None
                } else if a < c {
                    Some((a, c))
                } else {
                    Some((c, a))
                }
            },
            None => None,
        }
    }

    /// Records `bytes` as what the fields spell and rewrites every field but
    /// `source` from them.
    fn update_others_from_bytes(&mut self, bytes: &[u8], source: EditDialogFocus)
        ensures
            refilled(*old(self), *final(self), source, bytes@),
    {
        self.cached_bytes = vstd::slice::slice_to_vec(bytes);
        if source != EditDialogFocus::Enc1 {
            self.input_enc1 = TextInput::new(escaped_or_empty(bytes, self.enc1.as_str()));
        }
        if source != EditDialogFocus::Utf8 {
            self.input_utf8 = TextInput::new(escaped_or_empty(bytes, "UTF-8"));
        }
        if source != EditDialogFocus::Utf16Le {
            self.input_utf16le = TextInput::new(escaped_or_empty(bytes, "UTF-16LE"));
        }
        if source != EditDialogFocus::Hex {
            self.input_hex = TextInput::new(encode_upper(bytes));
        }
    }

    /// Empties the bytes and every field but `source`.
    fn clear_except(&mut self, source: EditDialogFocus)
        ensures
            cleared(*old(self), *final(self), source),
    {
        self.cached_bytes = Vec::new();
        if source != EditDialogFocus::Enc1 {
            self.input_enc1 = TextInput::empty();
        }
        if source != EditDialogFocus::Utf8 {
            self.input_utf8 = TextInput::empty();
        }
        if source != EditDialogFocus::Utf16Le {
            self.input_utf16le = TextInput::empty();
        }
        if source != EditDialogFocus::Hex {
            self.input_hex = TextInput::empty();
        }
    }

    /// Reads the field with the keyboard and rewrites the others to match
    /// (see `focused_bytes`): an emptied field clears the others, a field
    /// that spells nothing yet changes nothing.
    pub fn sync_from_focus(&mut self)
        ensures
            synced(*old(self), *final(self)),
    {
        let focus = self.focus;
        match focus {
            EditDialogFocus::Hex => {
                let cs = chars_of(self.input_hex.value.as_str());
                let raw = keep_hex_digits(cs.as_slice());
                if raw.len() == 0 {
                    self.clear_except(EditDialogFocus::Hex);
                } else {
                    let valid_len = raw.len() - raw.len() % 2;
                    if valid_len > 0 {
                        let bytes = decode_pairs(raw.as_slice(), valid_len);
                        self.update_others_from_bytes(bytes.as_slice(), EditDialogFocus::Hex);
                    }
                }
            },
            _ => {
                let text = string_from(self.active_input().value.as_str());
                let label = match focus {
                    EditDialogFocus::Enc1 => string_from(self.enc1.as_str()),
                    EditDialogFocus::Utf8 => string_from("UTF-8"),
                    _ => string_from("UTF-16LE"),
                };
                if text.as_str().is_empty() {
                    self.clear_except(focus);
                } else {
                    match unescape_to_bytes(text.as_str(), label.as_str()) {
                        Some(bytes) => self.update_others_from_bytes(bytes.as_slice(), focus),
                        None => {},
                    }
                }
            },
        }
    }

    /// Shows `bytes` in every field, each cursor at the start.
    pub fn load_bytes(&mut self, bytes: &[u8])
        ensures
            final(self).bytes() == bytes@,
            same_but_fields(*old(self), *final(self)),
            final(self).input_enc1.value@ == field_text(old(self).enc1_label(), EditDialogFocus::Enc1, bytes@),
            final(self).input_utf8.value@ == field_text(old(self).enc1_label(), EditDialogFocus::Utf8, bytes@),
            final(self).input_utf16le.value@ == field_text(old(self).enc1_label(), EditDialogFocus::Utf16Le, bytes@),
            final(self).input_hex.value@ == field_text(old(self).enc1_label(), EditDialogFocus::Hex, bytes@),
            final(self).input_enc1.cursor == 0,
            final(self).input_utf8.cursor == 0,
            final(self).input_utf16le.cursor == 0,
            final(self).input_hex.cursor == 0,
    {
        self.cached_bytes = vstd::slice::slice_to_vec(bytes);
        self.input_enc1 = TextInput::with_cursor(escaped_or_empty(bytes, self.enc1.as_str()), 0);
        self.input_utf8 = TextInput::with_cursor(escaped_or_empty(bytes, "UTF-8"), 0);
        self.input_utf16le = TextInput::with_cursor(escaped_or_empty(bytes, "UTF-16LE"), 0);
        self.input_hex = TextInput::with_cursor(encode_upper(bytes), 0);
    }

    /// The bytes the fields spell.
    pub fn get_bytes(&self) -> (b: &[u8])
        ensures
            b@ == self.bytes(),
    {
        self.cached_bytes.as_slice()
    }
}

/// The first coloured block, in list order, that holds `offset`.
pub open spec fn block_at(blocks: Seq<ColoredBlock>, offset: usize, k: nat) -> Option<(usize, usize)>
    decreases blocks.len() - k,
{
    if k >= blocks.len() {
        None
    } else if blocks[k as int].start <= offset && offset <= blocks[k as int].end {
        Some((blocks[k as int].start, blocks[k as int].end))
    } else {
        block_at(blocks, offset, k + 1)
    }
}

proof fn lemma_block_at_bounds(blocks: Seq<ColoredBlock>, offset: usize, k: nat)
    ensures
        block_at(blocks, offset, k) matches Some((s, e)) ==> s <= offset <= e,
    decreases blocks.len() - k,
{
    if k < blocks.len() && !(blocks[k as int].start <= offset && offset <= blocks[k as int].end) {
        lemma_block_at_bounds(blocks, offset, k + 1);
    }
}

/// The bytes the Edit Data dialog opens on: the coloured block under the
/// cursor, otherwise a non-empty selection; `None` when neither exists.
pub open spec fn edit_range(app: App) -> Option<(usize, usize)> {
    match block_at(app.hex_view.blocks@, app.hex_view.offset, 0) {
        Some(r) => Some(r),
        None => {
            let sel = app.hex_view.selection;
            if sel.start != sel.end {
                Some(if sel.start <= sel.end { (sel.start, sel.end) } else { (sel.end, sel.start) })
            } else {
                None
            }
        },
    }
}

fn find_block(app: &App) -> (r: Option<(usize, usize)>)
    ensures
        r == block_at(app.hex_view.blocks@, app.hex_view.offset, 0),
        r matches Some((s, e)) ==> s <= e,
{
    let offset = app.hex_view.offset;
    let mut k: usize = 0;
    while k < app.hex_view.blocks.len()
        invariant
            k <= app.hex_view.blocks@.len(),
            block_at(app.hex_view.blocks@, offset, 0) == block_at(app.hex_view.blocks@, offset, k as nat),
            offset == app.hex_view.offset,
        decreases app.hex_view.blocks@.len() - k,
    {
        let b = &app.hex_view.blocks[k];
        if b.start <= offset && offset <= b.end {
            return Some((b.start, b.end));
        }
        k = k + 1;
    }
    None
}

/// What Ctrl+E with a block or selection does.
pub open spec fn edit_dialog_opened(a: App, b: App) -> bool {
    &&& a.file_info.is_read_only ==> {
            &&& error_shown(a, b, M::RoEditData.text(a.config.lang))
        }
    &&& !a.file_info.is_read_only ==> {
            &&& b.state == UIState::DialogEditData
            &&& b.hex_view.edit_dialog.focus == EditDialogFocus::Enc1
            &&& b.hex_view.edit_dialog.enc1_label() == a.enc1@
            &&& b.hex_view.edit_dialog.selection_anchor is None
            &&& match edit_range(a) {
                Some((start, end)) if start < a.file_info.buffer@.len() => {
                    let bytes = shown_range(a, start, end);
                    &&& b.hex_view.edit_dialog.bytes() == bytes
                    &&& b.hex_view.edit_dialog.input_hex.value@ == hex_upper(bytes)
                    &&& b.hex_view.edit_dialog.input_enc1.value@ == escaped_view(bytes, a.enc1@)
                    &&& crate::app::view_went(a, b, start)
                },
                _ => {
                    &&& b.hex_view.edit_dialog.bytes().len() == 0
                    &&& b.hex_view.offset == a.hex_view.offset
                },
            }
            &&& b.file_info == a.file_info
            &&& b.hex_view.changed_bytes == a.hex_view.changed_bytes
        }
}

/// Opens the Edit Data dialog on the coloured block under the cursor, or else
/// on the selection, with every field showing those bytes (pending edits
/// included) and the cursor moved to their start. A read-only file refuses.
pub fn open_edit_dialog(app: &mut App)
    ensures
        edit_dialog_opened(*old(app), *final(app)),
{
    if app.file_info.is_read_only {
        app.read_only_error(M::RoEditData);
        return;
    }
    let ghost start_app = *app;
    app.state = UIState::DialogEditData;
    app.hex_view.edit_dialog.reset();
    let enc1 = string_from(app.enc1.as_str());
    app.hex_view.edit_dialog.set_enc1(enc1.as_str());
    app.hex_view.edit_dialog.focus = EditDialogFocus::Enc1;
    let range = match find_block(app) {
        Some(r) => Some(r),
        None => {
            let start = app.hex_view.selection.start;
            let end = app.hex_view.selection.end;
            if start != end {
                Some(if start <= end { (start, end) } else { (end, start) })
            } else {
                None
            }
        },
    };
    assert(range == edit_range(start_app));
    proof {
        lemma_block_at_bounds(start_app.hex_view.blocks@, start_app.hex_view.offset, 0);
    }
    if let Some((start, end)) = range {
        let len = app.file_info.buffer.len();
        assert(shown_range(*app, start, end) =~= shown_range(start_app, start, end));
        if start < len {
            let last = if end < len - 1 { end } else { len - 1 };
            let mut bytes: Vec<u8> = Vec::new();
            let n = last - start + 1;
            let ghost want = shown_range(*app, start, end);
            while bytes.len() < n
                invariant
                    bytes@.len() <= n,
                    n == want.len(),
                    start + n <= len,
                    len == app.file_info.buffer@.len(),
                    want == shown_range(*app, start, end),
                    bytes@ == want.take(bytes@.len() as int),
                decreases n - bytes@.len(),
            {
                let i = bytes.len();
                let b = crate::hex::edit::displayed_byte(app, start + i);
                bytes.push(b);
                assert(bytes@ =~= want.take(bytes@.len() as int));
            }
            assert(bytes@ =~= want);
            app.hex_view.edit_dialog.load_bytes(bytes.as_slice());
            app.goto(start);
        }
    }
}

// ---------------------------------------------------------------------------
// Lossy UTF-8
// ---------------------------------------------------------------------------

/// Whether the invalid sequence `utf8_at` reports at `p` is a well-formed
/// beginning cut off by the end of the input.
pub open spec fn utf8_truncated(b: Seq<u8>, p: int) -> bool {
    let x = b[p];
    let w = lead_len(x);
    &&& x >= 0x80
    &&& w > 0
    &&& (p + 1 >= b.len() || (second_ok(x, b[p + 1]) && w > 2 && (p + 2 >= b.len() || (cont(
        b[p + 2],
    ) && w > 3 && p + 3 >= b.len()))))
}

/// `b[p..]` decoded as `String::from_utf8_lossy` does: every invalid sequence
/// (its well-formed beginning, at most three bytes) becomes one U+FFFD.
pub open spec fn lossy_utf8(b: Seq<u8>, p: int) -> Seq<char>
    decreases b.len() - p,
{
    if p < 0 || p >= b.len() {
        seq![]
    } else {
        let (ok, n) = utf8_at(b, p);
        if ok {
            seq![utf8_char_of(b, p, n)] + lossy_utf8(b, p + n)
        } else if utf8_truncated(b, p) {
            seq!['\u{FFFD}']
        } else {
            seq!['\u{FFFD}'] + lossy_utf8(b, p + n)
        }
    }
}

fn utf8_truncated_exec(b: &[u8], p: usize) -> (t: bool)
    requires
        p < b@.len(),
    ensures
        t == utf8_truncated(b@, p as int),
{
    let x = b[p];
    let w: usize = if 0xC2 <= x && x <= 0xDF {
        2
    } else if 0xE0 <= x && x <= 0xEF {
        3
    } else if 0xF0 <= x && x <= 0xF4 {
        4
    } else {
        0
    };
    if x < 0x80 || w == 0 {
        return false;
    }
    let n = b.len();
    if n - p <= 1 {
        return true;
    }
    let y = b[p + 1];
    let ok2 = if 0xC2 <= x && x <= 0xDF {
        0x80 <= y && y <= 0xBF
    } else if x == 0xE0 {
        0xA0 <= y && y <= 0xBF
    } else if (0xE1 <= x && x <= 0xEC) || x == 0xEE || x == 0xEF {
        0x80 <= y && y <= 0xBF
    } else if x == 0xED {
        0x80 <= y && y <= 0x9F
    } else if x == 0xF0 {
        0x90 <= y && y <= 0xBF
    } else if 0xF1 <= x && x <= 0xF3 {
        0x80 <= y && y <= 0xBF
    } else if x == 0xF4 {
        0x80 <= y && y <= 0x8F
    } else {
        false
    };
    if !ok2 || w <= 2 {
        return false;
    }
    if n - p <= 2 {
        return true;
    }
    let z = b[p + 2];
    0x80 <= z && z <= 0xBF && w > 3 && n - p <= 3
}

/// `bytes` decoded leniently as UTF-8 (`String::from_utf8_lossy`).
pub fn from_utf8_lossy(bytes: &[u8]) -> (s: String)
    ensures
        s@ == lossy_utf8(bytes@, 0),
{
    let mut out = String::new();
    let mut pos: usize = 0;
    while pos < bytes.len()
        invariant
            pos <= bytes@.len(),
            out@ + lossy_utf8(bytes@, pos as int) == lossy_utf8(bytes@, 0),
        decreases bytes.len() - pos,
    {
        let ghost before = out@;
        let (ok, n) = utf8_at_exec(bytes, pos);
        if ok {
            if n == 1 {
                push_char(&mut out, bytes[pos] as char);
            } else {
                let v = scalar_exec(bytes, pos, n);
                match char_from_u32(v) {
                    Some(c) => push_char(&mut out, c),
                    None => {},
                }
            }
            proof {
                assert(out@ + lossy_utf8(bytes@, pos + n) =~= before + lossy_utf8(bytes@, pos as int));
            }
            pos = pos + n;
        } else if utf8_truncated_exec(bytes, pos) {
            push_char(&mut out, '\u{FFFD}');
            proof {
                assert(out@ + lossy_utf8(bytes@, bytes@.len() as int) =~= before + lossy_utf8(bytes@, pos as int));
            }
            pos = bytes.len();
        } else {
            push_char(&mut out, '\u{FFFD}');
            proof {
                assert(out@ + lossy_utf8(bytes@, pos + n) =~= before + lossy_utf8(bytes@, pos as int));
            }
            pos = pos + n;
        }
    }
    assert(out@ =~= out@ + lossy_utf8(bytes@, pos as int));
    out
}

// ---------------------------------------------------------------------------
// The dialog's keys
// ---------------------------------------------------------------------------

/// `d` with field `f` replaced by `t`.
pub open spec fn with_field(d: EditDialog, f: EditDialogFocus, t: TextInput) -> EditDialog {
    match f {
        EditDialogFocus::Enc1 => EditDialog { input_enc1: t, ..d },
        EditDialogFocus::Utf8 => EditDialog { input_utf8: t, ..d },
        EditDialogFocus::Utf16Le => EditDialog { input_utf16le: t, ..d },
        EditDialogFocus::Hex => EditDialog { input_hex: t, ..d },
    }
}

/// `d` with the cursor of the field that has the keyboard at `c`.
pub open spec fn cursor_at(d: EditDialog, c: usize) -> EditDialog {
    with_field(d, d.focus, TextInput { value: d.field(d.focus).value, cursor: c })
}

/// Where a cursor key held with Shift moves the cursor `c` of a text of
/// `len` characters.
pub open spec fn shift_moved(c: usize, len: nat, m: InputEdit) -> usize {
    match m {
        InputEdit::Left => if c > 0 { (c - 1) as usize } else { c },
        InputEdit::Right => if c < len { (c + 1) as usize } else { c },
        InputEdit::Home => 0,
        _ => len as usize,
    }
}

/// What a Shift+cursor key does: the selection starts where the cursor was
/// (unless it had started), and the cursor moves.
pub open spec fn shift_selected(d: EditDialog, m: InputEdit) -> EditDialog {
    let t = d.field(d.focus);
    let anchor = match d.selection_anchor {
        Some(a) => a,
        None => t.cursor,
    };
    EditDialog {
        selection_anchor: Some(anchor),
        ..cursor_at(d, shift_moved(t.cursor, t.value@.len(), m))
    }
}

/// The text Ctrl+C copies: the selected characters (the span clamped to the
/// text), or the whole field without a selection.
pub open spec fn copied_text(d: EditDialog) -> Seq<char> {
    let v = d.field(d.focus).value@;
    match d.get_selection_range_spec() {
        Some((s, e)) => {
            let s2 = if s < v.len() { s as int } else { v.len() as int };
            let e2 = if e < v.len() { e as int } else { v.len() as int };
            v.subrange(s2, e2)
        },
        None => v,
    }
}

/// `e` is `d` with the field that has the keyboard showing `v` with the
/// cursor at `c`, everything else as it was.
pub open spec fn focus_field_set(d: EditDialog, e: EditDialog, v: Seq<char>, c: nat) -> bool {
    &&& e.field(d.focus).value@ == v
    &&& e.field(d.focus).cursor == c
    &&& forall|g: EditDialogFocus| g != d.focus ==> #[trigger] e.field(g) == d.field(g)
    &&& e.bytes() == d.bytes()
    &&& same_but_fields(d, e)
}

/// The selection deleted as `delete_selection` does it.
pub open spec fn selection_deleted(d: EditDialog, e: EditDialog) -> bool {
    let (start, end) = d.get_selection_range_spec()->0;
    let v = d.field(d.focus).value@;
    let s = if start < v.len() { start as int } else { v.len() as int };
    let x = if end < v.len() { end as int } else { v.len() as int };
    &&& focus_field_set(EditDialog { selection_anchor: None, ..d }, e, v.take(s) + v.skip(x), s as nat)
}

/// Pasted text as a field takes it: hex digits only in the hex field, and
/// CR, LF and tab written as escapes elsewhere.
pub open spec fn paste_cleaned(f: EditDialogFocus, s: Seq<char>) -> Seq<char>
    decreases s.len(),
{
    if f == EditDialogFocus::Hex {
        hex_digits_of(s)
    } else if s.len() == 0 {
        seq![]
    } else {
        let c = s.last();
        paste_cleaned(f, s.drop_last()) + if c == '\r' {
            seq!['\\', 'r']
        } else if c == '\n' {
            seq!['\\', 'n']
        } else if c == '\t' {
            seq!['\\', 't']
        } else {
            seq![c]
        }
    }
}

/// `v` with `s` typed at cursor `c` (brought inside the text first), and
/// where the cursor ends.
pub open spec fn typed_in(v: Seq<char>, c: nat, s: Seq<char>) -> (Seq<char>, nat) {
    let k = if c <= v.len() { c } else { v.len() };
    (v.take(k as int) + s + v.skip(k as int), k + s.len())
}

/// The entry an Up (`up`) or Down step through the history shows, by view,
/// `cur` being the field being typed; `None` for an empty history.
pub open spec fn history_entry(q: HistoryQueue<DialogHistoryEntry>, up: bool, cur: (EditDialogFocus, Seq<char>)) -> Option<
    (EditDialogFocus, Seq<char>),
> {
    let h = q.history@;
    let len = h.len();
    if len == 0 {
        None
    } else if up {
        let k: int = match q.history_index {
            None => len - 1,
            Some(i) => if i == 0 { 0 } else { i - 1 },
        };
        Some(h[k]@)
    } else {
        match q.history_index {
            None => Some(h[len - 1]@),
            Some(i) => if i >= len - 1 {
                Some(
                    match q.draft {
                        Some(d) => d@,
                        None => cur,
                    },
                )
            } else {
                Some(h[i + 1]@)
            },
        }
    }
}

/// The walk's position and draft after that step.
pub open spec fn history_walked(q: HistoryQueue<DialogHistoryEntry>, r: HistoryQueue<DialogHistoryEntry>, up: bool, cur: (EditDialogFocus, Seq<char>)) -> bool {
    let h = q.history@;
    let len = h.len();
    &&& r.history@ == h
    &&& if len == 0 {
        r.history_index == q.history_index && r.draft == q.draft
    } else if up {
        let k: int = match q.history_index {
            None => len - 1,
            Some(i) => if i == 0 { 0 } else { i - 1 },
        };
        &&& r.history_index == Some(k as usize)
        &&& if q.history_index is None { r.draft matches Some(d) && d@ == cur } else { r.draft == q.draft }
    } else {
        match q.history_index {
            None => r.history_index == Some((len - 1) as usize) && (r.draft matches Some(d) && d@ == cur),
            Some(i) => if i >= len - 1 {
                r.history_index is None && r.draft is None
            } else {
                r.history_index == Some((i + 1) as usize) && r.draft == q.draft
            },
        }
    }
}

/// Whether the dialog's history walk points inside the history.
pub open spec fn history_wf(d: EditDialog) -> bool {
    d.history.history_index matches Some(i) ==> i < d.history.history@.len()
}

impl EditDialog {
    /// Moves the focus to the next (`forward`) or previous field, dropping
    /// the selection.
    pub fn focus_step(&mut self, forward: bool)
        ensures
            *final(self) == (EditDialog {
                selection_anchor: None,
                focus: if forward { next_focus(old(self).focus) } else { prev_focus(old(self).focus) },
                ..*old(self)
            }),
    {
        self.selection_anchor = None;
        self.focus = if forward { self.focus.next() } else { self.focus.prev() };
    }

    /// A Shift+cursor key (see `shift_selected`).
    pub fn shift_select(&mut self, m: InputEdit)
        ensures
            *final(self) == shift_selected(*old(self), m),
    {
        let cur = self.active_input().cursor;
        let len = chars_of(self.active_input().value.as_str()).len();
        if self.selection_anchor.is_none() {
            self.selection_anchor = Some(cur);
        }
        let c = match m {
            InputEdit::Left => if cur > 0 { cur - 1 } else { cur },
            InputEdit::Right => if cur < len { cur + 1 } else { cur },
            InputEdit::Home => 0,
            _ => len,
        };
        self.set_cursor(c);
    }

    fn set_cursor(&mut self, c: usize)
        ensures
            *final(self) == cursor_at(*old(self), c),
    {
        match self.focus {
            EditDialogFocus::Enc1 => self.input_enc1.cursor = c,
            EditDialogFocus::Utf8 => self.input_utf8.cursor = c,
            EditDialogFocus::Utf16Le => self.input_utf16le.cursor = c,
            EditDialogFocus::Hex => self.input_hex.cursor = c,
        }
    }

    /// Ctrl+A: the whole field selected, the cursor at its end.
    pub fn select_all(&mut self)
        ensures
            *final(self) == (EditDialog {
                selection_anchor: Some(0),
                ..cursor_at(*old(self), old(self).field(old(self).focus).value@.len() as usize)
            }),
    {
        let len = chars_of(self.active_input().value.as_str()).len();
        self.selection_anchor = Some(0);
        self.set_cursor(len);
    }

    /// The text Ctrl+C copies (see `copied_text`).
    pub fn copy_text(&self) -> (s: String)
        ensures
            s@ == copied_text(*self),
    {
        let chars = chars_of(self.active_input().value.as_str());
        match self.get_selection_range() {
            Some((start, end)) => {
                let s = if start < chars.len() { start } else { chars.len() };
                let e = if end < chars.len() { end } else { chars.len() };
                let mut out: Vec<char> = Vec::new();
                let mut i = s;
                while i < e
                    invariant
                        s <= i <= e <= chars@.len(),
                        out@ == chars@.subrange(s as int, i as int),
                    decreases e - i,
                {
                    out.push(chars[i]);
                    i = i + 1;
                    assert(out@ =~= chars@.subrange(s as int, i as int));
                }
                string_of(out.as_slice())
            },
            None => string_from(self.active_input().value.as_str()),
        }
    }

    /// Replaces the field with the keyboard by one showing `v` with the
    /// cursor at `c`.
    fn set_focus_field(&mut self, v: String, c: usize)
        ensures
            focus_field_set(*old(self), *final(self), v@, c as nat),
            final(self).selection_anchor == old(self).selection_anchor,
    {
        let ghost before = *self;
        self.set_active_input(TextInput::with_cursor(v, c));
        proof {
            assert forall|g: EditDialogFocus| g != before.focus implies #[trigger] self.field(g) == before.field(g) by {
                match g {
                    EditDialogFocus::Enc1 => {},
                    EditDialogFocus::Utf8 => {},
                    EditDialogFocus::Utf16Le => {},
                    EditDialogFocus::Hex => {},
                }
            }
        }
    }

    /// Types `s` at the cursor of the field with the keyboard.
    fn type_text(&mut self, s: &[char])
        ensures
            ({
                let (v, c) = typed_in(old(self).field(old(self).focus).value@, old(self).field(old(self).focus).cursor as nat, s@);
                focus_field_set(*old(self), *final(self), v, c)
            }),
    {
        let cs = chars_of(self.active_input().value.as_str());
        let cur = self.active_input().cursor;
        let k = if cur <= cs.len() { cur } else { cs.len() };
        let mut out: Vec<char> = Vec::new();
        let mut i: usize = 0;
        while i < k
            invariant
                i <= k <= cs@.len(),
                out@ == cs@.take(i as int),
            decreases k - i,
        {
            out.push(cs[i]);
            i = i + 1;
            assert(out@ =~= cs@.take(i as int));
        }
        let mut j: usize = 0;
        while j < s.len()
            invariant
                j <= s@.len(),
                out@ == cs@.take(k as int) + s@.take(j as int),
            decreases s@.len() - j,
        {
            out.push(s[j]);
            j = j + 1;
            assert(out@ =~= cs@.take(k as int) + s@.take(j as int));
        }
        assert(s@.take(s@.len() as int) =~= s@);
        let mut m: usize = k;
        while m < cs.len()
            invariant
                k <= m <= cs@.len(),
                out@ == cs@.take(k as int) + s@ + cs@.subrange(k as int, m as int),
            decreases cs@.len() - m,
        {
            out.push(cs[m]);
            m = m + 1;
            assert(out@ =~= cs@.take(k as int) + s@ + cs@.subrange(k as int, m as int));
        }
        assert(cs@.subrange(k as int, cs@.len() as int) =~= cs@.skip(k as int));
        let total = out.len();
        assert(k + s@.len() <= total);
        let v = string_of(out.as_slice());
        self.set_focus_field(v, k + s.len());
    }
}

/// `m` is `d` after `delete_selection`: the selection deleted when there is
/// one to delete, otherwise `d` unchanged.
pub open spec fn deleted_if_selected(d: EditDialog, m: EditDialog) -> bool {
    if d.get_selection_range_spec() is Some {
        selection_deleted(d, m)
    } else {
        m == d
    }
}

/// `e` is `d` with `e` applied to the field with the keyboard, if any.
pub open spec fn edited_by(d: EditDialog, e: EditDialog, ed: Option<InputEdit>) -> bool {
    match ed {
        None => e == d,
        Some(x) => {
            let t = d.field(d.focus);
            let (v, c) = input_edited(t.value@, t.cursor as nat, x);
            focus_field_set(d, e, v, c)
        },
    }
}

/// What a key that reaches the field does: a cursor key drops the
/// selection, Backspace or Delete removes a selection if there is one (and
/// nothing more), any other key first replaces a selection; then the field
/// takes the key and the others follow it.
pub open spec fn key_typed(d: EditDialog, e: EditDialog, key: KeyPress) -> bool {
    let erase = key.code == Key::Backspace || key.code == Key::Delete;
    let cursor = key.code == Key::Left || key.code == Key::Right || key.code == Key::Home || key.code == Key::End;
    if erase && d.get_selection_range_spec() is Some {
        exists|m: EditDialog| #[trigger] selection_deleted(d, m) && synced(m, e)
    } else {
        exists|m1: EditDialog, m2: EditDialog|
            #[trigger] edited_by(m1, m2, input_edit(key)) && synced(m2, e) && if cursor {
                m1 == EditDialog { selection_anchor: None, ..d }
            } else if erase {
                m1 == d
            } else {
                deleted_if_selected(d, m1)
            }
    }
}

/// What pasting `text` into the field with the keyboard does: a selection
/// is replaced, the text cleaned for the field (see `paste_cleaned`) is
/// typed at the cursor, and the others follow.
pub open spec fn text_pasted(d: EditDialog, e: EditDialog, text: Seq<char>) -> bool {
    exists|m1: EditDialog, m2: EditDialog|
        #[trigger] focus_field_set(
            m1,
            m2,
            typed_in(m1.field(m1.focus).value@, m1.field(m1.focus).cursor as nat, paste_cleaned(d.focus, text)).0,
            typed_in(m1.field(m1.focus).value@, m1.field(m1.focus).cursor as nat, paste_cleaned(d.focus, text)).1,
        ) && synced(m2, e) && deleted_if_selected(d, m1)
}

/// What a history step does to the dialog.
pub open spec fn history_stepped(d: EditDialog, e: EditDialog, up: bool) -> bool {
    let cur = (d.focus, d.field(d.focus).value@);
    &&& history_walked(d.history, e.history, up, cur)
    &&& match history_entry(d.history, up, cur) {
        None => e == EditDialog { selection_anchor: None, history: e.history, ..d },
        Some((f, v)) => exists|m: EditDialog|
            #[trigger] synced(m, e) && m.focus == f && m.selection_anchor is None && m.history == e.history
                && m.field(f).value@ == v && m.field(f).cursor == v.len() && (forall|g: EditDialogFocus|
                g != f ==> #[trigger] m.field(g) == d.field(g)) && m.bytes() == d.bytes() && m.enc1_label()
                == d.enc1_label(),
    }
}

/// Every field's text is short enough to count in a `usize`.
pub open spec fn fields_fit(d: EditDialog) -> bool {
    &&& d.input_enc1.value@.len() < usize::MAX
    &&& d.input_utf8.value@.len() < usize::MAX
    &&& d.input_utf16le.value@.len() < usize::MAX
    &&& d.input_hex.value@.len() < usize::MAX
}

impl EditDialog {
    /// Ctrl+Up (`up`) or Ctrl+Down: the next entry of the history fills its
    /// field, which takes the keyboard.
    pub fn history_step(&mut self, up: bool)
        requires
            history_wf(*old(self)),
        ensures
            history_stepped(*old(self), *final(self), up),
    {
        self.selection_anchor = None;
        let focus = self.focus;
        let val = string_from(self.active_input().value.as_str());
        let cur = DialogHistoryEntry { focus, value: val };
        let r = if up {
            self.history.navigate_up(&cur)
        } else {
            self.history.navigate_down(&cur)
        };
        match r {
            Some(entry) => {
                self.focus = entry.focus;
                let n = chars_of(entry.value.as_str()).len();
                let ghost before = *self;
                self.set_active_input(TextInput::with_cursor(entry.value, n));
                let ghost m = *self;
                self.sync_from_focus();
                assert(synced(m, *self));
                assert(forall|g: EditDialogFocus| g != m.focus ==> #[trigger] m.field(g) == before.field(g));
            },
            None => {},
        }
    }

    /// Pastes `text` into the field with the keyboard (see `text_pasted`).
    pub fn paste_text(&mut self, text: &str)
        ensures
            text_pasted(*old(self), *final(self), text@),
    {
        let focus = self.focus;
        if self.selection_anchor.is_some() {
            let _ = self.delete_selection();
        } else {
            assert(old(self).get_selection_range_spec() is None);
        }
        let ghost m1 = *self;
        let cs = chars_of(text);
        let clean = paste_clean(cs.as_slice(), focus);
        self.type_text(clean.as_slice());
        let ghost m2 = *self;
        self.sync_from_focus();
        proof {
            assert(synced(m2, *self));
            assert(deleted_if_selected(*old(self), m1));
            let (v, c) = typed_in(m1.field(m1.focus).value@, m1.field(m1.focus).cursor as nat, paste_cleaned(old(self).focus, text@));
            assert(focus_field_set(m1, m2, v, c));
        }
    }

    /// A key that reaches the field (see `key_typed`).
    pub fn type_key(&mut self, key: KeyPress)
        requires
            fields_fit(*old(self)),
        ensures
            key_typed(*old(self), *final(self), key),
    {
        let erase = key.code == Key::Backspace || key.code == Key::Delete;
        let cursor = key.code == Key::Left || key.code == Key::Right || key.code == Key::Home || key.code == Key::End;
        if cursor {
            self.selection_anchor = None;
        } else if erase {
            if self.delete_selection() {
                let ghost m = *self;
                self.sync_from_focus();
                assert(selection_deleted(*old(self), m) && synced(m, *self));
                return;
            }
        } else if self.selection_anchor.is_some() {
            let _ = self.delete_selection();
        }
        let ghost m1 = *self;
        match input_edit_for(key) {
            Some(e) => {
                let mut t = TextInput::empty();
                match self.focus {
                    EditDialogFocus::Enc1 => std::mem::swap(&mut t, &mut self.input_enc1),
                    EditDialogFocus::Utf8 => std::mem::swap(&mut t, &mut self.input_utf8),
                    EditDialogFocus::Utf16Le => std::mem::swap(&mut t, &mut self.input_utf16le),
                    EditDialogFocus::Hex => std::mem::swap(&mut t, &mut self.input_hex),
                }
                assert(t == m1.field(m1.focus));
                t.apply(e);
                match self.focus {
                    EditDialogFocus::Enc1 => self.input_enc1 = t,
                    EditDialogFocus::Utf8 => self.input_utf8 = t,
                    EditDialogFocus::Utf16Le => self.input_utf16le = t,
                    EditDialogFocus::Hex => self.input_hex = t,
                }
                assert(forall|g: EditDialogFocus| g != m1.focus ==> #[trigger] self.field(g) == m1.field(g));
            },
            None => {},
        }
        let ghost m2 = *self;
        self.sync_from_focus();
        proof {
            assert(synced(m2, *self));
            assert(edited_by(m1, m2, input_edit(key)));
            if cursor {
                assert(m1 == EditDialog { selection_anchor: None, ..*old(self) });
            } else if erase {
                assert(m1 == *old(self));
            } else {
                assert(deleted_if_selected(*old(self), m1));
            }
        }
    }
}

/// `cs` cleaned for field `f` (see `paste_cleaned`).
fn paste_clean(cs: &[char], f: EditDialogFocus) -> (r: Vec<char>)
    ensures
        r@ == paste_cleaned(f, cs@),
{
    if f == EditDialogFocus::Hex {
        return keep_hex_digits(cs);
    }
    let mut out: Vec<char> = Vec::new();
    let mut i: usize = 0;
    while i < cs.len()
        invariant
            i <= cs@.len(),
            f != EditDialogFocus::Hex,
            out@ == paste_cleaned(f, cs@.take(i as int)),
        decreases cs@.len() - i,
    {
        let c = cs[i];
        if c == '\r' {
            out.push('\\');
            out.push('r');
        } else if c == '\n' {
            out.push('\\');
            out.push('n');
        } else if c == '\t' {
            out.push('\\');
            out.push('t');
        } else {
            out.push(c);
        }
        proof {
            let t = cs@.take(i + 1);
            assert(t.drop_last() =~= cs@.take(i as int));
            assert(t.last() == c);
        }
        i = i + 1;
        assert(out@ =~= paste_cleaned(f, cs@.take(i as int)));
    }
    assert(cs@.take(cs@.len() as int) =~= cs@);
    out
}

/// What a key asks for in the Edit Data dialog.
#[derive(Clone, Copy, PartialEq, Eq, Debug, Structural)]
pub enum EditDialogCommand {
    Close,
    /// Tab, Up or Down: the next (`true`) or previous field.
    Focus(bool),
    /// Ctrl+Up (`true`) or Ctrl+Down: a step through the history.
    History(bool),
    /// Enter: stage the bytes at the cursor and close.
    Commit,
    /// Shift with a cursor key.
    Select(InputEdit),
    SelectAll,
    Copy,
    Paste,
    /// Any other key goes to the field.
    Type(KeyPress),
}

/// What a key asks for in the Edit Data dialog.
pub open spec fn edit_dialog_command(key: KeyPress) -> EditDialogCommand {
    match key.code {
        Key::Esc => EditDialogCommand::Close,
        Key::Tab => EditDialogCommand::Focus(!key.shift),
        Key::BackTab => EditDialogCommand::Focus(false),
        Key::Up => if key.ctrl { EditDialogCommand::History(true) } else { EditDialogCommand::Focus(false) },
        Key::Down => if key.ctrl { EditDialogCommand::History(false) } else { EditDialogCommand::Focus(true) },
        Key::Enter => EditDialogCommand::Commit,
        Key::Left => if key.shift { EditDialogCommand::Select(InputEdit::Left) } else { EditDialogCommand::Type(key) },
        Key::Right => if key.shift { EditDialogCommand::Select(InputEdit::Right) } else { EditDialogCommand::Type(key) },
        Key::Home => if key.shift { EditDialogCommand::Select(InputEdit::Home) } else { EditDialogCommand::Type(key) },
        Key::End => if key.shift { EditDialogCommand::Select(InputEdit::End) } else { EditDialogCommand::Type(key) },
        Key::Char(c) => if key.ctrl && (c == 'a' || c == 'A') {
            EditDialogCommand::SelectAll
        } else if key.ctrl && (c == 'c' || c == 'C') {
            EditDialogCommand::Copy
        } else if key.ctrl && (c == 'v' || c == 'V') {
            EditDialogCommand::Paste
        } else {
            EditDialogCommand::Type(key)
        },
        _ => EditDialogCommand::Type(key),
    }
}

/// Classifies a key in the Edit Data dialog (see `edit_dialog_command`).
pub fn edit_dialog_command_for(key: KeyPress) -> (c: EditDialogCommand)
    ensures
        c == edit_dialog_command(key),
{
    match key.code {
        Key::Esc => EditDialogCommand::Close,
        Key::Tab => EditDialogCommand::Focus(!key.shift),
        Key::BackTab => EditDialogCommand::Focus(false),
        Key::Up => if key.ctrl { EditDialogCommand::History(true) } else { EditDialogCommand::Focus(false) },
        Key::Down => if key.ctrl { EditDialogCommand::History(false) } else { EditDialogCommand::Focus(true) },
        Key::Enter => EditDialogCommand::Commit,
        Key::Left => if key.shift { EditDialogCommand::Select(InputEdit::Left) } else { EditDialogCommand::Type(key) },
        Key::Right => if key.shift { EditDialogCommand::Select(InputEdit::Right) } else { EditDialogCommand::Type(key) },
        Key::Home => if key.shift { EditDialogCommand::Select(InputEdit::Home) } else { EditDialogCommand::Type(key) },
        Key::End => if key.shift { EditDialogCommand::Select(InputEdit::End) } else { EditDialogCommand::Type(key) },
        Key::Char(c) => if key.ctrl && (c == 'a' || c == 'A') {
            EditDialogCommand::SelectAll
        } else if key.ctrl && (c == 'c' || c == 'C') {
            EditDialogCommand::Copy
        } else if key.ctrl && (c == 'v' || c == 'V') {
            EditDialogCommand::Paste
        } else {
            EditDialogCommand::Type(key)
        },
        _ => EditDialogCommand::Type(key),
    }
}

/// What Enter does: the typed value joins the history unless it is blank,
/// the bytes the fields spell are staged from the cursor on (as many as fit
/// in the file) with the cursor after them, and the dialog closes empty.
pub open spec fn committed(a: App, b: App) -> bool {
    let d = a.hex_view.edit_dialog;
    let e = b.hex_view.edit_dialog;
    let v = d.field(d.focus).value@;
    let bytes = d.bytes();
    let ofs = a.hex_view.offset;
    let n = paste_count(ofs, bytes, a.file_info.buffer@.len());
    let (pm, ph) = pasted(a.hex_view.changed_bytes@, ofs, bytes, n, a.file_info.size);
    &&& views(e.history.history@) == if trim(v).len() > 0 {
        pushed(views(d.history.history@), (d.focus, v))
    } else {
        views(d.history.history@)
    }
    &&& fresh_edit_dialog(e, EditDialog { history: e.history, ..d }, d.enc1_label())
    &&& b.hex_view.changed_bytes@ == pm
    &&& b.hex_view.changed_history@ == a.hex_view.changed_history@ + ph
    &&& if bytes.len() > 0 { crate::app::view_went(a, b, (ofs + n) as usize) } else { crate::app::view_stayed(a, b) }
    &&& b.hex_view == (HexView {
        changed_bytes: b.hex_view.changed_bytes,
        changed_history: b.hex_view.changed_history,
        offset: b.hex_view.offset,
        cursor: b.hex_view.cursor,
        edit_dialog: e,
        ..a.hex_view
    })
    &&& b == (App { hex_view: b.hex_view, reader: b.reader, state: UIState::Normal, ..a })
}

/// What carrying out `cmd` in the Edit Data dialog does.
pub open spec fn edit_dialog_post(a: App, b: App, cmd: EditDialogCommand, act: HexAction) -> bool {
    let d = a.hex_view.edit_dialog;
    let e = b.hex_view.edit_dialog;
    let only_dialog = b == (App { hex_view: HexView { edit_dialog: e, ..a.hex_view }, ..a });
    match cmd {
        EditDialogCommand::Close => {
            &&& act is Nothing
            &&& fresh_edit_dialog(e, d, d.enc1_label())
            &&& b == (App { state: UIState::Normal, hex_view: HexView { edit_dialog: e, ..a.hex_view }, ..a })
        },
        EditDialogCommand::Focus(forward) => act is Nothing && only_dialog && e == (EditDialog {
            selection_anchor: None,
            focus: if forward { next_focus(d.focus) } else { prev_focus(d.focus) },
            ..d
        }),
        EditDialogCommand::History(up) => act is Nothing && only_dialog && history_stepped(d, e, up),
        EditDialogCommand::Commit => act is Nothing && committed(a, b),
        EditDialogCommand::Select(m) => act is Nothing && only_dialog && e == shift_selected(d, m),
        EditDialogCommand::SelectAll => act is Nothing && only_dialog && e == (EditDialog {
            selection_anchor: Some(0),
            ..cursor_at(d, d.field(d.focus).value@.len() as usize)
        }),
        EditDialogCommand::Copy => (act matches HexAction::Copy(s) && s@ == copied_text(d)) && b == a,
        EditDialogCommand::Paste => act is Paste && b == a,
        EditDialogCommand::Type(k) => act is Nothing && only_dialog && key_typed(d, e, k),
    }
}

#[verifier::rlimit(60)]
fn commit_edit_dialog(app: &mut App) -> (act: HexAction)
    ensures
        edit_dialog_post(*old(app), *final(app), EditDialogCommand::Commit, act),
{
    let focus = app.hex_view.edit_dialog.focus;
    let val = string_from(app.hex_view.edit_dialog.active_input().value.as_str());
    let cs = chars_of(val.as_str());
    let t = crate::text::trim_chars(cs.as_slice());
    if t.len() > 0 {
        app.hex_view.edit_dialog.history.push(DialogHistoryEntry { focus, value: val });
    } else {
        app.hex_view.edit_dialog.history.reset_nav();
    }
    let bytes = vstd::slice::slice_to_vec(app.hex_view.edit_dialog.get_bytes());
    let start = app.hex_view.offset;
    let len = app.file_info.buffer.len();
    let n: usize = if start >= len {
        0
    } else if bytes.len() < len - start {
        bytes.len()
    } else {
        len - start
    };
    let ghost a = *app;
    let mut i: usize = 0;
    assert(a.hex_view.changed_history@ + Seq::<usize>::empty() =~= a.hex_view.changed_history@);
    while i < n
        invariant
            i <= n,
            n == paste_count(start, bytes@, len as nat),
            n > 0 ==> start + n <= len,
            len == a.file_info.buffer@.len(),
            start == a.hex_view.offset,
            app.hex_view.changed_bytes@ == pasted(a.hex_view.changed_bytes@, start, bytes@, i as nat, a.file_info.size).0,
            app.hex_view.changed_history@ == a.hex_view.changed_history@ + pasted(a.hex_view.changed_bytes@, start, bytes@, i as nat, a.file_info.size).1,
            app.hex_view.redo_history == a.hex_view.redo_history,
            app.hex_view.nibble_pending == a.hex_view.nibble_pending,
            app.hex_view.same_but_edits(a.hex_view),
            app.same_but_hex_view(a),
        decreases n - i,
    {
        let k = start + i;
        record_edit(app, k, bytes[i]);
        i = i + 1;
        assert(app.hex_view.changed_history@ =~= a.hex_view.changed_history@ + pasted(
            a.hex_view.changed_bytes@,
            start,
            bytes@,
            i as nat,
            a.file_info.size,
        ).1);
    }
    if bytes.len() > 0 {
        app.goto(start + n);
    }
    app.hex_view.edit_dialog.reset();
    app.state = UIState::Normal;
    HexAction::Nothing
}

/// Carries out `cmd` in the Edit Data dialog (see `edit_dialog_post`).
pub fn run_edit_dialog_command(app: &mut App, cmd: EditDialogCommand) -> (act: HexAction)
    requires
        history_wf(old(app).hex_view.edit_dialog),
        fields_fit(old(app).hex_view.edit_dialog),
    ensures
        edit_dialog_post(*old(app), *final(app), cmd, act),
{
    match cmd {
        EditDialogCommand::Close => {
            app.hex_view.edit_dialog.reset();
            app.state = UIState::Normal;
            HexAction::Nothing
        },
        EditDialogCommand::Focus(forward) => {
            app.hex_view.edit_dialog.focus_step(forward);
            HexAction::Nothing
        },
        EditDialogCommand::History(up) => {
            app.hex_view.edit_dialog.history_step(up);
            HexAction::Nothing
        },
        EditDialogCommand::Commit => commit_edit_dialog(app),
        EditDialogCommand::Select(m) => {
            app.hex_view.edit_dialog.shift_select(m);
            HexAction::Nothing
        },
        EditDialogCommand::SelectAll => {
            app.hex_view.edit_dialog.select_all();
            HexAction::Nothing
        },
        EditDialogCommand::Copy => HexAction::Copy(app.hex_view.edit_dialog.copy_text()),
        EditDialogCommand::Paste => HexAction::Paste,
        EditDialogCommand::Type(k) => {
            app.hex_view.edit_dialog.type_key(k);
            HexAction::Nothing
        },
    }
}

/// Handles a key in the Edit Data dialog (see `edit_dialog_command` and
/// `edit_dialog_post`); Ctrl+V leaves reading the clipboard to the caller,
/// which hands the text to `EditDialog::paste_text`.
pub fn dialog_edit_events(app: &mut App, key: KeyPress) -> (act: HexAction)
    requires
        history_wf(old(app).hex_view.edit_dialog),
        fields_fit(old(app).hex_view.edit_dialog),
    ensures
        edit_dialog_post(*old(app), *final(app), edit_dialog_command(key), act),
{
    let cmd = edit_dialog_command_for(key);
    run_edit_dialog_command(app, cmd)
}

} // verus!
