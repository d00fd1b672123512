//! The layout arithmetic shared by the dialogs that draw boxed field rows.
use vstd::prelude::*;

use unicode_width::UnicodeWidthChar;

use crate::app::{after_goto, view_bpl, App};
use crate::hex::events::{Key, KeyPress};
use crate::reader::Reader;
use crate::text::{chars_of, push_char, push_str, string_from, string_of};

verus! {

/// The display width `unicode-width` gives `c` (`UnicodeWidthChar::width`),
/// `None` for a control character.
pub uninterp spec fn char_width(c: char) -> Option<usize>;

/// Display width of `c` in terminal columns (`UnicodeWidthChar::width`).
/// Stated from the crate's source: printable ASCII is one column, the C0 and
/// C1 controls and DEL have no width, and every other width fits in a byte.
/// Which width a non-ASCII character has is left to the crate's tables.
#[verifier::external_body]
fn width_of(c: char) -> (w: Option<usize>)
    ensures
        w == char_width(c),
        ('\u{20}' <= c && c < '\u{7F}') ==> w == Some(1usize),
        (c < '\u{20}' || ('\u{7F}' <= c && c < '\u{A0}')) ==> w is None,
        w matches Some(x) ==> x <= 255,
{
    c.width()
}

/// Columns `c` advances the cursor by: its width, or none for a control.
pub open spec fn cols_of(c: char) -> nat {
    match char_width(c) {
        Some(w) => w as nat,
        None => 0,
    }
}

/// The index of the first character of `cs[i..]` that starts at or after
/// terminal column `column`, `cols` being the column `cs[i]` starts at.
pub open spec fn index_at_column(cs: Seq<char>, column: nat, i: int, cols: nat) -> nat
    decreases cs.len() - i,
{
    if i < 0 || i >= cs.len() {
        cs.len()
    } else if cols >= column {
        i as nat
    } else {
        index_at_column(cs, column, i + 1, cols + cols_of(cs[i]))
    }
}

/// Index of the first character at or after terminal column `column`, or the
/// length when the text ends first.
pub fn char_index_at_column(chars: &[char], column: usize) -> (r: usize)
    ensures
        r == index_at_column(chars@, column as nat, 0, 0),
{
    let mut cols: usize = 0;
    let mut i: usize = 0;
    while i < chars.len()
        invariant
            i <= chars@.len(),
            cols <= column,
            index_at_column(chars@, column as nat, 0, 0) == if cols < column {
                index_at_column(chars@, column as nat, i as int, cols as nat)
            } else if i < chars@.len() {
                i as nat
            } else {
                chars@.len()
            },
        decreases chars.len() - i,
    {
        if cols >= column {
            return i;
        }
        let w: usize = match width_of(chars[i]) {
            Some(x) => x,
            None => 0,
        };
        proof {
            if cols + w >= column {
                lemma_index_at_column_saturates(chars@, column as nat, i + 1, (cols + w) as nat);
            }
        }
        cols = if w >= column - cols { column } else { cols + w };
        i = i + 1;
    }
    chars.len()
}

/// Once the running column reaches `column`, the answer is the next index.
proof fn lemma_index_at_column_saturates(cs: Seq<char>, column: nat, i: int, cols: nat)
    requires
        0 <= i <= cs.len(),
        cols >= column,
    ensures
        index_at_column(cs, column, i, cols) == if i < cs.len() { i as nat } else { cs.len() },
{
}

/// Width of the longest label, in characters, so every `:` and `[` lines up.
pub fn label_width(labels: &[&str]) -> (w: usize)
    ensures
        forall|i: int| 0 <= i < labels@.len() ==> (#[trigger] labels@[i])@.len() <= w,
        labels@.len() == 0 ==> w == 0,
        labels@.len() > 0 ==> exists|i: int| 0 <= i < labels@.len() && (#[trigger] labels@[i])@.len() == w,
{
    let mut w: usize = 0;
    let mut i: usize = 0;
    while i < labels.len()
        invariant
            i <= labels@.len(),
            forall|j: int| 0 <= j < i ==> (#[trigger] labels@[j])@.len() <= w,
            i == 0 ==> w == 0,
            i > 0 ==> exists|j: int| 0 <= j < i && (#[trigger] labels@[j])@.len() == w,
        decreases labels.len() - i,
    {
        let n = chars_of(labels[i]).len();
        if n > w || i == 0 {
            w = if n > w { n } else { w };
        }
        proof {
            if i == 0 {
                assert(labels@[0]@.len() == w);
            }
        }
        i = i + 1;
    }
    w
}

/// `label` left-aligned in `width` columns of characters.
pub open spec fn padded(label: Seq<char>, width: nat) -> Seq<char> {
    if label.len() >= width {
        label
    } else {
        label + Seq::new((width - label.len()) as nat, |_i: int| ' ')
    }
}

/// `"  <label> : ["`, the fixed part of a field row before its value.
pub fn field_prefix(label: &str, label_width: usize) -> (s: String)
    ensures
        s@ == "  "@ + padded(label@, label_width as nat) + " : ["@,
{
    let mut s = string_from("  ");
    push_str(&mut s, label);
    let n = chars_of(label).len();
    let mut k = n;
    let ghost start = s@;
    while k < label_width
        invariant
            n == label@.len(),
            n <= k,
            k <= label_width || k == n,
            s@ == start + Seq::new((k - n) as nat, |_i: int| ' '),
        decreases label_width - k,
    {
        push_char(&mut s, ' ');
        k = k + 1;
        assert(s@ =~= start + Seq::new((k - n) as nat, |_i: int| ' '));
    }
    push_str(&mut s, " : [");
    assert(s@ =~= "  "@ + padded(label@, label_width as nat) + " : ["@);
    s
}

/// A one-line text field: its text and the cursor's position, counted in
/// characters.
pub struct TextInput {
    pub value: String,
    pub cursor: usize,
}

impl TextInput {
    /// An empty field.
    pub fn empty() -> (t: Self)
        ensures
            t.value@.len() == 0,
            t.cursor == 0,
    {
        TextInput { value: String::new(), cursor: 0 }
    }

    /// A field holding `value`, the cursor after its last character.
    pub fn new(value: String) -> (t: Self)
        ensures
            t.value@ == value@,
            t.cursor == value@.len(),
    {
        let n = chars_of(value.as_str()).len();
        TextInput { value, cursor: n }
    }

    /// A field holding `value`, the cursor at `cursor`.
    pub fn with_cursor(value: String, cursor: usize) -> (t: Self)
        ensures
            t.value@ == value@,
            t.cursor == cursor,
    {
        TextInput { value, cursor }
    }
}

/// An edit of a text field.
#[derive(Clone, Copy, PartialEq, Eq, Debug, Structural)]
pub enum InputEdit {
    Insert(char),
    /// Backspace: the character before the cursor goes.
    DeletePrev,
    /// Delete: the character at the cursor goes.
    DeleteNext,
    Left,
    Right,
    Home,
    End,
}

/// The edit a key makes in a text field: a character without Ctrl or Alt
/// is typed, Backspace and Delete remove one, the arrows, Home and End move
/// the cursor; other keys make none.
pub open spec fn input_edit(key: KeyPress) -> Option<InputEdit> {
    match key.code {
        Key::Char(c) => if !key.ctrl && !key.alt { Some(InputEdit::Insert(c)) } else { None },
        Key::Backspace => Some(InputEdit::DeletePrev),
        Key::Delete => Some(InputEdit::DeleteNext),
        Key::Left => Some(InputEdit::Left),
        Key::Right => Some(InputEdit::Right),
        Key::Home => Some(InputEdit::Home),
        Key::End => Some(InputEdit::End),
        _ => None,
    }
}

/// The edit a key makes in a text field (see `input_edit`).
pub fn input_edit_for(key: KeyPress) -> (e: Option<InputEdit>)
    ensures
        e == input_edit(key),
{
    match key.code {
        Key::Char(c) => if !key.ctrl && !key.alt { Some(InputEdit::Insert(c)) } else { None },
        Key::Backspace => Some(InputEdit::DeletePrev),
        Key::Delete => Some(InputEdit::DeleteNext),
        Key::Left => Some(InputEdit::Left),
        Key::Right => Some(InputEdit::Right),
        Key::Home => Some(InputEdit::Home),
        Key::End => Some(InputEdit::End),
        _ => None,
    }
}

/// The text and cursor after `e`, the cursor first brought inside the text.
pub open spec fn input_edited(v: Seq<char>, cursor: nat, e: InputEdit) -> (Seq<char>, nat) {
    let c = if cursor <= v.len() { cursor } else { v.len() };
    match e {
        InputEdit::Insert(ch) => (v.take(c as int).push(ch) + v.skip(c as int), c + 1),
        InputEdit::DeletePrev => if c > 0 {
            (v.take((c - 1) as int) + v.skip(c as int), (c - 1) as nat)
        } else {
            (v, c)
        },
        InputEdit::DeleteNext => if c < v.len() {
            (v.take(c as int) + v.skip((c + 1) as int), c)
        } else {
            (v, c)
        },
        InputEdit::Left => (v, if c > 0 { (c - 1) as nat } else { 0 }),
        InputEdit::Right => (v, if c < v.len() { c + 1 } else { c }),
        InputEdit::Home => (v, 0),
        InputEdit::End => (v, v.len()),
    }
}

fn copy_chars(out: &mut Vec<char>, cs: &[char], from: usize, to: usize)
    requires
        from <= to <= cs@.len(),
    ensures
        final(out)@ == old(out)@ + cs@.subrange(from as int, to as int),
{
    let mut i = from;
    while i < to
        invariant
            from <= i <= to <= cs@.len(),
            out@ == old(out)@ + cs@.subrange(from as int, i as int),
        decreases to - i,
    {
        out.push(cs[i]);
        i = i + 1;
        assert(out@ =~= old(out)@ + cs@.subrange(from as int, i as int));
    }
}

impl TextInput {
    /// Applies `e` (see `input_edited`).
    pub fn apply(&mut self, e: InputEdit)
        requires
            old(self).value@.len() < usize::MAX,
        ensures
            (final(self).value@, final(self).cursor as nat) == input_edited(old(self).value@, old(self).cursor as nat, e),
    {
        let cs = chars_of(self.value.as_str());
        let n = cs.len();
        let c = if self.cursor <= n { self.cursor } else { n };
        match e {
            InputEdit::Insert(ch) => {
                let mut out: Vec<char> = Vec::new();
                copy_chars(&mut out, cs.as_slice(), 0, c);
                out.push(ch);
                copy_chars(&mut out, cs.as_slice(), c, n);
                proof {
                    assert(cs@.subrange(0, c as int) =~= cs@.take(c as int));
                    assert(cs@.subrange(c as int, n as int) =~= cs@.skip(c as int));
                }
                self.value = string_of(out.as_slice());
                self.cursor = c + 1;
            },
            InputEdit::DeletePrev => {
                if c > 0 {
                    let mut out: Vec<char> = Vec::new();
                    copy_chars(&mut out, cs.as_slice(), 0, c - 1);
                    copy_chars(&mut out, cs.as_slice(), c, n);
                    proof {
                        assert(cs@.subrange(0, c - 1) =~= cs@.take(c - 1));
                        assert(cs@.subrange(c as int, n as int) =~= cs@.skip(c as int));
                    }
                    self.value = string_of(out.as_slice());
                    self.cursor = c - 1;
                } else {
                    self.cursor = c;
                }
            },
            InputEdit::DeleteNext => {
                if c < n {
                    let mut out: Vec<char> = Vec::new();
                    copy_chars(&mut out, cs.as_slice(), 0, c);
                    copy_chars(&mut out, cs.as_slice(), c + 1, n);
                    proof {
                        assert(cs@.subrange(0, c as int) =~= cs@.take(c as int));
                        assert(cs@.subrange(c + 1, n as int) =~= cs@.skip(c + 1));
                    }
                    self.value = string_of(out.as_slice());
                }
                self.cursor = c;
            },
            InputEdit::Left => {
                self.cursor = if c > 0 { c - 1 } else { 0 };
            },
            InputEdit::Right => {
                self.cursor = if c < n { c + 1 } else { c };
            },
            InputEdit::Home => {
                self.cursor = 0;
            },
            InputEdit::End => {
                self.cursor = n;
            },
        }
    }
}

/// `a + b`, or `u16::MAX` when that does not fit.
pub open spec fn sat_add16(a: u16, b: u16) -> u16 {
    if a + b > u16::MAX { u16::MAX } else { (a + b) as u16 }
}

/// The screen row of the cursor's line: the content starts one row below the
/// top, under the ruler.
pub open spec fn cursor_row(app: App) -> int {
    1 + (app.hex_view.cursor.y as u16)
}

/// What `reveal_behind_dialog` does: it goes to `offset`; when the cursor's
/// row then lies in the rows `top..top + height` the dialog covers, the page
/// starts earlier by as many lines as put the row one below the dialog (no
/// earlier than the start of the file), and it goes to `offset` again on that
/// page.
pub open spec fn revealed(a: App, b: App, offset: usize, top: u16, height: u16) -> bool {
    let g = after_goto(a, offset);
    let row = cursor_row(g);
    let bottom = sat_add16(top, height);
    if row < top || row >= bottom {
        b == g
    } else {
        let shift = sat_add16(bottom, 1) - row;
        let back = shift * view_bpl(g);
        let start: usize = if g.reader.page_start >= back { (g.reader.page_start - back) as usize } else { 0 };
        if start == g.reader.page_start {
            b == g
        } else {
            let sum: int = if start + g.reader.page_current_size > usize::MAX {
                usize::MAX as int
            } else {
                start + g.reader.page_current_size
            };
            let end: usize = if sum == 0 { 0 } else { (sum - 1) as usize };
            b == after_goto(App { reader: Reader { page_start: start, page_end: end, ..g.reader }, ..g }, offset)
        }
    }
}

/// Scrolls the hex view so that `offset` is on a row a dialog covering the
/// screen rows `top..top + height` does not hide, and leaves the cursor there
/// (see `revealed`).
pub fn reveal_behind_dialog(app: &mut App, offset: usize, top: u16, height: u16)
    requires
        (after_goto(*old(app), offset).hex_view.cursor.y as u16) < u16::MAX,
        65536 * view_bpl(*old(app)) <= usize::MAX,
    ensures
        revealed(*old(app), *final(app), offset, top, height),
{
    app.goto_with_history(offset, false);
    let bpl: usize = if app.config.hex_mode_bytes_per_line == 0 { 1 } else { app.config.hex_mode_bytes_per_line };
    let y = #[verifier::truncate] (app.hex_view.cursor.y as u16);
    let row: u16 = 1 + y;
    let bottom = top.saturating_add(height);
    if row < top || row >= bottom {
        return;
    }
    let wanted = bottom.saturating_add(1);
    let shift_rows = wanted.saturating_sub(row) as usize;
    assert(shift_rows <= 65536);
    assert(shift_rows * bpl <= 65536 * bpl) by (nonlinear_arith)
        requires
            shift_rows <= 65536,
    ;
    let back = shift_rows * bpl;
    let new_start = app.reader.page_start.saturating_sub(back);
    if new_start == app.reader.page_start {
        return;
    }
    app.reader.page_start = new_start;
    app.reader.page_end = new_start.saturating_add(app.reader.page_current_size).saturating_sub(1);
    app.goto_with_history(offset, false);
}

} // verus!
