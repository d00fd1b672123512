//! The selected block of bytes.
use vstd::prelude::*;

use crate::app::{after_goto, shown_byte, App, EditingTarget, UIState};
use crate::hex::edit::{max_usize, min_usize, revert_range, revert_range_post};
use crate::hex::edit_dialog::{edit_dialog_opened, open_edit_dialog};
use crate::hex::events::{
    flip_selection_case, refused, reverted_block_message, selection_flipped, undone_in, HexAction, Key, KeyPress,
};
use crate::hex::modify_dialog::{ModifyDialog, ModifyFocus};
use crate::i18n::M;
use crate::hex::blocks::ColoredBlock;
use crate::hex::hex_view::HexView;
use crate::hex::edit::{displayed, record_edit, record_edit_post, staged};
use crate::codec::{decode_lossy, decoded_text, is_encoding_label};
use crate::text::{copy_range, hex_digits, is_graphic_byte, zero_pad, push_hex, push_str, string_from, hex2, is_ws, push_char, push_chars, push_hex2, string_of, trim_end, trim_end_index};

verus! {

#[derive(Debug, PartialEq, Eq, Clone, Copy, Structural)]
pub enum Direction {
    LeftOrUp,
    RightOrDown,
}

/// An inclusive range of offsets, and which end moves when it is extended.
#[derive(Debug, Clone, Copy)]
pub struct Selection {
    pub start: usize,
    pub end: usize,
    pub direction: Option<Direction>,
    pub is_mouse: bool,
}

/// The selection after extending it backwards by `step` (or shrinking it
/// from the end if it grew forwards), stopping at offset zero.
pub open spec fn extended_back(sel: Selection, step: usize) -> Selection {
    let (s, e) = match sel.direction {
        None => (sat_sub(sel.start, step), sel.end),
        Some(Direction::LeftOrUp) => (sat_sub(sel.start, step), sel.end),
        Some(Direction::RightOrDown) => (sel.start, sat_sub(sel.end, step)),
    };
    Selection {
        start: s,
        end: e,
        direction: if s == e {
            None
        } else if sel.direction is None {
            Some(Direction::LeftOrUp)
        } else {
            sel.direction
        },
        is_mouse: false,
    }
}

/// The selection after extending it forwards by `step` (or shrinking it from
/// the start if it grew backwards), the moving end stopping at `last`.
pub open spec fn extended_forward(sel: Selection, last: usize, step: usize) -> Selection {
    let (s, e) = match sel.direction {
        None => (sel.start, min(sel.start + step, last as int) as usize),
        Some(Direction::LeftOrUp) => (min(sel.start + step, last as int) as usize, sel.end),
        Some(Direction::RightOrDown) => (sel.start, min(sel.end + step, last as int) as usize),
    };
    Selection {
        start: s,
        end: e,
        direction: if s == e {
            None
        } else if sel.direction is None {
            Some(Direction::RightOrDown)
        } else {
            sel.direction
        },
        is_mouse: false,
    }
}

impl Selection {
    pub fn new() -> (s: Self)
        ensures
            s.start == 0,
            s.end == 0,
            s.direction is None,
            !s.is_mouse,
    {
        Selection { start: 0, end: 0, direction: None, is_mouse: false }
    }

    /// Whether `offset` lies in `start..=end`.
    pub fn contains(&self, offset: usize) -> (b: bool)
        ensures
            b == (self.start <= offset && offset <= self.end),
    {
        offset >= self.start && offset <= self.end
    }

    /// Drops the selection.
    pub fn clear(&mut self)
        ensures
            final(self).start == 0,
            final(self).end == 0,
            final(self).direction is None,
            !final(self).is_mouse,
    {
        self.start = 0;
        self.end = 0;
        self.direction = None;
        self.is_mouse = false;
    }

    /// Extends the selection backwards by `step`, or shrinks it from the end if
    /// it was growing forwards; it stops at offset zero.
    pub fn select_left_or_up(&mut self, step: usize)
        ensures
            *final(self) == extended_back(*old(self), step),
    {
        self.is_mouse = false;
        match self.direction {
            None => {
                self.direction = Some(Direction::LeftOrUp);
                self.start = self.start.saturating_sub(step);
            },
            Some(Direction::LeftOrUp) => self.start = self.start.saturating_sub(step),
            Some(Direction::RightOrDown) => self.end = self.end.saturating_sub(step),
        }
        if self.start == self.end {
            self.direction = None;
        }
    }

    /// Extends the selection forwards by `step`, or shrinks it from the start if
    /// it was growing backwards; the moving end never passes `last_offset`, the
    /// last valid offset.
    pub fn select_right_or_down(&mut self, last_offset: usize, step: usize)
        requires
            old(self).direction is None ==> old(self).start + step <= usize::MAX,
            old(self).direction == Some(Direction::LeftOrUp) ==> old(self).start + step <= usize::MAX,
            old(self).direction == Some(Direction::RightOrDown) ==> old(self).end + step <= usize::MAX,
        ensures
            *final(self) == extended_forward(*old(self), last_offset, step),
    {
        self.is_mouse = false;
        match self.direction {
            None => {
                self.direction = Some(Direction::RightOrDown);
                let e = self.start + step;
                self.end = if e < last_offset { e } else { last_offset };
            },
            Some(Direction::LeftOrUp) => {
                let s = self.start + step;
                self.start = if s < last_offset { s } else { last_offset };
            },
            Some(Direction::RightOrDown) => {
                let e = self.end + step;
                self.end = if e < last_offset { e } else { last_offset };
            },
        }
        if self.start == self.end {
            self.direction = None;
        }
    }
}

pub open spec fn sat_sub(a: usize, b: usize) -> usize {
    if a >= b { (a - b) as usize } else { 0 }
}

pub open spec fn min(a: int, b: int) -> int {
    if a <= b { a } else { b }
}

/// The bytes shown at `lo..=hi`, stopping at the end of the buffer.
pub open spec fn shown_range(app: App, lo: usize, hi: usize) -> Seq<u8> {
    let len = app.file_info.buffer@.len();
    let n: int = if lo >= len { 0 } else { min(hi as int, len - 1) - lo + 1 };
    Seq::new(n as nat, |i: int| displayed(app, (lo + i) as usize))
}

/// `bytes` as `"41 42 43 "`, with a line break after every `bpl` bytes.
pub open spec fn hex_rows(bytes: Seq<u8>, bpl: nat) -> Seq<char>
    decreases bytes.len(),
{
    if bytes.len() == 0 {
        seq![]
    } else {
        let cell = hex_rows(bytes.drop_last(), bpl) + hex2(bytes.last()) + seq![' '];
        if bytes.len() % bpl == 0 {
            cell + seq!['\r', '\n']
        } else {
            cell
        }
    }
}

/// The selection's two ends in increasing order.
pub open spec fn sel_lo(app: App) -> usize {
    if app.hex_view.selection.start <= app.hex_view.selection.end {
        app.hex_view.selection.start
    } else {
        app.hex_view.selection.end
    }
}

pub open spec fn sel_hi(app: App) -> usize {
    if app.hex_view.selection.start <= app.hex_view.selection.end {
        app.hex_view.selection.end
    } else {
        app.hex_view.selection.start
    }
}

pub open spec fn bytes_per_line(app: App) -> nat {
    if app.config.hex_mode_bytes_per_line == 0 { 1 } else { app.config.hex_mode_bytes_per_line as nat }
}

/// The selection as `"41 42 43 ..."`, pending edits included, a line break after
/// every bytes-per-line bytes, and no trailing whitespace.
pub fn format_selection_hex(app: &App) -> (s: String)
    ensures
        s@ == trim_end(hex_rows(shown_range(*app, sel_lo(*app), sel_hi(*app)), bytes_per_line(*app))),
{
    let bpl: usize = if app.config.hex_mode_bytes_per_line == 0 { 1 } else { app.config.hex_mode_bytes_per_line };
    let lo = if app.hex_view.selection.start <= app.hex_view.selection.end { app.hex_view.selection.start } else { app.hex_view.selection.end };
    let hi = if app.hex_view.selection.start <= app.hex_view.selection.end { app.hex_view.selection.end } else { app.hex_view.selection.start };
    let len = app.file_info.buffer.len();
    let ghost bytes = shown_range(*app, lo, hi);
    let mut out = String::new();
    let n: usize = if lo >= len {
        0
    } else {
        (if hi < len - 1 { hi } else { len - 1 }) - lo + 1
    };
    let mut count: usize = 0;
    while count < n
        invariant
            count <= n,
            n == bytes.len(),
            n > 0 ==> lo + n <= len,
            len == app.file_info.buffer@.len(),
            bpl == bytes_per_line(*app),
            bytes == shown_range(*app, lo, hi),
            out@ == hex_rows(bytes.take(count as int), bpl as nat),
        decreases n - count,
    {
        let b = crate::hex::edit::displayed_byte(app, lo + count);
        assert(bytes[count as int] == b);
        assert(bytes.take(count + 1).drop_last() =~= bytes.take(count as int));
        push_hex2(&mut out, b);
        push_char(&mut out, ' ');
        count = count + 1;
        if count % bpl == 0 {
            push_char(&mut out, '\r');
            push_char(&mut out, '\n');
        }
        proof {
            let t = bytes.take(count as int);
            assert(t.last() == b);
            if count % bpl == 0 {
                assert(out@ =~= hex_rows(t.drop_last(), bpl as nat) + hex2(t.last()) + seq![' '] + seq!['\r', '\n']);
            } else {
                assert(out@ =~= hex_rows(t.drop_last(), bpl as nat) + hex2(t.last()) + seq![' ']);
            }
        }
    }
    assert(bytes.take(count as int) =~= bytes);
    let cs = crate::text::chars_of(out.as_str());
    let k = trim_end_index(cs.as_slice());
    let kept = copy_range(cs.as_slice(), 0, k);
    string_of(kept.as_slice())
}


/// Whether a text column draws `c` as itself rather than as the placeholder:
/// printable ASCII stays, other ASCII does not, and a non-ASCII character stays
/// unless it is a control, whitespace, or the replacement character.
pub open spec fn printable(c: char) -> bool {
    if (c as u32) < 0x80 {
        '!' <= c && c <= '~'
    } else {
        !('\u{80}' <= c && c <= '\u{9F}') && !is_ws(c) && c != '\u{FFFD}'
    }
}

pub fn is_printable(c: char) -> (b: bool)
    ensures
        b == printable(c),
{
    if (c as u32) < 0x80 {
        '!' <= c && c <= '~'
    } else {
        !('\u{80}' <= c && c <= '\u{9F}') && !crate::text::is_whitespace(c) && c != '\u{FFFD}'
    }
}

/// `cs` with every character that does not print replaced by `p`.
pub open spec fn with_placeholder(cs: Seq<char>, p: char) -> Seq<char> {
    cs.map_values(|c: char| if printable(c) { c } else { p })
}

/// The selection decoded in the encoding named `label`, as the text column
/// draws it: every character that does not print becomes the placeholder. An
/// unknown label gives an empty string.
pub fn format_selection_text(app: &App, label: &str) -> (s: String)
    ensures
        is_encoding_label(label@) ==> s@ == with_placeholder(
            decoded_text(label@, shown_range(*app, sel_lo(*app), sel_hi(*app))),
            app.config.hex_mode_non_graphic_char,
        ),
        !is_encoding_label(label@) ==> s@.len() == 0,
{
    let lo = if app.hex_view.selection.start <= app.hex_view.selection.end { app.hex_view.selection.start } else { app.hex_view.selection.end };
    let hi = if app.hex_view.selection.start <= app.hex_view.selection.end { app.hex_view.selection.end } else { app.hex_view.selection.start };
    let len = app.file_info.buffer.len();
    let ghost want = shown_range(*app, lo, hi);
    let n: usize = if lo >= len {
        0
    } else {
        (if hi < len - 1 { hi } else { len - 1 }) - lo + 1
    };
    let mut bytes: Vec<u8> = Vec::new();
    while bytes.len() < n
        invariant
            bytes@.len() <= n,
            n == want.len(),
            n > 0 ==> lo + n <= len,
            len == app.file_info.buffer@.len(),
            want == shown_range(*app, lo, hi),
            bytes@ == want.take(bytes@.len() as int),
        decreases n - bytes@.len(),
    {
        let i = bytes.len();
        let b = crate::hex::edit::displayed_byte(app, lo + i);
        bytes.push(b);
        assert(bytes@ =~= want.take(bytes@.len() as int));
    }
    assert(bytes@ =~= want);
    let placeholder = app.config.hex_mode_non_graphic_char;
    match decode_lossy(label, bytes.as_slice()) {
        None => String::new(),
        Some((text, _)) => {
            let cs = crate::text::chars_of(text.as_str());
            let mut out: Vec<char> = Vec::new();
            let mut i: usize = 0;
            while i < cs.len()
                invariant
                    i <= cs@.len(),
                    out@ == with_placeholder(cs@.take(i as int), placeholder),
                decreases cs.len() - i,
            {
                let c = cs[i];
                if is_printable(c) {
                    out.push(c);
                } else {
                    out.push(placeholder);
                }
                i = i + 1;
                assert(out@ =~= with_placeholder(cs@.take(i as int), placeholder));
            }
            assert(cs@.take(i as int) =~= cs@);
            string_of(out.as_slice())
        },
    }
}

/// The label of the secondary encoding, UTF-8 when none is set.
pub open spec fn enc2_label(app: App) -> Seq<char> {
    match app.hex_view.enc2 {
        Some(l) => l@,
        None => "UTF-8"@,
    }
}

/// What copying the selection produces, given the column it was made in: hex
/// bytes from the byte column, decoded text from an encoding column.
pub open spec fn selection_copy(app: App, s: Seq<char>) -> bool {
    &&& app.hex_view.selection_target == EditingTarget::Hex ==> s == trim_end(
        hex_rows(shown_range(app, sel_lo(app), sel_hi(app)), bytes_per_line(app)),
    )
    &&& app.hex_view.selection_target == EditingTarget::Enc1 && is_encoding_label(app.enc1@) ==> s
        == with_placeholder(
        decoded_text(app.enc1@, shown_range(app, sel_lo(app), sel_hi(app))),
        app.config.hex_mode_non_graphic_char,
    )
    &&& app.hex_view.selection_target == EditingTarget::Enc2 && is_encoding_label(enc2_label(app)) ==> s
        == with_placeholder(
        decoded_text(enc2_label(app), shown_range(app, sel_lo(app), sel_hi(app))),
        app.config.hex_mode_non_graphic_char,
    )
}

/// The selection as copied from the column it was made in (see
/// `selection_copy`).
pub fn format_selection_for_target(app: &App) -> (s: String)
    ensures
        selection_copy(*app, s@),
{
    match app.hex_view.selection_target {
        EditingTarget::Hex => format_selection_hex(app),
        EditingTarget::Enc1 => format_selection_text(app, app.enc1.as_str()),
        EditingTarget::Enc2 => match &app.hex_view.enc2 {
            Some(l) => format_selection_text(app, l.as_str()),
            None => format_selection_text(app, "UTF-8"),
        },
    }
}


/// The offsets among `lo..lo + n` that `m` holds no edit for, increasing.
pub open spec fn fresh_offsets(m: Map<usize, u8>, lo: usize, n: nat) -> Seq<usize>
    decreases n,
{
    if n == 0 {
        seq![]
    } else {
        let k = (lo + n - 1) as usize;
        fresh_offsets(m, lo, (n - 1) as nat) + if m.contains_key(k) {
            Seq::<usize>::empty()
        } else {
            seq![k]
        }
    }
}

/// `m` with `v` staged at every offset of `lo..lo + n`.
pub open spec fn filled(m: Map<usize, u8>, lo: usize, n: nat, v: u8) -> Map<usize, u8> {
    m.union_prefer_right(Map::new(|k: usize| lo <= k < lo + n, |k: usize| v))
}

/// How many offsets of the selection `start..=end` lie inside a file of `size`
/// bytes (none when `start > end`).
pub open spec fn in_file_count(start: usize, end: usize, size: usize) -> nat {
    if start > end || start >= size {
        0
    } else {
        (min(end as int, size - 1) - start + 1) as nat
    }
}

/// What filling the selection with `value` does.
pub open spec fn fill_selection_post(a: App, b: App, value: u8) -> bool {
    &&& ({
            let lo = a.hex_view.selection.start;
            let hi = a.hex_view.selection.end;
            let n = in_file_count(lo, hi, a.file_info.size);
            let count: nat = if lo <= hi { (hi - lo + 1) as nat } else { 0 };
            &&& b.hex_view.changed_bytes@ == filled(a.hex_view.changed_bytes@, lo, n, value)
            &&& b.hex_view.changed_history@ == a.hex_view.changed_history@ + fresh_offsets(
                a.hex_view.changed_bytes@,
                lo,
                n,
            )
            &&& b.logs@.len() == a.logs@.len() + 1
            &&& b.logs@.last()@ == "Filled "@ + crate::text::dec_digits(count) + " byte(s) with 0x"@
                + hex2(value)
        })
    &&& b.logs@.drop_last() == a.logs@
    &&& b.hex_view.redo_history == a.hex_view.redo_history
    &&& b.hex_view.nibble_pending == a.hex_view.nibble_pending
    &&& b.hex_view.same_but_edits(a.hex_view)
    &&& b.file_info == a.file_info
    &&& b.config == a.config
    &&& b.state == a.state
    &&& b == (App { hex_view: b.hex_view, logs: b.logs, ..a })
}

/// Stages `value` at every offset of the selection (`start..=end`, nothing when
/// the selection runs backwards) and logs how many offsets it covered.
pub fn fill_selection_with(app: &mut App, value: u8)
    requires
        old(app).hex_view.selection.start <= old(app).hex_view.selection.end ==> old(app).hex_view.selection.end
            - old(app).hex_view.selection.start < usize::MAX,
    ensures
        fill_selection_post(*old(app), *final(app), value),
{
    let lo = app.hex_view.selection.start;
    let hi = app.hex_view.selection.end;
    let size = app.file_info.size;
    let count: usize = if lo <= hi { hi - lo + 1 } else { 0 };
    let n: usize = if lo > hi || lo >= size {
        0
    } else {
        (if hi < size - 1 { hi } else { size - 1 }) - lo + 1
    };
    let ghost a = *app;
    let mut i: usize = 0;
    assert(filled(a.hex_view.changed_bytes@, lo, 0, value) =~= a.hex_view.changed_bytes@);
    assert(a.hex_view.changed_history@ + fresh_offsets(a.hex_view.changed_bytes@, lo, 0) =~= a.hex_view.changed_history@);
    while i < n
        invariant
            i <= n,
            n == in_file_count(lo, hi, size),
            n > 0 ==> lo + n <= size,
            size == a.file_info.size,
            app.hex_view.changed_bytes@ == filled(a.hex_view.changed_bytes@, lo, i as nat, value),
            app.hex_view.changed_history@ == a.hex_view.changed_history@ + fresh_offsets(
                a.hex_view.changed_bytes@,
                lo,
                i as nat,
            ),
            app.hex_view.redo_history == a.hex_view.redo_history,
            app.hex_view.nibble_pending == a.hex_view.nibble_pending,
            app.hex_view.same_but_edits(a.hex_view),
            app.same_but_hex_view(a),
        decreases n - i,
    {
        let k = lo + i;
        let ghost m0 = app.hex_view.changed_bytes@;
        assert(m0.contains_key(k) == a.hex_view.changed_bytes@.contains_key(k));
        record_edit(app, k, value);
        i = i + 1;
        assert(app.hex_view.changed_bytes@ =~= filled(a.hex_view.changed_bytes@, lo, i as nat, value));
        assert(app.hex_view.changed_history@ =~= a.hex_view.changed_history@ + fresh_offsets(
            a.hex_view.changed_bytes@,
            lo,
            i as nat,
        ));
    }
    let mut msg = string_from("Filled ");
    crate::text::push_dec(&mut msg, count as u64);
    crate::text::push_str(&mut msg, " byte(s) with 0x");
    push_hex2(&mut msg, value);
    app.log(msg);
    assert(app.logs@.drop_last() =~= old(app).logs@);
}

// ---------------------------------------------------------------------------
// Colouring blocks
// ---------------------------------------------------------------------------

/// The ranges of coloured blocks, colours aside.
pub open spec fn spans(v: Seq<ColoredBlock>) -> Seq<(usize, usize)> {
    v.map_values(|b: ColoredBlock| (b.start, b.end))
}

/// Where a block starting at `key` goes among `s`: before the first span that
/// starts later, so that spans with equal starts keep their order.
pub open spec fn insert_pos(s: Seq<(usize, usize)>, key: usize) -> int
    decreases s.len(),
{
    if s.len() == 0 {
        0
    } else if s.last().0 > key {
        let p = insert_pos(s.drop_last(), key);
        if p < s.len() - 1 { p } else { s.len() - 1 }
    } else {
        s.len() as int
    }
}

/// `s` sorted by start, equal starts in their original order (insertion
/// sort, which is what a stable sort by start gives).
pub open spec fn stable_by_start(s: Seq<(usize, usize)>) -> Seq<(usize, usize)>
    decreases s.len(),
{
    if s.len() == 0 {
        s
    } else {
        let r = stable_by_start(s.drop_last());
        let x = s.last();
        let p = first_later(r, x.0, 0);
        r.take(p).push(x) + r.skip(p)
    }
}

/// The first index from `i` on whose span starts after `key`, or the length.
pub open spec fn first_later(r: Seq<(usize, usize)>, key: usize, i: int) -> int
    decreases r.len() - i,
{
    if i < 0 || i >= r.len() {
        r.len() as int
    } else if r[i].0 > key {
        i
    } else {
        first_later(r, key, i + 1)
    }
}

proof fn lemma_first_later_bounds(r: Seq<(usize, usize)>, key: usize, i: int)
    requires
        0 <= i <= r.len(),
    ensures
        i <= first_later(r, key, i) <= r.len(),
    decreases r.len() - i,
{
    if i < r.len() && !(r[i].0 > key) {
        lemma_first_later_bounds(r, key, i + 1);
    }
}

proof fn lemma_first_later_facts(r: Seq<(usize, usize)>, key: usize, i: int)
    requires
        0 <= i <= r.len(),
    ensures
        forall|j: int| i <= j < first_later(r, key, i) ==> (#[trigger] r[j]).0 <= key,
        first_later(r, key, i) < r.len() ==> key < r[first_later(r, key, i)].0,
    decreases r.len() - i,
{
    if i < r.len() && !(r[i].0 > key) {
        lemma_first_later_facts(r, key, i + 1);
    }
}

/// The blocks sorted by start come out in order of start, and are the same
/// blocks.
pub proof fn law_blocks_sorted_by_start(s: Seq<(usize, usize)>)
    ensures
        forall|i: int, j: int|
            0 <= i < j < stable_by_start(s).len() ==> (#[trigger] stable_by_start(s)[i]).0
                <= (#[trigger] stable_by_start(s)[j]).0,
        stable_by_start(s).to_multiset() == s.to_multiset(),
    decreases s.len(),
{
    broadcast use vstd::multiset::group_multiset_axioms;
    if s.len() > 0 {
        let d = s.drop_last();
        let x = s.last();
        law_blocks_sorted_by_start(d);
        let r = stable_by_start(d);
        lemma_first_later_bounds(r, x.0, 0);
        lemma_first_later_facts(r, x.0, 0);
        let k = first_later(r, x.0, 0);
        let a = r.take(k);
        let b = r.skip(k);
        let out = a.push(x) + b;
        assert(stable_by_start(s) == out);
        assert forall|i: int, j: int| 0 <= i < j < out.len() implies (#[trigger] out[i]).0 <= (#[trigger] out[j]).0 by {
            if j < k {
                assert(out[i] == r[i] && out[j] == r[j]);
            } else if j == k {
                assert(out[i] == r[i] && out[j] == x);
            } else if i < k {
                assert(out[i] == r[i] && out[j] == r[j - 1]);
            } else if i == k {
                assert(out[i] == x && out[j] == r[j - 1]);
                assert(r[k].0 <= r[j - 1].0);
            } else {
                assert(out[i] == r[i - 1] && out[j] == r[j - 1]);
            }
        }
        assert(r =~= a + b);
        vstd::seq_lib::lemma_multiset_commutative(a.push(x), b);
        vstd::seq_lib::lemma_multiset_commutative(a, b);
        a.to_multiset_ensures();
        d.to_multiset_ensures();
        assert(d.push(x) =~= s);
        assert(out.to_multiset() =~= s.to_multiset());
    }
}

/// Sorts `blocks` by start, keeping the order of blocks with equal starts.
fn sort_blocks(blocks: &mut Vec<ColoredBlock>)
    ensures
        spans(final(blocks)@) == stable_by_start(spans(old(blocks)@)),
{
    let mut input: Vec<ColoredBlock> = Vec::new();
    std::mem::swap(&mut input, blocks);
    let ghost orig = spans(input@);
    let total = input.len();
    let mut out: Vec<ColoredBlock> = Vec::new();
    let mut taken: usize = 0;
    assert(orig.take(0) =~= Seq::<(usize, usize)>::empty());
    while input.len() > 0
        invariant
            taken + input@.len() == orig.len(),
            orig.len() == total,
            spans(input@) == orig.skip(taken as int),
            spans(out@) == stable_by_start(orig.take(taken as int)),
        decreases input@.len(),
    {
        let ghost before_in = input@;
        let x = input.remove(0);
        let key = x.start;
        let ghost r = spans(out@);
        let mut p: usize = 0;
        proof {
            lemma_first_later_bounds(r, key, 0);
        }
        while p < out.len() && out[p].start <= key
            invariant
                p <= out@.len(),
                r == spans(out@),
                first_later(r, key, 0) == first_later(r, key, p as int),
            decreases out@.len() - p,
        {
            p = p + 1;
        }
        out.insert(p, x);
        proof {
            assert(orig.take(taken + 1).drop_last() =~= orig.take(taken as int));
            assert(orig.take(taken + 1).last() == (x.start, x.end)) by {
                assert(orig.skip(taken as int)[0] == (x.start, x.end));
            }
            assert(spans(out@) =~= r.take(p as int).push((x.start, x.end)) + r.skip(p as int));
        }
        proof {
            assert(input@ =~= before_in.skip(1));
            assert(spans(input@) =~= spans(before_in).skip(1));
            assert(orig.skip(taken as int).skip(1) =~= orig.skip(taken + 1));
        }
        taken = taken + 1;
    }
    assert(orig.take(taken as int) =~= orig);
    *blocks = out;
}

/// The first coloured block, in list order, that holds `offset`.
pub open spec fn first_block_holding(blocks: Seq<ColoredBlock>, offset: usize, i: int) -> Option<int>
    decreases blocks.len() - i,
{
    if i < 0 || i >= blocks.len() {
        None
    } else if blocks[i].start <= offset && offset <= blocks[i].end {
        Some(i)
    } else {
        first_block_holding(blocks, offset, i + 1)
    }
}

/// The error Alt+M reports with nothing to colour.
pub open spec fn nothing_to_colour() -> Seq<char> {
    "Alt+M needs a selection (Shift+arrows) or a block at the cursor"@
}

/// What Alt+M does.
pub open spec fn colour_post(a: App, b: App) -> bool {
    &&& match first_block_holding(a.hex_view.blocks@, a.hex_view.offset, 0) {
            Some(i) => {
                let blk = a.hex_view.blocks@[i];
                &&& spans(b.hex_view.blocks@) == spans(a.hex_view.blocks@)
                &&& forall|j: int| 0 <= j < a.hex_view.blocks@.len() && j != i ==> #[trigger] b.hex_view.blocks@[j] == a.hex_view.blocks@[j]
                &&& b.logs@ == a.logs@.push(b.logs@.last())
                &&& b.logs@.last()@ == "Recoloured the block at 0x"@ + hex_digits(blk.start as nat) + "..0x"@
                    + hex_digits(blk.end as nat)
                &&& b.status_error == a.status_error
            },
            None => {
                let (s, e) = (a.hex_view.selection.start, a.hex_view.selection.end);
                if s == e {
                    &&& b.hex_view.blocks == a.hex_view.blocks
                    &&& b.logs@ == a.logs@.push(b.logs@.last())
                    &&& b.logs@.last()@ == nothing_to_colour()
                    &&& b.status_error matches Some(msg) && msg@ == nothing_to_colour()
                } else {
                    let lo = if s <= e { s } else { e };
                    let hi = if s <= e { e } else { s };
                    &&& spans(b.hex_view.blocks@) == stable_by_start(
                        spans(a.hex_view.blocks@).push((lo, hi)),
                    )
                    &&& b.logs@ == a.logs@.push(b.logs@.last())
                    &&& b.logs@.last()@ == "Coloured 0x"@ + hex_digits(lo as nat) + "..0x"@
                        + hex_digits(hi as nat)
                    &&& b.status_error == a.status_error
                }
            },
        }
    &&& b.hex_view == (HexView { blocks: b.hex_view.blocks, ..a.hex_view })
    &&& b.file_info == a.file_info
    &&& b.config == a.config
    &&& b == (App { hex_view: b.hex_view, logs: b.logs, status_error: b.status_error, ..a })
}

/// Colours with Alt+M: the block under the cursor gets new colours; failing
/// that, the selection becomes a new block, the blocks staying sorted by
/// start; with neither, an error.
pub fn color_block_at_cursor(app: &mut App)
    ensures
        colour_post(*old(app), *final(app)),
{
    let offset = app.hex_view.offset;
    let n = app.hex_view.blocks.len();
    let mut i: usize = 0;
    while i < n
        invariant
            i <= n,
            n == app.hex_view.blocks@.len(),
            *app == *old(app),
            first_block_holding(app.hex_view.blocks@, offset, 0) == first_block_holding(app.hex_view.blocks@, offset, i as int),
            offset == app.hex_view.offset,
        decreases n - i,
    {
        if app.hex_view.blocks[i].start <= offset && offset <= app.hex_view.blocks[i].end {
            let start = app.hex_view.blocks[i].start;
            let end = app.hex_view.blocks[i].end;
            let mut b = app.hex_view.blocks.remove(i);
            b.set_random_color();
            app.hex_view.blocks.insert(i, b);
            proof {
                assert(spans(app.hex_view.blocks@) =~= spans(old(app).hex_view.blocks@));
            }
            let mut msg = string_from("Recoloured the block at 0x");
            push_hex(&mut msg, start as u64, 0);
            push_str(&mut msg, "..0x");
            push_hex(&mut msg, end as u64, 0);
            proof {
                reveal_strlit("Recoloured the block at 0x");
                reveal_strlit("..0x");
            }
            app.log(msg);
            return;
        }
        i = i + 1;
    }
    let s = app.hex_view.selection.start;
    let e = app.hex_view.selection.end;
    if s == e {
        app.error(string_from("Alt+M needs a selection (Shift+arrows) or a block at the cursor"));
        return;
    }
    let lo = if s <= e { s } else { e };
    let hi = if s <= e { e } else { s };
    let ghost before = spans(app.hex_view.blocks@);
    app.hex_view.blocks.push(ColoredBlock::new(lo, hi));
    assert(spans(app.hex_view.blocks@) =~= before.push((lo, hi)));
    sort_blocks(&mut app.hex_view.blocks);
    let mut msg = string_from("Coloured 0x");
    push_hex(&mut msg, lo as u64, 0);
    push_str(&mut msg, "..0x");
    push_hex(&mut msg, hi as u64, 0);
    proof {
        reveal_strlit("Coloured 0x");
        reveal_strlit("..0x");
    }
    app.log(msg);
}

// ---------------------------------------------------------------------------
// Selection mode's keys
// ---------------------------------------------------------------------------

/// What a key asks for while a mouse-made selection has the keyboard.
#[derive(Clone, Copy, PartialEq, Eq, Debug, Structural)]
pub enum SelectCommand {
    /// Esc: drop the selection and go back to Normal mode.
    Leave,
    /// Enter: keep the block on screen and go back to Normal mode.
    Keep,
    Left,
    Right,
    Up,
    Down,
    Fill(u8),
    FlipCase,
    Copy,
    Revert,
    Modify,
    Colour,
    EditData,
    Encoding,
    Encoding2,
    Nothing,
}

/// What a key asks for in selection mode.
pub open spec fn select_command(key: KeyPress) -> SelectCommand {
    match key.code {
        Key::Esc => SelectCommand::Leave,
        Key::Enter => SelectCommand::Keep,
        Key::Left => SelectCommand::Left,
        Key::Right => SelectCommand::Right,
        Key::Up => SelectCommand::Up,
        Key::Down => SelectCommand::Down,
        Key::Insert => SelectCommand::Fill(0),
        Key::Delete => SelectCommand::Fill(0x90),
        Key::Char(c) => if c == '~' {
            SelectCommand::FlipCase
        } else if (c == 'c' || c == 'C') && key.ctrl {
            SelectCommand::Copy
        } else if (c == 'z' || c == 'Z') && key.ctrl {
            SelectCommand::Revert
        } else if (c == 'k' || c == 'K') && key.ctrl {
            SelectCommand::Modify
        } else if c == 'm' && key.alt {
            SelectCommand::Colour
        } else if (c == 'e' || c == 'E') && key.ctrl {
            SelectCommand::EditData
        } else if (c == 'e' || c == 'E') && key.alt {
            if key.shift || c == 'E' { SelectCommand::Encoding2 } else { SelectCommand::Encoding }
        } else {
            SelectCommand::Nothing
        },
        _ => SelectCommand::Nothing,
    }
}

/// The selection with nothing in it.
pub open spec fn cleared(sel: Selection) -> Selection {
    Selection { start: 0, end: 0, direction: None, is_mouse: false }
}

/// `b` with the state and selection `a` had.
pub open spec fn as_before(b: App, a: App) -> App {
    App { state: a.state, hex_view: HexView { selection: a.hex_view.selection, ..b.hex_view }, ..b }
}

/// A selection-mode move: the selection becomes `sel` and the cursor goes to
/// `target`.
pub open spec fn select_moved(a: App, b: App, sel: Selection, target: usize) -> bool {
    &&& crate::app::view_went(a, b, target)
    &&& b.hex_view.same_but_offset(HexView { selection: sel, ..a.hex_view })
    &&& b.same_but_view(a)
}

/// The Modify Block dialog as it opens: XOR, an empty operand, a step of 1,
/// hex input, bytes, the operation focused.
pub open spec fn fresh_modify_dialog(d: ModifyDialog) -> bool {
    &&& d.op_index == 4
    &&& d.operand_input@.len() == 0
    &&& d.step_input@ == "1"@
    &&& d.anchor is None
    &&& d.is_hex
    &&& d.bit_size == 8
    &&& d.focus == ModifyFocus::Operation
    &&& d.cursor == 0
}

/// What carrying out the selection-mode command `cmd` on `a` does. The
/// arrows grow or shrink the selection and move the cursor, except where
/// Up or Down would cross the selection's fixed end; the actions work on the
/// block and go back to Normal mode.
pub open spec fn select_post(a: App, b: App, cmd: SelectCommand, act: HexAction) -> bool {
    let ofs = a.hex_view.offset;
    let sel = a.hex_view.selection;
    let bpl = a.config.hex_mode_bytes_per_line;
    let len = a.file_info.buffer@.len();
    let last = if len == 0 { 0usize } else { (len - 1) as usize };
    let ro = a.file_info.is_read_only;
    match cmd {
        SelectCommand::Leave => act is Nothing && b == (App {
            state: UIState::Normal,
            hex_view: HexView { editing_hex: true, selection: cleared(sel), ..a.hex_view },
            ..a
        }),
        SelectCommand::Keep => act is Nothing && b == (App { state: UIState::Normal, ..a }),
        SelectCommand::Left => act is Nothing && select_moved(a, b, extended_back(sel, 1), sat_sub(ofs, 1)),
        SelectCommand::Right => act is Nothing && if ofs + 1 >= a.file_info.size {
            b == a
        } else {
            select_moved(a, b, extended_forward(sel, last, 1), (ofs + 1) as usize)
        },
        SelectCommand::Up => act is Nothing && if sel.direction == Some(Direction::RightOrDown)
            && sat_sub(ofs, bpl) < sel.start {
            b == a
        } else {
            select_moved(a, b, extended_back(sel, bpl), sat_sub(ofs, bpl))
        },
        SelectCommand::Down => {
            let t = min(min(ofs + bpl, usize::MAX as int), sat_sub(a.file_info.size, 1) as int) as usize;
            act is Nothing && if sel.direction == Some(Direction::LeftOrUp) && t > sel.end {
                b == a
            } else {
                select_moved(a, b, extended_forward(sel, last, bpl), t)
            }
        },
        SelectCommand::Fill(v) => act is Nothing && if ro {
            refused(a, b, if v == 0 { M::RoFillZero } else { M::RoFillNop })
        } else {
            &&& fill_selection_post(a, as_before(b, a), v)
            &&& b.state == UIState::Normal
            &&& b.hex_view.selection == cleared(sel)
        },
        SelectCommand::FlipCase => act is Nothing && if ro {
            refused(a, b, M::RoCase)
        } else {
            &&& selection_flipped(a, as_before(b, a))
            &&& b.state == UIState::Normal
            &&& b.hex_view.selection == cleared(sel)
        },
        SelectCommand::Copy => {
            &&& act matches HexAction::Copy(s) && selection_copy(a, s@)
            &&& b == (App {
                state: UIState::Normal,
                hex_view: HexView { selection: cleared(sel), ..a.hex_view },
                ..a
            })
        },
        SelectCommand::Revert => {
            let lo = min_usize(sel.start, sel.end);
            let hi = max_usize(sel.start, sel.end);
            let n = undone_in(a, lo, hi).len();
            let c = App { logs: a.logs, ..as_before(b, a) };
            &&& revert_range_post(a, c, sel.start, sel.end, n as usize)
            &&& c.hex_view.same_but_edits(a.hex_view)
            &&& c.same_but_hex_view(a)
            &&& act == if n > 0 { HexAction::Nothing } else { HexAction::Beep }
            &&& n > 0 ==> b.logs@ == a.logs@.push(b.logs@.last()) && b.logs@.last()@ == reverted_block_message(n)
            &&& n == 0 ==> b.logs == a.logs
            &&& b.state == UIState::Normal
            &&& b.hex_view.selection == cleared(sel)
        },
        SelectCommand::Modify => act is Nothing && if ro {
            refused(a, b, M::RoModifyBlock)
        } else {
            &&& fresh_modify_dialog(b.hex_view.modify_dialog)
            &&& b == (App {
                state: UIState::DialogModifyBlock,
                hex_view: HexView { modify_dialog: b.hex_view.modify_dialog, ..a.hex_view },
                ..a
            })
        },
        SelectCommand::Colour => {
            &&& act is Nothing
            &&& colour_post(a, App { state: a.state, ..b })
            &&& b.state == UIState::Normal
        },
        SelectCommand::EditData => act is Nothing && edit_dialog_opened(a, b),
        SelectCommand::Encoding => act is Nothing && b == (App { state: UIState::DialogEncoding, ..a }),
        SelectCommand::Encoding2 => act is Nothing && b == (App { state: UIState::DialogEncoding2, ..a }),
        SelectCommand::Nothing => act is Nothing && b == a,
    }
}

#[verifier::rlimit(60)]
fn select_move(app: &mut App, cmd: SelectCommand) -> (act: HexAction)
    requires
        cmd is Left || cmd is Right || cmd is Up || cmd is Down,
        old(app).hex_view.offset < usize::MAX,
        old(app).hex_view.selection.start + old(app).config.hex_mode_bytes_per_line + 1 <= usize::MAX,
        old(app).hex_view.selection.end + old(app).config.hex_mode_bytes_per_line + 1 <= usize::MAX,
    ensures
        select_post(*old(app), *final(app), cmd, act),
{
    let ofs = app.hex_view.offset;
    let bpl = app.config.hex_mode_bytes_per_line;
    let len = app.file_info.buffer.len();
    let last = if len == 0 { 0 } else { len - 1 };
    let size = app.file_info.size;
    match cmd {
        SelectCommand::Left => {
            let t = if ofs >= 1 { ofs - 1 } else { 0 };
            app.hex_view.selection.select_left_or_up(1);
            app.goto(t);
        },
        SelectCommand::Right => {
            let t = ofs + 1;
            if t >= size {
                return HexAction::Nothing;
            }
            app.hex_view.selection.select_right_or_down(last, 1);
            app.goto(t);
        },
        SelectCommand::Up => {
            let t = if ofs >= bpl { ofs - bpl } else { 0 };
            if app.hex_view.selection.direction == Some(Direction::RightOrDown) && t < app.hex_view.selection.start {
                return HexAction::Nothing;
            }
            app.hex_view.selection.select_left_or_up(bpl);
            app.goto(t);
        },
        _ => {
            let up = if bpl > usize::MAX - ofs { usize::MAX } else { ofs + bpl };
            let cap = if size >= 1 { size - 1 } else { 0 };
            let t = if up < cap { up } else { cap };
            if app.hex_view.selection.direction == Some(Direction::LeftOrUp) && t > app.hex_view.selection.end {
                return HexAction::Nothing;
            }
            app.hex_view.selection.select_right_or_down(last, bpl);
            app.goto(t);
        },
    }
    HexAction::Nothing
}

fn select_revert(app: &mut App) -> (act: HexAction)
    ensures
        select_post(*old(app), *final(app), SelectCommand::Revert, act),
{
    let start = app.hex_view.selection.start;
    let end = app.hex_view.selection.end;
    let n = revert_range(app, start, end);
    let act = if n > 0 {
        let mut msg = string_from("Reverted ");
        crate::text::push_dec(&mut msg, n as u64);
        push_str(&mut msg, " changed byte(s) in selected block");
        proof {
            reveal_strlit("Reverted ");
            reveal_strlit(" changed byte(s) in selected block");
        }
        app.log(msg);
        HexAction::Nothing
    } else {
        HexAction::Beep
    };
    app.hex_view.selection.clear();
    app.state = UIState::Normal;
    act
}

/// Carries out the selection-mode command `cmd` (see `select_post`).
pub fn run_select_command(app: &mut App, cmd: SelectCommand) -> (act: HexAction)
    requires
        old(app).hex_view.offset < usize::MAX,
        old(app).hex_view.selection.start + old(app).config.hex_mode_bytes_per_line + 1 <= usize::MAX,
        old(app).hex_view.selection.end + old(app).config.hex_mode_bytes_per_line + 1 <= usize::MAX,
    ensures
        select_post(*old(app), *final(app), cmd, act),
{
    match cmd {
        SelectCommand::Leave => {
            app.state = UIState::Normal;
            app.hex_view.editing_hex = true;
            app.hex_view.selection.clear();
            HexAction::Nothing
        },
        SelectCommand::Keep => {
            app.state = UIState::Normal;
            HexAction::Nothing
        },
        SelectCommand::Left => select_move(app, cmd),
        SelectCommand::Right => select_move(app, cmd),
        SelectCommand::Up => select_move(app, cmd),
        SelectCommand::Down => select_move(app, cmd),
        SelectCommand::Fill(v) => {
            if app.file_info.is_read_only {
                app.read_only_error(if v == 0 { M::RoFillZero } else { M::RoFillNop });
                return HexAction::Nothing;
            }
            fill_selection_with(app, v);
            app.state = UIState::Normal;
            app.hex_view.selection.clear();
            HexAction::Nothing
        },
        SelectCommand::FlipCase => {
            if app.file_info.is_read_only {
                app.read_only_error(M::RoCase);
                return HexAction::Nothing;
            }
            let _count = flip_selection_case(app);
            app.hex_view.selection.clear();
            app.state = UIState::Normal;
            HexAction::Nothing
        },
        SelectCommand::Copy => {
            let text = format_selection_for_target(app);
            app.state = UIState::Normal;
            app.hex_view.selection.clear();
            HexAction::Copy(text)
        },
        SelectCommand::Revert => select_revert(app),
        SelectCommand::Modify => {
            if app.file_info.is_read_only {
                app.read_only_error(M::RoModifyBlock);
                return HexAction::Nothing;
            }
            app.state = UIState::DialogModifyBlock;
            app.hex_view.modify_dialog.reset();
            HexAction::Nothing
        },
        SelectCommand::Colour => {
            color_block_at_cursor(app);
            app.state = UIState::Normal;
            HexAction::Nothing
        },
        SelectCommand::EditData => {
            open_edit_dialog(app);
            HexAction::Nothing
        },
        SelectCommand::Encoding => {
            app.state = UIState::DialogEncoding;
            HexAction::Nothing
        },
        SelectCommand::Encoding2 => {
            app.state = UIState::DialogEncoding2;
            HexAction::Nothing
        },
        SelectCommand::Nothing => HexAction::Nothing,
    }
}

/// Classifies a key in selection mode (see `select_command`).
pub fn select_command_for(key: KeyPress) -> (c: SelectCommand)
    ensures
        c == select_command(key),
{
    match key.code {
        Key::Esc => SelectCommand::Leave,
        Key::Enter => SelectCommand::Keep,
        Key::Left => SelectCommand::Left,
        Key::Right => SelectCommand::Right,
        Key::Up => SelectCommand::Up,
        Key::Down => SelectCommand::Down,
        Key::Insert => SelectCommand::Fill(0),
        Key::Delete => SelectCommand::Fill(0x90),
        Key::Char(c) => if c == '~' {
            SelectCommand::FlipCase
        } else if (c == 'c' || c == 'C') && key.ctrl {
            SelectCommand::Copy
        } else if (c == 'z' || c == 'Z') && key.ctrl {
            SelectCommand::Revert
        } else if (c == 'k' || c == 'K') && key.ctrl {
            SelectCommand::Modify
        } else if c == 'm' && key.alt {
            SelectCommand::Colour
        } else if (c == 'e' || c == 'E') && key.ctrl {
            SelectCommand::EditData
        } else if (c == 'e' || c == 'E') && key.alt {
            if key.shift || c == 'E' { SelectCommand::Encoding2 } else { SelectCommand::Encoding }
        } else {
            SelectCommand::Nothing
        },
        _ => SelectCommand::Nothing,
    }
}

/// Handles a key while a mouse-made selection has the keyboard (see
/// `select_post`).
pub fn select_events(app: &mut App, key: KeyPress) -> (act: HexAction)
    requires
        old(app).hex_view.offset < usize::MAX,
        old(app).hex_view.selection.start + old(app).config.hex_mode_bytes_per_line + 1 <= usize::MAX,
        old(app).hex_view.selection.end + old(app).config.hex_mode_bytes_per_line + 1 <= usize::MAX,
    ensures
        select_post(*old(app), *final(app), select_command(key), act),
{
    let cmd = select_command_for(key);
    run_select_command(app, cmd)
}

// ---------------------------------------------------------------------------
// Dump of a mouse selection
// ---------------------------------------------------------------------------

/// The bytes per line of a dump: the configured count, at least one.
pub open spec fn dump_bpl(app: App) -> nat {
    if app.config.hex_mode_bytes_per_line == 0 { 1 } else { app.config.hex_mode_bytes_per_line as nat }
}

/// The column headings `00 01 .. ` of the first `n` columns.
pub open spec fn dump_header_cells(n: nat) -> Seq<char>
    decreases n,
{
    if n == 0 {
        seq![]
    } else {
        dump_header_cells((n - 1) as nat) + zero_pad(hex_digits((n - 1) as nat), 2) + seq![' ']
    }
}

/// Whether offset `o` is dumped: inside `start..=end` and inside the file.
pub open spec fn dumped(app: App, o: int, start: usize, end: usize) -> bool {
    start <= o <= end && o < app.file_info.size
}

/// The hex cell of offset `o`: its byte and a space, or three spaces.
pub open spec fn dump_cell(app: App, o: int, start: usize, end: usize) -> Seq<char> {
    if dumped(app, o, start, end) {
        match shown_byte(&app, o) {
            Some(b) => hex2(b) + seq![' '],
            None => seq![' ', ' ', ' '],
        }
    } else {
        seq![' ', ' ', ' ']
    }
}

/// The text cell of offset `o`: a printable byte or a space as itself,
/// another byte as `.`, and a space where nothing is dumped.
pub open spec fn dump_char(app: App, o: int, start: usize, end: usize) -> char {
    if dumped(app, o, start, end) {
        match shown_byte(&app, o) {
            Some(b) => if is_graphic_byte(b) || b == 0x20 { b as char } else { '.' },
            None => ' ',
        }
    } else {
        ' '
    }
}

/// The hex cells of the `n` offsets from `r`.
pub open spec fn dump_cells(app: App, r: int, n: nat, start: usize, end: usize) -> Seq<char>
    decreases n,
{
    if n == 0 {
        seq![]
    } else {
        dump_cells(app, r, (n - 1) as nat, start, end) + dump_cell(app, r + n - 1, start, end)
    }
}

/// The text cells of the `n` offsets from `r`.
pub open spec fn dump_chars(app: App, r: int, n: nat, start: usize, end: usize) -> Seq<char>
    decreases n,
{
    if n == 0 {
        seq![]
    } else {
        dump_chars(app, r, (n - 1) as nat, start, end).push(dump_char(app, r + n - 1, start, end))
    }
}

/// The address a dump row shows for offset `r`.
pub open spec fn dump_addr(app: App, r: usize) -> u64 {
    if app.hex_view.show_va {
        vstd::wrapping::u64_specs::wrapping_add(app.image_base, r as u64)
    } else {
        r as u64
    }
}

/// The dump row of the line at `r`: address, hex cells, text cells.
pub open spec fn dump_row(app: App, r: usize, bpl: nat, start: usize, end: usize) -> Seq<char> {
    zero_pad(hex_digits(dump_addr(app, r) as nat), 8) + seq![' '] + dump_cells(app, r as int, bpl, start, end) + seq![' ']
        + dump_chars(app, r as int, bpl, start, end) + seq!['\r', '\n']
}

/// The rows of the lines from `r` on, one every `bpl` bytes, up to the line
/// at `last` and inside the file.
pub open spec fn dump_rows(app: App, r: int, last: int, bpl: nat, start: usize, end: usize) -> Seq<char>
    decreases (if r < app.file_info.size { app.file_info.size - r } else { 0 }),
{
    if bpl == 0 || r > last || r >= app.file_info.size || r < 0 {
        seq![]
    } else {
        dump_row(app, r as usize, bpl, start, end) + dump_rows(app, r + bpl, last, bpl, start, end)
    }
}

/// The dump of `start..=end`: a heading row of column numbers, then the
/// lines from the one holding `start` to the one holding `end`.
pub open spec fn selection_dump(app: App, start: usize, end: usize) -> Seq<char> {
    let bpl = dump_bpl(app);
    Seq::new(9, |_i: int| ' ') + dump_header_cells(bpl) + seq!['\r', '\n']
        + dump_rows(app, (start as int / bpl as int) * bpl, (end as int / bpl as int) * bpl, bpl, start, end)
}

/// The dump row of the line at `cur`.
fn push_dump_row(out: &mut String, app: &App, cur: usize, bpl: usize, start: usize, end: usize)
    requires
        bpl >= 1,
        cur + bpl <= usize::MAX,
    ensures
        final(out)@ == old(out)@ + dump_row(*app, cur, bpl as nat, start, end),
{
    let ghost base = out@;
    let addr: u64 = if app.hex_view.show_va { app.get_va(cur) } else { cur as u64 };
    push_hex(out, addr, 8);
    push_char(out, ' ');
    let ghost mid = out@;
    let mut text: Vec<char> = Vec::new();
    let mut i: usize = 0;
    while i < bpl
        invariant
            i <= bpl,
            cur + bpl <= usize::MAX,
            out@ == mid + dump_cells(*app, cur as int, i as nat, start, end),
            text@ == dump_chars(*app, cur as int, i as nat, start, end),
        decreases bpl - i,
    {
        let o = cur + i;
        let ghost before = out@;
        if o >= start && o <= end && o < app.file_info.size {
            match app.read_u8(o) {
                Some(b) => {
                    push_hex2(out, b);
                    push_char(out, ' ');
                    if (0x21 <= b && b <= 0x7E) || b == 0x20 {
                        text.push(b as char);
                    } else {
                        text.push('.');
                    }
                },
                None => {
                    push_char(out, ' ');
                    push_char(out, ' ');
                    push_char(out, ' ');
                    text.push(' ');
                },
            }
        } else {
            push_char(out, ' ');
            push_char(out, ' ');
            push_char(out, ' ');
            text.push(' ');
        }
        assert(out@ =~= before + dump_cell(*app, o as int, start, end));
        i = i + 1;
    }
    push_char(out, ' ');
    push_chars(out, text.as_slice());
    push_char(out, '\r');
    push_char(out, '\n');
    assert(out@ =~= base + dump_row(*app, cur, bpl as nat, start, end));
}

/// A text dump of `start..=end` as a mouse selection copies it: a heading of
/// column numbers, then for each line from the one holding `start` to the
/// one holding `end` (inside the file) its address, the hex of the bytes in
/// the range and their printable text (see `selection_dump`).
pub fn format_mouse_selection_dump(app: &mut App, start: usize, end: usize) -> (r: String)
    requires
        ({
            let bpl = dump_bpl(*old(app));
            let rows = (if end >= start { end - start } else { 0int }) / (bpl as int) + 2;
            &&& rows * (bpl * 4 + 16) <= isize::MAX
            &&& old(app).file_info.size + bpl <= usize::MAX
        }),
    ensures
        r@ == selection_dump(*old(app), start, end),
        *final(app) == *old(app),
{
    let bpl: usize = if app.config.hex_mode_bytes_per_line == 0 { 1 } else { app.config.hex_mode_bytes_per_line };
    let mut result = String::new();
    let mut i: usize = 0;
    while i < 9
        invariant
            i <= 9,
            result@ == Seq::new(i as nat, |_j: int| ' '),
        decreases 9 - i,
    {
        push_char(&mut result, ' ');
        i = i + 1;
        assert(result@ =~= Seq::new(i as nat, |_j: int| ' '));
    }
    let ghost pad = result@;
    let mut i: usize = 0;
    while i < bpl
        invariant
            i <= bpl,
            result@ == pad + dump_header_cells(i as nat),
        decreases bpl - i,
    {
        push_hex(&mut result, i as u64, 2);
        push_char(&mut result, ' ');
        i = i + 1;
        assert(result@ =~= pad + dump_header_cells(i as nat));
    }
    push_char(&mut result, '\r');
    push_char(&mut result, '\n');
    assert(start / bpl * bpl <= start) by (nonlinear_arith)
        requires bpl >= 1;
    assert(end / bpl * bpl <= end) by (nonlinear_arith)
        requires bpl >= 1;
    let first = (start / bpl) * bpl;
    let last = (end / bpl) * bpl;
    let ghost head = result@;
    let mut cur = first;
    while cur <= last && cur < app.file_info.size
        invariant
            bpl == dump_bpl(*app),
            bpl >= 1,
            app.file_info.size + bpl <= usize::MAX,
            head + dump_rows(*app, first as int, last as int, bpl as nat, start, end) == result@ + dump_rows(
                *app,
                cur as int,
                last as int,
                bpl as nat,
                start,
                end,
            ),
        decreases (if cur < app.file_info.size { app.file_info.size - cur } else { 0 }),
    {
        let ghost before = result@;
        push_dump_row(&mut result, app, cur, bpl, start, end);
        assert(before + dump_rows(*app, cur as int, last as int, bpl as nat, start, end) =~= result@ + dump_rows(
            *app,
            cur + bpl,
            last as int,
            bpl as nat,
            start,
            end,
        ));
        cur = cur + bpl;
    }
    assert(result@ + dump_rows(*app, cur as int, last as int, bpl as nat, start, end) =~= result@);
    result
}

} // verus!
