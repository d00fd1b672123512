//! Pending edits: staging a byte, typing hex digits, and reverting a range.
use vstd::prelude::*;

use crate::app::{after_goto, view_stayed, view_went, shown_byte, App, EditingTarget, UIState};
use crate::codec::{encode_text, is_encoding_label, text_bytes};
use crate::hex::events::{
    case_flipped, command_post, copy_block, copy_post, encoding_display_name, keys_fit, movement_spec,
    movement_target, no_selection, open_edit_data, paste_count, pasted, shift_select, shift_select_post,
    shown_encoding_name, HexAction, HexCommand, Key, KeyPress,
};
use crate::hex::selection::enc2_label;
use crate::hex::hex_view::HexView;
use crate::offset_map::OffsetMap;
use crate::text::{digit_value, push_char, push_str, string_from, to_digit};

verus! {

/// The pending edits at offsets in `lo..=hi`, in increasing offset order, as
/// `(offset, byte)` pairs; `keys` are the edited offsets in increasing order.
pub open spec fn edits_in(keys: Seq<usize>, m: Map<usize, u8>, lo: usize, hi: usize) -> Seq<(usize, u8)>
    decreases keys.len(),
{
    if keys.len() == 0 {
        seq![]
    } else {
        let rest = edits_in(keys.drop_last(), m, lo, hi);
        let k = keys.last();
        if lo <= k && k <= hi {
            rest.push((k, m[k]))
        } else {
            rest
        }
    }
}

/// `h` without the offsets in `lo..=hi`, order kept.
pub open spec fn outside(h: Seq<usize>, lo: usize, hi: usize) -> Seq<usize>
    decreases h.len(),
{
    if h.len() == 0 {
        seq![]
    } else {
        let rest = outside(h.drop_last(), lo, hi);
        let k = h.last();
        if lo <= k && k <= hi {
            rest
        } else {
            rest.push(k)
        }
    }
}

/// `h` without the offsets in `lo..=hi`, order kept.
pub fn outside_vec(h: &[usize], lo: usize, hi: usize) -> (r: Vec<usize>)
    ensures
        r@ == outside(h@, lo, hi),
{
    let mut r: Vec<usize> = Vec::new();
    let mut j: usize = 0;
    while j < h.len()
        invariant
            j <= h@.len(),
            r@ == outside(h@.take(j as int), lo, hi),
        decreases h.len() - j,
    {
        let k = h[j];
        proof {
            assert(h@.take(j + 1).drop_last() =~= h@.take(j as int));
        }
        if !(lo <= k && k <= hi) {
            r.push(k);
        }
        j = j + 1;
    }
    assert(h@.take(h@.len() as int) =~= h@);
    r
}

pub open spec fn in_range(lo: usize, hi: usize) -> Set<usize> {
    Set::new(|k: usize| lo <= k && k <= hi)
}

pub open spec fn min_usize(a: usize, b: usize) -> usize {
    if a <= b { a } else { b }
}

pub open spec fn max_usize(a: usize, b: usize) -> usize {
    if a <= b { b } else { a }
}

/// What reverting the pending edits between `start` and `end` (either order)
/// does to the editor, `n` being the count it reports.
pub open spec fn revert_range_post(a: App, b: App, start: usize, end: usize, n: usize) -> bool {
    let lo = min_usize(start, end);
    let hi = max_usize(start, end);
    let undone = edits_in(a.hex_view.changed_bytes.key_seq(), a.hex_view.changed_bytes@, lo, hi);
    &&& b.hex_view.changed_bytes@ == a.hex_view.changed_bytes@.remove_keys(in_range(lo, hi))
    &&& b.hex_view.redo_history@ == a.hex_view.redo_history@ + undone
    &&& n == undone.len()
    &&& b.hex_view.changed_history@ == outside(a.hex_view.changed_history@, lo, hi)
    &&& b.hex_view.nibble_pending == match a.hex_view.nibble_pending {
        Some(p) => if lo <= p && p <= hi { None } else { Some(p) },
        None => None,
    }
    &&& b.hex_view.same_but_edits(a.hex_view)
    &&& b.same_but_hex_view(a)
}

/// Reverting `start..=end` and `end..=start` have the same effect and count.
pub proof fn law_revert_either_order(a: App, b: App, start: usize, end: usize, n: usize)
    ensures
        revert_range_post(a, b, start, end, n) == revert_range_post(a, b, end, start, n),
{
    assert(min_usize(start, end) == min_usize(end, start));
    assert(max_usize(start, end) == max_usize(end, start));
}

/// How staging `new` at `offset` changes the pending edits and the undo
/// history: not at all past the end of the file; otherwise the byte becomes
/// pending and the offset joins the history the first time it is touched.
pub open spec fn staged(a: App, b: App, offset: usize, new: u8) -> bool {
    if offset >= a.file_info.size {
        b.hex_view.changed_bytes@ == a.hex_view.changed_bytes@
            && b.hex_view.changed_history@ == a.hex_view.changed_history@
    } else {
        &&& b.hex_view.changed_bytes@ == a.hex_view.changed_bytes@.insert(offset, new)
        &&& b.hex_view.changed_history@ == if a.hex_view.changed_bytes@.contains_key(offset) {
            a.hex_view.changed_history@
        } else {
            a.hex_view.changed_history@.push(offset)
        }
    }
}

/// What staging `new` at `offset` does to the editor.
pub open spec fn record_edit_post(a: App, b: App, offset: usize, new: u8) -> bool {
    &&& staged(a, b, offset, new)
    &&& b.hex_view.redo_history == a.hex_view.redo_history
    &&& b.hex_view.nibble_pending == a.hex_view.nibble_pending
    &&& b.hex_view.same_but_edits(a.hex_view)
    &&& b.same_but_hex_view(a)
}

/// The byte the view shows at `offset`: the pending edit if there is one,
/// otherwise the byte on disk, or zero past the end of the buffer.
pub open spec fn displayed(app: App, offset: usize) -> u8 {
    if app.hex_view.changed_bytes@.contains_key(offset) {
        app.hex_view.changed_bytes@[offset]
    } else if offset < app.file_info.buffer@.len() {
        app.file_info.buffer@[offset as int]
    } else {
        0
    }
}

/// Reverts every pending edit between `start` and `end` (inclusive, either
/// order), returning how many were undone. The undone bytes go onto the redo
/// stack in offset order; a half-typed byte inside the range is dropped.
pub fn revert_range(app: &mut App, start: usize, end: usize) -> (n: usize)
    ensures
        revert_range_post(*old(app), *final(app), start, end, n),
{
    let lo = if start <= end { start } else { end };
    let hi = if start <= end { end } else { start };
    let ghost a = *app;
    let keys = app.hex_view.changed_bytes.keys();
    let mut count: usize = 0;
    let mut i: usize = 0;
    proof {
        use_type_invariant(&app.hex_view.changed_bytes);
        app.hex_view.changed_bytes.lemma_keys();
        assert(keys@.take(0) =~= Seq::<usize>::empty());
        assert(a.hex_view.changed_bytes@.remove_keys(Set::new(|k: usize| false)) =~= a.hex_view.changed_bytes@);
    }
    while i < keys.len()
        invariant
            i <= keys@.len(),
            keys@ == a.hex_view.changed_bytes.key_seq(),
            forall|x: int, y: int| 0 <= x < y < keys@.len() ==> keys@[x] < keys@[y],
            forall|x: int| 0 <= x < keys@.len() ==> a.hex_view.changed_bytes@.contains_key(#[trigger] keys@[x]),
            forall|k: usize| #[trigger] a.hex_view.changed_bytes@.contains_key(k) ==> keys@.contains(k),
            app.hex_view.changed_bytes@ == a.hex_view.changed_bytes@.remove_keys(
                Set::new(|k: usize| lo <= k && k <= hi && keys@.take(i as int).contains(k)),
            ),
            app.hex_view.redo_history@ == a.hex_view.redo_history@ + edits_in(keys@.take(i as int), a.hex_view.changed_bytes@, lo, hi),
            count == edits_in(keys@.take(i as int), a.hex_view.changed_bytes@, lo, hi).len(),
            count <= i,
            app.hex_view.changed_history == a.hex_view.changed_history,
            app.hex_view.nibble_pending == a.hex_view.nibble_pending,
            app.hex_view.same_but_edits(a.hex_view),
            app.same_but_hex_view(a),
        decreases keys.len() - i,
    {
        let k = keys[i];
        let ghost before = app.hex_view.changed_bytes@;
        assert(keys@.take(i + 1) =~= keys@.take(i as int).push(k));
        assert(keys@.take(i as int).push(k).drop_last() =~= keys@.take(i as int));
        if lo <= k && k <= hi {
            let removed = app.hex_view.changed_bytes.remove(&k);
            match removed {
                Some(v) => {
                    app.hex_view.redo_history.push((k, v));
                    count = count + 1;
                },
                None => {
                    assert(false) by {
                        assert(!keys@.take(i as int).contains(k)) by {
                            if keys@.take(i as int).contains(k) {
                                let j = choose|j: int| 0 <= j < i && keys@.take(i as int)[j] == k;
                                assert(keys@[j] < keys@[i as int]);
                            }
                        }
                    }
                },
            }
        }
        proof {
            let t0 = keys@.take(i as int);
            let t1 = keys@.take(i + 1);
            assert forall|x: usize| t1.contains(x) <==> (t0.contains(x) || x == k) by {
                if t1.contains(x) {
                    let j = choose|j: int| 0 <= j < t1.len() && t1[j] == x;
                    if j < i {
                        assert(t0[j] == x);
                    }
                }
                if t0.contains(x) {
                    let j = choose|j: int| 0 <= j < t0.len() && t0[j] == x;
                    assert(t1[j] == x);
                }
                if x == k {
                    assert(t1[i as int] == x);
                }
            }
        }
        i = i + 1;
        proof {
            assert(app.hex_view.changed_bytes@ =~= a.hex_view.changed_bytes@.remove_keys(
                Set::new(|x: usize| lo <= x && x <= hi && keys@.take(i as int).contains(x)),
            ));
        }
    }
    proof {
        assert(keys@.take(i as int) =~= keys@);
        assert(Set::new(|x: usize| lo <= x && x <= hi && keys@.contains(x)).intersect(a.hex_view.changed_bytes@.dom()) =~= in_range(lo, hi).intersect(a.hex_view.changed_bytes@.dom()));
        assert(app.hex_view.changed_bytes@ =~= a.hex_view.changed_bytes@.remove_keys(in_range(lo, hi)));
    }
    let mut kept: Vec<usize> = Vec::new();
    let mut j: usize = 0;
    while j < app.hex_view.changed_history.len()
        invariant
            j <= app.hex_view.changed_history@.len(),
            app.hex_view.changed_history == a.hex_view.changed_history,
            kept@ == outside(app.hex_view.changed_history@.take(j as int), lo, hi),
        decreases app.hex_view.changed_history@.len() - j,
    {
        let o = app.hex_view.changed_history[j];
        assert(app.hex_view.changed_history@.take(j + 1).drop_last() =~= app.hex_view.changed_history@.take(j as int));
        if o < lo || o > hi {
            kept.push(o);
        }
        j = j + 1;
    }
    assert(app.hex_view.changed_history@.take(j as int) =~= app.hex_view.changed_history@);
    app.hex_view.changed_history = kept;
    match app.hex_view.nibble_pending {
        Some(p) => {
            if lo <= p && p <= hi {
                app.hex_view.nibble_pending = None;
            }
        },
        None => {},
    }
    count
}

proof fn lemma_edits_in_empty(keys: Seq<usize>, m: Map<usize, u8>, lo: usize, hi: usize)
    requires
        forall|i: int| 0 <= i < keys.len() ==> !(lo <= #[trigger] keys[i] && keys[i] <= hi),
    ensures
        edits_in(keys, m, lo, hi) == Seq::<(usize, u8)>::empty(),
    decreases keys.len(),
{
    if keys.len() > 0 {
        assert forall|i: int| 0 <= i < keys.drop_last().len() implies !(lo <= #[trigger] keys.drop_last()[i]
            && keys.drop_last()[i] <= hi) by {
            assert(keys.drop_last()[i] == keys[i]);
        }
        lemma_edits_in_empty(keys.drop_last(), m, lo, hi);
        assert(!(lo <= keys[keys.len() - 1] && keys[keys.len() - 1] <= hi));
    }
}

proof fn lemma_edits_in_single(keys: Seq<usize>, m: Map<usize, u8>, o: usize)
    requires
        forall|i: int, j: int| 0 <= i < j < keys.len() ==> keys[i] < keys[j],
        keys.contains(o),
    ensures
        edits_in(keys, m, o, o) == seq![(o, m[o])],
    decreases keys.len(),
{
    let rest = keys.drop_last();
    if keys.last() == o {
        assert forall|i: int| 0 <= i < rest.len() implies !(o <= #[trigger] rest[i] && rest[i] <= o) by {
            assert(rest[i] == keys[i]);
            assert(keys[i] < keys[keys.len() - 1]);
        }
        lemma_edits_in_empty(rest, m, o, o);
        assert(edits_in(keys, m, o, o) =~= seq![(o, m[o])]);
    } else {
        let j = choose|j: int| 0 <= j < keys.len() && keys[j] == o;
        assert(rest[j] == o);
        lemma_edits_in_single(rest, m, o);
    }
}

proof fn lemma_edits_in_member(keys: Seq<usize>, m: Map<usize, u8>, lo: usize, hi: usize, i: int)
    requires
        0 <= i < edits_in(keys, m, lo, hi).len(),
    ensures
        keys.contains(edits_in(keys, m, lo, hi)[i].0),
        lo <= edits_in(keys, m, lo, hi)[i].0 <= hi,
        edits_in(keys, m, lo, hi)[i].1 == m[edits_in(keys, m, lo, hi)[i].0],
    decreases keys.len(),
{
    let rest = keys.drop_last();
    let e = edits_in(keys, m, lo, hi);
    let r = edits_in(rest, m, lo, hi);
    if i < r.len() {
        lemma_edits_in_member(rest, m, lo, hi, i);
        let j = choose|j: int| 0 <= j < rest.len() && rest[j] == r[i].0;
        assert(keys[j] == r[i].0);
    } else {
        assert(keys[keys.len() - 1] == e[i].0);
    }
}

/// The offsets of `e`.
pub open spec fn edit_offsets(e: Seq<(usize, u8)>) -> Seq<usize> {
    e.map_values(|x: (usize, u8)| x.0)
}

proof fn lemma_edits_in_order(keys: Seq<usize>, m: Map<usize, u8>, lo: usize, hi: usize)
    requires
        forall|i: int, j: int| 0 <= i < j < keys.len() ==> keys[i] < keys[j],
    ensures
        forall|i: int, j: int|
            0 <= i < j < edits_in(keys, m, lo, hi).len() ==> (#[trigger] edits_in(keys, m, lo, hi)[i]).0 < (
            #[trigger] edits_in(keys, m, lo, hi)[j]).0,
        forall|x: usize| #[trigger] edit_offsets(edits_in(keys, m, lo, hi)).contains(x) == (keys.contains(x) && lo <= x
            && x <= hi),
        forall|i: int| 0 <= i < edits_in(keys, m, lo, hi).len() ==> edits_in(keys, m, lo, hi)[i].0 <= (if keys.len()
            > 0 { keys.last() } else { 0 }),
    decreases keys.len(),
{
    let e = edits_in(keys, m, lo, hi);
    if keys.len() > 0 {
        let d = keys.drop_last();
        let k = keys.last();
        let r = edits_in(d, m, lo, hi);
        lemma_edits_in_order(d, m, lo, hi);
        assert forall|i: int| 0 <= i < r.len() implies #[trigger] r[i].0 < k by {
            if d.len() > 0 {
                assert(d.last() == keys[d.len() - 1]);
                assert(keys[d.len() - 1] < k);
            }
        }
        assert forall|x: usize| #[trigger] edit_offsets(e).contains(x) == (keys.contains(x) && lo <= x && x <= hi) by {
            if edit_offsets(e).contains(x) {
                let q = choose|q: int| 0 <= q < edit_offsets(e).len() && edit_offsets(e)[q] == x;
                lemma_edits_in_member(keys, m, lo, hi, q);
            }
            if keys.contains(x) && lo <= x && x <= hi {
                let q = choose|q: int| 0 <= q < keys.len() && keys[q] == x;
                if q == keys.len() - 1 {
                    assert(e.last().0 == x);
                    assert(edit_offsets(e)[e.len() - 1] == x);
                } else {
                    assert(d[q] == x);
                    assert(d.contains(x));
                    assert(edit_offsets(r).contains(x));
                    let w = choose|w: int| 0 <= w < edit_offsets(r).len() && edit_offsets(r)[w] == x;
                    assert(e[w] == r[w]);
                    assert(edit_offsets(e)[w] == x);
                }
            }
        }
        assert forall|i: int| 0 <= i < e.len() implies e[i].0 <= k by {
            if i < r.len() {
                assert(e[i] == r[i]);
            }
        }
    }
}

/// What a revert reports and where the undone edits go, counted and ordered:
/// it returns how many pending edits lay in `lo..=hi`; the redo stack gains
/// one entry for each of them, with the byte it held, in increasing offset
/// order; and which two ends are given first does not matter.
pub proof fn law_revert_count_and_order(a: App, b: App, start: usize, end: usize, n: usize)
    requires
        revert_range_post(a, b, start, end, n),
        a.hex_view.changed_bytes.wf(),
    ensures
        n == a.hex_view.changed_bytes@.dom().filter(|o: usize| min_usize(start, end) <= o && o <= max_usize(start, end)).len(),
        b.hex_view.redo_history@.len() == a.hex_view.redo_history@.len() + n,
        forall|i: int, j: int|
            0 <= i < j < n ==> (#[trigger] b.hex_view.redo_history@[a.hex_view.redo_history@.len() + i]).0 < (
            #[trigger] b.hex_view.redo_history@[a.hex_view.redo_history@.len() + j]).0,
        forall|o: usize|
            #![trigger a.hex_view.changed_bytes@.contains_key(o)]
            a.hex_view.changed_bytes@.contains_key(o) && min_usize(start, end) <= o && o <= max_usize(start, end) ==> exists|i: int|
                0 <= i < n && #[trigger] b.hex_view.redo_history@[a.hex_view.redo_history@.len() + i] == (
                o,
                a.hex_view.changed_bytes@[o],
            ),
        revert_range_post(a, b, end, start, n),
{
    let lo = min_usize(start, end);
    let hi = max_usize(start, end);
    let m = a.hex_view.changed_bytes@;
    let keys = a.hex_view.changed_bytes.key_seq();
    a.hex_view.changed_bytes.lemma_keys();
    lemma_edits_in_order(keys, m, lo, hi);
    let e = edits_in(keys, m, lo, hi);
    let base = a.hex_view.redo_history@.len();
    assert forall|i: int| 0 <= i < e.len() implies b.hex_view.redo_history@[base + i] == #[trigger] e[i] by {}
    let offs = edit_offsets(e);
    assert(offs.no_duplicates()) by {
        assert forall|i: int, j: int| 0 <= i < offs.len() && 0 <= j < offs.len() && i != j implies offs[i] != offs[j] by {
            if i < j {
                assert(e[i].0 < e[j].0);
            } else {
                assert(e[j].0 < e[i].0);
            }
        }
    }
    offs.unique_seq_to_set();
    let f = m.dom().filter(|o: usize| lo <= o && o <= hi);
    assert(offs.to_set() =~= f) by {
        assert forall|x: usize| #[trigger] offs.to_set().contains(x) == f.contains(x) by {
            assert(offs.contains(x) == (keys.contains(x) && lo <= x && x <= hi));
        }
    }
    assert forall|o: usize|
        #![trigger m.contains_key(o)]
        m.contains_key(o) && lo <= o && o <= hi implies exists|i: int|
            0 <= i < n && #[trigger] b.hex_view.redo_history@[base + i] == (o, m[o]) by {
        assert(offs.contains(o));
        let q = choose|q: int| 0 <= q < offs.len() && offs[q] == o;
        lemma_edits_in_member(keys, m, lo, hi, q);
        assert(b.hex_view.redo_history@[base + q] == e[q]);
    }
    law_revert_either_order(a, b, start, end, n);
}

/// After a revert, every byte in the reverted range shows what is on disk again.
pub proof fn law_revert_shows_disk_bytes(a: App, b: App, start: usize, end: usize, n: usize, k: usize)
    requires
        revert_range_post(a, b, start, end, n),
        min_usize(start, end) <= k <= max_usize(start, end),
    ensures
        displayed(b, k) == if k < a.file_info.buffer@.len() {
            a.file_info.buffer@[k as int]
        } else {
            0
        },
{
}

/// The redo stack gains exactly the reverted edits: each new entry is an edit
/// that was pending inside the range, with the byte it held.
pub proof fn law_redo_holds_the_reverted_edits(a: App, b: App, start: usize, end: usize, n: usize, i: int)
    requires
        revert_range_post(a, b, start, end, n),
        a.hex_view.changed_bytes.wf(),
        0 <= i < n,
    ensures
        ({
            let (k, v) = b.hex_view.redo_history@[a.hex_view.redo_history@.len() + i];
            &&& a.hex_view.changed_bytes@.contains_key(k)
            &&& a.hex_view.changed_bytes@[k] == v
            &&& min_usize(start, end) <= k <= max_usize(start, end)
        }),
{
    let lo = min_usize(start, end);
    let hi = max_usize(start, end);
    let keys = a.hex_view.changed_bytes.key_seq();
    lemma_edits_in_member(keys, a.hex_view.changed_bytes@, lo, hi, i);
    assert(b.hex_view.redo_history@[a.hex_view.redo_history@.len() + i] == edits_in(
        keys,
        a.hex_view.changed_bytes@,
        lo,
        hi,
    )[i]);
    a.hex_view.changed_bytes.lemma_keys();
    let k = edits_in(keys, a.hex_view.changed_bytes@, lo, hi)[i].0;
    let j = choose|j: int| 0 <= j < keys.len() && keys[j] == k;
    assert(a.hex_view.changed_bytes@.contains_key(keys[j]));
}

/// Reverting a byte that was just staged over a clean offset undoes it: the
/// pending edits are as before, one edit is reported, and the staged byte is
/// what the redo stack gains.
pub proof fn law_revert_undoes_a_fresh_edit(a: App, b: App, c: App, o: usize, x: u8, n: usize)
    requires
        record_edit_post(a, b, o, x),
        revert_range_post(b, c, o, o, n),
        o < a.file_info.size,
        !a.hex_view.changed_bytes@.contains_key(o),
        b.hex_view.changed_bytes.wf(),
    ensures
        c.hex_view.changed_bytes@ == a.hex_view.changed_bytes@,
        n == 1,
        c.hex_view.redo_history@ == a.hex_view.redo_history@.push((o, x)),
        displayed(c, o) == displayed(a, o),
{
    b.hex_view.changed_bytes.lemma_keys();
    let keys = b.hex_view.changed_bytes.key_seq();
    assert(b.hex_view.changed_bytes@.contains_key(o));
    lemma_edits_in_single(keys, b.hex_view.changed_bytes@, o);
    assert(c.hex_view.changed_bytes@ =~= a.hex_view.changed_bytes@);
}

/// Staging the same offset twice leaves one entry for it in the undo history,
/// holding the later byte.
pub proof fn law_one_history_entry_per_byte(a: App, b: App, c: App, o: usize, x: u8, y: u8)
    requires
        record_edit_post(a, b, o, x),
        record_edit_post(b, c, o, y),
        o < a.file_info.size,
    ensures
        c.hex_view.changed_bytes@ == a.hex_view.changed_bytes@.insert(o, y),
        c.hex_view.changed_history@ == if a.hex_view.changed_bytes@.contains_key(o) {
            a.hex_view.changed_history@
        } else {
            a.hex_view.changed_history@.push(o)
        },
{
    assert(c.hex_view.changed_bytes@ =~= a.hex_view.changed_bytes@.insert(o, y));
}

/// The byte shown at `offset`: the pending edit if there is one, otherwise
/// what is on disk, or zero past the end of the buffer.
pub fn displayed_byte(app: &App, offset: usize) -> (b: u8)
    ensures
        b == displayed(*app, offset),
{
    match app.hex_view.changed_bytes.get(&offset) {
        Some(b) => *b,
        None => {
            if offset < app.file_info.buffer.len() {
                app.file_info.buffer[offset]
            } else {
                0
            }
        },
    }
}

/// Stages `new` at `offset` as a pending edit. Offsets past the end of the file
/// are ignored; an offset enters the undo history once, when first edited.
pub fn record_edit(app: &mut App, offset: usize, new: u8)
    ensures
        record_edit_post(*old(app), *final(app), offset, new),
{
    if offset >= app.file_info.size {
        return;
    }
    if !app.hex_view.changed_bytes.contains_key(&offset) {
        app.hex_view.changed_history.push(offset);
    }
    app.hex_view.changed_bytes.insert(offset, new);
}

/// The byte after typing hex digit `v` into `cur`: the first digit of a byte
/// replaces the high nibble and keeps the low one, the second replaces the low
/// nibble.
pub open spec fn nibble_typed(cur: u8, v: u8, completing: bool) -> u8 {
    if completing {
        ((cur / 16) * 16 + v) as u8
    } else {
        (v * 16 + cur % 16) as u8
    }
}

/// What typing the hex digit `digit` in the byte column does.
pub open spec fn nibble_post(a: App, b: App, digit: char) -> bool {
    &&& match digit_value(digit, 16) {
            None => b == a,
            Some(v) => {
                let off = a.hex_view.offset;
                let completing = a.hex_view.nibble_pending == Some(off);
                let new = nibble_typed(displayed(a, off), v as u8, completing);
                &&& staged(a, b, off, new)
                &&& b.hex_view.redo_history == a.hex_view.redo_history
                &&& b.hex_view.nibble_pending == if completing {
                    None
                } else {
                    Some(off)
                }
                &&& if completing { view_went(a, b, (off + 1) as usize) } else { view_stayed(a, b) }
                &&& b.hex_view == (HexView {
                    changed_bytes: b.hex_view.changed_bytes,
                    changed_history: b.hex_view.changed_history,
                    nibble_pending: b.hex_view.nibble_pending,
                    offset: b.hex_view.offset,
                    cursor: b.hex_view.cursor,
                    ..a.hex_view
                })
                &&& b.same_but_view(a)
            },
        }
}

/// Applies one typed hex digit to the byte under the cursor. A character that is
/// not a hex digit does nothing.
pub fn type_hex_nibble(app: &mut App, digit: char)
    requires
        old(app).hex_view.offset < usize::MAX,
    ensures
        nibble_post(*old(app), *final(app), digit),
{
    let offset = app.hex_view.offset;
    let value = match to_digit(digit, 16) {
        Some(v) => v as u8,
        None => {
            return;
        },
    };
    let completing = match app.hex_view.nibble_pending {
        Some(p) => p == offset,
        None => false,
    };
    let current = displayed_byte(app, offset);
    let new_byte: u8 = if completing {
        (current / 16) * 16 + value
    } else {
        value * 16 + current % 16
    };
    record_edit(app, offset, new_byte);
    if completing {
        app.hex_view.nibble_pending = None;
        app.goto(offset + 1);
    } else {
        app.hex_view.nibble_pending = Some(offset);
    }
}

/// What staging `with` at the cursor does, stepping on if `advance`.
pub open spec fn fill_with_post(a: App, b: App, with: u8, advance: bool) -> bool {
    &&& staged(a, b, a.hex_view.offset, with)
    &&& b.hex_view.redo_history == a.hex_view.redo_history
    &&& b.hex_view.nibble_pending == a.hex_view.nibble_pending
    &&& if advance { view_went(a, b, (a.hex_view.offset + 1) as usize) } else { view_stayed(a, b) }
    &&& b.hex_view == (HexView {
            changed_bytes: b.hex_view.changed_bytes,
            changed_history: b.hex_view.changed_history,
            offset: b.hex_view.offset,
            cursor: b.hex_view.cursor,
            ..a.hex_view
        })
    &&& b.same_but_view(a)
}

/// Stages `with` at the cursor and, if `advance`, moves the cursor on by one.
pub fn fill_with(app: &mut App, with: u8, advance: bool)
    requires
        advance ==> old(app).hex_view.offset < usize::MAX,
    ensures
        fill_with_post(*old(app), *final(app), with, advance),
{
    let offset = app.hex_view.offset;
    record_edit(app, offset, with);
    if advance {
        let next = app.hex_view.offset + 1;
        app.goto(next);
    }
}

// ---------------------------------------------------------------------------
// Edit mode's keys
// ---------------------------------------------------------------------------

/// What a key asks for in edit mode (F2).
#[derive(Clone, Copy, PartialEq, Eq, Debug, Structural)]
pub enum EditCommand {
    /// Shift with a movement key: extend the selection to this offset.
    SelectTo(usize),
    /// A movement key without Shift: drop the selection and go here.
    Move(usize),
    Leave,
    Copy,
    EditData,
    /// Backspace: one byte back.
    StepBack,
    /// Tab: the next column takes the keys.
    SwitchTarget,
    /// A hex digit typed into the byte column.
    Nibble(char),
    /// `~` in the byte column.
    FlipCase,
    /// A character typed into an encoding column.
    TypeChar(char),
    Nothing,
}

/// What a key asks for in edit mode: movement keys move (or select with
/// Shift), Esc and Enter leave, Ctrl+C and Ctrl+E copy and open Edit Data,
/// Backspace steps back, Tab switches column, and a character without Ctrl
/// is typed into the column with focus.
pub open spec fn edit_command(app: App, key: KeyPress) -> EditCommand {
    match movement_spec(app, key) {
        Some(t) => if key.shift && app.file_info.buffer@.len() > 0 {
            EditCommand::SelectTo(t as usize)
        } else {
            EditCommand::Move(t as usize)
        },
        None => match key.code {
            Key::Esc => EditCommand::Leave,
            Key::Enter => EditCommand::Leave,
            Key::Backspace => if app.hex_view.offset > 0 {
                EditCommand::StepBack
            } else {
                EditCommand::Nothing
            },
            Key::Tab => EditCommand::SwitchTarget,
            Key::Char(c) => if (c == 'c' || c == 'C') && key.ctrl {
                EditCommand::Copy
            } else if (c == 'e' || c == 'E') && key.ctrl {
                EditCommand::EditData
            } else if key.ctrl {
                EditCommand::Nothing
            } else if app.hex_view.editing_target == EditingTarget::Hex {
                if digit_value(c, 16) is Some {
                    EditCommand::Nibble(c)
                } else if c == '~' {
                    EditCommand::FlipCase
                } else {
                    EditCommand::Nothing
                }
            } else {
                EditCommand::TypeChar(c)
            },
            _ => EditCommand::Nothing,
        },
    }
}

/// The state an edit-mode key acts on: any key but a hex digit ends a
/// half-typed byte.
pub open spec fn unpended(a: App, key: KeyPress) -> App {
    match key.code {
        Key::Char(c) => if digit_value(c, 16) is Some {
            a
        } else {
            App { hex_view: HexView { nibble_pending: None, ..a.hex_view }, ..a }
        },
        _ => App { hex_view: HexView { nibble_pending: None, ..a.hex_view }, ..a },
    }
}

/// The column Tab moves to: the next one, skipping the second encoding
/// column when there is none.
pub open spec fn switched_target(app: App) -> EditingTarget {
    match app.hex_view.editing_target {
        EditingTarget::Hex => EditingTarget::Enc1,
        EditingTarget::Enc1 => if app.hex_view.enc2 is Some {
            EditingTarget::Enc2
        } else {
            EditingTarget::Hex
        },
        EditingTarget::Enc2 => EditingTarget::Hex,
    }
}

/// How the log names the column `t`.
pub open spec fn target_name(app: App, t: EditingTarget) -> Seq<char> {
    match t {
        EditingTarget::Hex => "HEX"@,
        EditingTarget::Enc1 => "ENC1 ("@ + shown_encoding_name(app.enc1@) + ")"@,
        EditingTarget::Enc2 => "ENC2 ("@ + shown_encoding_name(enc2_label(app)) + ")"@,
    }
}

/// The bytes a character typed into a column encoded as `label` becomes;
/// none when the label names no encoding.
pub open spec fn typed_bytes(label: Seq<char>, c: char) -> Seq<u8> {
    if is_encoding_label(label) {
        text_bytes(label, seq![c])
    } else {
        seq![]
    }
}

/// The label of the encoding column with focus.
pub open spec fn focused_label(app: App) -> Seq<char> {
    if app.hex_view.editing_target == EditingTarget::Enc2 {
        enc2_label(app)
    } else {
        app.enc1@
    }
}

/// What carrying out the edit-mode command `cmd` on `m` does.
pub open spec fn edit_post(m: App, b: App, cmd: EditCommand, act: HexAction) -> bool {
    let ofs = m.hex_view.offset;
    let size = m.file_info.size;
    match cmd {
        EditCommand::SelectTo(t) => act is Nothing && shift_select_post(m, b, t),
        EditCommand::Move(t) => {
            &&& act is Nothing
            &&& view_went(m, b, t)
            &&& b.hex_view.same_but_offset(no_selection(m.hex_view))
            &&& b.same_but_view(m)
        },
        EditCommand::Leave => act is Nothing && b == (App {
            state: UIState::Normal,
            hex_view: HexView {
                editing_hex: true,
                editing_target: EditingTarget::Hex,
                shift_anchor: None,
                ..m.hex_view
            },
            ..m
        }),
        EditCommand::Copy => if m.hex_view.selection.start == m.hex_view.selection.end {
            act is Beep && b == m
        } else {
            copy_post(m, b, act)
        },
        EditCommand::EditData => command_post(m, b, HexCommand::EditData, act),
        EditCommand::StepBack => {
            &&& act is Nothing
            &&& view_went(m, b, (ofs - 1) as usize)
            &&& b.hex_view.same_but_offset(no_selection(m.hex_view))
            &&& b.same_but_view(m)
        },
        EditCommand::SwitchTarget => {
            let t = switched_target(m);
            &&& act is Nothing
            &&& b.hex_view == (HexView { editing_target: t, editing_hex: t == EditingTarget::Hex, ..m.hex_view })
            &&& b.logs@ == m.logs@.push(b.logs@.last())
            &&& b.logs@.last()@ == "Edit target switched to "@ + target_name(m, t)
            &&& b == (App { hex_view: b.hex_view, logs: b.logs, ..m })
        },
        EditCommand::Nibble(c) => act is Nothing && nibble_post(m, b, c),
        EditCommand::FlipCase => act is Nothing && match shown_byte(&m, ofs as int) {
            None => b == m,
            Some(v) => match case_flipped(v) {
                Some(f) => fill_with_post(m, b, f, true),
                None => {
                    &&& view_went(m, b, (ofs + 1) as usize)
                    &&& b.hex_view.same_but_offset(m.hex_view)
                    &&& b.same_but_view(m)
                },
            },
        },
        EditCommand::TypeChar(c) => {
            let bs = typed_bytes(focused_label(m), c);
            let n = paste_count(ofs, bs, size as nat);
            let (pm, ph) = pasted(m.hex_view.changed_bytes@, ofs, bs, n, size);
            &&& act is Nothing
            &&& b.hex_view.changed_bytes@ == pm
            &&& b.hex_view.changed_history@ == m.hex_view.changed_history@ + ph
            &&& view_went(m, b, (ofs + n) as usize)
            &&& b.hex_view.redo_history == m.hex_view.redo_history
            &&& b.hex_view.nibble_pending == m.hex_view.nibble_pending
            &&& b.hex_view == (HexView {
                changed_bytes: b.hex_view.changed_bytes,
                changed_history: b.hex_view.changed_history,
                offset: b.hex_view.offset,
                cursor: b.hex_view.cursor,
                ..m.hex_view
            })
            &&& b.same_but_view(m)
        },
        EditCommand::Nothing => act is Nothing && b == m,
    }
}

/// Classifies a key in edit mode (see `edit_command`).
pub fn edit_command_for(app: &App, key: KeyPress) -> (c: EditCommand)
    requires
        keys_fit(*app),
    ensures
        c == edit_command(*app, key),
{
    match movement_target(app, &key) {
        Some(t) => {
            return if key.shift && app.file_info.buffer.len() > 0 {
                EditCommand::SelectTo(t)
            } else {
                EditCommand::Move(t)
            };
        },
        None => {},
    }
    match key.code {
        Key::Esc => EditCommand::Leave,
        Key::Enter => EditCommand::Leave,
        Key::Backspace => if app.hex_view.offset > 0 {
            EditCommand::StepBack
        } else {
            EditCommand::Nothing
        },
        Key::Tab => EditCommand::SwitchTarget,
        Key::Char(c) => if (c == 'c' || c == 'C') && key.ctrl {
            EditCommand::Copy
        } else if (c == 'e' || c == 'E') && key.ctrl {
            EditCommand::EditData
        } else if key.ctrl {
            EditCommand::Nothing
        } else {
            match app.hex_view.editing_target {
                EditingTarget::Hex => {
                    if to_digit(c, 16).is_some() {
                        EditCommand::Nibble(c)
                    } else if c == '~' {
                        EditCommand::FlipCase
                    } else {
                        EditCommand::Nothing
                    }
                },
                _ => EditCommand::TypeChar(c),
            }
        },
        _ => EditCommand::Nothing,
    }
}

fn type_char(app: &mut App, c: char) -> (act: HexAction)
    requires
        old(app).hex_view.editing_target != EditingTarget::Hex,
    ensures
        edit_post(*old(app), *final(app), EditCommand::TypeChar(c), act),
{
    let mut text = String::new();
    push_char(&mut text, c);
    let label = match app.hex_view.editing_target {
        EditingTarget::Enc2 => match &app.hex_view.enc2 {
            Some(l) => string_from(l.as_str()),
            None => string_from("UTF-8"),
        },
        _ => string_from(app.enc1.as_str()),
    };
    proof {
        reveal_strlit("UTF-8");
    }
    let bytes = match encode_text(text.as_str(), label.as_str()) {
        Some(b) => b,
        None => Vec::new(),
    };
    assert(bytes@ == typed_bytes(focused_label(*app), c));
    let start = app.hex_view.offset;
    let size = app.file_info.size;
    let n: usize = if start >= size {
        0
    } else if bytes.len() < size - start {
        bytes.len()
    } else {
        size - start
    };
    let ghost a = *app;
    let mut i: usize = 0;
    assert(a.hex_view.changed_history@ + Seq::<usize>::empty() =~= a.hex_view.changed_history@);
    while i < n
        invariant
            i <= n,
            n == paste_count(start, bytes@, size as nat),
            n > 0 ==> start + n <= size,
            size == a.file_info.size,
            start == a.hex_view.offset,
            app.hex_view.changed_bytes@ == pasted(a.hex_view.changed_bytes@, start, bytes@, i as nat, size).0,
            app.hex_view.changed_history@ == a.hex_view.changed_history@ + pasted(a.hex_view.changed_bytes@, start, bytes@, i as nat, size).1,
            app.hex_view.redo_history == a.hex_view.redo_history,
            app.hex_view.nibble_pending == a.hex_view.nibble_pending,
            app.hex_view.same_but_edits(a.hex_view),
            app.same_but_hex_view(a),
        decreases n - i,
    {
        let k = start + i;
        record_edit(app, k, bytes[i]);
        i = i + 1;
        assert(app.hex_view.changed_history@ =~= a.hex_view.changed_history@ + pasted(
            a.hex_view.changed_bytes@,
            start,
            bytes@,
            i as nat,
            size,
        ).1);
    }
    app.goto(start + n);
    HexAction::Nothing
}

fn switch_target(app: &mut App) -> (act: HexAction)
    ensures
        edit_post(*old(app), *final(app), EditCommand::SwitchTarget, act),
{
    let mut next = app.hex_view.editing_target.next();
    if next == EditingTarget::Enc2 && app.hex_view.enc2.is_none() {
        next = EditingTarget::Hex;
    }
    app.hex_view.editing_target = next;
    app.hex_view.editing_hex = next == EditingTarget::Hex;
    let name = match next {
        EditingTarget::Hex => string_from("HEX"),
        EditingTarget::Enc1 => {
            let mut w = string_from("ENC1 (");
            let e = encoding_display_name(app.enc1.as_str());
            push_str(&mut w, e.as_str());
            push_str(&mut w, ")");
            w
        },
        EditingTarget::Enc2 => {
            let mut w = string_from("ENC2 (");
            let e = match &app.hex_view.enc2 {
                Some(l) => encoding_display_name(l.as_str()),
                None => encoding_display_name("UTF-8"),
            };
            push_str(&mut w, e.as_str());
            push_str(&mut w, ")");
            w
        },
    };
    let mut msg = string_from("Edit target switched to ");
    push_str(&mut msg, name.as_str());
    proof {
        reveal_strlit("Edit target switched to ");
        reveal_strlit("HEX");
        reveal_strlit("ENC1 (");
        reveal_strlit("ENC2 (");
        reveal_strlit(")");
        reveal_strlit("UTF-8");
    }
    app.log(msg);
    HexAction::Nothing
}

fn flip_case_at_cursor(app: &mut App) -> (act: HexAction)
    requires
        old(app).hex_view.offset < usize::MAX,
    ensures
        edit_post(*old(app), *final(app), EditCommand::FlipCase, act),
{
    let ofs = app.hex_view.offset;
    match app.read_u8(ofs) {
        None => {},
        Some(b) => {
            if 0x61 <= b && b <= 0x7A {
                fill_with(app, b - 32, true);
            } else if 0x41 <= b && b <= 0x5A {
                fill_with(app, b + 32, true);
            } else {
                app.goto(ofs + 1);
            }
        },
    }
    HexAction::Nothing
}

/// Carries out the edit-mode command `cmd` (see `edit_post`).
pub fn run_edit_command(app: &mut App, cmd: EditCommand) -> (act: HexAction)
    requires
        old(app).hex_view.offset < usize::MAX,
        cmd is TypeChar ==> old(app).hex_view.editing_target != EditingTarget::Hex,
        cmd is StepBack ==> old(app).hex_view.offset > 0,
    ensures
        edit_post(*old(app), *final(app), cmd, act),
{
    match cmd {
        EditCommand::SelectTo(t) => {
            shift_select(app, t);
            HexAction::Nothing
        },
        EditCommand::Move(t) => {
            app.hex_view.selection.clear();
            app.hex_view.shift_anchor = None;
            app.goto(t);
            HexAction::Nothing
        },
        EditCommand::Leave => {
            app.state = UIState::Normal;
            app.hex_view.editing_hex = true;
            app.hex_view.editing_target = EditingTarget::Hex;
            app.hex_view.shift_anchor = None;
            HexAction::Nothing
        },
        EditCommand::Copy => {
            if app.hex_view.selection.start == app.hex_view.selection.end {
                HexAction::Beep
            } else {
                copy_block(app)
            }
        },
        EditCommand::EditData => open_edit_data(app),
        EditCommand::StepBack => {
            app.hex_view.selection.clear();
            app.hex_view.shift_anchor = None;
            let t = app.hex_view.offset - 1;
            app.goto(t);
            HexAction::Nothing
        },
        EditCommand::SwitchTarget => switch_target(app),
        EditCommand::Nibble(c) => {
            type_hex_nibble(app, c);
            HexAction::Nothing
        },
        EditCommand::FlipCase => flip_case_at_cursor(app),
        EditCommand::TypeChar(c) => type_char(app, c),
        EditCommand::Nothing => HexAction::Nothing,
    }
}

/// Handles a key in edit mode: any key but a hex digit first ends a
/// half-typed byte, then `edit_command` says what it does. The bell and the
/// clipboard come back as the action.
pub fn edit_events(app: &mut App, key: KeyPress) -> (act: HexAction)
    requires
        keys_fit(*old(app)),
    ensures
        edit_post(unpended(*old(app), key), *final(app), edit_command(*old(app), key), act),
{
    let cmd = edit_command_for(app, key);
    let keep = match key.code {
        Key::Char(c) => to_digit(c, 16).is_some(),
        _ => false,
    };
    if !keep {
        app.hex_view.nibble_pending = None;
    }
    assert(*app == unpended(*old(app), key));
    run_edit_command(app, cmd)
}

} // verus!
