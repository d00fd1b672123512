//! The list of pending edits, grouped into runs.
use vstd::prelude::*;

use crate::app::{after_goto, copied, App, AppView, UIState};
use crate::hex::edit_dialog::{edit_dialog_opened, open_edit_dialog};
use crate::hex::events::{HexAction, Key, KeyPress};
use crate::hex::hex_view::HexView;
use crate::initfile::join;
use crate::offset_map::OffsetMap;
use crate::text::{dec_digits, hex2, hex_digits, push_char, push_dec, push_hex, push_hex2, push_str, string_from};

verus! {

/// A run of consecutive edited offsets that are all on or all off.
#[derive(Debug)]
pub struct PatchItem {
    pub offset: usize,
    pub size: usize,
    pub orig_bytes: Vec<u8>,
    pub patched_bytes: Vec<u8>,
    pub enabled: bool,
}

pub struct PatchesDialog {
    pub items: Vec<PatchItem>,
    pub selected_index: usize,
}

impl PatchesDialog {
    pub fn new() -> (d: Self)
        ensures
            d.items@.len() == 0,
            d.selected_index == 0,
    {
        PatchesDialog { items: Vec::new(), selected_index: 0 }
    }

    pub fn reset(&mut self)
        ensures
            final(self).items@.len() == 0,
            final(self).selected_index == 0,
    {
        self.items = Vec::new();
        self.selected_index = 0;
    }
}


/// Two increasing offset lists merged into one, an offset in both kept once.
pub open spec fn merge_keys(a: Seq<usize>, b: Seq<usize>) -> Seq<usize>
    decreases a.len() + b.len(),
{
    if a.len() == 0 {
        b
    } else if b.len() == 0 {
        a
    } else if a[0] < b[0] {
        seq![a[0]] + merge_keys(a.drop_first(), b)
    } else if b[0] < a[0] {
        seq![b[0]] + merge_keys(a, b.drop_first())
    } else {
        seq![a[0]] + merge_keys(a.drop_first(), b.drop_first())
    }
}

/// Every offset with an edit, on or off, in increasing order.
pub open spec fn patch_offsets(app: App) -> Seq<usize> {
    merge_keys(app.hex_view.changed_bytes.key_seq(), app.hex_view.disabled_bytes.key_seq())
}

/// Whether the edit at `k` is on.
pub open spec fn enabled_at(app: App, k: usize) -> bool {
    app.hex_view.changed_bytes@.contains_key(k)
}

/// The byte on disk at `k`, zero past the end.
pub open spec fn orig_at(app: App, k: usize) -> u8 {
    if k < app.file_info.buffer@.len() { app.file_info.buffer@[k as int] } else { 0 }
}

/// The edited byte at `k`, whether the edit is on or off.
pub open spec fn patched_at(app: App, k: usize) -> u8 {
    if enabled_at(app, k) {
        app.hex_view.changed_bytes@[k]
    } else if app.hex_view.disabled_bytes@.contains_key(k) {
        app.hex_view.disabled_bytes@[k]
    } else {
        orig_at(app, k)
    }
}

/// Where the run that starts at `ks[i]` ends: the first `j` whose offset does
/// not follow the previous one, or whose edit is on when the run's is off (or
/// the reverse).
pub open spec fn run_end(app: App, ks: Seq<usize>, i: int, j: int) -> int
    decreases ks.len() - j,
{
    if 0 < j < ks.len() && ks[j] == ks[j - 1] + 1 && enabled_at(app, ks[j]) == enabled_at(app, ks[i]) {
        run_end(app, ks, i, j + 1)
    } else {
        j
    }
}

/// A patch as plain values: offset, size, bytes before and after, and whether
/// it is on.
pub open spec fn item_view(p: PatchItem) -> (usize, usize, Seq<u8>, Seq<u8>, bool) {
    (p.offset, p.size, p.orig_bytes@, p.patched_bytes@, p.enabled)
}

/// The patches made of the runs of `ks` from index `i` on.
pub open spec fn patch_runs(app: App, ks: Seq<usize>, i: int) -> Seq<(usize, usize, Seq<u8>, Seq<u8>, bool)>
    decreases ks.len() - i,
{
    if i < 0 || i >= ks.len() {
        seq![]
    } else {
        let e = run_end(app, ks, i, i + 1);
        proof {
            lemma_run_end_bounds(app, ks, i, i + 1);
        }
        let n = e - i;
        let start = ks[i];
        seq![(
            start,
            n as usize,
            Seq::new(n as nat, |t: int| orig_at(app, (start + t) as usize)),
            Seq::new(n as nat, |t: int| patched_at(app, (start + t) as usize)),
            enabled_at(app, start),
        )] + patch_runs(app, ks, e)
    }
}

pub proof fn lemma_run_end_bounds(app: App, ks: Seq<usize>, i: int, j: int)
    requires
        0 < j <= ks.len(),
    ensures
        j <= run_end(app, ks, i, j) <= ks.len(),
    decreases ks.len() - j,
{
    if j < ks.len() && ks[j] == ks[j - 1] + 1 && enabled_at(app, ks[j]) == enabled_at(app, ks[i]) {
        lemma_run_end_bounds(app, ks, i, j + 1);
    }
}

/// `merge_keys` of two key lists, computed.
fn merge_key_lists(a: &Vec<usize>, b: &Vec<usize>) -> (out: Vec<usize>)
    ensures
        out@ == merge_keys(a@, b@),
{
    let mut out: Vec<usize> = Vec::new();
    let mut i: usize = 0;
    let mut j: usize = 0;
    assert(a@.skip(0) =~= a@ && b@.skip(0) =~= b@);
    assert(out@ + merge_keys(a@, b@) =~= merge_keys(a@, b@));
    while i < a.len() || j < b.len()
        invariant
            i <= a@.len(),
            j <= b@.len(),
            out@ + merge_keys(a@.skip(i as int), b@.skip(j as int)) == merge_keys(a@, b@),
        decreases a@.len() - i + b@.len() - j,
    {
        let ghost sa = a@.skip(i as int);
        let ghost sb = b@.skip(j as int);
        let ghost o0 = out@;
        if i == a.len() {
            out.push(b[j]);
            proof {
                assert(sa.len() == 0);
                assert(sb.drop_first() =~= b@.skip(j + 1));
                assert(merge_keys(sa, sb) == sb);
                assert(merge_keys(sa, sb.drop_first()) == sb.drop_first());
                assert(out@ + merge_keys(a@.skip(i as int), b@.skip(j + 1)) =~= o0 + merge_keys(sa, sb));
            }
            j = j + 1;
        } else if j == b.len() {
            out.push(a[i]);
            proof {
                assert(sb.len() == 0);
                assert(sa.drop_first() =~= a@.skip(i + 1));
                assert(merge_keys(sa, sb) == sa);
                assert(merge_keys(sa.drop_first(), sb) == sa.drop_first());
                assert(out@ + merge_keys(a@.skip(i + 1), b@.skip(j as int)) =~= o0 + merge_keys(sa, sb));
            }
            i = i + 1;
        } else if a[i] < b[j] {
            out.push(a[i]);
            proof {
                assert(sa.drop_first() =~= a@.skip(i + 1));
                assert(out@ + merge_keys(a@.skip(i + 1), b@.skip(j as int)) =~= o0 + merge_keys(sa, sb));
            }
            i = i + 1;
        } else if b[j] < a[i] {
            out.push(b[j]);
            proof {
                assert(sb.drop_first() =~= b@.skip(j + 1));
                assert(out@ + merge_keys(a@.skip(i as int), b@.skip(j + 1)) =~= o0 + merge_keys(sa, sb));
            }
            j = j + 1;
        } else {
            out.push(a[i]);
            proof {
                assert(sa.drop_first() =~= a@.skip(i + 1));
                assert(sb.drop_first() =~= b@.skip(j + 1));
                assert(out@ + merge_keys(a@.skip(i + 1), b@.skip(j + 1)) =~= o0 + merge_keys(sa, sb));
            }
            i = i + 1;
            j = j + 1;
        }
    }
    assert(a@.skip(i as int).len() == 0 && b@.skip(j as int).len() == 0);
    assert(out@ + merge_keys(a@.skip(i as int), b@.skip(j as int)) =~= out@);
    out
}

pub open spec fn item_views(v: Seq<PatchItem>) -> Seq<(usize, usize, Seq<u8>, Seq<u8>, bool)> {
    v.map_values(|p: PatchItem| item_view(p))
}

/// The pending edits, on and off, grouped into runs of consecutive offsets that
/// are all on or all off, in offset order, each with its bytes before and
/// after.
pub fn collect_patches(app: &App) -> (items: Vec<PatchItem>)
    requires
        !app.hex_view.changed_bytes@.contains_key(usize::MAX),
        !app.hex_view.disabled_bytes@.contains_key(usize::MAX),
    ensures
        item_views(items@) == patch_runs(*app, patch_offsets(*app), 0),
        patch_offsets(*app).len() <= usize::MAX,
{
    let ck = app.hex_view.changed_bytes.keys();
    let dk = app.hex_view.disabled_bytes.keys();
    let ks = merge_key_lists(&ck, &dk);
    let ghost ksv = ks@;
    let _n = ks.len();
    let buf_len = app.file_info.buffer.len();
    let mut items: Vec<PatchItem> = Vec::new();
    let mut i: usize = 0;
    proof {
        use_type_invariant(&app.hex_view.changed_bytes);
        use_type_invariant(&app.hex_view.disabled_bytes);
        app.hex_view.changed_bytes.lemma_keys();
        app.hex_view.disabled_bytes.lemma_keys();
        lemma_merge_keys_members(ck@, dk@);
        assert(item_views(items@) + patch_runs(*app, ksv, 0) =~= patch_runs(*app, ksv, 0));
    }
    while i < ks.len()
        invariant
            i <= ks@.len(),
            ks@ == ksv,
            ksv == patch_offsets(*app),
            buf_len == app.file_info.buffer@.len(),
            forall|t: int| 0 <= t < ksv.len() ==> ksv[t] != usize::MAX,
            item_views(items@) + patch_runs(*app, ksv, i as int) == patch_runs(*app, ksv, 0),
        decreases ks.len() - i,
    {
        let start = ks[i];
        let is_enabled = app.hex_view.changed_bytes.contains_key(&start);
        let mut orig: Vec<u8> = Vec::new();
        let mut patched: Vec<u8> = Vec::new();
        let mut end = start + 1;
        let i0 = i;
        let ob = if start < buf_len { app.file_info.buffer[start] } else { 0 };
        let pb = self::patch_byte(app, start, is_enabled, ob);
        orig.push(ob);
        patched.push(pb);
        i = i + 1;
        assert(orig@ =~= Seq::new(1, |t: int| orig_at(*app, (start + t) as usize)));
        assert(patched@ =~= Seq::new(1, |t: int| patched_at(*app, (start + t) as usize)));
        while i < ks.len() && ks[i] == end && app.hex_view.changed_bytes.contains_key(&ks[i]) == is_enabled
            invariant
                i0 < i <= ks@.len(),
                ks@ == ksv,
                start == ksv[i0 as int],
                is_enabled == enabled_at(*app, start),
                end == start + (i - i0),
                forall|t: int| i0 <= t < i ==> ksv[t] == start + (t - i0),
                forall|t: int| 0 <= t < ksv.len() ==> ksv[t] != usize::MAX,
                buf_len == app.file_info.buffer@.len(),
                run_end(*app, ksv, i0 as int, i0 + 1) == run_end(*app, ksv, i0 as int, i as int),
                orig@ == Seq::new((i - i0) as nat, |t: int| orig_at(*app, (start + t) as usize)),
                patched@ == Seq::new((i - i0) as nat, |t: int| patched_at(*app, (start + t) as usize)),
            decreases ks.len() - i,
        {
            let cur = ks[i];
            let ob = if cur < buf_len { app.file_info.buffer[cur] } else { 0 };
            let pb = self::patch_byte(app, cur, is_enabled, ob);
            orig.push(ob);
            patched.push(pb);
            assert(orig@ =~= Seq::new((i + 1 - i0) as nat, |t: int| orig_at(*app, (start + t) as usize)));
            assert(patched@ =~= Seq::new((i + 1 - i0) as nat, |t: int| patched_at(*app, (start + t) as usize)));
            end = end + 1;
            i = i + 1;
        }
        proof {
            lemma_run_end_bounds(*app, ksv, i0 as int, i as int);
        }
        let ghost before = item_views(items@);
        items.push(PatchItem {
            offset: start,
            size: end - start,
            orig_bytes: orig,
            patched_bytes: patched,
            enabled: is_enabled,
        });
        proof {
            assert(run_end(*app, ksv, i0 as int, i as int) == i);
            assert(item_views(items@) =~= before.push(item_view(items@.last())));
            assert(patch_runs(*app, ksv, i0 as int) == seq![item_view(items@.last())] + patch_runs(*app, ksv, i as int));
            assert(item_views(items@) + patch_runs(*app, ksv, i as int) =~= before + patch_runs(*app, ksv, i0 as int));
        }
    }
    items
}

/// The edited byte at `k`: the on value, else the off value, else `orig`.
fn patch_byte(app: &App, k: usize, is_enabled: bool, orig: u8) -> (b: u8)
    requires
        is_enabled == enabled_at(*app, k),
        orig == orig_at(*app, k),
    ensures
        b == patched_at(*app, k),
{
    if is_enabled {
        match app.hex_view.changed_bytes.get(&k) {
            Some(v) => *v,
            None => orig,
        }
    } else {
        match app.hex_view.disabled_bytes.get(&k) {
            Some(v) => *v,
            None => orig,
        }
    }
}

proof fn lemma_merge_keys_members(a: Seq<usize>, b: Seq<usize>)
    ensures
        forall|t: int| 0 <= t < merge_keys(a, b).len() ==> a.contains(#[trigger] merge_keys(a, b)[t]) || b.contains(merge_keys(a, b)[t]),
    decreases a.len() + b.len(),
{
    let m = merge_keys(a, b);
    if a.len() == 0 || b.len() == 0 {
    } else if a[0] < b[0] {
        lemma_merge_keys_members(a.drop_first(), b);
        assert forall|t: int| 0 <= t < m.len() implies a.contains(#[trigger] m[t]) || b.contains(m[t]) by {
            if t > 0 {
                let x = m[t];
                assert(x == merge_keys(a.drop_first(), b)[t - 1]);
                if a.drop_first().contains(x) {
                    let q = choose|q: int| 0 <= q < a.drop_first().len() && a.drop_first()[q] == x;
                    assert(a[q + 1] == x);
                }
            } else {
                assert(a[0] == m[0]);
            }
        }
    } else if b[0] < a[0] {
        lemma_merge_keys_members(a, b.drop_first());
        assert forall|t: int| 0 <= t < m.len() implies a.contains(#[trigger] m[t]) || b.contains(m[t]) by {
            if t > 0 {
                let x = m[t];
                assert(x == merge_keys(a, b.drop_first())[t - 1]);
                if b.drop_first().contains(x) {
                    let q = choose|q: int| 0 <= q < b.drop_first().len() && b.drop_first()[q] == x;
                    assert(b[q + 1] == x);
                }
            } else {
                assert(b[0] == m[0]);
            }
        }
    } else {
        lemma_merge_keys_members(a.drop_first(), b.drop_first());
        assert forall|t: int| 0 <= t < m.len() implies a.contains(#[trigger] m[t]) || b.contains(m[t]) by {
            if t > 0 {
                let x = m[t];
                assert(x == merge_keys(a.drop_first(), b.drop_first())[t - 1]);
                if a.drop_first().contains(x) {
                    let q = choose|q: int| 0 <= q < a.drop_first().len() && a.drop_first()[q] == x;
                    assert(a[q + 1] == x);
                }
                if b.drop_first().contains(x) {
                    let q = choose|q: int| 0 <= q < b.drop_first().len() && b.drop_first()[q] == x;
                    assert(b[q + 1] == x);
                }
            } else {
                assert(a[0] == m[0]);
            }
        }
    }
}

/// `bytes` as two-digit hex, separated by spaces.
pub open spec fn hex_joined(bytes: Seq<u8>) -> Seq<char>
    decreases bytes.len(),
{
    if bytes.len() == 0 {
        seq![]
    } else if bytes.len() == 1 {
        hex2(bytes[0])
    } else {
        hex_joined(bytes.drop_last()) + seq![' '] + hex2(bytes.last())
    }
}

fn push_hex_joined(out: &mut String, bytes: &[u8])
    ensures
        final(out)@ == old(out)@ + hex_joined(bytes@),
{
    let mut i: usize = 0;
    assert(bytes@.take(0) =~= Seq::<u8>::empty());
    assert(old(out)@ + hex_joined(bytes@.take(0)) =~= old(out)@);
    while i < bytes.len()
        invariant
            i <= bytes@.len(),
            out@ == old(out)@ + hex_joined(bytes@.take(i as int)),
        decreases bytes.len() - i,
    {
        let ghost o0 = out@;
        if i > 0 {
            push_char(out, ' ');
        }
        push_hex2(out, bytes[i]);
        proof {
            let t = bytes@.take(i + 1);
            assert(t.drop_last() =~= bytes@.take(i as int));
            if i == 0 {
                assert(out@ =~= old(out)@ + hex2(t[0]));
            } else {
                assert(out@ =~= o0 + seq![' '] + hex2(t.last()));
            }
        }
        i = i + 1;
    }
    assert(bytes@.take(i as int) =~= bytes@);
}

/// The bytes as spaced hex, cut after `max_len` bytes with `..` when longer.
pub fn format_hex_bytes(bytes: &[u8], max_len: usize) -> (s: String)
    ensures
        s@ == if bytes@.len() <= max_len {
            hex_joined(bytes@)
        } else {
            hex_joined(bytes@.take(max_len as int)) + ".."@
        },
{
    let mut s = String::new();
    if bytes.len() <= max_len {
        push_hex_joined(&mut s, bytes);
    } else {
        push_hex_joined(&mut s, &bytes[0..max_len]);
        push_str(&mut s, "..");
    }
    s
}

/// A patch as one line of text: on or off, address, bytes before and after,
/// and its size.
pub open spec fn patch_row(app: App, p: (usize, usize, Seq<u8>, Seq<u8>, bool)) -> Seq<char> {
    let use_va = app.editor_view == AppView::Disasm || app.hex_view.show_va;
    let addr: u64 = if use_va {
        vstd::wrapping::u64_specs::wrapping_add(app.image_base, p.0 as u64)
    } else {
        p.0 as u64
    };
    "["@ + (if p.4 { "\u{25CF}"@ } else { "\u{25CB}"@ }) + "] 0x"@ + hex_digits(addr as nat) + ": "@ + hex_joined(p.2)
        + " -> "@ + hex_joined(p.3) + " ("@ + crate::text::dec_digits(p.1 as nat) + " bytes)"@
}

/// A patch as one line of text (see `patch_row`).
pub fn patch_row_as_text(app: &App, item: &PatchItem) -> (s: String)
    ensures
        s@ == patch_row(*app, item_view(*item)),
{
    let use_va = app.editor_view == AppView::Disasm || app.hex_view.show_va;
    let addr = if use_va { app.get_va(item.offset) } else { item.offset as u64 };
    let mut s = string_from("[");
    if item.enabled {
        push_str(&mut s, "\u{25CF}");
    } else {
        push_str(&mut s, "\u{25CB}");
    }
    push_str(&mut s, "] 0x");
    push_hex(&mut s, addr, 0);
    push_str(&mut s, ": ");
    push_hex_joined(&mut s, item.orig_bytes.as_slice());
    push_str(&mut s, " -> ");
    push_hex_joined(&mut s, item.patched_bytes.as_slice());
    push_str(&mut s, " (");
    push_dec(&mut s, item.size as u64);
    push_str(&mut s, " bytes)");
    proof {
        assert(crate::text::zero_pad(hex_digits(addr as nat), 0) == hex_digits(addr as nat));
    }
    s
}

/// The sum of the sizes of `ps`.
pub open spec fn total_size(ps: Seq<(usize, usize, Seq<u8>, Seq<u8>, bool)>) -> nat
    decreases ps.len(),
{
    if ps.len() == 0 { 0 } else { ps[0].1 as nat + total_size(ps.drop_first()) }
}

proof fn lemma_runs_cover(app: App, ks: Seq<usize>, i: int)
    requires
        0 <= i <= ks.len(),
        ks.len() <= usize::MAX,
    ensures
        total_size(patch_runs(app, ks, i)) == ks.len() - i,
    decreases ks.len() - i,
{
    if i < ks.len() {
        let e = run_end(app, ks, i, i + 1);
        lemma_run_end_bounds(app, ks, i, i + 1);
        lemma_runs_cover(app, ks, e);
        let ps = patch_runs(app, ks, i);
        assert(ps.drop_first() =~= patch_runs(app, ks, e));
    }
}

/// Opens the patches list on the current edits and logs how many runs and
/// bytes it holds.
pub fn open_patches_dialog(app: &mut App)
    requires
        !old(app).hex_view.changed_bytes@.contains_key(usize::MAX),
        !old(app).hex_view.disabled_bytes@.contains_key(usize::MAX),
    ensures
        item_views(final(app).hex_view.patches_dialog.items@) == patch_runs(*old(app), patch_offsets(*old(app)), 0),
        final(app).hex_view.patches_dialog.selected_index == 0,
        final(app).state == UIState::DialogPatches,
        final(app).logs@.len() == old(app).logs@.len() + 1,
        final(app).logs@.last()@ == "Patches: "@ + crate::text::dec_digits(
            patch_runs(*old(app), patch_offsets(*old(app)), 0).len(),
        ) + " chunk(s), "@ + crate::text::dec_digits(patch_offsets(*old(app)).len()) + " byte(s)"@,
        final(app).logs@ == old(app).logs@.push(final(app).logs@.last()),
        final(app).hex_view == (HexView { patches_dialog: final(app).hex_view.patches_dialog, ..old(app).hex_view }),
        *final(app) == (App { hex_view: final(app).hex_view, state: UIState::DialogPatches, logs: final(app).logs, ..*old(app) }),
{
    let ghost a = *app;
    let items = collect_patches(app);
    let count = items.len();
    let mut total: usize = 0;
    let mut i: usize = 0;
    let ghost ps = patch_runs(a, patch_offsets(a), 0);
    proof {
        lemma_runs_cover(a, patch_offsets(a), 0);
        assert(ps.skip(0) =~= ps);
    }
    while i < items.len()
        invariant
            i <= items@.len(),
            item_views(items@) == ps,
            total_size(ps) == patch_offsets(a).len(),
            total + total_size(ps.skip(i as int)) == total_size(ps),
            total_size(ps) <= usize::MAX,
        decreases items.len() - i,
    {
        proof {
            assert(ps.skip(i as int).drop_first() =~= ps.skip(i + 1));
            assert(ps.skip(i as int)[0] == item_view(items@[i as int]));
        }
        total = total + items[i].size;
        i = i + 1;
    }
    assert(ps.skip(i as int) =~= Seq::<(usize, usize, Seq<u8>, Seq<u8>, bool)>::empty());
    app.hex_view.patches_dialog.items = items;
    app.hex_view.patches_dialog.selected_index = 0;
    app.state = UIState::DialogPatches;
    let mut msg = string_from("Patches: ");
    push_dec(&mut msg, count as u64);
    push_str(&mut msg, " chunk(s), ");
    push_dec(&mut msg, total as u64);
    push_str(&mut msg, " byte(s)");
    app.log(msg);
}

// ---------------------------------------------------------------------------
// The dialog's keys
// ---------------------------------------------------------------------------

/// The offsets a patch of `size` bytes at `lo` covers (`lo..lo + size`,
/// stopping short of `usize::MAX`).
pub open spec fn span(lo: usize, size: usize) -> Set<usize> {
    Set::new(|k: usize| lo <= k && k < lo + size && k < usize::MAX)
}

/// The edits of `from` inside `s` moved into `to`: what is left of `from`,
/// and `to` with them.
pub open spec fn moved(from: Map<usize, u8>, to: Map<usize, u8>, s: Set<usize>) -> (Map<usize, u8>, Map<usize, u8>) {
    (from.remove_keys(s), to.union_prefer_right(from.restrict(s)))
}

/// Disabling a run and enabling it again gives back both maps of edits, when
/// no disabled edit lay in the run before: `c` the staged edits, `dis` the
/// disabled ones.
pub proof fn law_disable_then_enable(c: Map<usize, u8>, dis: Map<usize, u8>, s: Set<usize>)
    requires
        forall|k: usize| s.contains(k) ==> !dis.contains_key(k),
    ensures
        moved(moved(c, dis, s).1, moved(c, dis, s).0, s).1 == c,
        moved(moved(c, dis, s).1, moved(c, dis, s).0, s).0 == dis,
{
    let c1 = moved(c, dis, s).0;
    let d1 = moved(c, dis, s).1;
    assert(c1.union_prefer_right(d1.restrict(s)) =~= c);
    assert(d1.remove_keys(s) =~= dis);
}

/// Moves the edits of `from` at `lo..lo + size` into `to`.
fn move_span(from: &mut OffsetMap<u8>, to: &mut OffsetMap<u8>, lo: usize, size: usize)
    ensures
        (final(from)@, final(to)@) == moved(old(from)@, old(to)@, span(lo, size)),
{
    let hi = if size > usize::MAX - lo { usize::MAX } else { lo + size };
    let ghost f0 = from@;
    let ghost t0 = to@;
    let mut k = lo;
    while k < hi
        invariant
            lo <= k <= hi,
            hi <= usize::MAX,
            hi == if lo + size > usize::MAX { usize::MAX as int } else { lo + size },
            from@ == f0.remove_keys(Set::new(|x: usize| lo <= x && x < k)),
            to@ == t0.union_prefer_right(f0.restrict(Set::new(|x: usize| lo <= x && x < k))),
        decreases hi - k,
    {
        match from.remove(&k) {
            Some(b) => {
                to.insert(k, b);
            },
            None => {},
        }
        k = k + 1;
        assert(from@ =~= f0.remove_keys(Set::new(|x: usize| lo <= x && x < k)));
        assert(to@ =~= t0.union_prefer_right(f0.restrict(Set::new(|x: usize| lo <= x && x < k))));
    }
    assert(Set::new(|x: usize| lo <= x && x < k) =~= span(lo, size));
}

/// Moves every edit of `from` into `to`.
fn move_all(from: &mut OffsetMap<u8>, to: &mut OffsetMap<u8>)
    ensures
        final(from)@ == Map::<usize, u8>::empty(),
        final(to)@ == old(to)@.union_prefer_right(old(from)@),
{
    let ks = from.keys();
    let ghost f0 = from@;
    let ghost t0 = to@;
    proof {
        use_type_invariant(&*from);
        from.lemma_keys();
    }
    let mut i: usize = 0;
    while i < ks.len()
        invariant
            i <= ks@.len(),
            from@ == f0,
            forall|j: int| 0 <= j < ks@.len() ==> f0.contains_key(#[trigger] ks@[j]),
            to@ == t0.union_prefer_right(f0.restrict(ks@.take(i as int).to_set())),
        decreases ks@.len() - i,
    {
        let k = ks[i];
        match from.get(&k) {
            Some(b) => {
                let v = *b;
                to.insert(k, v);
            },
            None => {},
        }
        i = i + 1;
        proof {
            assert(ks@.take(i as int).to_set() =~= ks@.take(i - 1).to_set().insert(k)) by {
                assert(ks@.take(i as int) =~= ks@.take(i - 1).push(k));
                vstd::seq_lib::lemma_seq_contains_after_push(ks@.take(i - 1), k, k);
            }
            assert(to@ =~= t0.union_prefer_right(f0.restrict(ks@.take(i as int).to_set())));
        }
    }
    proof {
        assert(ks@.take(i as int) =~= ks@);
        assert(f0.restrict(ks@.to_set()) =~= f0);
    }
    from.clear();
}

/// What a key asks for in the patches list.
#[derive(Clone, Copy, PartialEq, Eq, Debug, Structural)]
pub enum PatchesCommand {
    Close,
    /// Enter: close and go to the selected patch.
    GoTo,
    /// Space: the selected patch on or off.
    Toggle,
    /// `a`: every patch off if any is on, otherwise every patch on.
    ToggleAll,
    /// F4: go to the selected patch and edit it in the Edit Data dialog.
    Edit,
    /// Delete, Backspace or `r`: drop the selected patch.
    Revert,
    CopyAll,
    CopyOne,
    Up,
    Down,
    PageUp,
    PageDown,
    Home,
    End,
    Nothing,
}

/// What a key asks for in the patches list.
pub open spec fn patches_command(key: KeyPress, total: nat) -> PatchesCommand {
    match key.code {
        Key::Esc => PatchesCommand::Close,
        Key::Enter => PatchesCommand::GoTo,
        Key::F(n) => if n == 4 { PatchesCommand::Edit } else { PatchesCommand::Nothing },
        Key::Delete => if key.ctrl { PatchesCommand::Nothing } else { PatchesCommand::Revert },
        Key::Backspace => if key.ctrl { PatchesCommand::Nothing } else { PatchesCommand::Revert },
        Key::Up => PatchesCommand::Up,
        Key::Down => PatchesCommand::Down,
        Key::PageUp => PatchesCommand::PageUp,
        Key::PageDown => PatchesCommand::PageDown,
        Key::Home => PatchesCommand::Home,
        Key::End => if total > 0 { PatchesCommand::End } else { PatchesCommand::Nothing },
        Key::Char(c) => if c == ' ' {
            PatchesCommand::Toggle
        } else if (c == 'a' || c == 'A') && !key.ctrl {
            PatchesCommand::ToggleAll
        } else if (c == 'r' || c == 'R') && !key.ctrl {
            PatchesCommand::Revert
        } else if (c == 'c' || c == 'C') && key.ctrl && key.shift {
            PatchesCommand::CopyAll
        } else if (c == 'c' || c == 'C') && key.ctrl {
            PatchesCommand::CopyOne
        } else if c == 'k' {
            PatchesCommand::Up
        } else if c == 'j' {
            PatchesCommand::Down
        } else {
            PatchesCommand::Nothing
        },
        _ => PatchesCommand::Nothing,
    }
}

/// The selected patch, if the selection is inside the list.
pub open spec fn selected_patch(a: App) -> Option<PatchItem> {
    let d = a.hex_view.patches_dialog;
    if d.selected_index < d.items@.len() {
        Some(d.items@[d.selected_index as int])
    } else {
        None
    }
}

/// `b` is `a` with the edits `c` on, `dis` off, the list rebuilt from them
/// and the selection at `sel`.
pub open spec fn patches_rebuilt(a: App, b: App, c: Map<usize, u8>, dis: Map<usize, u8>, sel: usize) -> bool {
    let m = App {
        hex_view: HexView {
            changed_bytes: b.hex_view.changed_bytes,
            disabled_bytes: b.hex_view.disabled_bytes,
            ..a.hex_view
        },
        ..a
    };
    &&& b.hex_view.changed_bytes@ == c
    &&& b.hex_view.disabled_bytes@ == dis
    &&& item_views(b.hex_view.patches_dialog.items@) == patch_runs(m, patch_offsets(m), 0)
    &&& b.hex_view.patches_dialog.selected_index == sel
    &&& b.hex_view == (HexView {
        changed_bytes: b.hex_view.changed_bytes,
        disabled_bytes: b.hex_view.disabled_bytes,
        patches_dialog: b.hex_view.patches_dialog,
        ..a.hex_view
    })
}

/// The log line for a patch at `offset` of `size` bytes.
pub open spec fn patch_message(what: Seq<char>, offset: usize, size: usize) -> Seq<char> {
    what + " patch at 0x"@ + hex_digits(offset as nat) + " ("@ + dec_digits(size as nat) + " byte(s))"@
}

/// The rows of the whole list, as copied.
pub open spec fn patch_rows(a: App) -> Seq<Seq<char>> {
    item_views(a.hex_view.patches_dialog.items@).map_values(|p: (usize, usize, Seq<u8>, Seq<u8>, bool)| patch_row(a, p))
}

/// What carrying out `cmd` in the patches list does.
pub open spec fn patches_post(a: App, b: App, cmd: PatchesCommand, act: HexAction) -> bool {
    let d = a.hex_view.patches_dialog;
    let total = d.items@.len();
    let sel = d.selected_index;
    let moved_to = |i: usize| b == (App {
        hex_view: HexView { patches_dialog: PatchesDialog { selected_index: i, ..d }, ..a.hex_view },
        ..a
    });
    let logged = b.logs@ == a.logs@.push(b.logs@.last());
    match cmd {
        PatchesCommand::Close => act is Nothing && b == (App { state: UIState::Normal, ..a }),
        PatchesCommand::GoTo => act is Nothing && match selected_patch(a) {
            None => b == a,
            Some(p) => {
                &&& b == (App { state: UIState::Normal, ..after_goto(a, p.offset) })
            },
        },
        PatchesCommand::Toggle => act is Nothing && match selected_patch(a) {
            None => b == a,
            Some(p) => {
                let c = a.hex_view.changed_bytes@;
                let dis = a.hex_view.disabled_bytes@;
                let s = span(p.offset, p.size);
                &&& if p.enabled {
                    patches_rebuilt(a, b, moved(c, dis, s).0, moved(c, dis, s).1, sel)
                } else {
                    patches_rebuilt(a, b, moved(dis, c, s).1, moved(dis, c, s).0, sel)
                }
                &&& logged
                &&& b.logs@.last()@ == patch_message(if p.enabled { "Disabled"@ } else { "Enabled"@ }, p.offset, p.size)
                &&& b == (App { hex_view: b.hex_view, logs: b.logs, ..a })
            },
        },
        PatchesCommand::ToggleAll => {
            let any_on = exists|i: int| 0 <= i < total && (#[trigger] d.items@[i]).enabled;
            let c = a.hex_view.changed_bytes@;
            let dis = a.hex_view.disabled_bytes@;
            &&& act is Nothing
            &&& if any_on {
                patches_rebuilt(a, b, Map::empty(), dis.union_prefer_right(c), sel)
            } else {
                patches_rebuilt(a, b, c.union_prefer_right(dis), Map::empty(), sel)
            }
            &&& logged
            &&& b.logs@.last()@ == if any_on { "Disabled all patches"@ } else { "Enabled all patches"@ }
            &&& b == (App { hex_view: b.hex_view, logs: b.logs, ..a })
        },
        PatchesCommand::Edit => act is Nothing && match selected_patch(a) {
            None => b == a,
            Some(p) => edit_dialog_opened(
                after_goto(a, p.offset),
                b,
            ),
        },
        PatchesCommand::Revert => act is Nothing && match selected_patch(a) {
            None => b == a,
            Some(p) => {
                let s = span(p.offset, p.size);
                let c = a.hex_view.changed_bytes@.remove_keys(s);
                let dis = a.hex_view.disabled_bytes@.remove_keys(s);
                let n = b.hex_view.patches_dialog.items@.len();
                &&& patches_rebuilt(
                    a,
                    b,
                    c,
                    dis,
                    if sel >= n { if n == 0 { 0 } else { (n - 1) as usize } } else { sel },
                )
                &&& logged
                &&& b.logs@.last()@ == patch_message("Reverted"@, p.offset, p.size)
                &&& b == (App { hex_view: b.hex_view, logs: b.logs, ..a })
            },
        },
        PatchesCommand::CopyAll => if total == 0 {
            act is Nothing && b == a
        } else {
            copied(a, b, act, join(patch_rows(a), "\r\n"@), dec_digits(total) + " patch(es)"@)
        },
        PatchesCommand::CopyOne => match selected_patch(a) {
            None => act is Nothing && b == a,
            Some(p) => copied(a, b, act, patch_row(a, item_view(p)), "1 patch"@),
        },
        PatchesCommand::Up => act is Nothing && moved_to(if sel > 0 { (sel - 1) as usize } else { sel }),
        PatchesCommand::Down => act is Nothing && moved_to(if sel + 1 < total { (sel + 1) as usize } else { sel }),
        PatchesCommand::PageUp => act is Nothing && moved_to(if sel >= 10 { (sel - 10) as usize } else { 0 }),
        PatchesCommand::PageDown => act is Nothing && if total > 0 {
            moved_to(if sel + 10 < total - 1 { (sel + 10) as usize } else { (total - 1) as usize })
        } else {
            b == a
        },
        PatchesCommand::Home => act is Nothing && moved_to(0),
        PatchesCommand::End => act is Nothing && if total > 0 { moved_to((total - 1) as usize) } else { b == a },
        PatchesCommand::Nothing => act is Nothing && b == a,
    }
}

/// Classifies a key in the patches list (see `patches_command`).
pub fn patches_command_for(key: KeyPress, total: usize) -> (c: PatchesCommand)
    ensures
        c == patches_command(key, total as nat),
{
    match key.code {
        Key::Esc => PatchesCommand::Close,
        Key::Enter => PatchesCommand::GoTo,
        Key::F(n) => if n == 4 { PatchesCommand::Edit } else { PatchesCommand::Nothing },
        Key::Delete => if key.ctrl { PatchesCommand::Nothing } else { PatchesCommand::Revert },
        Key::Backspace => if key.ctrl { PatchesCommand::Nothing } else { PatchesCommand::Revert },
        Key::Up => PatchesCommand::Up,
        Key::Down => PatchesCommand::Down,
        Key::PageUp => PatchesCommand::PageUp,
        Key::PageDown => PatchesCommand::PageDown,
        Key::Home => PatchesCommand::Home,
        Key::End => if total > 0 { PatchesCommand::End } else { PatchesCommand::Nothing },
        Key::Char(c) => if c == ' ' {
            PatchesCommand::Toggle
        } else if (c == 'a' || c == 'A') && !key.ctrl {
            PatchesCommand::ToggleAll
        } else if (c == 'r' || c == 'R') && !key.ctrl {
            PatchesCommand::Revert
        } else if (c == 'c' || c == 'C') && key.ctrl && key.shift {
            PatchesCommand::CopyAll
        } else if (c == 'c' || c == 'C') && key.ctrl {
            PatchesCommand::CopyOne
        } else if c == 'k' {
            PatchesCommand::Up
        } else if c == 'j' {
            PatchesCommand::Down
        } else {
            PatchesCommand::Nothing
        },
        _ => PatchesCommand::Nothing,
    }
}

/// No edit sits at the last offset, which the patch scan cannot reach.
pub open spec fn patches_fit(a: App) -> bool {
    &&& !a.hex_view.changed_bytes@.contains_key(usize::MAX)
    &&& !a.hex_view.disabled_bytes@.contains_key(usize::MAX)
}

fn rebuild_patches(app: &mut App)
    requires
        patches_fit(*old(app)),
    ensures
        item_views(final(app).hex_view.patches_dialog.items@) == patch_runs(*old(app), patch_offsets(*old(app)), 0),
        final(app).hex_view.patches_dialog.selected_index == old(app).hex_view.patches_dialog.selected_index,
        final(app).hex_view == (HexView {
            patches_dialog: final(app).hex_view.patches_dialog,
            ..old(app).hex_view
        }),
        *final(app) == (App { hex_view: final(app).hex_view, ..*old(app) }),
{
    let items = collect_patches(app);
    app.hex_view.patches_dialog.items = items;
}

fn toggle_patch(app: &mut App) -> (act: HexAction)
    requires
        patches_fit(*old(app)),
    ensures
        patches_post(*old(app), *final(app), PatchesCommand::Toggle, act),
{
    let i = app.hex_view.patches_dialog.selected_index;
    if i >= app.hex_view.patches_dialog.items.len() {
        return HexAction::Nothing;
    }
    let offset = app.hex_view.patches_dialog.items[i].offset;
    let size = app.hex_view.patches_dialog.items[i].size;
    let enabled = app.hex_view.patches_dialog.items[i].enabled;
    if enabled {
        move_span(&mut app.hex_view.changed_bytes, &mut app.hex_view.disabled_bytes, offset, size);
    } else {
        move_span(&mut app.hex_view.disabled_bytes, &mut app.hex_view.changed_bytes, offset, size);
    }
    rebuild_patches(app);
    let mut msg = string_from(if enabled { "Disabled" } else { "Enabled" });
    push_str(&mut msg, " patch at 0x");
    push_hex(&mut msg, offset as u64, 0);
    push_str(&mut msg, " (");
    push_dec(&mut msg, size as u64);
    push_str(&mut msg, " byte(s))");
    proof {
        reveal_strlit("Disabled");
        reveal_strlit("Enabled");
        reveal_strlit(" patch at 0x");
        reveal_strlit(" (");
        reveal_strlit(" byte(s))");
    }
    app.log(msg);
    HexAction::Nothing
}

fn toggle_all_patches(app: &mut App) -> (act: HexAction)
    requires
        patches_fit(*old(app)),
    ensures
        patches_post(*old(app), *final(app), PatchesCommand::ToggleAll, act),
{
    let mut any_on = false;
    let mut i: usize = 0;
    while i < app.hex_view.patches_dialog.items.len()
        invariant
            i <= app.hex_view.patches_dialog.items@.len(),
            *app == *old(app),
            any_on == exists|j: int| 0 <= j < i && (#[trigger] app.hex_view.patches_dialog.items@[j]).enabled,
        decreases app.hex_view.patches_dialog.items@.len() - i,
    {
        if app.hex_view.patches_dialog.items[i].enabled {
            any_on = true;
        }
        i = i + 1;
    }
    if any_on {
        move_all(&mut app.hex_view.changed_bytes, &mut app.hex_view.disabled_bytes);
    } else {
        move_all(&mut app.hex_view.disabled_bytes, &mut app.hex_view.changed_bytes);
    }
    rebuild_patches(app);
    let msg = if any_on { string_from("Disabled all patches") } else { string_from("Enabled all patches") };
    proof {
        reveal_strlit("Disabled all patches");
        reveal_strlit("Enabled all patches");
    }
    app.log(msg);
    HexAction::Nothing
}

fn revert_patch(app: &mut App) -> (act: HexAction)
    requires
        patches_fit(*old(app)),
    ensures
        patches_post(*old(app), *final(app), PatchesCommand::Revert, act),
{
    let i = app.hex_view.patches_dialog.selected_index;
    if i >= app.hex_view.patches_dialog.items.len() {
        return HexAction::Nothing;
    }
    let offset = app.hex_view.patches_dialog.items[i].offset;
    let size = app.hex_view.patches_dialog.items[i].size;
    let mut dropped_on: OffsetMap<u8> = OffsetMap::new();
    let mut dropped_off: OffsetMap<u8> = OffsetMap::new();
    move_span(&mut app.hex_view.changed_bytes, &mut dropped_on, offset, size);
    move_span(&mut app.hex_view.disabled_bytes, &mut dropped_off, offset, size);
    rebuild_patches(app);
    let n = app.hex_view.patches_dialog.items.len();
    if app.hex_view.patches_dialog.selected_index >= n {
        app.hex_view.patches_dialog.selected_index = if n == 0 { 0 } else { n - 1 };
    }
    let mut msg = string_from("Reverted patch at 0x");
    push_hex(&mut msg, offset as u64, 0);
    push_str(&mut msg, " (");
    push_dec(&mut msg, size as u64);
    push_str(&mut msg, " byte(s))");
    proof {
        reveal_strlit("Reverted patch at 0x");
        reveal_strlit("Reverted");
        reveal_strlit(" (");
        reveal_strlit(" byte(s))");
        assert("Reverted patch at 0x"@ =~= "Reverted"@ + " patch at 0x"@) by {
            reveal_strlit(" patch at 0x");
        }
    }
    app.log(msg);
    HexAction::Nothing
}

fn copy_all_patches(app: &mut App) -> (act: HexAction)
    ensures
        patches_post(*old(app), *final(app), PatchesCommand::CopyAll, act),
{
    let total = app.hex_view.patches_dialog.items.len();
    if total == 0 {
        return HexAction::Nothing;
    }
    let ghost rows = patch_rows(*app);
    let mut text = String::new();
    let mut i: usize = 0;
    while i < total
        invariant
            i <= total,
            total == app.hex_view.patches_dialog.items@.len(),
            *app == *old(app),
            rows == patch_rows(*app),
            rows.len() == total,
            text@ == join(rows.take(i as int), "\r\n"@),
        decreases total - i,
    {
        let row = patch_row_as_text(app, &app.hex_view.patches_dialog.items[i]);
        proof {
            let t = rows.take(i + 1);
            assert(t.drop_last() =~= rows.take(i as int));
            assert(t.last() == row@);
        }
        if i > 0 {
            push_str(&mut text, "\r\n");
        }
        push_str(&mut text, row.as_str());
        proof {
            reveal_strlit("\r\n");
            if i == 0 {
                assert(text@ =~= join(rows.take(1), "\r\n"@));
            } else {
                assert(text@ =~= join(rows.take(i + 1), "\r\n"@));
            }
        }
        i = i + 1;
    }
    assert(rows.take(total as int) =~= rows);
    let mut what = String::new();
    push_dec(&mut what, total as u64);
    push_str(&mut what, " patch(es)");
    proof {
        reveal_strlit(" patch(es)");
    }
    app.copy_to_clipboard(text, what.as_str())
}

/// Carries out `cmd` in the patches list (see `patches_post`).
pub fn run_patches_command(app: &mut App, cmd: PatchesCommand) -> (act: HexAction)
    requires
        patches_fit(*old(app)),
        old(app).hex_view.patches_dialog.selected_index < usize::MAX - 10,
    ensures
        patches_post(*old(app), *final(app), cmd, act),
{
    let total = app.hex_view.patches_dialog.items.len();
    let sel = app.hex_view.patches_dialog.selected_index;
    match cmd {
        PatchesCommand::Close => {
            app.state = UIState::Normal;
            HexAction::Nothing
        },
        PatchesCommand::GoTo => {
            if sel < total {
                let t = app.hex_view.patches_dialog.items[sel].offset;
                app.state = UIState::Normal;
                app.goto(t);
            }
            HexAction::Nothing
        },
        PatchesCommand::Toggle => toggle_patch(app),
        PatchesCommand::ToggleAll => toggle_all_patches(app),
        PatchesCommand::Edit => {
            if sel < total {
                let t = app.hex_view.patches_dialog.items[sel].offset;
                app.goto(t);
                open_edit_dialog(app);
            }
            HexAction::Nothing
        },
        PatchesCommand::Revert => revert_patch(app),
        PatchesCommand::CopyAll => copy_all_patches(app),
        PatchesCommand::CopyOne => {
            if sel < total {
                let text = patch_row_as_text(app, &app.hex_view.patches_dialog.items[sel]);
                proof {
                    reveal_strlit("1 patch");
                }
                app.copy_to_clipboard(text, "1 patch")
            } else {
                HexAction::Nothing
            }
        },
        PatchesCommand::Up => {
            if sel > 0 {
                app.hex_view.patches_dialog.selected_index = sel - 1;
            }
            HexAction::Nothing
        },
        PatchesCommand::Down => {
            if sel + 1 < total {
                app.hex_view.patches_dialog.selected_index = sel + 1;
            }
            HexAction::Nothing
        },
        PatchesCommand::PageUp => {
            app.hex_view.patches_dialog.selected_index = if sel >= 10 { sel - 10 } else { 0 };
            HexAction::Nothing
        },
        PatchesCommand::PageDown => {
            if total > 0 {
                app.hex_view.patches_dialog.selected_index = if sel + 10 < total - 1 { sel + 10 } else { total - 1 };
            }
            HexAction::Nothing
        },
        PatchesCommand::Home => {
            app.hex_view.patches_dialog.selected_index = 0;
            HexAction::Nothing
        },
        PatchesCommand::End => {
            if total > 0 {
                app.hex_view.patches_dialog.selected_index = total - 1;
            }
            HexAction::Nothing
        },
        PatchesCommand::Nothing => HexAction::Nothing,
    }
}

/// Handles a key in the patches list (see `patches_command` and
/// `patches_post`).
pub fn dialog_patches_events(app: &mut App, key: KeyPress) -> (act: HexAction)
    requires
        patches_fit(*old(app)),
        old(app).hex_view.patches_dialog.selected_index < usize::MAX - 10,
    ensures
        patches_post(
            *old(app),
            *final(app),
            patches_command(key, old(app).hex_view.patches_dialog.items@.len()),
            act,
        ),
{
    let cmd = patches_command_for(key, app.hex_view.patches_dialog.items.len());
    run_patches_command(app, cmd)
}

// ---------------------------------------------------------------------------
// Toggling a run off and on again
// ---------------------------------------------------------------------------

/// Strictly increasing.
pub open spec fn strictly_up(s: Seq<usize>) -> bool {
    forall|i: int, j: int| 0 <= i < j < s.len() ==> #[trigger] s[i] < #[trigger] s[j]
}

proof fn lemma_merge_lower(a: Seq<usize>, b: Seq<usize>, low: int)
    requires
        forall|i: int| 0 <= i < a.len() ==> low <= #[trigger] a[i],
        forall|i: int| 0 <= i < b.len() ==> low <= #[trigger] b[i],
    ensures
        forall|t: int| 0 <= t < merge_keys(a, b).len() ==> low <= #[trigger] merge_keys(a, b)[t],
    decreases a.len() + b.len(),
{
    lemma_merge_keys_members(a, b);
    assert forall|t: int| 0 <= t < merge_keys(a, b).len() implies low <= #[trigger] merge_keys(a, b)[t] by {
        let x = merge_keys(a, b)[t];
        if a.contains(x) {
            let q = choose|q: int| 0 <= q < a.len() && a[q] == x;
        } else {
            let q = choose|q: int| 0 <= q < b.len() && b[q] == x;
        }
    }
}

proof fn lemma_merge_sorted(a: Seq<usize>, b: Seq<usize>)
    requires
        strictly_up(a),
        strictly_up(b),
    ensures
        strictly_up(merge_keys(a, b)),
        forall|v: usize| (a.contains(v) || b.contains(v)) ==> #[trigger] merge_keys(a, b).contains(v),
    decreases a.len() + b.len(),
{
    let m = merge_keys(a, b);
    if a.len() == 0 || b.len() == 0 {
    } else {
        let (a2, b2) = if a[0] < b[0] {
            (a.drop_first(), b)
        } else if b[0] < a[0] {
            (a, b.drop_first())
        } else {
            (a.drop_first(), b.drop_first())
        };
        let h = m[0];
        assert(strictly_up(a2) && strictly_up(b2));
        lemma_merge_sorted(a2, b2);
        let r = merge_keys(a2, b2);
        assert(m == seq![h] + r);
        assert forall|i: int| 0 <= i < a2.len() implies h + 1 <= #[trigger] a2[i] by {
            if a[0] < b[0] {
                assert(a2[i] == a[i + 1]);
            } else if b[0] < a[0] {
                assert(a[0] <= a2[i]);
                if i > 0 {
                    assert(a[0] < a[i]);
                }
            } else {
                assert(a2[i] == a[i + 1]);
            }
        }
        assert forall|i: int| 0 <= i < b2.len() implies h + 1 <= #[trigger] b2[i] by {
            if a[0] < b[0] {
                if i > 0 {
                    assert(b[0] < b[i]);
                }
            } else if b[0] < a[0] {
                assert(b2[i] == b[i + 1]);
            } else {
                assert(b2[i] == b[i + 1]);
            }
        }
        lemma_merge_lower(a2, b2, h + 1);
        assert forall|i: int, j: int| 0 <= i < j < m.len() implies #[trigger] m[i] < #[trigger] m[j] by {
            assert(m[j] == r[j - 1]);
            if i > 0 {
                assert(m[i] == r[i - 1]);
            }
        }
        assert forall|v: usize| (a.contains(v) || b.contains(v)) implies #[trigger] m.contains(v) by {
            if v == h {
                assert(m[0] == v);
            } else {
                if a.contains(v) {
                    let q = choose|q: int| 0 <= q < a.len() && a[q] == v;
                    if a[0] < b[0] || b[0] == a[0] {
                        assert(q > 0);
                        assert(a2[q - 1] == v);
                    } else {
                        assert(a2[q] == v);
                    }
                    assert(a2.contains(v));
                } else {
                    let q = choose|q: int| 0 <= q < b.len() && b[q] == v;
                    if b[0] < a[0] || b[0] == a[0] {
                        assert(q > 0);
                        assert(b2[q - 1] == v);
                    } else {
                        assert(b2[q] == v);
                    }
                    assert(b2.contains(v));
                }
                assert(r.contains(v));
                let k = choose|k: int| 0 <= k < r.len() && r[k] == v;
                assert(m[k + 1] == v);
            }
        }
    }
}

proof fn lemma_sorted_unique(x: Seq<usize>, y: Seq<usize>)
    requires
        strictly_up(x),
        strictly_up(y),
        forall|v: usize| x.contains(v) == y.contains(v),
    ensures
        x == y,
    decreases x.len(),
{
    if x.len() == 0 {
        if y.len() > 0 {
            assert(y.contains(y[0]));
        }
        assert(x =~= y);
    } else {
        assert(x.contains(x[0]));
        assert(y.len() > 0);
        assert(y.contains(y[0]));
        let qx = choose|q: int| 0 <= q < y.len() && y[q] == x[0];
        let qy = choose|q: int| 0 <= q < x.len() && x[q] == y[0];
        if qx > 0 {
            assert(y[0] < y[qx]);
        }
        if qy > 0 {
            assert(x[0] < x[qy]);
        }
        assert(x[0] == y[0]);
        let x2 = x.drop_first();
        let y2 = y.drop_first();
        assert forall|v: usize| x2.contains(v) == y2.contains(v) by {
            if x2.contains(v) {
                let q = choose|q: int| 0 <= q < x2.len() && x2[q] == v;
                assert(x[q + 1] == v && x[0] < x[q + 1]);
                assert(y.contains(v));
                let w = choose|w: int| 0 <= w < y.len() && y[w] == v;
                assert(w != 0);
                assert(y2[w - 1] == v);
            }
            if y2.contains(v) {
                let q = choose|q: int| 0 <= q < y2.len() && y2[q] == v;
                assert(y[q + 1] == v && y[0] < y[q + 1]);
                assert(x.contains(v));
                let w = choose|w: int| 0 <= w < x.len() && x[w] == v;
                assert(w != 0);
                assert(x2[w - 1] == v);
            }
        }
        lemma_sorted_unique(x2, y2);
        assert(x =~= seq![x[0]] + x2);
        assert(y =~= seq![y[0]] + y2);
    }
}

/// The keys of a well-formed map as `strictly_up` and membership.
proof fn lemma_map_keys(m: OffsetMap<u8>)
    requires
        m.wf(),
    ensures
        strictly_up(m.key_seq()),
        forall|k: usize| #[trigger] m.key_seq().contains(k) == m@.contains_key(k),
{
    m.lemma_keys();
    assert forall|k: usize| #[trigger] m.key_seq().contains(k) implies m@.contains_key(k) by {
        let q = choose|q: int| 0 <= q < m.key_seq().len() && m.key_seq()[q] == k;
    }
}

/// Every offset with an edit, in order: the same list for any two pairs of
/// maps with the same offsets between them.
proof fn lemma_offsets_same(x: App, y: App)
    requires
        x.hex_view.changed_bytes.wf(),
        x.hex_view.disabled_bytes.wf(),
        y.hex_view.changed_bytes.wf(),
        y.hex_view.disabled_bytes.wf(),
        forall|k: usize| (x.hex_view.changed_bytes@.contains_key(k) || x.hex_view.disabled_bytes@.contains_key(k))
            == (y.hex_view.changed_bytes@.contains_key(k) || y.hex_view.disabled_bytes@.contains_key(k)),
    ensures
        patch_offsets(x) == patch_offsets(y),
        strictly_up(patch_offsets(x)),
        forall|k: usize| #[trigger] patch_offsets(x).contains(k) == (x.hex_view.changed_bytes@.contains_key(k)
            || x.hex_view.disabled_bytes@.contains_key(k)),
{
    let (xa, xb) = (x.hex_view.changed_bytes.key_seq(), x.hex_view.disabled_bytes.key_seq());
    let (ya, yb) = (y.hex_view.changed_bytes.key_seq(), y.hex_view.disabled_bytes.key_seq());
    lemma_map_keys(x.hex_view.changed_bytes);
    lemma_map_keys(x.hex_view.disabled_bytes);
    lemma_map_keys(y.hex_view.changed_bytes);
    lemma_map_keys(y.hex_view.disabled_bytes);
    lemma_merge_sorted(xa, xb);
    lemma_merge_sorted(ya, yb);
    lemma_merge_keys_members(xa, xb);
    lemma_merge_keys_members(ya, yb);
    let px = merge_keys(xa, xb);
    let py = merge_keys(ya, yb);
    assert forall|k: usize| #[trigger] px.contains(k) == (x.hex_view.changed_bytes@.contains_key(k)
        || x.hex_view.disabled_bytes@.contains_key(k)) by {
        if px.contains(k) {
            let q = choose|q: int| 0 <= q < px.len() && px[q] == k;
        }
    }
    assert forall|k: usize| #[trigger] py.contains(k) == (y.hex_view.changed_bytes@.contains_key(k)
        || y.hex_view.disabled_bytes@.contains_key(k)) by {
        if py.contains(k) {
            let q = choose|q: int| 0 <= q < py.len() && py[q] == k;
        }
    }
    assert forall|v: usize| px.contains(v) == py.contains(v) by {}
    lemma_sorted_unique(px, py);
}

/// Two apps whose edits agree on whether each key's edit matches the run's
/// first one end a run at the same place.
proof fn lemma_run_end_same(x: App, y: App, ks: Seq<usize>, i: int, j: int)
    requires
        0 <= i < j <= ks.len(),
        forall|t: int|
            i < t <= run_end(x, ks, i, j) && t < ks.len() && t >= j && ks[t] == ks[t - 1] + 1 ==> (enabled_at(x, #[trigger] ks[t])
                == enabled_at(x, ks[i])) == (enabled_at(y, ks[t]) == enabled_at(y, ks[i])),
    ensures
        run_end(y, ks, i, j) == run_end(x, ks, i, j),
    decreases ks.len() - j,
{
    lemma_run_end_bounds(x, ks, i, j);
    if j < ks.len() && ks[j] == ks[j - 1] + 1 {
        assert((enabled_at(x, ks[j]) == enabled_at(x, ks[i])) == (enabled_at(y, ks[j]) == enabled_at(y, ks[i])));
        if enabled_at(x, ks[j]) == enabled_at(x, ks[i]) {
            assert(run_end(x, ks, i, j) == run_end(x, ks, i, j + 1));
            lemma_run_end_same(x, y, ks, i, j + 1);
        }
    }
}

/// The run at `j..run_end` has consecutive offsets with the same state.
proof fn lemma_run_shape(x: App, ks: Seq<usize>, i: int, j: int)
    requires
        0 <= i < j <= ks.len(),
        forall|t: int| i < t < j ==> ks[t] == ks[i] + (t - i) && enabled_at(x, #[trigger] ks[t]) == enabled_at(x, ks[i]),
    ensures
        forall|t: int| i < t < run_end(x, ks, i, j) ==> ks[t] == ks[i] + (t - i) && enabled_at(x, #[trigger] ks[t]) == enabled_at(x, ks[i]),
        run_end(x, ks, i, j) < ks.len() ==> !(ks[run_end(x, ks, i, j)] == ks[run_end(x, ks, i, j) - 1] + 1 && enabled_at(
            x,
            ks[run_end(x, ks, i, j)],
        ) == enabled_at(x, ks[i])),
    decreases ks.len() - j,
{
    if j < ks.len() && ks[j] == ks[j - 1] + 1 && enabled_at(x, ks[j]) == enabled_at(x, ks[i]) {
        if j - 1 > i {
            assert(ks[j - 1] == ks[i] + (j - 1 - i));
        }
        lemma_run_shape(x, ks, i, j + 1);
    }
}

/// Each run from `i` on starts at or after `ks[i]`.
proof fn lemma_runs_start_after(x: App, ks: Seq<usize>, i: int)
    requires
        0 <= i,
        strictly_up(ks),
    ensures
        forall|q: int| 0 <= q < patch_runs(x, ks, i).len() ==> ks[i] <= (#[trigger] patch_runs(x, ks, i)[q]).0,
    decreases ks.len() - i,
{
    if i < ks.len() {
        let e = run_end(x, ks, i, i + 1);
        lemma_run_end_bounds(x, ks, i, i + 1);
        lemma_runs_start_after(x, ks, e);
        assert forall|q: int| 0 <= q < patch_runs(x, ks, i).len() implies ks[i] <= (#[trigger] patch_runs(x, ks, i)[q]).0 by {
            if q > 0 {
                assert(patch_runs(x, ks, i)[q] == patch_runs(x, ks, e)[q - 1]);
                if e < ks.len() {
                    assert(ks[i] < ks[e]);
                }
            }
        }
    }
}

/// `y` is `x` with the edits at `lo..lo + n` switched off.
pub open spec fn switched_off(x: App, y: App, lo: usize, n: usize) -> bool {
    let s = span(lo, n);
    &&& y.hex_view.changed_bytes@ == x.hex_view.changed_bytes@.remove_keys(s)
    &&& y.hex_view.disabled_bytes@ == x.hex_view.disabled_bytes@.union_prefer_right(x.hex_view.changed_bytes@.restrict(s))
    &&& y.file_info == x.file_info
}

proof fn lemma_first_run_switched(x: App, y: App, ks: Seq<usize>, i: int, r: (usize, usize, Seq<u8>, Seq<u8>, bool))
    requires
        0 <= i < ks.len(),
        strictly_up(ks),
        forall|t: int| 0 <= t < ks.len() ==> #[trigger] ks[t] < usize::MAX,
        patch_runs(x, ks, i)[0] == r,
        r.4,
        r.0 + r.1 < usize::MAX,
        !ks.contains((r.0 + r.1) as usize),
        switched_off(x, y, r.0, r.1),
    ensures
        run_end(y, ks, i, i + 1) == run_end(x, ks, i, i + 1),
        patch_runs(y, ks, i)[0] == (r.0, r.1, r.2, r.3, false),
{
    let e = run_end(x, ks, i, i + 1);
    lemma_run_end_bounds(x, ks, i, i + 1);
    lemma_run_shape(x, ks, i, i + 1);
    let s = span(r.0, r.1);
    let hd = patch_runs(x, ks, i);
    assert(hd[0].0 == ks[i]);
    assert(hd[0].1 == (e - i) as usize);
    assert(ks[e - 1] == ks[i] + (e - 1 - i));
    assert(e - i <= usize::MAX);
    assert(e - i == r.1);
    assert forall|t: int| i <= t < e implies #[trigger] ks[t] == r.0 + (t - i) && s.contains(ks[t]) by {}
    assert forall|t: int|
        i < t <= run_end(x, ks, i, i + 1) && t < ks.len() && t >= i + 1 && ks[t] == ks[t - 1] + 1 implies (enabled_at(x, #[trigger] ks[t])
            == enabled_at(x, ks[i])) == (enabled_at(y, ks[t]) == enabled_at(y, ks[i])) by {
        if t == e {
            assert(ks[t] == r.0 + r.1);
            assert(ks.contains(ks[t]));
        }
    }
    lemma_run_end_same(x, y, ks, i, i + 1);
    assert forall|t: int| 0 <= t < r.1 implies #[trigger] patched_at(y, (r.0 + t) as usize) == patched_at(x, (r.0 + t) as usize) by {
        let k = (r.0 + t) as usize;
        assert(ks[i + t] == k);
        assert(s.contains(k));
        assert(enabled_at(x, k));
    }
    assert(Seq::new(r.1 as nat, |t: int| patched_at(y, (r.0 + t) as usize)) =~= r.3);
    assert(Seq::new(r.1 as nat, |t: int| orig_at(y, (r.0 + t) as usize)) =~= r.2);
    assert(!enabled_at(y, r.0)) by {
        assert(s.contains(r.0));
    }
}

#[verifier::rlimit(60)]
proof fn lemma_run_switched(x: App, y: App, ks: Seq<usize>, i: int, q: int, r: (usize, usize, Seq<u8>, Seq<u8>, bool))
    requires
        0 <= i,
        strictly_up(ks),
        forall|t: int| 0 <= t < ks.len() ==> #[trigger] ks[t] < usize::MAX,
        0 <= q < patch_runs(x, ks, i).len(),
        patch_runs(x, ks, i)[q] == r,
        r.4,
        r.0 + r.1 < usize::MAX,
        r.0 > 0 ==> !ks.contains((r.0 - 1) as usize),
        !ks.contains((r.0 + r.1) as usize),
        switched_off(x, y, r.0, r.1),
    ensures
        q < patch_runs(y, ks, i).len(),
        patch_runs(y, ks, i)[q] == (r.0, r.1, r.2, r.3, false),
    decreases q,
{
    let e = run_end(x, ks, i, i + 1);
    lemma_run_end_bounds(x, ks, i, i + 1);
    if q == 0 {
        lemma_first_run_switched(x, y, ks, i, r);
    } else {
        lemma_run_shape(x, ks, i, i + 1);
        let s = span(r.0, r.1);
        assert(patch_runs(x, ks, i)[q] == patch_runs(x, ks, e)[q - 1]);
        lemma_runs_start_after(x, ks, e);
        assert(e < ks.len());
        assert(ks[e] <= r.0);
        assert(ks[e - 1] < r.0);
        assert(ks[e - 1] != r.0 - 1) by {
            if r.0 > 0 {
                assert(ks.contains(ks[e - 1]));
            }
        }
        assert forall|t: int|
            i < t <= run_end(x, ks, i, i + 1) && t < ks.len() && t >= i + 1 && ks[t] == ks[t - 1] + 1 implies (enabled_at(x, #[trigger] ks[t])
                == enabled_at(x, ks[i])) == (enabled_at(y, ks[t]) == enabled_at(y, ks[i])) by {
            if t < e - 1 {
                assert(ks[t] < ks[e - 1]);
            }
            if t == e {
                assert(ks[t] != r.0);
            }
            assert(!s.contains(ks[t]));
            assert(!s.contains(ks[i])) by {
                if i < e - 1 {
                    assert(ks[i] < ks[e - 1]);
                }
            }
        }
        lemma_run_end_same(x, y, ks, i, i + 1);
        lemma_run_switched(x, y, ks, e, q - 1, r);
        assert(patch_runs(y, ks, i)[q] == patch_runs(y, ks, e)[q - 1]);
    }
}

/// Space twice on a run of enabled edits gives the edits back: the first press
/// disables the run and leaves it selected as the same run, switched off; the
/// second switches it on again, leaving both maps as they were. The run's
/// neighbours must hold no edit (else the run merges with them), and no edit
/// of the run may be switched off already.
pub proof fn law_toggle_twice(a: App, b: App, c: App, act1: HexAction, act2: HexAction)
    requires
        a.hex_view.changed_bytes.wf(),
        a.hex_view.disabled_bytes.wf(),
        b.hex_view.changed_bytes.wf(),
        b.hex_view.disabled_bytes.wf(),
        !a.hex_view.changed_bytes@.contains_key(usize::MAX),
        !a.hex_view.disabled_bytes@.contains_key(usize::MAX),
        item_views(a.hex_view.patches_dialog.items@) == patch_runs(a, patch_offsets(a), 0),
        selected_patch(a) matches Some(p) && p.enabled && p.offset + p.size < usize::MAX && (p.offset > 0
            ==> !patch_offsets(a).contains((p.offset - 1) as usize)) && !patch_offsets(a).contains(
            (p.offset + p.size) as usize,
        ) && (forall|k: usize| span(p.offset, p.size).contains(k) ==> !a.hex_view.disabled_bytes@.contains_key(k)),
        patches_post(a, b, PatchesCommand::Toggle, act1),
        patches_post(b, c, PatchesCommand::Toggle, act2),
    ensures
        selected_patch(b) matches Some(p2) && item_view(p2) == (
            selected_patch(a)->0.offset,
            selected_patch(a)->0.size,
            selected_patch(a)->0.orig_bytes@,
            selected_patch(a)->0.patched_bytes@,
            false,
        ),
        c.hex_view.changed_bytes@ == a.hex_view.changed_bytes@,
        c.hex_view.disabled_bytes@ == a.hex_view.disabled_bytes@,
{
    let p = selected_patch(a)->0;
    let sel = a.hex_view.patches_dialog.selected_index;
    let r = item_view(p);
    let ks = patch_offsets(a);
    let m = App {
        hex_view: HexView {
            changed_bytes: b.hex_view.changed_bytes,
            disabled_bytes: b.hex_view.disabled_bytes,
            ..a.hex_view
        },
        ..a
    };
    let s = span(p.offset, p.size);
    assert forall|k: usize| (a.hex_view.changed_bytes@.contains_key(k) || a.hex_view.disabled_bytes@.contains_key(k))
        == (m.hex_view.changed_bytes@.contains_key(k) || m.hex_view.disabled_bytes@.contains_key(k)) by {}
    lemma_offsets_same(a, m);
    assert forall|t: int| 0 <= t < ks.len() implies #[trigger] ks[t] < usize::MAX by {
        assert(ks.contains(ks[t]));
    }
    assert(patch_runs(a, ks, 0)[sel as int] == r);
    lemma_run_switched(a, m, ks, 0, sel as int, r);
    assert(b.hex_view.patches_dialog.selected_index == sel);
    let p2 = selected_patch(b)->0;
    assert(item_views(b.hex_view.patches_dialog.items@)[sel as int] == item_view(p2));
    law_disable_then_enable(a.hex_view.changed_bytes@, a.hex_view.disabled_bytes@, s);
}

} // verus!
