//! Searching the file for byte patterns and walking the hits.
use vstd::prelude::*;

use crate::app::{App, AppView};
use crate::hex::pattern_engine::find_byte_from;
use crate::i18n::{fill, fill_spec, M};
use crate::text::{copy_range, string_from, dec_digits, dec_string, hex_digits, hex_string, zero_pad};

verus! {

#[derive(Debug, Clone, Copy, PartialEq, Eq, Structural)]
pub enum SearchDirection {
    Forward,
    Backward,
}

/// The last search and where the cursor is among its hits.
pub struct Search {
    pub direction: SearchDirection,
    /// Start offsets of the hits, increasing.
    pub matches: Vec<usize>,
    pub match_index: Option<usize>,
    /// Length of the pattern that produced `matches`.
    pub match_len: usize,
}

impl Search {
    pub fn new() -> (s: Self)
        ensures
            s.direction == SearchDirection::Forward,
            s.matches@.len() == 0,
            s.match_index is None,
            s.match_len == 0,
    {
        Search { direction: SearchDirection::Forward, matches: Vec::new(), match_index: None, match_len: 0 }
    }
}

/// One byte of a search pattern.
#[derive(Debug, Clone, Copy, PartialEq, Eq, Structural)]
pub enum HexPatternByte {
    Exact(u8),
    Wildcard,
}


/// Strictly increasing.
pub open spec fn increasing(s: Seq<usize>) -> bool {
    forall|i: int, j: int| 0 <= i < j < s.len() ==> s[i] < s[j]
}

/// In ascending order, repeats allowed.
pub open spec fn ascending(s: Seq<usize>) -> bool {
    forall|i: int, j: int| 0 <= i < j < s.len() ==> s[i] <= s[j]
}

/// How many entries of an ascending `v` are at most `x`.
fn count_at_most(v: &[usize], x: usize) -> (r: usize)
    requires
        ascending(v@),
    ensures
        r <= v@.len(),
        forall|j: int| 0 <= j < r ==> v@[j] <= x,
        forall|j: int| r <= j < v@.len() ==> v@[j] > x,
{
    let mut lo: usize = 0;
    let mut hi: usize = v.len();
    while lo < hi
        invariant
            lo <= hi <= v@.len(),
            ascending(v@),
            forall|j: int| 0 <= j < lo ==> v@[j] <= x,
            forall|j: int| hi <= j < v@.len() ==> v@[j] > x,
        decreases hi - lo,
    {
        let mid = lo + (hi - lo) / 2;
        if v[mid] <= x {
            lo = mid + 1;
        } else {
            hi = mid;
        }
    }
    lo
}

/// How many entries of an ascending `v` are below `x`.
fn count_below(v: &[usize], x: usize) -> (r: usize)
    requires
        ascending(v@),
    ensures
        r <= v@.len(),
        forall|j: int| 0 <= j < r ==> v@[j] < x,
        forall|j: int| r <= j < v@.len() ==> v@[j] >= x,
{
    let mut lo: usize = 0;
    let mut hi: usize = v.len();
    while lo < hi
        invariant
            lo <= hi <= v@.len(),
            ascending(v@),
            forall|j: int| 0 <= j < lo ==> v@[j] < x,
            forall|j: int| hi <= j < v@.len() ==> v@[j] >= x,
        decreases hi - lo,
    {
        let mid = lo + (hi - lo) / 2;
        if v[mid] < x {
            lo = mid + 1;
        } else {
            hi = mid;
        }
    }
    lo
}

/// How many entries of an ascending `m` are below `t`.
pub open spec fn below(m: Seq<usize>, t: usize) -> nat
    decreases m.len(),
{
    if m.len() == 0 {
        0
    } else if m.last() < t {
        m.len()
    } else {
        below(m.drop_last(), t)
    }
}

proof fn lemma_below(m: Seq<usize>, t: usize, p: int)
    requires
        ascending(m),
        0 <= p <= m.len(),
        forall|j: int| 0 <= j < p ==> m[j] < t,
        forall|j: int| p <= j < m.len() ==> m[j] >= t,
    ensures
        below(m, t) == p,
    decreases m.len(),
{
    if m.len() > 0 && p < m.len() {
        lemma_below(m.drop_last(), t, p);
    }
}

pub proof fn lemma_below_len(m: Seq<usize>, t: usize)
    ensures
        below(m, t) <= m.len(),
    decreases m.len(),
{
    if m.len() > 0 && !(m.last() < t) {
        lemma_below_len(m.drop_last(), t);
    }
}

pub open spec fn sat_add(a: usize, b: usize) -> int {
    if a + b > usize::MAX { usize::MAX as int } else { a + b }
}

/// Whether some hit of length `len` starting at an entry of `m` covers `offset`.
pub open spec fn covered_by_hit(m: Seq<usize>, len: usize, offset: usize) -> bool {
    len > 0 && exists|i: int| 0 <= i < m.len() && #[trigger] m[i] <= offset && offset < sat_add(m[i], len)
}

/// True when `offset` falls inside one of the current search hits (the end of a
/// hit saturates at the top of the address space).
pub fn in_match(app: &App, offset: usize) -> (b: bool)
    requires
        ascending(app.hex_view.search.matches@),
    ensures
        b == covered_by_hit(app.hex_view.search.matches@, app.hex_view.search.match_len, offset),
{
    let m = app.hex_view.search.matches.as_slice();
    let len = app.hex_view.search.match_len;
    if m.len() == 0 || len == 0 {
        return false;
    }
    let k = count_at_most(m, offset);
    if k == 0 {
        assert(!covered_by_hit(m@, len, offset)) by {
            if covered_by_hit(m@, len, offset) {
                let i = choose|i: int| 0 <= i < m@.len() && #[trigger] m@[i] <= offset && offset < sat_add(m@[i], len);
            }
        }
        return false;
    }
    let start = m[k - 1];
    let end = start.saturating_add(len);
    let r = offset < end;
    proof {
        if r {
            assert(m@[k - 1] <= offset);
        } else {
            assert forall|i: int| 0 <= i < m@.len() && #[trigger] m@[i] <= offset implies !(offset < sat_add(m@[i], len)) by {
                assert(i < k);
                if i < k - 1 {
                    assert(m@[i] <= m@[k - 1]);
                }
            }
        }
    }
    r
}

/// The index of the hit nearest to `t` in an ascending `m` (the earlier one on
/// a tie; an exact hit wins).
pub open spec fn nearest_index(m: Seq<usize>, t: usize) -> int {
    let p = below(m, t) as int;
    if p < m.len() && m[p] == t {
        p
    } else if p == 0 {
        0
    } else if p == m.len() {
        m.len() - 1
    } else if t - m[p - 1] <= m[p] - t {
        p - 1
    } else {
        p
    }
}

/// Points `match_index` at the hit nearest to `target_ofs`, or at nothing when
/// there are no hits.
pub fn update_match_index(app: &mut App, target_ofs: usize)
    requires
        ascending(old(app).hex_view.search.matches@),
    ensures
        final(app).hex_view.search.match_index == if old(app).hex_view.search.matches@.len() == 0 {
            None
        } else {
            Some(nearest_index(old(app).hex_view.search.matches@, target_ofs) as usize)
        },
        final(app).hex_view.search.matches == old(app).hex_view.search.matches,
        final(app).hex_view.search.match_len == old(app).hex_view.search.match_len,
        final(app).hex_view.search.direction == old(app).hex_view.search.direction,
        final(app).hex_view.same_but_search(old(app).hex_view),
        final(app).same_but_hex_view(*old(app)),
{
    let n = app.hex_view.search.matches.len();
    if n == 0 {
        app.hex_view.search.match_index = None;
        return;
    }
    let p = count_below(app.hex_view.search.matches.as_slice(), target_ofs);
    proof {
        lemma_below(app.hex_view.search.matches@, target_ofs, p as int);
    }
    let idx = if p < n && app.hex_view.search.matches[p] == target_ofs {
        p
    } else if p == 0 {
        0
    } else if p == n {
        n - 1
    } else {
        let prev = app.hex_view.search.matches[p - 1];
        let next = app.hex_view.search.matches[p];
        if target_ofs - prev <= next - target_ofs {
            p - 1
        } else {
            p
        }
    };
    app.hex_view.search.match_index = Some(idx);
}

/// The 1-based position that the status line reports for `offset`: the hit at
/// `offset` if there is one, otherwise the current match index, otherwise 1.
pub open spec fn position_number(m: Seq<usize>, idx: Option<usize>, offset: usize) -> nat {
    let p = below(m, offset) as int;
    if p < m.len() && m[p] == offset {
        (p + 1) as nat
    } else {
        match idx {
            Some(i) => (i + 1) as nat,
            None => 1,
        }
    }
}

/// Whether addresses are reported as virtual addresses.
pub open spec fn reports_va(app: App) -> bool {
    app.editor_view == AppView::Disasm || app.hex_view.show_va
}

/// The text of the match position message for `offset`.
pub open spec fn position_message(app: App, offset: usize) -> Seq<char> {
    let m = app.hex_view.search.matches@;
    let address: u64 = if reports_va(app) {
        vstd::wrapping::u64_specs::wrapping_add(app.image_base, offset as u64)
    } else {
        offset as u64
    };
    let message = if reports_va(app) { M::MatchAtVa } else { M::MatchAtOffset };
    fill_spec(
        message.text(app.config.lang),
        seq![
            dec_digits(position_number(m, app.hex_view.search.match_index, offset)),
            dec_digits(m.len()),
            hex_digits(address as nat),
        ],
    )
}

/// `"Match (n/total) offset : 0x.."` in the interface language, or the `VA`
/// form when addresses are shown as virtual addresses.
pub fn match_position_message(app: &App, offset: usize) -> (s: String)
    requires
        ascending(app.hex_view.search.matches@),
        app.hex_view.search.match_index matches Some(i) ==> i < usize::MAX,
    ensures
        s@ == position_message(*app, offset),
{
    let lang = app.config.lang;
    let m = app.hex_view.search.matches.as_slice();
    let total = m.len();
    let p = count_below(m, offset);
    proof {
        lemma_below(m@, offset, p as int);
    }
    let index: usize = if p < total && m[p] == offset {
        p + 1
    } else {
        match app.hex_view.search.match_index {
            Some(i) => i + 1,
            None => 1,
        }
    };
    let as_va = app.editor_view == AppView::Disasm || app.hex_view.show_va;
    let address: u64 = if as_va { app.get_va(offset) } else { offset as u64 };
    let message = if as_va { M::MatchAtVa } else { M::MatchAtOffset };
    let a0 = dec_string(index as u64);
    let a1 = dec_string(total as u64);
    let a2 = hex_string(address, 0);
    proof {
        assert(zero_pad(hex_digits(address as nat), 0) == hex_digits(address as nat));
    }
    let args = [a0.as_str(), a1.as_str(), a2.as_str()];
    let r = fill(message.tr(lang), &args);
    proof {
        assert(crate::i18n::str_views(args@) =~= seq![a0@, a1@, a2@]);
    }
    r
}

/// The same message as [`match_position_message`].
pub fn found_at_message(app: &App, offset: usize) -> (s: String)
    requires
        ascending(app.hex_view.search.matches@),
        app.hex_view.search.match_index matches Some(i) ==> i < usize::MAX,
    ensures
        s@ == position_message(*app, offset),
{
    match_position_message(app, offset)
}


/// Upper bound on collected search hits, so a pattern that matches everywhere
/// cannot allocate a list as large as the file.
pub const MAX_MATCHES: usize = 100_000;

/// True when a result list was cut short by [`MAX_MATCHES`].
pub fn matches_truncated(matches: &[usize]) -> (b: bool)
    ensures
        b == (matches@.len() >= MAX_MATCHES),
{
    matches.len() >= MAX_MATCHES
}

pub open spec fn byte_accepts(p: HexPatternByte, b: u8) -> bool {
    match p {
        HexPatternByte::Exact(x) => b == x,
        HexPatternByte::Wildcard => true,
    }
}

/// Whether `p` matches `h` at `s`.
pub open spec fn fits_at(p: Seq<HexPatternByte>, h: Seq<u8>, s: int) -> bool {
    0 <= s && s + p.len() <= h.len() && forall|i: int| 0 <= i < p.len() ==> byte_accepts(p[i], #[trigger] h[s + i])
}

/// The start offsets below `n` where `p` matches `h`, increasing.
pub open spec fn hits_below(p: Seq<HexPatternByte>, h: Seq<u8>, n: nat) -> Seq<usize>
    decreases n,
{
    if n == 0 {
        seq![]
    } else {
        hits_below(p, h, (n - 1) as nat) + if fits_at(p, h, n - 1) {
            seq![(n - 1) as usize]
        } else {
            Seq::<usize>::empty()
        }
    }
}

/// The first [`MAX_MATCHES`] entries of `s`.
pub open spec fn capped(s: Seq<usize>) -> Seq<usize> {
    if s.len() > MAX_MATCHES { s.take(MAX_MATCHES as int) } else { s }
}

/// The hits of `p` in `h`, capped; none for an empty pattern.
pub open spec fn pattern_hits(p: Seq<HexPatternByte>, h: Seq<u8>) -> Seq<usize> {
    if p.len() == 0 { seq![] } else { capped(hits_below(p, h, h.len())) }
}

/// The file as the view shows it: every pending edit applied.
pub open spec fn effective(app: App) -> Seq<u8> {
    Seq::new(app.file_info.buffer@.len(), |i: int| crate::hex::edit::displayed(app, i as usize))
}

proof fn lemma_hits_below_len(p: Seq<HexPatternByte>, h: Seq<u8>, n: nat)
    requires
        n <= usize::MAX,
    ensures
        hits_below(p, h, n).len() <= n,
        forall|i: int| 0 <= i < hits_below(p, h, n).len() ==> #[trigger] hits_below(p, h, n)[i] < n,
    decreases n,
{
    if n > 0 {
        lemma_hits_below_len(p, h, (n - 1) as nat);
    }
}

proof fn lemma_hits_below_prefix(p: Seq<HexPatternByte>, h: Seq<u8>, a: nat, b: nat)
    requires
        a <= b,
    ensures
        hits_below(p, h, a).len() <= hits_below(p, h, b).len(),
        hits_below(p, h, b).take(hits_below(p, h, a).len() as int) == hits_below(p, h, a),
    decreases b - a,
{
    if a < b {
        lemma_hits_below_prefix(p, h, a, (b - 1) as nat);
        let hb1 = hits_below(p, h, (b - 1) as nat);
        assert(hits_below(p, h, b).take(hb1.len() as int) =~= hb1);
        assert(hits_below(p, h, b).take(hits_below(p, h, a).len() as int) =~= hb1.take(hits_below(p, h, a).len() as int));
    } else {
        assert(hits_below(p, h, b).take(hits_below(p, h, a).len() as int) =~= hits_below(p, h, a));
    }
}

/// Positions past the last place a pattern fits add no hits.
proof fn lemma_hits_below_stable(p: Seq<HexPatternByte>, h: Seq<u8>, a: nat, b: nat)
    requires
        a <= b,
        forall|s: int| a <= s < b ==> !fits_at(p, h, s),
    ensures
        hits_below(p, h, b) == hits_below(p, h, a),
    decreases b - a,
{
    if a < b {
        lemma_hits_below_stable(p, h, a, (b - 1) as nat);
        assert(hits_below(p, h, b) =~= hits_below(p, h, (b - 1) as nat));
    }
}

/// With no exact byte, a pattern fits at every position where it is in bounds.
proof fn lemma_all_wildcards(p: Seq<HexPatternByte>, h: Seq<u8>, n: nat)
    requires
        forall|i: int| 0 <= i < p.len() ==> p[i] == HexPatternByte::Wildcard,
        p.len() <= h.len(),
        n <= h.len() - p.len() + 1,
    ensures
        hits_below(p, h, n) == Seq::new(n, |i: int| i as usize),
    decreases n,
{
    if n > 0 {
        lemma_all_wildcards(p, h, (n - 1) as nat);
        assert(fits_at(p, h, n - 1));
        assert(hits_below(p, h, n) =~= Seq::new(n, |i: int| i as usize));
    } else {
        assert(hits_below(p, h, n) =~= Seq::new(n, |i: int| i as usize));
    }
}

/// Whether `pattern` matches `buffer` at `start`.
fn fits(pattern: &[HexPatternByte], buffer: &[u8], start: usize) -> (b: bool)
    requires
        start + pattern@.len() <= buffer@.len(),
    ensures
        b == fits_at(pattern@, buffer@, start as int),
{
    let blen = buffer.len();
    let mut i: usize = 0;
    while i < pattern.len()
        invariant
            i <= pattern@.len(),
            blen == buffer@.len(),
            start + pattern@.len() <= blen,
            forall|j: int| 0 <= j < i ==> byte_accepts(pattern@[j], #[trigger] buffer@[start + j]),
        decreases pattern.len() - i,
    {
        match pattern[i] {
            HexPatternByte::Exact(b) => {
                if buffer[start + i] != b {
                    return false;
                }
            },
            HexPatternByte::Wildcard => {},
        }
        i = i + 1;
    }
    true
}

/// The file's bytes with every pending edit applied.
pub fn effective_buffer(app: &App) -> (v: Vec<u8>)
    ensures
        v@ == effective(*app),
{
    let n = app.file_info.buffer.len();
    let mut v: Vec<u8> = Vec::new();
    while v.len() < n
        invariant
            n == app.file_info.buffer@.len(),
            v@.len() <= n,
            v@ == effective(*app).take(v@.len() as int),
        decreases n - v@.len(),
    {
        let b = crate::hex::edit::displayed_byte(app, v.len());
        v.push(b);
        assert(v@ =~= effective(*app).take(v@.len() as int));
    }
    assert(v@ =~= effective(*app));
    v
}

/// Every start offset where `pattern` matches the file with its pending edits,
/// in increasing order and capped at [`MAX_MATCHES`]. The scan jumps between
/// occurrences of the pattern's first exact byte; an all-wildcard pattern
/// matches everywhere it fits.
pub fn find_all_pattern_matches(app: &App, pattern: &[HexPatternByte]) -> (out: Vec<usize>)
    ensures
        out@ == pattern_hits(pattern@, effective(*app)),
{
    let buffer = effective_buffer(app);
    let h = buffer.as_slice();
    let ghost hv = h@;
    let p = pattern;
    let filesize = h.len();
    let mut matches: Vec<usize> = Vec::new();
    if filesize == 0 || p.len() == 0 || p.len() > filesize {
        proof {
            if p@.len() > 0 {
                lemma_hits_below_stable(p@, hv, 0, hv.len());
            }
        }
        return matches;
    }
    let max_pos = filesize - p.len();
    // The first exact byte of the pattern, if any.
    let mut ai: usize = 0;
    while ai < p.len() && p[ai] == HexPatternByte::Wildcard
        invariant
            ai <= p@.len(),
            forall|j: int| 0 <= j < ai ==> p@[j] == HexPatternByte::Wildcard,
        decreases p.len() - ai,
    {
        ai = ai + 1;
    }
    if ai == p.len() {
        let count: usize = if max_pos + 1 < MAX_MATCHES { max_pos + 1 } else { MAX_MATCHES };
        let mut i: usize = 0;
        while i < count
            invariant
                i <= count,
                matches@ == Seq::new(i as nat, |j: int| j as usize),
            decreases count - i,
        {
            matches.push(i);
            i = i + 1;
            assert(matches@ =~= Seq::new(i as nat, |j: int| j as usize));
        }
        proof {
            lemma_all_wildcards(p@, hv, (max_pos + 1) as nat);
            lemma_hits_below_stable(p@, hv, (max_pos + 1) as nat, hv.len());
            assert(matches@ =~= capped(Seq::new((max_pos + 1) as nat, |j: int| j as usize)));
        }
        return matches;
    }
    let ab = match p[ai] {
        HexPatternByte::Exact(b) => b,
        HexPatternByte::Wildcard => 0,
    };
    let hay_len = max_pos + 1;
    let mut offset: usize = 0;
    proof {
        assert(hits_below(p@, hv, 0) =~= Seq::<usize>::empty());
        assert(matches@ =~= hits_below(p@, hv, 0));
    }
    loop
        invariant_except_break
            offset <= hay_len,
            hay_len == max_pos + 1,
            max_pos + p@.len() == hv.len(),
            filesize == hv.len(),
            ai + hay_len <= filesize,
            ai < p@.len(),
            p@[ai as int] == HexPatternByte::Exact(ab),
            h@ == hv,
            matches@ == hits_below(p@, hv, offset as nat),
            matches@.len() < MAX_MATCHES,
        ensures
            matches@ == pattern_hits(p@, hv),
        decreases hay_len - offset,
    {
        let window = &h[ai..ai + hay_len];
        assert(forall|k: int| 0 <= k < hay_len ==> window@[k] == hv[ai + k]);
        match find_byte_from(ab, window, offset) {
            None => {
                proof {
                    assert forall|s: int| offset <= s < hay_len implies !fits_at(p@, hv, s) by {
                        assert(window@[s] == hv[s + ai]);
                    }
                    lemma_hits_below_stable(p@, hv, offset as nat, hay_len as nat);
                    lemma_hits_below_stable(p@, hv, hay_len as nat, hv.len());
                    lemma_hits_below_len(p@, hv, hv.len());
                }
                break;
            },
            Some(f) => {
                proof {
                    assert forall|s: int| offset <= s < f implies !fits_at(p@, hv, s) by {
                        assert(window@[s] == hv[s + ai]);
                    }
                    lemma_hits_below_stable(p@, hv, offset as nat, f as nat);
                }
                let hit = fits(p, h, f);
                if hit {
                    matches.push(f);
                }
                proof {
                    assert(matches@ =~= hits_below(p@, hv, (f + 1) as nat));
                }
                if matches.len() >= MAX_MATCHES {
                    proof {
                        lemma_hits_below_prefix(p@, hv, (f + 1) as nat, hv.len());
                    }
                    break;
                }
                offset = f + 1;
                if offset >= hay_len {
                    proof {
                        lemma_hits_below_stable(p@, hv, hay_len as nat, hv.len());
                        lemma_hits_below_len(p@, hv, hv.len());
                    }
                    break;
                }
            },
        }
    }
    matches
}


/// How many entries of an ascending `m` are at most `t`.
pub open spec fn at_most(m: Seq<usize>, t: usize) -> nat
    decreases m.len(),
{
    if m.len() == 0 {
        0
    } else if m.last() <= t {
        m.len()
    } else {
        at_most(m.drop_last(), t)
    }
}

proof fn lemma_at_most(m: Seq<usize>, t: usize, p: int)
    requires
        ascending(m),
        0 <= p <= m.len(),
        forall|j: int| 0 <= j < p ==> m[j] <= t,
        forall|j: int| p <= j < m.len() ==> m[j] > t,
    ensures
        at_most(m, t) == p,
    decreases m.len(),
{
    if m.len() > 0 && p < m.len() {
        lemma_at_most(m.drop_last(), t, p);
    }
}

/// The hit a search moves to from `cur`: the first one after it going forward,
/// the last one before it going backward, wrapping around the file when `wrap`.
pub open spec fn next_target(m: Seq<usize>, cur: usize, forward: bool, wrap: bool) -> Option<usize> {
    if forward {
        let i = at_most(m, cur) as int;
        if i < m.len() {
            Some(m[i])
        } else if wrap && m.len() > 0 {
            Some(m[0])
        } else {
            None
        }
    } else {
        let i = below(m, cur) as int;
        if i > 0 {
            Some(m[i - 1])
        } else if wrap && m.len() > 0 {
            Some(m.last())
        } else {
            None
        }
    }
}

/// Logged when a result list was cut short.
pub open spec fn truncation_note() -> Seq<char> {
    "Search stopped at the first 100000 matches - narrow the pattern to see the rest"@
}

/// What storing the hits `all` and picking the next one does to the editor.
pub open spec fn search_results_post(a: App, b: App, all: Seq<usize>, r: Option<usize>) -> bool {
    &&& if all.len() == 0 {
        &&& b.hex_view.search.matches@.len() == 0
        &&& b.hex_view.search.match_index is None
        &&& r is None
        &&& b.logs == a.logs
    } else {
        &&& b.hex_view.search.matches@ == all
        &&& r == next_target(
            all,
            a.hex_view.offset,
            a.hex_view.search.direction == SearchDirection::Forward,
            a.config.search_wrap,
        )
        &&& b.hex_view.search.match_index == match r {
            Some(o) => Some(nearest_index(all, o) as usize),
            None => a.hex_view.search.match_index,
        }
        &&& b.logs@ == if all.len() >= MAX_MATCHES {
            a.logs@.push(b.logs@.last())
        } else {
            a.logs@
        }
        &&& all.len() >= MAX_MATCHES ==> b.logs@.last()@ == truncation_note()
    }
    &&& b.hex_view.search.match_len == a.hex_view.search.match_len
    &&& b.hex_view.search.direction == a.hex_view.search.direction
    &&& b.hex_view.same_but_search(a.hex_view)
    &&& b.file_info == a.file_info
    &&& b.config == a.config
    &&& b.reader == a.reader
    &&& b.state == a.state
}

/// Stores the hit list and picks the hit to move to in the search's direction,
/// honouring wrap-around; returns it, or `None` when there is none.
pub fn apply_search_results(app: &mut App, all_matches: Vec<usize>) -> (r: Option<usize>)
    requires
        ascending(all_matches@),
    ensures
        search_results_post(*old(app), *final(app), all_matches@, r),
{
    let ghost all = all_matches@;
    if all_matches.len() == 0 {
        app.hex_view.search.matches = Vec::new();
        app.hex_view.search.match_index = None;
        return None;
    }
    if matches_truncated(all_matches.as_slice()) {
        let note = string_from("Search stopped at the first 100000 matches - narrow the pattern to see the rest");
        app.log(note);
    }
    app.hex_view.search.matches = all_matches;
    let cur = app.hex_view.offset;
    let wrap = app.config.search_wrap;
    let forward = app.hex_view.search.direction == SearchDirection::Forward;
    let target: Option<usize> = {
        let m = app.hex_view.search.matches.as_slice();
        if forward {
            let idx = count_at_most(m, cur);
            proof {
                lemma_at_most(m@, cur, idx as int);
            }
            if idx < m.len() {
                Some(m[idx])
            } else if wrap {
                Some(m[0])
            } else {
                None
            }
        } else {
            let idx = count_below(m, cur);
            proof {
                lemma_below(m@, cur, idx as int);
            }
            if idx > 0 {
                Some(m[idx - 1])
            } else if wrap {
                Some(m[m.len() - 1])
            } else {
                None
            }
        }
    };
    match target {
        Some(o) => {
            update_match_index(app, o);
            Some(o)
        },
        None => None,
    }
}

/// Moves to the next (or previous) hit of the last search without searching
/// again. Nothing happens when there are no hits.
pub fn goto_adjacent_match(app: &mut App, forward: bool)
    requires
        ascending(old(app).hex_view.search.matches@),
    ensures
        old(app).hex_view.search.matches@.len() == 0 ==> *final(app) == *old(app),
        old(app).hex_view.search.matches@.len() > 0 ==> {
            let t = next_target(
                old(app).hex_view.search.matches@,
                old(app).hex_view.offset,
                forward,
                old(app).config.search_wrap,
            );
            &&& final(app).hex_view.search.matches@ == old(app).hex_view.search.matches@
            &&& final(app).hex_view.search.direction == if forward {
                SearchDirection::Forward
            } else {
                SearchDirection::Backward
            }
            &&& final(app).hex_view.search.match_index == match t {
                Some(o) => Some(nearest_index(old(app).hex_view.search.matches@, o) as usize),
                None => old(app).hex_view.search.match_index,
            }
            &&& match t {
                Some(o) => crate::app::view_went(*old(app), *final(app), o),
                None => crate::app::view_stayed(*old(app), *final(app)),
            }
        },
{
    if app.hex_view.search.matches.len() == 0 {
        return;
    }
    app.hex_view.search.direction = if forward { SearchDirection::Forward } else { SearchDirection::Backward };
    let existing = app.hex_view.search.matches.clone();
    assert(existing@ == app.hex_view.search.matches@);
    let ghost mid = *app;
    assert((mid.hex_view.search.direction == SearchDirection::Forward) == forward);
    let r = apply_search_results(app, existing);
    assert(r == next_target(old(app).hex_view.search.matches@, old(app).hex_view.offset, forward, old(app).config.search_wrap));
    match r {
        Some(ofs) => {
            let ghost before = *app;
            app.goto(ofs);
            proof {
                crate::app::lemma_goto_same_view(*old(app), before, ofs);
            }
        },
        None => {},
    }
}

/// Searches the file for `pattern`, stores the hits and their length, and moves
/// to the next hit in the search's direction.
pub fn search_pattern(app: &mut App, pattern: &[HexPatternByte]) -> (r: Option<usize>)
    ensures
        ({
            let mid = App {
                hex_view: crate::hex::hex_view::HexView {
                    search: Search { match_len: pattern@.len() as usize, ..old(app).hex_view.search },
                    ..old(app).hex_view
                },
                ..*old(app)
            };
            search_results_post(mid, *final(app), pattern_hits(pattern@, effective(*old(app))), r)
        }),
{
    let all = find_all_pattern_matches(app, pattern);
    let _len = app.file_info.buffer.len();
    proof {
        lemma_pattern_hits_increasing(pattern@, effective(*app));
    }
    app.hex_view.search.match_len = pattern.len();
    apply_search_results(app, all)
}

proof fn lemma_hits_below_increasing(p: Seq<HexPatternByte>, h: Seq<u8>, n: nat)
    requires
        n <= usize::MAX,
    ensures
        increasing(hits_below(p, h, n)),
    decreases n,
{
    if n > 0 {
        lemma_hits_below_increasing(p, h, (n - 1) as nat);
        lemma_hits_below_len(p, h, (n - 1) as nat);
        let prev = hits_below(p, h, (n - 1) as nat);
        let cur = hits_below(p, h, n);
        assert forall|i: int, j: int| 0 <= i < j < cur.len() implies cur[i] < cur[j] by {
            assert(cur[i] == prev[i]);
            if j < prev.len() {
                assert(cur[j] == prev[j]);
            } else {
                assert(cur[j] == (n - 1) as usize);
                assert(prev[i] < n - 1);
            }
        }
    }
}

pub proof fn lemma_pattern_hits_increasing(p: Seq<HexPatternByte>, h: Seq<u8>)
    requires
        h.len() <= usize::MAX,
    ensures
        increasing(pattern_hits(p, h)),
{
    lemma_hits_below_increasing(p, h, h.len());
}


/// `s` with every `ab` pair removed, scanning left to right (`str::replace`
/// with an empty replacement).
pub open spec fn remove_pair(s: Seq<char>, a: char, b: char) -> Seq<char>
    decreases s.len(),
{
    if s.len() < 2 {
        s
    } else if s[0] == a && s[1] == b {
        remove_pair(s.skip(2), a, b)
    } else {
        seq![s[0]] + remove_pair(s.skip(1), a, b)
    }
}

/// A two-character chunk as a pattern byte: `??` is a wildcard, anything else
/// must parse as hex.
pub open spec fn pair_byte(c: Seq<char>) -> Option<HexPatternByte> {
    if c == "??"@ {
        Some(HexPatternByte::Wildcard)
    } else {
        match crate::text::parse_radix(c, 16, 255) {
            Some(v) => Some(HexPatternByte::Exact(v as u8)),
            None => None,
        }
    }
}

/// `t` read as consecutive two-character chunks.
pub open spec fn pairs_spec(t: Seq<char>) -> Option<Seq<HexPatternByte>>
    decreases t.len(),
{
    if t.len() == 0 {
        Some(seq![])
    } else if t.len() == 1 {
        None
    } else {
        match pair_byte(t.take(2)) {
            None => None,
            Some(b) => match pairs_spec(t.skip(2)) {
                None => None,
                Some(rest) => Some(seq![b] + rest),
            },
        }
    }
}

/// One whitespace-separated token of a search string.
pub open spec fn token_bytes(t: Seq<char>) -> Option<Seq<HexPatternByte>> {
    if t == "?"@ || t == "??"@ {
        Some(seq![HexPatternByte::Wildcard])
    } else if t.len() == 1 {
        match crate::text::parse_radix(t, 16, 255) {
            Some(v) => Some(seq![HexPatternByte::Exact(v as u8)]),
            None => None,
        }
    } else if t.len() % 2 == 0 {
        pairs_spec(t)
    } else {
        None
    }
}

pub open spec fn tokens_bytes(ts: Seq<Seq<char>>) -> Option<Seq<HexPatternByte>>
    decreases ts.len(),
{
    if ts.len() == 0 {
        Some(seq![])
    } else {
        match tokens_bytes(ts.drop_last()) {
            None => None,
            Some(a) => match token_bytes(ts.last()) {
                None => None,
                Some(b) => Some(a + b),
            },
        }
    }
}

pub open spec fn ascii_tokens(ts: Seq<Seq<char>>) -> bool {
    forall|i: int, j: int| 0 <= i < ts.len() && 0 <= j < ts[i].len() ==> (ts[i][j] as u32) < 0x80
}

/// The pattern a search string stands for: `0x`/`0X` prefixes dropped, a single
/// long token read as a run of hex pairs, several tokens read one by one (a
/// lone `?` or `??` being a wildcard). `None` when any part is not hex, or the
/// result is empty.
pub open spec fn hex_pattern_spec(s: Seq<char>) -> Option<Seq<HexPatternByte>> {
    let ts = crate::text::words(remove_pair(remove_pair(s, '0', 'x'), '0', 'X'));
    if !ascii_tokens(ts) {
        None
    } else {
        let r = if ts.len() == 1 && ts[0].len() > 2 {
            if ts[0].len() % 2 == 0 { pairs_spec(ts[0]) } else { None }
        } else {
            tokens_bytes(ts)
        };
        match r {
            Some(p) => if p.len() == 0 { None } else { Some(p) },
            None => None,
        }
    }
}

fn remove_pair_chars(s: &[char], a: char, b: char) -> (r: Vec<char>)
    ensures
        r@ == remove_pair(s@, a, b),
{
    let mut r: Vec<char> = Vec::new();
    let mut i: usize = 0;
    assert(s@.skip(0) =~= s@);
    assert(r@ + remove_pair(s@, a, b) =~= remove_pair(s@, a, b));
    while i < s.len()
        invariant
            i <= s@.len(),
            r@ + remove_pair(s@.skip(i as int), a, b) == remove_pair(s@, a, b),
        decreases s.len() - i,
    {
        let ghost rest = s@.skip(i as int);
        if i + 1 < s.len() && s[i] == a && s[i + 1] == b {
            assert(rest.skip(2) =~= s@.skip(i + 2));
            i = i + 2;
        } else {
            proof {
                if rest.len() >= 2 {
                    assert(rest.skip(1) =~= s@.skip(i + 1));
                    assert(remove_pair(rest, a, b) == seq![rest[0]] + remove_pair(rest.skip(1), a, b));
                } else {
                    assert(rest.len() == 1);
                    assert(remove_pair(s@.skip(i + 1), a, b) =~= Seq::<char>::empty());
                }
            }
            let ghost r0 = r@;
            r.push(s[i]);
            assert(r@ =~= r0 + seq![rest[0]]);
            i = i + 1;
        }
    }
    assert(s@.skip(i as int) =~= Seq::<char>::empty());
    r
}

/// Parses `t` as consecutive hex pairs onto `out`; false (with `out` in an
/// unspecified state) if a chunk is not hex or `t` has odd length.
fn push_pairs(t: &[char], out: &mut Vec<HexPatternByte>) -> (ok: bool)
    ensures
        ok == pairs_spec(t@) is Some,
        ok ==> final(out)@ == old(out)@ + pairs_spec(t@)->0,
{
    let mut i: usize = 0;
    assert(t@.skip(0) =~= t@);
    assert(out@.skip(old(out)@.len() as int) =~= Seq::<HexPatternByte>::empty());
    assert(out@.take(old(out)@.len() as int) =~= old(out)@);
    proof {
        match pairs_spec(t@) {
            Some(rest) => {
                assert(out@.skip(old(out)@.len() as int) + rest =~= rest);
            },
            None => {},
        }
    }
    while i < t.len()
        invariant
            i <= t@.len(),
            i % 2 == 0,
            pairs_spec(t@) == match pairs_spec(t@.skip(i as int)) {
                None => None,
                Some(rest) => Some(out@.skip(old(out)@.len() as int) + rest),
            },
            out@.len() >= old(out)@.len(),
            out@.take(old(out)@.len() as int) == old(out)@,
        decreases t.len() - i,
    {
        let ghost rest = t@.skip(i as int);
        if i + 1 >= t.len() {
            assert(rest.len() == 1);
            return false;
        }
        let chunk = copy_range(t, i, i + 2);
        assert(chunk@ =~= rest.take(2));
        assert(rest.skip(2) =~= t@.skip(i + 2));
        let b = if chunk[0] == '?' && chunk[1] == '?' {
            proof {
                reveal_strlit("??");
                assert(chunk@ =~= "??"@);
            }
            HexPatternByte::Wildcard
        } else {
            proof {
                reveal_strlit("??");
                assert(chunk@ != "??"@);
            }
            match crate::text::parse_hex_u8(chunk.as_slice()) {
                Some(v) => HexPatternByte::Exact(v),
                None => {
                    return false;
                },
            }
        };
        let ghost o0 = out@;
        out.push(b);
        proof {
            assert(out@.skip(old(out)@.len() as int) =~= o0.skip(old(out)@.len() as int).push(b));
            assert(out@.take(old(out)@.len() as int) =~= o0.take(old(out)@.len() as int));
            match pairs_spec(t@.skip(i + 2)) {
                None => {},
                Some(r2) => {
                    assert(o0.skip(old(out)@.len() as int) + (seq![b] + r2) =~= out@.skip(old(out)@.len() as int) + r2);
                },
            }
        }
        i = i + 2;
    }
    assert(t@.skip(i as int) =~= Seq::<char>::empty());
    assert(out@ =~= old(out)@ + out@.skip(old(out)@.len() as int));
    true
}

/// Parses a run of hex characters into pattern bytes, pushing them onto
/// `pattern`; `None` if the run is empty, of odd length, or not hex.
pub fn push_hex_pairs(s: &str, pattern: &mut Vec<HexPatternByte>) -> (r: Option<()>)
    ensures
        r is Some == (s@.len() > 0 && s@.len() % 2 == 0 && pairs_spec(s@) is Some),
        r is Some ==> final(pattern)@ == old(pattern)@ + pairs_spec(s@)->0,
{
    let cs = crate::text::chars_of(s);
    if cs.len() == 0 || cs.len() % 2 != 0 {
        return None;
    }
    if push_pairs(cs.as_slice(), pattern) {
        Some(())
    } else {
        None
    }
}

fn all_ascii(t: &[char]) -> (b: bool)
    ensures
        b == forall|j: int| 0 <= j < t@.len() ==> (t@[j] as u32) < 0x80,
{
    let mut i: usize = 0;
    while i < t.len()
        invariant
            i <= t@.len(),
            forall|j: int| 0 <= j < i ==> (t@[j] as u32) < 0x80,
        decreases t.len() - i,
    {
        if (t[i] as u32) >= 0x80 {
            return false;
        }
        i = i + 1;
    }
    true
}

proof fn lemma_tokens_bytes_prefix_none(ts: Seq<Seq<char>>, i: int)
    requires
        0 <= i <= ts.len(),
        tokens_bytes(ts.take(i)) is None,
    ensures
        tokens_bytes(ts) is None,
    decreases ts.len() - i,
{
    if i < ts.len() {
        assert(ts.take(i + 1).drop_last() =~= ts.take(i));
        lemma_tokens_bytes_prefix_none(ts, i + 1);
    } else {
        assert(ts.take(i) =~= ts);
    }
}

/// The pattern a search string stands for (see [`hex_pattern_spec`]).
pub fn hex_string_to_pattern(hex_string: &str) -> (r: Option<Vec<HexPatternByte>>)
    ensures
        match hex_pattern_spec(hex_string@) {
            Some(p) => r matches Some(v) && v@ == p,
            None => r is None,
        },
{
    let cs = crate::text::chars_of(hex_string);
    let c1 = remove_pair_chars(cs.as_slice(), '0', 'x');
    let cleaned = remove_pair_chars(c1.as_slice(), '0', 'X');
    let tokens = crate::text::split_whitespace(cleaned.as_slice());
    let ghost ts = crate::text::words(cleaned@);
    assert(crate::text::views(tokens@) == ts);
    assert(forall|i: int| 0 <= i < tokens@.len() ==> (#[trigger] tokens@[i])@ == ts[i]);
    let mut k: usize = 0;
    while k < tokens.len()
        invariant
            k <= tokens@.len(),
            ts == crate::text::words(remove_pair(remove_pair(hex_string@, '0', 'x'), '0', 'X')),
            tokens@.len() == ts.len(),
            forall|i: int| 0 <= i < tokens@.len() ==> (#[trigger] tokens@[i])@ == ts[i],
            forall|i: int, j: int| 0 <= i < k && 0 <= j < ts[i].len() ==> (ts[i][j] as u32) < 0x80,
        decreases tokens.len() - k,
    {
        if !all_ascii(tokens[k].as_slice()) {
            proof {
                let j = choose|j: int| 0 <= j < tokens@[k as int]@.len() && !((tokens@[k as int]@[j] as u32) < 0x80);
                assert(!((ts[k as int][j] as u32) < 0x80));
                assert(!ascii_tokens(ts));
                assert(hex_pattern_spec(hex_string@) is None);
            }
            return None;
        }
        k = k + 1;
    }
    let mut pattern: Vec<HexPatternByte> = Vec::new();
    if tokens.len() == 1 && tokens[0].len() > 2 {
        if tokens[0].len() % 2 != 0 {
            return None;
        }
        if !push_pairs(tokens[0].as_slice(), &mut pattern) {
            return None;
        }
        assert(pattern@ =~= pairs_spec(ts[0])->0);
    } else {
        let mut i: usize = 0;
        assert(ts.take(0) =~= Seq::<Seq<char>>::empty());
        while i < tokens.len()
            invariant
                i <= tokens@.len(),
                ts == crate::text::words(remove_pair(remove_pair(hex_string@, '0', 'x'), '0', 'X')),
                ascii_tokens(ts),
                !(ts.len() == 1 && ts[0].len() > 2),
                tokens@.len() == ts.len(),
                forall|j: int| 0 <= j < tokens@.len() ==> (#[trigger] tokens@[j])@ == ts[j],
                tokens_bytes(ts.take(i as int)) == Some(pattern@),
            decreases tokens.len() - i,
        {
            let t = tokens[i].as_slice();
            assert(ts.take(i + 1).drop_last() =~= ts.take(i as int));
            assert(ts.take(i + 1).last() == t@);
            proof {
                reveal_strlit("?");
                reveal_strlit("??");
            }
            let is_wild = (t.len() == 1 && t[0] == '?') || (t.len() == 2 && t[0] == '?' && t[1] == '?');
            if is_wild {
                proof {
                    if t@.len() == 1 {
                        assert(t@ =~= "?"@);
                    } else {
                        assert(t@ =~= "??"@);
                    }
                }
                pattern.push(HexPatternByte::Wildcard);
            } else if t.len() == 1 {
                proof {
                    assert(t@ != "??"@);
                    assert(t@ != "?"@);
                }
                match crate::text::parse_hex_u8(t) {
                    Some(v) => pattern.push(HexPatternByte::Exact(v)),
                    None => {
                        proof {
                            assert(token_bytes(t@) is None);
                            assert(tokens_bytes(ts.take(i + 1)) is None);
                            lemma_tokens_bytes_prefix_none(ts, i + 1);
                        }
                        return None;
                    },
                }
            } else if t.len() % 2 == 0 {
                proof {
                    assert(t@ != "?"@);
                    assert(t@ != "??"@);
                }
                let ghost p0 = pattern@;
                if !push_pairs(t, &mut pattern) {
                    proof {
                        assert(token_bytes(t@) is None);
                        assert(tokens_bytes(ts.take(i + 1)) is None);
                        lemma_tokens_bytes_prefix_none(ts, i + 1);
                    }
                    return None;
                }
                assert(pattern@ == p0 + token_bytes(t@)->0);
            } else {
                proof {
                    assert(t@ != "?"@);
                    assert(t@ != "??"@);
                    assert(token_bytes(t@) is None);
                    assert(tokens_bytes(ts.take(i + 1)) is None);
                    lemma_tokens_bytes_prefix_none(ts, i + 1);
                }
                return None;
            }
            i = i + 1;
        }
        assert(ts.take(i as int) =~= ts);
    }
    if pattern.len() == 0 {
        None
    } else {
        Some(pattern)
    }
}

// ---------------------------------------------------------------------------
// Hex typed as words
// ---------------------------------------------------------------------------

/// Bytes as exact pattern bytes.
pub open spec fn exacts(b: Seq<u8>) -> Seq<HexPatternByte> {
    b.map_values(|x: u8| HexPatternByte::Exact(x))
}

proof fn lemma_no_pair(s: Seq<char>, a: char, b: char)
    requires
        forall|k: int| 0 <= k < s.len() ==> #[trigger] s[k] != b,
    ensures
        remove_pair(s, a, b) == s,
    decreases s.len(),
{
    if s.len() >= 2 {
        assert(s[1] != b);
        let t = s.skip(1);
        assert forall|k: int| 0 <= k < t.len() implies #[trigger] t[k] != b by {
            assert(t[k] == s[k + 1]);
        }
        lemma_no_pair(t, a, b);
        assert(seq![s[0]] + t =~= s);
    }
}

proof fn lemma_pairs_of_hex(t: Seq<char>)
    requires
        t.len() % 2 == 0,
        forall|i: int| 0 <= i < t.len() ==> crate::text::is_hex_digit(#[trigger] t[i]),
    ensures
        pairs_spec(t) == Some(exacts(crate::text::hex_pair_values(t))),
    decreases t.len(),
{
    if t.len() == 0 {
        assert(exacts(crate::text::hex_pair_values(t)) =~= Seq::<HexPatternByte>::empty());
    } else {
        let h = t.take(2);
        let rest = t.skip(2);
        assert forall|i: int| 0 <= i < rest.len() implies crate::text::is_hex_digit(#[trigger] rest[i]) by {
            assert(rest[i] == t[i + 2]);
        }
        lemma_pairs_of_hex(rest);
        crate::text::lemma_hex_digit_char(t[0]);
        crate::text::lemma_hex_digit_char(t[1]);
        assert(h[0] == t[0] && h[1] == t[1]);
        crate::text::lemma_parse_hex_pair(h);
        reveal_strlit("??");
        assert(h != "??"@) by {
            assert("??"@[0] == '?');
        }
        let v = (crate::text::digit_value(t[0], 16)->0 * 16 + crate::text::digit_value(t[1], 16)->0) as nat;
        assert(v <= 255);
        assert(pair_byte(h) == Some(HexPatternByte::Exact(v as u8)));
        assert(exacts(crate::text::hex_pair_values(t)) =~= seq![HexPatternByte::Exact(v as u8)] + exacts(
            crate::text::hex_pair_values(rest),
        ));
    }
}

proof fn lemma_token_of_hex(w: Seq<char>)
    requires
        crate::text::hex_word(w),
    ensures
        token_bytes(w) == Some(exacts(crate::text::hex_pair_values(w))),
        exacts(crate::text::hex_pair_values(w)).len() > 0,
{
    lemma_pairs_of_hex(w);
    crate::text::lemma_hex_digit_char(w[0]);
    reveal_strlit("?");
    reveal_strlit("??");
    assert(w != "?"@) by {
        assert("?"@[0] == '?');
    }
    assert(w != "??"@) by {
        assert("??"@[0] == '?');
    }
}

/// A search string of hex digits reads as the bytes its digit pairs spell,
/// whether typed as one word or as two words separated by a space: the
/// pattern of `w1 w2` is the pattern of `w1` followed by that of `w2`.
pub proof fn law_hex_search_words(w1: Seq<char>, w2: Seq<char>)
    requires
        crate::text::hex_word(w1),
        crate::text::hex_word(w2),
    ensures
        hex_pattern_spec(w1) == Some(exacts(crate::text::hex_pair_values(w1))),
        hex_pattern_spec(w1 + seq![' '] + w2) == Some(
            exacts(crate::text::hex_pair_values(w1) + crate::text::hex_pair_values(w2)),
        ),
{
    assert forall|k: int| 0 <= k < w1.len() implies !crate::text::is_ws(#[trigger] w1[k]) && w1[k] != 'x' && w1[k]
        != 'X' && (w1[k] as u32) < 0x80 by {
        crate::text::lemma_hex_digit_char(w1[k]);
    }
    assert forall|k: int| 0 <= k < w2.len() implies !crate::text::is_ws(#[trigger] w2[k]) && w2[k] != 'x' && w2[k]
        != 'X' && (w2[k] as u32) < 0x80 by {
        crate::text::lemma_hex_digit_char(w2[k]);
    }
    crate::text::lemma_words_plain(w1, w2);
    lemma_token_of_hex(w1);
    lemma_token_of_hex(w2);
    lemma_pairs_of_hex(w1);
    // one word
    lemma_no_pair(w1, '0', 'x');
    lemma_no_pair(w1, '0', 'X');
    let t1 = seq![w1];
    assert(ascii_tokens(t1));
    assert(t1.drop_last() =~= Seq::<Seq<char>>::empty());
    assert(tokens_bytes(t1.drop_last()) == Some(Seq::<HexPatternByte>::empty()));
    assert(t1.last() == w1);
    assert(tokens_bytes(t1) == Some(Seq::<HexPatternByte>::empty() + exacts(crate::text::hex_pair_values(w1))));
    assert(Seq::<HexPatternByte>::empty() + exacts(crate::text::hex_pair_values(w1)) =~= exacts(
        crate::text::hex_pair_values(w1),
    ));
    // two words
    let s = w1 + seq![' '] + w2;
    assert forall|k: int| 0 <= k < s.len() implies #[trigger] s[k] != 'x' by {
        if k < w1.len() {
            assert(s[k] == w1[k]);
        } else if k > w1.len() {
            assert(s[k] == w2[k - w1.len() - 1]);
        }
    }
    assert forall|k: int| 0 <= k < s.len() implies #[trigger] s[k] != 'X' by {
        if k < w1.len() {
            assert(s[k] == w1[k]);
        } else if k > w1.len() {
            assert(s[k] == w2[k - w1.len() - 1]);
        }
    }
    lemma_no_pair(s, '0', 'x');
    lemma_no_pair(s, '0', 'X');
    let ts = seq![w1, w2];
    assert(ascii_tokens(ts)) by {
        assert forall|i: int, j: int| 0 <= i < ts.len() && 0 <= j < ts[i].len() implies (ts[i][j] as u32) < 0x80 by {
            if i == 0 {
                assert(ts[0] == w1);
            } else {
                assert(ts[1] == w2);
            }
        }
    }
    assert(ts.drop_last() =~= t1);
    assert(ts.last() == w2);
    assert(exacts(crate::text::hex_pair_values(w1)) + exacts(crate::text::hex_pair_values(w2)) =~= exacts(
        crate::text::hex_pair_values(w1) + crate::text::hex_pair_values(w2),
    ));
}

proof fn lemma_hex_word_chars(w: Seq<char>)
    requires
        crate::text::hex_word(w),
    ensures
        forall|k: int| 0 <= k < w.len() ==> !crate::text::is_ws(#[trigger] w[k]) && w[k] != 'x' && w[k] != 'X' && (w[k]
            as u32) < 0x80,
{
    assert forall|k: int| 0 <= k < w.len() implies !crate::text::is_ws(#[trigger] w[k]) && w[k] != 'x' && w[k] != 'X'
        && (w[k] as u32) < 0x80 by {
        crate::text::lemma_hex_digit_char(w[k]);
    }
}

/// A `??` between two hex words matches any one byte, and a `0x` before a
/// hex word changes nothing: `w1 ?? w2` is the pattern of `w1`, a wildcard,
/// then the pattern of `w2`, and `0xw1` is the pattern of `w1`.
pub proof fn law_hex_search_wildcard_and_prefix(w1: Seq<char>, w2: Seq<char>)
    requires
        crate::text::hex_word(w1),
        crate::text::hex_word(w2),
    ensures
        hex_pattern_spec(w1 + seq![' ', '?', '?', ' '] + w2) == Some(
            exacts(crate::text::hex_pair_values(w1)) + seq![HexPatternByte::Wildcard] + exacts(
                crate::text::hex_pair_values(w2),
            ),
        ),
        hex_pattern_spec(seq!['0', 'x'] + w1) == hex_pattern_spec(w1),
{
    lemma_hex_word_chars(w1);
    lemma_hex_word_chars(w2);
    lemma_token_of_hex(w1);
    lemma_token_of_hex(w2);
    law_hex_search_words(w1, w2);
    // the wildcard between the words
    let q = seq!['?', '?'];
    let s = w1 + seq![' ', '?', '?', ' '] + w2;
    let tail = q + seq![' '] + w2;
    assert(s =~= w1 + seq![' '] + tail);
    crate::text::lemma_words_front(w1, tail);
    assert forall|k: int| 0 <= k < q.len() implies !crate::text::is_ws(#[trigger] q[k]) by {}
    crate::text::lemma_words_front(q, w2);
    crate::text::lemma_words_plain(w2, w2);
    let ts = seq![w1, q, w2];
    assert(crate::text::words(s) =~= ts);
    assert forall|k: int| 0 <= k < s.len() implies #[trigger] s[k] != 'x' && s[k] != 'X' by {
        if k < w1.len() {
            assert(s[k] == w1[k]);
        } else if k >= w1.len() + 4 {
            assert(s[k] == w2[k - w1.len() - 4]);
        }
    }
    lemma_no_pair(s, '0', 'x');
    lemma_no_pair(s, '0', 'X');
    assert(ascii_tokens(ts)) by {
        assert forall|i: int, j: int| 0 <= i < ts.len() && 0 <= j < ts[i].len() implies (ts[i][j] as u32) < 0x80 by {
            if i == 0 {
                assert(ts[0] == w1);
            } else if i == 2 {
                assert(ts[2] == w2);
            }
        }
    }
    reveal_strlit("??");
    assert(q =~= "??"@);
    assert(token_bytes(q) == Some(seq![HexPatternByte::Wildcard]));
    let t1 = seq![w1];
    assert(t1.drop_last() =~= Seq::<Seq<char>>::empty());
    assert(tokens_bytes(t1.drop_last()) == Some(Seq::<HexPatternByte>::empty()));
    assert(t1.last() == w1);
    let t2 = seq![w1, q];
    assert(t2.drop_last() =~= t1);
    assert(t2.last() == q);
    assert(ts.drop_last() =~= t2);
    assert(ts.last() == w2);
    assert(Seq::<HexPatternByte>::empty() + exacts(crate::text::hex_pair_values(w1)) =~= exacts(
        crate::text::hex_pair_values(w1),
    ));
    let e1 = exacts(crate::text::hex_pair_values(w1));
    let e2 = exacts(crate::text::hex_pair_values(w2));
    assert(tokens_bytes(t1) == Some(e1));
    assert(tokens_bytes(t2) == Some(e1 + seq![HexPatternByte::Wildcard]));
    assert(tokens_bytes(ts) == Some(e1 + seq![HexPatternByte::Wildcard] + e2));
    assert(remove_pair(remove_pair(s, '0', 'x'), '0', 'X') == s);
    assert(crate::text::words(s) == ts);
    assert((e1 + seq![HexPatternByte::Wildcard] + e2).len() > 0);
    // the prefix
    let p = seq!['0', 'x'] + w1;
    assert(p.skip(2) =~= w1);
    assert(remove_pair(p, '0', 'x') == remove_pair(p.skip(2), '0', 'x'));
    lemma_no_pair(w1, '0', 'x');
}

/// A lone hex digit is the byte it spells, and a word of an odd number (three
/// or more) of hex digits is refused: it cannot be read as pairs.
pub proof fn law_hex_search_odd_words(w: Seq<char>)
    requires
        w.len() % 2 == 1,
        forall|i: int| 0 <= i < w.len() ==> crate::text::is_hex_digit(#[trigger] w[i]),
    ensures
        w.len() == 1 ==> hex_pattern_spec(w) == Some(seq![HexPatternByte::Exact(crate::text::digit_value(w[0], 16)->0 as u8)]),
        w.len() > 1 ==> hex_pattern_spec(w) is None,
{
    assert forall|k: int| 0 <= k < w.len() implies !crate::text::is_ws(#[trigger] w[k]) && w[k] != 'x' && w[k] != 'X' && (w[k]
        as u32) < 0x80 by {
        crate::text::lemma_hex_digit_char(w[k]);
    }
    crate::text::lemma_words_plain(w, w);
    lemma_no_pair(w, '0', 'x');
    lemma_no_pair(w, '0', 'X');
    let ts = seq![w];
    assert(ascii_tokens(ts)) by {
        assert forall|i: int, j: int| 0 <= i < ts.len() && 0 <= j < ts[i].len() implies (ts[i][j] as u32) < 0x80 by {
            assert(ts[0] == w);
        }
    }
    if w.len() == 1 {
        reveal_strlit("?");
        reveal_strlit("??");
        assert(w != "?"@) by {
            assert("?"@[0] == '?');
        }
        assert(w != "??"@);
        assert(w.drop_last() =~= Seq::<char>::empty());
        assert(crate::text::digits_value(w.drop_last(), 16) == Some(0nat));
        assert(w.last() == w[0]);
        assert(crate::text::digits_value(w, 16) == Some(crate::text::digit_value(w[0], 16)->0 as nat));
        assert(crate::text::parse_radix(w, 16, 255) == Some(crate::text::digit_value(w[0], 16)->0 as nat));
        assert(ts.drop_last() =~= Seq::<Seq<char>>::empty());
        assert(tokens_bytes(ts.drop_last()) == Some(Seq::<HexPatternByte>::empty()));
        assert(ts.last() == w);
        assert(Seq::<HexPatternByte>::empty() + seq![HexPatternByte::Exact(crate::text::digit_value(w[0], 16)->0 as u8)]
            =~= seq![HexPatternByte::Exact(crate::text::digit_value(w[0], 16)->0 as u8)]);
    }
}

} // verus!
