//! Hex pattern search & replace with wildcard bytes (`??`).
//!
//! Replacing is always byte for byte: the search and replace patterns have the
//! same length, so no byte is ever inserted or removed and every offset in the
//! file stays where it was. `??` in the search pattern matches any byte; `??` in
//! the replace pattern leaves the byte under it untouched. Candidate positions are
//! found with `memchr` on the rarest literal byte of the search pattern.
use vstd::prelude::*;
use vstd::slice::SliceAdditionalExecFns;

use crate::text::{
    chars_eq, chars_of, contains_whitespace, is_ws, parse_hex_u8, parse_radix,
    split_whitespace, string_of, views, words,
};

verus! {

/// One slot of a hex pattern: a fixed byte, or a wildcard.
#[derive(Debug, Clone, Copy, PartialEq, Eq, Structural)]
pub enum PatternByte {
    Literal(u8),
    Wildcard,
}

/// Whether the slot `p` accepts the byte `b`.
pub open spec fn slot_accepts(p: PatternByte, b: u8) -> bool {
    match p {
        PatternByte::Literal(v) => v == b,
        PatternByte::Wildcard => true,
    }
}

/// Whether `p` matches `h` starting at `start`.
pub open spec fn matches_at_spec(p: Seq<PatternByte>, h: Seq<u8>, start: int) -> bool {
    &&& 0 <= start
    &&& start + p.len() <= h.len()
    &&& forall|i: int| 0 <= i < p.len() ==> slot_accepts(#[trigger] p[i], h[start + i])
}

/// The byte a replace slot leaves at a position that held `old`.
pub open spec fn replaced_byte(r: PatternByte, old: u8) -> u8 {
    match r {
        PatternByte::Literal(v) => v,
        PatternByte::Wildcard => old,
    }
}

/// `h` with `r` written at `start`, wildcards leaving bytes alone.
pub open spec fn apply_at(h: Seq<u8>, start: int, r: Seq<PatternByte>) -> Seq<u8> {
    Seq::new(
        h.len(),
        |k: int|
            if start <= k < start + r.len() {
                replaced_byte(r[k - start], h[k])
            } else {
                h[k]
            },
    )
}

/// `h` with `r` written at every start in `starts`, in order.
pub open spec fn apply_all(h: Seq<u8>, starts: Seq<int>, r: Seq<PatternByte>) -> Seq<u8>
    decreases starts.len(),
{
    if starts.len() == 0 {
        h
    } else {
        apply_at(apply_all(h, starts.drop_last(), r), starts.last(), r)
    }
}

/// Non-overlapping matches of `p` in `h` at or after `pos`, taken greedily from
/// the left.
pub open spec fn greedy_from(p: Seq<PatternByte>, h: Seq<u8>, pos: int) -> Seq<int>
    decreases h.len() - pos,
{
    if p.len() == 0 || pos < 0 || pos + p.len() > h.len() {
        seq![]
    } else if matches_at_spec(p, h, pos) {
        seq![pos] + greedy_from(p, h, pos + p.len())
    } else {
        greedy_from(p, h, pos + 1)
    }
}

/// Every match of the left-to-right, non-overlapping scan of `h` for `p`.
pub open spec fn all_matches(p: Seq<PatternByte>, h: Seq<u8>) -> Seq<int> {
    greedy_from(p, h, 0)
}

/// Why a pattern was refused.
#[derive(Debug, PartialEq, Eq)]
pub enum PatternError {
    EmptyPattern,
    InvalidToken(String),
    LengthMismatch { search_len: usize, replace_len: usize },
}

/// The slot a token stands for: `??` or a hex byte.
pub open spec fn token_slot(t: Seq<char>) -> Option<PatternByte> {
    if t == seq!['?', '?'] {
        Some(PatternByte::Wildcard)
    } else {
        match parse_radix(t, 16, 255) {
            Some(v) => Some(PatternByte::Literal(v as u8)),
            None => None,
        }
    }
}

/// The slots of `toks`, or the first token that is neither `??` nor a byte.
pub open spec fn tokens_to_slots(toks: Seq<Seq<char>>) -> Result<Seq<PatternByte>, Seq<char>>
    decreases toks.len(),
{
    if toks.len() == 0 {
        Ok(seq![])
    } else {
        match token_slot(toks[0]) {
            None => Err(toks[0]),
            Some(b) => match tokens_to_slots(toks.drop_first()) {
                Ok(rest) => Ok(seq![b] + rest),
                Err(t) => Err(t),
            },
        }
    }
}

/// `s` cut into two-character tokens.
pub open spec fn pairs(s: Seq<char>) -> Seq<Seq<char>> {
    Seq::new(s.len() / 2, |i: int| s.subrange(2 * i, 2 * i + 2))
}

/// What parsing a pattern text gives.
pub enum PatternParse {
    Slots(Seq<PatternByte>),
    Empty,
    Invalid(Seq<char>),
}

/// `"DE AD ?? EF"` or, without spaces, `"DEAD??EF"` (then the length must be even).
pub open spec fn parse_spec(input: Seq<char>) -> PatternParse {
    if exists|i: int| 0 <= i < input.len() && is_ws(#[trigger] input[i]) {
        let toks = words(input);
        if toks.len() == 0 {
            PatternParse::Empty
        } else {
            match tokens_to_slots(toks) {
                Ok(b) => PatternParse::Slots(b),
                Err(t) => PatternParse::Invalid(t),
            }
        }
    } else if input.len() == 0 || input.len() % 2 != 0 {
        PatternParse::Invalid(input)
    } else {
        match tokens_to_slots(pairs(input)) {
            Ok(b) => PatternParse::Slots(b),
            Err(t) => PatternParse::Invalid(t),
        }
    }
}

/// Slot `i` lies inside one of `runs`.
pub open spec fn covered(runs: Seq<(usize, usize)>, i: int) -> bool {
    exists|r: int| #![trigger runs[r]] 0 <= r < runs.len() && runs[r].0 <= i < runs[r].1
}

/// A parsed hex pattern, e.g. "DE AD ?? EF" -> [DE, AD, *, EF].
#[derive(Debug)]
pub struct HexPattern {
    bytes: Vec<PatternByte>,
    /// The literal value where `bytes[i]` is a literal, `0` where it is a wildcard.
    flat: Vec<u8>,
    /// Contiguous ranges of literal slots, so matching and replacing work run by run.
    literal_runs: Vec<(usize, usize)>,
}

impl View for HexPattern {
    type V = Seq<PatternByte>;

    closed spec fn view(&self) -> Seq<PatternByte> {
        self.bytes@
    }
}

impl HexPattern {
    #[verifier::type_invariant]
    closed spec fn wf(self) -> bool {
        &&& self.flat@.len() == self.bytes@.len()
        &&& forall|i: int|
            0 <= i < self.bytes@.len() ==> (#[trigger] self.bytes@[i] matches PatternByte::Literal(
                v,
            ) ==> self.flat@[i] == v)
        &&& forall|r: int|
            0 <= r < self.literal_runs@.len() ==> {
                let run = #[trigger] self.literal_runs@[r];
                &&& run.0 < run.1 <= self.bytes@.len()
                &&& forall|j: int|
                    run.0 <= j < run.1 ==> #[trigger] self.bytes@[j] is Literal
            }
        &&& forall|i: int|
            0 <= i < self.bytes@.len() && #[trigger] self.bytes@[i] is Literal ==> covered(
                self.literal_runs@,
                i,
            )
    }

    /// Builds the flat byte view and the literal runs of `bytes`.
    fn from_slots(bytes: Vec<PatternByte>) -> (p: Self)
        ensures
            p@ == bytes@,
    {
        let mut flat: Vec<u8> = Vec::new();
        let mut runs: Vec<(usize, usize)> = Vec::new();
        let mut run_start: Option<usize> = None;
        let n = bytes.len();
        let mut i: usize = 0;
        while i < n
            invariant
                n == bytes@.len(),
                i <= n,
                flat@.len() == i,
                forall|k: int|
                    0 <= k < i ==> (#[trigger] bytes@[k] matches PatternByte::Literal(v)
                        ==> flat@[k] == v),
                forall|r: int|
                    0 <= r < runs@.len() ==> {
                        let run = #[trigger] runs@[r];
                        &&& run.0 < run.1 <= i
                        &&& forall|j: int| run.0 <= j < run.1 ==> #[trigger] bytes@[j] is Literal
                    },
                run_start matches Some(s) ==> (s < i && forall|j: int|
                    s <= j < i ==> #[trigger] bytes@[j] is Literal),
                forall|k: int|
                    0 <= k < i && #[trigger] bytes@[k] is Literal ==> (covered(runs@, k) || (
                    run_start matches Some(s) && s <= k)),
            decreases n - i,
        {
            match bytes[i] {
                PatternByte::Literal(v) => {
                    flat.push(v);
                    if run_start.is_none() {
                        run_start = Some(i);
                    }
                },
                PatternByte::Wildcard => {
                    flat.push(0);
                    match run_start {
                        Some(s) => {
                            let ghost old_runs = runs@;
                            runs.push((s, i));
                            run_start = None;
                            assert forall|k: int|
                                0 <= k < i + 1 && #[trigger] bytes@[k] is Literal implies covered(
                                runs@,
                                k,
                            ) by {
                                if s <= k {
                                    assert(runs@[old_runs.len() as int] == (s, i));
                                } else {
                                    let r = choose|r: int| #![trigger old_runs[r]]
                                        0 <= r < old_runs.len() && old_runs[r].0 <= k
                                            < old_runs[r].1;
                                    assert(runs@[r] == old_runs[r]);
                                }
                            }
                        },
                        None => {},
                    }
                },
            }
            i = i + 1;
        }
        match run_start {
            Some(s) => {
                let ghost old_runs = runs@;
                runs.push((s, n));
                assert forall|k: int|
                    0 <= k < n && #[trigger] bytes@[k] is Literal implies covered(runs@, k) by {
                    if s <= k {
                        assert(runs@[old_runs.len() as int] == (s, n));
                    } else {
                        let r = choose|r: int| #![trigger old_runs[r]]
                            0 <= r < old_runs.len() && old_runs[r].0 <= k < old_runs[r].1;
                        assert(runs@[r] == old_runs[r]);
                    }
                }
            },
            None => {},
        }
        HexPattern { bytes, flat, literal_runs: runs }
    }

    /// Parses a pattern like `"DE AD ?? EF"`, or the compact `"DEAD??EF"` (spaces are
    /// optional, but without them the text must have an even number of characters).
    pub fn parse(input: &str) -> (r: Result<Self, PatternError>)
        ensures
            match parse_spec(input@) {
                PatternParse::Slots(b) => r matches Ok(p) && p@ == b,
                PatternParse::Empty => r matches Err(PatternError::EmptyPattern),
                PatternParse::Invalid(t) => r matches Err(PatternError::InvalidToken(s)) && s@
                    == t,
            },
    {
        let chars = chars_of(input);
        let tokens: Vec<Vec<char>>;
        if contains_whitespace(chars.as_slice()) {
            tokens = split_whitespace(chars.as_slice());
            if tokens.len() == 0 {
                return Err(PatternError::EmptyPattern);
            }
        } else {
            if chars.len() == 0 || chars.len() % 2 != 0 {
                return Err(PatternError::InvalidToken(string_of(chars.as_slice())));
            }
            tokens = pair_tokens(chars.as_slice());
        }
        match slots_of_tokens(&tokens) {
            Ok(bytes) => Ok(Self::from_slots(bytes)),
            Err(i) => {
                let bad = string_of(tokens[i].as_slice());
                Err(PatternError::InvalidToken(bad))
            },
        }
    }

    pub fn len(&self) -> (n: usize)
        ensures
            n == self@.len(),
    {
        self.bytes.len()
    }

    pub fn is_empty(&self) -> (b: bool)
        ensures
            b == (self@.len() == 0),
    {
        self.bytes.len() == 0
    }

    pub fn as_slice(&self) -> (s: &[PatternByte])
        ensures
            s@ == self@,
    {
        self.bytes.as_slice()
    }
}

/// The two-character tokens of a text without spaces.
fn pair_tokens(cs: &[char]) -> (out: Vec<Vec<char>>)
    requires
        cs@.len() % 2 == 0,
    ensures
        views(out@) == pairs(cs@),
{
    let mut out: Vec<Vec<char>> = Vec::new();
    let mut i: usize = 0;
    while i + 1 < cs.len()
        invariant
            cs@.len() % 2 == 0,
            i % 2 == 0,
            i <= cs.len(),
            views(out@) == pairs(cs@).take(i as int / 2),
        decreases cs.len() - i,
    {
        let mut t: Vec<char> = Vec::new();
        t.push(cs[i]);
        t.push(cs[i + 1]);
        let ghost before = views(out@);
        out.push(t);
        assert(t@ =~= cs@.subrange(i as int, i + 2));
        assert(views(out@) =~= before.push(t@));
        assert(pairs(cs@).take((i + 2) as int / 2) =~= pairs(cs@).take(i as int / 2).push(t@));
        i = i + 2;
    }
    assert(pairs(cs@).take(i as int / 2) =~= pairs(cs@));
    out
}

/// The slots of `tokens`, or the index of the first token that is not one.
fn slots_of_tokens(tokens: &Vec<Vec<char>>) -> (r: Result<Vec<PatternByte>, usize>)
    ensures
        match tokens_to_slots(views(tokens@)) {
            Ok(b) => r matches Ok(v) && v@ == b,
            Err(t) => r matches Err(i) && i < tokens@.len() && tokens@[i as int]@ == t,
        },
{
    let mut out: Vec<PatternByte> = Vec::new();
    let mut i: usize = 0;
    let ghost all = views(tokens@);
    proof {
        assert(all.skip(0) =~= all);
        match tokens_to_slots(all) {
            Ok(rest) => {
                assert(out@ + rest =~= rest);
            },
            Err(_) => {},
        }
    }
    while i < tokens.len()
        invariant
            i <= tokens@.len(),
            all == views(tokens@),
            tokens_to_slots(all) == match tokens_to_slots(all.skip(i as int)) {
                Ok(rest) => Ok(out@ + rest),
                Err(t) => Err::<Seq<PatternByte>, Seq<char>>(t),
            },
        decreases tokens@.len() - i,
    {
        let tok = &tokens[i];
        let ghost rest = all.skip(i as int);
        assert(rest[0] == tok@);
        assert(rest.drop_first() =~= all.skip(i + 1));
        let wild: Vec<char> = vec!['?', '?'];
        assert(wild@ =~= seq!['?', '?']);
        let slot = if chars_eq(tok.as_slice(), wild.as_slice()) {
            PatternByte::Wildcard
        } else {
            match parse_hex_u8(tok.as_slice()) {
                Some(v) => PatternByte::Literal(v),
                None => {
                    return Err(i);
                },
            }
        };
        assert(token_slot(tok@) == Some(slot));
        let ghost before = out@;
        out.push(slot);
        proof {
            match tokens_to_slots(all.skip(i + 1)) {
                Ok(r2) => {
                    assert(before + (seq![slot] + r2) =~= out@ + r2);
                },
                Err(_) => {},
            }
        }
        i = i + 1;
    }
    assert(all.skip(i as int) =~= seq![]);
    assert(out@ + seq![] =~= out@);
    Ok(out)
}

/// Cap on how much of the hint is sampled to pick the anchor byte.
pub const ANCHOR_HINT_SAMPLE_CAP: usize = 1048576;

/// Occurrences of `b` in `s`.
pub open spec fn count_byte(s: Seq<u8>, b: u8) -> nat
    decreases s.len(),
{
    if s.len() == 0 {
        0
    } else {
        count_byte(s.drop_last(), b) + if s.last() == b {
            1nat
        } else {
            0nat
        }
    }
}

/// The part of the hint that anchor selection looks at.
pub open spec fn hint_sample(hint: Seq<u8>) -> Seq<u8> {
    if hint.len() > ANCHOR_HINT_SAMPLE_CAP {
        hint.take(ANCHOR_HINT_SAMPLE_CAP as int)
    } else {
        hint
    }
}

/// `(i, b)` is the literal slot whose byte is rarest in `sample`, the first such
/// slot on ties.
pub open spec fn is_rarest_literal(p: Seq<PatternByte>, sample: Seq<u8>, i: int, b: u8) -> bool {
    &&& 0 <= i < p.len()
    &&& p[i] == PatternByte::Literal(b)
    &&& forall|j: int|
        0 <= j < p.len() && #[trigger] p[j] is Literal ==> count_byte(sample, b) <= count_byte(
            sample,
            p[j]->Literal_0,
        )
    &&& forall|j: int|
        0 <= j < i && #[trigger] p[j] is Literal ==> count_byte(sample, b) < count_byte(
            sample,
            p[j]->Literal_0,
        )
}

/// How many slots of `p` are literals.
pub open spec fn literal_count(p: Seq<PatternByte>) -> nat
    decreases p.len(),
{
    if p.len() == 0 {
        0
    } else {
        literal_count(p.drop_last()) + if p.last() is Literal {
            1nat
        } else {
            0nat
        }
    }
}

/// The anchor `memchr` jumps on: `None` only for an all-wildcard pattern, the sole
/// literal when there is one, otherwise the rarest literal byte of the sample.
pub open spec fn anchor_ok(p: Seq<PatternByte>, hint: Seq<u8>, a: Option<(usize, u8)>) -> bool {
    let n_lits = literal_count(p);
    match a {
        None => forall|j: int| 0 <= j < p.len() ==> #[trigger] p[j] is Wildcard,
        Some((i, b)) => if n_lits <= 1 {
            &&& i < p.len()
            &&& p[i as int] == PatternByte::Literal(b)
        } else {
            is_rarest_literal(p, hint_sample(hint), i as int, b)
        },
    }
}

proof fn lemma_count_byte_bound(s: Seq<u8>, b: u8)
    ensures
        count_byte(s, b) <= s.len(),
    decreases s.len(),
{
    if s.len() > 0 {
        lemma_count_byte_bound(s.drop_last(), b);
    }
}

/// Counts every byte value in `sample`.
fn byte_frequencies(sample: &[u8]) -> (freq: Vec<u64>)
    requires
        sample@.len() <= ANCHOR_HINT_SAMPLE_CAP,
    ensures
        freq@.len() == 256,
        forall|v: int| 0 <= v < 256 ==> #[trigger] freq@[v] == count_byte(sample@, v as u8),
{
    let mut freq: Vec<u64> = vec![0u64; 256];
    let mut i: usize = 0;
    while i < sample.len()
        invariant
            i <= sample@.len(),
            sample@.len() <= ANCHOR_HINT_SAMPLE_CAP,
            freq@.len() == 256,
            forall|v: int|
                0 <= v < 256 ==> #[trigger] freq@[v] == count_byte(
                    sample@.take(i as int),
                    v as u8,
                ),
        decreases sample@.len() - i,
    {
        let b = sample[i];
        let ghost now = sample@.take(i + 1);
        assert(now.drop_last() =~= sample@.take(i as int));
        assert(now.last() == b);
        proof {
            lemma_count_byte_bound(sample@.take(i as int), b);
        }
        let c = freq[b as usize];
        freq.set(b as usize, c + 1);
        i = i + 1;
        assert forall|v: int| 0 <= v < 256 implies #[trigger] freq@[v] == count_byte(
            sample@.take(i as int),
            v as u8,
        ) by {
            assert((v as u8) as int == v);
        }
    }
    assert(sample@.take(sample@.len() as int) =~= sample@);
    freq
}

/// Picks the literal byte rarest in `hint` (first such slot on ties) as the
/// `memchr` anchor; the sole literal without counting when there is at most one.
fn pick_anchor(pattern: &HexPattern, hint: &[u8]) -> (a: Option<(usize, u8)>)
    ensures
        anchor_ok(pattern@, hint@, a),
{
    let slots = pattern.as_slice();
    let ghost p = slots@;
    // Literal positions, in pattern order.
    let mut first: Option<(usize, u8)> = None;
    let mut count: usize = 0;
    let mut i: usize = 0;
    while i < slots.len()
        invariant
            p == slots@,
            i <= slots@.len(),
            count == literal_count(p.take(i as int)),
            count <= i,
            count == 0 <==> first is None,
            count == 0 ==> forall|j: int| 0 <= j < i ==> #[trigger] p[j] is Wildcard,
            first matches Some((fi, fb)) ==> (fi < i && p[fi as int] == PatternByte::Literal(
                fb,
            )),
        decreases slots@.len() - i,
    {
        proof {
            assert(p.take(i + 1).drop_last() =~= p.take(i as int));
        }
        match slots[i] {
            PatternByte::Literal(b) => {
                if first.is_none() {
                    first = Some((i, b));
                }
                count = count + 1;
            },
            PatternByte::Wildcard => {},
        }
        i = i + 1;
    }
    assert(p.take(i as int) =~= p);
    if count <= 1 {
        return first;
    }
    let sample = if hint.len() > ANCHOR_HINT_SAMPLE_CAP {
        &hint[0..ANCHOR_HINT_SAMPLE_CAP]
    } else {
        hint
    };
    assert(sample@ == hint_sample(hint@));
    let freq = byte_frequencies(sample);
    let mut best: Option<(usize, u8)> = None;
    let mut j: usize = 0;
    while j < slots.len()
        invariant
            p == slots@,
            j <= slots@.len(),
            freq@.len() == 256,
            forall|v: int| 0 <= v < 256 ==> #[trigger] freq@[v] == count_byte(sample@, v as u8),
            best is None ==> forall|k: int| 0 <= k < j ==> #[trigger] p[k] is Wildcard,
            best matches Some((bi, bb)) ==> {
                &&& bi < j
                &&& p[bi as int] == PatternByte::Literal(bb)
                &&& forall|k: int|
                    0 <= k < j && #[trigger] p[k] is Literal ==> count_byte(sample@, bb)
                        <= count_byte(sample@, p[k]->Literal_0)
                &&& forall|k: int|
                    0 <= k < bi && #[trigger] p[k] is Literal ==> count_byte(sample@, bb)
                        < count_byte(sample@, p[k]->Literal_0)
            },
        decreases slots@.len() - j,
    {
        match slots[j] {
            PatternByte::Literal(b) => {
                let c = freq[b as usize];
                assert(c == count_byte(sample@, b)) by {
                    assert((b as usize) as int == b as int);
                }
                match best {
                    None => {
                        best = Some((j, b));
                    },
                    Some((_bi, bb)) => {
                        let bc = freq[bb as usize];
                        assert(bc == count_byte(sample@, bb)) by {
                            assert((bb as usize) as int == bb as int);
                        }
                        if c < bc {
                            best = Some((j, b));
                        }
                    },
                }
            },
            PatternByte::Wildcard => {},
        }
        j = j + 1;
    }
    best
}

/// Whether `pattern` matches `window`, compared run by run.
fn matches_at(pattern: &HexPattern, window: &[u8], start: usize) -> (b: bool)
    requires
        start + pattern@.len() <= window@.len(),
    ensures
        b == matches_at_spec(pattern@, window@, start as int),
{
    proof {
        use_type_invariant(pattern);
    }
    let runs = &pattern.literal_runs;
    let mut r: usize = 0;
    while r < runs.len()
        invariant
            start + pattern@.len() <= window@.len(),
            r <= runs@.len(),
            runs@ == pattern.literal_runs@,
            pattern.wf(),
            forall|q: int, j: int|
                #![trigger runs@[q], pattern.flat@[j]]
                0 <= q < r && runs@[q].0 <= j < runs@[q].1 ==> pattern.flat@[j] == window@[start
                    + j],
        decreases runs@.len() - r,
    {
        let (s, e) = runs[r];
        assert(s < e <= pattern@.len()) by {
            assert(runs@[r as int] == (s, e));
        }
        let mut j = s;
        while j < e
            invariant
                start + pattern@.len() <= window@.len(),
                s <= j <= e,
                e <= pattern@.len(),
                start + e <= window.len(),
                r < runs@.len(),
                runs@ == pattern.literal_runs@,
                runs@[r as int] == (s, e),
                pattern.wf(),
                pattern.flat@.len() == pattern@.len(),
                forall|k: int| s <= k < j ==> pattern.flat@[k] == window@[start + k],
            decreases e - j,
        {
            if pattern.flat[j] != window[start + j] {
                proof {
                    assert(pattern@[j as int] is Literal) by {
                        assert(runs@[r as int] == (s, e));
                    }
                    assert(!slot_accepts(pattern@[j as int], window@[start + j]));
                }
                return false;
            }
            j = j + 1;
        }
        r = r + 1;
    }
    assert forall|i: int| 0 <= i < pattern@.len() implies slot_accepts(
        #[trigger] pattern@[i],
        window@[start + i],
    ) by {
        if pattern@[i] is Literal {
            let q = choose|q: int| #![trigger runs@[q]]
                0 <= q < runs@.len() && runs@[q].0 <= i < runs@[q].1;
        }
    }
    true
}

/// Writes `replace` over `h[start..]`, leaving the bytes under wildcards alone.
fn apply_replace(replace: &HexPattern, h: &mut [u8], start: usize)
    requires
        start + replace@.len() <= old(h)@.len(),
    ensures
        final(h)@ == apply_at(old(h)@, start as int, replace@),
{
    proof {
        use_type_invariant(replace);
    }
    let runs = &replace.literal_runs;
    let mut r: usize = 0;
    while r < runs.len()
        invariant
            start + replace@.len() <= old(h)@.len(),
            h@.len() == old(h)@.len(),
            r <= runs@.len(),
            runs@ == replace.literal_runs@,
            replace.wf(),
            forall|k: int|
                0 <= k < h@.len() ==> #[trigger] h@[k] == if start <= k < start + replace@.len()
                    && exists|q: int| #![trigger runs@[q]]
                    0 <= q < r && runs@[q].0 <= k - start < runs@[q].1 {
                    replaced_byte(replace@[k - start], old(h)@[k])
                } else {
                    old(h)@[k]
                },
        decreases runs@.len() - r,
    {
        let (s, e) = runs[r];
        assert(s < e <= replace@.len()) by {
            assert(runs@[r as int] == (s, e));
        }
        let ghost before = h@;
        let mut j = s;
        while j < e
            invariant
                start + replace@.len() <= old(h)@.len(),
                h@.len() == old(h)@.len(),
                s <= j <= e,
                e <= replace@.len(),
                start + e <= h.len(),
                before.len() == h@.len(),
                replace.flat@.len() == replace@.len(),
                forall|k: int|
                    0 <= k < h@.len() ==> #[trigger] h@[k] == if start + s <= k < start + j {
                        replace.flat@[k - start]
                    } else {
                        before[k]
                    },
            decreases e - j,
        {
            let v = replace.flat[j];
            h[start + j] = v;
            j = j + 1;
        }
        assert forall|k: int| 0 <= k < h@.len() implies #[trigger] h@[k] == if start <= k < start
            + replace@.len() && exists|q: int| #![trigger runs@[q]]
            0 <= q < r + 1 && runs@[q].0 <= k - start < runs@[q].1 {
            replaced_byte(replace@[k - start], old(h)@[k])
        } else {
            old(h)@[k]
        } by {
            if start + s <= k < start + e {
                assert(runs@[r as int] == (s, e));
                assert(replace@[k - start] is Literal);
                assert(0 <= r < r + 1 && runs@[r as int].0 <= k - start < runs@[r as int].1);
            } else {
                if start <= k < start + replace@.len() && exists|q: int| #![trigger runs@[q]]
                    0 <= q < r + 1 && runs@[q].0 <= k - start < runs@[q].1 {
                    let q = choose|q: int| #![trigger runs@[q]]
                        0 <= q < r + 1 && runs@[q].0 <= k - start < runs@[q].1;
                    assert(q != r);
                }
            }
        }
        r = r + 1;
    }
    assert forall|k: int| 0 <= k < h@.len() implies #[trigger] h@[k] == apply_at(
        old(h)@,
        start as int,
        replace@,
    )[k] by {
        if start <= k < start + replace@.len() && replace@[k - start] is Literal {
            let q = choose|q: int| #![trigger runs@[q]]
                0 <= q < runs@.len() && runs@[q].0 <= k - start < runs@[q].1;
        }
    }
    assert(h@ =~= apply_at(old(h)@, start as int, replace@));
}

/// Index of the first `needle` in `haystack` (`memchr::memchr`).
#[verifier::external_body]
fn memchr(needle: u8, haystack: &[u8]) -> (r: Option<usize>)
    ensures
        match r {
            Some(i) => i < haystack@.len() && haystack@[i as int] == needle && forall|j: int|
                0 <= j < i ==> haystack@[j] != needle,
            None => forall|j: int| 0 <= j < haystack@.len() ==> haystack@[j] != needle,
        },
{
    memchr::memchr(needle, haystack)
}

/// Index of the first `needle` in `haystack[from..]`, counted from the start of
/// `haystack`.
pub(crate) fn find_byte_from(needle: u8, haystack: &[u8], from: usize) -> (r: Option<usize>)
    requires
        from <= haystack@.len(),
    ensures
        match r {
            Some(i) => from <= i < haystack@.len() && haystack@[i as int] == needle && forall|
                j: int,
            |
                from <= j < i ==> haystack@[j] != needle,
            None => forall|j: int| from <= j < haystack@.len() ==> haystack@[j] != needle,
        },
{
    let tail = &haystack[from..haystack.len()];
    match memchr(needle, tail) {
        Some(rel) => {
            assert forall|j: int| from <= j < from + rel implies haystack@[j] != needle by {
                assert(tail@[j - from] == haystack@[j]);
            }
            Some(from + rel)
        },
        None => {
            assert forall|j: int| from <= j < haystack@.len() implies haystack@[j] != needle by {
                assert(tail@[j - from] == haystack@[j]);
            }
            None
        },
    }
}

/// No position in `[q, q2)` matches, so scanning from `q` or from `q2` finds the
/// same matches.
proof fn lemma_greedy_skip(p: Seq<PatternByte>, h: Seq<u8>, q: int, q2: int)
    requires
        0 <= q <= q2,
        p.len() > 0,
        forall|s: int| q <= s < q2 ==> !matches_at_spec(p, h, s),
    ensures
        greedy_from(p, h, q) == greedy_from(p, h, q2),
    decreases q2 - q,
{
    if q < q2 {
        lemma_greedy_skip(p, h, q + 1, q2);
        if q + p.len() > h.len() {
            lemma_greedy_tail_empty(p, h, q2);
            lemma_greedy_tail_empty(p, h, q + 1);
        }
    }
}

/// Past the last place the pattern fits there is nothing to find.
proof fn lemma_greedy_tail_empty(p: Seq<PatternByte>, h: Seq<u8>, q: int)
    requires
        p.len() > 0,
        q >= 0,
        q + p.len() > h.len(),
    ensures
        greedy_from(p, h, q) == Seq::<int>::empty(),
{
}

/// When nothing at or after `q` matches, the scan from `q` is empty.
proof fn lemma_greedy_none(p: Seq<PatternByte>, h: Seq<u8>, q: int)
    requires
        0 <= q,
        p.len() > 0,
        forall|s: int| q <= s ==> !matches_at_spec(p, h, s),
    ensures
        greedy_from(p, h, q) == Seq::<int>::empty(),
    decreases h.len() + 1 - q,
{
    if q + p.len() <= h.len() {
        lemma_greedy_none(p, h, q + 1);
    }
}

/// Finds and replaces occurrences of a wildcard hex pattern in a byte slice.
pub struct HexReplacer {
    search: HexPattern,
    replace: HexPattern,
    /// (index into the search pattern, literal byte) that drives `memchr`; `None`
    /// only when the search pattern is all wildcards.
    anchor: Option<(usize, u8)>,
}

impl HexReplacer {
    #[verifier::type_invariant]
    closed spec fn wf(self) -> bool {
        &&& self.search@.len() > 0
        &&& self.search@.len() == self.replace@.len()
        &&& match self.anchor {
            Some((i, b)) => i < self.search@.len() && self.search@[i as int]
                == PatternByte::Literal(b),
            None => forall|j: int|
                0 <= j < self.search@.len() ==> #[trigger] self.search@[j] is Wildcard,
        }
    }

    pub closed spec fn search_view(self) -> Seq<PatternByte> {
        self.search@
    }

    pub closed spec fn replace_view(self) -> Seq<PatternByte> {
        self.replace@
    }

    pub closed spec fn anchor_view(self) -> Option<(usize, u8)> {
        self.anchor
    }

    /// A replacer for `search` -> `replace`. `haystack_hint` (a sample of the data,
    /// or all of it) decides which literal byte is rarest and so anchors the scan.
    pub fn new(search: HexPattern, replace: HexPattern, haystack_hint: &[u8]) -> (r: Result<
        Self,
        PatternError,
    >)
        ensures
            search@.len() == 0 ==> r matches Err(PatternError::EmptyPattern),
            search@.len() != 0 && search@.len() != replace@.len() ==> (r matches Err(
                PatternError::LengthMismatch { search_len, replace_len },
            ) && search_len == search@.len() && replace_len == replace@.len()),
            search@.len() != 0 && search@.len() == replace@.len() ==> (r matches Ok(h) && {
                &&& h.search_view() == search@
                &&& h.replace_view() == replace@
                &&& anchor_ok(search@, haystack_hint@, h.anchor_view())
            }),
    {
        if search.is_empty() {
            return Err(PatternError::EmptyPattern);
        }
        if search.len() != replace.len() {
            return Err(
                PatternError::LengthMismatch { search_len: search.len(), replace_len: replace.len() },
            );
        }
        let anchor = pick_anchor(&search, haystack_hint);
        proof {
            match anchor {
                Some((i, b)) => {
                    let p = search@;
                    if literal_count(p) > 1 {
                        assert(is_rarest_literal(p, hint_sample(haystack_hint@), i as int, b));
                    }
                },
                None => {},
            }
        }
        Ok(HexReplacer { search, replace, anchor })
    }

    pub fn pattern_len(&self) -> (n: usize)
        ensures
            n == self.search_view().len(),
    {
        self.search.len()
    }

    /// The anchor chosen for the scan.
    pub fn anchor(&self) -> (a: Option<(usize, u8)>)
        ensures
            a == self.anchor_view(),
    {
        self.anchor
    }

    /// All non-overlapping matches, left to right: their start offsets.
    pub fn find_all(&self, haystack: &[u8]) -> (out: Vec<usize>)
        ensures
            out@.map_values(|x: usize| x as int) == all_matches(self.search_view(), haystack@),
    {
        proof {
            use_type_invariant(self);
        }
        let ghost p = self.search@;
        let ghost h = haystack@;
        let len = self.search.len();
        if haystack.len() < len {
            proof {
                lemma_greedy_tail_empty(p, h, 0);
            }
            let out: Vec<usize> = Vec::new();
            assert(out@.map_values(|x: usize| x as int) =~= seq![]);
            return out;
        }
        let mut out: Vec<usize> = Vec::new();
        match self.anchor {
            Some((anchor_idx, anchor_byte)) => {
                let mut next_allowed: usize = 0;
                let mut pos: usize = 0;
                while pos < haystack.len()
                    invariant
                        p == self.search@,
                        h == haystack@,
                        len == p.len(),
                        len > 0,
                        len <= h.len(),
                        anchor_idx < len,
                        p[anchor_idx as int] == PatternByte::Literal(anchor_byte),
                        pos <= h.len(),
                        next_allowed <= h.len(),
                        out@.map_values(|x: usize| x as int) + greedy_from(
                            p,
                            h,
                            if next_allowed as int > pos - anchor_idx {
                                next_allowed as int
                            } else {
                                pos - anchor_idx
                            },
                        ) == greedy_from(p, h, 0),
                    decreases h.len() - pos,
                {
                    let ghost front: int = if next_allowed as int > pos - anchor_idx {
                        next_allowed as int
                    } else {
                        pos - anchor_idx
                    };
                    let ghost before = out@.map_values(|x: usize| x as int);
                    match find_byte_from(anchor_byte, haystack, pos) {
                        None => {
                            proof {
                                assert forall|s: int| front <= s implies !matches_at_spec(
                                    p,
                                    h,
                                    s,
                                ) by {
                                    if matches_at_spec(p, h, s) {
                                        assert(slot_accepts(
                                            p[anchor_idx as int],
                                            h[s + anchor_idx],
                                        ));
                                    }
                                }
                                if front >= 0 {
                                    lemma_greedy_none(p, h, front);
                                }
                            }
                            pos = haystack.len();
                            assert(before + seq![] =~= before);
                            assert(out@.map_values(|x: usize| x as int) + greedy_from(
                                p,
                                h,
                                if next_allowed as int > pos - anchor_idx {
                                    next_allowed as int
                                } else {
                                    pos - anchor_idx
                                },
                            ) == greedy_from(p, h, 0)) by {
                                let f2: int = if next_allowed as int > pos - anchor_idx {
                                    next_allowed as int
                                } else {
                                    pos - anchor_idx
                                };
                                lemma_greedy_tail_empty(p, h, f2);
                                if front >= 0 {
                                } else {
                                    assert(pos == 0 || front >= 0);
                                }
                            }
                        },
                        Some(idx) => {
                            // Starts between the front and this occurrence cannot match:
                            // their anchor slot sees a different byte.
                            proof {
                                assert forall|s: int|
                                    front <= s < idx - anchor_idx implies !matches_at_spec(
                                    p,
                                    h,
                                    s,
                                ) by {
                                    if matches_at_spec(p, h, s) {
                                        assert(slot_accepts(
                                            p[anchor_idx as int],
                                            h[s + anchor_idx],
                                        ));
                                    }
                                }
                            }
                            if idx < anchor_idx {
                                pos = idx + 1;
                            } else {
                                let start = idx - anchor_idx;
                                if start < next_allowed {
                                    pos = idx + 1;
                                } else {
                                    proof {
                                        if front >= 0 {
                                            lemma_greedy_skip(p, h, front, start as int);
                                        }
                                    }
                                    if len > haystack.len() - start {
                                        proof {
                                            lemma_greedy_tail_empty(p, h, start as int);
                                            lemma_greedy_tail_empty(p, h, start + 1);
                                        }
                                        pos = idx + 1;
                                    } else if matches_at(&self.search, haystack, start) {
                                        let end = start + len;
                                        out.push(start);
                                        next_allowed = end;
                                        pos = idx + 1;
                                        assert(out@.map_values(|x: usize| x as int) =~= before.push(
                                            start as int,
                                        ));
                                        assert(before + greedy_from(p, h, start as int) =~= before.push(
                                            start as int,
                                        ) + greedy_from(p, h, end as int));
                                    } else {
                                        pos = idx + 1;
                                    }
                                }
                            }
                        },
                    }
                }
                let ghost front: int = if next_allowed as int > pos - anchor_idx {
                    next_allowed as int
                } else {
                    pos - anchor_idx
                };
                proof {
                    if front >= 0 {
                        lemma_greedy_tail_empty(p, h, h.len() as int);
                        assert forall|s: int| front <= s < h.len() implies !matches_at_spec(
                            p,
                            h,
                            s,
                        ) by {
                            if matches_at_spec(p, h, s) {
                                assert(slot_accepts(p[anchor_idx as int], h[s + anchor_idx]));
                            }
                        }
                        lemma_greedy_skip(p, h, front, h.len() as int);
                    }
                    assert(out@.map_values(|x: usize| x as int) + seq![] =~= out@.map_values(
                        |x: usize| x as int,
                    ));
                }
                out
            },
            None => {
                let mut at: usize = 0;
                while at <= haystack.len() - len
                    invariant
                        len <= h.len(),
                        p == self.search@,
                        h == haystack@,
                        len == p.len(),
                        len > 0,
                        forall|j: int| 0 <= j < p.len() ==> #[trigger] p[j] is Wildcard,
                        at <= h.len(),
                        out@.map_values(|x: usize| x as int) + greedy_from(p, h, at as int)
                            == greedy_from(p, h, 0),
                    decreases h.len() - at,
                {
                    let ghost before = out@.map_values(|x: usize| x as int);
                    assert(matches_at_spec(p, h, at as int));
                    out.push(at);
                    assert(out@.map_values(|x: usize| x as int) =~= before.push(at as int));
                    assert(before + greedy_from(p, h, at as int) =~= before.push(at as int)
                        + greedy_from(p, h, at + len));
                    at = at + len;
                }
                proof {
                    lemma_greedy_tail_empty(p, h, at as int);
                    assert(out@.map_values(|x: usize| x as int) + seq![] =~= out@.map_values(
                        |x: usize| x as int,
                    ));
                }
                out
            },
        }
    }

    /// The first match at or after `from`, for a step-through find / replace.
    pub fn find_next(&self, haystack: &[u8], from: usize) -> (r: Option<usize>)
        ensures
            match r {
                Some(s) => from <= s && matches_at_spec(self.search_view(), haystack@, s as int)
                    && forall|t: int|
                    from <= t < s ==> !matches_at_spec(self.search_view(), haystack@, t),
                None => forall|t: int|
                    from <= t ==> !matches_at_spec(self.search_view(), haystack@, t),
            },
    {
        proof {
            use_type_invariant(self);
        }
        let ghost p = self.search@;
        let ghost h = haystack@;
        let len = self.search.len();
        if from > haystack.len() || haystack.len() - from < len {
            return None;
        }
        match self.anchor {
            Some((anchor_idx, anchor_byte)) => {
                let mut pos: usize = from;
                while pos < haystack.len()
                    invariant
                        p == self.search@,
                        h == haystack@,
                        len == p.len(),
                        anchor_idx < len,
                        p[anchor_idx as int] == PatternByte::Literal(anchor_byte),
                        from <= pos <= h.len(),
                        forall|t: int|
                            from <= t && t + anchor_idx < pos ==> !matches_at_spec(p, h, t),
                    decreases h.len() - pos,
                {
                    match find_byte_from(anchor_byte, haystack, pos) {
                        None => {
                            assert forall|t: int| from <= t implies !matches_at_spec(p, h, t) by {
                                if matches_at_spec(p, h, t) {
                                    assert(slot_accepts(p[anchor_idx as int], h[t + anchor_idx]));
                                }
                            }
                            return None;
                        },
                        Some(idx) => {
                            assert forall|t: int|
                                from <= t && t + anchor_idx < idx implies !matches_at_spec(
                                p,
                                h,
                                t,
                            ) by {
                                if matches_at_spec(p, h, t) {
                                    assert(slot_accepts(p[anchor_idx as int], h[t + anchor_idx]));
                                }
                            }
                            if idx >= anchor_idx {
                                let start = idx - anchor_idx;
                                if start >= from && len <= haystack.len() - start {
                                    if matches_at(&self.search, haystack, start) {
                                        return Some(start);
                                    }
                                }
                            }
                            pos = idx + 1;
                        },
                    }
                }
                assert forall|t: int| from <= t implies !matches_at_spec(p, h, t) by {
                    if matches_at_spec(p, h, t) {
                        assert(t + anchor_idx < h.len());
                    }
                }
                None
            },
            None => {
                assert(matches_at_spec(p, h, from as int));
                Some(from)
            },
        }
    }

    /// Replaces every non-overlapping match in place and returns where. Wildcards
    /// in the replace pattern leave the byte under them untouched; the length of
    /// the data never changes.
    pub fn replace_all(&self, haystack: &mut [u8]) -> (out: Vec<usize>)
        ensures
            final(haystack)@.len() == old(haystack)@.len(),
            out@.map_values(|x: usize| x as int) == all_matches(
                self.search_view(),
                old(haystack)@,
            ),
            final(haystack)@ == apply_all(
                old(haystack)@,
                all_matches(self.search_view(), old(haystack)@),
                self.replace_view(),
            ),
    {
        proof {
            use_type_invariant(self);
        }
        let matches = self.find_all(haystack);
        let len = self.search.len();
        let ghost starts = matches@.map_values(|x: usize| x as int);
        proof {
            lemma_greedy_bounds(self.search@, old(haystack)@, 0);
        }
        let mut k: usize = 0;
        while k < matches.len()
            invariant
                len == self.search@.len(),
                len == self.replace@.len(),
                haystack@.len() == old(haystack)@.len(),
                starts == matches@.map_values(|x: usize| x as int),
                starts == greedy_from(self.search@, old(haystack)@, 0),
                forall|j: int|
                    0 <= j < starts.len() ==> 0 <= #[trigger] starts[j] && starts[j] + len
                        <= old(haystack)@.len(),
                k <= matches@.len(),
                haystack@ == apply_all(old(haystack)@, starts.take(k as int), self.replace@),
            decreases matches@.len() - k,
        {
            let start = matches[k];
            assert(starts[k as int] == start);
            apply_replace(&self.replace, haystack, start);
            assert(starts.take(k + 1).drop_last() =~= starts.take(k as int));
            k = k + 1;
        }
        assert(starts.take(k as int) =~= starts);
        matches
    }

    /// Replaces the match at `start`, if the bytes there (still) match; `false` and
    /// nothing changed otherwise.
    pub fn replace_at(&self, haystack: &mut [u8], start: usize) -> (done: bool)
        ensures
            done == matches_at_spec(self.search_view(), old(haystack)@, start as int),
            done ==> final(haystack)@ == apply_at(
                old(haystack)@,
                start as int,
                self.replace_view(),
            ),
            !done ==> final(haystack)@ == old(haystack)@,
    {
        proof {
            use_type_invariant(self);
        }
        let len = self.search.len();
        if start > haystack.len() || len > haystack.len() - start {
            return false;
        }
        if !matches_at(&self.search, haystack, start) {
            return false;
        }
        apply_replace(&self.replace, haystack, start);
        true
    }
}

/// Every start the scan reports lies inside `h` with room for the pattern.
pub proof fn lemma_greedy_bounds(p: Seq<PatternByte>, h: Seq<u8>, pos: int)
    ensures
        forall|j: int|
            0 <= j < greedy_from(p, h, pos).len() ==> {
                let s = #[trigger] greedy_from(p, h, pos)[j];
                &&& pos <= s
                &&& matches_at_spec(p, h, s)
            },
    decreases h.len() - pos,
{
    if p.len() == 0 || pos < 0 || pos + p.len() > h.len() {
    } else if matches_at_spec(p, h, pos) {
        lemma_greedy_bounds(p, h, pos + p.len());
        let g = greedy_from(p, h, pos);
        assert(g == seq![pos] + greedy_from(p, h, pos + p.len()));
        assert forall|j: int| 0 <= j < g.len() implies {
            let s = #[trigger] g[j];
            &&& pos <= s
            &&& matches_at_spec(p, h, s)
        } by {
            if j > 0 {
                assert(g[j] == greedy_from(p, h, pos + p.len())[j - 1]);
            }
        }
    } else {
        lemma_greedy_bounds(p, h, pos + 1);
        assert(greedy_from(p, h, pos) == greedy_from(p, h, pos + 1));
    }
}

/// Where the search for the match after the `k`-th of `m` resumes: at `pos`
/// for the first, otherwise just past the match before.
pub open spec fn resume_at(m: Seq<int>, k: int, pos: int, len: int) -> int {
    if k == 0 { pos } else { m[k - 1] + len }
}

proof fn lemma_greedy_leftmost(p: Seq<PatternByte>, h: Seq<u8>, pos: int)
    requires
        p.len() > 0,
        pos >= 0,
    ensures
        forall|k: int| 0 <= k < greedy_from(p, h, pos).len() ==> matches_at_spec(p, h, #[trigger] greedy_from(p, h, pos)[k]),
        forall|k: int| 0 <= k < greedy_from(p, h, pos).len() ==> pos <= #[trigger] greedy_from(p, h, pos)[k],
        forall|j: int, k: int|
            0 <= j < k < greedy_from(p, h, pos).len() ==> #[trigger] greedy_from(p, h, pos)[j] + p.len() <= #[trigger] greedy_from(p, h, pos)[k],
        forall|k: int, i: int|
            #![trigger greedy_from(p, h, pos)[k], matches_at_spec(p, h, i)]
            0 <= k < greedy_from(p, h, pos).len() && resume_at(greedy_from(p, h, pos), k, pos, p.len() as int) <= i
                < greedy_from(p, h, pos)[k] ==> !matches_at_spec(p, h, i),
        forall|i: int|
            resume_at(greedy_from(p, h, pos), greedy_from(p, h, pos).len() as int, pos, p.len() as int) <= i
                ==> !#[trigger] matches_at_spec(p, h, i),
    decreases h.len() - pos,
{
    let m = greedy_from(p, h, pos);
    let len = p.len() as int;
    if pos + len > h.len() {
        assert(m.len() == 0);
    } else if matches_at_spec(p, h, pos) {
        lemma_greedy_leftmost(p, h, pos + len);
        let m2 = greedy_from(p, h, pos + len);
        assert(m == seq![pos] + m2);
        assert forall|k: int| 0 <= k < m.len() implies matches_at_spec(p, h, #[trigger] m[k]) by {
            if k > 0 {
                assert(m[k] == m2[k - 1]);
            }
        }
        assert forall|k: int| 0 <= k < m.len() implies pos <= #[trigger] m[k] by {
            if k > 0 {
                assert(m[k] == m2[k - 1]);
            }
        }
        assert forall|j: int, k: int| 0 <= j < k < m.len() implies #[trigger] m[j] + len <= #[trigger] m[k] by {
            assert(m[k] == m2[k - 1]);
            if j > 0 {
                assert(m[j] == m2[j - 1]);
            }
        }
        assert forall|k: int, i: int| #![trigger m[k], matches_at_spec(p, h, i)] 0 <= k < m.len() && resume_at(m, k, pos, len) <= i < m[k] implies !matches_at_spec(p, h, i) by {
            if k > 0 {
                assert(m[k] == m2[k - 1]);
                assert(resume_at(m, k, pos, len) == resume_at(m2, k - 1, pos + len, len));
            }
        }
        assert forall|i: int| resume_at(m, m.len() as int, pos, len) <= i implies !#[trigger] matches_at_spec(p, h, i) by {
            assert(resume_at(m, m.len() as int, pos, len) == resume_at(m2, m2.len() as int, pos + len, len));
        }
    } else {
        lemma_greedy_leftmost(p, h, pos + 1);
        assert(m == greedy_from(p, h, pos + 1));
        assert forall|k: int, i: int| #![trigger m[k], matches_at_spec(p, h, i)] 0 <= k < m.len() && resume_at(m, k, pos, len) <= i < m[k] implies !matches_at_spec(p, h, i) by {
            if k == 0 && i == pos {
            } else if k == 0 {
                assert(resume_at(m, k, pos + 1, len) <= i);
            } else {
                assert(resume_at(m, k, pos, len) == resume_at(m, k, pos + 1, len));
            }
        }
        assert forall|i: int| resume_at(m, m.len() as int, pos, len) <= i implies !#[trigger] matches_at_spec(p, h, i) by {
            if m.len() == 0 && i == pos {
            } else if m.len() == 0 {
                assert(resume_at(m, 0, pos + 1, len) <= i);
            } else {
                assert(resume_at(m, m.len() as int, pos, len) == resume_at(m, m.len() as int, pos + 1, len));
            }
        }
    }
}

proof fn lemma_apply_all_bytes(h: Seq<u8>, starts: Seq<int>, r: Seq<PatternByte>)
    requires
        r.len() > 0,
        forall|k: int| 0 <= k < starts.len() ==> 0 <= #[trigger] starts[k] && starts[k] + r.len() <= h.len(),
        forall|j: int, k: int| 0 <= j < k < starts.len() ==> #[trigger] starts[j] + r.len() <= #[trigger] starts[k],
    ensures
        apply_all(h, starts, r).len() == h.len(),
        forall|k: int, i: int|
            #![trigger starts[k], apply_all(h, starts, r)[i]]
            0 <= k < starts.len() && starts[k] <= i < starts[k] + r.len() ==> apply_all(h, starts, r)[i]
                == replaced_byte(r[i - starts[k]], h[i]),
        forall|i: int|
            0 <= i < h.len() && (forall|k: int| 0 <= k < starts.len() ==> !(#[trigger] starts[k] <= i && i < starts[k] + r.len()))
                ==> #[trigger] apply_all(h, starts, r)[i] == h[i],
    decreases starts.len(),
{
    if starts.len() > 0 {
        let d = starts.drop_last();
        let last = starts.last();
        lemma_apply_all_bytes(h, d, r);
        let prev = apply_all(h, d, r);
        assert forall|k: int, i: int|
            #![trigger starts[k], apply_all(h, starts, r)[i]]
            0 <= k < starts.len() && starts[k] <= i < starts[k] + r.len() implies apply_all(h, starts, r)[i]
                == replaced_byte(r[i - starts[k]], h[i]) by {
            if k == starts.len() - 1 {
                assert forall|j: int| 0 <= j < d.len() implies !(#[trigger] d[j] <= i && i < d[j] + r.len()) by {
                    assert(starts[j] + r.len() <= starts[k]);
                }
                assert(prev[i] == h[i]);
            } else {
                assert(d[k] == starts[k]);
                assert(starts[k] + r.len() <= last);
            }
        }
        assert forall|i: int|
            0 <= i < h.len() && (forall|k: int| 0 <= k < starts.len() ==> !(#[trigger] starts[k] <= i && i < starts[k] + r.len()))
                implies #[trigger] apply_all(h, starts, r)[i] == h[i] by {
            assert(!(starts[starts.len() - 1] <= i && i < starts[starts.len() - 1] + r.len()));
            assert forall|j: int| 0 <= j < d.len() implies !(#[trigger] d[j] <= i && i < d[j] + r.len()) by {
                assert(d[j] == starts[j]);
            }
        }
    }
}

/// What `replace_all` leaves in the data, byte by byte: inside a match, the
/// replacement's literal at that position, or the old byte under a wildcard;
/// outside every match, the old byte.
pub proof fn law_replace_all_bytes(p: Seq<PatternByte>, r: Seq<PatternByte>, h: Seq<u8>)
    requires
        p.len() > 0,
        r.len() == p.len(),
    ensures
        apply_all(h, all_matches(p, h), r).len() == h.len(),
        forall|k: int, i: int|
            #![trigger all_matches(p, h)[k], apply_all(h, all_matches(p, h), r)[i]]
            0 <= k < all_matches(p, h).len() && all_matches(p, h)[k] <= i < all_matches(p, h)[k] + p.len()
                ==> apply_all(h, all_matches(p, h), r)[i] == replaced_byte(r[i - all_matches(p, h)[k]], h[i]),
        forall|i: int|
            0 <= i < h.len() && (forall|k: int|
                0 <= k < all_matches(p, h).len() ==> !(#[trigger] all_matches(p, h)[k] <= i && i < all_matches(p, h)[k] + p.len()))
                ==> #[trigger] apply_all(h, all_matches(p, h), r)[i] == h[i],
{
    lemma_greedy_leftmost(p, h, 0);
    let m = all_matches(p, h);
    assert forall|k: int| 0 <= k < m.len() implies 0 <= #[trigger] m[k] && m[k] + r.len() <= h.len() by {
        assert(matches_at_spec(p, h, m[k]));
    }
    lemma_apply_all_bytes(h, m, r);
}

/// The matches `find_all` reports are the leftmost non-overlapping ones:
/// each is a match, the first is the first match in the data, each next one
/// is the first match at or after the end of the one before, and none lies
/// past the end of the last.
pub proof fn law_find_all_leftmost(p: Seq<PatternByte>, h: Seq<u8>)
    requires
        p.len() > 0,
    ensures
        forall|k: int| 0 <= k < all_matches(p, h).len() ==> matches_at_spec(p, h, #[trigger] all_matches(p, h)[k]),
        forall|j: int, k: int|
            0 <= j < k < all_matches(p, h).len() ==> #[trigger] all_matches(p, h)[j] + p.len() <= #[trigger] all_matches(p, h)[k],
        forall|k: int, i: int|
            #![trigger all_matches(p, h)[k], matches_at_spec(p, h, i)]
            0 <= k < all_matches(p, h).len() && resume_at(all_matches(p, h), k, 0, p.len() as int) <= i
                < all_matches(p, h)[k] ==> !matches_at_spec(p, h, i),
        forall|i: int|
            resume_at(all_matches(p, h), all_matches(p, h).len() as int, 0, p.len() as int) <= i
                ==> !#[trigger] matches_at_spec(p, h, i),
{
    lemma_greedy_leftmost(p, h, 0);
}

} // verus!
