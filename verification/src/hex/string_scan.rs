//! The scans behind the Strings dialog: runs of bytes that read as text in
//! one encoding, kept when they are long enough, look like real words and
//! pass the user's filter.
use vstd::prelude::*;

use crate::codec::{decode_no_bom, decoded_without_bom};
use crate::hex::strings::{
    accepts, filter_view, passes_view, ascii_text, euckr_lead, euckr_trail, gbk_lead, is_ascii_text, is_one_char_repeated,
    longest_script_run, looks_like_single_byte_text, is_wide_text, one_char_repeated, wide_counts, wide_text, row_text, runs, FoundString, Script, TextFilter,
};
use crate::text::push_char;

verus! {

/// What a found string records: its offset, its size in bytes and its text.
pub open spec fn hit(f: FoundString) -> (int, int, Seq<char>) {
    (f.offset as int, f.size as int, f.content@)
}

pub open spec fn hits(v: Seq<FoundString>) -> Seq<(int, int, Seq<char>)> {
    v.map_values(|f: FoundString| hit(f))
}

/// Appending `cands` to `out` one at a time and stopping as soon as an append
/// brings the list to `cap` entries: the resulting list, and whether the cap
/// stopped it.
pub open spec fn emit(out: Seq<(int, int, Seq<char>)>, cands: Seq<(int, int, Seq<char>)>, cap: nat) -> (
    Seq<(int, int, Seq<char>)>,
    bool,
)
    decreases cands.len(),
{
    if cands.len() == 0 {
        (out, false)
    } else {
        let (o, done) = emit(out, cands.drop_last(), cap);
        if done {
            (o, true)
        } else {
            let o2 = o.push(cands.last());
            (o2, o2.len() >= cap)
        }
    }
}

/// Once the cap has stopped the appends, later candidates change nothing.
pub proof fn lemma_emit_done(
    out: Seq<(int, int, Seq<char>)>,
    p: Seq<(int, int, Seq<char>)>,
    q: Seq<(int, int, Seq<char>)>,
    cap: nat,
)
    requires
        emit(out, p, cap).1,
    ensures
        emit(out, p + q, cap) == emit(out, p, cap),
    decreases q.len(),
{
    if q.len() == 0 {
        assert(p + q =~= p);
    } else {
        lemma_emit_done(out, p, q.drop_last(), cap);
        assert((p + q).drop_last() =~= p + q.drop_last());
    }
}

/// Appending one more candidate.
proof fn lemma_emit_push(
    out: Seq<(int, int, Seq<char>)>,
    p: Seq<(int, int, Seq<char>)>,
    c: (int, int, Seq<char>),
    cap: nat,
)
    requires
        !emit(out, p, cap).1,
    ensures
        emit(out, p.push(c), cap) == ({
            let o2 = emit(out, p, cap).0.push(c);
            (o2, o2.len() >= cap)
        }),
{
    assert(p.push(c).drop_last() =~= p);
}

/// Pushes a found string for text `text` at `offset`, `size` bytes long.
fn push_found(out: &mut Vec<FoundString>, offset: usize, text: &str, size: usize, Ghost(from): Ghost<int>)
    requires
        0 <= from <= old(out)@.len(),
        rows_show_offsets(old(out)@, from),
    ensures
        rows_show_offsets(final(out)@, from),
        final(out)@.len() == old(out)@.len() + 1,
        forall|k: int| 0 <= k < old(out)@.len() ==> final(out)@[k] == old(out)@[k],
        final(out)@.last().offset == offset,
        final(out)@.last().content@ == text@,
        hits(final(out)@) == hits(old(out)@).push((offset as int, size as int, text@)),
        final(out)@.last().display@ == row_text(offset as nat, text@),
{
    let f = FoundString::new(offset, text, size);
    out.push(f);
    assert forall|k: int| from <= k < out@.len() implies #[trigger] out@[k].display@ == row_text(
        out@[k].offset as nat,
        out@[k].content@,
    ) by {
        if k < old(out)@.len() {
            assert(out@[k] == old(out)@[k]);
        }
    }
    assert(hits(final(out)@) =~= hits(old(out)@).push((offset as int, size as int, text@)));
}

/// The rows added after `from` show their offsets.
pub open spec fn rows_show_offsets(v: Seq<FoundString>, from: int) -> bool {
    forall|k: int|
        from <= k < v.len() ==> #[trigger] v[k].display@ == row_text(v[k].offset as nat, v[k].content@)
}

/// The character for a Unicode scalar value (`char::from_u32`): `None` for a
/// surrogate or a value past U+10FFFF.
#[verifier::external_body]
pub(crate) fn char_from_u32(v: u32) -> (r: Option<char>)
    ensures
        r is Some <==> (v < 0xD800 || (0xE000 <= v && v <= 0x10FFFF)),
        r matches Some(c) ==> c as u32 == v && c == v as char,
{
    char::from_u32(v)
}

// ---------------------------------------------------------------------------
// UTF-8
// ---------------------------------------------------------------------------

/// Length of the UTF-8 sequence a lead byte starts, or 0 for a byte that
/// starts none (a continuation byte, an overlong lead or one past U+10FFFF).
pub open spec fn lead_len(b: u8) -> int {
    if 0xC2 <= b && b <= 0xDF {
        2
    } else if 0xE0 <= b && b <= 0xEF {
        3
    } else if 0xF0 <= b && b <= 0xF4 {
        4
    } else {
        0
    }
}

pub open spec fn cont(b: u8) -> bool {
    0x80 <= b && b <= 0xBF
}

/// The scalar value the `n`-byte sequence at `i` spells out.
pub open spec fn scalar_at(buf: Seq<u8>, i: int, n: int) -> int {
    if n == 2 {
        (buf[i] - 0xC0) * 64 + (buf[i + 1] - 0x80)
    } else if n == 3 {
        (buf[i] - 0xE0) * 4096 + (buf[i + 1] - 0x80) * 64 + (buf[i + 2] - 0x80)
    } else {
        (buf[i] - 0xF0) * 262144 + (buf[i + 1] - 0x80) * 4096 + (buf[i + 2] - 0x80) * 64 + (
        buf[i + 3] - 0x80)
    }
}

/// Whether the `n` bytes at `i` form one well-formed UTF-8 sequence: the
/// right continuation bytes, no overlong form, no surrogate, nothing past
/// U+10FFFF.
pub open spec fn well_formed_seq(buf: Seq<u8>, i: int, n: int) -> bool {
    &&& cont(buf[i + 1])
    &&& n >= 3 ==> cont(buf[i + 2])
    &&& n == 4 ==> cont(buf[i + 3])
    &&& n == 3 ==> 0x800 <= scalar_at(buf, i, n) && !(0xD800 <= scalar_at(buf, i, n)
        && scalar_at(buf, i, n) <= 0xDFFF)
    &&& n == 4 ==> 0x10000 <= scalar_at(buf, i, n) && scalar_at(buf, i, n) <= 0x10FFFF
}

/// How many bytes the text character at `i` takes in a UTF-8 run that must
/// end by `len`: 1 for printable ASCII, the sequence length for a
/// well-formed character that is not a control, 0 when no text starts there.
pub open spec fn utf8_unit(buf: Seq<u8>, i: int, len: int) -> int {
    let b = buf[i];
    if b < 0x80 {
        if ascii_text(b) {
            1
        } else {
            0
        }
    } else {
        let n = lead_len(b);
        if n > 0 && i + n <= len && well_formed_seq(buf, i, n) && scalar_at(buf, i, n) > 0x9F {
            n
        } else {
            0
        }
    }
}

/// The character of the text unit at `i`.
pub open spec fn utf8_char(buf: Seq<u8>, i: int) -> char {
    if buf[i] < 0x80 {
        buf[i] as char
    } else {
        scalar_at(buf, i, lead_len(buf[i])) as char
    }
}

/// The UTF-8 text run starting at `e`: where it ends, and its text.
pub open spec fn utf8_run(buf: Seq<u8>, len: int, e: int) -> (int, Seq<char>)
    decreases len - e,
{
    if 0 <= e < len && utf8_unit(buf, e, len) > 0 {
        let (end, t) = utf8_run(buf, len, e + utf8_unit(buf, e, len));
        (end, seq![utf8_char(buf, e)] + t)
    } else {
        (e, seq![])
    }
}

pub proof fn lemma_utf8_run_bounds(buf: Seq<u8>, len: int, e: int)
    requires
        0 <= e <= len,
    ensures
        e <= utf8_run(buf, len, e).0 <= len,
        utf8_run(buf, len, e).0 == e <==> !(e < len && utf8_unit(buf, e, len) > 0),
    decreases len - e,
{
    if 0 <= e < len && utf8_unit(buf, e, len) > 0 {
        lemma_utf8_run_bounds(buf, len, e + utf8_unit(buf, e, len));
    }
}

/// Whether a run ending at `end` is followed by a NUL byte or the end of the
/// file.
pub open spec fn terminated(buf: Seq<u8>, end: int) -> bool {
    end == buf.len() || buf[end] == 0
}

/// The strings a UTF-8 scan of `buf[i..len]` reports, in order: every maximal
/// run of text characters that ends at a NUL byte or the end of the file, is
/// at least `min` characters long and passes the filter.
pub open spec fn utf8_found(buf: Seq<u8>, len: int, i: int, min: nat, f: Option<(Seq<char>, bool)>) -> Seq<
    (int, int, Seq<char>),
>
    decreases len - i,
{
    if i < 0 || i >= len {
        seq![]
    } else {
        let (end, text) = utf8_run(buf, len, i);
        proof {
            lemma_utf8_run_bounds(buf, len, i);
        }
        if end == i {
            utf8_found(buf, len, i + 1, min, f)
        } else {
            let keep = terminated(buf, end) && text.len() >= min && passes_view(f, text);
            (if keep {
                seq![(i, end - i, text)]
            } else {
                seq![]
            }) + utf8_found(buf, len, end, min, f)
        }
    }
}

/// The width of the text character at `end` (see `utf8_unit`), and the
/// character.
fn utf8_unit_at(buffer: &[u8], end: usize, len: usize) -> (r: (usize, char))
    requires
        end < len <= buffer@.len(),
    ensures
        r.0 == utf8_unit(buffer@, end as int, len as int),
        r.0 > 0 ==> r.1 == utf8_char(buffer@, end as int),
{
    let b = buffer[end];
    if b < 0x80 {
        if is_ascii_text(b) {
            return (1, b as char);
        }
        return (0, ' ');
    }
    let n: usize = if 0xC2 <= b && b <= 0xDF {
        2
    } else if 0xE0 <= b && b <= 0xEF {
        3
    } else if 0xF0 <= b && b <= 0xF4 {
        4
    } else {
        0
    };
    if n == 0 || n > len - end {
        return (0, ' ');
    }
    let b1 = buffer[end + 1];
    if !(0x80 <= b1 && b1 <= 0xBF) {
        return (0, ' ');
    }
    let v: u32 = if n == 2 {
        ((b - 0xC0) as u32) * 64 + ((b1 - 0x80) as u32)
    } else {
        let b2 = buffer[end + 2];
        if !(0x80 <= b2 && b2 <= 0xBF) {
            return (0, ' ');
        }
        if n == 3 {
            ((b - 0xE0) as u32) * 4096 + ((b1 - 0x80) as u32) * 64 + ((b2 - 0x80) as u32)
        } else {
            let b3 = buffer[end + 3];
            if !(0x80 <= b3 && b3 <= 0xBF) {
                return (0, ' ');
            }
            ((b - 0xF0) as u32) * 262144 + ((b1 - 0x80) as u32) * 4096 + ((b2 - 0x80) as u32) * 64
                + ((b3 - 0x80) as u32)
        }
    };
    assert(v == scalar_at(buffer@, end as int, n as int));
    if n == 3 && (v < 0x800 || (0xD800 <= v && v <= 0xDFFF)) {
        return (0, ' ');
    }
    if n == 4 && (v < 0x10000 || v > 0x10FFFF) {
        return (0, ' ');
    }
    if v <= 0x9F {
        return (0, ' ');
    }
    match char_from_u32(v) {
        Some(c) => (n, c),
        None => (0, ' '),
    }
}

/// Scans `buffer[range]` for UTF-8 text and appends what it finds to `out`
/// (see `utf8_found`), stopping as soon as `out` holds `cap` strings.
pub fn scan_utf8(
    buffer: &[u8],
    range: std::ops::Range<usize>,
    min: usize,
    cap: usize,
    re: Option<&TextFilter>,
    out: &mut Vec<FoundString>,
)
    ensures
        ({
            let len = if range.end < buffer@.len() { range.end as int } else { buffer@.len() as int };
            let i0 = if range.start < len { range.start as int } else { len };
            hits(final(out)@) == emit(hits(old(out)@), utf8_found(buffer@, len, i0, min as nat, filter_view(re)), cap as nat).0
        }),
        final(out)@.take(old(out)@.len() as int) == old(out)@,
        rows_show_offsets(final(out)@, old(out)@.len() as int),
{
    let len = if range.end < buffer.len() { range.end } else { buffer.len() };
    let mut i = if range.start < len { range.start } else { len };
    let ghost i0 = i as int;
    let ghost total = utf8_found(buffer@, len as int, i0, min as nat, filter_view(re));
    let ghost old_out = out@;
    let ghost mut hs: Seq<(int, int, Seq<char>)> = seq![];
    assert(hs + utf8_found(buffer@, len as int, i as int, min as nat, filter_view(re)) =~= total);
    while i < len
        invariant
            i0 <= i <= len <= buffer@.len(),
            len == (if range.end < buffer@.len() { range.end as int } else { buffer@.len() as int }),
            i0 == (if range.start < len { range.start as int } else { len as int }),
            old_out == old(out)@,
            total == utf8_found(buffer@, len as int, i0, min as nat, filter_view(re)),
            hs + utf8_found(buffer@, len as int, i as int, min as nat, filter_view(re)) == total,
            emit(hits(old_out), hs, cap as nat) == (hits(out@), false),
            old_out.len() <= out@.len(),
            forall|k: int| 0 <= k < old_out.len() ==> out@[k] == old_out[k],
            rows_show_offsets(out@, old_out.len() as int),
        decreases len - i,
    {
        let start = i;
        let mut end = i;
        let mut text = String::new();
        let mut count: usize = 0;
        let mut going = true;
        proof {
            lemma_utf8_run_bounds(buffer@, len as int, start as int);
        }
        while going && end < len
            invariant
                start <= end <= len <= buffer@.len(),
                count == text@.len(),
                count <= end - start,
                utf8_run(buffer@, len as int, start as int) == ({
                    let (e2, t2) = utf8_run(buffer@, len as int, end as int);
                    (e2, text@ + t2)
                }),
                !going ==> utf8_run(buffer@, len as int, end as int) == (end as int, Seq::<char>::empty()),
            decreases (len - end) as int + if going { 1int } else { 0int },
        {
            let (n, c) = utf8_unit_at(buffer, end, len);
            if n == 0 {
                going = false;
            } else {
                let ghost old_text = text@;
                push_char(&mut text, c);
                count = count + 1;
                proof {
                    let (e2, t2) = utf8_run(buffer@, len as int, (end + n) as int);
                    assert(old_text + (seq![c] + t2) =~= text@ + t2);
                }
                end = end + n;
            }
        }
        proof {
            lemma_utf8_run_bounds(buffer@, len as int, start as int);
            lemma_utf8_run_bounds(buffer@, len as int, end as int);
            assert(text@ + Seq::<char>::empty() =~= text@);
        }
        if end == start {
            proof {
                assert(utf8_found(buffer@, len as int, i as int, min as nat, filter_view(re))
                    == utf8_found(buffer@, len as int, i + 1, min as nat, filter_view(re)));
            }
            i = i + 1;
        } else {
            let is_terminated = end == buffer.len() || buffer[end] == 0;
            if is_terminated && count >= min && accepts(re, text.as_str()) {
                let ghost c = (start as int, (end - start) as int, text@);
                proof {
                    assert(utf8_found(buffer@, len as int, i as int, min as nat, filter_view(re))
                        == seq![c] + utf8_found(buffer@, len as int, end as int, min as nat, filter_view(re)));
                    lemma_emit_push(hits(old_out), hs, c, cap as nat);
                }
                push_found(out, start, text.as_str(), end - start, Ghost(old_out.len() as int));
                proof {
                    let rest = utf8_found(buffer@, len as int, end as int, min as nat, filter_view(re));
                    assert(hs.push(c) + rest =~= hs + (seq![c] + rest));
                    hs = hs.push(c);
                    assert(hs + rest == total);
                }
                if out.len() >= cap {
                    proof {
                        let rest = utf8_found(buffer@, len as int, end as int, min as nat, filter_view(re));
                        lemma_emit_done(hits(old_out), hs, rest, cap as nat);
                        assert(out@.take(old_out.len() as int) =~= old_out);
                    }
                    return;
                }
            } else {
                proof {
                    assert(utf8_found(buffer@, len as int, i as int, min as nat, filter_view(re))
                        =~= Seq::<(int, int, Seq<char>)>::empty() + utf8_found(buffer@, len as int, end as int, min as nat, filter_view(re)));
                }
            }
            i = end;
        }
    }
    proof {
        assert(utf8_found(buffer@, len as int, i as int, min as nat, filter_view(re)) =~= Seq::<(int, int, Seq<char>)>::empty());
        assert(hs =~= total);
        assert(out@.take(old_out.len() as int) =~= old_out);
    }
}

// ---------------------------------------------------------------------------
// Double-byte code pages
// ---------------------------------------------------------------------------

/// A double-byte code page a scan reads.
#[derive(Debug, Clone, Copy, PartialEq, Eq, Structural)]
pub enum DbcsCodePage {
    /// CP949 (EUC-KR): Korean.
    Cp949,
    /// CP936 (GBK): simplified Chinese.
    Cp936,
}

/// The `encoding_rs` name of the code page.
pub open spec fn dbcs_label(cp: DbcsCodePage) -> Seq<char> {
    match cp {
        DbcsCodePage::Cp949 => "EUC-KR"@,
        DbcsCodePage::Cp936 => "GBK"@,
    }
}

/// A lead byte of a character of the script the code page is scanned for.
pub open spec fn dbcs_lead(cp: DbcsCodePage, b: u8) -> bool {
    match cp {
        DbcsCodePage::Cp949 => (0xA1 <= b && b <= 0xA2) || (0xB0 <= b && b <= 0xC8),
        DbcsCodePage::Cp936 => (0xA1 <= b && b <= 0xA9) || (0xB0 <= b && b <= 0xF7),
    }
}

/// A trail byte, the same range in both code pages.
pub open spec fn dbcs_trail(b: u8) -> bool {
    0xA1 <= b && b <= 0xFE
}

/// The script whose runs make a double-byte string look like real text.
pub open spec fn dbcs_script(cp: DbcsCodePage) -> Script {
    match cp {
        DbcsCodePage::Cp949 => Script::Hangul,
        DbcsCodePage::Cp936 => Script::Cjk,
    }
}

/// The shortest run of script characters a double-byte string must hold.
pub const MIN_SCRIPT_RUN: usize = 2;

/// How many bytes the text character at `e` takes in a double-byte run that
/// must end by `len`: 1 for printable ASCII, 2 for a lead byte followed by a
/// trail byte, 0 otherwise.
pub open spec fn dbcs_unit(cp: DbcsCodePage, buf: Seq<u8>, e: int, len: int) -> int {
    let b = buf[e];
    if b < 0x80 {
        if ascii_text(b) {
            1
        } else {
            0
        }
    } else if dbcs_lead(cp, b) && e + 1 < len && dbcs_trail(buf[e + 1]) {
        2
    } else {
        0
    }
}

/// Where the double-byte text run starting at `e` ends.
pub open spec fn dbcs_run_end(cp: DbcsCodePage, buf: Seq<u8>, len: int, e: int) -> int
    decreases len - e,
{
    if 0 <= e < len && dbcs_unit(cp, buf, e, len) > 0 {
        dbcs_run_end(cp, buf, len, e + dbcs_unit(cp, buf, e, len))
    } else {
        e
    }
}

pub proof fn lemma_dbcs_run_bounds(cp: DbcsCodePage, buf: Seq<u8>, len: int, e: int)
    requires
        0 <= e <= len,
    ensures
        e <= dbcs_run_end(cp, buf, len, e) <= len,
        dbcs_run_end(cp, buf, len, e) == e <==> !(e < len && dbcs_unit(cp, buf, e, len) > 0),
    decreases len - e,
{
    if 0 <= e < len && dbcs_unit(cp, buf, e, len) > 0 {
        lemma_dbcs_run_bounds(cp, buf, len, e + dbcs_unit(cp, buf, e, len));
    }
}

/// Whether decoded double-byte text is kept: decoded without errors, ended
/// by a NUL byte or the end of the file, at least `min` characters, holding
/// a run of at least two script characters, not one character repeated, and
/// passing the filter.
pub open spec fn dbcs_keeps(
    cp: DbcsCodePage,
    buf: Seq<u8>,
    start: int,
    end: int,
    min: nat,
    f: Option<(Seq<char>, bool)>,
) -> bool {
    let (text, bad) = decoded_without_bom(dbcs_label(cp), buf.subrange(start, end));
    &&& !bad
    &&& terminated(buf, end)
    &&& text.len() >= min
    &&& runs(text, dbcs_script(cp), text.len()).1 >= MIN_SCRIPT_RUN
    &&& !one_char_repeated(text)
    &&& passes_view(f, text)
}

/// The strings a double-byte scan of `buf[i..len]` reports, in order.
pub open spec fn dbcs_found(
    cp: DbcsCodePage,
    buf: Seq<u8>,
    len: int,
    i: int,
    min: nat,
    f: Option<(Seq<char>, bool)>,
) -> Seq<(int, int, Seq<char>)>
    decreases len - i,
{
    if i < 0 || i >= len {
        seq![]
    } else {
        let end = dbcs_run_end(cp, buf, len, i);
        proof {
            lemma_dbcs_run_bounds(cp, buf, len, i);
        }
        if end == i {
            dbcs_found(cp, buf, len, i + 1, min, f)
        } else {
            (if dbcs_keeps(cp, buf, i, end, min, f) {
                seq![(i, end - i, decoded_without_bom(dbcs_label(cp), buf.subrange(i, end)).0)]
            } else {
                seq![]
            }) + dbcs_found(cp, buf, len, end, min, f)
        }
    }
}

/// Decodes `bytes` in the code page without looking for a byte-order mark:
/// the text, and whether malformed input was met.
fn decode_code_page(cp: DbcsCodePage, bytes: &[u8]) -> (r: (String, bool))
    ensures
        (r.0@, r.1) == decoded_without_bom(dbcs_label(cp), bytes@),
{
    let label = match cp {
        DbcsCodePage::Cp949 => "EUC-KR",
        DbcsCodePage::Cp936 => "GBK",
    };
    match decode_no_bom(label, bytes) {
        Some(p) => p,
        None => (String::new(), true),
    }
}

fn dbcs_unit_at(cp: DbcsCodePage, buffer: &[u8], e: usize, len: usize) -> (n: usize)
    requires
        e < len <= buffer@.len(),
    ensures
        n == dbcs_unit(cp, buffer@, e as int, len as int),
{
    let b = buffer[e];
    if b < 0x80 {
        if is_ascii_text(b) {
            1
        } else {
            0
        }
    } else {
        let lead = match cp {
            DbcsCodePage::Cp949 => euckr_lead(b),
            DbcsCodePage::Cp936 => gbk_lead(b),
        };
        if lead && e + 1 < len && euckr_trail(buffer[e + 1]) {
            2
        } else {
            0
        }
    }
}

/// Scans `buffer[range]` for text in a double-byte code page and appends
/// what it finds to `out` (see `dbcs_found`), stopping as soon as `out`
/// holds `cap` strings.
pub fn scan_dbcs(
    buffer: &[u8],
    range: std::ops::Range<usize>,
    cp: DbcsCodePage,
    min: usize,
    cap: usize,
    re: Option<&TextFilter>,
    out: &mut Vec<FoundString>,
)
    ensures
        ({
            let len = if range.end < buffer@.len() { range.end as int } else { buffer@.len() as int };
            let i0 = if range.start < len { range.start as int } else { len };
            hits(final(out)@) == emit(hits(old(out)@), dbcs_found(cp, buffer@, len, i0, min as nat, filter_view(re)), cap as nat).0
        }),
        final(out)@.take(old(out)@.len() as int) == old(out)@,
        rows_show_offsets(final(out)@, old(out)@.len() as int),
{
    let len = if range.end < buffer.len() { range.end } else { buffer.len() };
    let mut i = if range.start < len { range.start } else { len };
    let ghost i0 = i as int;
    let ghost total = dbcs_found(cp, buffer@, len as int, i0, min as nat, filter_view(re));
    let ghost old_out = out@;
    let ghost mut hs: Seq<(int, int, Seq<char>)> = seq![];
    assert(hs + dbcs_found(cp, buffer@, len as int, i as int, min as nat, filter_view(re)) =~= total);
    let script = match cp {
        DbcsCodePage::Cp949 => Script::Hangul,
        DbcsCodePage::Cp936 => Script::Cjk,
    };
    while i < len
        invariant
            i0 <= i <= len <= buffer@.len(),
            len == (if range.end < buffer@.len() { range.end as int } else { buffer@.len() as int }),
            i0 == (if range.start < len { range.start as int } else { len as int }),
            old_out == old(out)@,
            script == dbcs_script(cp),
            total == dbcs_found(cp, buffer@, len as int, i0, min as nat, filter_view(re)),
            hs + dbcs_found(cp, buffer@, len as int, i as int, min as nat, filter_view(re)) == total,
            emit(hits(old_out), hs, cap as nat) == (hits(out@), false),
            old_out.len() <= out@.len(),
            forall|k: int| 0 <= k < old_out.len() ==> out@[k] == old_out[k],
            rows_show_offsets(out@, old_out.len() as int),
        decreases len - i,
    {
        let start = i;
        let mut end = i;
        let mut going = true;
        proof {
            lemma_dbcs_run_bounds(cp, buffer@, len as int, start as int);
        }
        while going && end < len
            invariant
                start <= end <= len <= buffer@.len(),
                dbcs_run_end(cp, buffer@, len as int, start as int) == dbcs_run_end(cp, buffer@, len as int, end as int),
                !going ==> dbcs_run_end(cp, buffer@, len as int, end as int) == end,
            decreases (len - end) as int + if going { 1int } else { 0int },
        {
            let n = dbcs_unit_at(cp, buffer, end, len);
            if n == 0 {
                going = false;
            } else {
                end = end + n;
            }
        }
        proof {
            lemma_dbcs_run_bounds(cp, buffer@, len as int, start as int);
            lemma_dbcs_run_bounds(cp, buffer@, len as int, end as int);
        }
        if end == start {
            i = i + 1;
        } else {
            let run = vstd::slice::slice_subrange(buffer, start, end);
            let (text, bad) = decode_code_page(cp, run);
            let is_terminated = end == buffer.len() || buffer[end] == 0;
            let count = crate::text::chars_of(text.as_str()).len();
            let keep = !bad && is_terminated && count >= min
                && longest_script_run(text.as_str(), script) >= MIN_SCRIPT_RUN
                && !is_one_char_repeated(text.as_str()) && accepts(re, text.as_str());
            if keep {
                let ghost c = (start as int, (end - start) as int, text@);
                proof {
                    assert(dbcs_found(cp, buffer@, len as int, i as int, min as nat, filter_view(re))
                        == seq![c] + dbcs_found(cp, buffer@, len as int, end as int, min as nat, filter_view(re)));
                    lemma_emit_push(hits(old_out), hs, c, cap as nat);
                }
                push_found(out, start, text.as_str(), end - start, Ghost(old_out.len() as int));
                proof {
                    let rest = dbcs_found(cp, buffer@, len as int, end as int, min as nat, filter_view(re));
                    assert(hs.push(c) + rest =~= hs + (seq![c] + rest));
                    hs = hs.push(c);
                    assert(hs + rest == total);
                }
                if out.len() >= cap {
                    proof {
                        let rest = dbcs_found(cp, buffer@, len as int, end as int, min as nat, filter_view(re));
                        lemma_emit_done(hits(old_out), hs, rest, cap as nat);
                        assert(out@.take(old_out.len() as int) =~= old_out);
                    }
                    return;
                }
            } else {
                proof {
                    assert(dbcs_found(cp, buffer@, len as int, i as int, min as nat, filter_view(re))
                        =~= Seq::<(int, int, Seq<char>)>::empty() + dbcs_found(cp, buffer@, len as int, end as int, min as nat, filter_view(re)));
                }
            }
            i = end;
        }
    }
    proof {
        assert(dbcs_found(cp, buffer@, len as int, i as int, min as nat, filter_view(re)) =~= Seq::<(int, int, Seq<char>)>::empty());
        assert(hs =~= total);
        assert(out@.take(old_out.len() as int) =~= old_out);
    }
}

// ---------------------------------------------------------------------------
// UTF-16 (little-endian)
// ---------------------------------------------------------------------------

/// The little-endian 16-bit unit at `i`.
pub open spec fn unit16(buf: Seq<u8>, i: int) -> int {
    buf[i] + buf[i + 1] * 256
}

/// A UTF-16 unit that reads as text (the classes of `wide_text`).
pub open spec fn wide_code(u: int) -> bool {
    ||| (0x20 <= u && u <= 0x7E)
    ||| (0xA0 <= u && u <= 0x24F)
    ||| (0x370 <= u && u <= 0x3FF)
    ||| (0x400 <= u && u <= 0x4FF)
    ||| (0x2010 <= u && u <= 0x203A)
    ||| (0x20A0 <= u && u <= 0x20BF)
    ||| (0x3000 <= u && u <= 0x30FF)
    ||| (0x4E00 <= u && u <= 0x9FFF)
    ||| (0xAC00 <= u && u <= 0xD7A3)
    ||| (0xFF01 <= u && u <= 0xFF60)
}

/// The UTF-16 text run starting at `e`: where it ends, and its text.
pub open spec fn utf16_run(buf: Seq<u8>, len: int, e: int) -> (int, Seq<char>)
    decreases len - e,
{
    if 0 <= e && e + 1 < len && wide_code(unit16(buf, e)) {
        let (end, t) = utf16_run(buf, len, e + 2);
        (end, seq![unit16(buf, e) as char] + t)
    } else {
        (e, seq![])
    }
}

/// Latin-1 and Latin Extended characters (U+00A0..U+024F) are UTF-16 text,
/// like printable ASCII: the scanner's unit test and the character class
/// both take them.
pub proof fn law_latin_is_wide_text(c: char)
    requires
        0xA0 <= (c as u32) <= 0x24F,
    ensures
        crate::hex::strings::wide_text(c),
        wide_code((c as u32) as int),
{
}

/// The scripts a UTF-16 run is read in: printable ASCII, Latin, Greek,
/// Cyrillic, general punctuation, currency signs, CJK punctuation and kana,
/// CJK ideographs, Hangul syllables and full-width forms are text to both the
/// scanner and the character class, and a control character is text to
/// neither.
pub proof fn law_wide_text_scripts(c: char)
    ensures
        ({
            let u = c as u32;
            (0x20 <= u <= 0x7E || 0xA0 <= u <= 0x24F || 0x370 <= u <= 0x3FF || 0x400 <= u <= 0x4FF || 0x2010 <= u
                <= 0x203A || 0x20A0 <= u <= 0x20BF || 0x3000 <= u <= 0x30FF || 0x4E00 <= u <= 0x9FFF || 0xAC00 <= u
                <= 0xD7A3 || 0xFF01 <= u <= 0xFF60) ==> crate::hex::strings::wide_text(c) && wide_code(u as int)
        }),
        ({
            let u = c as u32;
            (u <= 0x1F || 0x7F <= u <= 0x9F) ==> !crate::hex::strings::wide_text(c) && !wide_code(u as int)
        }),
{
}

/// A UTF-16LE run whose units are printable ASCII or Latin-1 and Latin
/// Extended characters is read whole: the run that starts at `e` reaches at
/// least `n` units, and its first `n` characters are those units.
pub proof fn law_latin_utf16_run(buf: Seq<u8>, len: int, e: int, n: nat)
    requires
        0 <= e,
        e + 2 * n <= len,
        forall|k: int|
            0 <= k < n ==> (0x20 <= #[trigger] unit16(buf, e + 2 * k) && unit16(buf, e + 2 * k) <= 0x7E) || (0xA0
                <= unit16(buf, e + 2 * k) && unit16(buf, e + 2 * k) <= 0x24F),
    ensures
        utf16_run(buf, len, e).0 >= e + 2 * n,
        utf16_run(buf, len, e).1.len() >= n,
        forall|k: int| 0 <= k < n ==> #[trigger] utf16_run(buf, len, e).1[k] == unit16(buf, e + 2 * k) as char,
    decreases n,
{
    lemma_utf16_run_bounds(buf, len, e);
    if n > 0 {
        assert(unit16(buf, e + 2 * 0) == unit16(buf, e));
        assert(wide_code(unit16(buf, e)));
        assert forall|k: int|
            0 <= k < n - 1 implies (0x20 <= #[trigger] unit16(buf, (e + 2) + 2 * k) && unit16(buf, (e + 2) + 2 * k)
                <= 0x7E) || (0xA0 <= unit16(buf, (e + 2) + 2 * k) && unit16(buf, (e + 2) + 2 * k) <= 0x24F) by {
            assert((e + 2) + 2 * k == e + 2 * (k + 1));
        }
        law_latin_utf16_run(buf, len, e + 2, (n - 1) as nat);
        let (end, t) = utf16_run(buf, len, e + 2);
        assert(utf16_run(buf, len, e) == (end, seq![unit16(buf, e) as char] + t));
        assert forall|k: int| 0 <= k < n implies #[trigger] utf16_run(buf, len, e).1[k] == unit16(buf, e + 2 * k) as char by {
            if k > 0 {
                assert(utf16_run(buf, len, e).1[k] == t[k - 1]);
                assert((e + 2) + 2 * (k - 1) == e + 2 * k);
            }
        }
    }
}

pub proof fn lemma_utf16_run_bounds(buf: Seq<u8>, len: int, e: int)
    requires
        0 <= e <= len,
    ensures
        e <= utf16_run(buf, len, e).0 <= len,
        utf16_run(buf, len, e).0 == e <==> !(e + 1 < len && wide_code(unit16(buf, e))),
    decreases len - e,
{
    if 0 <= e && e + 1 < len && wide_code(unit16(buf, e)) {
        lemma_utf16_run_bounds(buf, len, e + 2);
    }
}

/// Whether UTF-16 text is really single-byte text read at the wrong width.
pub open spec fn single_byte_text(t: Seq<char>) -> bool {
    let (w, p) = wide_counts(t, t.len());
    w >= 3 && p == w
}

/// Whether the UTF-16 run `text` at `start..end` is kept: a NUL unit (or the
/// end of the file) on both sides, at least `min` characters, not one
/// character repeated, not single-byte text, and passing the filter.
pub open spec fn utf16_keeps(buf: Seq<u8>, start: int, end: int, text: Seq<char>, min: nat, f: Option<(Seq<char>, bool)>) -> bool {
    &&& (end + 1 >= buf.len() || unit16(buf, end) == 0)
    &&& (start < 2 || unit16(buf, start - 2) == 0)
    &&& text.len() >= min
    &&& !one_char_repeated(text)
    &&& !single_byte_text(text)
    &&& passes_view(f, text)
}

/// The strings a UTF-16 scan of `buf[i..len]` reports, in order; the scan
/// moves in steps of two bytes.
pub open spec fn utf16_found(buf: Seq<u8>, len: int, i: int, min: nat, f: Option<(Seq<char>, bool)>) -> Seq<
    (int, int, Seq<char>),
>
    decreases len + 2 - i,
{
    if i < 0 || i + 1 >= len {
        seq![]
    } else {
        let (end, text) = utf16_run(buf, len, i);
        proof {
            lemma_utf16_run_bounds(buf, len, i);
        }
        if end == i {
            utf16_found(buf, len, i + 2, min, f)
        } else {
            (if utf16_keeps(buf, i, end, text, min, f) {
                seq![(i, end - i, text)]
            } else {
                seq![]
            }) + utf16_found(buf, len, end + 2, min, f)
        }
    }
}

/// The text character of the unit at `e`, if it is one.
fn utf16_char_at(buffer: &[u8], e: usize) -> (r: Option<char>)
    requires
        e + 1 < buffer@.len(),
    ensures
        r is Some <==> wide_code(unit16(buffer@, e as int)),
        r matches Some(c) ==> c == unit16(buffer@, e as int) as char,
{
    let u: u32 = (buffer[e] as u32) + (buffer[e + 1] as u32) * 256;
    match char_from_u32(u) {
        Some(c) => {
            if is_wide_text(c) {
                Some(c)
            } else {
                None
            }
        },
        None => None,
    }
}

/// Scans `buffer[range]` for UTF-16LE text, starting at an even offset, and
/// appends what it finds to `out` (see `utf16_found`), stopping as soon as
/// `out` holds `cap` strings.
pub fn scan_utf16(
    buffer: &[u8],
    range: std::ops::Range<usize>,
    min: usize,
    cap: usize,
    re: Option<&TextFilter>,
    out: &mut Vec<FoundString>,
)
    requires
        range.start < usize::MAX,
    ensures
        ({
            let len = if range.end < buffer@.len() { range.end as int } else { buffer@.len() as int };
            let s = range.start + range.start % 2;
            let i0 = if s < len { s } else { len };
            hits(final(out)@) == emit(hits(old(out)@), utf16_found(buffer@, len, i0, min as nat, filter_view(re)), cap as nat).0
        }),
        final(out)@.take(old(out)@.len() as int) == old(out)@,
        rows_show_offsets(final(out)@, old(out)@.len() as int),
{
    let len = if range.end < buffer.len() { range.end } else { buffer.len() };
    let s = range.start + range.start % 2;
    let mut i = if s < len { s } else { len };
    let ghost i0 = i as int;
    let ghost total = utf16_found(buffer@, len as int, i0, min as nat, filter_view(re));
    let ghost old_out = out@;
    let ghost mut hs: Seq<(int, int, Seq<char>)> = seq![];
    assert(hs + utf16_found(buffer@, len as int, i as int, min as nat, filter_view(re)) =~= total);
    while i < len && len - i > 1
        invariant
            i0 <= i <= len,
            len <= buffer@.len(),
            len == (if range.end < buffer@.len() { range.end as int } else { buffer@.len() as int }),
            i0 == (if range.start + range.start % 2 < len { range.start + range.start % 2 } else { len as int }),
            old_out == old(out)@,
            total == utf16_found(buffer@, len as int, i0, min as nat, filter_view(re)),
            hs + utf16_found(buffer@, len as int, i as int, min as nat, filter_view(re)) == total,
            emit(hits(old_out), hs, cap as nat) == (hits(out@), false),
            old_out.len() <= out@.len(),
            forall|k: int| 0 <= k < old_out.len() ==> out@[k] == old_out[k],
            rows_show_offsets(out@, old_out.len() as int),
        decreases len - i,
    {
        let start = i;
        let mut text = String::new();
        let mut count: usize = 0;
        let mut going = true;
        proof {
            lemma_utf16_run_bounds(buffer@, len as int, start as int);
        }
        while going && i < len && len - i > 1
            invariant
                start <= i <= len <= buffer@.len(),
                count == text@.len(),
                count <= i - start,
                utf16_run(buffer@, len as int, start as int) == ({
                    let (e2, t2) = utf16_run(buffer@, len as int, i as int);
                    (e2, text@ + t2)
                }),
                !going ==> utf16_run(buffer@, len as int, i as int) == (i as int, Seq::<char>::empty()),
            decreases (len - i) as int + if going { 1int } else { 0int },
        {
            match utf16_char_at(buffer, i) {
                Some(c) => {
                    let ghost old_text = text@;
                    push_char(&mut text, c);
                    count = count + 1;
                    proof {
                        let (e2, t2) = utf16_run(buffer@, len as int, (i + 2) as int);
                        assert(old_text + (seq![c] + t2) =~= text@ + t2);
                    }
                    i = i + 2;
                },
                None => {
                    going = false;
                },
            }
        }
        proof {
            lemma_utf16_run_bounds(buffer@, len as int, start as int);
            lemma_utf16_run_bounds(buffer@, len as int, i as int);
            assert(text@ + Seq::<char>::empty() =~= text@);
        }
        if i == start {
            i = i + 2;
        } else {
            let end = i;
            let is_terminated = end >= buffer.len() || buffer.len() - end <= 1 || (buffer[end] == 0 && buffer[end + 1] == 0);
            let preceded = start < 2 || (buffer[start - 2] == 0 && buffer[start - 1] == 0);
            let keep = is_terminated && preceded && count >= min && !is_one_char_repeated(text.as_str())
                && !looks_like_single_byte_text(text.as_str()) && accepts(re, text.as_str());
            if keep {
                let ghost c = (start as int, (end - start) as int, text@);
                proof {
                    assert(utf16_found(buffer@, len as int, start as int, min as nat, filter_view(re))
                        == seq![c] + utf16_found(buffer@, len as int, end + 2, min as nat, filter_view(re)));
                    lemma_emit_push(hits(old_out), hs, c, cap as nat);
                }
                push_found(out, start, text.as_str(), end - start, Ghost(old_out.len() as int));
                proof {
                    let rest = utf16_found(buffer@, len as int, end + 2, min as nat, filter_view(re));
                    assert(hs.push(c) + rest =~= hs + (seq![c] + rest));
                    hs = hs.push(c);
                    assert(hs + rest == total);
                }
                if out.len() >= cap {
                    proof {
                        let rest = utf16_found(buffer@, len as int, end + 2, min as nat, filter_view(re));
                        lemma_emit_done(hits(old_out), hs, rest, cap as nat);
                        assert(out@.take(old_out.len() as int) =~= old_out);
                    }
                    return;
                }
            } else {
                proof {
                    assert(utf16_found(buffer@, len as int, start as int, min as nat, filter_view(re))
                        =~= Seq::<(int, int, Seq<char>)>::empty() + utf16_found(buffer@, len as int, end + 2, min as nat, filter_view(re)));
                }
            }
            if len - end >= 2 {
                i = end + 2;
            } else {
                proof {
                    assert(utf16_found(buffer@, len as int, end + 2, min as nat, filter_view(re))
                        =~= utf16_found(buffer@, len as int, len as int, min as nat, filter_view(re)));
                }
                i = len;
            }
        }
    }
    proof {
        assert(utf16_found(buffer@, len as int, i as int, min as nat, filter_view(re)) =~= Seq::<(int, int, Seq<char>)>::empty());
        assert(hs =~= total);
        assert(out@.take(old_out.len() as int) =~= old_out);
    }
}

// ---------------------------------------------------------------------------
// ASCII
// ---------------------------------------------------------------------------

/// Longest candidate an ASCII scan collects before reporting it and starting
/// a new one.
pub const MAX_CANDIDATE_LEN: usize = 4096;

/// Bytes read as the characters with the same codes.
pub open spec fn byte_chars(s: Seq<u8>) -> Seq<char> {
    s.map_values(|b: u8| b as char)
}

/// The ASCII scan after the first `n` bytes: the strings reported so far (a
/// run is reported when a non-text byte ends it, or as soon as it reaches
/// `MAX_CANDIDATE_LEN` bytes, if it is at least `min` bytes long and passes
/// the filter), and the length of the run still being collected.
pub open spec fn ascii_scan(buf: Seq<u8>, n: nat, min: nat, f: Option<(Seq<char>, bool)>) -> (
    Seq<(int, int, Seq<char>)>,
    nat,
)
    decreases n,
{
    if n == 0 || n > buf.len() {
        (seq![], 0)
    } else {
        let (hs, siz) = ascii_scan(buf, (n - 1) as nat, min, f);
        let off = n - 1;
        if ascii_text(buf[off]) {
            let s2 = siz + 1;
            if s2 >= MAX_CANDIDATE_LEN {
                let t = byte_chars(buf.subrange(n - s2, n as int));
                (
                    if s2 >= min && passes_view(f, t) {
                        hs.push((n - s2, s2 as int, t))
                    } else {
                        hs
                    },
                    0,
                )
            } else {
                (hs, s2)
            }
        } else {
            let t = byte_chars(buf.subrange(off - siz, off));
            (
                if siz >= min && passes_view(f, t) {
                    hs.push((off - siz, siz as int, t))
                } else {
                    hs
                },
                0,
            )
        }
    }
}

pub proof fn lemma_ascii_scan_run(buf: Seq<u8>, n: nat, min: nat, f: Option<(Seq<char>, bool)>)
    requires
        n <= buf.len(),
    ensures
        ascii_scan(buf, n, min, f).1 <= n,
        ascii_scan(buf, n, min, f).1 < MAX_CANDIDATE_LEN,
    decreases n,
{
    if n > 0 {
        lemma_ascii_scan_run(buf, (n - 1) as nat, min, f);
    }
}

/// What the scan has reported after `n` bytes is where its report after `m`
/// bytes begins.
pub proof fn lemma_ascii_scan_prefix(buf: Seq<u8>, n: nat, m: nat, min: nat, f: Option<(Seq<char>, bool)>)
    requires
        n <= m <= buf.len(),
    ensures
        ascii_scan(buf, n, min, f).0.len() <= ascii_scan(buf, m, min, f).0.len(),
        ascii_scan(buf, m, min, f).0.take(ascii_scan(buf, n, min, f).0.len() as int) == ascii_scan(
            buf,
            n,
            min,
            f,
        ).0,
    decreases m - n,
{
    if n < m {
        lemma_ascii_scan_prefix(buf, n, (m - 1) as nat, min, f);
        let a = ascii_scan(buf, n, min, f).0;
        let b = ascii_scan(buf, (m - 1) as nat, min, f).0;
        let c = ascii_scan(buf, m, min, f).0;
        assert(c.take(a.len() as int) =~= b.take(a.len() as int));
    } else {
        let a = ascii_scan(buf, n, min, f).0;
        assert(a.take(a.len() as int) =~= a);
    }
}

/// The run still being collected when the scan of `buf` ends.
pub open spec fn ascii_tail(buf: Seq<u8>, min: nat, f: Option<(Seq<char>, bool)>) -> (int, Seq<char>) {
    let siz = ascii_scan(buf, buf.len(), min, f).1;
    (siz as int, byte_chars(buf.subrange(buf.len() - siz, buf.len() as int)))
}

/// Scans the whole buffer for runs of printable ASCII and appends what it
/// finds to `out`: the runs `ascii_scan` reports, stopping as soon as `out`
/// holds `cap` strings, then the run left at the end of the buffer if it is
/// long enough, passes the filter and `out` still has room.
pub fn scan_ascii(buffer: &[u8], min: usize, cap: usize, re: Option<&TextFilter>, out: &mut Vec<FoundString>)
    ensures
        ({
            let (o, done) = emit(hits(old(out)@), ascii_scan(buffer@, buffer@.len(), min as nat, filter_view(re)).0, cap as nat);
            let (siz, tail) = ascii_tail(buffer@, min as nat, filter_view(re));
            hits(final(out)@) == if siz >= min && passes_view(filter_view(re), tail) && o.len() < cap {
                o.push((buffer@.len() - siz, siz, tail))
            } else {
                o
            }
        }),
        final(out)@.take(old(out)@.len() as int) == old(out)@,
        rows_show_offsets(final(out)@, old(out)@.len() as int),
{
    let ghost old_out = out@;
    let ghost total = ascii_scan(buffer@, buffer@.len(), min as nat, filter_view(re)).0;
    let mut siz: usize = 0;
    let mut candidate = String::new();
    let mut offset: usize = 0;
    while offset < buffer.len()
        invariant
            offset <= buffer@.len(),
            old_out == old(out)@,
            total == ascii_scan(buffer@, buffer@.len(), min as nat, filter_view(re)).0,
            siz == ascii_scan(buffer@, offset as nat, min as nat, filter_view(re)).1,
            siz <= offset,
            candidate@ == byte_chars(buffer@.subrange(offset - siz, offset as int)),
            emit(hits(old_out), ascii_scan(buffer@, offset as nat, min as nat, filter_view(re)).0, cap as nat) == (
            hits(out@), false),
            old_out.len() <= out@.len(),
            forall|k: int| 0 <= k < old_out.len() ==> out@[k] == old_out[k],
            rows_show_offsets(out@, old_out.len() as int),
        decreases buffer.len() - offset,
    {
        let ghost hs = ascii_scan(buffer@, offset as nat, min as nat, filter_view(re)).0;
        proof {
            lemma_ascii_scan_run(buffer@, offset as nat, min as nat, filter_view(re));
        }
        let byte = buffer[offset];
        let mut flush: Option<usize> = None;
        if is_ascii_text(byte) {
            let ghost old_c = candidate@;
            push_char(&mut candidate, byte as char);
            siz = siz + 1;
            proof {
                assert(candidate@ =~= byte_chars(buffer@.subrange(offset + 1 - siz, offset + 1)));
            }
            if siz >= MAX_CANDIDATE_LEN {
                flush = Some(offset + 1 - siz);
            }
        } else {
            flush = Some(offset - siz);
        }
        match flush {
            Some(at) => {
                if siz >= min && accepts(re, candidate.as_str()) {
                    let ghost c = (at as int, siz as int, candidate@);
                    proof {
                        assert(ascii_scan(buffer@, (offset + 1) as nat, min as nat, filter_view(re)).0 == hs.push(c));
                        lemma_emit_push(hits(old_out), hs, c, cap as nat);
                    }
                    push_found(out, at, candidate.as_str(), siz, Ghost(old_out.len() as int));
                    if out.len() >= cap {
                        proof {
                            lemma_ascii_scan_prefix(buffer@, (offset + 1) as nat, buffer@.len(), min as nat, filter_view(re));
                            let p = hs.push(c);
                            assert(total =~= p + total.skip(p.len() as int));
                            lemma_emit_done(hits(old_out), p, total.skip(p.len() as int), cap as nat);
                            lemma_ascii_scan_run(buffer@, buffer@.len(), min as nat, filter_view(re));
                            assert(out@.take(old_out.len() as int) =~= old_out);
                        }
                        return;
                    }
                } else {
                    proof {
                        assert(ascii_scan(buffer@, (offset + 1) as nat, min as nat, filter_view(re)).0 == hs);
                    }
                }
                candidate = String::new();
                siz = 0;
            },
            None => {},
        }
        offset = offset + 1;
        proof {
            assert(candidate@ =~= byte_chars(buffer@.subrange(offset - siz, offset as int)));
        }
    }
    let ghost hs = ascii_scan(buffer@, buffer@.len(), min as nat, filter_view(re)).0;
    proof {
        lemma_ascii_scan_run(buffer@, buffer@.len(), min as nat, filter_view(re));
    }
    if siz >= min && accepts(re, candidate.as_str()) && out.len() < cap {
        push_found(out, buffer.len() - siz, candidate.as_str(), siz, Ghost(old_out.len() as int));
    }
    proof {
        assert(out@.take(old_out.len() as int) =~= old_out);
    }
}

} // verus!
