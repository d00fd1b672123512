//! What the text columns beside the hex bytes show: for each byte of the page,
//! the character that starts there and how many columns it takes, in the
//! column's encoding.
use vstd::prelude::*;

use crate::app::App;
use crate::codec::{canonical_name, decode_lossy, decoded, encoding_name, is_encoding_label};
use crate::hex::edit::displayed;
use crate::hex::string_scan::char_from_u32;
use crate::text::{is_whitespace, is_ws};

verus! {

/// `char::is_control`: the general category Cc, U+0000..U+001F and
/// U+007F..U+009F.
pub open spec fn is_control(c: char) -> bool {
    (c as u32) <= 0x1F || (0x7F <= (c as u32) && (c as u32) <= 0x9F)
}

fn control_char(c: char) -> (b: bool)
    ensures
        b == is_control(c),
{
    (c as u32) <= 0x1F || (0x7F <= (c as u32) && (c as u32) <= 0x9F)
}

/// What a cell shows for a decoded character `c`: printable ASCII as itself,
/// other ASCII as the placeholder `ng`, and a non-ASCII character as itself
/// unless it is white space.
pub open spec fn shown_char(c: char, ng: char) -> char {
    if (c as u32) < 128 {
        if 0x21 <= (c as u32) && (c as u32) <= 0x7E { c } else { ng }
    } else if !is_ws(c) {
        c
    } else {
        ng
    }
}

/// Columns a shown character takes: one for ASCII, two otherwise.
pub open spec fn cell_width(c: char) -> usize {
    if (c as u32) < 128 { 1 } else { 2 }
}

/// `cells` with a character of `len` bytes starting at `idx`: its own cell,
/// then within its bytes a filler of no width for each column it covers and
/// a blank for each byte beyond them.
pub open spec fn marked(cells: Seq<(char, usize)>, idx: int, ch: char, len: int) -> Seq<(char, usize)> {
    let w = cell_width(ch);
    Seq::new(
        cells.len(),
        |k: int|
            if k == idx {
                (ch, w)
            } else if idx < k < idx + len {
                if k - idx < w { ('\0', 0usize) } else { (' ', 1usize) }
            } else {
                cells[k]
            },
    )
}

/// How the column reads bytes: as UTF-16 code units (little-endian when the
/// flag is set), or through `encoding_rs`.
pub open spec fn utf16_mode(label: Seq<char>) -> Option<bool> {
    if is_encoding_label(label) && encoding_name(label) == "UTF-16LE"@ {
        Some(true)
    } else if is_encoding_label(label) && encoding_name(label) == "UTF-16BE"@ {
        Some(false)
    } else {
        None
    }
}

/// The code unit at `i`.
pub open spec fn unit_at(p: Seq<u8>, i: int, le: bool) -> int {
    if le { p[i] + p[i + 1] * 256 } else { p[i] * 256 + p[i + 1] }
}

/// The character that `len` bytes from `idx` decode to in `label`, when
/// they decode cleanly to exactly one character that is neither U+FFFD nor a
/// control character.
pub open spec fn decoded_one(p: Seq<u8>, label: Seq<char>, idx: int, len: int) -> Option<char> {
    if idx + len <= p.len() && is_encoding_label(label) {
        let (t, err) = decoded(label, p.subrange(idx, idx + len));
        if !err && t.len() == 1 && t[0] != '\u{FFFD}' && !is_control(t[0]) {
            Some(t[0])
        } else {
            None
        }
    } else {
        None
    }
}

/// The first of 1 to 4 bytes from `idx` that decode to one character (see
/// `decoded_one`), with how many bytes it took.
pub open spec fn first_decoded(p: Seq<u8>, label: Seq<char>, idx: int) -> Option<(char, int)> {
    match decoded_one(p, label, idx, 1) {
        Some(c) => Some((c, 1)),
        None => match decoded_one(p, label, idx, 2) {
            Some(c) => Some((c, 2)),
            None => match decoded_one(p, label, idx, 3) {
                Some(c) => Some((c, 3)),
                None => match decoded_one(p, label, idx, 4) {
                    Some(c) => Some((c, 4)),
                    None => None,
                },
            },
        },
    }
}

/// Both bytes of a code unit at `idx` shown as the placeholder.
pub open spec fn two_placeholders(cells: Seq<(char, usize)>, idx: int, ng: char) -> Seq<(char, usize)> {
    cells.update(idx, (ng, 1usize)).update(idx + 1, (ng, 1usize))
}

/// One step of the scan at `idx`: where it goes next, and the cells after it.
/// A cell already covered by a wide character is passed over; UTF-16 reads a
/// code unit (or a surrogate pair) at a time; other encodings show a line feed
/// as `◙` and otherwise take the shortest run of bytes that decodes to one
/// character, moving on by one byte either way.
pub open spec fn scan_step(p: Seq<u8>, label: Seq<char>, ng: char, idx: int, cells: Seq<(char, usize)>) -> (int, Seq<(char, usize)>) {
    let n = p.len() as int;
    if cells[idx].1 == 0 {
        (idx + 1, cells)
    } else {
        match utf16_mode(label) {
            Some(le) => if idx + 2 <= n {
                let cu = unit_at(p, idx, le);
                if 0xD800 <= cu && cu <= 0xDBFF {
                    if idx + 4 <= n && 0xDC00 <= unit_at(p, idx + 2, le) && unit_at(p, idx + 2, le) <= 0xDFFF {
                        let cp = 0x10000 + (cu - 0xD800) * 1024 + (unit_at(p, idx + 2, le) - 0xDC00);
                        let c = (cp as u32) as char;
                        if !is_control(c) && !is_ws(c) {
                            (idx + 4, marked(cells, idx, shown_char(c, ng), 4))
                        } else {
                            (idx + 2, two_placeholders(cells, idx, ng))
                        }
                    } else {
                        (idx + 2, two_placeholders(cells, idx, ng))
                    }
                } else if !(0xDC00 <= cu && cu <= 0xDFFF) {
                    let c = (cu as u32) as char;
                    if !is_control(c) {
                        (idx + 2, marked(cells, idx, shown_char(c, ng), 2))
                    } else {
                        (idx + 2, two_placeholders(cells, idx, ng))
                    }
                } else {
                    (idx + 2, two_placeholders(cells, idx, ng))
                }
            } else {
                (idx + 1, cells.update(idx, (ng, 1usize)))
            },
            None => if p[idx] == 0x0A {
                (idx + 1, cells.update(idx, ('\u{25D9}', 1usize)))
            } else {
                match first_decoded(p, label, idx) {
                    Some((c, len)) => (idx + 1, marked(cells, idx, shown_char(c, ng), len)),
                    None => (idx + 1, cells.update(idx, (ng, 1usize))),
                }
            },
        }
    }
}

/// The cells after scanning from `idx` to the end of the page.
pub open spec fn scan_cells(p: Seq<u8>, label: Seq<char>, ng: char, idx: int, cells: Seq<(char, usize)>) -> Seq<(char, usize)>
    decreases p.len() - idx,
{
    if idx < 0 || idx >= p.len() || cells.len() != p.len() {
        cells
    } else {
        let (next, after) = scan_step(p, label, ng, idx, cells);
        if next <= idx {
            cells
        } else {
            scan_cells(p, label, ng, next, after)
        }
    }
}

/// The cells of the page `p` in the column of encoding `label`, with `ng` as
/// the placeholder: every cell starts as the placeholder, one column wide.
pub open spec fn column_cells(p: Seq<u8>, label: Seq<char>, ng: char) -> Seq<(char, usize)> {
    scan_cells(p, label, ng, 0, Seq::new(p.len(), |_i: int| (ng, 1usize)))
}

/// The cell of byte `i` (see `column_cells`).
pub open spec fn column_cell(p: Seq<u8>, label: Seq<char>, ng: char, i: int) -> (char, usize) {
    column_cells(p, label, ng)[i]
}

proof fn lemma_scan_len(p: Seq<u8>, label: Seq<char>, ng: char, idx: int, cells: Seq<(char, usize)>)
    ensures
        scan_cells(p, label, ng, idx, cells).len() == cells.len(),
    decreases p.len() - idx,
{
    if !(idx < 0 || idx >= p.len() || cells.len() != p.len()) {
        let (next, after) = scan_step(p, label, ng, idx, cells);
        if next > idx {
            assert(after.len() == cells.len());
            lemma_scan_len(p, label, ng, next, after);
        }
    }
}

fn mark(cells: &mut Vec<(char, usize)>, idx: usize, ch: char, len: usize)
    requires
        idx < old(cells)@.len(),
        len <= 4,
    ensures
        final(cells)@ == marked(old(cells)@, idx as int, ch, len as int),
{
    let ghost c0 = cells@;
    let w: usize = if (ch as u32) < 128 { 1 } else { 2 };
    cells.set(idx, (ch, w));
    let n = cells.len();
    let mut j: usize = 1;
    while j < len
        invariant
            1 <= j,
            j <= len || j == 1,
            idx < n,
            n == cells@.len(),
            len <= 4,
            w == cell_width(ch),
            forall|k: int|
                0 <= k < n ==> #[trigger] cells@[k] == if k == idx {
                    (ch, w)
                } else if idx < k < idx + j {
                    if k - idx < w { ('\0', 0usize) } else { (' ', 1usize) }
                } else {
                    c0[k]
                },
        decreases len - j,
    {
        if j < n - idx {
            if j < w {
                cells.set(idx + j, ('\0', 0));
            } else {
                cells.set(idx + j, (' ', 1));
            }
        }
        j = j + 1;
    }
    assert(cells@ =~= marked(c0, idx as int, ch, len as int));
}

fn unit(p: &[u8], i: usize, le: bool) -> (u: u32)
    requires
        i + 2 <= p@.len(),
    ensures
        u as int == unit_at(p@, i as int, le),
        u <= 0xFFFF,
{
    if le {
        (p[i] as u32) + (p[i + 1] as u32) * 256
    } else {
        (p[i] as u32) * 256 + (p[i + 1] as u32)
    }
}

/// The character `len` bytes from `idx` decode to (see `decoded_one`).
fn decode_one(p: &[u8], label: &str, idx: usize, len: usize) -> (r: Option<char>)
    requires
        idx <= p@.len(),
    ensures
        r == decoded_one(p@, label@, idx as int, len as int),
{
    if len > p.len() - idx {
        return None;
    }
    let slice = vstd::slice::slice_subrange(p, idx, idx + len);
    match decode_lossy(label, slice) {
        None => None,
        Some((text, err)) => {
            let cs = crate::text::chars_of(text.as_str());
            if !err && cs.len() == 1 && cs[0] != '\u{FFFD}' && !control_char(cs[0]) {
                Some(cs[0])
            } else {
                None
            }
        },
    }
}

/// The cells of the page `page` in the text column of the encoding labelled
/// `label`, `non_graphic` standing for what does not print (see
/// `column_cells`): for each byte, the character shown there and its width in
/// columns, a width of zero marking a byte covered by the character before.
pub fn text_column_cells(page: &[u8], label: &str, non_graphic: char) -> (cells: Vec<(char, usize)>)
    ensures
        cells@.len() == page@.len(),
        forall|i: int| 0 <= i < page@.len() ==> cells@[i] == column_cell(page@, label@, non_graphic, i),
{
    let n = page.len();
    let ng = non_graphic;
    let mut cells: Vec<(char, usize)> = Vec::new();
    while cells.len() < n
        invariant
            cells@.len() <= n,
            forall|k: int| 0 <= k < cells@.len() ==> #[trigger] cells@[k] == (ng, 1usize),
        decreases n - cells@.len(),
    {
        cells.push((ng, 1));
    }
    let ghost init = cells@;
    assert(init =~= Seq::new(page@.len(), |_i: int| (ng, 1usize)));
    let mode: Option<bool> = match canonical_name(label) {
        Some(name) => {
            let nm = name.as_str();
            if crate::codec::is_named(nm, "UTF-16LE") {
                Some(true)
            } else if crate::codec::is_named(nm, "UTF-16BE") {
                Some(false)
            } else {
                None
            }
        },
        None => None,
    };
    proof {
        reveal_strlit("UTF-16LE");
        reveal_strlit("UTF-16BE");
    }
    assert(mode == utf16_mode(label@));
    let mut idx: usize = 0;
    while idx < n
        invariant
            idx <= n,
            n == page@.len(),
            cells@.len() == n,
            mode == utf16_mode(label@),
            scan_cells(page@, label@, ng, 0, init) == scan_cells(page@, label@, ng, idx as int, cells@),
        decreases n - idx,
    {
        let ghost before = cells@;
        let ghost want = scan_step(page@, label@, ng, idx as int, before);
        let next: usize;
        if cells[idx].1 == 0 {
            next = idx + 1;
        } else {
            match mode {
                Some(le) => {
                    if n - idx >= 2 {
                        let cu = unit(page, idx, le);
                        if 0xD800 <= cu && cu <= 0xDBFF {
                            let mut found = false;
                            if n - idx >= 4 {
                                let low = unit(page, idx + 2, le);
                                if 0xDC00 <= low && low <= 0xDFFF {
                                    let cp: u32 = 0x10000 + (cu - 0xD800) * 1024 + (low - 0xDC00);
                                    match char_from_u32(cp) {
                                        Some(c) => {
                                            if !control_char(c) && !is_whitespace(c) {
                                                let ch = shown(c, ng);
                                                mark(&mut cells, idx, ch, 4);
                                                found = true;
                                            }
                                        },
                                        None => {},
                                    }
                                }
                            }
                            if found {
                                next = idx + 4;
                            } else {
                                cells.set(idx, (ng, 1));
                                cells.set(idx + 1, (ng, 1));
                                next = idx + 2;
                            }
                        } else if !(0xDC00 <= cu && cu <= 0xDFFF) {
                            let mut found = false;
                            match char_from_u32(cu) {
                                Some(c) => {
                                    if !control_char(c) {
                                        let ch = shown(c, ng);
                                        mark(&mut cells, idx, ch, 2);
                                        found = true;
                                    }
                                },
                                None => {},
                            }
                            if !found {
                                cells.set(idx, (ng, 1));
                                cells.set(idx + 1, (ng, 1));
                            }
                            next = idx + 2;
                        } else {
                            cells.set(idx, (ng, 1));
                            cells.set(idx + 1, (ng, 1));
                            next = idx + 2;
                        }
                    } else {
                        cells.set(idx, (ng, 1));
                        next = idx + 1;
                    }
                },
                None => {
                    if page[idx] == 0x0A {
                        cells.set(idx, ('\u{25D9}', 1));
                    } else {
                        let mut found = false;
                        let mut len: usize = 1;
                        while len <= 4 && !found
                            invariant
                                1 <= len <= 5,
                                idx < n,
                                n == page@.len(),
                                cells@.len() == n,
                                found ==> (first_decoded(page@, label@, idx as int) matches Some((c, l)) && cells@
                                    == marked(before, idx as int, shown_char(c, ng), l)),
                                !found ==> cells@ == before,
                                !found ==> forall|l: int| 1 <= l < len ==> decoded_one(page@, label@, idx as int, l) is None,
                            decreases 5 - len,
                        {
                            match decode_one(page, label, idx, len) {
                                Some(c) => {
                                    let ch = shown(c, ng);
                                    mark(&mut cells, idx, ch, len);
                                    found = true;
                                },
                                None => {},
                            }
                            len = len + 1;
                        }
                        if !found {
                            cells.set(idx, (ng, 1));
                        }
                    }
                    next = idx + 1;
                },
            }
        }
        assert(next as int == want.0);
        assert(cells@ =~= want.1);
        idx = next;
    }
    proof {
        lemma_scan_len(page@, label@, ng, idx as int, cells@);
    }
    cells
}

/// What a cell shows for `c` (see `shown_char`).
fn shown(c: char, ng: char) -> (r: char)
    ensures
        r == shown_char(c, ng),
{
    if (c as u32) < 128 {
        if 0x21 <= (c as u32) && (c as u32) <= 0x7E { c } else { ng }
    } else if !is_whitespace(c) {
        c
    } else {
        ng
    }
}

/// The bytes the page on screen shows: from the page's start, at most its
/// size, inside the file, pending edits applied.
pub open spec fn page_view(app: App) -> Seq<u8> {
    let len = app.file_info.buffer@.len();
    let start = app.reader.page_start as int;
    let avail: int = if len >= start { len - start } else { 0 };
    let n: int = if avail < app.reader.page_current_size { avail } else { app.reader.page_current_size as int };
    Seq::new(n as nat, |i: int| displayed(app, (start + i) as usize))
}

/// The bytes of the page on screen, pending edits applied (see `page_view`).
pub fn page_bytes(app: &App) -> (r: Vec<u8>)
    ensures
        r@ == page_view(*app),
{
    let len = app.file_info.buffer.len();
    let start = app.reader.page_start;
    let avail = if len >= start { len - start } else { 0 };
    let n = if avail < app.reader.page_current_size { avail } else { app.reader.page_current_size };
    let mut r: Vec<u8> = Vec::new();
    let mut i: usize = 0;
    while i < n
        invariant
            i <= n,
            n <= avail,
            avail == (if len >= start { len - start } else { 0 }),
            len == app.file_info.buffer@.len(),
            start == app.reader.page_start,
            r@ == Seq::new(i as nat, |k: int| displayed(*app, (start + k) as usize)),
        decreases n - i,
    {
        let b = crate::hex::edit::displayed_byte(app, start + i);
        r.push(b);
        i = i + 1;
        assert(r@ =~= Seq::new(i as nat, |k: int| displayed(*app, (start + k) as usize)));
    }
    assert(r@ =~= page_view(*app));
    r
}

} // verus!
