//! The init file: which lines would end the session, and rewriting the lines
//! the editor owns while leaving the rest of the file as the user wrote it.
use vstd::prelude::*;

use crate::text::{
    chars_of, chars_eq, copy_range, is_whitespace, is_ws, lower_seq, push_chars, string_of,
    to_ascii_lower_chars, trim, trim_chars,
};

verus! {

/// The first index at or after `i` that is not whitespace (or the end).
pub open spec fn skip_ws(s: Seq<char>, i: int) -> int
    decreases s.len() - i,
{
    if i < 0 || i >= s.len() {
        if i < 0 { 0 } else { s.len() as int }
    } else if is_ws(s[i]) {
        skip_ws(s, i + 1)
    } else {
        i
    }
}

/// The first index at or after `i` that is whitespace (or the end).
pub open spec fn skip_word(s: Seq<char>, i: int) -> int
    decreases s.len() - i,
{
    if i < 0 || i >= s.len() {
        if i < 0 { 0 } else { s.len() as int }
    } else if !is_ws(s[i]) {
        skip_word(s, i + 1)
    } else {
        i
    }
}

proof fn lemma_skip_bounds(s: Seq<char>, i: int)
    requires
        0 <= i <= s.len(),
    ensures
        i <= skip_ws(s, i) <= s.len(),
        i <= skip_word(s, i) <= s.len(),
    decreases s.len() - i,
{
    if i < s.len() {
        lemma_skip_bounds(s, i + 1);
    }
}

fn skip_ws_from(s: &[char], i: usize) -> (r: usize)
    requires
        i <= s@.len(),
    ensures
        r == skip_ws(s@, i as int),
        i <= r <= s@.len(),
{
    let mut j = i;
    while j < s.len() && is_whitespace(s[j])
        invariant
            i <= j <= s@.len(),
            skip_ws(s@, i as int) == skip_ws(s@, j as int),
        decreases s.len() - j,
    {
        j = j + 1;
    }
    j
}

fn skip_word_from(s: &[char], i: usize) -> (r: usize)
    requires
        i <= s@.len(),
    ensures
        r == skip_word(s@, i as int),
        i <= r <= s@.len(),
{
    let mut j = i;
    while j < s.len() && !is_whitespace(s[j])
        invariant
            i <= j <= s@.len(),
            skip_word(s@, i as int) == skip_word(s@, j as int),
        decreases s.len() - j,
    {
        j = j + 1;
    }
    j
}

/// `s` without its leading colons.
pub open spec fn strip_colons(s: Seq<char>) -> Seq<char>
    decreases s.len(),
{
    if s.len() > 0 && s[0] == ':' {
        strip_colons(s.drop_first())
    } else {
        s
    }
}

/// The first whitespace-separated word of `s`, or nothing.
pub open spec fn first_word(s: Seq<char>) -> Seq<char> {
    let a = skip_ws(s, 0);
    s.subrange(a, skip_word(s, a))
}

pub open spec fn is_quit_word(w: Seq<char>) -> bool {
    w == "q"@ || w == "quit"@ || w == "wq"@ || w == "x"@ || w == "exit"@
}

/// Whether `line` is one of the commands that end the session (`q`, `quit`,
/// `wq`, `x`, `exit`, any case, with or without leading colons and
/// arguments).
pub fn is_quit_command(line: &str) -> (b: bool)
    ensures
        b == is_quit_word(lower_seq(first_word(strip_colons(line@)))),
{
    let cs = chars_of(line);
    let mut i: usize = 0;
    assert(cs@.skip(0) =~= cs@);
    while i < cs.len() && cs[i] == ':'
        invariant
            i <= cs@.len(),
            strip_colons(cs@) == strip_colons(cs@.skip(i as int)),
        decreases cs.len() - i,
    {
        assert(cs@.skip(i as int).drop_first() =~= cs@.skip(i + 1));
        i = i + 1;
    }
    let t = copy_range(cs.as_slice(), i, cs.len());
    assert(t@ =~= cs@.skip(i as int));
    assert(strip_colons(t@) == t@);
    let a = skip_ws_from(t.as_slice(), 0);
    let b = skip_word_from(t.as_slice(), a);
    let w = copy_range(t.as_slice(), a, b);
    let head = to_ascii_lower_chars(w.as_slice());
    let h = head.as_slice();
    chars_eq(h, chars_of("q").as_slice()) || chars_eq(h, chars_of("quit").as_slice())
        || chars_eq(h, chars_of("wq").as_slice()) || chars_eq(h, chars_of("x").as_slice())
        || chars_eq(h, chars_of("exit").as_slice())
}


/// `l` without a final carriage return.
pub open spec fn strip_cr(l: Seq<char>) -> Seq<char> {
    if l.len() > 0 && l.last() == '\r' { l.drop_last() } else { l }
}

/// The lines of `s[i..]`, `cur` being the part of a line already read
/// (`str::lines`: split after each `\n`, a `\r` before it dropped, no empty
/// line after a final `\n`).
pub open spec fn lines_from(s: Seq<char>, i: int, cur: Seq<char>) -> Seq<Seq<char>>
    decreases s.len() - i,
{
    if i < 0 || i >= s.len() {
        if cur.len() > 0 { seq![cur] } else { seq![] }
    } else if s[i] == '\n' {
        seq![strip_cr(cur)] + lines_from(s, i + 1, seq![])
    } else {
        lines_from(s, i + 1, cur.push(s[i]))
    }
}

pub open spec fn lines(s: Seq<char>) -> Seq<Seq<char>> {
    lines_from(s, 0, seq![])
}

/// The settings the editor owns, by slot: 0 the first encoding, 1 the second,
/// 2 the language; `k` is a keyword in lower case.
pub open spec fn slot_of(k: Seq<char>) -> Option<nat> {
    if k == "enc1"@ || k == "encoding1"@ || k == "hex_mode_encoding"@ {
        Some(0)
    } else if k == "enc2"@ || k == "encoding2"@ || k == "hex_mode_second_encoding"@ {
        Some(1)
    } else if k == "lang"@ || k == "language"@ {
        Some(2)
    } else {
        None
    }
}

/// The keyword written for a slot that is not in the file yet.
pub open spec fn slot_name(slot: nat) -> Seq<char> {
    if slot == 0 { "enc1"@ } else if slot == 1 { "enc2"@ } else { "lang"@ }
}

/// Where the body of `line` starts: after the indentation and one optional `:`.
pub open spec fn body_start(line: Seq<char>) -> int {
    let a = skip_ws(line, 0);
    if a < line.len() && line[a] == ':' { a + 1 } else { a }
}

/// If `line` is a `set` command for an owned setting: its slot, everything up
/// to and including the keyword, and the trailing comment if there is one.
pub open spec fn owned_slot_spec(line: Seq<char>) -> Option<(nat, Seq<char>, Option<Seq<char>>)> {
    let b = body_start(line);
    let i0 = skip_ws(line, b);
    let i1 = skip_word(line, i0);
    let i2 = skip_ws(line, i1);
    let i3 = skip_word(line, i2);
    if i0 == i1 || i2 == i3 || lower_seq(line.subrange(i0, i1)) != "set"@ {
        None
    } else {
        match slot_of(lower_seq(line.subrange(i2, i3))) {
            None => None,
            Some(slot) => {
                let tail = line.skip(i3);
                Some((
                    slot,
                    line.take(i3),
                    if tail.contains('#') {
                        Some(tail.skip(first_hash(tail)))
                    } else {
                        None
                    },
                ))
            },
        }
    }
}

/// The index of the first `#` in `t`.
pub open spec fn first_hash(t: Seq<char>) -> int {
    choose|i: int| 0 <= i < t.len() && t[i] == '#' && forall|j: int| 0 <= j < i ==> t[j] != '#'
}

/// An owned line rebuilt around a new value, keeping its head and comment.
pub open spec fn rebuilt(head: Seq<char>, value: Seq<char>, comment: Option<Seq<char>>) -> Seq<char> {
    match comment {
        Some(c) => head + " "@ + value + " "@ + c,
        None => head + " "@ + value,
    }
}

/// The lines kept or rebuilt from `ls`, and which slots have been written.
pub open spec fn merge_lines(ls: Seq<Seq<char>>, vals: Seq<Seq<char>>) -> (Seq<Seq<char>>, Seq<bool>)
    decreases ls.len(),
{
    if ls.len() == 0 {
        (seq![], seq![false, false, false])
    } else {
        let (out, w) = merge_lines(ls.drop_last(), vals);
        let l = ls.last();
        match owned_slot_spec(l) {
            Some((slot, head, comment)) => if w[slot as int] {
                (out, w)
            } else {
                (out.push(rebuilt(head, vals[slot as int], comment)), w.update(slot as int, true))
            },
            None => (out.push(l), w),
        }
    }
}

/// The `set` lines for the slots not yet written, in slot order.
pub open spec fn missing_lines(w: Seq<bool>, vals: Seq<Seq<char>>) -> Seq<Seq<char>> {
    (if w[0] { seq![] } else { seq!["set "@ + slot_name(0) + " "@ + vals[0]] })
        + (if w[1] { seq![] } else { seq!["set "@ + slot_name(1) + " "@ + vals[1]] })
        + (if w[2] { seq![] } else { seq!["set "@ + slot_name(2) + " "@ + vals[2]] })
}

/// `ls` joined with `sep` between consecutive lines.
pub open spec fn join(ls: Seq<Seq<char>>, sep: Seq<char>) -> Seq<char>
    decreases ls.len(),
{
    if ls.len() == 0 {
        seq![]
    } else if ls.len() == 1 {
        ls[0]
    } else {
        join(ls.drop_last(), sep) + sep + ls.last()
    }
}

pub open spec fn contains_crlf(s: Seq<char>) -> bool {
    exists|i: int| 0 <= i < s.len() - 1 && #[trigger] s[i] == '\r' && s[i + 1] == '\n'
}

/// The file written when there is nothing to preserve.
pub open spec fn fresh_initfile(enc1: Seq<char>, enc2: Seq<char>, lang: Seq<char>) -> Seq<char> {
    "# dezes configuration\nset enc1 "@ + enc1 + "\nset enc2 "@ + enc2 + "\nset lang "@ + lang + "\n"@
}

/// The init file after saving `enc1`, `enc2` and `lang` over `existing`.
pub open spec fn merged(existing: Option<Seq<char>>, enc1: Seq<char>, enc2: Seq<char>, lang: Seq<char>) -> Seq<char> {
    match existing {
        None => fresh_initfile(enc1, enc2, lang),
        Some(e) => if trim(e).len() == 0 {
            fresh_initfile(enc1, enc2, lang)
        } else {
            let nl = if contains_crlf(e) { "\r\n"@ } else { "\n"@ };
            let vals = seq![enc1, enc2, lang];
            let (out, w) = merge_lines(lines(e), vals);
            let text = join(out + missing_lines(w, vals), nl);
            if (e.len() > 0 && e.last() == '\n') || text.len() > 0 {
                text + nl
            } else {
                text
            }
        },
    }
}


pub open spec fn line_views(v: Seq<Vec<char>>) -> Seq<Seq<char>> {
    v.map_values(|l: Vec<char>| l@)
}

/// `str::lines`, on characters.
fn split_lines(e: &[char]) -> (out: Vec<Vec<char>>)
    ensures
        line_views(out@) == lines(e@),
{
    let mut out: Vec<Vec<char>> = Vec::new();
    let mut cur: Vec<char> = Vec::new();
    let mut i: usize = 0;
    while i < e.len()
        invariant
            i <= e@.len(),
            line_views(out@) + lines_from(e@, i as int, cur@) == lines(e@),
        decreases e.len() - i,
    {
        if e[i] == '\n' {
            let n = cur.len();
            let line = if n > 0 && cur[n - 1] == '\r' {
                copy_range(cur.as_slice(), 0, n - 1)
            } else {
                copy_range(cur.as_slice(), 0, n)
            };
            assert(line@ =~= strip_cr(cur@));
            let ghost o0 = line_views(out@);
            out.push(line);
            assert(line_views(out@) =~= o0.push(line@));
            assert(o0 + (seq![line@] + lines_from(e@, i + 1, seq![])) =~= o0.push(line@) + lines_from(e@, i + 1, seq![]));
            cur = Vec::new();
            assert(cur@ =~= Seq::<char>::empty());
        } else {
            cur.push(e[i]);
        }
        i = i + 1;
    }
    if cur.len() > 0 {
        let ghost o0 = line_views(out@);
        let ghost c = cur@;
        out.push(cur);
        assert(line_views(out@) =~= o0 + seq![c]);
    } else {
        assert(line_views(out@) + Seq::<Seq<char>>::empty() =~= line_views(out@));
    }
    out
}

/// The slot a lower-case keyword names, as `slot_of` gives it.
fn slot_for(k: &[char]) -> (r: Option<usize>)
    ensures
        match slot_of(k@) {
            Some(s) => r == Some(s as usize),
            None => r is None,
        },
{
    if chars_eq(k, chars_of("enc1").as_slice()) || chars_eq(k, chars_of("encoding1").as_slice())
        || chars_eq(k, chars_of("hex_mode_encoding").as_slice()) {
        Some(0)
    } else if chars_eq(k, chars_of("enc2").as_slice()) || chars_eq(k, chars_of("encoding2").as_slice())
        || chars_eq(k, chars_of("hex_mode_second_encoding").as_slice()) {
        Some(1)
    } else if chars_eq(k, chars_of("lang").as_slice()) || chars_eq(k, chars_of("language").as_slice()) {
        Some(2)
    } else {
        None
    }
}

/// If `line` is a `set` command for one of the owned settings: its slot, the
/// line up to and including the keyword, and its trailing comment.
fn owned_slot(line: &[char]) -> (r: Option<(usize, Vec<char>, Option<Vec<char>>)>)
    ensures
        match owned_slot_spec(line@) {
            None => r is None,
            Some((slot, head, comment)) => r matches Some((s2, h2, c2)) && s2 == slot && h2@ == head
                && match comment {
                Some(c) => c2 matches Some(cc) && cc@ == c,
                None => c2 is None,
            },
        },
{
    let a = skip_ws_from(line, 0);
    let b = if a < line.len() && line[a] == ':' { a + 1 } else { a };
    let i0 = skip_ws_from(line, b);
    let i1 = skip_word_from(line, i0);
    let i2 = skip_ws_from(line, i1);
    let i3 = skip_word_from(line, i2);
    if i0 == i1 || i2 == i3 {
        return None;
    }
    let w1 = copy_range(line, i0, i1);
    let lw1 = to_ascii_lower_chars(w1.as_slice());
    if !chars_eq(lw1.as_slice(), chars_of("set").as_slice()) {
        return None;
    }
    let key = copy_range(line, i2, i3);
    let lk = to_ascii_lower_chars(key.as_slice());
    let slot = match slot_for(lk.as_slice()) {
        Some(s) => s,
        None => {
            return None;
        },
    };
    let head = copy_range(line, 0, i3);
    assert(head@ =~= line@.take(i3 as int));
    let tail = copy_range(line, i3, line.len());
    assert(tail@ =~= line@.skip(i3 as int));
    let mut j: usize = 0;
    while j < tail.len() && tail[j] != '#'
        invariant
            j <= tail@.len(),
            forall|q: int| 0 <= q < j ==> tail@[q] != '#',
        decreases tail.len() - j,
    {
        j = j + 1;
    }
    if j < tail.len() {
        proof {
            assert(tail@.contains('#')) by {
                assert(tail@[j as int] == '#');
            }
            let f = first_hash(tail@);
            assert(0 <= j < tail@.len() && tail@[j as int] == '#' && forall|q: int| 0 <= q < j ==> tail@[q] != '#');
            if f > j {
                assert(tail@[j as int] == '#');
            }
            assert(f == j);
        }
        let comment = copy_range(tail.as_slice(), j, tail.len());
        assert(comment@ =~= tail@.skip(j as int));
        Some((slot, head, Some(comment)))
    } else {
        assert(!tail@.contains('#'));
        Some((slot, head, None))
    }
}

/// Appends `ls` joined with `sep` to `out`.
fn push_joined(out: &mut Vec<char>, ls: &Vec<Vec<char>>, sep: &Vec<char>)
    ensures
        final(out)@ == old(out)@ + join(line_views(ls@), sep@),
{
    let mut i: usize = 0;
    let ghost start = out@;
    assert(line_views(ls@).take(0) =~= Seq::<Seq<char>>::empty());
    while i < ls.len()
        invariant
            i <= ls@.len(),
            out@ == start + join(line_views(ls@).take(i as int), sep@),
        decreases ls.len() - i,
    {
        let ghost before = line_views(ls@).take(i as int);
        let ghost after = line_views(ls@).take(i + 1);
        assert(after.drop_last() =~= before);
        if i > 0 {
            push_all(out, sep);
        }
        push_all(out, &ls[i]);
        proof {
            if i == 0 {
                assert(after =~= seq![ls@[0]@]);
            }
            assert(out@ =~= start + join(after, sep@));
        }
        i = i + 1;
    }
    assert(line_views(ls@).take(i as int) =~= line_views(ls@));
}

fn push_all(out: &mut Vec<char>, cs: &Vec<char>)
    ensures
        final(out)@ == old(out)@ + cs@,
{
    let mut i: usize = 0;
    while i < cs.len()
        invariant
            i <= cs@.len(),
            out@ == old(out)@ + cs@.take(i as int),
        decreases cs.len() - i,
    {
        out.push(cs[i]);
        i = i + 1;
        assert(out@ =~= old(out)@ + cs@.take(i as int));
    }
    assert(cs@.take(i as int) =~= cs@);
}

/// `set <name> <value>`.
fn set_line(name: &str, value: &Vec<char>) -> (l: Vec<char>)
    ensures
        l@ == "set "@ + name@ + " "@ + value@,
{
    let mut l = chars_of("set ");
    let n = chars_of(name);
    push_all(&mut l, &n);
    let sp = chars_of(" ");
    push_all(&mut l, &sp);
    push_all(&mut l, value);
    l
}

pub open spec fn opt_view(o: Option<&str>) -> Option<Seq<char>> {
    match o {
        Some(s) => Some(s@),
        None => None,
    }
}

/// Rewrites only the lines the editor owns (the two encodings and the
/// language), leaving comments, blank lines, other commands, the keyword the
/// user spelled, any trailing comment and the line endings as they were; a
/// second line for the same setting is dropped, and settings not in the file
/// are appended. With nothing to preserve, a fresh file is written.
pub fn merge_initfile(existing: Option<&str>, enc1: &str, enc2: &str, lang: &str) -> (r: String)
    ensures
        r@ == merged(opt_view(existing), enc1@, enc2@, lang@),
{
    let e = match existing {
        None => {
            return fresh(enc1, enc2, lang);
        },
        Some(e) => e,
    };
    let cs = chars_of(e);
    let t = trim_chars(cs.as_slice());
    if t.len() == 0 {
        return fresh(enc1, enc2, lang);
    }
    let mut crlf = false;
    let mut i: usize = 0;
    while i < cs.len() && cs.len() - i > 1
        invariant
            i <= cs@.len(),
            cs@.len() >= 1,
            i <= cs@.len() - 1,
            crlf == exists|k: int| 0 <= k < i && #[trigger] cs@[k] == '\r' && cs@[k + 1] == '\n',
        decreases cs.len() - i,
    {
        if cs[i] == '\r' && cs[i + 1] == '\n' {
            crlf = true;
        }
        i = i + 1;
    }
    assert(crlf == contains_crlf(cs@)) by {
        assert(i == cs@.len() - 1);
    }
    let nl: Vec<char> = if crlf { chars_of("\r\n") } else { chars_of("\n") };
    let ended = cs.len() > 0 && cs[cs.len() - 1] == '\n';
    let ls = split_lines(cs.as_slice());
    let vals: Vec<Vec<char>> = vec![chars_of(enc1), chars_of(enc2), chars_of(lang)];
    let ghost vv = seq![enc1@, enc2@, lang@];
    assert(line_views(vals@) =~= vv);
    let mut out: Vec<Vec<char>> = Vec::new();
    let mut written: Vec<bool> = vec![false, false, false];
    let mut k: usize = 0;
    assert(line_views(ls@).take(0) =~= Seq::<Seq<char>>::empty());
    assert(written@ =~= seq![false, false, false]);
    while k < ls.len()
        invariant
            k <= ls@.len(),
            vals@.len() == 3,
            line_views(vals@) == vv,
            written@.len() == 3,
            merge_lines(line_views(ls@).take(k as int), vv) == (line_views(out@), written@),
        decreases ls.len() - k,
    {
        let ghost pre = line_views(ls@).take(k as int);
        assert(line_views(ls@).take(k + 1).drop_last() =~= pre);
        assert(line_views(ls@).take(k + 1).last() == ls@[k as int]@);
        match owned_slot(ls[k].as_slice()) {
            Some((slot, head, comment)) => {
                if !written[slot] {
                    let mut l = head;
                    let sp = chars_of(" ");
                    push_all(&mut l, &sp);
                    push_all(&mut l, &vals[slot]);
                    match comment {
                        Some(c) => {
                            push_all(&mut l, &sp);
                            push_all(&mut l, &c);
                        },
                        None => {},
                    }
                    let ghost o0 = line_views(out@);
                    out.push(l);
                    assert(line_views(out@) =~= o0.push(l@));
                    written.set(slot, true);
                }
            },
            None => {
                let l = ls[k].clone();
                let ghost o0 = line_views(out@);
                out.push(l);
                assert(line_views(out@) =~= o0.push(l@));
            },
        }
        k = k + 1;
    }
    assert(line_views(ls@).take(k as int) =~= line_views(ls@));
    let ghost o1 = line_views(out@);
    let ghost w = written@;
    if !written[0] {
        let l = set_line("enc1", &vals[0]);
        out.push(l);
    }
    let ghost o2 = line_views(out@);
    if !written[1] {
        let l = set_line("enc2", &vals[1]);
        out.push(l);
    }
    let ghost o3 = line_views(out@);
    if !written[2] {
        let l = set_line("lang", &vals[2]);
        out.push(l);
    }
    proof {
        let m0: Seq<Seq<char>> = if w[0] { seq![] } else { seq!["set "@ + slot_name(0) + " "@ + vv[0]] };
        let m1: Seq<Seq<char>> = if w[1] { seq![] } else { seq!["set "@ + slot_name(1) + " "@ + vv[1]] };
        let m2: Seq<Seq<char>> = if w[2] { seq![] } else { seq!["set "@ + slot_name(2) + " "@ + vv[2]] };
        assert(o2 =~= o1 + m0);
        assert(o3 =~= o2 + m1);
        assert(line_views(out@) =~= o3 + m2);
        assert(line_views(out@) =~= o1 + missing_lines(w, vv));
    }
    let mut text: Vec<char> = Vec::new();
    push_joined(&mut text, &out, &nl);
    if ended || text.len() > 0 {
        push_all(&mut text, &nl);
    }
    string_of(text.as_slice())
}

fn fresh(enc1: &str, enc2: &str, lang: &str) -> (r: String)
    ensures
        r@ == fresh_initfile(enc1@, enc2@, lang@),
{
    let mut r = crate::text::string_from("# dezes configuration\nset enc1 ");
    crate::text::push_str(&mut r, enc1);
    crate::text::push_str(&mut r, "\nset enc2 ");
    crate::text::push_str(&mut r, enc2);
    crate::text::push_str(&mut r, "\nset lang ");
    crate::text::push_str(&mut r, lang);
    crate::text::push_str(&mut r, "\n");
    assert(r@ =~= fresh_initfile(enc1@, enc2@, lang@));
    r
}

} // verus!
