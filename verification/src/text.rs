//! Character classes, number formatting and number parsing shared by the
//! editor's dialogs and messages.
use vstd::prelude::*;

verus! {

// ---------------------------------------------------------------------------
// Building strings
// ---------------------------------------------------------------------------

/// Appends one character to a string (`String::push`).
#[verifier::external_body]
pub(crate) fn push_char(s: &mut String, c: char)
    ensures
        final(s)@ == old(s)@.push(c),
{
    s.push(c);
}

/// The characters of `s`, in order.
pub fn chars_of(s: &str) -> (v: Vec<char>)
    ensures
        v@ == s@,
{
    let mut v: Vec<char> = Vec::new();
    for c in it: s.chars()
        invariant
            v@ == it.seq().take(it.index()),
            it.seq() == s@,
    {
        v.push(c);
    }
    v
}

/// Appends every character of `cs` to `out`.
pub fn push_chars(out: &mut String, cs: &[char])
    ensures
        final(out)@ == old(out)@ + cs@,
{
    let mut i: usize = 0;
    while i < cs.len()
        invariant
            i <= cs.len(),
            out@ == old(out)@ + cs@.take(i as int),
        decreases cs.len() - i,
    {
        push_char(out, cs[i]);
        i = i + 1;
        assert(cs@.take(i as int) =~= cs@.take(i - 1).push(cs@[i - 1]));
    }
    assert(cs@.take(cs.len() as int) =~= cs@);
}

/// Appends every character of `s` to `out`.
pub fn push_str(out: &mut String, s: &str)
    ensures
        final(out)@ == old(out)@ + s@,
{
    let cs = chars_of(s);
    push_chars(out, cs.as_slice());
}

/// An owned copy of `s`.
pub fn string_from(s: &str) -> (r: String)
    ensures
        r@ == s@,
{
    let mut r = String::new();
    push_str(&mut r, s);
    assert(r@ =~= s@);
    r
}

/// A string holding exactly the characters of `cs`.
pub fn string_of(cs: &[char]) -> (s: String)
    ensures
        s@ == cs@,
{
    let mut s = String::new();
    push_chars(&mut s, cs);
    assert(s@ =~= cs@);
    s
}

// ---------------------------------------------------------------------------
// Character classes
// ---------------------------------------------------------------------------

/// Unicode `White_Space`, the class `char::is_whitespace` tests.
pub open spec fn is_ws(c: char) -> bool {
    ||| c == '\t'
    ||| c == '\n'
    ||| c == '\u{0B}'
    ||| c == '\u{0C}'
    ||| c == '\r'
    ||| c == ' '
    ||| c == '\u{85}'
    ||| c == '\u{A0}'
    ||| c == '\u{1680}'
    ||| ('\u{2000}' <= c && c <= '\u{200A}')
    ||| c == '\u{2028}'
    ||| c == '\u{2029}'
    ||| c == '\u{202F}'
    ||| c == '\u{205F}'
    ||| c == '\u{3000}'
}

pub fn is_whitespace(c: char) -> (b: bool)
    ensures
        b == is_ws(c),
{
    c == '\t' || c == '\n' || c == '\u{0B}' || c == '\u{0C}' || c == '\r' || c == ' '
        || c == '\u{85}' || c == '\u{A0}' || c == '\u{1680}' || ('\u{2000}' <= c && c
        <= '\u{200A}') || c == '\u{2028}' || c == '\u{2029}' || c == '\u{202F}' || c
        == '\u{205F}' || c == '\u{3000}'
}

/// Value of `c` as a digit in `radix` (10 or 16), as `char::to_digit` gives it.
pub open spec fn digit_value(c: char, radix: u32) -> Option<u32> {
    if '0' <= c && c <= '9' {
        Some((c as u32 - '0' as u32) as u32)
    } else if radix == 16 && 'a' <= c && c <= 'f' {
        Some((c as u32 - 'a' as u32 + 10) as u32)
    } else if radix == 16 && 'A' <= c && c <= 'F' {
        Some((c as u32 - 'A' as u32 + 10) as u32)
    } else {
        None
    }
}

pub fn to_digit(c: char, radix: u32) -> (d: Option<u32>)
    requires
        radix == 10 || radix == 16,
    ensures
        d == digit_value(c, radix),
        d matches Some(v) ==> v < radix,
{
    if '0' <= c && c <= '9' {
        Some((c as u32) - ('0' as u32))
    } else if radix == 16 && 'a' <= c && c <= 'f' {
        Some((c as u32) - ('a' as u32) + 10)
    } else if radix == 16 && 'A' <= c && c <= 'F' {
        Some((c as u32) - ('A' as u32) + 10)
    } else {
        None
    }
}

pub open spec fn is_hex_digit(c: char) -> bool {
    digit_value(c, 16) is Some
}

/// Printable ASCII: `u8::is_ascii_graphic`.
pub open spec fn is_graphic_byte(b: u8) -> bool {
    0x21 <= b && b <= 0x7E
}

pub open spec fn is_ascii_upper_byte(b: u8) -> bool {
    0x41 <= b && b <= 0x5A
}

pub open spec fn is_ascii_lower_byte(b: u8) -> bool {
    0x61 <= b && b <= 0x7A
}

/// `b` with an ASCII letter's case folded to lower case.
pub open spec fn lower_byte(b: u8) -> u8 {
    if is_ascii_upper_byte(b) {
        (b + 32) as u8
    } else {
        b
    }
}

pub fn to_ascii_lower(b: u8) -> (r: u8)
    ensures
        r == lower_byte(b),
{
    if 0x41 <= b && b <= 0x5A {
        b + 32
    } else {
        b
    }
}

/// `c` with an ASCII letter's case folded to lower case.
pub open spec fn lower_char(c: char) -> char {
    if 'A' <= c && c <= 'Z' {
        ((c as u32) + 32) as char
    } else {
        c
    }
}

pub fn to_ascii_lower_char(c: char) -> (r: char)
    ensures
        r == lower_char(c),
{
    if 'A' <= c && c <= 'Z' {
        let v: u32 = (c as u32) + 32;
        assert(0x61 <= v <= 0x7A);
        char_from_ascii(v)
    } else {
        c
    }
}

/// The character with ASCII code `v`.
fn char_from_ascii(v: u32) -> (c: char)
    requires
        v < 0x80,
    ensures
        c == v as char,
{
    let b: u8 = v as u8;
    b as char
}

// ---------------------------------------------------------------------------
// Formatting numbers
// ---------------------------------------------------------------------------

/// Upper-case hex digit for `n < 16`.
pub open spec fn hex_char(n: nat) -> char {
    if n < 10 {
        (('0' as nat) + n) as char
    } else {
        (('A' as nat) + n - 10) as char
    }
}

pub fn hex_digit_char(n: u8) -> (c: char)
    requires
        n < 16,
    ensures
        c == hex_char(n as nat),
{
    if n < 10 {
        ((48u8 + n) as char)
    } else {
        ((55u8 + n) as char)
    }
}

/// `n` in upper-case hex with no leading zeros (`{:X}`).
pub open spec fn hex_digits(n: nat) -> Seq<char>
    decreases n,
{
    if n < 16 {
        seq![hex_char(n)]
    } else {
        hex_digits(n / 16).push(hex_char(n % 16))
    }
}

/// `n` in decimal (`{}`).
pub open spec fn dec_digits(n: nat) -> Seq<char>
    decreases n,
{
    if n < 10 {
        seq![hex_char(n)]
    } else {
        dec_digits(n / 10).push(hex_char(n % 10))
    }
}

/// `digits` left-padded with `'0'` to at least `width` characters.
pub open spec fn zero_pad(digits: Seq<char>, width: nat) -> Seq<char> {
    if digits.len() >= width {
        digits
    } else {
        Seq::new((width - digits.len()) as nat, |_i: int| '0') + digits
    }
}

/// A byte as exactly two upper-case hex digits (`{:02X}`).
pub open spec fn hex2(b: u8) -> Seq<char> {
    seq![hex_char((b / 16) as nat), hex_char((b % 16) as nat)]
}

pub proof fn lemma_hex2_is_padded(b: u8)
    ensures
        hex2(b) == zero_pad(hex_digits(b as nat), 2),
{
    reveal_with_fuel(hex_digits, 2);
    if b < 16 {
        assert(hex2(b) =~= zero_pad(hex_digits(b as nat), 2));
    } else {
        assert((b as nat) / 16 < 16);
        assert(hex2(b) =~= zero_pad(hex_digits(b as nat), 2));
    }
}

fn digits_of(n: u64, radix: u64) -> (v: Vec<char>)
    requires
        radix == 10 || radix == 16,
    ensures
        radix == 16 ==> v@ == hex_digits(n as nat),
        radix == 10 ==> v@ == dec_digits(n as nat),
        v@.len() >= 1,
    decreases n,
{
    if n < radix {
        let c = hex_digit_char(n as u8);
        let mut v: Vec<char> = Vec::new();
        v.push(c);
        assert(v@ =~= seq![c]);
        v
    } else {
        let mut v = digits_of(n / radix, radix);
        let c = hex_digit_char((n % radix) as u8);
        v.push(c);
        v
    }
}

/// Appends `n` in upper-case hex, zero-padded to `width` (`{:0width$X}`).
pub fn push_hex(out: &mut String, n: u64, width: usize)
    ensures
        final(out)@ == old(out)@ + zero_pad(hex_digits(n as nat), width as nat),
{
    let d = digits_of(n, 16);
    let mut i: usize = d.len();
    let ghost start = out@;
    while i < width
        invariant
            d@ == hex_digits(n as nat),
            d.len() <= i,
            i <= width || i == d.len(),
            out@ == start + Seq::new((i - d.len()) as nat, |_j: int| '0'),
        decreases width - i,
    {
        push_char(out, '0');
        i = i + 1;
        assert(out@ =~= start + Seq::new((i - d.len()) as nat, |_j: int| '0'));
    }
    push_chars(out, d.as_slice());
    assert(out@ =~= start + zero_pad(hex_digits(n as nat), width as nat));
}

/// Appends a byte as two upper-case hex digits.
pub fn push_hex2(out: &mut String, b: u8)
    ensures
        final(out)@ == old(out)@ + hex2(b),
{
    let hi = hex_digit_char(b / 16);
    let lo = hex_digit_char(b % 16);
    push_char(out, hi);
    push_char(out, lo);
    assert(out@ =~= old(out)@ + hex2(b));
}

/// Appends `n` in decimal.
pub fn push_dec(out: &mut String, n: u64)
    ensures
        final(out)@ == old(out)@ + dec_digits(n as nat),
{
    let d = digits_of(n, 10);
    push_chars(out, d.as_slice());
}

/// `n` in decimal, as a string.
pub fn dec_string(n: u64) -> (s: String)
    ensures
        s@ == dec_digits(n as nat),
{
    let mut s = String::new();
    push_dec(&mut s, n);
    assert(s@ =~= dec_digits(n as nat));
    s
}

/// `n` in upper-case hex, zero-padded to `width`, as a string.
pub fn hex_string(n: u64, width: usize) -> (s: String)
    ensures
        s@ == zero_pad(hex_digits(n as nat), width as nat),
{
    let mut s = String::new();
    push_hex(&mut s, n, width);
    assert(s@ =~= zero_pad(hex_digits(n as nat), width as nat));
    s
}

// ---------------------------------------------------------------------------
// Parsing numbers
// ---------------------------------------------------------------------------

/// Value of a run of digits, most significant first; `None` if any character is
/// not a digit in `radix`.
pub open spec fn digits_value(s: Seq<char>, radix: u32) -> Option<nat>
    decreases s.len(),
{
    if s.len() == 0 {
        Some(0)
    } else {
        match (digits_value(s.drop_last(), radix), digit_value(s.last(), radix)) {
            (Some(v), Some(d)) => Some(v * (radix as nat) + (d as nat)),
            _ => None,
        }
    }
}

/// What `from_str_radix` reads from `s`: an optional `+`, then at least one digit,
/// and a value no larger than `max`.
pub open spec fn parse_radix(s: Seq<char>, radix: u32, max: nat) -> Option<nat> {
    let body = if s.len() > 0 && s[0] == '+' {
        s.drop_first()
    } else {
        s
    };
    if body.len() == 0 {
        None
    } else {
        match digits_value(body, radix) {
            Some(v) => if v <= max {
                Some(v)
            } else {
                None
            },
            None => None,
        }
    }
}

proof fn lemma_digits_value_grows(s: Seq<char>, radix: u32)
    requires
        radix == 10 || radix == 16,
        digits_value(s, radix) is Some,
        s.len() > 0,
    ensures
        forall|k: int|
            0 < k <= s.len() ==> (digits_value(s.take(k), radix) is Some
                && digits_value(s.take(k), radix)->0 <= digits_value(s, radix)->0),
    decreases s.len(),
{
    assert(s.take(s.len() as int) =~= s);
    if s.len() > 1 {
        lemma_digits_value_grows(s.drop_last(), radix);
        assert forall|k: int| 0 < k <= s.len() implies (digits_value(s.take(k), radix) is Some
            && digits_value(s.take(k), radix)->0 <= digits_value(s, radix)->0) by {
            if k < s.len() {
                assert(s.drop_last().take(k) =~= s.take(k));
            }
        }
    }
}

/// `from_str_radix` for an unsigned value of at most `max`.
pub fn parse_unsigned(s: &[char], radix: u32, max: u64) -> (r: Option<u64>)
    requires
        radix == 10 || radix == 16,
    ensures
        match parse_radix(s@, radix, max as nat) {
            Some(v) => r == Some(v as u64),
            None => r is None,
        },
{
    let mut i: usize = 0;
    if s.len() > 0 && s[0] == '+' {
        i = 1;
    }
    let ghost body = if s@.len() > 0 && s@[0] == '+' {
        s@.drop_first()
    } else {
        s@
    };
    assert(body =~= s@.skip(i as int));
    if i == s.len() {
        return None;
    }
    let mut acc: u64 = 0;
    let ghost start = i;
    while i < s.len()
        invariant
            start <= i <= s.len(),
            start < s.len(),
            body == s@.skip(start as int),
            body == (if s@.len() > 0 && s@[0] == '+' { s@.drop_first() } else { s@ }),
            radix == 10 || radix == 16,
            digits_value(s@.subrange(start as int, i as int), radix) == Some(acc as nat),
            acc <= max,
        decreases s.len() - i,
    {
        let d = to_digit(s[i], radix);
        let ghost pre = s@.subrange(start as int, i as int);
        let ghost now = s@.subrange(start as int, i + 1);
        assert(now.drop_last() =~= pre);
        assert(now.last() == s@[i as int]);
        assert(now.len() == i + 1 - start);
        match d {
            None => {
                proof {
                    assert(digits_value(now, radix) is None);
                    if digits_value(body, radix) is Some {
                        lemma_digits_value_grows(body, radix);
                        let k: int = i + 1 - start;
                        assert(body.take(k) =~= now);
                        assert(digits_value(body.take(k), radix) is Some);
                        assert(false);
                    }
                    assert(digits_value(body, radix) is None);
                }
                return None;
            },
            Some(dv) => {
                let m: u64 = radix as u64;
                let d64: u64 = dv as u64;
                if d64 > max {
                    proof {
                        if digits_value(body, radix) is Some {
                            lemma_digits_value_grows(body, radix);
                            assert(body.take(i + 1 - start) =~= now);
                        }
                    }
                    return None;
                }
                let lim: u64 = (max - d64) / m;
                if acc > lim {
                    proof {
                        assert(acc * m + d64 > max) by (nonlinear_arith)
                            requires
                                acc > lim,
                                lim as int == (max - d64) as int / (m as int),
                                m > 0,
                                d64 <= max,
                        ;
                        if digits_value(body, radix) is Some {
                            lemma_digits_value_grows(body, radix);
                            assert(body.take(i + 1 - start) =~= now);
                        }
                    }
                    return None;
                }
                assert(acc * m + d64 <= max) by (nonlinear_arith)
                    requires
                        acc <= lim,
                        lim as int == (max - d64) as int / (m as int),
                        m > 0,
                        d64 <= max,
                ;
                acc = acc * m + d64;
            },
        }
        i = i + 1;
    }
    assert(s@.subrange(start as int, s.len() as int) =~= body);
    Some(acc)
}

/// `u8::from_str_radix(s, 16)`.
pub fn parse_hex_u8(s: &[char]) -> (r: Option<u8>)
    ensures
        match parse_radix(s@, 16, 255) {
            Some(v) => r == Some(v as u8),
            None => r is None,
        },
{
    match parse_unsigned(s, 16, 255) {
        Some(v) => Some(v as u8),
        None => None,
    }
}

// ---------------------------------------------------------------------------
// Splitting on whitespace
// ---------------------------------------------------------------------------

/// The whitespace-separated words of `s[i..]`, given that `cur` is the part of a
/// word already read (what `str::split_whitespace` yields).
pub open spec fn split_from(s: Seq<char>, i: int, cur: Seq<char>) -> Seq<Seq<char>>
    decreases s.len() - i,
{
    if i >= s.len() || i < 0 {
        if cur.len() > 0 {
            seq![cur]
        } else {
            seq![]
        }
    } else if is_ws(s[i]) {
        if cur.len() > 0 {
            seq![cur] + split_from(s, i + 1, seq![])
        } else {
            split_from(s, i + 1, seq![])
        }
    } else {
        split_from(s, i + 1, cur.push(s[i]))
    }
}

/// The words of `s`, split on Unicode whitespace.
pub open spec fn words(s: Seq<char>) -> Seq<Seq<char>> {
    split_from(s, 0, seq![])
}

pub open spec fn views(v: Seq<Vec<char>>) -> Seq<Seq<char>> {
    v.map_values(|t: Vec<char>| t@)
}

/// `str::split_whitespace`, on characters.
pub fn split_whitespace(cs: &[char]) -> (out: Vec<Vec<char>>)
    ensures
        views(out@) == words(cs@),
{
    let mut out: Vec<Vec<char>> = Vec::new();
    let mut cur: Vec<char> = Vec::new();
    let mut i: usize = 0;
    while i < cs.len()
        invariant
            i <= cs.len(),
            views(out@) + split_from(cs@, i as int, cur@) == words(cs@),
        decreases cs.len() - i,
    {
        let ghost before = views(out@);
        if is_whitespace(cs[i]) {
            if cur.len() > 0 {
                let word = cur;
                cur = Vec::new();
                out.push(word);
                assert(views(out@) =~= before.push(word@));
                assert(before + split_from(cs@, i as int, word@) == before + (seq![word@]
                    + split_from(cs@, i + 1, seq![])));
                assert(before.push(word@) + split_from(cs@, i + 1, seq![]) =~= before + (seq![
                    word@,
                ] + split_from(cs@, i + 1, seq![])));
                assert(cur@ =~= seq![]);
            } else {
                assert(cur@ =~= seq![]);
            }
        } else {
            cur.push(cs[i]);
        }
        i = i + 1;
    }
    if cur.len() > 0 {
        let ghost before = views(out@);
        let word = cur;
        out.push(word);
        assert(views(out@) =~= before.push(word@));
        assert(before + seq![word@] =~= before.push(word@));
    } else {
        assert(views(out@) + seq![] =~= views(out@));
    }
    out
}

/// Whether any character of `cs` is whitespace.
pub fn contains_whitespace(cs: &[char]) -> (b: bool)
    ensures
        b == exists|i: int| 0 <= i < cs@.len() && is_ws(#[trigger] cs@[i]),
{
    let mut i: usize = 0;
    while i < cs.len()
        invariant
            i <= cs.len(),
            forall|j: int| 0 <= j < i ==> !is_ws(#[trigger] cs@[j]),
        decreases cs.len() - i,
    {
        if is_whitespace(cs[i]) {
            return true;
        }
        i = i + 1;
    }
    false
}

/// Whether `a` and `b` hold the same characters.
pub fn chars_eq(a: &[char], b: &[char]) -> (r: bool)
    ensures
        r == (a@ == b@),
{
    if a.len() != b.len() {
        return false;
    }
    let mut i: usize = 0;
    while i < a.len()
        invariant
            i <= a.len(),
            a.len() == b.len(),
            forall|j: int| 0 <= j < i ==> a@[j] == b@[j],
        decreases a.len() - i,
    {
        if a[i] != b[i] {
            return false;
        }
        i = i + 1;
    }
    assert(a@ =~= b@);
    true
}

// ---------------------------------------------------------------------------
// Slicing, trimming and case folding
// ---------------------------------------------------------------------------

/// The characters `cs[a..b]`.
pub fn copy_range(cs: &[char], a: usize, b: usize) -> (r: Vec<char>)
    requires
        a <= b <= cs@.len(),
    ensures
        r@ == cs@.subrange(a as int, b as int),
{
    let mut r: Vec<char> = Vec::new();
    let mut i: usize = a;
    while i < b
        invariant
            a <= i <= b <= cs@.len(),
            r@ == cs@.subrange(a as int, i as int),
        decreases b - i,
    {
        r.push(cs[i]);
        i = i + 1;
        assert(r@ =~= cs@.subrange(a as int, i as int));
    }
    r
}

/// `s` without its leading whitespace (`str::trim_start`).
pub open spec fn trim_start(s: Seq<char>) -> Seq<char>
    decreases s.len(),
{
    if s.len() > 0 && is_ws(s[0]) {
        trim_start(s.drop_first())
    } else {
        s
    }
}

/// `s` without its trailing whitespace (`str::trim_end`).
pub open spec fn trim_end(s: Seq<char>) -> Seq<char>
    decreases s.len(),
{
    if s.len() > 0 && is_ws(s.last()) {
        trim_end(s.drop_last())
    } else {
        s
    }
}

/// `s` without whitespace at either end (`str::trim`).
pub open spec fn trim(s: Seq<char>) -> Seq<char> {
    trim_end(trim_start(s))
}

pub proof fn lemma_trim_start_skip(s: Seq<char>, i: int)
    requires
        0 <= i <= s.len(),
        forall|j: int| 0 <= j < i ==> is_ws(#[trigger] s[j]),
        i == s.len() || !is_ws(s[i]),
    ensures
        trim_start(s) == s.skip(i),
    decreases i,
{
    if i > 0 {
        assert forall|j: int| 0 <= j < i - 1 implies is_ws(#[trigger] s.drop_first()[j]) by {
            assert(s.drop_first()[j] == s[j + 1]);
        }
        lemma_trim_start_skip(s.drop_first(), i - 1);
        assert(s.drop_first().skip(i - 1) =~= s.skip(i));
    } else {
        assert(s.skip(0) =~= s);
    }
}

pub proof fn lemma_trim_end_take(s: Seq<char>, k: int)
    requires
        0 <= k <= s.len(),
        forall|j: int| k <= j < s.len() ==> is_ws(#[trigger] s[j]),
        k == 0 || !is_ws(s[k - 1]),
    ensures
        trim_end(s) == s.take(k),
    decreases s.len() - k,
{
    if k < s.len() {
        assert forall|j: int| k <= j < s.len() - 1 implies is_ws(#[trigger] s.drop_last()[j]) by {
            assert(s.drop_last()[j] == s[j]);
        }
        assert(is_ws(s.last()));
        lemma_trim_end_take(s.drop_last(), k);
        assert(s.drop_last().take(k) =~= s.take(k));
    } else {
        assert(s.take(k) =~= s);
    }
}

/// Index of the first non-whitespace character of `cs`, or its length.
pub fn trim_start_index(cs: &[char]) -> (i: usize)
    ensures
        i <= cs@.len(),
        trim_start(cs@) == cs@.skip(i as int),
        forall|j: int| 0 <= j < i ==> is_ws(#[trigger] cs@[j]),
        i == cs@.len() || !is_ws(cs@[i as int]),
{
    let mut i: usize = 0;
    while i < cs.len() && is_whitespace(cs[i])
        invariant
            i <= cs@.len(),
            forall|j: int| 0 <= j < i ==> is_ws(#[trigger] cs@[j]),
        decreases cs.len() - i,
    {
        i = i + 1;
    }
    proof {
        lemma_trim_start_skip(cs@, i as int);
    }
    i
}

/// One past the last non-whitespace character of `cs`, or zero.
pub fn trim_end_index(cs: &[char]) -> (k: usize)
    ensures
        k <= cs@.len(),
        trim_end(cs@) == cs@.take(k as int),
        forall|j: int| k <= j < cs@.len() ==> is_ws(#[trigger] cs@[j]),
        k == 0 || !is_ws(cs@[k - 1]),
{
    let mut k: usize = cs.len();
    while k > 0 && is_whitespace(cs[k - 1])
        invariant
            k <= cs@.len(),
            forall|j: int| k <= j < cs@.len() ==> is_ws(#[trigger] cs@[j]),
        decreases k,
    {
        k = k - 1;
    }
    proof {
        lemma_trim_end_take(cs@, k as int);
    }
    k
}

/// `str::trim`, on characters.
pub fn trim_chars(cs: &[char]) -> (r: Vec<char>)
    ensures
        r@ == trim(cs@),
{
    let i = trim_start_index(cs);
    let rest = copy_range(cs, i, cs.len());
    assert(rest@ =~= cs@.skip(i as int));
    let k = trim_end_index(rest.as_slice());
    copy_range(rest.as_slice(), 0, k)
}

/// `s` with ASCII letters folded to lower case (`str::to_ascii_lowercase`).
pub open spec fn lower_seq(s: Seq<char>) -> Seq<char> {
    s.map_values(|c: char| lower_char(c))
}

pub fn to_ascii_lower_chars(cs: &[char]) -> (r: Vec<char>)
    ensures
        r@ == lower_seq(cs@),
{
    let mut r: Vec<char> = Vec::new();
    let mut i: usize = 0;
    while i < cs.len()
        invariant
            i <= cs@.len(),
            r@ == lower_seq(cs@.take(i as int)),
        decreases cs.len() - i,
    {
        r.push(to_ascii_lower_char(cs[i]));
        i = i + 1;
        assert(r@ =~= lower_seq(cs@.take(i as int)));
    }
    assert(cs@.take(i as int) =~= cs@);
    r
}

/// Whether `a` and `b` are equal once ASCII letters are folded
/// (`str::eq_ignore_ascii_case`).
pub fn eq_ignore_case(a: &[char], b: &[char]) -> (r: bool)
    ensures
        r == (lower_seq(a@) == lower_seq(b@)),
{
    let la = to_ascii_lower_chars(a);
    let lb = to_ascii_lower_chars(b);
    chars_eq(la.as_slice(), lb.as_slice())
}

// ---------------------------------------------------------------------------
// Searching text
// ---------------------------------------------------------------------------

/// Unicode lower-casing of `s`, as `str::to_lowercase` does it.
pub uninterp spec fn lowercased(s: Seq<char>) -> Seq<char>;

/// `s` lower-cased (`str::to_lowercase`).
#[verifier::external_body]
pub(crate) fn to_lowercase(s: &str) -> (r: String)
    ensures
        r@ == lowercased(s@),
{
    s.to_lowercase()
}

/// Whether `needle` occurs in `hay` at `i`.
pub open spec fn occurs_at(hay: Seq<char>, needle: Seq<char>, i: int) -> bool {
    0 <= i && i + needle.len() <= hay.len() && hay.subrange(i, i + needle.len()) == needle
}

/// Whether `needle` occurs somewhere in `hay` (the empty needle always does).
pub open spec fn has_infix(hay: Seq<char>, needle: Seq<char>) -> bool {
    exists|i: int| occurs_at(hay, needle, i)
}

/// Whether `needle` occurs in `hay` at `i`.
fn matches_at(hay: &[char], needle: &[char], i: usize) -> (b: bool)
    requires
        i + needle@.len() <= hay@.len(),
    ensures
        b == occurs_at(hay@, needle@, i as int),
{
    let mut k: usize = 0;
    while k < needle.len()
        invariant
            k <= needle@.len(),
            i + needle@.len() <= hay@.len(),
            hay@.len() == hay.len(),
            forall|j: int| 0 <= j < k ==> hay@[i + j] == needle@[j],
        decreases needle.len() - k,
    {
        if hay[i + k] != needle[k] {
            assert(hay@.subrange(i as int, i + needle@.len())[k as int] != needle@[k as int]);
            return false;
        }
        k = k + 1;
    }
    assert(hay@.subrange(i as int, i + needle@.len()) =~= needle@);
    true
}

/// Whether `needle` occurs somewhere in `hay`.
pub fn contains_chars(hay: &[char], needle: &[char]) -> (b: bool)
    ensures
        b == has_infix(hay@, needle@),
{
    if needle.len() > hay.len() {
        assert forall|i: int| !occurs_at(hay@, needle@, i) by {}
        return false;
    }
    if needle.len() == 0 {
        assert(hay@.subrange(0, 0) =~= needle@);
        assert(occurs_at(hay@, needle@, 0));
        return true;
    }
    let last = hay.len() - needle.len();
    let mut i: usize = 0;
    while i <= last
        invariant
            last == hay@.len() - needle@.len(),
            hay@.len() == hay.len(),
            needle@.len() > 0,
            i <= last + 1,
            forall|j: int| 0 <= j < i ==> !occurs_at(hay@, needle@, j),
        decreases last + 1 - i,
    {
        if matches_at(hay, needle, i) {
            return true;
        }
        i = i + 1;
    }
    assert forall|j: int| !occurs_at(hay@, needle@, j) by {
        if 0 <= j < i {
        }
    }
    false
}

// ---------------------------------------------------------------------------
// Words of hex digits
// ---------------------------------------------------------------------------

/// A non-empty word of an even number of hex digits.
pub open spec fn hex_word(w: Seq<char>) -> bool {
    &&& w.len() > 0
    &&& w.len() % 2 == 0
    &&& forall|i: int| 0 <= i < w.len() ==> is_hex_digit(#[trigger] w[i])
}

/// The bytes the digit pairs of `w` spell, high digit first.
pub open spec fn hex_pair_values(w: Seq<char>) -> Seq<u8> {
    Seq::new(
        (w.len() / 2) as nat,
        |i: int| (digit_value(w[2 * i], 16)->0 * 16 + digit_value(w[2 * i + 1], 16)->0) as u8,
    )
}

/// A hex digit is ASCII, not white space, and none of the characters that
/// separate or mark hex in typed input.
pub proof fn lemma_hex_digit_char(c: char)
    requires
        is_hex_digit(c),
    ensures
        !is_ws(c),
        c != 'x' && c != 'X' && c != ',' && c != '?' && c != '+',
        (c as u32) < 0x80,
        digit_value(c, 16)->0 < 16,
{
}

/// Two hex digits parse as the byte they spell.
pub proof fn lemma_parse_hex_pair(w: Seq<char>)
    requires
        w.len() == 2,
        is_hex_digit(w[0]),
        is_hex_digit(w[1]),
    ensures
        parse_radix(w, 16, 255) == Some((digit_value(w[0], 16)->0 * 16 + digit_value(w[1], 16)->0) as nat),
{
    lemma_hex_digit_char(w[0]);
    lemma_hex_digit_char(w[1]);
    assert(w.drop_last().drop_last() =~= Seq::<char>::empty());
    assert(w.drop_last().last() == w[0]);
    let d = w.drop_last();
    assert(digits_value(d.drop_last(), 16) == Some(0nat));
    assert(digit_value(d.last(), 16) == Some(digit_value(w[0], 16)->0));
    assert(digits_value(d, 16) == Some(0nat * 16 + digit_value(w[0], 16)->0 as nat));
    assert(digits_value(d, 16) == Some(digit_value(w[0], 16)->0 as nat));
    assert(w[0] != '+');
}

proof fn lemma_split_plain(s: Seq<char>, i: int, j: int, cur: Seq<char>)
    requires
        0 <= i <= j <= s.len(),
        forall|k: int| i <= k < j ==> !is_ws(#[trigger] s[k]),
    ensures
        split_from(s, i, cur) == split_from(s, j, cur + s.subrange(i, j)),
    decreases j - i,
{
    if i < j {
        lemma_split_plain(s, i + 1, j, cur.push(s[i]));
        assert(cur.push(s[i]) + s.subrange(i + 1, j) =~= cur + s.subrange(i, j));
    } else {
        assert(cur + s.subrange(i, j) =~= cur);
    }
}

/// The words of a word with no white space, and of two such words with a
/// space between them.
pub proof fn lemma_words_plain(w1: Seq<char>, w2: Seq<char>)
    requires
        w1.len() > 0,
        w2.len() > 0,
        forall|k: int| 0 <= k < w1.len() ==> !is_ws(#[trigger] w1[k]),
        forall|k: int| 0 <= k < w2.len() ==> !is_ws(#[trigger] w2[k]),
    ensures
        words(w1) == seq![w1],
        words(w1 + seq![' '] + w2) == seq![w1, w2],
{
    lemma_split_plain(w1, 0, w1.len() as int, seq![]);
    assert(Seq::<char>::empty() + w1.subrange(0, w1.len() as int) =~= w1);
    let s = w1 + seq![' '] + w2;
    let n = w1.len() as int;
    assert forall|k: int| 0 <= k < n implies !is_ws(#[trigger] s[k]) by {
        assert(s[k] == w1[k]);
    }
    lemma_split_plain(s, 0, n, seq![]);
    assert(Seq::<char>::empty() + s.subrange(0, n) =~= w1);
    assert(s[n] == ' ');
    assert(is_ws(s[n]));
    assert(split_from(s, n, w1) == seq![w1] + split_from(s, n + 1, seq![]));
    assert forall|k: int| n + 1 <= k < s.len() implies !is_ws(#[trigger] s[k]) by {
        assert(s[k] == w2[k - n - 1]);
    }
    lemma_split_plain(s, n + 1, s.len() as int, seq![]);
    assert(Seq::<char>::empty() + s.subrange(n + 1, s.len() as int) =~= w2);
    assert(seq![w1] + seq![w2] =~= seq![w1, w2]);
}

/// A word with no white space is its own trim.
pub proof fn lemma_trim_plain(w: Seq<char>)
    requires
        w.len() > 0,
        forall|k: int| 0 <= k < w.len() ==> !is_ws(#[trigger] w[k]),
    ensures
        trim(w) == w,
{
    lemma_trim_start_skip(w, 0);
    assert(w.skip(0) =~= w);
    lemma_trim_end_take(w, w.len() as int);
    assert(w.take(w.len() as int) =~= w);
}

proof fn lemma_split_shift(s: Seq<char>, off: int, i: int, cur: Seq<char>)
    requires
        0 <= off <= s.len(),
        0 <= i,
    ensures
        split_from(s, off + i, cur) == split_from(s.skip(off), i, cur),
    decreases s.len() - off - i,
{
    let t = s.skip(off);
    if off + i < s.len() {
        assert(t[i] == s[off + i]);
        if is_ws(s[off + i]) {
            lemma_split_shift(s, off, i + 1, seq![]);
        } else {
            lemma_split_shift(s, off, i + 1, cur.push(s[off + i]));
        }
    }
}

/// The words of a word with no white space, a space, and more text: that
/// word, then the words of the rest.
pub proof fn lemma_words_front(w: Seq<char>, rest: Seq<char>)
    requires
        w.len() > 0,
        forall|k: int| 0 <= k < w.len() ==> !is_ws(#[trigger] w[k]),
    ensures
        words(w + seq![' '] + rest) == seq![w] + words(rest),
{
    let s = w + seq![' '] + rest;
    let n = w.len() as int;
    assert forall|k: int| 0 <= k < n implies !is_ws(#[trigger] s[k]) by {
        assert(s[k] == w[k]);
    }
    lemma_split_plain(s, 0, n, seq![]);
    assert(Seq::<char>::empty() + s.subrange(0, n) =~= w);
    assert(s[n] == ' ');
    assert(split_from(s, n, w) == seq![w] + split_from(s, n + 1, seq![]));
    lemma_split_shift(s, n + 1, 0, seq![]);
    assert(s.skip(n + 1) =~= rest);
}

} // verus!
