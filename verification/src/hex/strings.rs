//! Finding text in the file: the encodings a scan reads, the character classes
//! that decide what counts as text, and the rows the Strings list shows.
use vstd::prelude::*;

use crate::app::{App, UIState};
use crate::hex::field_box::TextInput;
use crate::text::{hex_digits, push_hex, push_str, string_from, trim, zero_pad};
use vstd::string::StringSliceAdditionalSpecFns;
use vstd::utf8::encode_utf8;

verus! {

/// Encoding a strings scan reads byte runs as.
#[derive(Debug, Clone, Copy, PartialEq, Eq, Structural)]
pub enum StringEncoding {
    Ascii,
    Utf8,
    Cp949,
    Cp936,
    Utf16,
}

impl StringEncoding {
    /// The label of the `encoding_rs` encoding that decodes this kind of run.
    pub fn codec_label(&self) -> (s: &'static str)
        ensures
            s@ == match *self {
                StringEncoding::Ascii => "UTF-8"@,
                StringEncoding::Utf8 => "UTF-8"@,
                StringEncoding::Cp949 => "EUC-KR"@,
                StringEncoding::Cp936 => "GBK"@,
                StringEncoding::Utf16 => "UTF-16LE"@,
            },
    {
        match self {
            StringEncoding::Ascii => "UTF-8",
            StringEncoding::Utf8 => "UTF-8",
            StringEncoding::Cp949 => "EUC-KR",
            StringEncoding::Cp936 => "GBK",
            StringEncoding::Utf16 => "UTF-16LE",
        }
    }

    /// The name the Strings dialog shows.
    pub fn as_str(&self) -> (s: &'static str)
        ensures
            s@ == match *self {
                StringEncoding::Ascii => "ASCII"@,
                StringEncoding::Utf8 => "UTF-8"@,
                StringEncoding::Cp949 => "CP949(KO)"@,
                StringEncoding::Cp936 => "CP936(CN)"@,
                StringEncoding::Utf16 => "UTF-16LE"@,
            },
    {
        match self {
            StringEncoding::Ascii => "ASCII",
            StringEncoding::Utf8 => "UTF-8",
            StringEncoding::Cp949 => "CP949(KO)",
            StringEncoding::Cp936 => "CP936(CN)",
            StringEncoding::Utf16 => "UTF-16LE",
        }
    }

    /// The next encoding in the cycle.
    pub fn next(&self) -> (e: Self)
        ensures
            e == next_encoding(*self),
    {
        match self {
            StringEncoding::Ascii => StringEncoding::Utf8,
            StringEncoding::Utf8 => StringEncoding::Cp949,
            StringEncoding::Cp949 => StringEncoding::Cp936,
            StringEncoding::Cp936 => StringEncoding::Utf16,
            StringEncoding::Utf16 => StringEncoding::Ascii,
        }
    }

    /// The previous encoding in the cycle.
    pub fn prev(&self) -> (e: Self)
        ensures
            e == prev_encoding(*self),
    {
        match self {
            StringEncoding::Ascii => StringEncoding::Utf16,
            StringEncoding::Utf8 => StringEncoding::Ascii,
            StringEncoding::Cp949 => StringEncoding::Utf8,
            StringEncoding::Cp936 => StringEncoding::Cp949,
            StringEncoding::Utf16 => StringEncoding::Cp936,
        }
    }
}

pub open spec fn next_encoding(e: StringEncoding) -> StringEncoding {
    match e {
        StringEncoding::Ascii => StringEncoding::Utf8,
        StringEncoding::Utf8 => StringEncoding::Cp949,
        StringEncoding::Cp949 => StringEncoding::Cp936,
        StringEncoding::Cp936 => StringEncoding::Utf16,
        StringEncoding::Utf16 => StringEncoding::Ascii,
    }
}

pub open spec fn prev_encoding(e: StringEncoding) -> StringEncoding {
    match e {
        StringEncoding::Ascii => StringEncoding::Utf16,
        StringEncoding::Utf8 => StringEncoding::Ascii,
        StringEncoding::Cp949 => StringEncoding::Utf8,
        StringEncoding::Cp936 => StringEncoding::Cp949,
        StringEncoding::Utf16 => StringEncoding::Cp936,
    }
}

/// Stepping back undoes stepping forward through the encodings, and the
/// reverse.
pub proof fn law_encoding_cycle(e: StringEncoding)
    ensures
        prev_encoding(next_encoding(e)) == e,
        next_encoding(prev_encoding(e)) == e,
{
}

/// A string found in the file: where it starts, how many bytes it spans, its
/// text, and the row the list shows for it.
pub struct FoundString {
    pub offset: usize,
    pub size: usize,
    pub content: String,
    pub display: String,
}

/// The list row for text `content` at address `addr`: the address in at least
/// eight hex digits, two spaces, then the text.
pub open spec fn row_text(addr: nat, content: Seq<char>) -> Seq<char> {
    zero_pad(hex_digits(addr), 8) + "  "@ + content
}

impl FoundString {
    pub fn new(offset: usize, content: &str, size: usize) -> (f: Self)
        ensures
            f.offset == offset,
            f.size == size,
            f.content@ == content@,
            f.display@ == row_text(offset as nat, content@),
    {
        let mut display = String::new();
        push_hex(&mut display, offset as u64, 8);
        push_str(&mut display, "  ");
        push_str(&mut display, content);
        FoundString { offset, size, content: string_from(content), display }
    }

    /// Shows the row at address `addr` instead of the file offset.
    pub fn set_address(&mut self, addr: u64)
        ensures
            final(self).display@ == row_text(addr as nat, old(self).content@),
            final(self).offset == old(self).offset,
            final(self).size == old(self).size,
            final(self).content == old(self).content,
    {
        let mut display = String::new();
        push_hex(&mut display, addr, 8);
        push_str(&mut display, "  ");
        push_str(&mut display, self.content.as_str());
        self.display = display;
    }
}

/// How many zero bytes follow `offset` in `b`, counting on from `count` and
/// stopping at 512.
pub open spec fn zeros_from(b: Seq<u8>, offset: int, count: nat) -> nat
    decreases 512 - count,
{
    if count < 512 && offset + count < b.len() && b[offset + count] == 0 {
        zeros_from(b, offset, count + 1)
    } else {
        count
    }
}

/// The zero bytes after `offset` (at most 512), rounded down to an even count
/// for UTF-16 text.
pub fn count_trailing_zeros(buffer: &[u8], offset: usize, is_utf16: bool) -> (n: usize)
    ensures
        n == if is_utf16 {
            zeros_from(buffer@, offset as int, 0) - zeros_from(buffer@, offset as int, 0) % 2
        } else {
            zeros_from(buffer@, offset as int, 0) as int
        },
{
    let mut count: usize = 0;
    let len = buffer.len();
    while offset < len && count < len - offset && count < 512 && buffer[offset + count] == 0
        invariant
            count <= 512,
            len == buffer@.len(),
            zeros_from(buffer@, offset as int, 0) == zeros_from(buffer@, offset as int, count as nat),
        decreases 512 - count,
    {
        count = count + 1;
    }
    if is_utf16 {
        count - count % 2
    } else {
        count
    }
}

/// A Hangul syllable.
pub open spec fn hangul(c: char) -> bool {
    '\u{AC00}' <= c && c <= '\u{D7A3}'
}

/// A CJK unified ideograph.
pub open spec fn cjk(c: char) -> bool {
    '\u{4E00}' <= c && c <= '\u{9FFF}'
}

pub fn is_hangul(c: char) -> (b: bool)
    ensures
        b == hangul(c),
{
    '\u{AC00}' <= c && c <= '\u{D7A3}'
}

pub fn is_cjk(c: char) -> (b: bool)
    ensures
        b == cjk(c),
{
    '\u{4E00}' <= c && c <= '\u{9FFF}'
}

/// Printable ASCII or a space.
pub open spec fn ascii_text(b: u8) -> bool {
    0x20 <= b && b <= 0x7E
}

pub fn is_ascii_text(b: u8) -> (r: bool)
    ensures
        r == ascii_text(b),
{
    (0x21 <= b && b <= 0x7E) || b == 0x20
}

pub fn gbk_lead(b: u8) -> (r: bool)
    ensures
        r == ((0xA1 <= b && b <= 0xA9) || (0xB0 <= b && b <= 0xF7)),
{
    (0xA1 <= b && b <= 0xA9) || (0xB0 <= b && b <= 0xF7)
}

pub fn gbk_trail(b: u8) -> (r: bool)
    ensures
        r == (0xA1 <= b && b <= 0xFE),
{
    0xA1 <= b && b <= 0xFE
}

pub fn euckr_lead(b: u8) -> (r: bool)
    ensures
        r == ((0xA1 <= b && b <= 0xA2) || (0xB0 <= b && b <= 0xC8)),
{
    (0xA1 <= b && b <= 0xA2) || (0xB0 <= b && b <= 0xC8)
}

pub fn euckr_trail(b: u8) -> (r: bool)
    ensures
        r == (0xA1 <= b && b <= 0xFE),
{
    0xA1 <= b && b <= 0xFE
}

/// The script a double-byte scan looks for.
#[derive(Debug, Clone, Copy, PartialEq, Eq, Structural)]
pub enum Script {
    Hangul,
    Cjk,
}

pub open spec fn in_script(s: Script, c: char) -> bool {
    match s {
        Script::Hangul => hangul(c),
        Script::Cjk => cjk(c),
    }
}

/// Length of the run of `s`-script characters ending at index `i` (exclusive)
/// and the longest run in `t[..i]`.
pub open spec fn runs(t: Seq<char>, s: Script, i: nat) -> (nat, nat)
    decreases i,
{
    if i == 0 || i > t.len() {
        (0, 0)
    } else {
        let (cur, best) = runs(t, s, (i - 1) as nat);
        if in_script(s, t[i - 1]) {
            let c = cur + 1;
            (c, if c > best { c } else { best })
        } else {
            (0, best)
        }
    }
}

/// The longest run of consecutive characters of script `s` in `text`.
pub fn longest_script_run(text: &str, s: Script) -> (n: usize)
    ensures
        n == runs(text@, s, text@.len()).1,
{
    let cs = crate::text::chars_of(text);
    let mut best: usize = 0;
    let mut current: usize = 0;
    let mut i: usize = 0;
    while i < cs.len()
        invariant
            i <= cs@.len(),
            cs@ == text@,
            (current as nat, best as nat) == runs(text@, s, i as nat),
            current <= i,
            best <= i,
        decreases cs.len() - i,
    {
        let c = cs[i];
        let hit = match s {
            Script::Hangul => is_hangul(c),
            Script::Cjk => is_cjk(c),
        };
        if hit {
            current = current + 1;
            if current > best {
                best = current;
            }
        } else {
            current = 0;
        }
        i = i + 1;
    }
    best
}

/// At least three characters, all the same one.
pub open spec fn one_char_repeated(t: Seq<char>) -> bool {
    t.len() >= 3 && forall|i: int| 0 <= i < t.len() ==> #[trigger] t[i] == t[0]
}

pub fn is_one_char_repeated(text: &str) -> (b: bool)
    ensures
        b == one_char_repeated(text@),
{
    let cs = crate::text::chars_of(text);
    if cs.len() == 0 {
        return false;
    }
    let first = cs[0];
    let mut i: usize = 1;
    while i < cs.len()
        invariant
            1 <= i <= cs@.len(),
            cs@ == text@,
            first == cs@[0],
            forall|j: int| 0 <= j < i ==> cs@[j] == first,
        decreases cs.len() - i,
    {
        if cs[i] != first {
            assert(cs@[i as int] != cs@[0]);
            return false;
        }
        i = i + 1;
    }
    cs.len() >= 3
}

/// A character that reads as text in a UTF-16 run: printable ASCII, Latin,
/// Greek, Cyrillic, general punctuation, currency, CJK punctuation and kana,
/// CJK ideographs, Hangul syllables and full-width forms.
pub open spec fn wide_text(c: char) -> bool {
    let u = c as u32;
    ||| (0x20 <= u && u <= 0x7E)
    ||| (0xA0 <= u && u <= 0x24F)
    ||| (0x370 <= u && u <= 0x3FF)
    ||| (0x400 <= u && u <= 0x4FF)
    ||| (0x2010 <= u && u <= 0x203A)
    ||| (0x20A0 <= u && u <= 0x20BF)
    ||| (0x3000 <= u && u <= 0x30FF)
    ||| (0x4E00 <= u && u <= 0x9FFF)
    ||| (0xAC00 <= u && u <= 0xD7A3)
    ||| (0xFF01 <= u && u <= 0xFF60)
}

pub fn is_wide_text(c: char) -> (b: bool)
    ensures
        b == wide_text(c),
{
    let u = c as u32;
    if u <= 0x1F || (0x7F <= u && u <= 0x9F) {
        return false;
    }
    (0x20 <= u && u <= 0x7E) || (0xA0 <= u && u <= 0x24F) || (0x370 <= u && u <= 0x3FF)
        || (0x400 <= u && u <= 0x4FF) || (0x2010 <= u && u <= 0x203A) || (0x20A0 <= u && u
        <= 0x20BF) || (0x3000 <= u && u <= 0x30FF) || (0x4E00 <= u && u <= 0x9FFF) || (0xAC00
        <= u && u <= 0xD7A3) || (0xFF01 <= u && u <= 0xFF60)
}

/// A non-ASCII character whose two low bytes are both printable ASCII: what a
/// run of single-byte text looks like when read as UTF-16.
pub open spec fn ascii_pair(c: char) -> bool {
    let u = c as u32;
    let hi = (u / 256) % 256;
    let lo = u % 256;
    0x20 <= hi && hi <= 0x7E && 0x20 <= lo && lo <= 0x7E
}

/// The number of non-ASCII characters in `t[..i]`, and how many of them are
/// ASCII pairs.
pub open spec fn wide_counts(t: Seq<char>, i: nat) -> (nat, nat)
    decreases i,
{
    if i == 0 || i > t.len() {
        (0, 0)
    } else {
        let (w, p) = wide_counts(t, (i - 1) as nat);
        let c = t[i - 1];
        if (c as u32) < 0x80 {
            (w, p)
        } else {
            (w + 1, if ascii_pair(c) { p + 1 } else { p })
        }
    }
}

/// Whether `text`, read as UTF-16, is really single-byte text: at least three
/// non-ASCII characters, every one of them an ASCII pair.
pub fn looks_like_single_byte_text(text: &str) -> (b: bool)
    ensures
        b == ({
            let (w, p) = wide_counts(text@, text@.len());
            w >= 3 && p == w
        }),
{
    let cs = crate::text::chars_of(text);
    let mut wide: usize = 0;
    let mut pairs: usize = 0;
    let mut i: usize = 0;
    while i < cs.len()
        invariant
            i <= cs@.len(),
            cs@ == text@,
            (wide as nat, pairs as nat) == wide_counts(text@, i as nat),
            pairs <= wide <= i,
        decreases cs.len() - i,
    {
        let u = cs[i] as u32;
        if u >= 0x80 {
            wide = wide + 1;
            let hi = (u / 256) % 256;
            let lo = u % 256;
            if 0x20 <= hi && hi <= 0x7E && 0x20 <= lo && lo <= 0x7E {
                pairs = pairs + 1;
            }
        }
        i = i + 1;
    }
    wide >= 3 && pairs == wide
}

// ---------------------------------------------------------------------------
// Filtering found strings by a regular expression
// ---------------------------------------------------------------------------

/// Longest pattern (in UTF-8 bytes) the filter accepts.
pub const MAX_REGEX_PATTERN_LEN: usize = 500;
/// Compiled-size limit handed to the regex builder.
pub const MAX_REGEX_SIZE_LIMIT: usize = 1048576;
/// Nesting limit handed to the regex builder.
pub const MAX_REGEX_NEST_LIMIT: u32 = 50;

#[verifier::external_type_specification]
#[verifier::external_body]
pub struct ExRegex(regex::Regex);

/// Whether `regex` compiles `pattern` (case-insensitively when `ignore_case`)
/// within the given compiled-size and nesting limits.
pub uninterp spec fn regex_builds(pattern: Seq<char>, ignore_case: bool, size_limit: nat, nest_limit: nat) -> bool;

/// The matches `Regex::find_iter` yields for the regex `pattern`
/// (case-insensitive when `ignore_case`) in `text`, in order, each as its
/// start and end byte offsets.
pub uninterp spec fn regex_match_spans(pattern: Seq<char>, ignore_case: bool, text: Seq<char>) -> Seq<(usize, usize)>;

/// Whether one of the spans is not empty.
pub open spec fn has_nonempty_span(spans: Seq<(usize, usize)>) -> bool {
    exists|i: int| 0 <= i < spans.len() && (#[trigger] spans[i]).0 < spans[i].1
}

/// Whether one of the matches `Regex::find_iter` yields for `pattern` in
/// `text` is not empty.
pub open spec fn regex_finds_nonempty(pattern: Seq<char>, ignore_case: bool, text: Seq<char>) -> bool {
    has_nonempty_span(regex_match_spans(pattern, ignore_case, text))
}

/// Whether the regex `pattern` (case-insensitive when `ignore_case`) matches
/// somewhere in `text` (`Regex::is_match`).
pub uninterp spec fn regex_is_match(pattern: Seq<char>, ignore_case: bool, text: Seq<char>) -> bool;

/// A compiled regular expression together with the pattern it was built from.
pub struct TextFilter {
    pattern: String,
    ignore_case: bool,
    re: regex::Regex,
}

impl TextFilter {
    /// The pattern the filter was compiled from.
    pub closed spec fn pattern(&self) -> Seq<char> {
        self.pattern@
    }

    /// Whether the filter ignores case.
    pub closed spec fn ignores_case(&self) -> bool {
        self.ignore_case
    }
}

/// Compiles `pattern` with `regex::RegexBuilder` (`case_insensitive`,
/// `size_limit`, `nest_limit`, `build`): `None` exactly when the builder
/// refuses it.
#[verifier::external_body]
fn build_regex(pattern: &str, ignore_case: bool, size_limit: usize, nest_limit: u32) -> (r: Option<regex::Regex>)
    ensures
        r is Some == regex_builds(pattern@, ignore_case, size_limit as nat, nest_limit as nat),
{
    regex::RegexBuilder::new(pattern)
        .case_insensitive(ignore_case)
        .size_limit(size_limit)
        .nest_limit(nest_limit)
        .build()
        .ok()
}

/// The matches of the filter in `text` (`Regex::find_iter`), each as its
/// start and end byte offsets (`Match::start`, `Match::end`), in the order the
/// iterator yields them. A match never ends before it starts.
#[verifier::external_body]
fn match_spans(f: &TextFilter, text: &str) -> (r: Vec<(usize, usize)>)
    ensures
        r@ == regex_match_spans(f.pattern(), f.ignores_case(), text@),
        forall|i: int| 0 <= i < r@.len() ==> (#[trigger] r@[i]).0 <= r@[i].1,
{
    f.re.find_iter(text).map(|m| (m.start(), m.end())).collect()
}

/// Whether the filter has a non-empty match in `text`, among the matches
/// `Regex::find_iter` yields.
pub fn has_nonempty_match(f: &TextFilter, text: &str) -> (b: bool)
    ensures
        b == regex_finds_nonempty(f.pattern(), f.ignores_case(), text@),
{
    let spans = match_spans(f, text);
    let mut i: usize = 0;
    while i < spans.len()
        invariant
            i <= spans@.len(),
            spans@ == regex_match_spans(f.pattern(), f.ignores_case(), text@),
            forall|j: int| 0 <= j < i ==> !((#[trigger] spans@[j]).0 < spans@[j].1),
        decreases spans.len() - i,
    {
        if spans[i].0 < spans[i].1 {
            assert(spans@[i as int].0 < spans@[i as int].1);
            assert(has_nonempty_span(spans@));
            return true;
        }
        i = i + 1;
    }
    false
}

/// Whether the filter matches somewhere in `text` (`Regex::is_match`).
#[verifier::external_body]
fn is_match(f: &TextFilter, text: &str) -> (b: bool)
    ensures
        b == regex_is_match(f.pattern(), f.ignores_case(), text@),
{
    f.re.is_match(text)
}

/// The filter the Strings dialog uses for `pattern`: case-insensitive, built
/// within the size and nesting limits; `None` for an empty pattern, one longer
/// than the length limit, or one the regex engine refuses.
pub fn build_safe_regex(pattern: &str) -> (r: Option<TextFilter>)
    ensures
        r is Some <==> (pattern@.len() > 0 && pattern.len() <= MAX_REGEX_PATTERN_LEN
            && regex_builds(pattern@, true, MAX_REGEX_SIZE_LIMIT as nat, MAX_REGEX_NEST_LIMIT as nat)),
        r matches Some(f) ==> f.pattern() == pattern@ && f.ignores_case(),
{
    if pattern.is_empty() || pattern.len() > MAX_REGEX_PATTERN_LEN {
        return None;
    }
    match build_regex(pattern, true, MAX_REGEX_SIZE_LIMIT, MAX_REGEX_NEST_LIMIT) {
        Some(re) => Some(TextFilter { pattern: string_from(pattern), ignore_case: true, re }),
        None => None,
    }
}

/// An optional filter as its pattern and case flag.
pub open spec fn filter_view(f: Option<&TextFilter>) -> Option<(Seq<char>, bool)> {
    match f {
        None => None,
        Some(f) => Some((f.pattern(), f.ignores_case())),
    }
}

/// Whether text passes an optional filter, given as its pattern and case
/// flag: always without one, otherwise when the regex finds a non-empty match
/// in it.
pub open spec fn passes_view(f: Option<(Seq<char>, bool)>, text: Seq<char>) -> bool {
    match f {
        None => true,
        Some((p, ci)) => regex_finds_nonempty(p, ci, text),
    }
}

/// Whether text passes an optional filter.
pub open spec fn passes(f: Option<&TextFilter>, text: Seq<char>) -> bool {
    passes_view(filter_view(f), text)
}

pub fn accepts(f: Option<&TextFilter>, text: &str) -> (b: bool)
    ensures
        b == passes(f, text@),
{
    match f {
        None => true,
        Some(f) => has_nonempty_match(f, text),
    }
}

/// Whether the trimmed `pattern` is a filter that matches the empty string, so
/// that a scan with it can report nothing but empty matches.
pub fn matches_the_empty_string(pattern: &str) -> (b: bool)
    ensures
        b == (trim(pattern@).len() > 0 && (encode_utf8(trim(pattern@)).len() as usize) <= MAX_REGEX_PATTERN_LEN
            && regex_builds(trim(pattern@), true, MAX_REGEX_SIZE_LIMIT as nat, MAX_REGEX_NEST_LIMIT as nat)
            && regex_is_match(trim(pattern@), true, Seq::empty())),
{
    let cs = crate::text::chars_of(pattern);
    let t = crate::text::trim_chars(cs.as_slice());
    if t.len() == 0 {
        return false;
    }
    let trimmed = crate::text::string_of(t.as_slice());
    proof {
        reveal_strlit("");
    }
    let ts = trimmed.as_str();
    assert(ts@ == trim(pattern@));
    assert(ts.spec_bytes() == encode_utf8(trim(pattern@)));
    match build_safe_regex(ts) {
        Some(f) => {
            let empty = "";
            assert(empty@ =~= Seq::<char>::empty());
            is_match(&f, empty)
        },
        None => false,
    }
}

// ---------------------------------------------------------------------------
// The Strings dialog
// ---------------------------------------------------------------------------

/// The Strings dialog's own state.
pub struct StringsDialog {
    /// The text of the filter box.
    pub regex_input: String,
    /// The encoding scans read.
    pub encoding: StringEncoding,
    /// How many rows the list showed when last drawn.
    pub page_rows: usize,
    /// Whether the filter box has the keyboard.
    pub focus_filter: bool,
    /// The cursor's position in the filter box, in characters.
    pub filter_cursor: usize,
}

impl StringsDialog {
    pub fn new() -> (d: Self)
        ensures
            d.regex_input@.len() == 0,
            d.encoding == StringEncoding::Ascii,
            d.page_rows == 0,
            !d.focus_filter,
            d.filter_cursor == 0,
    {
        StringsDialog {
            regex_input: String::new(),
            encoding: StringEncoding::Ascii,
            page_rows: 0,
            focus_filter: false,
            filter_cursor: 0,
        }
    }
}

/// The box that replaces a found string in place.
pub struct StringEdit {
    /// Where the string starts.
    pub offset: usize,
    /// How many bytes the new text may take (the room less a terminator).
    pub budget: usize,
    /// The bytes the string and the zeros after it take; what the new text
    /// leaves of them is zeroed.
    pub total_capacity: usize,
    /// The string's index in the list of found strings.
    pub row: usize,
    /// The encoding the new text is written in.
    pub encoding: StringEncoding,
    pub input: TextInput,
    /// Where a Shift-selection in the box started.
    pub anchor: Option<usize>,
    /// Why the last Enter was refused.
    pub error: Option<String>,
    /// The screen to go back to.
    pub return_state: Option<UIState>,
}

impl Default for StringEdit {
    fn default() -> (e: Self)
        ensures
            e.offset == 0,
            e.budget == 0,
            e.total_capacity == 0,
            e.row == 0,
            e.encoding == StringEncoding::Ascii,
            e.input.value@.len() == 0,
            e.input.cursor == 0,
            e.anchor is None,
            e.error is None,
            e.return_state is None,
    {
        StringEdit {
            offset: 0,
            budget: 0,
            total_capacity: 0,
            row: 0,
            encoding: StringEncoding::Ascii,
            input: TextInput::empty(),
            anchor: None,
            error: None,
            return_state: None,
        }
    }
}

} // verus!
