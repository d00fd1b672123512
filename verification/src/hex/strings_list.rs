//! The Strings dialog's list: scanning the file, filtering the rows, moving
//! the selection and copying rows out.
use vstd::prelude::*;

use crate::app::{after_goto, copied, App, AppView, Config, EditingTarget, UIState};
use crate::hex::events::{HexAction, Key, KeyPress};
use crate::hex::field_box::{input_edit, input_edit_for, input_edited, InputEdit, TextInput};
use crate::hex::selection::Selection;
use crate::hex::hex_view::HexView;
use crate::hex::comment::Commands;
use crate::hex::string_edit::{open_string_edit, string_edit_opened};
use crate::hex::string_scan::{
    ascii_scan, ascii_tail, dbcs_found, emit, hits, rows_show_offsets, scan_ascii, scan_dbcs,
    scan_utf16, scan_utf8, utf16_found, utf8_found, DbcsCodePage,
};
use crate::hex::strings::{
    build_safe_regex, filter_view, matches_the_empty_string, passes_view, regex_builds, regex_finds_nonempty, regex_is_match,
    next_encoding, prev_encoding, row_text, FoundString, StringEncoding, StringsDialog, MAX_REGEX_NEST_LIMIT, MAX_REGEX_PATTERN_LEN,
    MAX_REGEX_SIZE_LIMIT,
};
use crate::i18n::M;
use crate::initfile::join;
use crate::text::{
    chars_of, dec_digits, contains_chars, has_infix, hex_digits, lowercased, push_dec, push_hex, push_str,
    string_from, to_lowercase, trim, trim_chars, zero_pad,
};
use vstd::string::StringSliceAdditionalSpecFns;
use vstd::utf8::encode_utf8;

verus! {

/// Rows a page key moves when the list has not been drawn yet.
pub const STRINGS_PAGE_STEP: usize = 29;

/// The filter a scan uses for the pattern `regex`: none for a blank pattern
/// or one the regex builder refuses, otherwise the case-insensitive regex.
pub open spec fn scan_filter(regex: Seq<char>) -> Option<(Seq<char>, bool)> {
    if trim(regex).len() == 0 {
        None
    } else if regex.len() > 0 && (encode_utf8(regex).len() as usize) <= MAX_REGEX_PATTERN_LEN
        && regex_builds(regex, true, MAX_REGEX_SIZE_LIMIT as nat, MAX_REGEX_NEST_LIMIT as nat) {
        Some((regex, true))
    } else {
        None
    }
}

/// What a scan of the whole of `buf` in encoding `enc` reports.
pub open spec fn scanned(
    buf: Seq<u8>,
    enc: StringEncoding,
    min: nat,
    cap: nat,
    f: Option<(Seq<char>, bool)>,
) -> Seq<(int, int, Seq<char>)> {
    let empty = Seq::<(int, int, Seq<char>)>::empty();
    match enc {
        StringEncoding::Ascii => {
            let (o, done) = emit(empty, ascii_scan(buf, buf.len(), min, f).0, cap);
            let (siz, tail) = ascii_tail(buf, min, f);
            if siz >= min && passes_view(f, tail) && o.len() < cap {
                o.push((buf.len() - siz, siz, tail))
            } else {
                o
            }
        },
        StringEncoding::Utf8 => emit(empty, utf8_found(buf, buf.len() as int, 0, min, f), cap).0,
        StringEncoding::Cp949 => emit(
            empty,
            dbcs_found(DbcsCodePage::Cp949, buf, buf.len() as int, 0, min, f),
            cap,
        ).0,
        StringEncoding::Cp936 => emit(
            empty,
            dbcs_found(DbcsCodePage::Cp936, buf, buf.len() as int, 0, min, f),
            cap,
        ).0,
        StringEncoding::Utf16 => emit(empty, utf16_found(buf, buf.len() as int, 0, min, f), cap).0,
    }
}

/// `self` and `other` differ in their found strings at most.
pub open spec fn same_but_strings(a: App, b: App) -> bool {
    &&& a.hex_view == b.hex_view
    &&& a.file_info == b.file_info
    &&& a.config == b.config
    &&& a.state == b.state
    &&& a.logs == b.logs
    &&& a.image_base == b.image_base
    &&& a.enc1 == b.enc1
    &&& a.editor_view == b.editor_view
    &&& a.string_regex == b.string_regex
    &&& a.list_selected == b.list_selected
    &&& a.status_error == b.status_error
    &&& a.reader == b.reader
    &&& a.screen_width == b.screen_width
    &&& a.screen_height == b.screen_height
    &&& a.help_scroll_offset == b.help_scroll_offset
}

impl Commands {
    /// Fills the list of found strings by scanning the whole file in the
    /// dialog's encoding, unless it already holds strings and `force_read`
    /// is off.
    pub fn load_strings(app: &mut App, force_read: bool)
        ensures
            (!force_read && old(app).strings@.len() > 0) ==> *final(app) == *old(app),
            (force_read || old(app).strings@.len() == 0) ==> {
                &&& hits(final(app).strings@) == scanned(
                    old(app).file_info.buffer@,
                    old(app).hex_view.strings_dialog.encoding,
                    old(app).config.minimum_string_length as nat,
                    old(app).config.maximum_strings_to_show as nat,
                    scan_filter(old(app).string_regex@),
                )
                &&& rows_show_offsets(final(app).strings@, 0)
                &&& same_but_strings(*final(app), *old(app))
            },
    {
        if !force_read && app.strings.len() > 0 {
            return;
        }
        let cs = chars_of(app.string_regex.as_str());
        let t = trim_chars(cs.as_slice());
        let filter = if t.len() == 0 {
            None
        } else {
            build_safe_regex(app.string_regex.as_str())
        };
        let re = match &filter {
            Some(f) => Some(f),
            None => None,
        };
        let rs = app.string_regex.as_str();
        proof {
            assert(rs.spec_bytes() == encode_utf8(app.string_regex@));
            assert(filter_view(re) == scan_filter(app.string_regex@));
        }
        let min = app.config.minimum_string_length;
        let cap = app.config.maximum_strings_to_show;
        let buffer = app.file_info.buffer.as_slice();
        let len = buffer.len();
        let mut out: Vec<FoundString> = Vec::new();
        assert(hits(out@) =~= Seq::<(int, int, Seq<char>)>::empty());
        match app.hex_view.strings_dialog.encoding {
            StringEncoding::Ascii => scan_ascii(buffer, min, cap, re, &mut out),
            StringEncoding::Utf8 => scan_utf8(buffer, 0..len, min, cap, re, &mut out),
            StringEncoding::Cp949 => scan_dbcs(buffer, 0..len, DbcsCodePage::Cp949, min, cap, re, &mut out),
            StringEncoding::Cp936 => scan_dbcs(buffer, 0..len, DbcsCodePage::Cp936, min, cap, re, &mut out),
            StringEncoding::Utf16 => scan_utf16(buffer, 0..len, min, cap, re, &mut out),
        }
        app.strings = out;
    }
}

/// Whether rows show virtual addresses: in the disassembly view, or when the
/// hex view shows VAs.
pub open spec fn uses_va(app: App) -> bool {
    app.editor_view == AppView::Disasm || app.hex_view.show_va
}

/// The address a row shows for `offset`.
pub open spec fn shown_address(app: App, offset: usize) -> u64 {
    if uses_va(app) {
        vstd::wrapping::u64_specs::wrapping_add(app.image_base, offset as u64)
    } else {
        offset as u64
    }
}

pub(crate) fn address_for(app: &App, offset: usize) -> (a: u64)
    ensures
        a == shown_address(*app, offset),
{
    if app.editor_view == AppView::Disasm || app.hex_view.show_va {
        app.get_va(offset)
    } else {
        offset as u64
    }
}

impl Commands {
    /// Shows every found string at its address: the virtual address when VAs
    /// are on, the file offset otherwise.
    pub fn refresh_string_addresses(app: &mut App)
        ensures
            final(app).strings@.len() == old(app).strings@.len(),
            forall|k: int|
                0 <= k < final(app).strings@.len() ==> {
                    let (f, g) = (#[trigger] final(app).strings@[k], old(app).strings@[k]);
                    &&& f.offset == g.offset
                    &&& f.size == g.size
                    &&& f.content == g.content
                    &&& f.display@ == row_text(shown_address(*old(app), g.offset) as nat, g.content@)
                },
            same_but_strings(*final(app), *old(app)),
    {
        let mut strings: Vec<FoundString> = Vec::new();
        std::mem::swap(&mut strings, &mut app.strings);
        let ghost before = strings@;
        let mut k: usize = 0;
        while k < strings.len()
            invariant
                k <= strings@.len(),
                strings@.len() == before.len(),
                same_but_strings(*app, *old(app)),
                before == old(app).strings@,
                forall|j: int|
                    0 <= j < strings@.len() ==> {
                        let (f, g) = (#[trigger] strings@[j], before[j]);
                        &&& f.offset == g.offset
                        &&& f.size == g.size
                        &&& f.content == g.content
                        &&& j < k ==> f.display@ == row_text(shown_address(*old(app), g.offset) as nat, g.content@)
                    },
            decreases strings@.len() - k,
        {
            let addr = address_for(app, strings[k].offset);
            let mut s = strings.remove(k);
            s.set_address(addr);
            strings.insert(k, s);
            k = k + 1;
        }
        app.strings = strings;
    }
}

/// The pattern the filter box holds, trimmed.
pub open spec fn box_pattern(app: App) -> Seq<char> {
    trim(app.hex_view.strings_dialog.regex_input@)
}

/// Whether the non-empty pattern `p` compiles as a filter regex.
pub open spec fn pattern_builds(p: Seq<char>) -> bool {
    (encode_utf8(p).len() as usize) <= MAX_REGEX_PATTERN_LEN && regex_builds(
        p,
        true,
        MAX_REGEX_SIZE_LIMIT as nat,
        MAX_REGEX_NEST_LIMIT as nat,
    )
}

/// Whether a row with text `content` stays in the list under the box's
/// pattern `p`: always for a blank pattern; by a non-empty regex match when
/// the pattern compiles; otherwise by the lower-cased pattern occurring in the
/// lower-cased text.
pub open spec fn row_kept(p: Seq<char>, content: Seq<char>) -> bool {
    if p.len() == 0 {
        true
    } else if pattern_builds(p) {
        regex_finds_nonempty(p, true, content)
    } else {
        has_infix(lowercased(content), lowercased(p))
    }
}

/// The indices of the first `n` found strings that stay in the list.
pub open spec fn kept_rows(strings: Seq<FoundString>, p: Seq<char>, n: nat) -> Seq<usize>
    decreases n,
{
    if n == 0 || n > strings.len() {
        seq![]
    } else {
        let r = kept_rows(strings, p, (n - 1) as nat);
        if row_kept(p, strings[n - 1].content@) {
            r.push((n - 1) as usize)
        } else {
            r
        }
    }
}

/// The selection once the list holds `len` rows: none for an empty list, the
/// first row when nothing was selected, the last row when the selection is
/// past the end.
pub open spec fn clamped_selection(sel: Option<usize>, len: nat) -> Option<usize> {
    if len == 0 {
        None
    } else {
        match sel {
            None => Some(0),
            Some(n) => if n >= len {
                Some((len - 1) as usize)
            } else {
                Some(n)
            },
        }
    }
}

/// Recomputes which found strings the list shows from the filter box, and
/// keeps the selection inside the list.
pub fn update_strings_filter(app: &mut App)
    ensures
        final(app).hex_view.strings_filtered@ == kept_rows(
            old(app).strings@,
            box_pattern(*old(app)),
            old(app).strings@.len(),
        ),
        final(app).list_selected == clamped_selection(
            old(app).list_selected,
            final(app).hex_view.strings_filtered@.len(),
        ),
        final(app).hex_view == (HexView { strings_filtered: final(app).hex_view.strings_filtered, ..old(app).hex_view }),
        *final(app) == (App { hex_view: final(app).hex_view, list_selected: final(app).list_selected, ..*old(app) }),
{
    let cs = chars_of(app.hex_view.strings_dialog.regex_input.as_str());
    let t = trim_chars(cs.as_slice());
    let pattern = crate::text::string_of(t.as_slice());
    let compiled = if t.len() == 0 {
        None
    } else {
        build_safe_regex(pattern.as_str())
    };
    let lower = to_lowercase(pattern.as_str());
    let lower_chars = chars_of(lower.as_str());
    let ps = pattern.as_str();
    proof {
        assert(ps.spec_bytes() == encode_utf8(t@));
    }
    let mut filtered: Vec<usize> = Vec::new();
    let mut idx: usize = 0;
    while idx < app.strings.len()
        invariant
            idx <= app.strings@.len(),
            t@ == box_pattern(*old(app)),
            pattern@ == t@,
            *app == *old(app),
            lower_chars@ == lowercased(t@),
            t@.len() > 0 ==> (compiled is Some <==> pattern_builds(t@)),
            compiled matches Some(f) ==> f.pattern() == t@ && f.ignores_case(),
            filtered@ == kept_rows(app.strings@, t@, idx as nat),
        decreases app.strings@.len() - idx,
    {
        let content = app.strings[idx].content.as_str();
        let keep = if t.len() == 0 {
            true
        } else {
            match &compiled {
                Some(f) => crate::hex::strings::has_nonempty_match(f, content),
                None => {
                    let lc = to_lowercase(content);
                    let lcs = chars_of(lc.as_str());
                    contains_chars(lcs.as_slice(), lower_chars.as_slice())
                },
            }
        };
        if keep {
            filtered.push(idx);
        }
        idx = idx + 1;
    }
    app.hex_view.strings_filtered = filtered;
    let len = app.hex_view.strings_filtered.len();
    if len == 0 {
        app.list_selected = None;
    } else {
        match app.list_selected {
            Some(n) => {
                if n >= len {
                    app.list_selected = Some(len - 1);
                }
            },
            None => {
                app.list_selected = Some(0);
            },
        }
    }
}

/// Rows a page key moves: one less than the rows the list showed, or
/// `STRINGS_PAGE_STEP` before the list has been drawn with two rows.
pub fn page_step(app: &App) -> (n: isize)
    ensures
        n == if app.hex_view.strings_dialog.page_rows < 2 {
            STRINGS_PAGE_STEP as isize
        } else {
            (app.hex_view.strings_dialog.page_rows - 1) as isize
        },
{
    let rows = app.hex_view.strings_dialog.page_rows;
    if rows < 2 {
        STRINGS_PAGE_STEP as isize
    } else {
        (rows - 1) as isize
    }
}

/// `v` clamped to `lo..=hi`.
pub open spec fn clamp_int(v: int, lo: int, hi: int) -> int {
    if v < lo {
        lo
    } else if v > hi {
        hi
    } else {
        v
    }
}

/// Moves the selection `delta` rows, staying inside the list; an empty list
/// has no selection, and no selection counts as the first row.
pub fn move_selection(app: &mut App, delta: isize)
    requires
        old(app).hex_view.strings_filtered@.len() <= isize::MAX,
    ensures
        final(app).list_selected == if old(app).hex_view.strings_filtered@.len() == 0 {
            None
        } else {
            let cur = match old(app).list_selected {
                Some(n) => n,
                None => 0,
            };
            Some(
                clamp_int(
                    (cur as isize) + delta,
                    0,
                    old(app).hex_view.strings_filtered@.len() - 1,
                ) as usize,
            )
        },
        *final(app) == (App { list_selected: final(app).list_selected, ..*old(app) }),
{
    let len = app.hex_view.strings_filtered.len();
    if len == 0 {
        app.list_selected = None;
        return;
    }
    let current: isize = match app.list_selected {
        Some(n) => n as isize,
        None => 0,
    };
    let last: i128 = (len - 1) as i128;
    let v: i128 = current as i128 + delta as i128;
    let next: i128 = if v < 0 {
        0
    } else if v > last {
        last
    } else {
        v
    };
    app.list_selected = Some(next as usize);
}

/// A row as the clipboard gets it: the address in at least eight hex digits,
/// a tab, then the text.
pub open spec fn tsv_row(addr: u64, content: Seq<char>) -> Seq<char> {
    zero_pad(hex_digits(addr as nat), 8) + "\t"@ + content
}

/// A found string as a tab-separated row: its shown address, then its text.
pub fn row_as_tsv(app: &App, s: &FoundString) -> (r: String)
    ensures
        r@ == tsv_row(shown_address(*app, s.offset), s.content@),
{
    let addr = address_for(app, s.offset);
    let mut out = String::new();
    push_hex(&mut out, addr, 8);
    push_str(&mut out, "\t");
    push_str(&mut out, s.content.as_str());
    out
}

/// The rows of the first `k` entries of the filtered list that name a found
/// string.
pub open spec fn filtered_rows(app: App, k: nat) -> Seq<Seq<char>>
    decreases k,
{
    if k == 0 || k > app.hex_view.strings_filtered@.len() {
        seq![]
    } else {
        let r = filtered_rows(app, (k - 1) as nat);
        let i = app.hex_view.strings_filtered@[k - 1];
        if i < app.strings@.len() {
            r.push(tsv_row(shown_address(app, app.strings@[i as int].offset), app.strings@[i as int].content@))
        } else {
            r
        }
    }
}

/// Every row the list shows, joined by CR LF, and how many there are.
pub fn filtered_rows_as_tsv(app: &App) -> (r: (String, usize))
    ensures
        r.0@ == join(filtered_rows(*app, app.hex_view.strings_filtered@.len()), "\r\n"@),
        r.1 == filtered_rows(*app, app.hex_view.strings_filtered@.len()).len(),
{
    let mut out = String::new();
    let mut count: usize = 0;
    let mut k: usize = 0;
    while k < app.hex_view.strings_filtered.len()
        invariant
            k <= app.hex_view.strings_filtered@.len(),
            out@ == join(filtered_rows(*app, k as nat), "\r\n"@),
            count == filtered_rows(*app, k as nat).len(),
            count <= k,
        decreases app.hex_view.strings_filtered@.len() - k,
    {
        let i = app.hex_view.strings_filtered[k];
        let ghost before = filtered_rows(*app, k as nat);
        if i < app.strings.len() {
            let row = row_as_tsv(app, &app.strings[i]);
            if count > 0 {
                push_str(&mut out, "\r\n");
            }
            push_str(&mut out, row.as_str());
            count = count + 1;
            proof {
                let after = filtered_rows(*app, (k + 1) as nat);
                assert(after == before.push(row@));
                assert(after.drop_last() =~= before);
                if before.len() == 0 {
                    assert(out@ =~= row@);
                }
            }
        }
        k = k + 1;
    }
    (out, count)
}

/// The name an encoding is shown by.
pub open spec fn encoding_text(e: StringEncoding) -> Seq<char> {
    match e {
        StringEncoding::Ascii => "ASCII"@,
        StringEncoding::Utf8 => "UTF-8"@,
        StringEncoding::Cp949 => "CP949(KO)"@,
        StringEncoding::Cp936 => "CP936(CN)"@,
        StringEncoding::Utf16 => "UTF-16LE"@,
    }
}

/// What opening the Strings dialog does.
pub open spec fn strings_opened(a: App, b: App) -> bool {
    &&& hits(b.strings@) == if a.strings@.len() > 0 {
            hits(a.strings@)
        } else {
            scanned(
                a.file_info.buffer@,
                a.hex_view.strings_dialog.encoding,
                a.config.minimum_string_length as nat,
                a.config.maximum_strings_to_show as nat,
                scan_filter(a.string_regex@),
            )
        }
    &&& forall|k: int|
            0 <= k < b.strings@.len() ==> (#[trigger] b.strings@[k]).display@ == row_text(
                shown_address(a, b.strings@[k].offset) as nat,
                b.strings@[k].content@,
            )
    &&& b.hex_view.strings_filtered@ == kept_rows(
            b.strings@,
            box_pattern(a),
            b.strings@.len(),
        )
    &&& b.list_selected == if b.hex_view.strings_filtered@.len() > 0 {
            Some(0usize)
        } else {
            None
        }
    &&& b.state == UIState::DialogStrings
    &&& b.hex_view == (HexView {
            strings_filtered: b.hex_view.strings_filtered,
            strings_dialog: StringsDialog { focus_filter: false, ..a.hex_view.strings_dialog },
            ..a.hex_view
        })
    &&& b == (App {
            hex_view: b.hex_view,
            strings: b.strings,
            list_selected: b.list_selected,
            state: b.state,
            ..a
        })
}

/// The log line a rescan writes.
pub open spec fn rescan_message(a: App, found: nat) -> Seq<char> {
    "Strings: "@ + dec_digits(found) + " found (min "@ + dec_digits(a.config.minimum_string_length as nat)
        + " chars, "@ + encoding_text(a.hex_view.strings_dialog.encoding) + ")"@
}

/// Whether a rescan that found nothing warns that the filter only matches
/// the empty string.
pub open spec fn empty_only_warning(a: App, found: nat) -> bool {
    let p = trim(a.string_regex@);
    &&& found == 0
    &&& p.len() > 0
    &&& (encode_utf8(p).len() as usize) <= MAX_REGEX_PATTERN_LEN
    &&& regex_builds(p, true, MAX_REGEX_SIZE_LIMIT as nat, MAX_REGEX_NEST_LIMIT as nat)
    &&& regex_is_match(p, true, Seq::empty())
}

/// What scanning the file again does: the list is rebuilt and filtered,
/// the count logged, and a filter that can only match the empty string is
/// reported when nothing was found.
pub open spec fn rescanned(a: App, b: App) -> bool {
    let n = a.logs@.len();
    let found = b.strings@.len();
    &&& hits(b.strings@) == scanned(
            a.file_info.buffer@,
            a.hex_view.strings_dialog.encoding,
            a.config.minimum_string_length as nat,
            a.config.maximum_strings_to_show as nat,
            scan_filter(a.string_regex@),
        )
    &&& forall|k: int|
            0 <= k < b.strings@.len() ==> (#[trigger] b.strings@[k]).display@ == row_text(
                shown_address(a, b.strings@[k].offset) as nat,
                b.strings@[k].content@,
            )
    &&& b.hex_view.strings_filtered@ == kept_rows(b.strings@, box_pattern(a), found)
    &&& b.list_selected == clamped_selection(a.list_selected, b.hex_view.strings_filtered@.len())
    &&& b.hex_view == (HexView { strings_filtered: b.hex_view.strings_filtered, ..a.hex_view })
    &&& b.logs@.take(n as int) == a.logs@
    &&& b.logs@[n as int]@ == rescan_message(a, found)
    &&& if empty_only_warning(a, found) {
            &&& b.logs@.len() == n + 2
            &&& b.logs@[(n + 1) as int]@ == M::WarnRegexEmptyOnly.text(a.config.lang)
            &&& b.status_error matches Some(e) && e@ == M::WarnRegexEmptyOnly.text(a.config.lang)
        } else {
            &&& b.logs@.len() == n + 1
            &&& b.status_error == a.status_error
        }
    &&& b == (App {
            hex_view: b.hex_view,
            strings: b.strings,
            list_selected: b.list_selected,
            logs: b.logs,
            status_error: b.status_error,
            ..a
        })
}

impl Commands {

    /// Opens the Strings dialog: scans the file unless strings are already
    /// loaded, shows their addresses, applies the filter box and selects the
    /// first row.
    pub fn strings(app: &mut App)
        ensures
            strings_opened(*old(app), *final(app)),
    {
        Commands::load_strings(app, false);
        let ghost loaded = app.strings@;
        Commands::refresh_string_addresses(app);
        proof {
            assert(hits(app.strings@) =~= hits(loaded));
        }
        app.hex_view.strings_dialog.focus_filter = false;
        update_strings_filter(app);
        app.state = UIState::DialogStrings;
        if app.hex_view.strings_filtered.len() > 0 {
            app.list_selected = Some(0);
        }
    }


    /// Scans the file again, logs how many strings were found, and warns
    /// when nothing was found because the pattern only matches the empty
    /// string.
    pub fn rescan_strings(app: &mut App)
        ensures
            rescanned(*old(app), *final(app)),
    {
        Commands::load_strings(app, true);
        let ghost loaded = app.strings@;
        Commands::refresh_string_addresses(app);
        proof {
            assert(hits(app.strings@) =~= hits(loaded));
        }
        update_strings_filter(app);
        let ghost n = old(app).logs@.len();
        let mut message = String::new();
        push_str(&mut message, "Strings: ");
        push_dec(&mut message, app.strings.len() as u64);
        push_str(&mut message, " found (min ");
        push_dec(&mut message, app.config.minimum_string_length as u64);
        push_str(&mut message, " chars, ");
        push_str(&mut message, app.hex_view.strings_dialog.encoding.as_str());
        push_str(&mut message, ")");
        app.log(message);
        if app.strings.len() == 0 && matches_the_empty_string(app.string_regex.as_str()) {
            let warning = string_from(M::WarnRegexEmptyOnly.tr(app.config.lang));
            app.status_error = Some(string_from(warning.as_str()));
            app.log(warning);
        }
        assert(app.logs@.take(n as int) =~= old(app).logs@);
    }
}

// ---------------------------------------------------------------------------
// The dialog's keys
// ---------------------------------------------------------------------------

/// What a key asks for in the Strings dialog.
#[derive(Clone, Copy, PartialEq, Eq, Debug, Structural)]
pub enum StringsCommand {
    Close,
    /// Esc or Enter in the filter box: back to the list.
    LeaveFilter,
    /// Tab: the filter box and the list swap the keyboard.
    SwapFocus,
    /// F2 (Shift+F2 backwards): the next encoding, and a rescan.
    CycleEncoding(bool),
    /// Move the selection this many rows.
    Move(isize),
    /// A cursor key in the filter box.
    EditFilter(InputEdit),
    /// Enter on the list: go to the chosen string and select it.
    Choose,
    /// F4: replace the chosen string in place.
    EditString,
    Longer,
    Shorter,
    Rescan,
    FocusFilter,
    CopyAll,
    CopyOne,
    /// Anything else while the filter box has the keyboard.
    Type(KeyPress),
    Nothing,
}

/// What a key asks for in the Strings dialog. The arrows and page keys move
/// the selection wherever the keyboard is; Home and End page (to the ends
/// with Ctrl) in the list and move the cursor in the filter box; `+`, `-`,
/// `R` and `f` act only from the list.
pub open spec fn strings_command(app: App, key: KeyPress) -> StringsCommand {
    let focus = app.hex_view.strings_dialog.focus_filter;
    let page = page_rows_step(app);
    match key.code {
        Key::Esc => if focus { StringsCommand::LeaveFilter } else { StringsCommand::Close },
        Key::Tab => StringsCommand::SwapFocus,
        Key::BackTab => StringsCommand::SwapFocus,
        Key::F(n) => if n == 2 {
            StringsCommand::CycleEncoding(!key.shift)
        } else if n == 4 {
            StringsCommand::EditString
        } else {
            StringsCommand::Nothing
        },
        Key::Down => StringsCommand::Move(1isize),
        Key::Up => StringsCommand::Move(-1isize),
        Key::PageDown => StringsCommand::Move(page),
        Key::PageUp => StringsCommand::Move((-page) as isize),
        Key::Left => if focus { StringsCommand::EditFilter(InputEdit::Left) } else { StringsCommand::Nothing },
        Key::Right => if focus { StringsCommand::EditFilter(InputEdit::Right) } else { StringsCommand::Nothing },
        Key::Home => if focus {
            StringsCommand::EditFilter(InputEdit::Home)
        } else if key.ctrl {
            StringsCommand::Move((isize::MIN / 2) as isize)
        } else {
            StringsCommand::Move((-page) as isize)
        },
        Key::End => if focus {
            StringsCommand::EditFilter(InputEdit::End)
        } else if key.ctrl {
            StringsCommand::Move((isize::MAX / 2) as isize)
        } else {
            StringsCommand::Move(page)
        },
        Key::Enter => if focus { StringsCommand::LeaveFilter } else { StringsCommand::Choose },
        Key::Char(c) => if c == '+' && !focus {
            StringsCommand::Longer
        } else if c == '-' && !focus && app.config.minimum_string_length > 1 {
            StringsCommand::Shorter
        } else if c == 'R' && !focus {
            StringsCommand::Rescan
        } else if (c == 'f' || c == '/') && !focus {
            StringsCommand::FocusFilter
        } else if (c == 'c' || c == 'C') && key.ctrl && key.shift {
            StringsCommand::CopyAll
        } else if (c == 'c' || c == 'C') && key.ctrl {
            StringsCommand::CopyOne
        } else if focus {
            StringsCommand::Type(key)
        } else {
            StringsCommand::Nothing
        },
        _ => if focus { StringsCommand::Type(key) } else { StringsCommand::Nothing },
    }
}

/// The rows a page key moves (see `page_step`).
pub open spec fn page_rows_step(app: App) -> isize {
    if app.hex_view.strings_dialog.page_rows < 2 {
        STRINGS_PAGE_STEP as isize
    } else {
        (app.hex_view.strings_dialog.page_rows - 1) as isize
    }
}

/// The list selection after moving `delta` rows (see `move_selection`).
pub open spec fn moved_selection(app: App, delta: isize) -> Option<usize> {
    if app.hex_view.strings_filtered@.len() == 0 {
        None
    } else {
        let cur = match app.list_selected {
            Some(n) => n,
            None => 0,
        };
        Some(clamp_int((cur as isize) + delta, 0, app.hex_view.strings_filtered@.len() - 1) as usize)
    }
}

/// The found string the list selection shows, by its index in the list of
/// found strings.
pub open spec fn chosen_string(app: App) -> Option<int> {
    match app.list_selected {
        Some(i) => if i < app.hex_view.strings_filtered@.len() {
            let idx = app.hex_view.strings_filtered@[i as int];
            if idx < app.strings@.len() {
                Some(idx as int)
            } else {
                None
            }
        } else {
            None
        },
        None => None,
    }
}

/// The filter box with `e` applied, and whether its text changed.
pub open spec fn filter_edited(a: App, b: App, e: InputEdit) -> bool {
    let d = a.hex_view.strings_dialog;
    let (v, c) = input_edited(d.regex_input@, d.filter_cursor as nat, e);
    &&& b.hex_view.strings_dialog.regex_input@ == v
    &&& b.hex_view.strings_dialog.filter_cursor == c
}

/// What carrying out `cmd` in the Strings dialog does.
pub open spec fn strings_post(a: App, b: App, cmd: StringsCommand, act: HexAction) -> bool {
    let d = a.hex_view.strings_dialog;
    match cmd {
        StringsCommand::Close => act is Nothing && b == (App {
            state: UIState::Normal,
            hex_view: HexView { strings_dialog: StringsDialog { focus_filter: false, ..d }, ..a.hex_view },
            ..a
        }),
        StringsCommand::LeaveFilter => act is Nothing && b == (App {
            hex_view: HexView { strings_dialog: StringsDialog { focus_filter: false, ..d }, ..a.hex_view },
            ..a
        }),
        StringsCommand::SwapFocus => act is Nothing && b == (App {
            hex_view: HexView { strings_dialog: StringsDialog { focus_filter: !d.focus_filter, ..d }, ..a.hex_view },
            ..a
        }),
        StringsCommand::EditString => string_edit_opened(a, b, act),
        StringsCommand::CycleEncoding(forward) => {
            let e = if forward { next_encoding(d.encoding) } else { prev_encoding(d.encoding) };
            let m = App {
                hex_view: HexView { strings_dialog: StringsDialog { encoding: e, ..d }, ..a.hex_view },
                ..a
            };
            act is Nothing && rescanned(m, b)
        },
        StringsCommand::Move(delta) => act is Nothing && b == (App { list_selected: moved_selection(a, delta), ..a }),
        StringsCommand::EditFilter(e) => {
            &&& act is Nothing
            &&& filter_edited(a, b, e)
            &&& b.hex_view == (HexView {
                strings_dialog: StringsDialog {
                    regex_input: b.hex_view.strings_dialog.regex_input,
                    filter_cursor: b.hex_view.strings_dialog.filter_cursor,
                    ..d
                },
                ..a.hex_view
            })
            &&& b == (App { hex_view: b.hex_view, ..a })
        },
        StringsCommand::Choose => act is Nothing && match a.list_selected {
            None => b == a,
            Some(i) => if i >= a.hex_view.strings_filtered@.len() {
                &&& b.logs@ == a.logs@.push(b.logs@.last())
                &&& b.logs@.last()@ == "selection "@ + dec_digits(i as nat) + " is out of range (0.."@
                    + dec_digits(a.hex_view.strings_filtered@.len()) + ")"@
                &&& b == (App { logs: b.logs, ..a })
            } else if chosen_string(a) is None {
                let idx = a.hex_view.strings_filtered@[i as int];
                &&& b.logs@ == a.logs@.push(b.logs@.last())
                &&& b.logs@.last()@ == "string "@ + dec_digits(idx as nat) + " is out of range (0.."@
                    + dec_digits(a.strings@.len()) + ")"@
                &&& b == (App { logs: b.logs, ..a })
            } else {
                let f = a.strings@[chosen_string(a)->0];
                let top = min_int(f.offset + sat_sub(f.size as int, 1), usize::MAX as int);
                let end = max_int(min_int(top, sat_sub(a.file_info.size as int, 1)), f.offset as int) as usize;
                &&& crate::app::view_went(a, b, f.offset)
                &&& b.hex_view == (HexView {
                    offset: b.hex_view.offset,
                    cursor: b.hex_view.cursor,
                    selection: Selection { start: f.offset, end, direction: None, is_mouse: false },
                    selection_target: EditingTarget::Hex,
                    strings_dialog: StringsDialog { focus_filter: false, ..d },
                    ..a.hex_view
                })
                &&& b == (App { hex_view: b.hex_view, reader: b.reader, state: UIState::Normal, ..a })
            },
        },
        StringsCommand::Longer => {
            let m = App { config: Config { minimum_string_length: (a.config.minimum_string_length + 1) as usize, ..a.config }, ..a };
            act is Nothing && rescanned(m, b)
        },
        StringsCommand::Shorter => {
            let m = App { config: Config { minimum_string_length: (a.config.minimum_string_length - 1) as usize, ..a.config }, ..a };
            act is Nothing && rescanned(m, b)
        },
        StringsCommand::Rescan => act is Nothing && rescanned(a, b),
        StringsCommand::FocusFilter => act is Nothing && b == (App {
            hex_view: HexView { strings_dialog: StringsDialog { focus_filter: true, ..d }, ..a.hex_view },
            ..a
        }),
        StringsCommand::CopyAll => {
            let rows = filtered_rows(a, a.hex_view.strings_filtered@.len());
            copied(a, b, act, join(rows, "\r\n"@), dec_digits(rows.len()) + " string(s)"@)
        },
        StringsCommand::CopyOne => if d.focus_filter {
            copied(a, b, act, d.regex_input@, "filter text"@)
        } else {
            copied(
                a,
                b,
                act,
                match chosen_string(a) {
                    Some(k) => tsv_row(shown_address(a, a.strings@[k].offset), a.strings@[k].content@),
                    None => Seq::empty(),
                },
                "1 string"@,
            )
        },
        StringsCommand::Type(k) => act is Nothing && match input_edit(k) {
            None => b == a,
            Some(e) => {
                let (v, c) = input_edited(d.regex_input@, d.filter_cursor as nat, e);
                let m = App {
                    hex_view: HexView { strings_dialog: StringsDialog { filter_cursor: c as usize, ..d }, ..a.hex_view },
                    ..a
                };
                &&& filter_edited(a, b, e)
                &&& if v == d.regex_input@ {
                    b.hex_view == (HexView {
                        strings_dialog: StringsDialog { regex_input: b.hex_view.strings_dialog.regex_input, ..m.hex_view.strings_dialog },
                        ..m.hex_view
                    }) && b == (App { hex_view: b.hex_view, ..a })
                } else {
                    &&& b.hex_view.strings_filtered@ == kept_rows(a.strings@, trim(v), a.strings@.len())
                    &&& b.list_selected == clamped_selection(a.list_selected, b.hex_view.strings_filtered@.len())
                    &&& b.hex_view == (HexView {
                        strings_filtered: b.hex_view.strings_filtered,
                        strings_dialog: StringsDialog { regex_input: b.hex_view.strings_dialog.regex_input, ..m.hex_view.strings_dialog },
                        ..m.hex_view
                    })
                    &&& b == (App { hex_view: b.hex_view, list_selected: b.list_selected, ..a })
                }
            },
        },
        StringsCommand::Nothing => act is Nothing && b == a,
    }
}


pub open spec fn max_int(a: int, b: int) -> int {
    if a >= b { a } else { b }
}

pub open spec fn min_int(a: int, b: int) -> int {
    if a <= b { a } else { b }
}

pub open spec fn sat_sub(a: int, b: int) -> int {
    if a >= b { a - b } else { 0 }
}

/// Classifies a key in the Strings dialog (see `strings_command`).
pub fn strings_command_for(app: &App, key: KeyPress) -> (c: StringsCommand)
    requires
        app.hex_view.strings_dialog.page_rows <= isize::MAX,
    ensures
        c == strings_command(*app, key),
{
    let focus = app.hex_view.strings_dialog.focus_filter;
    let page = page_step(app);
    match key.code {
        Key::Esc => if focus { StringsCommand::LeaveFilter } else { StringsCommand::Close },
        Key::Tab => StringsCommand::SwapFocus,
        Key::BackTab => StringsCommand::SwapFocus,
        Key::F(n) => if n == 2 {
            StringsCommand::CycleEncoding(!key.shift)
        } else if n == 4 {
            StringsCommand::EditString
        } else {
            StringsCommand::Nothing
        },
        Key::Down => StringsCommand::Move(1),
        Key::Up => StringsCommand::Move(-1),
        Key::PageDown => StringsCommand::Move(page),
        Key::PageUp => StringsCommand::Move(-page),
        Key::Left => if focus { StringsCommand::EditFilter(InputEdit::Left) } else { StringsCommand::Nothing },
        Key::Right => if focus { StringsCommand::EditFilter(InputEdit::Right) } else { StringsCommand::Nothing },
        Key::Home => if focus {
            StringsCommand::EditFilter(InputEdit::Home)
        } else if key.ctrl {
            StringsCommand::Move(isize::MIN / 2)
        } else {
            StringsCommand::Move(-page)
        },
        Key::End => if focus {
            StringsCommand::EditFilter(InputEdit::End)
        } else if key.ctrl {
            StringsCommand::Move(isize::MAX / 2)
        } else {
            StringsCommand::Move(page)
        },
        Key::Enter => if focus { StringsCommand::LeaveFilter } else { StringsCommand::Choose },
        Key::Char(c) => if c == '+' && !focus {
            StringsCommand::Longer
        } else if c == '-' && !focus && app.config.minimum_string_length > 1 {
            StringsCommand::Shorter
        } else if c == 'R' && !focus {
            StringsCommand::Rescan
        } else if (c == 'f' || c == '/') && !focus {
            StringsCommand::FocusFilter
        } else if (c == 'c' || c == 'C') && key.ctrl && key.shift {
            StringsCommand::CopyAll
        } else if (c == 'c' || c == 'C') && key.ctrl {
            StringsCommand::CopyOne
        } else if focus {
            StringsCommand::Type(key)
        } else {
            StringsCommand::Nothing
        },
        _ => if focus { StringsCommand::Type(key) } else { StringsCommand::Nothing },
    }
}

fn edit_filter_box(app: &mut App, e: InputEdit) -> (changed: bool)
    requires
        old(app).hex_view.strings_dialog.regex_input@.len() < usize::MAX,
    ensures
        filter_edited(*old(app), *final(app), e),
        changed == (final(app).hex_view.strings_dialog.regex_input@ != old(app).hex_view.strings_dialog.regex_input@),
        final(app).hex_view == (HexView {
            strings_dialog: StringsDialog {
                regex_input: final(app).hex_view.strings_dialog.regex_input,
                filter_cursor: final(app).hex_view.strings_dialog.filter_cursor,
                ..old(app).hex_view.strings_dialog
            },
            ..old(app).hex_view
        }),
        *final(app) == (App { hex_view: final(app).hex_view, ..*old(app) }),
{
    let mut text = String::new();
    std::mem::swap(&mut text, &mut app.hex_view.strings_dialog.regex_input);
    let before = string_from(text.as_str());
    let mut field = TextInput::with_cursor(text, app.hex_view.strings_dialog.filter_cursor);
    field.apply(e);
    let changed = !crate::codec::is_named(field.value.as_str(), before.as_str());
    app.hex_view.strings_dialog.regex_input = field.value;
    app.hex_view.strings_dialog.filter_cursor = field.cursor;
    changed
}

fn choose_string(app: &mut App) -> (act: HexAction)
    ensures
        strings_post(*old(app), *final(app), StringsCommand::Choose, act),
{
    let choice = match app.list_selected {
        Some(i) => i,
        None => {
            return HexAction::Nothing;
        },
    };
    if choice >= app.hex_view.strings_filtered.len() {
        let mut msg = string_from("selection ");
        push_dec(&mut msg, choice as u64);
        push_str(&mut msg, " is out of range (0..");
        push_dec(&mut msg, app.hex_view.strings_filtered.len() as u64);
        push_str(&mut msg, ")");
        proof {
            reveal_strlit("selection ");
            reveal_strlit(" is out of range (0..");
            reveal_strlit(")");
        }
        app.log(msg);
        return HexAction::Nothing;
    }
    let idx = app.hex_view.strings_filtered[choice];
    if idx >= app.strings.len() {
        let mut msg = string_from("string ");
        push_dec(&mut msg, idx as u64);
        push_str(&mut msg, " is out of range (0..");
        push_dec(&mut msg, app.strings.len() as u64);
        push_str(&mut msg, ")");
        proof {
            reveal_strlit("string ");
            reveal_strlit(" is out of range (0..");
            reveal_strlit(")");
        }
        app.log(msg);
        return HexAction::Nothing;
    }
    let offset = app.strings[idx].offset;
    let size = app.strings[idx].size;
    app.goto(offset);
    let s1 = if size >= 1 { size - 1 } else { 0 };
    let top = if s1 > usize::MAX - offset { usize::MAX } else { offset + s1 };
    let fsize = app.file_info.size;
    let cap = if fsize >= 1 { fsize - 1 } else { 0 };
    let low = if top < cap { top } else { cap };
    let end = if low > offset { low } else { offset };
    app.hex_view.selection.start = offset;
    app.hex_view.selection.end = end;
    app.hex_view.selection.direction = None;
    app.hex_view.selection.is_mouse = false;
    app.hex_view.selection_target = EditingTarget::Hex;
    app.hex_view.strings_dialog.focus_filter = false;
    app.state = UIState::Normal;
    HexAction::Nothing
}

fn copy_one(app: &mut App) -> (act: HexAction)
    ensures
        strings_post(*old(app), *final(app), StringsCommand::CopyOne, act),
{
    if app.hex_view.strings_dialog.focus_filter {
        let text = string_from(app.hex_view.strings_dialog.regex_input.as_str());
        return app.copy_to_clipboard(text, "filter text");
    }
    let text = match app.list_selected {
        Some(i) => {
            if i < app.hex_view.strings_filtered.len() {
                let idx = app.hex_view.strings_filtered[i];
                if idx < app.strings.len() {
                    row_as_tsv(app, &app.strings[idx])
                } else {
                    String::new()
                }
            } else {
                String::new()
            }
        },
        None => String::new(),
    };
    proof {
        reveal_strlit("1 string");
    }
    app.copy_to_clipboard(text, "1 string")
}

fn type_in_filter(app: &mut App, key: KeyPress) -> (act: HexAction)
    requires
        old(app).hex_view.strings_dialog.regex_input@.len() < usize::MAX,
    ensures
        strings_post(*old(app), *final(app), StringsCommand::Type(key), act),
{
    match input_edit_for(key) {
        None => HexAction::Nothing,
        Some(e) => {
            if edit_filter_box(app, e) {
                update_strings_filter(app);
            }
            HexAction::Nothing
        },
    }
}

/// Carries out `cmd` in the Strings dialog (see `strings_post`).
pub fn run_strings_command(app: &mut App, cmd: StringsCommand) -> (act: HexAction)
    requires
        old(app).hex_view.strings_filtered@.len() <= isize::MAX,
        old(app).hex_view.strings_dialog.regex_input@.len() < usize::MAX,
        old(app).config.minimum_string_length < usize::MAX,
        cmd is Shorter ==> old(app).config.minimum_string_length > 1,
        cmd is EditString ==> (chosen_string(*old(app)) matches Some(r) ==> old(app).strings@[r].offset
            + old(app).strings@[r].size + 512 <= usize::MAX),
    ensures
        strings_post(*old(app), *final(app), cmd, act),
{
    match cmd {
        StringsCommand::EditString => open_string_edit(app),
        StringsCommand::Close => {
            app.hex_view.strings_dialog.focus_filter = false;
            app.state = UIState::Normal;
            HexAction::Nothing
        },
        StringsCommand::LeaveFilter => {
            app.hex_view.strings_dialog.focus_filter = false;
            HexAction::Nothing
        },
        StringsCommand::SwapFocus => {
            app.hex_view.strings_dialog.focus_filter = !app.hex_view.strings_dialog.focus_filter;
            HexAction::Nothing
        },
        StringsCommand::CycleEncoding(forward) => {
            let e = if forward {
                app.hex_view.strings_dialog.encoding.next()
            } else {
                app.hex_view.strings_dialog.encoding.prev()
            };
            app.hex_view.strings_dialog.encoding = e;
            Commands::rescan_strings(app);
            HexAction::Nothing
        },
        StringsCommand::Move(delta) => {
            move_selection(app, delta);
            HexAction::Nothing
        },
        StringsCommand::EditFilter(e) => {
            let _ = edit_filter_box(app, e);
            HexAction::Nothing
        },
        StringsCommand::Choose => choose_string(app),
        StringsCommand::Longer => {
            app.config.minimum_string_length = app.config.minimum_string_length + 1;
            Commands::rescan_strings(app);
            HexAction::Nothing
        },
        StringsCommand::Shorter => {
            app.config.minimum_string_length = app.config.minimum_string_length - 1;
            Commands::rescan_strings(app);
            HexAction::Nothing
        },
        StringsCommand::Rescan => {
            Commands::rescan_strings(app);
            HexAction::Nothing
        },
        StringsCommand::FocusFilter => {
            app.hex_view.strings_dialog.focus_filter = true;
            HexAction::Nothing
        },
        StringsCommand::CopyAll => {
            let (text, count) = filtered_rows_as_tsv(app);
            let mut what = String::new();
            push_dec(&mut what, count as u64);
            push_str(&mut what, " string(s)");
            proof {
                reveal_strlit(" string(s)");
            }
            app.copy_to_clipboard(text, what.as_str())
        },
        StringsCommand::CopyOne => copy_one(app),
        StringsCommand::Type(k) => type_in_filter(app, k),
        StringsCommand::Nothing => HexAction::Nothing,
    }
}

/// Handles a key in the Strings dialog (see `strings_command` and
/// `strings_post`).
pub fn dialog_strings_events(app: &mut App, key: KeyPress) -> (act: HexAction)
    requires
        old(app).hex_view.strings_filtered@.len() <= isize::MAX,
        old(app).hex_view.strings_dialog.regex_input@.len() < usize::MAX,
        old(app).config.minimum_string_length < usize::MAX,
        old(app).hex_view.strings_dialog.page_rows <= isize::MAX,
        key.code == Key::F(4) ==> (chosen_string(*old(app)) matches Some(r) ==> old(app).strings@[r].offset
            + old(app).strings@[r].size + 512 <= usize::MAX),
    ensures
        strings_post(*old(app), *final(app), strings_command(*old(app), key), act),
{
    let cmd = strings_command_for(app, key);
    run_strings_command(app, cmd)
}

} // verus!
