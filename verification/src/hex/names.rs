//! The Names dialog: every comment in the file, filtered, sorted and walked.
use vstd::prelude::*;

use crate::app::{after_goto, copied, error_shown, App, UIState};
use crate::hex::comment::{comment_at, entry_views, forget_name_entry, open_comment_dialog, without_offset, Comment};
use crate::hex::events::{HexAction, Key, KeyPress};
use crate::hex::field_box::{input_edit, input_edit_for, input_edited, TextInput};
use crate::hex::hex_view::HexView;
use crate::hex::strings::{build_safe_regex, has_nonempty_match, regex_finds_nonempty};
use crate::hex::strings_list::{address_for, pattern_builds, shown_address, tsv_row};
use crate::i18n::{fill, fill_spec, str_views, M};
use crate::initfile::join;
use crate::text::{chars_of, hex_digits, push_dec, push_hex, push_str, string_from, string_of, trim, trim_chars};
use vstd::string::StringSliceAdditionalSpecFns;
use vstd::utf8::encode_utf8;

verus! {

/// `b` in lower case if it is an ASCII capital.
pub open spec fn ascii_lower(b: u8) -> u8 {
    if 0x41 <= b && b <= 0x5A {
        (b + 32) as u8
    } else {
        b
    }
}

/// Whether `n` occurs in `h` at `i`, ASCII letters compared without case.
pub open spec fn matches_ci_at(h: Seq<u8>, n: Seq<u8>, i: int) -> bool {
    0 <= i && i + n.len() <= h.len() && forall|j: int| 0 <= j < n.len() ==> ascii_lower(#[trigger] h[i + j]) == ascii_lower(n[j])
}

/// Whether `n` occurs somewhere in `h`, ASCII letters compared without case
/// (an empty `n` always does).
pub open spec fn contains_ci(h: Seq<u8>, n: Seq<u8>) -> bool {
    n.len() == 0 || exists|i: int| #[trigger] matches_ci_at(h, n, i)
}

fn lower(b: u8) -> (r: u8)
    ensures
        r == ascii_lower(b),
{
    if 0x41 <= b && b <= 0x5A {
        b + 32
    } else {
        b
    }
}

/// Whether `needle` occurs in `haystack`, ASCII letters compared without
/// case, byte for byte.
pub fn contains_ignore_ascii_case(haystack: &str, needle: &str) -> (b: bool)
    ensures
        b == contains_ci(encode_utf8(haystack@), encode_utf8(needle@)),
{
    let h = haystack.as_bytes();
    let n = needle.as_bytes();
    proof {
        assert(haystack.spec_bytes() == encode_utf8(haystack@));
        assert(needle.spec_bytes() == encode_utf8(needle@));
    }
    if n.len() == 0 {
        return true;
    }
    if h.len() < n.len() {
        proof {
            assert forall|i: int| !matches_ci_at(h@, n@, i) by {}
        }
        return false;
    }
    let last = h.len() - n.len();
    let mut i: usize = 0;
    while i <= last
        invariant
            h@ == encode_utf8(haystack@),
            n@ == encode_utf8(needle@),
            h@.len() >= n@.len(),
            last + n@.len() == h@.len(),
            h@.len() <= usize::MAX,
            n@.len() > 0,
            forall|k: int| 0 <= k < i ==> !#[trigger] matches_ci_at(h@, n@, k),
        decreases last + 1 - i,
    {
        let mut j: usize = 0;
        let mut same = true;
        while j < n.len()
            invariant
                i <= last,
                last + n@.len() == h@.len(),
                h@.len() <= usize::MAX,
                j <= n@.len(),
                same == forall|x: int| 0 <= x < j ==> ascii_lower(#[trigger] h@[i + x]) == ascii_lower(n@[x]),
            decreases n@.len() - j,
        {
            if lower(h[i + j]) != lower(n[j]) {
                same = false;
            }
            j = j + 1;
        }
        if same {
            assert(matches_ci_at(h@, n@, i as int));
            assert(h@ == encode_utf8(haystack@) && n@ == encode_utf8(needle@));
            assert(matches_ci_at(encode_utf8(haystack@), encode_utf8(needle@), i as int));
            return true;
        }
        assert(!matches_ci_at(h@, n@, i as int)) by {
            if matches_ci_at(h@, n@, i as int) {
                assert(forall|x: int| 0 <= x < n@.len() ==> ascii_lower(#[trigger] h@[i + x]) == ascii_lower(n@[x]));
            }
        }
        i = i + 1;
    }
    proof {
        assert forall|k: int| !matches_ci_at(h@, n@, k) by {
            if 0 <= k && k + n@.len() <= h@.len() {
                assert(k < i);
            }
        }
    }
    false
}

/// Whether the Names list keeps a comment with text `c` under the pattern
/// `p`: always for an empty pattern; by a non-empty regex match when `p`
/// builds, and by a case-blind substring search otherwise.
pub open spec fn name_kept(p: Seq<char>, c: Seq<char>) -> bool {
    if p.len() == 0 {
        true
    } else if pattern_builds(p) {
        regex_finds_nonempty(p, true, c)
    } else {
        contains_ci(encode_utf8(c), encode_utf8(p))
    }
}

/// The entries of `l` the list shows under pattern `p`, in list order.
pub open spec fn shown_names(l: Seq<(usize, Seq<char>)>, p: Seq<char>) -> Seq<(usize, Seq<char>)>
    decreases l.len(),
{
    if l.len() == 0 {
        seq![]
    } else {
        let rest = shown_names(l.drop_last(), p);
        if name_kept(p, l.last().1) {
            rest.push(l.last())
        } else {
            rest
        }
    }
}

/// The rows the Names list shows.
pub open spec fn names_shown(app: App) -> Seq<(usize, Seq<char>)> {
    shown_names(entry_views(app.hex_view.comment_name_list@), trim(app.hex_view.names_regex@))
}

/// The comments the list shows, in list order.
pub fn filtered_comments(app: &App) -> (r: Vec<Comment>)
    ensures
        entry_views(r@) == names_shown(*app),
{
    let cs = chars_of(app.hex_view.names_regex.as_str());
    let t = trim_chars(cs.as_slice());
    let pattern = string_of(t.as_slice());
    let re = build_safe_regex(pattern.as_str());
    let ps = pattern.as_str();
    proof {
        assert(ps.spec_bytes() == encode_utf8(t@));
        assert(t@.len() > 0 ==> (re is Some <==> pattern_builds(t@)));
    }
    let l = &app.hex_view.comment_name_list;
    let mut out: Vec<Comment> = Vec::new();
    let mut i: usize = 0;
    while i < l.len()
        invariant
            i <= l@.len(),
            l@ == app.hex_view.comment_name_list@,
            pattern@ == trim(app.hex_view.names_regex@),
            pattern@ == t@,
            t@.len() > 0 ==> (re is Some <==> pattern_builds(t@)),
            t@.len() == 0 ==> re is None,
            re matches Some(f) ==> f.pattern() == t@ && f.ignores_case(),
            entry_views(out@) == shown_names(entry_views(l@.take(i as int)), pattern@),
        decreases l@.len() - i,
    {
        let c = &l[i];
        let keep = if t.len() == 0 {
            true
        } else {
            match &re {
                Some(f) => has_nonempty_match(f, c.comment.as_str()),
                None => contains_ignore_ascii_case(c.comment.as_str(), pattern.as_str()),
            }
        };
        proof {
            assert(entry_views(l@.take(i + 1)).drop_last() =~= entry_views(l@.take(i as int)));
            assert(entry_views(l@.take(i + 1)).last() == (c.offset, c.comment@));
            if t@.len() > 0 {
                match &re {
                    Some(f) => assert(keep == name_kept(pattern@, c.comment@)),
                    None => assert(keep == name_kept(pattern@, c.comment@)),
                }
            }
        }
        if keep {
            let ghost o0 = out@;
            out.push(Comment { offset: c.offset, comment: c.comment.clone() });
            assert(entry_views(out@) =~= entry_views(o0).push((c.offset, c.comment@)));
        }
        i = i + 1;
    }
    assert(l@.take(i as int) =~= l@);
    out
}

/// The offset of the highlighted row, `None` when nothing (or a stale row)
/// is highlighted.
pub open spec fn selected_name(app: App) -> Option<usize> {
    match app.hex_view.names_selected {
        Some(i) => if i < names_shown(app).len() { Some(names_shown(app)[i as int].0) } else { None },
        None => None,
    }
}

/// The offset of the highlighted row (see `selected_name`).
pub fn selected_offset(app: &App) -> (r: Option<usize>)
    ensures
        r == selected_name(*app),
{
    let shown = filtered_comments(app);
    match app.hex_view.names_selected {
        Some(i) => {
            if i < shown.len() {
                proof {
                    assert(entry_views(shown@)[i as int] == (shown@[i as int].offset, shown@[i as int].comment@));
                }
                Some(shown[i].offset)
            } else {
                None
            }
        },
        None => None,
    }
}

// ---------------------------------------------------------------------------
// Sorting
// ---------------------------------------------------------------------------

/// Whether text `a` sorts before `b`, character by character.
pub open spec fn text_lt(a: Seq<char>, b: Seq<char>) -> bool
    decreases a.len(),
{
    if a.len() == 0 {
        b.len() > 0
    } else if b.len() == 0 {
        false
    } else if a[0] != b[0] {
        (a[0] as u32) < (b[0] as u32)
    } else {
        text_lt(a.drop_first(), b.drop_first())
    }
}

/// Whether entry `a` sorts before `b`: by text, or by offset.
pub open spec fn name_before(a: (usize, Seq<char>), b: (usize, Seq<char>), by_text: bool) -> bool {
    if by_text {
        text_lt(a.1, b.1)
    } else {
        a.0 < b.0
    }
}

/// The first position at or after `i` whose entry `x` sorts before.
pub open spec fn first_after(s: Seq<(usize, Seq<char>)>, x: (usize, Seq<char>), by_text: bool, i: int) -> int
    decreases s.len() - i,
{
    if i < 0 || i >= s.len() {
        s.len() as int
    } else if name_before(x, s[i], by_text) {
        i
    } else {
        first_after(s, x, by_text, i + 1)
    }
}

/// `l` sorted, equal keys keeping their order: each entry goes in after
/// every entry it does not sort before.
pub open spec fn sorted_names(l: Seq<(usize, Seq<char>)>, by_text: bool) -> Seq<(usize, Seq<char>)>
    decreases l.len(),
{
    if l.len() == 0 {
        seq![]
    } else {
        let s = sorted_names(l.drop_last(), by_text);
        s.insert(first_after(s, l.last(), by_text, 0), l.last())
    }
}

fn text_less(a: &str, b: &str) -> (r: bool)
    ensures
        r == text_lt(a@, b@),
{
    let x = chars_of(a);
    let y = chars_of(b);
    let mut i: usize = 0;
    assert(x@.skip(0) =~= x@ && y@.skip(0) =~= y@);
    assert(x@.take(0) =~= y@.take(0));
    while i < x.len() && i < y.len()
        invariant
            x@ == a@,
            y@ == b@,
            i <= x@.len(),
            i <= y@.len(),
            x@.take(i as int) == y@.take(i as int),
            text_lt(x@, y@) == text_lt(x@.skip(i as int), y@.skip(i as int)),
        decreases x@.len() - i,
    {
        if x[i] != y[i] {
            proof {
                assert(x@.skip(i as int)[0] == x@[i as int]);
                assert(y@.skip(i as int)[0] == y@[i as int]);
                assert(x@.skip(i as int).len() > 0 && y@.skip(i as int).len() > 0);
                assert(text_lt(x@.skip(i as int), y@.skip(i as int)) == ((x@[i as int] as u32) < (y@[i as int] as u32)));
            }
            return (x[i] as u32) < (y[i] as u32);
        }
        proof {
            assert(x@.skip(i as int).drop_first() =~= x@.skip(i + 1));
            assert(y@.skip(i as int).drop_first() =~= y@.skip(i + 1));
            assert(x@.take(i + 1) =~= x@.take(i as int).push(x@[i as int]));
            assert(y@.take(i + 1) =~= y@.take(i as int).push(y@[i as int]));
        }
        i = i + 1;
    }
    proof {
        assert(x@.skip(i as int).len() == x@.len() - i);
        assert(y@.skip(i as int).len() == y@.len() - i);
    }
    i < y.len()
}

fn comes_before(a: &Comment, b: &Comment, by_text: bool) -> (r: bool)
    ensures
        r == name_before((a.offset, a.comment@), (b.offset, b.comment@), by_text),
{
    if by_text {
        text_less(a.comment.as_str(), b.comment.as_str())
    } else {
        a.offset < b.offset
    }
}

/// Sorts the Names list by text (`by_text`) or by offset, equal keys keeping
/// their order.
pub fn sort_names(app: &mut App, by_text: bool)
    ensures
        entry_views(final(app).hex_view.comment_name_list@) == sorted_names(
            entry_views(old(app).hex_view.comment_name_list@),
            by_text,
        ),
        final(app).hex_view == (HexView { comment_name_list: final(app).hex_view.comment_name_list, ..old(app).hex_view }),
        *final(app) == (App { hex_view: final(app).hex_view, ..*old(app) }),
{
    let mut input: Vec<Comment> = Vec::new();
    std::mem::swap(&mut input, &mut app.hex_view.comment_name_list);
    let ghost l = entry_views(input@);
    let n = input.len();
    let mut out: Vec<Comment> = Vec::new();
    let mut i: usize = 0;
    while i < n
        invariant
            i <= n,
            n == input@.len(),
            l == entry_views(input@),
            entry_views(out@) == sorted_names(l.take(i as int), by_text),
        decreases n - i,
    {
        let x = &input[i];
        let ghost s = entry_views(out@);
        let mut k: usize = 0;
        while k < out.len() && !comes_before(x, &out[k], by_text)
            invariant
                k <= out@.len(),
                s == entry_views(out@),
                first_after(s, (x.offset, x.comment@), by_text, 0) == first_after(s, (x.offset, x.comment@), by_text, k as int),
            decreases out@.len() - k,
        {
            k = k + 1;
        }
        proof {
            assert(l.take(i + 1).drop_last() =~= l.take(i as int));
            assert(l.take(i + 1).last() == (x.offset, x.comment@));
        }
        out.insert(k, Comment { offset: x.offset, comment: x.comment.clone() });
        assert(entry_views(out@) =~= s.insert(k as int, (x.offset, x.comment@)));
        i = i + 1;
    }
    assert(l.take(n as int) =~= l);
    app.hex_view.comment_name_list = out;
}

proof fn lemma_first_after_by_offset(s: Seq<(usize, Seq<char>)>, x: (usize, Seq<char>), i: int)
    requires
        0 <= i <= s.len(),
    ensures
        i <= first_after(s, x, false, i) <= s.len(),
        forall|j: int| i <= j < first_after(s, x, false, i) ==> (#[trigger] s[j]).0 <= x.0,
        first_after(s, x, false, i) < s.len() ==> x.0 < s[first_after(s, x, false, i)].0,
    decreases s.len() - i,
{
    if i < s.len() && !name_before(x, s[i], false) {
        lemma_first_after_by_offset(s, x, i + 1);
    }
}

proof fn lemma_insert_multiset(s: Seq<(usize, Seq<char>)>, k: int, x: (usize, Seq<char>))
    requires
        0 <= k <= s.len(),
    ensures
        s.insert(k, x).to_multiset() == s.to_multiset().insert(x),
{
    broadcast use vstd::multiset::group_multiset_axioms;
    let a = s.take(k);
    let b = s.skip(k);
    assert(s.insert(k, x) =~= a.push(x) + b);
    assert(s =~= a + b);
    vstd::seq_lib::lemma_multiset_commutative(a.push(x), b);
    vstd::seq_lib::lemma_multiset_commutative(a, b);
    a.to_multiset_ensures();
    assert(s.insert(k, x).to_multiset() =~= s.to_multiset().insert(x));
}

/// Sorting by offset orders the list by offset and keeps exactly the same
/// entries.
pub proof fn law_sort_by_offset(l: Seq<(usize, Seq<char>)>)
    ensures
        forall|i: int, j: int|
            0 <= i < j < sorted_names(l, false).len() ==> (#[trigger] sorted_names(l, false)[i]).0
                <= (#[trigger] sorted_names(l, false)[j]).0,
        sorted_names(l, false).to_multiset() == l.to_multiset(),
    decreases l.len(),
{
    broadcast use vstd::multiset::group_multiset_axioms;
    if l.len() == 0 {
        assert(sorted_names(l, false) =~= l);
    } else {
        let d = l.drop_last();
        let x = l.last();
        law_sort_by_offset(d);
        let s = sorted_names(d, false);
        lemma_first_after_by_offset(s, x, 0);
        let k = first_after(s, x, false, 0);
        let r = s.insert(k, x);
        assert(sorted_names(l, false) == r);
        assert forall|i: int, j: int| 0 <= i < j < r.len() implies (#[trigger] r[i]).0 <= (#[trigger] r[j]).0 by {
            if j < k {
                assert(r[i] == s[i] && r[j] == s[j]);
            } else if j == k {
                assert(r[i] == s[i]);
            } else if i < k {
                assert(r[i] == s[i] && r[j] == s[j - 1]);
                assert(s[i].0 <= s[j - 1].0);
            } else if i == k {
                assert(r[j] == s[j - 1]);
                assert(s[k].0 <= s[j - 1].0);
            } else {
                assert(r[i] == s[i - 1] && r[j] == s[j - 1]);
            }
        }
        lemma_insert_multiset(s, k, x);
        d.to_multiset_ensures();
        assert(d.push(x) =~= l);
    }
}

// ---------------------------------------------------------------------------
// The dialog's keys
// ---------------------------------------------------------------------------

/// What a key asks for in the Names dialog.
#[derive(Clone, Copy, PartialEq, Eq, Debug, Structural)]
pub enum NamesCommand {
    Close,
    /// `;`: close and comment the cursor's offset.
    CommentHere,
    Next,
    Previous,
    PageDown,
    PageUp,
    /// Home: Ctrl to the first row, otherwise a page up.
    Top(bool),
    /// End: Ctrl to the last row, otherwise a page down.
    Bottom(bool),
    GoTo,
    Delete,
    Edit,
    CopyAll,
    CopyOne,
    Filter,
    SortByOffset,
    SortByText,
    Nothing,
}

/// What a key asks for in the Names dialog.
pub open spec fn names_command(key: KeyPress) -> NamesCommand {
    match key.code {
        Key::Esc => NamesCommand::Close,
        Key::Down => NamesCommand::Next,
        Key::Up => NamesCommand::Previous,
        Key::PageDown => NamesCommand::PageDown,
        Key::PageUp => NamesCommand::PageUp,
        Key::Home => NamesCommand::Top(key.ctrl),
        Key::End => NamesCommand::Bottom(key.ctrl),
        Key::Enter => NamesCommand::GoTo,
        Key::Delete => NamesCommand::Delete,
        Key::F(n) => if n == 2 { NamesCommand::Edit } else { NamesCommand::Nothing },
        Key::Char(c) => if c == ';' {
            NamesCommand::CommentHere
        } else if (c == 'y' || c == 'Y') || ((c == 'c' || c == 'C') && key.ctrl) {
            if key.shift { NamesCommand::CopyAll } else { NamesCommand::CopyOne }
        } else if c == 'f' || c == '/' {
            NamesCommand::Filter
        } else if c == 'o' {
            NamesCommand::SortByOffset
        } else if c == 'n' && !key.alt && !key.ctrl {
            NamesCommand::SortByText
        } else {
            NamesCommand::Nothing
        },
        _ => NamesCommand::Nothing,
    }
}

/// A row as the clipboard gets it.
pub open spec fn name_row(app: App, e: (usize, Seq<char>)) -> Seq<char> {
    tsv_row(shown_address(app, e.0), e.1)
}

/// `b` is `a` with the highlighted row `sel`.
pub open spec fn name_selected(a: App, b: App, sel: Option<usize>) -> bool {
    b == (App { hex_view: HexView { names_selected: sel, ..a.hex_view }, ..a })
}

pub open spec fn sat_add(a: usize, b: usize) -> usize {
    if a + b > usize::MAX { usize::MAX } else { (a + b) as usize }
}

pub open spec fn sat_sub(a: usize, b: usize) -> usize {
    if a >= b { (a - b) as usize } else { 0 }
}

/// The message for a comment that points outside the file.
pub open spec fn outside_message(app: App, offset: usize) -> Seq<char> {
    fill_spec(M::ErrCommentOutside.text(app.config.lang), seq![hex_digits(offset as nat)])
}

/// What carrying out `cmd` in the Names dialog does.
pub open spec fn names_post(a: App, b: App, cmd: NamesCommand, act: HexAction) -> bool {
    let sel = a.hex_view.names_selected;
    let cur = match sel {
        Some(n) => n,
        None => 0,
    };
    match cmd {
        NamesCommand::Close => act is Nothing && b == (App { state: UIState::Normal, ..a }),
        NamesCommand::CommentHere => {
            let t = comment_at(a, a.hex_view.offset);
            &&& act is Nothing
            &&& b.hex_view.comment_input.value@ == t
            &&& b.hex_view.comment_input.cursor == t.len()
            &&& b.hex_view == (HexView { comment_input: b.hex_view.comment_input, ..a.hex_view })
            &&& b == (App { hex_view: b.hex_view, state: UIState::DialogComment, ..a })
        },
        NamesCommand::Next => act is Nothing && name_selected(a, b, Some(match sel {
            Some(n) => sat_add(n, 1),
            None => 0,
        })),
        NamesCommand::Previous => act is Nothing && name_selected(a, b, Some(match sel {
            Some(n) => sat_sub(n, 1),
            None => usize::MAX,
        })),
        NamesCommand::PageDown => act is Nothing && name_selected(a, b, Some(sat_add(cur, 30))),
        NamesCommand::PageUp => act is Nothing && name_selected(a, b, Some(sat_sub(cur, 30))),
        NamesCommand::Top(ctrl) => act is Nothing && if ctrl {
            name_selected(a, b, Some(0))
        } else {
            match sel {
                Some(n) => name_selected(a, b, Some(sat_sub(n, 29))),
                None => b == a,
            }
        },
        NamesCommand::Bottom(ctrl) => act is Nothing && if ctrl {
            name_selected(a, b, Some(usize::MAX))
        } else {
            let last = sat_sub(a.hex_view.comment_name_list@.len() as usize, 1);
            match sel {
                Some(n) => name_selected(a, b, Some(if n + 29 < last { (n + 29) as usize } else { last })),
                None => b == a,
            }
        },
        NamesCommand::GoTo => act is Nothing && match selected_name(a) {
            Some(o) => {
                &&& b == (App { state: UIState::Normal, ..after_goto(a, o) })
            },
            None => b == (App { state: UIState::Normal, ..a }),
        },
        NamesCommand::Delete => match selected_name(a) {
            None => act is Beep && b == a,
            Some(o) => {
                let remaining = names_shown(b).len();
                &&& act is Nothing
                &&& b.hex_view.comments@ == a.hex_view.comments@.remove(o)
                &&& entry_views(b.hex_view.comment_name_list@) == without_offset(entry_views(a.hex_view.comment_name_list@), o)
                &&& b.hex_view.names_selected == if remaining == 0 {
                    None
                } else if cur >= remaining {
                    Some((remaining - 1) as usize)
                } else {
                    sel
                }
                &&& b.hex_view == (HexView {
                    comments: b.hex_view.comments,
                    comment_name_list: b.hex_view.comment_name_list,
                    names_selected: b.hex_view.names_selected,
                    ..a.hex_view
                })
                &&& b.logs@ == a.logs@.push(b.logs@.last())
                &&& b.logs@.last()@ == "Deleted the comment at 0x"@ + hex_digits(o as nat)
                &&& b == (App { hex_view: b.hex_view, logs: b.logs, ..a })
            },
        },
        NamesCommand::Edit => match selected_name(a) {
            None => act is Beep && b == a,
            Some(o) => {
                let m = after_goto(a, o);
                &&& act is Nothing
                &&& if m.hex_view.offset == o {
                    let t = comment_at(m, o);
                    &&& b.hex_view.comment_input.value@ == t
                    &&& b.hex_view.comment_input.cursor == t.len()
                    &&& b == (App {
                        hex_view: HexView { comment_input: b.hex_view.comment_input, ..m.hex_view },
                        state: UIState::DialogComment,
                        ..m
                    })
                } else {
                    error_shown(m, b, outside_message(a, o))
                }
            },
        },
        NamesCommand::CopyAll => {
            let rows = names_shown(a).map_values(|e: (usize, Seq<char>)| name_row(a, e));
            copied(a, b, act, join(rows, "\n"@), dec_digits_of(rows.len()) + " name(s)"@)
        },
        NamesCommand::CopyOne => match sel {
            Some(i) => if i < names_shown(a).len() {
                copied(a, b, act, name_row(a, names_shown(a)[i as int]), "1 name"@)
            } else {
                act is Nothing && b == a
            },
            None => act is Nothing && b == a,
        },
        NamesCommand::Filter => act is Nothing && b == (App { state: UIState::DialogNamesRegex, ..a }),
        NamesCommand::SortByOffset => {
            &&& act is Nothing
            &&& entry_views(b.hex_view.comment_name_list@) == sorted_names(entry_views(a.hex_view.comment_name_list@), false)
            &&& b == (App { hex_view: HexView { comment_name_list: b.hex_view.comment_name_list, ..a.hex_view }, ..a })
        },
        NamesCommand::SortByText => {
            &&& act is Nothing
            &&& entry_views(b.hex_view.comment_name_list@) == sorted_names(entry_views(a.hex_view.comment_name_list@), true)
            &&& b == (App { hex_view: HexView { comment_name_list: b.hex_view.comment_name_list, ..a.hex_view }, ..a })
        },
        NamesCommand::Nothing => act is Nothing && b == a,
    }
}

pub open spec fn dec_digits_of(n: nat) -> Seq<char> {
    crate::text::dec_digits(n)
}

/// Classifies a key in the Names dialog (see `names_command`).
pub fn names_command_for(key: KeyPress) -> (c: NamesCommand)
    ensures
        c == names_command(key),
{
    match key.code {
        Key::Esc => NamesCommand::Close,
        Key::Down => NamesCommand::Next,
        Key::Up => NamesCommand::Previous,
        Key::PageDown => NamesCommand::PageDown,
        Key::PageUp => NamesCommand::PageUp,
        Key::Home => NamesCommand::Top(key.ctrl),
        Key::End => NamesCommand::Bottom(key.ctrl),
        Key::Enter => NamesCommand::GoTo,
        Key::Delete => NamesCommand::Delete,
        Key::F(n) => if n == 2 { NamesCommand::Edit } else { NamesCommand::Nothing },
        Key::Char(c) => if c == ';' {
            NamesCommand::CommentHere
        } else if (c == 'y' || c == 'Y') || ((c == 'c' || c == 'C') && key.ctrl) {
            if key.shift { NamesCommand::CopyAll } else { NamesCommand::CopyOne }
        } else if c == 'f' || c == '/' {
            NamesCommand::Filter
        } else if c == 'o' {
            NamesCommand::SortByOffset
        } else if c == 'n' && !key.alt && !key.ctrl {
            NamesCommand::SortByText
        } else {
            NamesCommand::Nothing
        },
        _ => NamesCommand::Nothing,
    }
}

fn row_text_of(app: &App, c: &Comment) -> (r: String)
    ensures
        r@ == name_row(*app, (c.offset, c.comment@)),
{
    let addr = address_for(app, c.offset);
    let mut out = String::new();
    push_hex(&mut out, addr, 8);
    push_str(&mut out, "\t");
    push_str(&mut out, c.comment.as_str());
    proof {
        reveal_strlit("\t");
    }
    out
}

fn delete_name(app: &mut App) -> (act: HexAction)
    ensures
        names_post(*old(app), *final(app), NamesCommand::Delete, act),
{
    match selected_offset(app) {
        None => HexAction::Beep,
        Some(o) => {
            app.hex_view.comments.remove(&o);
            forget_name_entry(app, o);
            let mut msg = string_from("Deleted the comment at 0x");
            push_hex(&mut msg, o as u64, 0);
            proof {
                reveal_strlit("Deleted the comment at 0x");
            }
            app.log(msg);
            let remaining = filtered_comments(app).len();
            if remaining == 0 {
                app.hex_view.names_selected = None;
            } else {
                match app.hex_view.names_selected {
                    Some(s) => {
                        if s >= remaining {
                            app.hex_view.names_selected = Some(remaining - 1);
                        }
                    },
                    None => {
                        if 0 >= remaining {
                            app.hex_view.names_selected = Some(remaining - 1);
                        }
                    },
                }
            }
            HexAction::Nothing
        },
    }
}

fn edit_name(app: &mut App) -> (act: HexAction)
    ensures
        names_post(*old(app), *final(app), NamesCommand::Edit, act),
{
    match selected_offset(app) {
        None => HexAction::Beep,
        Some(o) => {
            app.goto(o);
            if app.hex_view.offset == o {
                open_comment_dialog(app);
            } else {
                let mut hex = String::new();
                push_hex(&mut hex, o as u64, 0);
                let args: [&str; 1] = [hex.as_str()];
                let message = fill(M::ErrCommentOutside.tr(app.config.lang), &args);
                proof {
                    assert(str_views(args@) =~= seq![hex_digits(o as nat)]);
                }
                app.error(message);
            }
            HexAction::Nothing
        },
    }
}

fn copy_all_names(app: &mut App) -> (act: HexAction)
    ensures
        names_post(*old(app), *final(app), NamesCommand::CopyAll, act),
{
    let shown = filtered_comments(app);
    let ghost rows = names_shown(*app).map_values(|e: (usize, Seq<char>)| name_row(*app, e));
    let mut text = String::new();
    let mut i: usize = 0;
    while i < shown.len()
        invariant
            i <= shown@.len(),
            *app == *old(app),
            entry_views(shown@) == names_shown(*app),
            rows == names_shown(*app).map_values(|e: (usize, Seq<char>)| name_row(*app, e)),
            text@ == join(rows.take(i as int), "\n"@),
        decreases shown@.len() - i,
    {
        let row = row_text_of(app, &shown[i]);
        proof {
            let t = rows.take(i + 1);
            assert(t.drop_last() =~= rows.take(i as int));
            assert(entry_views(shown@)[i as int] == (shown@[i as int].offset, shown@[i as int].comment@));
            assert(t.last() == row@);
        }
        if i > 0 {
            push_str(&mut text, "\n");
        }
        push_str(&mut text, row.as_str());
        proof {
            reveal_strlit("\n");
            assert(text@ =~= join(rows.take(i + 1), "\n"@));
        }
        i = i + 1;
    }
    assert(rows.take(i as int) =~= rows);
    let mut what = String::new();
    push_dec(&mut what, shown.len() as u64);
    push_str(&mut what, " name(s)");
    proof {
        reveal_strlit(" name(s)");
    }
    app.copy_to_clipboard(text, what.as_str())
}

fn copy_one_name(app: &mut App) -> (act: HexAction)
    ensures
        names_post(*old(app), *final(app), NamesCommand::CopyOne, act),
{
    let shown = filtered_comments(app);
    match app.hex_view.names_selected {
        Some(i) => {
            if i < shown.len() {
                let row = row_text_of(app, &shown[i]);
                proof {
                    assert(entry_views(shown@)[i as int] == (shown@[i as int].offset, shown@[i as int].comment@));
                    reveal_strlit("1 name");
                }
                app.copy_to_clipboard(row, "1 name")
            } else {
                HexAction::Nothing
            }
        },
        None => HexAction::Nothing,
    }
}

/// Carries out `cmd` in the Names dialog (see `names_post`).
pub fn run_names_command(app: &mut App, cmd: NamesCommand) -> (act: HexAction)
    requires
        cmd == NamesCommand::Bottom(false) ==> (old(app).hex_view.names_selected matches Some(n) ==> n + 29 <= usize::MAX),
    ensures
        names_post(*old(app), *final(app), cmd, act),
{
    let sel = app.hex_view.names_selected;
    let cur = match sel {
        Some(n) => n,
        None => 0,
    };
    match cmd {
        NamesCommand::Close => {
            app.state = UIState::Normal;
            HexAction::Nothing
        },
        NamesCommand::CommentHere => {
            app.state = UIState::Normal;
            open_comment_dialog(app);
            HexAction::Nothing
        },
        NamesCommand::Next => {
            app.hex_view.names_selected = Some(match sel {
                Some(n) => if n < usize::MAX { n + 1 } else { n },
                None => 0,
            });
            HexAction::Nothing
        },
        NamesCommand::Previous => {
            app.hex_view.names_selected = Some(match sel {
                Some(n) => if n > 0 { n - 1 } else { 0 },
                None => usize::MAX,
            });
            HexAction::Nothing
        },
        NamesCommand::PageDown => {
            app.hex_view.names_selected = Some(if cur > usize::MAX - 30 { usize::MAX } else { cur + 30 });
            HexAction::Nothing
        },
        NamesCommand::PageUp => {
            app.hex_view.names_selected = Some(if cur >= 30 { cur - 30 } else { 0 });
            HexAction::Nothing
        },
        NamesCommand::Top(ctrl) => {
            if ctrl {
                app.hex_view.names_selected = Some(0);
            } else {
                match sel {
                    Some(n) => {
                        app.hex_view.names_selected = Some(if n >= 29 { n - 29 } else { 0 });
                    },
                    None => {},
                }
            }
            HexAction::Nothing
        },
        NamesCommand::Bottom(ctrl) => {
            if ctrl {
                app.hex_view.names_selected = Some(usize::MAX);
            } else {
                let len = app.hex_view.comment_name_list.len();
                let last = if len >= 1 { len - 1 } else { 0 };
                match sel {
                    Some(n) => {
                        app.hex_view.names_selected = Some(if n + 29 < last { n + 29 } else { last });
                    },
                    None => {},
                }
            }
            HexAction::Nothing
        },
        NamesCommand::GoTo => {
            match selected_offset(app) {
                Some(o) => app.goto(o),
                None => {},
            }
            app.state = UIState::Normal;
            HexAction::Nothing
        },
        NamesCommand::Delete => delete_name(app),
        NamesCommand::Edit => edit_name(app),
        NamesCommand::CopyAll => copy_all_names(app),
        NamesCommand::CopyOne => copy_one_name(app),
        NamesCommand::Filter => {
            app.state = UIState::DialogNamesRegex;
            HexAction::Nothing
        },
        NamesCommand::SortByOffset => {
            sort_names(app, false);
            HexAction::Nothing
        },
        NamesCommand::SortByText => {
            sort_names(app, true);
            HexAction::Nothing
        },
        NamesCommand::Nothing => HexAction::Nothing,
    }
}

/// Handles a key in the Names dialog (see `names_command` and
/// `names_post`).
pub fn dialog_names_events(app: &mut App, key: KeyPress) -> (act: HexAction)
    requires
        key.code == Key::End && !key.ctrl ==> (old(app).hex_view.names_selected matches Some(n) ==> n + 29
            <= usize::MAX),
    ensures
        names_post(*old(app), *final(app), names_command(key), act),
{
    let cmd = names_command_for(key);
    run_names_command(app, cmd)
}

/// What a key does in the Names filter box: Esc goes back to the list,
/// Enter applies the pattern and highlights the first row, and any other key
/// edits the pattern.
pub open spec fn names_regex_post(a: App, b: App, key: KeyPress) -> bool {
    let t = a.hex_view.names_regex_input;
    match key.code {
        Key::Esc => b == (App { state: UIState::DialogNames, ..a }),
        Key::Enter => {
            &&& b.hex_view.names_regex@ == t.value@
            &&& b == (App {
                hex_view: HexView { names_regex: b.hex_view.names_regex, names_selected: Some(0), ..a.hex_view },
                state: UIState::DialogNames,
                ..a
            })
        },
        _ => match input_edit(key) {
            None => b == a,
            Some(e) => {
                let (v, c) = input_edited(t.value@, t.cursor as nat, e);
                &&& b.hex_view.names_regex_input.value@ == v
                &&& b.hex_view.names_regex_input.cursor == c
                &&& b == (App {
                    hex_view: HexView { names_regex_input: b.hex_view.names_regex_input, ..a.hex_view },
                    ..a
                })
            },
        },
    }
}

/// Handles a key in the Names filter box (see `names_regex_post`).
pub fn dialog_names_regex_events(app: &mut App, key: KeyPress)
    requires
        old(app).hex_view.names_regex_input.value@.len() < usize::MAX,
    ensures
        names_regex_post(*old(app), *final(app), key),
{
    match key.code {
        Key::Esc => {
            app.state = UIState::DialogNames;
        },
        Key::Enter => {
            app.hex_view.names_regex = string_from(app.hex_view.names_regex_input.value.as_str());
            app.state = UIState::DialogNames;
            app.hex_view.names_selected = Some(0);
        },
        _ => {
            match input_edit_for(key) {
                None => {},
                Some(e) => {
                    let mut t = TextInput::empty();
                    std::mem::swap(&mut t, &mut app.hex_view.names_regex_input);
                    t.apply(e);
                    app.hex_view.names_regex_input = t;
                },
            }
        },
    }
}

} // verus!
