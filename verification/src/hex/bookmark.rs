//! Bookmarks: named file offsets, their list and their label box.
use vstd::prelude::*;

use crate::app::{after_goto, copied, App, UIState};
use crate::hex::events::{HexAction, Key, KeyPress};
use crate::hex::field_box::{input_edit, input_edit_for, input_edited, TextInput};
use crate::hex::hex_view::HexView;
use crate::hex::names::{first_after, sorted_names};
use crate::text::{chars_of, hex_digits, push_hex, push_str, string_from, string_of, trim, trim_chars};

verus! {

/// An offset with an optional label.
#[derive(Debug)]
pub struct Bookmark {
    pub offset: usize,
    pub label: String,
}

/// The bookmarks list and its label box.
pub struct BookmarksDialog {
    pub selected_index: usize,
    /// The label box.
    pub input: TextInput,
    /// The offset the label box names.
    pub target_offset: usize,
    /// Whether the box adds a bookmark (rather than editing one).
    pub is_new: bool,
    /// Whether closing the box goes back to the list.
    pub return_to_list: bool,
}

impl BookmarksDialog {
    pub fn new() -> (d: Self)
        ensures
            d.selected_index == 0,
            d.input.value@.len() == 0,
            d.input.cursor == 0,
            d.target_offset == 0,
            !d.is_new,
            !d.return_to_list,
    {
        BookmarksDialog {
            selected_index: 0,
            input: TextInput::empty(),
            target_offset: 0,
            is_new: false,
            return_to_list: false,
        }
    }
}

/// The bookmarks as `(offset, label)` pairs.
pub open spec fn mark_views(l: Seq<Bookmark>) -> Seq<(usize, Seq<char>)> {
    l.map_values(|b: Bookmark| (b.offset, b.label@))
}

/// The position of the first bookmark at `offset`, from `i` on.
pub open spec fn mark_at(l: Seq<(usize, Seq<char>)>, offset: usize, i: int) -> Option<int>
    decreases l.len() - i,
{
    if i < 0 || i >= l.len() {
        None
    } else if l[i].0 == offset {
        Some(i)
    } else {
        mark_at(l, offset, i + 1)
    }
}

fn find_mark(l: &Vec<Bookmark>, offset: usize) -> (r: Option<usize>)
    ensures
        match r {
            Some(i) => i < l@.len() && mark_at(mark_views(l@), offset, 0) == Some(i as int),
            None => mark_at(mark_views(l@), offset, 0) is None,
        },
{
    let mut i: usize = 0;
    while i < l.len()
        invariant
            i <= l@.len(),
            mark_at(mark_views(l@), offset, 0) == mark_at(mark_views(l@), offset, i as int),
        decreases l@.len() - i,
    {
        if l[i].offset == offset {
            return Some(i);
        }
        i = i + 1;
    }
    None
}

/// Opens the bookmarks list, bringing a stale selection back inside it.
pub fn open_bookmarks_dialog(app: &mut App)
    ensures
        final(app).hex_view.bookmark_dialog.selected_index == {
            let n = old(app).hex_view.bookmarks@.len();
            let s = old(app).hex_view.bookmark_dialog.selected_index;
            if n > 0 && s >= n { (n - 1) as usize } else { s }
        },
        final(app).hex_view == (HexView {
            bookmark_dialog: BookmarksDialog {
                selected_index: final(app).hex_view.bookmark_dialog.selected_index,
                ..old(app).hex_view.bookmark_dialog
            },
            ..old(app).hex_view
        }),
        *final(app) == (App { hex_view: final(app).hex_view, state: UIState::DialogBookmarks, ..*old(app) }),
{
    let n = app.hex_view.bookmarks.len();
    if n > 0 && app.hex_view.bookmark_dialog.selected_index >= n {
        app.hex_view.bookmark_dialog.selected_index = n - 1;
    }
    app.state = UIState::DialogBookmarks;
}

/// `b` is `a` with the label box open on `label` for `offset`.
pub open spec fn label_box_opened(a: App, b: App, offset: usize, label: Seq<char>, is_new: bool, back: bool) -> bool {
    let d = b.hex_view.bookmark_dialog;
    &&& d.input.value@ == label
    &&& d.input.cursor == label.len()
    &&& d == (BookmarksDialog {
        input: d.input,
        target_offset: offset,
        is_new,
        return_to_list: back,
        ..a.hex_view.bookmark_dialog
    })
    &&& b == (App {
        hex_view: HexView { bookmark_dialog: d, ..a.hex_view },
        state: UIState::DialogBookmarkInput,
        ..a
    })
}

/// The label of the first bookmark at `offset`, empty when there is none.
pub open spec fn label_at(a: App, offset: usize) -> Seq<char> {
    match mark_at(mark_views(a.hex_view.bookmarks@), offset, 0) {
        Some(i) => a.hex_view.bookmarks@[i].label@,
        None => Seq::empty(),
    }
}

/// Opens the label box to add (or relabel) a bookmark at `offset`, holding
/// the label it already has.
pub fn open_add_bookmark_dialog(app: &mut App, offset: usize)
    ensures
        label_box_opened(
            *old(app),
            *final(app),
            offset,
            label_at(*old(app), offset),
            true,
            old(app).state == UIState::DialogBookmarks,
        ),
{
    let found = find_mark(&app.hex_view.bookmarks, offset);
    let label = match found {
        Some(i) => string_from(app.hex_view.bookmarks[i].label.as_str()),
        None => String::new(),
    };
    assert(label@ == label_at(*app, offset));
    let n = chars_of(label.as_str()).len();
    app.hex_view.bookmark_dialog.input = TextInput::with_cursor(label, n);
    app.hex_view.bookmark_dialog.target_offset = offset;
    app.hex_view.bookmark_dialog.is_new = true;
    app.hex_view.bookmark_dialog.return_to_list = app.state == UIState::DialogBookmarks;
    app.state = UIState::DialogBookmarkInput;
}

/// Opens the label box on bookmark `index`, if there is one.
pub fn open_edit_bookmark_dialog(app: &mut App, index: usize)
    ensures
        index < old(app).hex_view.bookmarks@.len() ==> label_box_opened(
            *old(app),
            *final(app),
            old(app).hex_view.bookmarks@[index as int].offset,
            old(app).hex_view.bookmarks@[index as int].label@,
            false,
            true,
        ),
        index >= old(app).hex_view.bookmarks@.len() ==> *final(app) == *old(app),
{
    if index < app.hex_view.bookmarks.len() {
        let offset = app.hex_view.bookmarks[index].offset;
        let label = string_from(app.hex_view.bookmarks[index].label.as_str());
        let n = chars_of(label.as_str()).len();
        app.hex_view.bookmark_dialog.input = TextInput::with_cursor(label, n);
        app.hex_view.bookmark_dialog.target_offset = offset;
        app.hex_view.bookmark_dialog.is_new = false;
        app.hex_view.bookmark_dialog.return_to_list = true;
        app.state = UIState::DialogBookmarkInput;
    }
}

// ---------------------------------------------------------------------------
// The list's keys
// ---------------------------------------------------------------------------

/// What a key asks for in the bookmarks list.
#[derive(Clone, Copy, PartialEq, Eq, Debug, Structural)]
pub enum BookmarksCommand {
    Close,
    GoTo,
    /// Ctrl+D: bookmark the cursor's offset.
    Add,
    /// F2: relabel the selected bookmark.
    Edit,
    Delete,
    Copy,
    Up,
    Down,
    PageUp,
    PageDown,
    Home,
    End,
    Nothing,
}

/// What a key asks for in the bookmarks list.
pub open spec fn bookmarks_command(key: KeyPress, total: nat) -> BookmarksCommand {
    match key.code {
        Key::Esc => BookmarksCommand::Close,
        Key::Enter => BookmarksCommand::GoTo,
        Key::F(n) => if n == 2 { BookmarksCommand::Edit } else { BookmarksCommand::Nothing },
        Key::Delete => if key.ctrl { BookmarksCommand::Nothing } else { BookmarksCommand::Delete },
        Key::Backspace => if key.ctrl { BookmarksCommand::Nothing } else { BookmarksCommand::Delete },
        Key::Up => BookmarksCommand::Up,
        Key::Down => BookmarksCommand::Down,
        Key::PageUp => BookmarksCommand::PageUp,
        Key::PageDown => BookmarksCommand::PageDown,
        Key::Home => BookmarksCommand::Home,
        Key::End => if total > 0 { BookmarksCommand::End } else { BookmarksCommand::Nothing },
        Key::Char(c) => if (c == 'd' || c == 'D') && key.ctrl {
            BookmarksCommand::Add
        } else if (c == 'c' || c == 'C') && key.ctrl {
            BookmarksCommand::Copy
        } else if c == 'k' {
            BookmarksCommand::Up
        } else if c == 'j' {
            BookmarksCommand::Down
        } else {
            BookmarksCommand::Nothing
        },
        _ => BookmarksCommand::Nothing,
    }
}

/// Classifies a key in the bookmarks list (see `bookmarks_command`).
pub fn bookmarks_command_for(key: KeyPress, total: usize) -> (c: BookmarksCommand)
    ensures
        c == bookmarks_command(key, total as nat),
{
    match key.code {
        Key::Esc => BookmarksCommand::Close,
        Key::Enter => BookmarksCommand::GoTo,
        Key::F(n) => if n == 2 { BookmarksCommand::Edit } else { BookmarksCommand::Nothing },
        Key::Delete => if key.ctrl { BookmarksCommand::Nothing } else { BookmarksCommand::Delete },
        Key::Backspace => if key.ctrl { BookmarksCommand::Nothing } else { BookmarksCommand::Delete },
        Key::Up => BookmarksCommand::Up,
        Key::Down => BookmarksCommand::Down,
        Key::PageUp => BookmarksCommand::PageUp,
        Key::PageDown => BookmarksCommand::PageDown,
        Key::Home => BookmarksCommand::Home,
        Key::End => if total > 0 { BookmarksCommand::End } else { BookmarksCommand::Nothing },
        Key::Char(c) => if (c == 'd' || c == 'D') && key.ctrl {
            BookmarksCommand::Add
        } else if (c == 'c' || c == 'C') && key.ctrl {
            BookmarksCommand::Copy
        } else if c == 'k' {
            BookmarksCommand::Up
        } else if c == 'j' {
            BookmarksCommand::Down
        } else {
            BookmarksCommand::Nothing
        },
        _ => BookmarksCommand::Nothing,
    }
}

/// A bookmark as the clipboard gets it.
pub open spec fn mark_row(m: (usize, Seq<char>)) -> Seq<char> {
    "0x"@ + hex_digits(m.0 as nat) + "\t"@ + m.1
}

/// What carrying out `cmd` in the bookmarks list does.
pub open spec fn bookmarks_post(a: App, b: App, cmd: BookmarksCommand, act: HexAction) -> bool {
    let d = a.hex_view.bookmark_dialog;
    let l = mark_views(a.hex_view.bookmarks@);
    let total = l.len();
    let sel = d.selected_index;
    let moved_to = |i: usize| b == (App {
        hex_view: HexView { bookmark_dialog: BookmarksDialog { selected_index: i, ..d }, ..a.hex_view },
        ..a
    });
    match cmd {
        BookmarksCommand::Close => act is Nothing && b == (App { state: UIState::Normal, ..a }),
        BookmarksCommand::GoTo => act is Nothing && if sel < total {
            &&& b == (App { state: UIState::Normal, ..after_goto(a, l[sel as int].0) })
        } else {
            b == a
        },
        BookmarksCommand::Add => act is Nothing && label_box_opened(
            a,
            b,
            a.hex_view.offset,
            label_at(a, a.hex_view.offset),
            true,
            a.state == UIState::DialogBookmarks,
        ),
        BookmarksCommand::Edit => act is Nothing && if total > 0 && sel < total {
            label_box_opened(a, b, l[sel as int].0, l[sel as int].1, false, true)
        } else {
            b == a
        },
        BookmarksCommand::Delete => act is Nothing && if total > 0 {
            let rest = l.remove(sel as int);
            &&& mark_views(b.hex_view.bookmarks@) == rest
            &&& b.hex_view.bookmark_dialog.selected_index == if sel >= rest.len() {
                if rest.len() == 0 { 0 } else { (rest.len() - 1) as usize }
            } else {
                sel
            }
            &&& b.hex_view == (HexView {
                bookmarks: b.hex_view.bookmarks,
                bookmark_dialog: BookmarksDialog { selected_index: b.hex_view.bookmark_dialog.selected_index, ..d },
                ..a.hex_view
            })
            &&& b.logs@ == a.logs@.push(b.logs@.last())
            &&& b.logs@.last()@ == "Deleted bookmark at 0x"@ + hex_digits(l[sel as int].0 as nat) + " ("@ + l[sel as int].1 + ")"@
            &&& b == (App { hex_view: b.hex_view, logs: b.logs, ..a })
        } else {
            b == a
        },
        BookmarksCommand::Copy => if sel < total {
            copied(a, b, act, mark_row(l[sel as int]), "bookmark"@)
        } else {
            act is Nothing && b == a
        },
        BookmarksCommand::Up => act is Nothing && moved_to(if sel > 0 { (sel - 1) as usize } else { sel }),
        BookmarksCommand::Down => act is Nothing && moved_to(if sel + 1 < total { (sel + 1) as usize } else { sel }),
        BookmarksCommand::PageUp => act is Nothing && moved_to(if sel >= 10 { (sel - 10) as usize } else { 0 }),
        BookmarksCommand::PageDown => act is Nothing && if total > 0 {
            moved_to(if sel + 10 < total - 1 { (sel + 10) as usize } else { (total - 1) as usize })
        } else {
            b == a
        },
        BookmarksCommand::Home => act is Nothing && moved_to(0),
        BookmarksCommand::End => act is Nothing && if total > 0 { moved_to((total - 1) as usize) } else { b == a },
        BookmarksCommand::Nothing => act is Nothing && b == a,
    }
}

fn delete_bookmark(app: &mut App) -> (act: HexAction)
    requires
        old(app).hex_view.bookmarks@.len() > 0 ==> old(app).hex_view.bookmark_dialog.selected_index
            < old(app).hex_view.bookmarks@.len(),
    ensures
        bookmarks_post(*old(app), *final(app), BookmarksCommand::Delete, act),
{
    let total = app.hex_view.bookmarks.len();
    if total == 0 {
        return HexAction::Nothing;
    }
    let idx = app.hex_view.bookmark_dialog.selected_index;
    let ghost l0 = app.hex_view.bookmarks@;
    let removed = app.hex_view.bookmarks.remove(idx);
    assert(mark_views(app.hex_view.bookmarks@) =~= mark_views(l0).remove(idx as int));
    let n = app.hex_view.bookmarks.len();
    if app.hex_view.bookmark_dialog.selected_index >= n {
        app.hex_view.bookmark_dialog.selected_index = if n == 0 { 0 } else { n - 1 };
    }
    let mut msg = string_from("Deleted bookmark at 0x");
    push_hex(&mut msg, removed.offset as u64, 0);
    push_str(&mut msg, " (");
    push_str(&mut msg, removed.label.as_str());
    push_str(&mut msg, ")");
    proof {
        reveal_strlit("Deleted bookmark at 0x");
        reveal_strlit(" (");
        reveal_strlit(")");
    }
    app.log(msg);
    HexAction::Nothing
}

/// Carries out `cmd` in the bookmarks list (see `bookmarks_post`).
pub fn run_bookmarks_command(app: &mut App, cmd: BookmarksCommand) -> (act: HexAction)
    requires
        old(app).hex_view.bookmarks@.len() > 0 ==> old(app).hex_view.bookmark_dialog.selected_index
            < old(app).hex_view.bookmarks@.len(),
    ensures
        bookmarks_post(*old(app), *final(app), cmd, act),
{
    let total = app.hex_view.bookmarks.len();
    let sel = app.hex_view.bookmark_dialog.selected_index;
    match cmd {
        BookmarksCommand::Close => {
            app.state = UIState::Normal;
            HexAction::Nothing
        },
        BookmarksCommand::GoTo => {
            if sel < total {
                let t = app.hex_view.bookmarks[sel].offset;
                app.state = UIState::Normal;
                app.goto(t);
            }
            HexAction::Nothing
        },
        BookmarksCommand::Add => {
            let o = app.hex_view.offset;
            open_add_bookmark_dialog(app, o);
            HexAction::Nothing
        },
        BookmarksCommand::Edit => {
            if total > 0 {
                open_edit_bookmark_dialog(app, sel);
            }
            HexAction::Nothing
        },
        BookmarksCommand::Delete => delete_bookmark(app),
        BookmarksCommand::Copy => {
            if sel < total {
                let mut text = string_from("0x");
                push_hex(&mut text, app.hex_view.bookmarks[sel].offset as u64, 0);
                push_str(&mut text, "\t");
                push_str(&mut text, app.hex_view.bookmarks[sel].label.as_str());
                proof {
                    reveal_strlit("0x");
                    reveal_strlit("\t");
                    reveal_strlit("bookmark");
                }
                app.copy_to_clipboard(text, "bookmark")
            } else {
                HexAction::Nothing
            }
        },
        _ => move_bookmark_selection(app, cmd),
    }
}

fn move_bookmark_selection(app: &mut App, cmd: BookmarksCommand) -> (act: HexAction)
    requires
        cmd is Up || cmd is Down || cmd is PageUp || cmd is PageDown || cmd is Home || cmd is End || cmd is Nothing,
    ensures
        bookmarks_post(*old(app), *final(app), cmd, act),
{
    let total = app.hex_view.bookmarks.len();
    let sel = app.hex_view.bookmark_dialog.selected_index;
    match cmd {
        BookmarksCommand::Up => {
            if sel > 0 {
                app.hex_view.bookmark_dialog.selected_index = sel - 1;
            }
        },
        BookmarksCommand::Down => {
            if total > 0 && sel < total - 1 {
                app.hex_view.bookmark_dialog.selected_index = sel + 1;
            }
        },
        BookmarksCommand::PageUp => {
            app.hex_view.bookmark_dialog.selected_index = if sel >= 10 { sel - 10 } else { 0 };
        },
        BookmarksCommand::PageDown => {
            if total > 0 {
                app.hex_view.bookmark_dialog.selected_index = if sel < total - 1 && total - 1 - sel > 10 {
                    sel + 10
                } else {
                    total - 1
                };
            }
        },
        BookmarksCommand::Home => {
            app.hex_view.bookmark_dialog.selected_index = 0;
        },
        BookmarksCommand::End => {
            if total > 0 {
                app.hex_view.bookmark_dialog.selected_index = total - 1;
            }
        },
        _ => {},
    }
    HexAction::Nothing
}

/// Handles a key in the bookmarks list (see `bookmarks_command` and
/// `bookmarks_post`).
pub fn dialog_bookmarks_events(app: &mut App, key: KeyPress) -> (act: HexAction)
    requires
        old(app).hex_view.bookmarks@.len() > 0 ==> old(app).hex_view.bookmark_dialog.selected_index
            < old(app).hex_view.bookmarks@.len(),
    ensures
        bookmarks_post(*old(app), *final(app), bookmarks_command(key, old(app).hex_view.bookmarks@.len()), act),
{
    let cmd = bookmarks_command_for(key, app.hex_view.bookmarks.len());
    run_bookmarks_command(app, cmd)
}

// ---------------------------------------------------------------------------
// The label box's keys
// ---------------------------------------------------------------------------

/// The bookmarks after saving `label` at `offset`: a bookmark already there
/// is relabelled; otherwise a new one joins and the list is sorted by
/// offset, equal offsets keeping their order.
pub open spec fn marks_saved(l: Seq<(usize, Seq<char>)>, offset: usize, label: Seq<char>) -> Seq<(usize, Seq<char>)> {
    match mark_at(l, offset, 0) {
        Some(p) => l.update(p, (offset, label)),
        None => sorted_names(l.push((offset, label)), false),
    }
}

/// What a key does in the label box: Esc closes it (back to the list if it
/// came from there), Enter saves the trimmed label at the box's offset and
/// selects that bookmark, and any other key edits the label.
pub open spec fn label_box_post(a: App, b: App, key: KeyPress) -> bool {
    let d = a.hex_view.bookmark_dialog;
    let back = d.return_to_list;
    let next_state = if back { UIState::DialogBookmarks } else { UIState::Normal };
    match key.code {
        Key::Esc => if back {
            let n = a.hex_view.bookmarks@.len();
            let s = d.selected_index;
            b == (App {
                hex_view: HexView {
                    bookmark_dialog: BookmarksDialog { selected_index: if n > 0 && s >= n { (n - 1) as usize } else { s }, ..d },
                    ..a.hex_view
                },
                state: UIState::DialogBookmarks,
                ..a
            })
        } else {
            b == (App { state: UIState::Normal, ..a })
        },
        Key::Enter => {
            let label = trim(d.input.value@);
            let o = d.target_offset;
            let l = marks_saved(mark_views(a.hex_view.bookmarks@), o, label);
            &&& mark_views(b.hex_view.bookmarks@) == l
            &&& Some(b.hex_view.bookmark_dialog.selected_index as int) == mark_at(l, o, 0)
            &&& b.hex_view == (HexView {
                bookmarks: b.hex_view.bookmarks,
                bookmark_dialog: BookmarksDialog { selected_index: b.hex_view.bookmark_dialog.selected_index, ..d },
                ..a.hex_view
            })
            &&& b.logs@ == a.logs@.push(b.logs@.last())
            &&& b.logs@.last()@ == "Bookmark saved at 0x"@ + hex_digits(o as nat) + ": '"@ + label + "'"@
            &&& b == (App { hex_view: b.hex_view, logs: b.logs, state: next_state, ..a })
        },
        _ => match input_edit(key) {
            None => b == a,
            Some(e) => {
                let (v, c) = input_edited(d.input.value@, d.input.cursor as nat, e);
                &&& b.hex_view.bookmark_dialog.input.value@ == v
                &&& b.hex_view.bookmark_dialog.input.cursor == c
                &&& b == (App {
                    hex_view: HexView {
                        bookmark_dialog: BookmarksDialog { input: b.hex_view.bookmark_dialog.input, ..d },
                        ..a.hex_view
                    },
                    ..a
                })
            },
        },
    }
}

/// Sorts the bookmarks by offset, equal offsets keeping their order.
fn sort_marks(l: &mut Vec<Bookmark>)
    ensures
        mark_views(final(l)@) == sorted_names(mark_views(old(l)@), false),
{
    let mut input: Vec<Bookmark> = Vec::new();
    std::mem::swap(&mut input, l);
    let ghost v = mark_views(input@);
    let n = input.len();
    let mut out: Vec<Bookmark> = Vec::new();
    let mut i: usize = 0;
    while i < n
        invariant
            i <= n,
            n == input@.len(),
            v == mark_views(input@),
            mark_views(out@) == sorted_names(v.take(i as int), false),
        decreases n - i,
    {
        let x = &input[i];
        let ghost s = mark_views(out@);
        let mut k: usize = 0;
        while k < out.len() && !(x.offset < out[k].offset)
            invariant
                k <= out@.len(),
                s == mark_views(out@),
                first_after(s, (x.offset, x.label@), false, 0) == first_after(s, (x.offset, x.label@), false, k as int),
            decreases out@.len() - k,
        {
            k = k + 1;
        }
        proof {
            assert(v.take(i + 1).drop_last() =~= v.take(i as int));
            assert(v.take(i + 1).last() == (x.offset, x.label@));
        }
        out.insert(k, Bookmark { offset: x.offset, label: x.label.clone() });
        assert(mark_views(out@) =~= s.insert(k as int, (x.offset, x.label@)));
        i = i + 1;
    }
    assert(v.take(n as int) =~= v);
    *l = out;
}

fn save_bookmark(app: &mut App)
    ensures
        label_box_post(*old(app), *final(app), KeyPress { code: Key::Enter, ctrl: false, alt: false, shift: false }),
{
    let cs = chars_of(app.hex_view.bookmark_dialog.input.value.as_str());
    let t = trim_chars(cs.as_slice());
    let label = string_of(t.as_slice());
    let o = app.hex_view.bookmark_dialog.target_offset;
    let ghost l0 = mark_views(app.hex_view.bookmarks@);
    match find_mark(&app.hex_view.bookmarks, o) {
        Some(p) => {
            let ghost b0 = app.hex_view.bookmarks@;
            app.hex_view.bookmarks.set(p, Bookmark { offset: o, label: string_from(label.as_str()) });
            assert(mark_views(app.hex_view.bookmarks@) =~= l0.update(p as int, (o, label@)));
            app.hex_view.bookmark_dialog.selected_index = p;
            proof {
                let l = l0.update(p as int, (o, label@));
                lemma_mark_at_kept(l0, l, o, p as int);
            }
        },
        None => {
            app.hex_view.bookmarks.push(Bookmark { offset: o, label: string_from(label.as_str()) });
            assert(mark_views(app.hex_view.bookmarks@) =~= l0.push((o, label@)));
            sort_marks(&mut app.hex_view.bookmarks);
            match find_mark(&app.hex_view.bookmarks, o) {
                Some(p) => {
                    app.hex_view.bookmark_dialog.selected_index = p;
                },
                None => {
                    proof {
                        lemma_sorted_keeps(l0.push((o, label@)), o);
                    }
                },
            }
        },
    }
    let mut msg = string_from("Bookmark saved at 0x");
    push_hex(&mut msg, o as u64, 0);
    push_str(&mut msg, ": '");
    push_str(&mut msg, label.as_str());
    push_str(&mut msg, "'");
    proof {
        reveal_strlit("Bookmark saved at 0x");
        reveal_strlit(": '");
        reveal_strlit("'");
    }
    app.log(msg);
    app.state = if app.hex_view.bookmark_dialog.return_to_list { UIState::DialogBookmarks } else { UIState::Normal };
}

/// Relabelling the first bookmark at `o` keeps it the first one there.
proof fn lemma_mark_at_kept(l: Seq<(usize, Seq<char>)>, m: Seq<(usize, Seq<char>)>, o: usize, p: int)
    requires
        mark_at(l, o, 0) == Some(p),
        0 <= p < l.len(),
        m.len() == l.len(),
        m[p].0 == o,
        forall|k: int| 0 <= k < l.len() && k != p ==> m[k] == l[k],
    ensures
        mark_at(m, o, 0) == Some(p),
{
    lemma_mark_at_from(l, m, o, 0, p);
}

proof fn lemma_mark_at_from(l: Seq<(usize, Seq<char>)>, m: Seq<(usize, Seq<char>)>, o: usize, i: int, p: int)
    requires
        0 <= i <= p,
        mark_at(l, o, i) == Some(p),
        0 <= p < l.len(),
        m.len() == l.len(),
        m[p].0 == o,
        forall|k: int| 0 <= k < l.len() && k != p ==> m[k] == l[k],
    ensures
        mark_at(m, o, i) == Some(p),
    decreases p - i,
{
    if i < p {
        lemma_mark_at_from(l, m, o, i + 1, p);
    }
}

/// A sorted list holds every entry it was given, so an offset that was
/// there is still found.
proof fn lemma_sorted_keeps(l: Seq<(usize, Seq<char>)>, o: usize)
    requires
        l.len() > 0,
        l.last().0 == o,
    ensures
        mark_at(sorted_names(l, false), o, 0) is Some,
{
    let s = sorted_names(l.drop_last(), false);
    let k = lemma_first_after_range(s, l.last(), 0);
    let r = s.insert(k, l.last());
    assert(r[k] == l.last());
    lemma_mark_at_found(r, o, 0, k);
}

proof fn lemma_first_after_range(s: Seq<(usize, Seq<char>)>, x: (usize, Seq<char>), i: int) -> (k: int)
    requires
        0 <= i <= s.len(),
    ensures
        k == first_after(s, x, false, i),
        i <= k <= s.len(),
    decreases s.len() - i,
{
    if i >= s.len() || name_before_offset(x, s[i]) {
        first_after(s, x, false, i)
    } else {
        lemma_first_after_range(s, x, i + 1)
    }
}

pub open spec fn name_before_offset(a: (usize, Seq<char>), b: (usize, Seq<char>)) -> bool {
    a.0 < b.0
}

proof fn lemma_mark_at_found(r: Seq<(usize, Seq<char>)>, o: usize, i: int, k: int)
    requires
        0 <= i <= k < r.len(),
        r[k].0 == o,
    ensures
        mark_at(r, o, i) is Some,
    decreases k - i,
{
    if r[i].0 != o {
        lemma_mark_at_found(r, o, i + 1, k);
    }
}

/// Handles a key in the label box (see `label_box_post`).
proof fn lemma_mark_at_facts(l: Seq<(usize, Seq<char>)>, o: usize, i: int)
    requires
        0 <= i,
    ensures
        mark_at(l, o, i) matches Some(p) ==> i <= p < l.len() && l[p].0 == o,
        mark_at(l, o, i) is None ==> forall|j: int| i <= j < l.len() ==> (#[trigger] l[j]).0 != o,
    decreases l.len() - i,
{
    if i < l.len() && l[i].0 != o {
        lemma_mark_at_facts(l, o, i + 1);
    }
}

proof fn lemma_sorted_marks_from(l: Seq<(usize, Seq<char>)>)
    ensures
        sorted_names(l, false).len() == l.len(),
        forall|j: int| 0 <= j < l.len() ==> l.contains(#[trigger] sorted_names(l, false)[j]),
    decreases l.len(),
{
    if l.len() > 0 {
        let d = l.drop_last();
        lemma_sorted_marks_from(d);
        let s = sorted_names(d, false);
        let k = lemma_first_after_range(s, l.last(), 0);
        let r = s.insert(k, l.last());
        assert(sorted_names(l, false) == r);
        assert forall|j: int| 0 <= j < l.len() implies l.contains(#[trigger] r[j]) by {
            if j == k {
                assert(l[l.len() - 1] == r[j]);
            } else {
                let t = if j < k { j } else { j - 1 };
                assert(r[j] == s[t]);
                assert(d.contains(s[t]));
                let w = choose|w: int| 0 <= w < d.len() && d[w] == s[t];
                assert(l[w] == r[j]);
            }
        }
    }
}

/// A saved label reads back: once Enter has saved the label box, the
/// bookmark found at the box's offset carries the box's text, trimmed.
pub proof fn law_saved_label_reads_back(a: App, b: App, key: KeyPress)
    requires
        key.code == Key::Enter,
        label_box_post(a, b, key),
    ensures
        label_at(b, a.hex_view.bookmark_dialog.target_offset) == trim(a.hex_view.bookmark_dialog.input.value@),
{
    let o = a.hex_view.bookmark_dialog.target_offset;
    let label = trim(a.hex_view.bookmark_dialog.input.value@);
    let l0 = mark_views(a.hex_view.bookmarks@);
    let l = marks_saved(l0, o, label);
    let i = b.hex_view.bookmark_dialog.selected_index as int;
    assert(mark_views(b.hex_view.bookmarks@) == l);
    assert(mark_at(l, o, 0) == Some(i));
    lemma_mark_at_facts(l, o, 0);
    assert(l[i].1 == b.hex_view.bookmarks@[i].label@);
    lemma_mark_at_facts(l0, o, 0);
    match mark_at(l0, o, 0) {
        Some(p) => {
            assert(l == l0.update(p, (o, label)));
            lemma_mark_at_kept(l0, l, o, p);
        },
        None => {
            let pushed = l0.push((o, label));
            assert(l == sorted_names(pushed, false));
            lemma_sorted_marks_from(pushed);
            assert(pushed.contains(l[i]));
            let w = choose|w: int| 0 <= w < pushed.len() && pushed[w] == l[i];
            if w < l0.len() {
                assert(l0[w] == pushed[w]);
            }
        },
    }
}

/// Handles a key in the label box (see `label_box_post`).
pub fn dialog_bookmark_input_events(app: &mut App, key: KeyPress)
    requires
        old(app).hex_view.bookmark_dialog.input.value@.len() < usize::MAX,
    ensures
        label_box_post(*old(app), *final(app), key),
{
    match key.code {
        Key::Esc => {
            if app.hex_view.bookmark_dialog.return_to_list {
                open_bookmarks_dialog(app);
            } else {
                app.state = UIState::Normal;
            }
        },
        Key::Enter => save_bookmark(app),
        _ => {
            match input_edit_for(key) {
                None => {},
                Some(e) => {
                    let mut t = TextInput::empty();
                    std::mem::swap(&mut t, &mut app.hex_view.bookmark_dialog.input);
                    t.apply(e);
                    app.hex_view.bookmark_dialog.input = t;
                },
            }
        },
    }
}

} // verus!
