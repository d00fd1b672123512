//! Comments attached to file offsets.
use vstd::prelude::*;

use crate::app::{App, UIState};
use crate::hex::events::{Key, KeyPress};
use crate::hex::field_box::{input_edit, input_edit_for, input_edited, TextInput};
use crate::hex::hex_view::HexView;
use crate::text::{chars_of, string_from};

verus! {

/// A comment as the Names list shows it.
#[derive(Debug)]
pub struct Comment {
    pub offset: usize,
    pub comment: String,
}

/// The Names list as `(offset, text)` pairs.
pub open spec fn entry_views(l: Seq<Comment>) -> Seq<(usize, Seq<char>)> {
    l.map_values(|c: Comment| (c.offset, c.comment@))
}

/// `l` without the entries for `offset`, order kept.
pub open spec fn without_offset(l: Seq<(usize, Seq<char>)>, offset: usize) -> Seq<(usize, Seq<char>)>
    decreases l.len(),
{
    if l.len() == 0 {
        seq![]
    } else {
        let rest = without_offset(l.drop_last(), offset);
        if l.last().0 == offset {
            rest
        } else {
            rest.push(l.last())
        }
    }
}

/// Drops every Names-list entry for `offset`.
pub fn forget_name_entry(app: &mut App, offset: usize)
    ensures
        entry_views(final(app).hex_view.comment_name_list@) == without_offset(
            entry_views(old(app).hex_view.comment_name_list@),
            offset,
        ),
        final(app).hex_view == (HexView { comment_name_list: final(app).hex_view.comment_name_list, ..old(app).hex_view }),
        final(app).same_but_hex_view(*old(app)),
{
    let mut kept: Vec<Comment> = Vec::new();
    let mut i: usize = 0;
    let n = app.hex_view.comment_name_list.len();
    while i < n
        invariant
            i <= n,
            n == app.hex_view.comment_name_list@.len(),
            app.hex_view.comment_name_list@ == old(app).hex_view.comment_name_list@,
            entry_views(kept@) == without_offset(entry_views(app.hex_view.comment_name_list@.take(i as int)), offset),
        decreases n - i,
    {
        let ghost l = app.hex_view.comment_name_list@;
        assert(entry_views(l.take(i + 1)).drop_last() =~= entry_views(l.take(i as int)));
        let o = app.hex_view.comment_name_list[i].offset;
        if o != offset {
            let text = app.hex_view.comment_name_list[i].comment.clone();
            let ghost k0 = kept@;
            kept.push(Comment { offset: o, comment: text });
            assert(entry_views(kept@) =~= entry_views(k0).push((o, text@)));
        }
        i = i + 1;
    }
    assert(app.hex_view.comment_name_list@.take(i as int) =~= app.hex_view.comment_name_list@);
    app.hex_view.comment_name_list = kept;
}

/// The `:cmt` command and friends.
pub struct Commands;

impl Commands {
    /// Sets the comment at `offset`, or removes it when `comment` is empty. The
    /// Names list keeps one entry per offset, the newest last. Returns to the
    /// normal state.
    pub fn comment(app: &mut App, offset: usize, comment: String)
        ensures
            comment@.len() == 0 ==> final(app).hex_view.comments@ == old(app).hex_view.comments@.remove(offset),
            comment@.len() == 0 ==> entry_views(final(app).hex_view.comment_name_list@) == without_offset(
                entry_views(old(app).hex_view.comment_name_list@),
                offset,
            ),
            comment@.len() > 0 ==> final(app).hex_view.comments@ == old(app).hex_view.comments@.insert(offset, comment),
            comment@.len() > 0 ==> entry_views(final(app).hex_view.comment_name_list@) == without_offset(
                entry_views(old(app).hex_view.comment_name_list@),
                offset,
            ).push((offset, comment@)),
            final(app).hex_view == (HexView {
                comments: final(app).hex_view.comments,
                comment_name_list: final(app).hex_view.comment_name_list,
                ..old(app).hex_view
            }),
            *final(app) == (App { hex_view: final(app).hex_view, state: UIState::Normal, ..*old(app) }),
    {
        if comment.as_str().is_empty() {
            app.hex_view.comments.remove(&offset);
            forget_name_entry(app, offset);
        } else {
            let copy = comment.clone();
            app.hex_view.comments.insert(offset, copy);
            forget_name_entry(app, offset);
            let ghost l0 = app.hex_view.comment_name_list@;
            app.hex_view.comment_name_list.push(Comment { offset, comment });
            assert(entry_views(app.hex_view.comment_name_list@) =~= entry_views(l0).push((offset, comment@)));
        }
        app.state = UIState::Normal;
    }
}

/// The comment stored at `offset`, empty when there is none.
pub open spec fn comment_at(app: App, offset: usize) -> Seq<char> {
    if app.hex_view.comments@.contains_key(offset) {
        app.hex_view.comments@[offset]@
    } else {
        Seq::empty()
    }
}

/// Opens the comment box on the comment at the cursor (empty when there is
/// none), the cursor at its end.
pub fn open_comment_dialog(app: &mut App)
    ensures
        final(app).hex_view.comment_input.value@ == comment_at(*old(app), old(app).hex_view.offset),
        final(app).hex_view.comment_input.cursor == comment_at(*old(app), old(app).hex_view.offset).len(),
        final(app).hex_view == (HexView { comment_input: final(app).hex_view.comment_input, ..old(app).hex_view }),
        *final(app) == (App { hex_view: final(app).hex_view, state: UIState::DialogComment, ..*old(app) }),
{
    let existing = match app.hex_view.comments.get(&app.hex_view.offset) {
        Some(c) => string_from(c.as_str()),
        None => String::new(),
    };
    let n = chars_of(existing.as_str()).len();
    app.hex_view.comment_input = TextInput::with_cursor(existing, n);
    app.state = UIState::DialogComment;
}

/// What a key does in the comment box: Esc closes it, Enter stores the text
/// at the cursor (an empty text removes the comment) and empties the box,
/// and any other key edits the text.
pub open spec fn comment_key_post(a: App, b: App, key: KeyPress) -> bool {
    let t = a.hex_view.comment_input;
    match key.code {
        Key::Esc => b == (App { state: UIState::Normal, ..a }),
        Key::Enter => {
            let v = t.value@;
            let ofs = a.hex_view.offset;
            &&& b.hex_view.comment_input.value@.len() == 0
            &&& b.hex_view.comment_input.cursor == 0
            &&& if v.len() == 0 {
                &&& b.hex_view.comments@ == a.hex_view.comments@.remove(ofs)
                &&& entry_views(b.hex_view.comment_name_list@) == without_offset(entry_views(a.hex_view.comment_name_list@), ofs)
            } else {
                &&& b.hex_view.comments@.dom() == a.hex_view.comments@.dom().insert(ofs)
                &&& b.hex_view.comments@[ofs]@ == v
                &&& forall|k: usize| k != ofs && #[trigger] a.hex_view.comments@.contains_key(k) ==> b.hex_view.comments@[k] == a.hex_view.comments@[k]
                &&& entry_views(b.hex_view.comment_name_list@) == without_offset(entry_views(a.hex_view.comment_name_list@), ofs).push((ofs, v))
            }
            &&& b.state == UIState::Normal
            &&& b.file_info == a.file_info
            &&& b.logs == a.logs
        },
        _ => match input_edit(key) {
            None => b == a,
            Some(e) => {
                let (v, c) = input_edited(t.value@, t.cursor as nat, e);
                &&& b.hex_view.comment_input.value@ == v
                &&& b.hex_view.comment_input.cursor == c
                &&& b.hex_view == (HexView { comment_input: b.hex_view.comment_input, ..a.hex_view })
                &&& b == (App { hex_view: b.hex_view, ..a })
            },
        },
    }
}

/// Handles a key in the comment box (see `comment_key_post`).
pub fn dialog_comment_events(app: &mut App, key: KeyPress)
    requires
        old(app).hex_view.comment_input.value@.len() < usize::MAX,
    ensures
        comment_key_post(*old(app), *final(app), key),
{
    match key.code {
        Key::Esc => {
            app.state = UIState::Normal;
        },
        Key::Enter => {
            let ofs = app.hex_view.offset;
            let mut t = TextInput::empty();
            std::mem::swap(&mut t, &mut app.hex_view.comment_input);
            Commands::comment(app, ofs, t.value);
        },
        _ => {
            match input_edit_for(key) {
                None => {},
                Some(e) => {
                    let mut t = TextInput::empty();
                    std::mem::swap(&mut t, &mut app.hex_view.comment_input);
                    t.apply(e);
                    app.hex_view.comment_input = t;
                },
            }
        },
    }
}

} // verus!
