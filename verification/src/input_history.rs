//! Input histories: recent entries, newest last, walked with Up and Down.
use vstd::prelude::*;

use crate::hex::edit_dialog::EditDialogFocus;
use crate::text::{chars_of, trim};
use std::collections::VecDeque;

verus! {

/// How many entries a history keeps.
pub const CMD_INPUT_HIST_SIZE: usize = 50;

/// A value typed into one field of the Edit Data dialog.
#[derive(Debug)]
pub struct DialogHistoryEntry {
    pub focus: EditDialogFocus,
    pub value: String,
}

impl View for DialogHistoryEntry {
    type V = (EditDialogFocus, Seq<char>);

    open spec fn view(&self) -> (EditDialogFocus, Seq<char>) {
        (self.focus, self.value@)
    }
}

/// What a history can hold: entries it can compare and copy by their view.
pub trait HistoryItem: View + Sized {
    fn same_as(&self, other: &Self) -> (b: bool)
        ensures
            b == (self@ == other@),
    ;

    fn duplicate(&self) -> (r: Self)
        ensures
            r@ == self@,
    ;
}

impl HistoryItem for String {
    fn same_as(&self, other: &Self) -> (b: bool) {
        let a = chars_of(self.as_str());
        let b = chars_of(other.as_str());
        crate::text::chars_eq(a.as_slice(), b.as_slice())
    }

    fn duplicate(&self) -> (r: Self) {
        self.clone()
    }
}

impl HistoryItem for DialogHistoryEntry {
    fn same_as(&self, other: &Self) -> (b: bool) {
        let a = chars_of(self.value.as_str());
        let b = chars_of(other.value.as_str());
        self.focus == other.focus && crate::text::chars_eq(a.as_slice(), b.as_slice())
    }

    fn duplicate(&self) -> (r: Self) {
        DialogHistoryEntry { focus: self.focus, value: self.value.clone() }
    }
}

/// Recent entries, oldest first, with the position of an Up/Down walk and the
/// entry that was being typed when the walk started.
pub struct HistoryQueue<T> {
    pub history: VecDeque<T>,
    pub history_index: Option<usize>,
    pub draft: Option<T>,
}

/// The entries by their views.
pub open spec fn views<T: View>(h: Seq<T>) -> Seq<T::V> {
    h.map_values(|x: T| x@)
}

/// The position of the first entry equal to `e`.
pub open spec fn first_index<A>(h: Seq<A>, e: A) -> int {
    choose|i: int| 0 <= i < h.len() && h[i] == e && forall|j: int| 0 <= j < i ==> h[j] != e
}

/// The history after pushing `e`: an equal entry moves to the end instead of
/// appearing twice, and the oldest entry makes room when the history is full.
pub open spec fn pushed<A>(h: Seq<A>, e: A) -> Seq<A> {
    if h.contains(e) {
        h.remove(first_index(h, e)).push(e)
    } else if h.len() >= CMD_INPUT_HIST_SIZE {
        h.drop_first().push(e)
    } else {
        h.push(e)
    }
}

impl<T> HistoryQueue<T> {
    pub fn new() -> (q: Self)
        ensures
            q.history@.len() == 0,
            q.history_index is None,
            q.draft is None,
    {
        HistoryQueue { history: VecDeque::new(), history_index: None, draft: None }
    }

    /// Ends an Up/Down walk.
    pub fn reset_nav(&mut self)
        ensures
            final(self).history@ == old(self).history@,
            final(self).history_index is None,
            final(self).draft is None,
    {
        self.history_index = None;
        self.draft = None;
    }
}

/// The index of the first entry equal to `e`.
fn position_of<T: HistoryItem>(h: &VecDeque<T>, e: &T) -> (r: Option<usize>)
    ensures
        match r {
            Some(i) => i < h@.len() && h@[i as int]@ == e@ && forall|j: int| 0 <= j < i ==> h@[j]@ != e@,
            None => forall|j: int| 0 <= j < h@.len() ==> h@[j]@ != e@,
        },
{
    let n = h.len();
    let mut i: usize = 0;
    while i < n
        invariant
            i <= n,
            n == h@.len(),
            forall|j: int| 0 <= j < i ==> h@[j]@ != e@,
        decreases n - i,
    {
        if h[i].same_as(e) {
            return Some(i);
        }
        i = i + 1;
    }
    None
}

impl<T: HistoryItem> HistoryQueue<T> {
    /// Adds `entry` as the newest entry (see [`pushed`]) and ends any walk.
    pub fn push(&mut self, entry: T)
        ensures
            views(final(self).history@) == pushed(views(old(self).history@), entry@),
            final(self).history_index is None,
            final(self).draft is None,
    {
        let ghost h = views(self.history@);
        let n = self.history.len();
        let found = position_of(&self.history, &entry);
        if let Some(i) = found {
            assert(h[i as int] == entry@);
            assert(h.contains(entry@));
            assert(first_index(h, entry@) == i) by {
                assert(0 <= i < h.len() && h[i as int] == entry@ && forall|j: int| 0 <= j < i ==> h[j] != entry@);
                let k = first_index(h, entry@);
                if k > i {
                    assert(h[i as int] == entry@);
                }
            }
            self.history.remove(i);
            assert(views(self.history@) =~= h.remove(i as int));
        } else {
            assert(!h.contains(entry@));
            if n >= CMD_INPUT_HIST_SIZE {
                self.history.pop_front();
                assert(views(self.history@) =~= h.drop_first());
            }
        }
        let ghost before = self.history@;
        self.history.push_back(entry);
        assert(views(self.history@) =~= views(before).push(entry@));
        self.reset_nav();
    }

    /// Steps to an older entry and returns a copy of it, remembering
    /// `current` as the draft when the walk starts; `None` when the history
    /// is empty.
    pub fn navigate_up(&mut self, current: &T) -> (r: Option<T>)
        requires
            old(self).history_index matches Some(i) ==> i < old(self).history@.len(),
        ensures
            old(self).history@.len() == 0 ==> r is None && final(self).history@ == old(self).history@
                && final(self).history_index == old(self).history_index
                && final(self).draft == old(self).draft,
            old(self).history@.len() > 0 ==> {
                let k: int = match old(self).history_index {
                    None => old(self).history@.len() - 1,
                    Some(i) => if i == 0 { 0 } else { i - 1 },
                };
                &&& final(self).history_index == Some(k as usize)
                &&& r matches Some(x) && x@ == old(self).history@[k]@
                &&& final(self).history@ == old(self).history@
                &&& if old(self).history_index is None {
                    final(self).draft matches Some(d) && d@ == current@
                } else {
                    final(self).draft == old(self).draft
                }
            },
    {
        if self.history.len() == 0 {
            return None;
        }
        let len = self.history.len();
        if self.history_index.is_none() {
            self.draft = Some(current.duplicate());
        }
        let new_index = match self.history_index {
            None => len - 1,
            Some(0) => 0,
            Some(i) => i - 1,
        };
        self.history_index = Some(new_index);
        Some(self.history[new_index].duplicate())
    }

    /// Steps to a newer entry and returns a copy of it; past the newest, ends
    /// the walk and returns the draft (or `current` if there is none). From
    /// no walk, starts one at the newest entry. `None` when the history is
    /// empty.
    pub fn navigate_down(&mut self, current: &T) -> (r: Option<T>)
        requires
            old(self).history_index matches Some(i) ==> i < old(self).history@.len(),
        ensures
            old(self).history@.len() == 0 ==> r is None && final(self).history@ == old(self).history@
                && final(self).history_index == old(self).history_index
                && final(self).draft == old(self).draft,
            old(self).history@.len() > 0 ==> {
                let len = old(self).history@.len();
                &&& final(self).history@ == old(self).history@
                &&& match old(self).history_index {
                    None => {
                        &&& final(self).draft matches Some(d) && d@ == current@
                        &&& final(self).history_index == Some((len - 1) as usize)
                        &&& r matches Some(x) && x@ == old(self).history@[len - 1]@
                    },
                    Some(i) => if i >= len - 1 {
                        &&& final(self).history_index is None
                        &&& final(self).draft is None
                        &&& r matches Some(x) && x@ == match old(self).draft {
                            Some(d) => d@,
                            None => current@,
                        }
                    } else {
                        &&& final(self).history_index == Some((i + 1) as usize)
                        &&& final(self).draft == old(self).draft
                        &&& r matches Some(x) && x@ == old(self).history@[i + 1]@
                    },
                }
            },
    {
        if self.history.len() == 0 {
            return None;
        }
        let len = self.history.len();
        match self.history_index {
            None => {
                self.draft = Some(current.duplicate());
                let new_index = len - 1;
                self.history_index = Some(new_index);
                Some(self.history[new_index].duplicate())
            },
            Some(i) => {
                if i >= len - 1 {
                    self.history_index = None;
                    let d = self.draft.take();
                    match d {
                        Some(s) => Some(s),
                        None => Some(current.duplicate()),
                    }
                } else {
                    self.history_index = Some(i + 1);
                    Some(self.history[i + 1].duplicate())
                }
            },
        }
    }
}

/// Pushing keeps a history free of repeats and within its size, with the new
/// entry newest.
pub proof fn law_push_keeps_history_clean<A>(h: Seq<A>, e: A)
    requires
        h.no_duplicates(),
        h.len() <= CMD_INPUT_HIST_SIZE,
    ensures
        pushed(h, e).no_duplicates(),
        pushed(h, e).len() <= CMD_INPUT_HIST_SIZE,
        pushed(h, e).last() == e,
        pushed(h, e).contains(e),
{
    let p = pushed(h, e);
    assert(p[p.len() - 1] == e);
    if h.contains(e) {
        let k = choose|i: int| 0 <= i < h.len() && h[i] == e;
        assert(0 <= k < h.len() && h[k] == e && forall|j: int| 0 <= j < k ==> h[j] != e) by {
            if exists|j: int| 0 <= j < k && h[j] == e {
                let j = choose|j: int| 0 <= j < k && h[j] == e;
                assert(h[j] == h[k]);
            }
        }
        let f = first_index(h, e);
        let r = h.remove(f);
        assert forall|i: int, j: int| 0 <= i < p.len() && 0 <= j < p.len() && i != j implies p[i] != p[j] by {
            if i < r.len() && j < r.len() {
                let ii = if i < f { i } else { i + 1 };
                let jj = if j < f { j } else { j + 1 };
                assert(r[i] == h[ii] && r[j] == h[jj]);
            } else if i < r.len() {
                let ii = if i < f { i } else { i + 1 };
                assert(r[i] == h[ii]);
                assert(ii != f);
            } else if j < r.len() {
                let jj = if j < f { j } else { j + 1 };
                assert(r[j] == h[jj]);
                assert(jj != f);
            }
        }
    } else {
        let base = if h.len() >= CMD_INPUT_HIST_SIZE { h.drop_first() } else { h };
        assert forall|i: int, j: int| 0 <= i < p.len() && 0 <= j < p.len() && i != j implies p[i] != p[j] by {
            if i < base.len() && j < base.len() {
                if h.len() >= CMD_INPUT_HIST_SIZE {
                    assert(base[i] == h[i + 1] && base[j] == h[j + 1]);
                }
            } else if i < base.len() {
                if h.len() >= CMD_INPUT_HIST_SIZE {
                    assert(base[i] == h[i + 1]);
                }
            } else if j < base.len() {
                if h.len() >= CMD_INPUT_HIST_SIZE {
                    assert(base[j] == h[j + 1]);
                }
            }
        }
    }
}

/// A command line with its own history: what is typed, the entries, and
/// the position of an Up/Down walk.
pub struct InputHistory {
    /// The text of the command line.
    pub input: String,
    pub history: VecDeque<String>,
    pub history_index: Option<usize>,
    /// The cursor's position in the line, in characters.
    pub cursor_pos: usize,
    pub selection_anchor: Option<usize>,
}

impl InputHistory {
    pub fn new() -> (h: Self)
        ensures
            h.input@.len() == 0,
            h.history@.len() == 0,
            h.history_index is None,
            h.cursor_pos == 0,
            h.selection_anchor is None,
    {
        InputHistory {
            input: String::new(),
            history: VecDeque::new(),
            history_index: None,
            cursor_pos: 0,
            selection_anchor: None,
        }
    }

    /// Records `entry` as the newest command, as `HistoryQueue::push` does,
    /// unless it is blank; the walk, the cursor and the selection start over.
    pub fn push(&mut self, entry: String)
        ensures
            trim(entry@).len() == 0 ==> *final(self) == *old(self),
            trim(entry@).len() > 0 ==> {
                &&& views(final(self).history@) == pushed(views(old(self).history@), entry@)
                &&& final(self).history_index is None
                &&& final(self).cursor_pos == 0
                &&& final(self).selection_anchor is None
                &&& final(self).input == old(self).input
            },
    {
        let cs = chars_of(entry.as_str());
        let t = crate::text::trim_chars(cs.as_slice());
        if t.len() == 0 {
            return;
        }
        let mut q: HistoryQueue<String> = HistoryQueue::new();
        std::mem::swap(&mut q.history, &mut self.history);
        q.push(entry);
        std::mem::swap(&mut q.history, &mut self.history);
        self.history_index = None;
        self.cursor_pos = 0;
        self.selection_anchor = None;
    }

    pub fn reset_selection(&mut self)
        ensures
            final(self).selection_anchor is None,
            final(self).input == old(self).input,
            final(self).history == old(self).history,
            final(self).history_index == old(self).history_index,
            final(self).cursor_pos == old(self).cursor_pos,
    {
        self.selection_anchor = None;
    }

    /// Recalls the next older command into the line, the cursor at its end.
    pub fn up(&mut self)
        requires
            old(self).history_index matches Some(i) ==> i < old(self).history@.len(),
        ensures
            old(self).history@.len() == 0 ==> *final(self) == *old(self),
            old(self).history@.len() > 0 ==> {
                let k: int = match old(self).history_index {
                    None => old(self).history@.len() - 1,
                    Some(i) => if i == 0 { 0 } else { i - 1 },
                };
                &&& final(self).history_index == Some(k as usize)
                &&& final(self).input@ == old(self).history@[k]@
                &&& final(self).cursor_pos == old(self).history@[k]@.len()
                &&& final(self).selection_anchor is None
                &&& final(self).history == old(self).history
            },
    {
        if self.history.len() == 0 {
            return;
        }
        let len = self.history.len();
        let new_index = match self.history_index {
            None => len - 1,
            Some(0) => 0,
            Some(i) => i - 1,
        };
        self.history_index = Some(new_index);
        let text = self.history[new_index].clone();
        self.cursor_pos = chars_of(text.as_str()).len();
        self.selection_anchor = None;
        self.input = text;
    }

    /// Recalls the next newer command; past the newest, empties the line and
    /// ends the walk. Does nothing outside a walk.
    pub fn down(&mut self)
        requires
            old(self).history_index matches Some(i) ==> i < old(self).history@.len(),
        ensures
            (old(self).history@.len() == 0 || old(self).history_index is None) ==> *final(self)
                == *old(self),
            old(self).history@.len() > 0 ==> match old(self).history_index {
                None => true,
                Some(i) => if i >= old(self).history@.len() - 1 {
                    &&& final(self).history_index is None
                    &&& final(self).input@.len() == 0
                    &&& final(self).cursor_pos == 0
                    &&& final(self).selection_anchor is None
                    &&& final(self).history == old(self).history
                } else {
                    &&& final(self).history_index == Some((i + 1) as usize)
                    &&& final(self).input@ == old(self).history@[i + 1]@
                    &&& final(self).cursor_pos == old(self).history@[i + 1]@.len()
                    &&& final(self).selection_anchor is None
                    &&& final(self).history == old(self).history
                },
            },
    {
        if self.history.len() == 0 {
            return;
        }
        let len = self.history.len();
        match self.history_index {
            None => {},
            Some(i) => {
                if i >= len - 1 {
                    self.history_index = None;
                    self.cursor_pos = 0;
                    self.selection_anchor = None;
                    self.input = String::new();
                } else {
                    self.history_index = Some(i + 1);
                    let text = self.history[i + 1].clone();
                    self.cursor_pos = chars_of(text.as_str()).len();
                    self.selection_anchor = None;
                    self.input = text;
                }
            },
        }
    }
}

} // verus!
