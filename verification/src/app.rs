//! The editor's state: the open file, the settings, and what the hex view holds.
use vstd::prelude::*;

use crate::hex::events::HexAction;
use crate::hex::hex_view::{fresh_hex_view, HexView, Point};
use crate::hex::strings::FoundString;
use crate::reader::Reader;
use crate::i18n::{Lang, M};
use crate::text::string_from;

verus! {

/// Which screen or dialog has the keyboard.
#[derive(Copy, Clone, PartialEq, Eq, Debug, Structural)]
pub enum UIState {
    Normal,
    HexEditing,
    HexSelection,
    DialogBookmarks,
    DialogBookmarkInput,
    DialogComment,
    DialogEditData,
    DialogEncoding,
    DialogEncoding2,
    DialogHelp,
    DialogModifyBlock,
    DialogNames,
    DialogNamesRegex,
    DialogPatches,
    DialogStrings,
    DialogStringEdit,
    Error,
}

/// The main view.
#[derive(Copy, Clone, PartialEq, Eq, Debug, Structural)]
pub enum AppView {
    Hex,
    Disasm,
    Text,
    Header,
}

/// The column of the hex view that keystrokes edit.
#[derive(Copy, Clone, PartialEq, Eq, Debug, Structural)]
pub enum EditingTarget {
    Hex,
    Enc1,
    Enc2,
}

impl EditingTarget {
    /// The column Tab moves to.
    pub fn next(self) -> (t: EditingTarget)
        ensures
            t == match self {
                EditingTarget::Hex => EditingTarget::Enc1,
                EditingTarget::Enc1 => EditingTarget::Enc2,
                EditingTarget::Enc2 => EditingTarget::Hex,
            },
    {
        match self {
            EditingTarget::Hex => EditingTarget::Enc1,
            EditingTarget::Enc1 => EditingTarget::Enc2,
            EditingTarget::Enc2 => EditingTarget::Hex,
        }
    }
}

/// The open file.
pub struct FileInfo {
    /// The file's bytes as read from disk.
    pub buffer: Vec<u8>,
    /// The file's size in bytes.
    pub size: usize,
    pub is_read_only: bool,
}

impl FileInfo {
    pub fn buffer_len(&self) -> (n: usize)
        ensures
            n == self.buffer@.len(),
    {
        self.buffer.len()
    }
}

/// User settings.
pub struct Config {
    pub hex_mode_bytes_per_line: usize,
    /// Drawn in the text columns in place of a character that does not print.
    pub hex_mode_non_graphic_char: char,
    pub lang: Lang,
    /// Whether searches wrap around the end of the file.
    pub search_wrap: bool,
    /// Whether annotations are saved next to the file.
    pub database: bool,
    pub minimum_string_length: usize,
    pub maximum_strings_to_show: usize,
}

/// A new session on a writable file of bytes `buffer`: an empty hex view in
/// the Hex view, the default settings, nothing logged, scanned or shown.
pub open spec fn fresh_app(app: App, buffer: Seq<u8>) -> bool {
    &&& fresh_hex_view(app.hex_view)
    &&& app.file_info.buffer@ == buffer
    &&& app.file_info.size == buffer.len()
    &&& !app.file_info.is_read_only
    &&& app.config.hex_mode_bytes_per_line == 16
    &&& app.config.hex_mode_non_graphic_char == '.'
    &&& app.config.lang == Lang::En
    &&& !app.config.search_wrap
    &&& app.config.database
    &&& app.config.minimum_string_length == 4
    &&& app.config.maximum_strings_to_show == 10000
    &&& app.state == UIState::Normal
    &&& app.logs@.len() == 0
    &&& app.image_base == 0
    &&& app.enc1@ == "UTF-8"@
    &&& app.editor_view == AppView::Hex
    &&& app.strings@.len() == 0
    &&& app.string_regex@.len() == 0
    &&& app.list_selected is None
    &&& app.status_error is None
    &&& app.reader.page_current_size == 1 && app.reader.page_start == 0 && app.reader.page_end == 1
    &&& app.screen_width == 0 && app.screen_height == 0
    &&& app.help_scroll_offset == 0
}

/// The whole editor.
pub struct App {
    pub hex_view: HexView,
    pub file_info: FileInfo,
    pub config: Config,
    pub state: UIState,
    /// Messages shown in the log, oldest first.
    pub logs: Vec<String>,
    /// Virtual address of offset zero, used when addresses are shown as VAs.
    pub image_base: u64,
    /// Label of the primary text encoding.
    pub enc1: String,
    pub editor_view: AppView,
    /// The strings the last scan found.
    pub strings: Vec<FoundString>,
    /// The pattern a scan keeps strings by; blank keeps everything.
    pub string_regex: String,
    /// The selected row of the list dialog that is open.
    pub list_selected: Option<usize>,
    /// An error shown in the status bar until the next key.
    pub status_error: Option<String>,
    /// The page of the file on screen.
    pub reader: Reader,
    /// The terminal's size, in columns and rows, when last drawn.
    pub screen_width: u16,
    pub screen_height: u16,
    /// The first row of the help text shown in the help box.
    pub help_scroll_offset: u16,
}

/// The byte shown at `offset`: the pending edit if there is one, otherwise the
/// byte on disk; `None` past the end of the buffer.
pub open spec fn shown_byte(app: &App, offset: int) -> Option<u8> {
    if 0 <= offset < app.file_info.buffer@.len() {
        if app.hex_view.changed_bytes@.contains_key(offset as usize) {
            Some(app.hex_view.changed_bytes@[offset as usize])
        } else {
            Some(app.file_info.buffer@[offset])
        }
    } else {
        None
    }
}

/// The bytes per line the view shows: the configured count, at least one.
pub open spec fn view_bpl(app: App) -> nat {
    if app.config.hex_mode_bytes_per_line == 0 { 1 } else { app.config.hex_mode_bytes_per_line as nat }
}

/// The page shown once the cursor is at `o`: the same page when `o` is on it,
/// otherwise one that starts at the line holding `o`, as long as before.
pub open spec fn page_for(r: Reader, o: usize, bpl: nat) -> Reader {
    if r.page_start <= o && o <= r.page_end {
        r
    } else {
        let start = (o as int - (o as int) % (bpl as int)) as usize;
        Reader {
            page_start: start,
            page_end: if r.page_current_size == 0 {
                start
            } else if start + r.page_current_size - 1 > usize::MAX {
                usize::MAX
            } else {
                (start + r.page_current_size - 1) as usize
            },
            ..r
        }
    }
}

/// The editor after going to `target` (see `App::goto`): nothing changes
/// for a target past the last byte; otherwise the cursor moves there, the
/// page follows when the target is off it, and the cursor's cell is its line
/// and column on the page.
pub open spec fn after_goto(a: App, target: usize) -> App {
    if target >= a.file_info.size {
        a
    } else {
        let bpl = view_bpl(a);
        let r = page_for(a.reader, target, bpl);
        let d = target - r.page_start;
        App {
            hex_view: HexView {
                offset: target,
                cursor: Point { x: (d % (bpl as int)) as usize, y: (d / (bpl as int)) as usize },
                ..a.hex_view
            },
            reader: r,
            ..a
        }
    }
}

/// The cursor, its cell and the page in `b` are where going to `target`
/// from `a` puts them (see `after_goto`).
pub open spec fn view_went(a: App, b: App, target: usize) -> bool {
    let g = after_goto(a, target);
    &&& b.hex_view.offset == g.hex_view.offset
    &&& b.hex_view.cursor == g.hex_view.cursor
    &&& b.reader == g.reader
}

/// Going to `target` from two editors that agree on the cursor, the page,
/// the settings and the file's size puts the cursor and the page in the same
/// place.
pub proof fn lemma_goto_same_view(a: App, b: App, target: usize)
    requires
        view_stayed(a, b),
        a.config == b.config,
        a.file_info.size == b.file_info.size,
    ensures
        view_went(a, after_goto(b, target), target),
{
}

/// The cursor, its cell and the page are the same in `a` and `b`.
pub open spec fn view_stayed(a: App, b: App) -> bool {
    &&& b.hex_view.offset == a.hex_view.offset
    &&& b.hex_view.cursor == a.hex_view.cursor
    &&& b.reader == a.reader
}

/// `b` is `a` with the error `text` reported: logged, and shown in the
/// status bar.
pub open spec fn error_shown(a: App, b: App, text: Seq<char>) -> bool {
    &&& b.logs@ == a.logs@.push(b.logs@.last())
    &&& b.logs@.last()@ == text
    &&& b.status_error matches Some(e) && e@ == text
    &&& b == (App { logs: b.logs, status_error: b.status_error, ..a })
}

/// What handing `text` to the clipboard as `what` does (see
/// `App::copy_to_clipboard`).
pub open spec fn copied(a: App, b: App, act: HexAction, text: Seq<char>, what: Seq<char>) -> bool {
    &&& b.logs@ == a.logs@.push(b.logs@.last())
    &&& b.logs@.last()@ == if text.len() == 0 { "Nothing to copy"@ } else { "Copied "@ + what + " to clipboard"@ }
    &&& if text.len() == 0 { act is Nothing } else { act matches HexAction::Copy(s) && s@ == text }
    &&& b == (App { logs: b.logs, ..a })
}

impl App {
    /// `self` and `other` differ in the hex view at most.
    pub open spec fn same_but_hex_view(self, other: App) -> bool {
        &&& self.file_info == other.file_info
        &&& self.config == other.config
        &&& self.state == other.state
        &&& self.logs == other.logs
        &&& self.image_base == other.image_base
        &&& self.enc1 == other.enc1
        &&& self.editor_view == other.editor_view
        &&& self.strings == other.strings
        &&& self.string_regex == other.string_regex
        &&& self.list_selected == other.list_selected
        &&& self.status_error == other.status_error
        &&& self.reader == other.reader
        &&& self.screen_width == other.screen_width
        &&& self.screen_height == other.screen_height
        &&& self.help_scroll_offset == other.help_scroll_offset
    }

    /// Everything but the hex view and the page on screen is the same in
    /// `self` and `other`.
    pub open spec fn same_but_view(self, other: App) -> bool {
        &&& self.file_info == other.file_info
        &&& self.config == other.config
        &&& self.state == other.state
        &&& self.logs == other.logs
        &&& self.image_base == other.image_base
        &&& self.enc1 == other.enc1
        &&& self.editor_view == other.editor_view
        &&& self.strings == other.strings
        &&& self.string_regex == other.string_regex
        &&& self.list_selected == other.list_selected
        &&& self.status_error == other.status_error
        &&& self.screen_width == other.screen_width
        &&& self.screen_height == other.screen_height
        &&& self.help_scroll_offset == other.help_scroll_offset
    }

    /// A session with no file loaded.
    pub fn new() -> (app: App)
        ensures
            fresh_app(app, Seq::empty()),
            app.file_info.buffer@.len() == 0,
            app.file_info.size == 0,
            !app.file_info.is_read_only,
            app.state == UIState::Normal,
            app.logs@.len() == 0,
            app.hex_view.changed_bytes@ == Map::<usize, u8>::empty(),
            app.hex_view.changed_history@.len() == 0,
            app.hex_view.redo_history@.len() == 0,
            app.hex_view.nibble_pending is None,
            app.hex_view.offset == 0,
            app.config.hex_mode_bytes_per_line == 16,
            app.config.lang == Lang::En,
    {
        App::with_buffer(Vec::new())
    }

    /// A session on a file whose bytes are `buffer`.
    pub fn with_buffer(buffer: Vec<u8>) -> (app: App)
        ensures
            fresh_app(app, buffer@),
            app.file_info.buffer@ == buffer@,
            app.file_info.size == buffer@.len(),
            !app.file_info.is_read_only,
            app.state == UIState::Normal,
            app.logs@.len() == 0,
            app.hex_view.changed_bytes@ == Map::<usize, u8>::empty(),
            app.hex_view.changed_history@.len() == 0,
            app.hex_view.redo_history@.len() == 0,
            app.hex_view.nibble_pending is None,
            app.hex_view.offset == 0,
            app.config.hex_mode_bytes_per_line == 16,
            app.config.hex_mode_non_graphic_char == '.',
            app.config.lang == Lang::En,
            !app.config.search_wrap,
            app.image_base == 0,
            app.enc1@ == "UTF-8"@,
            app.editor_view == AppView::Hex,
    {
        let size = buffer.len();
        App {
            hex_view: HexView::new(),
            file_info: FileInfo { buffer, size, is_read_only: false },
            config: Config {
                hex_mode_bytes_per_line: 16,
                hex_mode_non_graphic_char: '.',
                lang: Lang::En,
                search_wrap: false,
                database: true,
                minimum_string_length: 4,
                maximum_strings_to_show: 10000,
            },
            state: UIState::Normal,
            logs: Vec::new(),
            image_base: 0,
            enc1: string_from("UTF-8"),
            editor_view: AppView::Hex,
            strings: Vec::new(),
            string_regex: String::new(),
            list_selected: None,
            status_error: None,
            reader: Reader::new(),
            screen_width: 0,
            screen_height: 0,
            help_scroll_offset: 0,
        }
    }

    /// The byte shown at `offset`, pending edits included; `None` past the end of
    /// the file.
    pub fn read_u8(&self, offset: usize) -> (r: Option<u8>)
        ensures
            r == shown_byte(self, offset as int),
    {
        if offset < self.file_info.buffer.len() {
            match self.hex_view.changed_bytes.get(&offset) {
                Some(b) => Some(*b),
                None => Some(self.file_info.buffer[offset]),
            }
        } else {
            None
        }
    }

    /// The virtual address of `offset`.
    pub fn get_va(&self, offset: usize) -> (va: u64)
        ensures
            va == vstd::wrapping::u64_specs::wrapping_add(self.image_base, offset as u64),
    {
        let o: u64 = offset as u64;
        self.image_base.wrapping_add(o)
    }

    /// Moves the cursor to `target` (see `after_goto`): a target past the last
    /// byte is ignored; otherwise the page scrolls to the target's line when
    /// the target is off it, and the cursor's cell is recomputed against the
    /// page.
    pub fn goto(&mut self, target: usize)
        ensures
            *final(self) == after_goto(*old(self), target),
    {
        if target >= self.file_info.size {
            return;
        }
        let bpl: usize = if self.config.hex_mode_bytes_per_line == 0 { 1 } else { self.config.hex_mode_bytes_per_line };
        if target < self.reader.page_start || target > self.reader.page_end {
            assert(target % bpl <= target) by (nonlinear_arith)
                requires
                    bpl > 0,
            ;
            let start = target - target % bpl;
            let size = self.reader.page_current_size;
            self.reader.page_start = start;
            self.reader.page_end = if size == 0 {
                start
            } else if size - 1 > usize::MAX - start {
                usize::MAX
            } else {
                start + (size - 1)
            };
        }
        self.hex_view.offset = target;
        let d = target - self.reader.page_start;
        self.hex_view.cursor = Point { x: d % bpl, y: d / bpl };
    }

    /// Goes to `target` as `goto` does; with `record`, the offset left behind
    /// becomes the one the jump-back key returns to.
    pub fn goto_with_history(&mut self, target: usize, record: bool)
        ensures
            *final(self) == after_goto(
                if record {
                    App { hex_view: HexView { last_visited_offset: old(self).hex_view.offset, ..old(self).hex_view }, ..*old(self) }
                } else {
                    *old(self)
                },
                target,
            ),
    {
        if record {
            self.hex_view.last_visited_offset = self.hex_view.offset;
        }
        self.goto(target);
    }

    /// Adds a line to the log.
    pub fn log(&mut self, message: String)
        ensures
            final(self).logs@ == old(self).logs@.push(message),
            final(self).hex_view == old(self).hex_view,
            final(self).file_info == old(self).file_info,
            final(self).config == old(self).config,
            final(self).state == old(self).state,
            final(self).image_base == old(self).image_base,
            final(self).enc1 == old(self).enc1,
            final(self).editor_view == old(self).editor_view,
            final(self).strings == old(self).strings,
            final(self).string_regex == old(self).string_regex,
            final(self).list_selected == old(self).list_selected,
            final(self).status_error == old(self).status_error,
            final(self).reader == old(self).reader,
            final(self).screen_width == old(self).screen_width,
            final(self).screen_height == old(self).screen_height,
            final(self).help_scroll_offset == old(self).help_scroll_offset,
    {
        self.logs.push(message);
    }

    /// Hands `text` to the clipboard, logging what it was; an empty text
    /// is not copied, and the log says so.
    pub fn copy_to_clipboard(&mut self, text: String, what: &str) -> (act: HexAction)
        ensures
            final(self).logs@ == old(self).logs@.push(final(self).logs@.last()),
            final(self).logs@.last()@ == if text@.len() == 0 {
                "Nothing to copy"@
            } else {
                "Copied "@ + what@ + " to clipboard"@
            },
            act == if text@.len() == 0 { HexAction::Nothing } else { HexAction::Copy(text) },
            *final(self) == (App { logs: final(self).logs, ..*old(self) }),
    {
        if text.as_str().is_empty() {
            self.log(string_from("Nothing to copy"));
            proof {
                reveal_strlit("Nothing to copy");
            }
            return HexAction::Nothing;
        }
        let mut msg = string_from("Copied ");
        crate::text::push_str(&mut msg, what);
        crate::text::push_str(&mut msg, " to clipboard");
        proof {
            reveal_strlit("Copied ");
            reveal_strlit(" to clipboard");
        }
        self.log(msg);
        HexAction::Copy(text)
    }

    /// Refuses an edit because the file is read-only, naming the action in
    /// the interface language.
    pub fn read_only_error(&mut self, action: M)
        ensures
            error_shown(*old(self), *final(self), action.text(old(self).config.lang)),
    {
        let text = string_from(action.tr(self.config.lang));
        self.error(text);
    }

    /// Reports an error: logged, and shown in the status bar.
    pub fn error(&mut self, message: String)
        ensures
            final(self).logs@ == old(self).logs@.push(message),
            error_shown(*old(self), *final(self), message@),
    {
        let shown = string_from(message.as_str());
        self.status_error = Some(shown);
        self.logs.push(message);
    }
}

} // verus!
