use dezes::app::{App, UIState};
use dezes::hex::events::{HexAction, Key, KeyPress};
use dezes::hex::help::{
    dialog_help_events, help_box_width, help_row_count, help_text, help_text_width, max_help_scroll, HELP_EN, HELP_KO,
    HELP_ZH,
};
use dezes::i18n::{Lang, M};
use unicode_width::UnicodeWidthStr;

#[test]
fn translations_cover_every_section() {
    let sections = |text: &str| {
        text.lines()
            .filter(|line| !line.is_empty() && !line.starts_with(' '))
            .count()
    };
    let en = sections(HELP_EN);
    assert!(en >= 10, "the English text should have every section, got {}", en);
    assert_eq!(sections(HELP_KO), en, "the Korean text is missing a section");
    assert_eq!(sections(HELP_ZH), en, "the Chinese text is missing a section");
}

#[test]
fn every_text_documents_the_same_keys() {
    let keys = [
        "F1", "F2", "F3", "F4", "F5", "F6", "F7", "F8", "F9", "F12", "Ctrl+B", "Ctrl+C",
        "Ctrl+E", "Ctrl+G", "Ctrl+K", "Ctrl+R", "Ctrl+X", "Ctrl+Z", "Shift+V", "Alt+E",
        "Alt+M", "Alt+N", "Alt+F2", "Alt+F3", ":set lang", ":set view",
    ];
    for (name, text) in [("ko", HELP_KO), ("zh", HELP_ZH), ("en", HELP_EN)] {
        for key in keys {
            assert!(
                text.contains(key),
                "the {} help text never mentions {}",
                name,
                key
            );
        }
    }
}

#[test]
fn korean_uses_transliterated_jargon() {
    assert!(HELP_KO.contains("옵셋"), "offset should read as 옵셋");
    assert!(!HELP_KO.contains("오프셋"), "the old spelling is still in the text");
    assert!(HELP_KO.contains("디스어셈블"));
    assert!(HELP_KO.contains("헥스"));
    assert!(HELP_KO.contains("베이스"));
}

#[test]
fn the_footer_mentions_the_copy_key_only() {
    for lang in [Lang::En, Lang::Ko, Lang::Zh] {
        let footer = M::HelpFooter.tr(lang);
        assert!(footer.contains('y'), "{:?} footer has no copy key: {:?}", lang, footer);
        assert!(
            !footer.contains("PageUp") && !footer.contains("Page"),
            "{:?} footer still lists the scroll keys: {:?}",
            lang,
            footer
        );
    }
}

#[test]
fn each_language_has_its_own_text() {
    assert_eq!(help_text(Lang::En), HELP_EN);
    assert_eq!(help_text(Lang::Ko), HELP_KO);
    assert_eq!(help_text(Lang::Zh), HELP_ZH);
}

#[test]
fn the_text_width_leaves_room_for_the_border() {
    assert_eq!(help_text_width(78), 74);
    assert_eq!(help_text_width(4), 1);
    assert_eq!(help_text_width(0), 1);
}

#[test]
fn wrapped_lines_take_several_rows() {
    assert_eq!(help_row_count("ab\n\ncdef\r\n", 6), 4, "an empty line still takes a row");
    assert_eq!(help_row_count("abc", 6), 2);
    assert_eq!(help_row_count("\u{AC00}\u{B098}", 6), 2, "Hangul is two columns wide");
    assert_eq!(help_row_count("", 6), 0);
}

#[test]
fn the_help_box_scrolls_only_as_far_as_the_text_goes() {
    assert_eq!(help_box_width(10), 20);
    assert_eq!(help_box_width(80), 76);
    assert_eq!(help_box_width(200), 78);
    assert_eq!(max_help_scroll("a\nb\nc\nd\n", 24, 4), 2);
    assert_eq!(max_help_scroll("a\nb", 24, 10), 0);
}

#[test]
fn help_keys_scroll_copy_and_close() {
    let key = |code: Key| KeyPress { code, ctrl: false, alt: false, shift: false };
    let mut app = App::new();
    app.screen_width = 80;
    app.screen_height = 24;
    app.state = UIState::DialogHelp;
    let rows = help_row_count(HELP_EN, 76);
    let limit = max_help_scroll(HELP_EN, 76, (rows + 2).min(20));
    assert!(limit > 10, "the English text is longer than one box");
    dialog_help_events(&mut app, key(Key::End));
    assert_eq!(app.help_scroll_offset, limit);
    dialog_help_events(&mut app, key(Key::Down));
    assert_eq!(app.help_scroll_offset, limit, "no further than the end");
    dialog_help_events(&mut app, key(Key::PageUp));
    assert_eq!(app.help_scroll_offset, limit - 10);
    dialog_help_events(&mut app, key(Key::Home));
    dialog_help_events(&mut app, key(Key::Up));
    assert_eq!(app.help_scroll_offset, 0);
    dialog_help_events(&mut app, key(Key::PageDown));
    assert_eq!(app.help_scroll_offset, 10);
    let copy = KeyPress { code: Key::Char('c'), ctrl: true, alt: false, shift: false };
    assert_eq!(dialog_help_events(&mut app, copy), HexAction::Copy(HELP_EN.to_string()));
    assert_eq!(app.logs.last().map(String::as_str), Some("Copied the help text to clipboard"));
    dialog_help_events(&mut app, key(Key::F(1)));
    assert_eq!(app.state, UIState::Normal);
    assert_eq!(app.help_scroll_offset, 0);
}

#[test]
fn lines_fit_the_help_box() {
    let text_width = help_text_width(help_box_width(68)) as usize;
    for (name, text) in [("en", HELP_EN), ("ko", HELP_KO), ("zh", HELP_ZH)] {
        for line in text.lines() {
            let width = UnicodeWidthStr::width(line);
            assert!(
                width <= text_width * 2,
                "{}: a line is {} columns, more than two rows' worth: {:?}",
                name,
                width,
                line
            );
        }
    }
}

#[test]
fn y_copies_and_keeps_the_window_open() {
    let mut app = App::new();
    app.state = UIState::DialogHelp;
    app.screen_width = 100;
    app.screen_height = 30;

    let key = KeyPress { code: Key::Char('c'), ctrl: true, alt: false, shift: false };
    let _ = dialog_help_events(&mut app, key);

    assert!(app.state == UIState::DialogHelp, "copying closed the help window");
    let last = app.logs.last().cloned().unwrap_or_default();
    assert!(
        last.contains("help text") || last.contains("clipboard"),
        "the copy went unreported, log says: {:?}",
        last
    );
}

#[test]
fn esc_closes_and_resets_the_scroll() {
    let mut app = App::new();
    app.state = UIState::DialogHelp;
    app.screen_width = 100;
    app.screen_height = 30;
    app.help_scroll_offset = 5;

    dialog_help_events(&mut app, KeyPress { code: Key::Esc, ctrl: false, alt: false, shift: false });

    assert!(app.state == UIState::Normal);
    assert_eq!(app.help_scroll_offset, 0);
}
