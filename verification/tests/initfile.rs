use dezes::initfile::{is_quit_command, merge_initfile};

#[test]
fn quit_commands_are_recognised() {
    for line in ["q", ":q", "quit", ":quit", "wq", ":wq", "x", ":x", "exit", "Q", "WQ"] {
        assert!(is_quit_command(line), "'{}' should be treated as a quit", line);
    }
    assert!(is_quit_command("wq out.bin"));
    assert!(is_quit_command(":x out.bin"));
}

#[test]
fn ordinary_commands_are_not_quits() {
    for line in [
        "set enc1 cp949",
        "set enc2 UTF-8",
        "set theme dark",
        "set disasmtheme light",
        "set byteline 16",
        "1000",
        "cmt 1000 note",
    ] {
        assert!(!is_quit_command(line), "'{}' must still run", line);
    }
}

#[test]
fn similar_looking_commands_are_left_alone() {
    assert!(!is_quit_command("query"));
    assert!(!is_quit_command("xref"));
    assert!(!is_quit_command("quiet"));
    assert!(!is_quit_command(""));
}

#[test]
fn a_hand_written_file_keeps_everything_it_did_not_own() {
    let existing = "\
# my settings
set theme grey3
set disasmtheme grey3
set enc1 UTF-8
set enc2 none
set lang en
set byteline 16
";
    let merged = merge_initfile(Some(existing), "EUC-KR", "UTF-16LE", "ko");

    assert!(merged.contains("set theme grey3"), "the theme line was lost:\n{}", merged);
    assert!(merged.contains("set disasmtheme grey3"));
    assert!(merged.contains("set byteline 16"));
    assert!(merged.contains("# my settings"), "the comment was lost");

    assert!(merged.contains("set enc1 EUC-KR"));
    assert!(merged.contains("set enc2 UTF-16LE"));
    assert!(merged.contains("set lang ko"));
    assert_eq!(merged.matches("set enc1").count(), 1);
    assert_eq!(merged.matches("set lang").count(), 1);
    assert!(!merged.contains("UTF-8"), "the old value is still there:\n{}", merged);
}

#[test]
fn the_order_of_the_file_is_kept() {
    let existing = "set theme grey3\nset enc1 UTF-8\n# tail comment\n";
    let merged = merge_initfile(Some(existing), "EUC-KR", "none", "en");
    let lines: Vec<&str> = merged.lines().collect();

    assert_eq!(lines[0], "set theme grey3");
    assert_eq!(lines[1], "set enc1 EUC-KR");
    assert_eq!(lines[2], "# tail comment");
    assert_eq!(lines[3], "set enc2 none");
    assert_eq!(lines[4], "set lang en");
}

#[test]
fn a_missing_file_is_created_from_scratch() {
    for existing in [None, Some(""), Some("   \n\n")] {
        let merged = merge_initfile(existing, "UTF-8", "none", "en");
        assert!(merged.starts_with("# dezes configuration"), "{:?}", merged);
        assert!(merged.contains("set enc1 UTF-8"));
        assert!(merged.contains("set enc2 none"));
        assert!(merged.contains("set lang en"));
    }
}

#[test]
fn the_users_spelling_survives() {
    let existing = "set encoding1 UTF-8\nset hex_mode_second_encoding none\nset language en\n";
    let merged = merge_initfile(Some(existing), "EUC-KR", "UTF-8", "ko");

    assert!(merged.contains("set encoding1 EUC-KR"), "{}", merged);
    assert!(merged.contains("set hex_mode_second_encoding UTF-8"), "{}", merged);
    assert!(merged.contains("set language ko"), "{}", merged);
    assert!(!merged.contains("set enc1"), "a second line was added:\n{}", merged);
}

#[test]
fn decoration_around_the_value_is_left_alone() {
    let existing = "  :set lang en   # my language\n";
    let merged = merge_initfile(Some(existing), "UTF-8", "none", "zh");

    let line = merged.lines().next().expect("a line");
    assert!(line.starts_with("  :set lang "), "prefix lost: {:?}", line);
    assert!(line.contains("zh"), "value not replaced: {:?}", line);
    assert!(line.contains("# my language"), "comment lost: {:?}", line);
}

#[test]
fn line_endings_are_preserved() {
    let crlf = "set theme grey3\r\nset enc1 UTF-8\r\n";
    let merged = merge_initfile(Some(crlf), "EUC-KR", "none", "en");
    assert!(merged.contains("\r\n"));
    assert!(!merged.replace("\r\n", "").contains('\n'), "mixed endings: {:?}", merged);

    let lf = "set theme grey3\nset enc1 UTF-8\n";
    let merged = merge_initfile(Some(lf), "EUC-KR", "none", "en");
    assert!(!merged.contains('\r'), "CR appeared out of nowhere: {:?}", merged);
}

#[test]
fn a_duplicate_setting_is_collapsed() {
    let existing = "set enc1 UTF-8\nset theme grey3\nset enc1 CP949\n";
    let merged = merge_initfile(Some(existing), "EUC-KR", "none", "en");

    assert_eq!(merged.matches("set enc1").count(), 1, "{}", merged);
    assert!(merged.contains("set enc1 EUC-KR"));
    assert!(merged.contains("set theme grey3"));
}

#[test]
fn merging_is_idempotent() {
    let existing = "# mine\nset theme grey3\nset enc1 UTF-8\nset enc2 none\nset lang en\n";
    let once = merge_initfile(Some(existing), "EUC-KR", "UTF-8", "ko");
    let twice = merge_initfile(Some(&once), "EUC-KR", "UTF-8", "ko");
    assert_eq!(once, twice);
}

#[test]
fn other_commands_are_not_mistaken_for_settings() {
    let existing = "cmt 1000 enc1 is not a setting here\n1000\nset bg #2B3339\n";
    let merged = merge_initfile(Some(existing), "UTF-8", "none", "en");

    assert!(merged.contains("cmt 1000 enc1 is not a setting here"));
    assert!(merged.contains("set bg #2B3339"), "a colour command was rewritten:\n{}", merged);
    assert!(merged.contains("\n1000"), "a goto line was lost:\n{}", merged);
}

#[test]
fn rewritten_lines_are_still_commands() {
    let existing = "  :set   encoding1   UTF-8   # spaced out\n";
    let merged = merge_initfile(Some(existing), "EUC-KR", "none", "en");
    let line = merged.lines().next().expect("a line");

    let body = line.trim_start().trim_start_matches(':');
    let mut words = body.split_whitespace();
    assert_eq!(words.next(), Some("set"));
    assert_eq!(words.next(), Some("encoding1"));
    assert_eq!(words.next(), Some("EUC-KR"));
}

#[test]
fn exact_rewrite_of_a_small_file() {
    let merged = merge_initfile(Some("SET ENC2 x # keep\r\n"), "a", "b", "c");
    assert_eq!(merged, "SET ENC2 b # keep\r\nset enc1 a\r\nset lang c\r\n");
    let no_final_newline = merge_initfile(Some("set theme t"), "a", "b", "c");
    assert_eq!(no_final_newline, "set theme t\nset enc1 a\nset enc2 b\nset lang c\n");
}
