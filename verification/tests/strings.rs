use dezes::hex::strings::{
    count_trailing_zeros, is_cjk, is_hangul, is_one_char_repeated, is_wide_text,
    longest_script_run, looks_like_single_byte_text, FoundString, Script, StringEncoding,
};

#[test]
fn the_rule_needs_three_characters() {
    assert!(!looks_like_single_byte_text("版本"));
    assert!(looks_like_single_byte_text("佃敬硅"));
}

#[test]
fn korean_wide_text_is_not_single_byte_text() {
    assert!(!looks_like_single_byte_text("파일크기"));
    assert!(!looks_like_single_byte_text("abc"));
}

#[test]
fn script_runs_are_counted() {
    assert_eq!(longest_script_run("a한글b문자열", Script::Hangul), 3);
    assert_eq!(longest_script_run("abc", Script::Hangul), 0);
    assert_eq!(longest_script_run("x文件y", Script::Cjk), 2);
    assert!(is_hangul('가') && !is_hangul('文'));
    assert!(is_cjk('文') && !is_cjk('가'));
}

#[test]
fn repeated_characters_are_noise() {
    assert!(is_one_char_repeated("aaa"));
    assert!(!is_one_char_repeated("aa"));
    assert!(!is_one_char_repeated("aab"));
    assert!(!is_one_char_repeated(""));
}

#[test]
fn wide_text_classes() {
    assert!(is_wide_text('A'));
    assert!(is_wide_text('가'));
    assert!(!is_wide_text('\u{1}'));
    assert!(!is_wide_text('\u{E000}'));
}

#[test]
fn trailing_zeros_are_counted_and_capped() {
    let mut b = vec![1u8, 0, 0, 0, 2];
    assert_eq!(count_trailing_zeros(&b, 1, false), 3);
    assert_eq!(count_trailing_zeros(&b, 1, true), 2);
    assert_eq!(count_trailing_zeros(&b, 9, false), 0);
    b = vec![0u8; 1000];
    assert_eq!(count_trailing_zeros(&b, 0, false), 512);
}

#[test]
fn encodings_cycle_both_ways() {
    let all = [
        StringEncoding::Ascii,
        StringEncoding::Utf8,
        StringEncoding::Cp949,
        StringEncoding::Cp936,
        StringEncoding::Utf16,
    ];
    for e in all {
        assert_eq!(e.next().prev(), e);
    }
    assert_eq!(StringEncoding::Utf16.next(), StringEncoding::Ascii);
    assert_eq!(StringEncoding::Cp949.as_str(), "CP949(KO)");
    assert_eq!(StringEncoding::Cp936.codec_label(), "GBK");
}

#[test]
fn found_strings_show_their_address() {
    let mut f = FoundString::new(0x1234, "hello", 5);
    assert_eq!(f.display, "00001234  hello");
    f.set_address(0x1_4000_1234);
    assert_eq!(f.display, "140001234  hello");
    assert_eq!(f.content, "hello");
}
