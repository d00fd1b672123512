use dezes::hex::string_scan::{scan_ascii, scan_dbcs, scan_utf16, scan_utf8, DbcsCodePage};
use dezes::hex::strings::{build_safe_regex, looks_like_single_byte_text, FoundString, TextFilter};

fn any() -> TextFilter {
    build_safe_regex(".*").unwrap()
}

fn euckr(text: &str) -> Vec<u8> {
    encoding_rs::EUC_KR.encode(text).0.into_owned()
}

fn gbk(text: &str) -> Vec<u8> {
    encoding_rs::GBK.encode(text).0.into_owned()
}

fn wide(text: &str) -> Vec<u8> {
    text.encode_utf16().flat_map(|u| u.to_le_bytes()).collect()
}

fn contents(out: &[FoundString]) -> Vec<String> {
    out.iter().map(|s| s.content.clone()).collect()
}

#[test]
fn cp949_scan_keeps_korean_and_drops_plain_ascii() {
    let mut buffer = vec![0u8; 0x60];
    buffer[0x08..0x0F].copy_from_slice(b"license");
    let korean = euckr("한글문자");
    buffer[0x20..0x20 + korean.len()].copy_from_slice(&korean);

    let mut out = Vec::new();
    let re = any();
    scan_dbcs(&buffer, 0..buffer.len(), DbcsCodePage::Cp949, 3, 100, Some(&re), &mut out);

    assert_eq!(out.len(), 1, "found {:?}", contents(&out));
    assert_eq!(out[0].offset, 0x20);
    assert_eq!(out[0].content, "한글문자");
    assert_eq!(out[0].size, korean.len(), "size is the byte length, not the char count");
}

#[test]
fn minimum_length_counts_characters_not_bytes() {
    let mut buffer = vec![0u8; 0x40];
    let korean = euckr("한글");
    buffer[0x10..0x10 + korean.len()].copy_from_slice(&korean);
    assert_eq!(korean.len(), 4);
    let re = any();

    let mut out = Vec::new();
    scan_dbcs(&buffer, 0..buffer.len(), DbcsCodePage::Cp949, 3, 100, Some(&re), &mut out);
    assert!(out.is_empty(), "2 characters must not pass a minimum of 3");

    let mut out = Vec::new();
    scan_dbcs(&buffer, 0..buffer.len(), DbcsCodePage::Cp949, 2, 100, Some(&re), &mut out);
    assert_eq!(out.len(), 1, "2 characters must pass a minimum of 2");
}

#[test]
fn utf16_scan_finds_what_the_ascii_scan_cannot() {
    let mut buffer = vec![0u8; 0x40];
    let w = wide("Hello");
    buffer[0x10..0x10 + w.len()].copy_from_slice(&w);
    let re = any();

    let mut ascii = Vec::new();
    scan_ascii(&buffer, 4, 100, Some(&re), &mut ascii);
    assert!(ascii.is_empty(), "single-byte scan should see only 1-char runs here");

    let mut out = Vec::new();
    scan_utf16(&buffer, 0..buffer.len(), 4, 100, Some(&re), &mut out);
    assert_eq!(out.len(), 1, "found {:?}", contents(&out));
    assert_eq!(out[0].offset, 0x10);
    assert_eq!(out[0].content, "Hello");
    assert_eq!(out[0].size, 10);
}

#[test]
fn scan_stops_at_the_cap() {
    let mut buffer = Vec::new();
    for _ in 0..50 {
        buffer.extend_from_slice(b"abcdef\0");
    }
    let re = any();
    let mut out = Vec::new();
    scan_ascii(&buffer, 4, 7, Some(&re), &mut out);
    assert_eq!(out.len(), 7);
}

#[test]
fn cp936_ignores_x64_code_that_decodes_cleanly() {
    let mut buffer = vec![0x48, 0x8B, 0xCB, 0x48, 0x8A, 0xDA, 0x48, 0x8B, 0xD3, 0x00];
    buffer.extend_from_slice(&[0xCC; 10]);
    buffer.push(0x00);
    let re = any();

    let mut out = Vec::new();
    scan_dbcs(&buffer, 0..buffer.len(), DbcsCodePage::Cp936, 4, 100, Some(&re), &mut out);
    assert!(out.is_empty(), "code should not be text: {:?}", contents(&out));
}

#[test]
fn repeated_filler_is_not_a_string() {
    let mut buffer = vec![0x00];
    buffer.extend_from_slice(&[0xCC; 12]);
    buffer.push(0x00);
    let re = any();

    let mut out = Vec::new();
    scan_dbcs(&buffer, 0..buffer.len(), DbcsCodePage::Cp936, 4, 100, Some(&re), &mut out);
    assert!(out.is_empty(), "0xCC filler must not be reported");
}

#[test]
fn dbcs_requires_a_nul_terminator() {
    let korean = euckr("한글문자");
    let re = any();

    let mut terminated = vec![0u8; 0x20];
    terminated[0x10..0x10 + korean.len()].copy_from_slice(&korean);
    let mut out = Vec::new();
    scan_dbcs(&terminated, 0..terminated.len(), DbcsCodePage::Cp949, 3, 100, Some(&re), &mut out);
    assert_eq!(out.len(), 1, "a NUL-terminated string is text");

    let mut unterminated = vec![0u8; 0x20];
    unterminated[0x10..0x10 + korean.len()].copy_from_slice(&korean);
    unterminated[0x10 + korean.len()] = 0x01;
    let mut out = Vec::new();
    scan_dbcs(&unterminated, 0..unterminated.len(), DbcsCodePage::Cp949, 3, 100, Some(&re), &mut out);
    assert!(out.is_empty(), "a run cut off by a control byte is not text");
}

#[test]
fn a_single_stray_character_is_not_a_word() {
    let single = gbk("镜");
    let mut buffer = vec![0u8; 0x20];
    buffer[0x08..0x0C].copy_from_slice(b"abc ");
    buffer[0x0C..0x0C + single.len()].copy_from_slice(&single);
    let re = any();

    let mut out = Vec::new();
    scan_dbcs(&buffer, 0..buffer.len(), DbcsCodePage::Cp936, 4, 100, Some(&re), &mut out);
    assert!(out.is_empty(), "one hanzi among ASCII is not enough");
}

#[test]
fn a_real_mixed_string_survives_every_rule() {
    let text = "AutoEye(乾坤镜)";
    let encoded = gbk(text);
    let mut buffer = vec![0u8; 0x40];
    buffer[0x10..0x10 + encoded.len()].copy_from_slice(&encoded);
    let re = any();

    let mut out = Vec::new();
    scan_dbcs(&buffer, 0..buffer.len(), DbcsCodePage::Cp936, 4, 100, Some(&re), &mut out);

    assert_eq!(out.len(), 1);
    assert_eq!(out[0].content, text);
    assert_eq!(out[0].offset, 0x10);
}

#[test]
fn scan_honours_the_range_it_is_given() {
    let korean = euckr("한글문자");
    let mut buffer = vec![0u8; 0x60];
    buffer[0x10..0x10 + korean.len()].copy_from_slice(&korean);
    buffer[0x40..0x40 + korean.len()].copy_from_slice(&korean);
    let re = any();

    let mut out = Vec::new();
    scan_dbcs(&buffer, 0x30..0x60, DbcsCodePage::Cp949, 3, 100, Some(&re), &mut out);
    assert_eq!(out.len(), 1, "only the string inside the range counts");
    assert_eq!(out[0].offset, 0x40);
}

#[test]
fn utf16_rejects_units_outside_the_text_blocks() {
    let mut buffer = vec![0u8; 0x40];
    for k in 0..5 {
        buffer[0x10 + k * 2] = 0xBA;
        buffer[0x11 + k * 2] = 0x0E;
    }
    let re = any();

    let mut out = Vec::new();
    scan_utf16(&buffer, 0..buffer.len(), 4, 100, Some(&re), &mut out);
    assert!(out.is_empty(), "unassigned code points are not text: {:?}", contents(&out));
}

#[test]
fn utf16_requires_a_nul_on_both_sides() {
    let w = wide("Hello");
    let re = any();

    let mut clean = vec![0u8; 0x40];
    clean[0x10..0x10 + w.len()].copy_from_slice(&w);
    let mut out = Vec::new();
    scan_utf16(&clean, 0..clean.len(), 4, 100, Some(&re), &mut out);
    assert_eq!(out.len(), 1, "a padded wide literal is text");

    let mut crowded = vec![0u8; 0x40];
    crowded[0x0E] = 0x01;
    crowded[0x10..0x10 + w.len()].copy_from_slice(&w);
    let mut out = Vec::new();
    scan_utf16(&crowded, 0..crowded.len(), 4, 100, Some(&re), &mut out);
    assert!(out.is_empty(), "a run that starts mid-data is not a wide literal");
}

#[test]
fn utf16_ignores_single_byte_text_read_at_the_wrong_width() {
    let mut buffer = vec![0u8, 0u8];
    buffer.extend_from_slice(b"CollectExceptionInfo");
    buffer.extend_from_slice(&[0, 0]);
    let re = any();

    let mut out = Vec::new();
    scan_utf16(&buffer, 0..buffer.len(), 4, 100, Some(&re), &mut out);
    assert!(out.is_empty(), "ASCII read at the wrong width is not text: {:?}", contents(&out));
}

#[test]
fn real_chinese_wide_strings_survive() {
    let re = any();
    for text in ["文件属性错误", "反编译失败", "AutoEye(乾坤镜) 2.0.0.1000"] {
        let mut buffer = vec![0u8; 4];
        buffer.extend_from_slice(&wide(text));
        buffer.extend_from_slice(&[0, 0]);

        let mut out = Vec::new();
        scan_utf16(&buffer, 0..buffer.len(), 4, 100, Some(&re), &mut out);
        assert_eq!(out.len(), 1, "{:?} was rejected", text);
        assert_eq!(out[0].content, text);
    }
}

#[test]
fn korean_wide_strings_are_unaffected() {
    let re = any();
    for text in ["파일크기", "한글 파일 이름"] {
        let mut buffer = vec![0u8; 4];
        buffer.extend_from_slice(&wide(text));
        buffer.extend_from_slice(&[0, 0]);

        let mut out = Vec::new();
        scan_utf16(&buffer, 0..buffer.len(), 4, 100, Some(&re), &mut out);
        assert_eq!(out.len(), 1, "{:?} was rejected", text);
    }
    assert!(!looks_like_single_byte_text("파일크기"));
}

#[test]
fn utf8_scan_reads_multibyte_text_and_stops_at_controls() {
    let mut buffer = vec![0u8; 4];
    buffer.extend_from_slice("héllo wörld".as_bytes());
    buffer.push(0);
    buffer.extend_from_slice(b"abc\x01");
    buffer.extend_from_slice(&[0xC2, 0x85, b'x', b'y', b'z', b'w', 0]);

    let mut out = Vec::new();
    scan_utf8(&buffer, 0..buffer.len(), 4, 100, None, &mut out);
    assert_eq!(contents(&out), vec!["héllo wörld".to_string(), "xyzw".to_string()]);
    assert_eq!(out[0].offset, 4);
    assert_eq!(out[0].size, "héllo wörld".len());
}

#[test]
fn an_ascii_run_at_the_end_of_the_file_is_reported() {
    let mut buffer = vec![0u8; 3];
    buffer.extend_from_slice(b"tail text");
    let mut out = Vec::new();
    scan_ascii(&buffer, 4, 100, None, &mut out);
    assert_eq!(contents(&out), vec!["tail text".to_string()]);
    assert_eq!(out[0].offset, 3);
    assert_eq!(out[0].display, "00000003  tail text");
}

#[test]
fn a_filter_keeps_only_matching_runs() {
    let mut buffer = Vec::new();
    buffer.extend_from_slice(b"alpha\0beta\0gamma\0");
    let re = build_safe_regex("^(alpha|GAMMA)$").unwrap();
    let mut out = Vec::new();
    scan_ascii(&buffer, 4, 100, Some(&re), &mut out);
    assert_eq!(contents(&out), vec!["alpha".to_string(), "gamma".to_string()]);
}
