use dezes::app::App;
use dezes::hex::search::{
    apply_search_results, find_all_pattern_matches, goto_adjacent_match, hex_string_to_pattern,
    in_match, match_position_message, matches_truncated, search_pattern, update_match_index,
    HexPatternByte, SearchDirection, MAX_MATCHES,
};

fn app_with_matches(matches: Vec<usize>, len: usize) -> App {
    let mut app = App::new();
    app.config.database = false;
    app.hex_view.search.matches = matches;
    app.hex_view.search.match_len = len;
    app
}

#[test]
fn the_whole_match_is_covered() {
    let app = app_with_matches(vec![0x10, 0x40], 3);

    for ofs in 0x10..0x13 {
        assert!(in_match(&app, ofs), "0x{:X} is inside the first hit", ofs);
    }
    assert!(!in_match(&app, 0x13), "one past the hit is outside it");
    assert!(!in_match(&app, 0x0F), "one before it is outside it");
    for ofs in 0x40..0x43 {
        assert!(in_match(&app, ofs), "0x{:X} is inside the second hit", ofs);
    }
}

#[test]
fn nothing_is_marked_without_a_search() {
    let app = app_with_matches(Vec::new(), 4);
    assert!(!in_match(&app, 0));

    let app = app_with_matches(vec![0x10], 0);
    assert!(
        !in_match(&app, 0x10),
        "a zero-length pattern must not paint the file"
    );
}

#[test]
fn single_byte_patterns_mark_one_byte() {
    let app = app_with_matches(vec![0, 2, 4], 1);
    assert!(in_match(&app, 0));
    assert!(!in_match(&app, 1));
    assert!(in_match(&app, 2));
    assert!(!in_match(&app, 3));
    assert!(in_match(&app, 4));
    assert!(!in_match(&app, 5));
}

#[test]
fn adjacent_hits_have_no_gaps() {
    let app = app_with_matches(vec![0x10, 0x12, 0x14], 2);
    for ofs in 0x10..0x16 {
        assert!(in_match(&app, ofs), "0x{:X} should be covered", ofs);
    }
    assert!(!in_match(&app, 0x16));
}

#[test]
fn the_counter_reports_position_and_total() {
    let app = app_with_matches(vec![0x100, 0x2289, 0x4000], 3);

    assert_eq!(
        match_position_message(&app, 0x2289),
        "Match (2/3) offset : 0x2289"
    );
    assert_eq!(match_position_message(&app, 0x100), "Match (1/3) offset : 0x100");
    assert_eq!(
        match_position_message(&app, 0x4000),
        "Match (3/3) offset : 0x4000"
    );
}

#[test]
fn va_mode_reports_a_va() {
    let mut app = app_with_matches(vec![0x100], 1);
    app.hex_view.show_va = true;

    let message = match_position_message(&app, 0x100);
    assert!(message.starts_with("Match (1/1) VA : 0x"), "got: {}", message);
    assert!(!message.contains("offset"));
}

#[test]
fn an_offset_between_hits_falls_back_to_the_index() {
    let mut app = app_with_matches(vec![0x100, 0x200], 4);
    app.hex_view.search.match_index = Some(1);

    let message = match_position_message(&app, 0x101);
    assert!(message.starts_with("Match (2/2)"), "got: {}", message);
}

#[test]
fn va_mode_adds_the_image_base() {
    let mut app = app_with_matches(vec![0x100], 1);
    app.hex_view.show_va = true;
    app.image_base = 0x1400_0000;
    assert_eq!(match_position_message(&app, 0x100), "Match (1/1) VA : 0x14000100");
}

#[test]
fn wildcard_only_pattern_is_capped() {
    let size = MAX_MATCHES + 5_000;
    let app = App::with_buffer(vec![0u8; size]);
    let pattern = hex_string_to_pattern("??").expect("pattern");

    let matches = find_all_pattern_matches(&app, &pattern);

    assert_eq!(matches.len(), MAX_MATCHES, "the result list must be capped");
    assert!(matches_truncated(&matches));
    assert!(matches.windows(2).all(|w| w[0] < w[1]));
}

#[test]
fn anchored_pattern_is_capped() {
    let size = MAX_MATCHES + 5_000;
    let app = App::with_buffer(vec![0xAAu8; size]);
    let pattern = hex_string_to_pattern("AA").expect("pattern");

    let matches = find_all_pattern_matches(&app, &pattern);

    assert_eq!(matches.len(), MAX_MATCHES);
    assert!(matches_truncated(&matches));
}

#[test]
fn small_result_sets_are_complete() {
    let mut bytes = vec![0u8; 0x1000];
    bytes[0x10] = 0xAA;
    bytes[0x20] = 0xAA;
    bytes[0x30] = 0xAA;
    let app = App::with_buffer(bytes);
    let pattern = hex_string_to_pattern("AA").expect("pattern");

    let matches = find_all_pattern_matches(&app, &pattern);

    assert_eq!(matches, vec![0x10, 0x20, 0x30]);
    assert!(!matches_truncated(&matches));
}

#[test]
fn wildcards_within_a_pattern_still_match() {
    let mut bytes = vec![0u8; 0x100];
    bytes[0x40] = 0xAA;
    bytes[0x41] = 0x99;
    bytes[0x42] = 0xBB;
    let app = App::with_buffer(bytes);
    let pattern = hex_string_to_pattern("AA ?? BB").expect("pattern");

    assert_eq!(find_all_pattern_matches(&app, &pattern), vec![0x40]);
}

#[test]
fn pending_edits_are_searched() {
    let mut app = App::with_buffer(vec![0u8; 0x20]);
    app.hex_view.changed_bytes.insert(5, 0xCC);
    let pattern = vec![HexPatternByte::Exact(0xCC)];
    assert_eq!(find_all_pattern_matches(&app, &pattern), vec![5]);
}

#[test]
fn hex_strings_parse_in_every_form() {
    let (e, w) = (HexPatternByte::Exact, HexPatternByte::Wildcard);
    assert_eq!(hex_string_to_pattern("deadbeef"), Some(vec![e(0xDE), e(0xAD), e(0xBE), e(0xEF)]));
    assert_eq!(hex_string_to_pattern("de ?? be"), Some(vec![e(0xDE), w, e(0xBE)]));
    assert_eq!(hex_string_to_pattern("0xDE 0XAD"), Some(vec![e(0xDE), e(0xAD)]));
    assert_eq!(hex_string_to_pattern("a ? b"), Some(vec![e(0x0A), w, e(0x0B)]));
    assert_eq!(hex_string_to_pattern("de??"), Some(vec![e(0xDE), w]));
    assert_eq!(hex_string_to_pattern("abc"), None);
    assert_eq!(hex_string_to_pattern("zz"), None);
    assert_eq!(hex_string_to_pattern("   "), None);
    assert_eq!(hex_string_to_pattern("é1"), None);
}

#[test]
fn the_nearest_hit_becomes_current() {
    let mut app = app_with_matches(vec![0x10, 0x20, 0x30], 1);
    update_match_index(&mut app, 0x20);
    assert_eq!(app.hex_view.search.match_index, Some(1));
    update_match_index(&mut app, 0x18);
    assert_eq!(app.hex_view.search.match_index, Some(0), "a tie goes to the earlier hit");
    update_match_index(&mut app, 0x19);
    assert_eq!(app.hex_view.search.match_index, Some(1));
    update_match_index(&mut app, 0);
    assert_eq!(app.hex_view.search.match_index, Some(0));
    update_match_index(&mut app, 0x99);
    assert_eq!(app.hex_view.search.match_index, Some(2));
    let mut empty = app_with_matches(Vec::new(), 1);
    update_match_index(&mut empty, 5);
    assert_eq!(empty.hex_view.search.match_index, None);
}

#[test]
fn searching_moves_forward_and_wraps_on_request() {
    let mut bytes = vec![0u8; 0x40];
    bytes[0x08] = 0x41;
    bytes[0x30] = 0x41;
    let mut app = App::with_buffer(bytes);
    app.hex_view.offset = 0x10;
    let pattern = vec![HexPatternByte::Exact(0x41)];
    assert_eq!(search_pattern(&mut app, &pattern), Some(0x30));
    assert_eq!(app.hex_view.search.match_len, 1);
    assert_eq!(app.hex_view.search.match_index, Some(1));

    app.hex_view.offset = 0x30;
    assert_eq!(apply_search_results(&mut app, vec![0x08, 0x30]), None, "no wrap by default");
    app.config.search_wrap = true;
    assert_eq!(apply_search_results(&mut app, vec![0x08, 0x30]), Some(0x08));

    app.hex_view.search.direction = SearchDirection::Backward;
    app.hex_view.offset = 0x08;
    assert_eq!(apply_search_results(&mut app, vec![0x08, 0x30]), Some(0x30));
    assert_eq!(apply_search_results(&mut app, Vec::new()), None);
    assert!(app.hex_view.search.matches.is_empty());
}

#[test]
fn adjacent_match_walks_the_list() {
    let mut app = App::with_buffer(vec![0u8; 0x40]);
    app.hex_view.search.matches = vec![0x08, 0x30];
    app.hex_view.offset = 0x00;
    goto_adjacent_match(&mut app, true);
    assert_eq!(app.hex_view.offset, 0x08);
    goto_adjacent_match(&mut app, true);
    assert_eq!(app.hex_view.offset, 0x30);
    goto_adjacent_match(&mut app, false);
    assert_eq!(app.hex_view.offset, 0x08);
    assert_eq!(app.hex_view.search.direction, SearchDirection::Backward);
}

#[test]
fn a_capped_list_is_logged() {
    let mut app = App::with_buffer(vec![0u8; 4]);
    let all: Vec<usize> = (0..MAX_MATCHES).collect();
    apply_search_results(&mut app, all);
    assert_eq!(
        app.logs.last().map(String::as_str),
        Some("Search stopped at the first 100000 matches - narrow the pattern to see the rest")
    );
}
