use dezes::hex::pattern_engine::{HexPattern, HexReplacer, PatternByte, PatternError};

fn pat(s: &str) -> HexPattern {
    HexPattern::parse(s).unwrap()
}

#[test]
fn parse_forms() {
    assert_eq!(pat("DE AD ?? EF").len(), 4);
    assert_eq!(pat("DEAD??EF").len(), 4);
    assert!(HexPattern::parse("").is_err());
    assert!(HexPattern::parse("ABC").is_err());
    assert!(HexPattern::parse("ZZ").is_err());
}

#[test]
fn find_and_replace_basic() {
    let search = pat("DE AD ?? EF");
    let replace = pat("00 00 ?? 00");
    let mut data = vec![0x11, 0xDE, 0xAD, 0x99, 0xEF, 0x22, 0xDE, 0xAD, 0x77, 0xEF];
    let r = HexReplacer::new(search, replace, &data).unwrap();
    let hits = r.find_all(&data);
    assert_eq!(hits, vec![1, 6]);
    r.replace_all(&mut data);
    assert_eq!(
        data,
        vec![0x11, 0x00, 0x00, 0x99, 0x00, 0x22, 0x00, 0x00, 0x77, 0x00]
    );
}

#[test]
fn wildcard_only_pattern() {
    let search = pat("?? ??");
    let replace = pat("?? ??");
    let data = vec![1, 2, 3, 4, 5];
    let r = HexReplacer::new(search, replace, &data).unwrap();
    assert_eq!(r.find_all(&data), vec![0, 2]);
}

#[test]
fn find_next_and_replace_at() {
    let search = pat("AA BB");
    let replace = pat("CC ??");
    let mut data = vec![0xAA, 0xBB, 0x00, 0xAA, 0xBB];
    let r = HexReplacer::new(search, replace, &data).unwrap();
    let first = r.find_next(&data, 0).unwrap();
    assert_eq!(first, 0);
    assert!(r.replace_at(&mut data, first));
    assert_eq!(data[0..2], [0xCC, 0xBB]);
    let second = r.find_next(&data, first + 1).unwrap();
    assert_eq!(second, 3);
}

#[test]
fn length_mismatch_rejected() {
    let search = pat("AA BB CC");
    let replace = pat("DD EE");
    assert!(HexReplacer::new(search, replace, &[]).is_err());
}

#[test]
fn anchor_picks_rarest_byte() {
    let mut hint = vec![0xAAu8; 10_000];
    hint.push(0xFF);
    let search = pat("AA FF");
    let replace = pat("00 00");
    let r = HexReplacer::new(search, replace, &hint).unwrap();
    assert_eq!(r.anchor(), Some((1, 0xFF)));
}

#[test]
fn long_literal_run_matches_and_replaces() {
    let search_str: String = (0..64)
        .map(|i| format!("{:02X}", i as u8))
        .collect::<Vec<_>>()
        .join(" ");
    let search = pat(&search_str);
    let mut replace_tokens: Vec<String> = (0..64)
        .map(|i| format!("{:02X}", (i as u8).wrapping_add(1)))
        .collect();
    replace_tokens[30] = "??".to_string();
    let replace = pat(&replace_tokens.join(" "));

    let mut data: Vec<u8> = (0..64u8).collect();
    let r = HexReplacer::new(search, replace, &data).unwrap();
    assert_eq!(r.find_all(&data), vec![0]);
    r.replace_all(&mut data);
    for i in 0..64usize {
        if i == 30 {
            assert_eq!(data[i], 30u8);
        } else {
            assert_eq!(data[i], (i as u8).wrapping_add(1));
        }
    }
}

#[test]
fn parse_reports_the_bad_token_and_empty_input() {
    assert_eq!(
        HexPattern::parse("DE ZZ").unwrap_err(),
        PatternError::InvalidToken("ZZ".to_string())
    );
    assert_eq!(HexPattern::parse("   ").unwrap_err(), PatternError::EmptyPattern);
    assert_eq!(
        HexPattern::parse("ABC").unwrap_err(),
        PatternError::InvalidToken("ABC".to_string())
    );
    let p = pat("de ?? +f");
    assert_eq!(
        p.as_slice(),
        &[PatternByte::Literal(0xDE), PatternByte::Wildcard, PatternByte::Literal(0x0F)]
    );
}

#[test]
fn a_length_mismatch_names_both_lengths() {
    let r = HexReplacer::new(pat("AA BB CC"), pat("DD EE"), &[]);
    assert!(matches!(
        r,
        Err(PatternError::LengthMismatch { search_len: 3, replace_len: 2 })
    ));
}

#[test]
fn replace_at_refuses_a_position_that_no_longer_matches() {
    let r = HexReplacer::new(pat("AA BB"), pat("00 00"), &[]).unwrap();
    let mut data = vec![0xAA, 0xBC, 0xAA, 0xBB];
    assert!(!r.replace_at(&mut data, 0));
    assert_eq!(data, vec![0xAA, 0xBC, 0xAA, 0xBB]);
    assert!(!r.replace_at(&mut data, 3));
    assert!(r.replace_at(&mut data, 2));
    assert_eq!(data, vec![0xAA, 0xBC, 0x00, 0x00]);
    assert_eq!(r.find_next(&data, 0), None);
}

#[test]
fn replacing_never_changes_the_length() {
    let r = HexReplacer::new(pat("?? 00"), pat("FF ??"), &[]).unwrap();
    let mut data = vec![1, 0, 2, 0, 0, 3];
    let hits = r.replace_all(&mut data);
    assert_eq!(hits, vec![0, 2]);
    assert_eq!(data, vec![0xFF, 0, 0xFF, 0, 0, 3]);
}
