use puzzles::{decode_content, encode_content, encode_id, PuzzleDate, PuzzleId, PuzzlesContent, PuzzlesContentType, SourceId};

fn id(year: u16, month: u8, day: u8) -> PuzzleId {
    PuzzleId { source_id: SourceId::LaTimes, date: PuzzleDate { year, month, day } }
}

fn content(text: &str) -> PuzzlesContent {
    PuzzlesContent { content: String::from(text), content_type: PuzzlesContentType::Xml }
}

#[test]
fn key_layout() {
    assert_eq!(encode_id(&id(2019, 1, 2)), vec![0, 0, 0, 0, 0xe3, 0x07, 1, 2]);
}

#[test]
fn key_matches_bincode_layout() {
    let expected = bincode::serialize(&(0u32, 2019u16, 1u8, 2u8)).unwrap();
    assert_eq!(encode_id(&id(2019, 1, 2)), expected);
}

#[test]
fn distinct_ids_have_distinct_keys() {
    assert_ne!(encode_id(&id(2019, 1, 2)), encode_id(&id(2019, 2, 1)));
    assert_ne!(encode_id(&id(2019, 1, 2)), encode_id(&id(2018, 1, 2)));
}

#[test]
fn content_matches_bincode_layout() {
    let expected = bincode::serialize(&(String::from("<p>é</p>"), 0u32)).unwrap();
    assert_eq!(encode_content(&content("<p>é</p>")), expected);
}

#[test]
fn content_round_trip() {
    for text in ["", "<crossword/>", "ünïcödé ✓"] {
        let bytes = encode_content(&content(text));
        let back = decode_content(&bytes).unwrap();
        assert_eq!(back.content, text);
        assert_eq!(back.content_type, PuzzlesContentType::Xml);
    }
}

#[test]
fn malformed_entries_are_refused() {
    assert!(decode_content(&[]).is_none());
    assert!(decode_content(&[0; 11]).is_none());
    let good = encode_content(&content("abc"));
    let mut longer = good.clone();
    longer.push(0);
    assert!(decode_content(&longer).is_none());
    let mut bad_tag = good.clone();
    let last = bad_tag.len() - 4;
    bad_tag[last] = 1;
    assert!(decode_content(&bad_tag).is_none());
    let mut bad_utf8 = good.clone();
    bad_utf8[8] = 0xff;
    assert!(decode_content(&bad_utf8).is_none());
}
