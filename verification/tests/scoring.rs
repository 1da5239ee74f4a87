use aviutl2_font_select_helper::candidate::{classify_item, read_item, score_candidate, ItemText};

fn sample(item: ItemText<String>) -> Option<String> {
    match item {
        ItemText::Sample(text) => Some(text),
        _ => None,
    }
}

#[test]
fn score_adds_up() {
    assert_eq!(score_candidate(50, true, true, true, 3, 0), 11);
    assert_eq!(score_candidate(49, true, true, true, 3, 0), 9);
    assert_eq!(score_candidate(10, true, true, true, 3, 0), 9);
    assert_eq!(score_candidate(9, true, true, true, 3, 0), 8);
    assert_eq!(score_candidate(50, false, true, true, 3, 0), 8);
    assert_eq!(score_candidate(50, true, false, true, 3, 0), 9);
    assert_eq!(score_candidate(50, true, true, false, 3, 0), 10);
    assert_eq!(score_candidate(50, true, true, true, 2, 0), 10);
    assert_eq!(score_candidate(50, true, true, true, 1, 0), 10);
    assert_eq!(score_candidate(50, true, true, true, 0, 0), 9);
    assert_eq!(score_candidate(50, true, true, true, 3, 1), 9);
    assert_eq!(score_candidate(0, false, false, false, 0, 4), -2);
    assert_eq!(score_candidate(isize::MIN, false, false, false, 1, 0), 1);
}

#[test]
fn score_is_bounded_and_monotone() {
    let counts = [0isize, 9, 10, 49, 50, 1000];
    let flags = [false, true];
    let mut last: Option<i32> = None;
    for visible in flags {
        for enabled in flags {
            for list in flags {
                last = None;
                for count in counts {
                    let score = score_candidate(count, list, visible, enabled, 1, 0);
                    assert!((-2..=11).contains(&score));
                    assert!(last.is_none() || last <= Some(score));
                    assert!(score_candidate(count, list, visible, enabled, 0, 0) <= score);
                    assert!(score_candidate(count, list, visible, enabled, 1, 1) <= score);
                    last = Some(score);
                }
            }
        }
    }
    assert_eq!(last, Some(10));
}

#[test]
fn decoded_items_are_classified() {
    assert!(matches!(classify_item("Arial", true), ItemText::Malformed));
    assert!(matches!(classify_item("", true), ItemText::Malformed));
    assert!(matches!(classify_item("", false), ItemText::Blank));
    assert!(matches!(classify_item(" \u{3000}\t", false), ItemText::Blank));
    assert_eq!(sample(classify_item(" MS Gothic ", false)), Some("MS Gothic".to_string()));
}

#[test]
fn shift_jis_items_are_read() {
    // The bytes of a Japanese font name, with a full-width space behind it.
    let bytes = [0x82, 0x6C, 0x82, 0x72, 0x20, 0x83, 0x53, 0x83, 0x56, 0x83, 0x62, 0x83, 0x4E, 0x81, 0x40];
    assert_eq!(
        sample(read_item(&bytes)),
        Some("\u{FF2D}\u{FF33} \u{30B4}\u{30B7}\u{30C3}\u{30AF}".to_string())
    );
    assert_eq!(sample(read_item(b"  Arial Black\r\n")), Some("Arial Black".to_string()));
    assert!(matches!(read_item(&[0x81, 0x40, 0x20]), ItemText::Blank));
    assert!(matches!(read_item(b"   "), ItemText::Blank));
    assert!(matches!(read_item(&[]), ItemText::Blank));
    // A lead byte without its trail byte.
    assert!(matches!(read_item(&[0x41, 0x82]), ItemText::Malformed));
    assert!(matches!(read_item(&[0xFD]), ItemText::Malformed));
}

#[test]
fn byte_order_mark_selects_the_encoding() {
    assert_eq!(
        sample(read_item(&[0xEF, 0xBB, 0xBF, 0xE3, 0x81, 0x82])),
        Some("\u{3042}".to_string())
    );
    assert_eq!(sample(read_item(&[0xFF, 0xFE, 0x41, 0x00])), Some("A".to_string()));
}

#[test]
fn ascii_items_stand_for_themselves() {
    for byte in 0u8..128 {
        let text = (byte as char).to_string();
        let expected = text.trim();
        match read_item(&[byte]) {
            ItemText::Sample(found) => assert_eq!(found, expected),
            ItemText::Blank => assert!(expected.is_empty()),
            ItemText::Malformed => panic!("ASCII is never malformed"),
        }
    }
}
