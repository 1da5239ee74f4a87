use aviutl2_font_select_helper::candidate::ComboCandidate;
use aviutl2_font_select_helper::scan::{ComboQuery, ComboReply, ComboScan};

struct Window {
    class: &'static str,
    count: isize,
    items: Vec<Vec<u8>>,
    style: isize,
    visible: bool,
}

fn window(items: &[&[u8]]) -> Window {
    Window {
        class: "ComboBox",
        count: items.len() as isize,
        items: items.iter().map(|item| item.to_vec()).collect(),
        style: 0x5021_0003,
        visible: true,
    }
}

/// What the window answers.
fn answer(window: &Window, query: ComboQuery) -> ComboReply {
    match query {
        ComboQuery::ClassName => {
            let mut units: Vec<u16> = window.class.encode_utf16().collect();
            let len = units.len() as i32;
            units.resize(64, 0);
            ComboReply::ClassName { units, len }
        }
        ComboQuery::ItemCount => ComboReply::ItemCount(window.count),
        ComboQuery::TextLength { index } => {
            ComboReply::TextLength(window.items[index].len() as isize)
        }
        ComboQuery::Text { index, buffer_len } => {
            assert_eq!(buffer_len, window.items[index].len() + 1);
            let mut raw = window.items[index].clone();
            let copied = raw.len() as isize;
            raw.resize(buffer_len, 0);
            ComboReply::Text { raw, copied }
        }
        ComboQuery::Style => ComboReply::Style(window.style),
        ComboQuery::Visibility => ComboReply::Visibility(window.visible),
        ComboQuery::Nothing => unreachable!(),
    }
}

/// Answers a scan from the window, and tells of which items the length was
/// asked for.
fn scan(window: &Window) -> (Option<ComboCandidate>, Vec<usize>) {
    let mut scan = ComboScan::new(0x77);
    let mut asked: Vec<usize> = Vec::new();
    loop {
        let query = scan.query();
        match query {
            ComboQuery::Nothing => return (scan.into_candidate(), asked),
            ComboQuery::TextLength { index } => asked.push(index),
            _ => {}
        }
        scan = scan.answer(answer(window, query));
    }
}

#[test]
fn font_list_is_found() {
    let mut fonts = window(&[b"Arial", b" Meiryo UI ", &[0x82, 0x6C], b"", b"Consolas"]);
    fonts.count = 120;
    let (found, asked) = scan(&fonts);
    let found = found.unwrap();
    assert_eq!(asked, vec![0, 1, 2, 3, 4]);
    assert_eq!(found.hwnd, 0x77);
    assert_eq!(found.count, 120);
    assert_eq!(found.samples, vec!["Arial", "Meiryo UI", "\u{FF2D}", "Consolas"]);
    assert_eq!(found.decode_errors, 0);
    assert!(found.is_dropdownlist && found.visible && found.enabled);
    assert_eq!(found.score, 11);
}

#[test]
fn other_windows_are_no_candidates() {
    let mut edit = window(&[b"Arial"]);
    edit.class = "Edit";
    assert!(scan(&edit).0.is_none());
    let mut nameless = window(&[b"Arial"]);
    nameless.class = "";
    assert!(scan(&nameless).0.is_none());
    let empty = window(&[]);
    assert!(scan(&empty).0.is_none());
    let mut failing = window(&[]);
    failing.count = -1;
    assert!(scan(&failing).0.is_none());
}

#[test]
fn few_items_are_all_read() {
    let (found, asked) = scan(&window(&[b"a", b"b"]));
    assert_eq!(asked, vec![0, 1]);
    let found = found.unwrap();
    assert_eq!(found.samples, vec!["a", "b"]);
    assert_eq!(found.score, 7);
}

#[test]
fn bad_and_blank_items_are_told_apart() {
    let (found, _) = scan(&window(&[&[0x82], b"  ", &[0xFD, 0xFD], b"x"]));
    let found = found.unwrap();
    assert_eq!(found.decode_errors, 2);
    assert_eq!(found.samples, vec!["x"]);
    assert_eq!(found.score, 5);
}

#[test]
fn style_bits_count() {
    let mut fonts = window(&[b"a"]);
    fonts.style = 0x0800_0002;
    fonts.visible = false;
    let found = scan(&fonts).0.unwrap();
    assert!(!found.is_dropdownlist && !found.visible && !found.enabled);
    assert_eq!(found.score, 1);
    fonts.style = -1;
    let found = scan(&fonts).0.unwrap();
    assert!(found.is_dropdownlist && !found.enabled);
    fonts.style = 0x0000_0001;
    let found = scan(&fonts).0.unwrap();
    assert!(!found.is_dropdownlist && found.enabled);
}

#[test]
fn text_that_was_not_copied_is_skipped() {
    let mut scan = ComboScan::new(1);
    scan = scan.answer(ComboReply::ClassName {
        units: "ComboBox".encode_utf16().collect(),
        len: 8,
    });
    scan = scan.answer(ComboReply::ItemCount(1));
    scan = scan.answer(ComboReply::TextLength(3));
    assert!(matches!(scan.query(), ComboQuery::Text { index: 0, buffer_len: 4 }));
    scan = scan.answer(ComboReply::Text { raw: vec![65, 66, 67, 0], copied: -1 });
    assert!(matches!(scan.query(), ComboQuery::Style));
    scan = scan.answer(ComboReply::Style(0));
    scan = scan.answer(ComboReply::Visibility(true));
    let found = scan.into_candidate().unwrap();
    assert!(found.samples.is_empty());
    assert_eq!(found.decode_errors, 0);
}

#[test]
fn answers_to_other_questions_are_ignored() {
    let scan = ComboScan::new(1).answer(ComboReply::Style(3));
    assert!(matches!(scan.query(), ComboQuery::ClassName));
    assert!(scan.into_candidate().is_none());
}

/// All that a scan of the window asks, in order.
fn queries(window: &Window) -> Vec<String> {
    let mut scan = ComboScan::new(0x77);
    let mut asked: Vec<String> = Vec::new();
    loop {
        let query = scan.query();
        let reply = match query {
            ComboQuery::Nothing => return asked,
            _ => answer(window, query),
        };
        asked.push(format!("{:?}", query));
        scan = scan.answer(reply);
    }
}

#[test]
fn items_are_asked_for_once_and_in_order() {
    let few = window(&[b"Arial", b"", b"MS"]);
    assert_eq!(
        queries(&few),
        vec![
            "ClassName",
            "ItemCount",
            "TextLength { index: 0 }",
            "Text { index: 0, buffer_len: 6 }",
            "TextLength { index: 1 }",
            "TextLength { index: 2 }",
            "Text { index: 2, buffer_len: 3 }",
            "Style",
            "Visibility",
        ]
    );
    let blank: [&[u8]; 7] = [b""; 7];
    let lengths: Vec<String> = (0..5).map(|i| format!("TextLength {{ index: {} }}", i)).collect();
    let asked = queries(&window(&blank));
    assert_eq!(asked[2..7], lengths);
    assert_eq!(asked[7..], ["Style", "Visibility"]);
    assert_eq!(queries(&window(&[])), vec!["ClassName", "ItemCount"]);
    let mut other = window(&[b"Arial"]);
    other.class = "Button";
    assert_eq!(queries(&other), vec!["ClassName"]);
}
