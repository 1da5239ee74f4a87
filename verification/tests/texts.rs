use aviutl2_font_select_helper::plugin::{plugin_information, spike_status};
use aviutl2_font_select_helper::text::{
    push_bool, push_decimal, push_hwnd, push_number_list, push_string_list, trim, white_space,
};
use aviutl2_font_select_helper::wide::{debug_log_units, encode_utf16, is_combo_box};

#[test]
fn decimal_numerals() {
    for n in [0i128, 7, 10, 99, 100, 4_294_967_295, -1, -10, i128::from(i64::MIN), i128::MIN, i128::MAX] {
        let mut text = String::from("n=");
        push_decimal(&mut text, n);
        assert_eq!(text, format!("n={}", n));
    }
}

#[test]
fn window_handles_look_as_the_window_system_shows_them() {
    for raw in [0usize, 9, 10, 15, 16, 0x1f, 0x30a1e, usize::MAX] {
        let mut text = String::new();
        push_hwnd(&mut text, raw);
        assert_eq!(text, format!("HWND({:?})", core::ptr::without_provenance::<u8>(raw)));
    }
    let mut text = String::new();
    push_hwnd(&mut text, 0x1f);
    assert_eq!(text, "HWND(0x1f)");
}

#[test]
fn truth_values() {
    let mut text = String::new();
    push_bool(&mut text, true);
    push_bool(&mut text, false);
    assert_eq!(text, "truefalse");
}

#[test]
fn lists() {
    let lists: [Vec<String>; 4] = [
        vec![],
        vec!["Arial".to_string()],
        vec!["a \"b\"".to_string(), "c\\d\n".to_string(), "\u{3042}".to_string()],
        vec!["\u{301}".to_string(), String::new()],
    ];
    for list in lists {
        let mut text = String::from(">");
        push_string_list(&mut text, &list);
        assert_eq!(text, format!(">{:?}", list));
    }
    for list in [vec![], vec![5u64], vec![80, 220, 500], vec![u64::MAX, 0]] {
        let mut text = String::new();
        push_number_list(&mut text, &list);
        assert_eq!(text, format!("{:?}", list));
    }
}

#[test]
fn white_space_is_that_of_unicode() {
    for c in '\u{0}'..=char::MAX {
        assert_eq!(white_space(c), c.is_whitespace());
    }
}

#[test]
fn trimming() {
    for text in ["", " ", "a", " a", "a ", "\u{3000}a b\t\n", "\u{200b}a\u{200b}", "  \u{85}  "] {
        assert_eq!(trim(text), text.trim());
        assert_eq!(trim(&trim(text)), trim(text));
    }
    assert_eq!(trim("  MS Gothic "), "MS Gothic");
}

#[test]
fn wide_text() {
    for text in ["", "ComboBox", "\u{3042}\u{1F600}x", "\u{FFFF}\u{10000}\u{10FFFF}"] {
        let units: Vec<u16> = text.encode_utf16().collect();
        assert_eq!(encode_utf16(text), units);
        assert_eq!(String::from_utf16_lossy(&encode_utf16(text)), text);
        let mut line = units.clone();
        line.push(0);
        assert_eq!(debug_log_units(text), line);
    }
    assert_eq!(debug_log_units("A\u{1F600}"), vec![0x41, 0xD83D, 0xDE00, 0]);
}

#[test]
fn combo_box_classes() {
    let mut buffer = [0u16; 64];
    for (i, unit) in "ComboBoxEx32".encode_utf16().enumerate() {
        buffer[i] = unit;
    }
    assert!(is_combo_box(&buffer, 8));
    assert!(!is_combo_box(&buffer, 7));
    assert!(!is_combo_box(&buffer, 9));
    assert!(!is_combo_box(&buffer, 12));
    assert!(!is_combo_box(&buffer, 0));
    assert!(!is_combo_box(&buffer, -1));
    assert!(!is_combo_box(&buffer, 64));
    for name in ["combobox", "ComboLBox", "Edit", ""] {
        let units: Vec<u16> = name.encode_utf16().collect();
        assert!(!is_combo_box(&units, units.len() as i32));
    }
    let broken = [0xD800u16, 0x43, 0x6F, 0x6D, 0x62, 0x6F, 0x42, 0x6F, 0x78];
    assert!(!is_combo_box(&broken, 9));
    assert_ne!(String::from_utf16_lossy(&broken), "ComboBox");
}

#[test]
fn plugin_texts() {
    assert_eq!(
        plugin_information("0.1.0"),
        "ComboBox probe module for AviUtl2 (spike v5) / v0.1.0"
    );
    assert_eq!(spike_status(), "Combo probe v6 identification spike is active");
}
