use eoka::cdp::types::modifiers;
use eoka::page::keys::{key_to_codes, parse_key_combo};

#[test]
fn test_parse_key_combo_simple() {
    let (mods, key) = parse_key_combo("Enter");
    assert_eq!(mods, 0);
    assert_eq!(key, "Enter");
}

#[test]
fn test_parse_key_combo_ctrl() {
    let (mods, key) = parse_key_combo("Ctrl+A");
    assert_eq!(mods, modifiers::CTRL);
    assert_eq!(key, "A");
}

#[test]
fn test_parse_key_combo_cmd_shift() {
    let (mods, key) = parse_key_combo("Cmd+Shift+S");
    assert_eq!(mods, modifiers::META | modifiers::SHIFT);
    assert_eq!(key, "S");
}

#[test]
fn test_parse_key_combo_all_modifiers() {
    let (mods, key) = parse_key_combo("Ctrl+Alt+Shift+Cmd+X");
    assert_eq!(
        mods,
        modifiers::CTRL | modifiers::ALT | modifiers::SHIFT | modifiers::META
    );
    assert_eq!(key, "X");
}

#[test]
fn test_parse_key_combo_case_insensitive() {
    let (mods, key) = parse_key_combo("ctrl+a");
    assert_eq!(mods, modifiers::CTRL);
    assert_eq!(key, "a");
}

#[test]
fn test_key_to_codes_enter() {
    let (key, code, vk) = key_to_codes("Enter");
    assert_eq!(key, "Enter");
    assert_eq!(code, "Enter");
    assert_eq!(vk, Some(13));
}

#[test]
fn test_key_to_codes_tab() {
    let (key, code, vk) = key_to_codes("Tab");
    assert_eq!(key, "Tab");
    assert_eq!(code, "Tab");
    assert_eq!(vk, Some(9));
}

#[test]
fn test_key_to_codes_letter() {
    let (key, code, vk) = key_to_codes("a");
    assert_eq!(key, "a");
    assert_eq!(code, "KeyA");
    assert_eq!(vk, Some(65));
}

#[test]
fn test_key_to_codes_arrow() {
    let (key, code, vk) = key_to_codes("ArrowDown");
    assert_eq!(key, "ArrowDown");
    assert_eq!(code, "ArrowDown");
    assert_eq!(vk, Some(40));
}

#[test]
fn test_key_to_codes_case_insensitive() {
    let (key, code, vk) = key_to_codes("ESCAPE");
    assert_eq!(key, "Escape");
    assert_eq!(code, "Escape");
    assert_eq!(vk, Some(27));
}

#[test]
fn test_key_to_codes_alias() {
    let (key, code, vk) = key_to_codes("esc");
    assert_eq!(key, "Escape");
    assert_eq!(code, "Escape");
    assert_eq!(vk, Some(27));

    let (key, code, vk) = key_to_codes("up");
    assert_eq!(key, "ArrowUp");
    assert_eq!(code, "ArrowUp");
    assert_eq!(vk, Some(38));
}

#[test]
fn test_key_to_codes_unknown() {
    let (key, code, vk) = key_to_codes("SomeWeirdKey");
    assert_eq!(key, "SomeWeirdKey");
    assert_eq!(code, "SomeWeirdKey");
    assert_eq!(vk, None);
}

#[test]
fn every_named_key_has_its_code() {
    for n in 1..=12 {
        let name = format!("F{n}");
        let (key, code, vk) = key_to_codes(&name);
        assert_eq!((key, code, vk), (name.as_str(), name.as_str(), Some(111 + n)));
    }
    for c in 'a'..='z' {
        let upper = c.to_ascii_uppercase();
        let name = upper.to_string();
        let (key, code, vk) = key_to_codes(&name);
        assert_eq!(key, c.to_string());
        assert_eq!(code, format!("Key{upper}"));
        assert_eq!(vk, Some(upper as i32));
    }
    assert_eq!(key_to_codes("SPACE"), (" ", "Space", Some(32)));
    assert_eq!(key_to_codes("Return"), ("Enter", "Enter", Some(13)));
    assert_eq!(key_to_codes("PageDown"), ("PageDown", "PageDown", Some(34)));
}

#[test]
fn combos_of_modifiers_alone_and_odd_shapes() {
    assert_eq!(parse_key_combo("Ctrl"), (modifiers::CTRL, "Ctrl"));
    assert_eq!(parse_key_combo("Shift+Option"), (9, "Shift+Option"));
    assert_eq!(parse_key_combo("A+B"), (0, "B"));
    assert_eq!(parse_key_combo("Ctrl++"), (2, ""));
    assert_eq!(parse_key_combo(""), (0, ""));
    assert_eq!(parse_key_combo("Control+ctrl+x"), (2, "x"));
    // The Kelvin sign lowers to an ordinary k, as Unicode has it.
    assert_eq!(key_to_codes("\u{212a}"), ("k", "KeyK", Some(75)));
}
