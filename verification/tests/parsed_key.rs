use pui::keys::{KeyCode, KeyPress, ParsedKey};

#[test]
fn test_parsed_key_simple() {
    let pk = ParsedKey::parse("g").unwrap();
    assert_eq!(pk.key, 'g');
    assert!(!pk.ctrl);
    assert!(!pk.alt);
}

#[test]
fn test_parsed_key_ctrl() {
    let pk = ParsedKey::parse("ctrl+p").unwrap();
    assert_eq!(pk.key, 'p');
    assert!(pk.ctrl);
    assert!(!pk.alt);
}

#[test]
fn test_parsed_key_alt() {
    let pk = ParsedKey::parse("alt+r").unwrap();
    assert_eq!(pk.key, 'r');
    assert!(!pk.ctrl);
    assert!(pk.alt);
}

#[test]
fn test_parsed_key_opt() {
    let pk = ParsedKey::parse("opt+q").unwrap();
    assert_eq!(pk.key, 'q');
    assert!(!pk.ctrl);
    assert!(pk.alt); // opt is alias for alt
}

#[test]
fn test_parsed_key_case_insensitive() {
    let pk = ParsedKey::parse("CTRL+P").unwrap();
    assert_eq!(pk.key, 'p');
    assert!(pk.ctrl);
}

#[test]
fn test_parsed_key_invalid() {
    assert!(ParsedKey::parse("").is_none());
    assert!(ParsedKey::parse("ctrl+").is_none());
    assert!(ParsedKey::parse("invalid+g").is_none());
    assert!(ParsedKey::parse("ctrl+ab").is_none()); // multi-char key
}

#[test]
fn test_parsed_key_trims_whitespace() {
    let pk = ParsedKey::parse("  ctrl+g ").unwrap();
    assert_eq!(pk.key, 'g');
    assert!(pk.ctrl);
    assert!(!pk.alt);
}

#[test]
fn test_parsed_key_trims_unicode_whitespace() {
    // non-breaking space and ideographic space count as whitespace,
    // exactly as `str::trim` strips them
    let pk = ParsedKey::parse("\u{00A0}g\u{00A0}").unwrap();
    assert_eq!(pk.key, 'g');
    assert!(!pk.ctrl);
    let pk = ParsedKey::parse("\u{3000}alt+r\u{2009}").unwrap();
    assert_eq!(pk.key, 'r');
    assert!(pk.alt);
}

#[test]
fn test_parsed_key_folds_unicode_case() {
    // U+212A (the Kelvin sign) lowercases to ASCII 'k' under
    // str::to_lowercase, so it names a binding for 'k'
    let pk = ParsedKey::parse("\u{212A}").unwrap();
    assert_eq!(pk.key, 'k');
    assert!(!pk.ctrl);
    let pk = ParsedKey::parse("ctrl+\u{212A}").unwrap();
    assert_eq!(pk.key, 'k');
    assert!(pk.ctrl);
    // a character whose lower case is more than one character stays invalid
    assert!(ParsedKey::parse("\u{0130}").is_none());
}

#[test]
fn test_parsed_key_matches_simple() {
    let pk = ParsedKey::parse("g").unwrap();
    let key_event = KeyPress::plain('g');
    assert!(pk.matches(&key_event));

    // Should not match with modifiers
    let key_event_ctrl = KeyPress { code: KeyCode::Char('g'), ctrl: true, alt: false };
    assert!(!pk.matches(&key_event_ctrl));
}

#[test]
fn test_parsed_key_matches_ctrl() {
    let pk = ParsedKey::parse("ctrl+p").unwrap();
    let key_event = KeyPress { code: KeyCode::Char('p'), ctrl: true, alt: false };
    assert!(pk.matches(&key_event));

    // Should not match without modifier
    let key_event_no_mod = KeyPress::plain('p');
    assert!(!pk.matches(&key_event_no_mod));
}

#[test]
fn test_parsed_key_matches_alt() {
    let pk = ParsedKey::parse("alt+r").unwrap();
    let key_event = KeyPress { code: KeyCode::Char('r'), ctrl: false, alt: true };
    assert!(pk.matches(&key_event));
}

#[test]
fn test_parsed_key_matches_upper_case_char() {
    // a shifted character still matches its lower-case binding
    let pk = ParsedKey::parse("g").unwrap();
    let key_event = KeyPress::plain('G');
    assert!(pk.matches(&key_event));
}
