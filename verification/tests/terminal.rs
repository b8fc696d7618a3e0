use termula::terminal::{parse_mode, Capability};

#[test]
fn test_parse_mode() {
    assert_eq!(parse_mode("kitty"), Some(Capability::KittyGraphics));
    assert_eq!(parse_mode("iterm2"), Some(Capability::ITerm2));
    assert_eq!(parse_mode("unicode"), Some(Capability::UnicodeArt));
    assert_eq!(parse_mode("inline"), Some(Capability::InlineUnicode));
    assert_eq!(parse_mode("auto"), None);
    assert_eq!(parse_mode("off"), None);
}
use termula::terminal::{detect_capability, is_dark_background};

#[test]
fn detect_capability_order() {
    assert_eq!(
        detect_capability(Some("WezTerm"), None, false, false),
        Capability::KittyGraphics
    );
    assert_eq!(
        detect_capability(Some("ghostty"), None, false, true),
        Capability::KittyGraphics
    );
    assert_eq!(
        detect_capability(Some("iTerm.app"), Some("xterm-kitty"), true, false),
        Capability::KittyGraphics
    );
    assert_eq!(
        detect_capability(Some("iTerm.app"), Some("xterm-256color"), true, false),
        Capability::ITerm2
    );
    assert_eq!(
        detect_capability(Some("Apple_Terminal"), Some("xterm-kitty"), false, false),
        Capability::KittyGraphics
    );
    assert_eq!(
        detect_capability(None, Some("xterm"), true, true),
        Capability::KittyGraphics
    );
    assert_eq!(
        detect_capability(None, Some("xterm"), false, true),
        Capability::ITerm2
    );
    assert_eq!(
        detect_capability(None, None, false, false),
        Capability::UnicodeArt
    );
}

#[test]
fn dark_background_from_colorfgbg() {
    assert!(is_dark_background(None));
    assert!(is_dark_background(Some("15;0")));
    assert!(!is_dark_background(Some("0;15")));
    assert!(!is_dark_background(Some("0;default;8")));
    assert!(is_dark_background(Some("0;+7")));
    assert!(is_dark_background(Some("0;256")));
    assert!(is_dark_background(Some("0;abc")));
    assert!(!is_dark_background(Some("12")));
    assert!(is_dark_background(Some("0;")));
}
