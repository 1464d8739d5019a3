use em_cockpit::system::hotkey::{HotkeyAction, HotkeyError, HotkeyManager, Modifier, Shortcut};

#[test]
fn test_parse_simple_shortcut() {
    let shortcut = Shortcut::parse("Alt+Space").unwrap();

    assert_eq!(shortcut.modifiers.len(), 1);
    assert_eq!(shortcut.modifiers[0], Modifier::Alt);
    assert_eq!(shortcut.key, "Space");
}

#[test]
fn test_parse_multi_modifier_shortcut() {
    let shortcut = Shortcut::parse("Ctrl+Shift+A").unwrap();

    assert_eq!(shortcut.modifiers.len(), 2);
    assert!(shortcut.modifiers.contains(&Modifier::Ctrl));
    assert!(shortcut.modifiers.contains(&Modifier::Shift));
    assert_eq!(shortcut.key, "A");
}

#[test]
fn test_parse_case_insensitive() {
    let shortcut = Shortcut::parse("alt+SPACE").unwrap();

    assert_eq!(shortcut.modifiers[0], Modifier::Alt);
    assert_eq!(shortcut.key, "Space");
}

#[test]
fn test_parse_option_as_alt() {
    let shortcut = Shortcut::parse("Option+Space").unwrap();
    assert_eq!(shortcut.modifiers[0], Modifier::Alt);
}

#[test]
fn test_parse_cmd_as_meta() {
    let shortcut = Shortcut::parse("Cmd+K").unwrap();
    assert_eq!(shortcut.modifiers[0], Modifier::Meta);
}

#[test]
fn test_parse_empty_returns_error() {
    let result = Shortcut::parse("");
    assert!(result.is_err());
    assert!(matches!(result.unwrap_err(), HotkeyError::InvalidFormat(_)));
}

#[test]
fn test_parse_no_modifier_returns_error() {
    let result = Shortcut::parse("Space");
    assert!(result.is_err());
    assert!(matches!(result.unwrap_err(), HotkeyError::InvalidFormat(_)));
}

#[test]
fn test_parse_invalid_modifier_returns_error() {
    let result = Shortcut::parse("InvalidMod+A");
    assert!(result.is_err());
    assert!(matches!(result.unwrap_err(), HotkeyError::UnsupportedModifier(_)));
}

#[test]
fn test_parse_function_keys() {
    let shortcut = Shortcut::parse("Ctrl+F1").unwrap();
    assert_eq!(shortcut.key, "F1");

    let shortcut = Shortcut::parse("Alt+F12").unwrap();
    assert_eq!(shortcut.key, "F12");
}

#[test]
fn test_shortcut_to_accelerator() {
    let shortcut = Shortcut::parse("Alt+Space").unwrap();
    assert_eq!(shortcut.to_accelerator(), "Alt+Space");

    let shortcut = Shortcut::parse("Ctrl+Shift+A").unwrap();
    let accel = shortcut.to_accelerator();
    assert!(accel.contains("Ctrl"));
    assert!(accel.contains("Shift"));
    assert!(accel.contains("A"));
}

#[test]
fn test_shortcut_display() {
    let shortcut = Shortcut::parse("Alt+Space").unwrap();
    let display = shortcut.to_string();
    assert!(display.contains("Alt"));
    assert!(display.contains("Space"));
}

#[test]
fn test_shortcut_conflicts_with_same() {
    let s1 = Shortcut::parse("Alt+Space").unwrap();
    let s2 = Shortcut::parse("Alt+Space").unwrap();
    assert!(s1.conflicts_with(&s2));
}

#[test]
fn test_shortcut_no_conflict_different_key() {
    let s1 = Shortcut::parse("Alt+Space").unwrap();
    let s2 = Shortcut::parse("Alt+Enter").unwrap();
    assert!(!s1.conflicts_with(&s2));
}

#[test]
fn test_shortcut_no_conflict_different_modifier() {
    let s1 = Shortcut::parse("Alt+Space").unwrap();
    let s2 = Shortcut::parse("Ctrl+Space").unwrap();
    assert!(!s1.conflicts_with(&s2));
}

#[test]
fn test_conflicts_with_system() {
    let copy = Shortcut::parse("Ctrl+C").unwrap();
    assert!(copy.conflicts_with_system());

    let custom = Shortcut::parse("Alt+Space").unwrap();
    assert!(!custom.conflicts_with_system());
}

#[test]
fn test_register_hotkey_successfully() {
    let mut manager = HotkeyManager::new();
    let shortcut = Shortcut::parse("Alt+Space").unwrap();

    let result = manager.register(shortcut, HotkeyAction::OpenFlightConsole);
    assert!(result.is_ok());
}

#[test]
fn test_register_duplicate_hotkey_fails() {
    let mut manager = HotkeyManager::new();
    let shortcut = Shortcut::parse("Alt+Space").unwrap();

    manager.register(shortcut.clone(), HotkeyAction::OpenFlightConsole).unwrap();

    let result = manager.register(shortcut, HotkeyAction::OpenRadarPanel);
    assert!(result.is_err());
    assert!(matches!(result.unwrap_err(), HotkeyError::Conflict(_)));
}

#[test]
fn test_register_system_shortcut_fails() {
    let mut manager = HotkeyManager::new();
    let shortcut = Shortcut::parse("Ctrl+C").unwrap();

    let result = manager.register(shortcut, HotkeyAction::OpenFlightConsole);
    assert!(result.is_err());
    assert!(matches!(result.unwrap_err(), HotkeyError::Conflict(_)));
}

#[test]
fn test_unregister_hotkey() {
    let mut manager = HotkeyManager::new();
    let shortcut = Shortcut::parse("Alt+Space").unwrap();

    manager.register(shortcut.clone(), HotkeyAction::OpenFlightConsole).unwrap();
    assert!(manager.is_registered(&shortcut));

    manager.unregister(&shortcut).unwrap();
    assert!(!manager.is_registered(&shortcut));
}

#[test]
fn test_unregister_nonexistent_fails() {
    let mut manager = HotkeyManager::new();
    let shortcut = Shortcut::parse("Alt+Space").unwrap();

    let result = manager.unregister(&shortcut);
    assert!(result.is_err());
}

#[test]
fn test_unregister_all() {
    let mut manager = HotkeyManager::new();

    manager
        .register(Shortcut::parse("Alt+Space").unwrap(), HotkeyAction::OpenFlightConsole)
        .unwrap();
    manager.register(Shortcut::parse("Ctrl+1").unwrap(), HotkeyAction::OpenRadarPanel).unwrap();

    assert_eq!(manager.get_all_registered().len(), 2);

    manager.unregister_all().unwrap();

    assert_eq!(manager.get_all_registered().len(), 0);
}

#[test]
fn test_get_action() {
    let mut manager = HotkeyManager::new();
    let shortcut = Shortcut::parse("Alt+Space").unwrap();

    manager.register(shortcut.clone(), HotkeyAction::OpenFlightConsole).unwrap();

    let action = manager.get_action(&shortcut);
    assert_eq!(action, Some(HotkeyAction::OpenFlightConsole));
}

#[test]
fn test_get_action_not_found() {
    let manager = HotkeyManager::new();
    let shortcut = Shortcut::parse("Alt+Space").unwrap();

    let action = manager.get_action(&shortcut);
    assert_eq!(action, None);
}

#[test]
fn test_is_active() {
    let mut manager = HotkeyManager::new();

    assert!(!manager.is_active());

    manager.set_active(true);
    assert!(manager.is_active());

    manager.set_active(false);
    assert!(!manager.is_active());
}

#[test]
fn test_modifier_from_string() {
    assert_eq!(Modifier::from_str_case_insensitive("alt"), Some(Modifier::Alt));
    assert_eq!(Modifier::from_str_case_insensitive("CTRL"), Some(Modifier::Ctrl));
    assert_eq!(Modifier::from_str_case_insensitive("Command"), Some(Modifier::Meta));
    assert_eq!(Modifier::from_str_case_insensitive("invalid"), None);
}

#[test]
fn parse_trims_parts_and_lists_each_modifier_once() {
    let shortcut = Shortcut::parse(" ctrl + Control +shift+ a ").unwrap();
    assert_eq!(shortcut.modifiers, vec![Modifier::Ctrl, Modifier::Shift]);
    assert_eq!(shortcut.key, "A");
    assert_eq!(shortcut.to_accelerator(), "Ctrl+Shift+A");
    let meta = Shortcut::parse("win+digit7").unwrap();
    assert_eq!(meta.key, "7");
    assert_eq!(meta.to_accelerator(), "Super+7");
    assert_eq!(meta.to_string(), "Win+7");
    let named = Shortcut::parse("Alt+KeyQ").unwrap();
    assert_eq!(named.key, "Q");
}

#[test]
fn parse_reports_each_error_with_its_part() {
    match Shortcut::parse("Ctrl+") {
        Err(HotkeyError::UnsupportedKey(key)) => assert_eq!(key, ""),
        other => panic!("unexpected {:?}", other),
    }
    match Shortcut::parse("Hyper+Bogus") {
        Err(HotkeyError::UnsupportedModifier(part)) => assert_eq!(part, "Hyper"),
        other => panic!("unexpected {:?}", other),
    }
    match Shortcut::parse("Ctrl+Bogus") {
        Err(HotkeyError::UnsupportedKey(key)) => assert_eq!(key, "Bogus"),
        other => panic!("unexpected {:?}", other),
    }
    match Shortcut::parse("A") {
        Err(e) => assert_eq!(
            e.to_string(),
            "Invalid shortcut format: Shortcut must have at least one modifier"
        ),
        other => panic!("unexpected {:?}", other),
    }
    match Shortcut::parse("Ctrl+key\u{e9}") {
        Err(HotkeyError::UnsupportedKey(key)) => assert_eq!(key, "key\u{e9}"),
        other => panic!("unexpected {:?}", other),
    }
}

#[test]
fn normalize_key_uses_the_case_rules_of_the_standard_library() {
    assert_eq!(Shortcut::normalize_key("RETURN").unwrap(), "Enter");
    assert_eq!(Shortcut::normalize_key("esc").unwrap(), "Escape");
    assert_eq!(Shortcut::normalize_key("PageDown").unwrap(), "PageDown");
    assert_eq!(Shortcut::normalize_key("z").unwrap(), "Z");
    assert_eq!(Shortcut::normalize_key("5").unwrap(), "5");
    assert_eq!(Shortcut::normalize_lowercase("arrowleft").unwrap(), "ArrowLeft");
    assert!(Shortcut::normalize_lowercase("-").is_none());
    assert!(Shortcut::normalize_key("\u{e9}").is_err());
}

#[test]
fn conflicts_ignore_modifier_order_and_key_case() {
    let a = Shortcut::new(vec![Modifier::Ctrl, Modifier::Shift], "a");
    let b = Shortcut::new(vec![Modifier::Shift, Modifier::Ctrl], "A");
    let c = Shortcut::new(vec![Modifier::Shift, Modifier::Ctrl, Modifier::Ctrl], "A");
    assert!(a.conflicts_with(&b));
    assert!(b.conflicts_with(&a));
    assert!(!a.conflicts_with(&c));
    assert!(Shortcut::with_modifier(Modifier::Meta, "Space").conflicts_with_system());
    assert!(Shortcut::with_modifier(Modifier::Alt, "F4").conflicts_with_system());
    assert!(!Shortcut::with_modifier(Modifier::Alt, "F5").conflicts_with_system());
}

#[test]
fn manager_messages_and_removal() {
    let mut manager = HotkeyManager::new();
    let first = Shortcut::parse("Ctrl+Shift+A").unwrap();
    let second = Shortcut::parse("Alt+Space").unwrap();
    manager.register(first.clone(), HotkeyAction::Custom("one".to_string())).unwrap();
    manager.register(second.clone(), HotkeyAction::OpenHangar).unwrap();
    match manager.register(Shortcut::parse("shift+ctrl+a").unwrap(), HotkeyAction::OpenHangar) {
        Err(e) => {
            assert_eq!(e.to_string(), "Hotkey conflict: Shortcut Shift+Ctrl+A is already registered")
        },
        other => panic!("unexpected {:?}", other),
    }
    match manager.register(Shortcut::parse("Ctrl+V").unwrap(), HotkeyAction::OpenHangar) {
        Err(e) => assert_eq!(
            e.to_string(),
            "Hotkey conflict: Shortcut Ctrl+V conflicts with system shortcuts"
        ),
        other => panic!("unexpected {:?}", other),
    }
    assert_eq!(manager.get_all_registered().len(), 2);
    assert_eq!(manager.get_action(&first), Some(HotkeyAction::Custom("one".to_string())));
    manager.unregister(&first).unwrap();
    assert_eq!(manager.get_all_registered().len(), 1);
    assert_eq!(manager.get_all_registered()[0].0, second);
    match manager.unregister(&first) {
        Err(e) => assert_eq!(
            e.to_string(),
            "Failed to unregister hotkey: Shortcut Ctrl+Shift+A was not registered"
        ),
        other => panic!("unexpected {:?}", other),
    }
    let parsed: Shortcut = "Alt+Tab".parse().unwrap();
    assert!(parsed.conflicts_with_system());
}

#[test]
fn every_hotkey_error_has_its_message() {
    assert_eq!(
        HotkeyError::RegistrationFailed("x".to_string()).to_string(),
        "Failed to register hotkey: x"
    );
    assert_eq!(HotkeyError::UnsupportedKey("x".to_string()).to_string(), "Unsupported key: x");
    assert_eq!(
        HotkeyError::UnsupportedModifier("x".to_string()).to_string(),
        "Unsupported modifier: x"
    );
    assert_eq!(Modifier::Meta.as_str(), "Win");
    assert_eq!(Modifier::Meta.to_accelerator(), "Super");
    assert_eq!(Modifier::Shift.to_string(), "Shift");
    assert_eq!(Modifier::from_lowercase("super"), Some(Modifier::Meta));
    assert_eq!(Modifier::from_lowercase("Super"), None);
    assert!(Shortcut::is_system_shortcut("ctrl+w"));
    assert!(!Shortcut::is_system_shortcut("Ctrl+W"));
}
