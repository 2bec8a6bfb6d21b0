use herdr_recent_navigator::models::{
    Action, KeyBinding, KeyCode, KeyEvent, KeyModifiers, Keybindings,
};

fn key(code: KeyCode, bits: u8) -> KeyEvent {
    KeyEvent { code, modifiers: KeyModifiers { bits } }
}

#[test]
fn test_key_binding_parses_names_and_modifiers() {
    let b: KeyBinding = "C-S-n".parse().unwrap();
    assert_eq!(b.code, KeyCode::Char('n'));
    assert_eq!(b.modifiers.bits, KeyModifiers::CONTROL | KeyModifiers::SHIFT);
    let b: KeyBinding = "S-Tab".parse().unwrap();
    assert_eq!(b.code, KeyCode::BackTab);
    assert_eq!(b.modifiers.bits, KeyModifiers::SHIFT);
    assert_eq!("BackTab".parse::<KeyBinding>().unwrap().code, KeyCode::BackTab);
    assert_eq!("Space".parse::<KeyBinding>().unwrap().code, KeyCode::Char(' '));
    let b: KeyBinding = "M-a".parse().unwrap();
    assert_eq!(b.modifiers.bits, KeyModifiers::ALT);
    assert_eq!("A-a".parse::<KeyBinding>().unwrap(), b);
    assert_eq!("Esc".parse::<KeyBinding>().unwrap().modifiers, KeyModifiers::empty());
}

#[test]
fn test_key_binding_rejects_unknown() {
    assert_eq!("Foo".parse::<KeyBinding>(), Err("Unknown key: Foo".to_string()));
    assert_eq!("C-é".parse::<KeyBinding>(), Err("Unknown key: C-é".to_string()));
    assert!("".parse::<KeyBinding>().is_err());
    assert!("C-".parse::<KeyBinding>().is_err());
}

#[test]
fn test_default_keybindings_actions() {
    let kb = Keybindings::default();
    assert_eq!(kb.action_for(&key(KeyCode::Tab, 0)), Some(Action::NextCategory));
    assert_eq!(kb.action_for(&key(KeyCode::BackTab, KeyModifiers::SHIFT)), Some(Action::PreviousCategory));
    assert_eq!(kb.action_for(&key(KeyCode::Up, 0)), Some(Action::MoveUp));
    assert_eq!(kb.action_for(&key(KeyCode::Char('p'), KeyModifiers::CONTROL)), Some(Action::MoveUp));
    assert_eq!(kb.action_for(&key(KeyCode::Down, 0)), Some(Action::MoveDown));
    assert_eq!(kb.action_for(&key(KeyCode::Char('n'), KeyModifiers::CONTROL)), Some(Action::MoveDown));
    assert_eq!(kb.action_for(&key(KeyCode::Enter, 0)), Some(Action::Select));
    assert_eq!(kb.action_for(&key(KeyCode::Esc, 0)), Some(Action::Dismiss));
    assert_eq!(kb.action_for(&key(KeyCode::Char('c'), KeyModifiers::CONTROL)), Some(Action::ForceQuit));
    assert_eq!(kb.action_for(&key(KeyCode::Backspace, 0)), Some(Action::Backspace));
    assert_eq!(kb.action_for(&key(KeyCode::Char('x'), 0)), None);
    assert_eq!(kb.action_for(&key(KeyCode::Tab, KeyModifiers::SUPER)), None);
    assert_eq!(kb.action_for(&key(KeyCode::Other, 0)), None);
}

#[test]
fn test_custom_keybindings_first_action_wins() {
    let mut kb = Keybindings::default();
    kb.move_up = vec!["C-k".into(), "bogus key".into()];
    kb.select = vec!["C-k".into()];
    assert_eq!(kb.action_for(&key(KeyCode::Char('k'), KeyModifiers::CONTROL)), Some(Action::MoveUp));
    assert_eq!(kb.action_for(&key(KeyCode::Up, 0)), None);
}
