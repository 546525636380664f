use chip8::keyboard::Key;
use chip8::keyboard::KeyState;
use chip8::keyboard::KeyWait;
use chip8::keyboard::Keyboard;
use chip8::keyboard::KeyboardMessage;
use chip8::keyboard_map::KeyboardMap;

#[test]
fn keys_are_numbered_from_zero() {
    assert_eq!(Key::from(0), Some(Key::Key0));
    assert_eq!(Key::from(9), Some(Key::Key9));
    assert_eq!(Key::from(10), Some(Key::KeyA));
    assert_eq!(Key::from(15), Some(Key::KeyF));
    assert_eq!(Key::from(16), None);
    assert_eq!(Key::from(255), None);
    for v in 0..16u8 {
        assert_eq!(Key::from(v).unwrap().code(), v);
    }
}

#[test]
fn messages_say_which_key_went_where() {
    let m = KeyboardMessage::new(KeyState::Down, Key::Key3);
    assert!(m.state == KeyState::Down && m.key == Key::Key3);
    assert_eq!(KeyboardMessage::down(Key::Key3), m);
    let u = KeyboardMessage::up(Key::KeyA);
    assert!(u.state == KeyState::Up && u.key == Key::KeyA);
    assert_eq!(KeyboardMessage::new(KeyState::Up, Key::KeyA), u);
}

#[test]
fn test_is_key_down_works() {
    let mut kb = Keyboard::new();

    kb.post(KeyboardMessage::new(KeyState::Down, Key::Key0));

    assert!(kb.is_key_down(Key::Key0));
    assert!(!kb.is_key_down(Key::Key1));

    kb.post(KeyboardMessage::new(KeyState::Up, Key::Key0));

    assert!(!kb.is_key_down(Key::Key0));
    assert!(!kb.is_key_down(Key::Key1));
}

#[test]
fn test_wait_for_key_press_works() {
    let mut kb = Keyboard::new();
    assert_eq!(kb.wait_for_key_press(), KeyWait::Pending);

    kb.post(KeyboardMessage::new(KeyState::Down, Key::Key0));

    let k = kb.wait_for_key_press();
    assert_eq!(k, KeyWait::Pressed(Key::Key0));
}

#[test]
fn a_wait_ends_with_the_first_key_that_goes_down() {
    let mut kb = Keyboard::default();
    // nobody waits yet
    assert_eq!(kb.post(KeyboardMessage::down(Key::Key7)), None);
    assert_eq!(kb.wait_for_key_press(), KeyWait::Pending);
    assert_eq!(kb.wait_for_key_press(), KeyWait::Pending);
    // a release ends no wait, and a key that is down already does not go down
    assert_eq!(kb.post(KeyboardMessage::up(Key::Key1)), None);
    assert_eq!(kb.post(KeyboardMessage::down(Key::Key7)), None);
    assert_eq!(kb.wait_for_key_press(), KeyWait::Pending);
    assert_eq!(kb.post(KeyboardMessage::down(Key::Key0)), Some(Key::Key0));
    // the table was brought up to date before the wait ended
    assert!(kb.is_key_down(Key::Key0));
    // later presses do not pile up
    assert_eq!(kb.post(KeyboardMessage::down(Key::Key1)), None);
    assert_eq!(kb.wait_for_key_press(), KeyWait::Pressed(Key::Key0));
    assert_eq!(kb.wait_for_key_press(), KeyWait::Pending);
}

#[test]
fn a_wait_can_be_called_off() {
    let mut kb = Keyboard::new();
    assert_eq!(kb.wait_for_key_press(), KeyWait::Pending);
    kb.interrupt();
    assert_eq!(kb.wait_for_key_press(), KeyWait::Interrupted);
    // it is told once
    assert_eq!(kb.wait_for_key_press(), KeyWait::Pending);
    // before the wait began
    let mut kb = Keyboard::new();
    kb.interrupt();
    assert!(!kb.awaiting());
    assert_eq!(kb.wait_for_key_press(), KeyWait::Interrupted);
    assert!(!kb.awaiting());
    // a key press that was not collected goes with the wait
    assert_eq!(kb.wait_for_key_press(), KeyWait::Pending);
    assert!(kb.awaiting());
    assert_eq!(kb.post(KeyboardMessage::down(Key::Key2)), Some(Key::Key2));
    assert!(kb.awaiting());
    kb.interrupt();
    assert_eq!(kb.wait_for_key_press(), KeyWait::Interrupted);
    assert!(!kb.awaiting());
    assert_eq!(kb.wait_for_key_press(), KeyWait::Pending);
}

#[test]
fn the_default_map_takes_hexadecimal_digits() {
    let m = KeyboardMap::default();
    assert_eq!(m.key("0"), Some(Key::Key0));
    assert_eq!(m.key("9"), Some(Key::Key9));
    assert_eq!(m.key("a"), Some(Key::KeyA));
    assert_eq!(m.key("f"), Some(Key::KeyF));
    assert_eq!(m.key("g"), None);
    assert_eq!(m.key("A"), None);
    assert_eq!(m.key(""), None);
    assert_eq!(m.key("10"), None);
}

#[test]
fn a_map_from_entries() {
    let m = KeyboardMap::from_entries(vec![
        ("0".to_string(), 0x0),
        ("1".to_string(), 0x1),
        ("q".to_string(), 0x4),
        ("bad".to_string(), 0x10),
        ("q".to_string(), 0x5),
    ]);
    assert!(matches!(m.key("0"), Some(Key::Key0)));
    assert!(matches!(m.key("1"), Some(Key::Key1)));
    // of two entries the later counts
    assert_eq!(m.key("q"), Some(Key::Key5));
    // a number that is no key's
    assert_eq!(m.key("bad"), None);
    assert_eq!(m.key("2"), None);
    assert_eq!(KeyboardMap::from_entries(vec![]).key("0"), None);
    let entries = vec![("x".to_string(), 3u8), ("y".to_string(), 4u8)];
    assert_eq!(KeyboardMap::from_entries(entries.clone()).into_entries(), entries);
}
