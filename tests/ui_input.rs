use soliloquy_drivers::ui_input::{
    Key, KeyEvent, KeyEventType, KeyboardListener, Modifiers, MouseButtons, KEY_A, KEY_LEFT_CTRL, KEY_LEFT_SHIFT,
    KEY_RIGHT_META, KEY_SPACE,
};

#[test]
fn test_keyboard_event() {
    let event = KeyEvent::new(KeyEventType::Pressed, Key(KEY_A));
    assert!(event.is_pressed());
    assert!(!event.is_modifier_key());

    let modifier_event = KeyEvent::new(KeyEventType::Pressed, Key(KEY_LEFT_CTRL));
    assert!(modifier_event.is_modifier_key());
}

#[test]
fn test_keyboard_listener() {
    let mut listener = KeyboardListener::new();

    let event = KeyEvent::new(KeyEventType::Pressed, Key(KEY_LEFT_SHIFT));
    listener.push_event(event);

    assert!(listener.get_modifiers().shift);

    let release = KeyEvent::new(KeyEventType::Released, Key(KEY_LEFT_SHIFT));
    listener.push_event(release);

    assert!(!listener.get_modifiers().shift);
}

#[test]
fn test_modifiers() {
    let mut mods = Modifiers::default();
    assert!(mods.is_none());

    mods.ctrl = true;
    mods.shift = true;
    assert!(!mods.is_none());

    let bits = mods.to_bits();
    assert!(bits & (1 << 5) != 0);
    assert!(bits & (1 << 8) != 0);
}

#[test]
fn listener_keeps_the_newest_256_events() {
    let mut listener = KeyboardListener::default();
    for i in 0..300u32 {
        let mut e = KeyEvent::new(KeyEventType::Pressed, Key(KEY_SPACE));
        e.repeat_sequence = i;
        listener.push_event(e);
    }
    assert_eq!(listener.pending_count(), 256);
    assert_eq!(listener.pop_event().unwrap().repeat_sequence, 44);
    assert!(listener.get_modifiers().is_none());
}

#[test]
fn modifier_bits_and_mouse_buttons() {
    let mut m = Modifiers::default();
    m.caps_lock = true;
    m.meta = true;
    assert_eq!(m.to_bits(), 0x81);
    let mut listener = KeyboardListener::new();
    listener.push_event(KeyEvent::new(KeyEventType::Pressed, Key(KEY_RIGHT_META)));
    assert!(listener.get_modifiers().meta);
    let b = MouseButtons { primary: true, secondary: false, tertiary: true };
    assert!(b.any_pressed());
    assert_eq!(b.to_bits(), 5);
    assert!(!MouseButtons { primary: false, secondary: false, tertiary: false }.any_pressed());
}
