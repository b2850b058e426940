use smash::key::{
    is_modifier_key_event, KeyEvent, ALT_L, ALT_R, CAPS_LOCK, CONTROL_L, CONTROL_R, META_L, META_R,
    SHIFT_L, SHIFT_R,
};

fn press(keyval: u32) -> KeyEvent {
    KeyEvent { keyval, state: 0 }
}

#[test]
fn modifier_keys_are_recognised() {
    for keyval in [CAPS_LOCK, CONTROL_L, CONTROL_R, SHIFT_L, SHIFT_R, ALT_L, ALT_R, META_L, META_R] {
        assert!(is_modifier_key_event(&press(keyval)));
    }
}

#[test]
fn modifier_key_symbols_have_their_values() {
    assert_eq!(SHIFT_L, 65505);
    assert_eq!(SHIFT_R, 65506);
    assert_eq!(CONTROL_L, 65507);
    assert_eq!(CONTROL_R, 65508);
    assert_eq!(CAPS_LOCK, 65509);
    assert_eq!(META_L, 65511);
    assert_eq!(META_R, 65512);
    assert_eq!(ALT_L, 65513);
    assert_eq!(ALT_R, 65514);
}

#[test]
fn other_keys_are_no_modifiers() {
    // 'a', Return, Escape, Shift_Lock, Super_L, and the neighbours of the range.
    for keyval in [0x61, 0xff0d, 0xff1b, 0xffe6, 0xffeb, 0xffe0, 0] {
        assert!(!is_modifier_key_event(&press(keyval)));
    }
}

#[test]
fn held_modifiers_do_not_make_a_key_a_modifier() {
    let ev = KeyEvent { keyval: 0x61, state: 0x5 };
    assert!(!is_modifier_key_event(&ev));
    let ev = KeyEvent { keyval: SHIFT_L, state: 0x1 };
    assert!(is_modifier_key_event(&ev));
}
