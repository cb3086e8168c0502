use chip8::Keypad;

#[test]
fn keys_read_as_set() {
    let mut k = Keypad::default();
    for key in 0..16 {
        assert!(!k.key(key));
    }
    k.set(3, true);
    k.set(15, true);
    assert!(k.key(3));
    assert!(k.key(15));
    assert!(!k.key(4));
    k.set(3, false);
    assert!(!k.key(3));
    assert!(k.key(15));
}

#[test]
fn keys_past_the_keypad_are_ignored() {
    let mut k = Keypad::new();
    k.set(16, true);
    k.set(255, true);
    assert!(!k.key(16));
    assert!(!k.key(255));
    for key in 0..16 {
        assert!(!k.key(key));
    }
}
