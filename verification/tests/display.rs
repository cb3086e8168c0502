use chip8::Display;

#[test]
fn new_display_is_blank_and_invalidated() {
    let mut d = Display::new();
    for y in 0..Display::HEIGHT {
        for x in 0..Display::WIDTH {
            assert!(!d.get(x, y));
        }
    }
    assert!(d.take_invalidated());
    assert!(!d.take_invalidated());
}

#[test]
fn flip_toggles_and_invalidates() {
    let mut d = Display::default();
    d.take_invalidated();
    d.flip(3, 4);
    assert!(d.get(3, 4));
    assert!(!d.get(4, 3));
    assert!(d.take_invalidated());
    d.flip(3, 4);
    assert!(!d.get(3, 4));
    assert!(d.take_invalidated());
}

#[test]
fn off_screen_pixels() {
    let mut d = Display::new();
    d.take_invalidated();
    d.flip(64, 0);
    d.flip(0, 32);
    assert!(!d.get(64, 0));
    assert!(!d.get(0, 32));
    assert!(!d.get(usize::MAX, usize::MAX));
    assert!(!d.take_invalidated());
    d.flip(63, 31);
    assert!(d.get(63, 31));
}

#[test]
fn clear_blanks_and_invalidates() {
    let mut d = Display::new();
    d.flip(10, 10);
    d.take_invalidated();
    d.clear();
    assert!(!d.get(10, 10));
    assert!(d.take_invalidated());
    assert_eq!(Display::BUFF_LENGTH, Display::WIDTH * Display::HEIGHT);
}
