use chip8::Stack;

// Tests that popping stack will not underflow.
#[test]
fn underflow() {
    let mut s = Stack::new();
    assert_eq!(s.pop(), None);
}

// Tests that pushing stack pass the CAPACITY will not overflow.
#[test]
fn overflow() {
    let mut s = Stack::new();
    for i in 0..Stack::CAPACITY {
        assert!(s.push(i as u16));
    }
    assert!(!s.push(Stack::CAPACITY as u16));
}

// Tests that popping pushed value on stack return correct value.
#[test]
fn push_pop() {
    let mut s = Stack::new();
    for i in 0..Stack::CAPACITY {
        assert!(s.push(i as u16));
    }
    assert!(!s.push(Stack::CAPACITY as u16));
    for i in (0..Stack::CAPACITY).rev() {
        assert_eq!(s.peek(), Some(i as u16));
        assert_eq!(s.pop(), Some(i as u16));
    }
    assert_eq!(s.pop(), None);
}

// Tests that stack can store large enough value.
#[test]
fn max_value() {
    let mut s = Stack::new();
    assert!(s.push(0xfff));
    assert_eq!(s.pop(), Some(0xfff));
}

#[test]
fn peek_empty_and_len() {
    let mut s = Stack::default();
    assert_eq!(s.peek(), None);
    assert_eq!(s.len(), 0);
    s.push(7);
    s.push(9);
    assert_eq!(s.len(), 2);
    assert_eq!(s.peek(), Some(9));
    assert_eq!(s.len(), 2);
}

#[test]
fn full_stack_keeps_its_values() {
    let mut s = Stack::new();
    for i in 0..16u16 {
        s.push(i);
    }
    assert!(!s.push(99));
    assert_eq!(s.pop(), Some(15));
    assert!(s.push(99));
    assert_eq!(s.pop(), Some(99));
}
