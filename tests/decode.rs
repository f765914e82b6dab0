use chip8::{Keypad, Nibbles, Opcode};

#[test]
fn decode_splits_every_field() {
    let op = Opcode::decode(0xD123);
    assert_eq!(op.category, 0xD);
    assert_eq!(op.x, 0x1);
    assert_eq!(op.y, 0x2);
    assert_eq!(op.n, 0x3);
    assert_eq!(op.nn, 0x23);
    assert_eq!(op.nnn, 0x123);
}

#[test]
fn decode_extremes() {
    let op = Opcode::decode(0xFFFF);
    assert_eq!((op.category, op.x, op.y, op.n, op.nn, op.nnn), (0xF, 0xF, 0xF, 0xF, 0xFF, 0xFFF));
    let op = Opcode::decode(0x0000);
    assert_eq!((op.category, op.x, op.y, op.n, op.nn, op.nnn), (0, 0, 0, 0, 0, 0));
}

#[test]
fn nibbles_match_decode() {
    let n = Nibbles::new(0x8AB4);
    let op = Opcode::decode(0x8AB4);
    assert_eq!(n.category, op.category);
    assert_eq!(n.x, 0xA);
    assert_eq!(n.y, 0xB);
    assert_eq!(n.n, 0x4);
    assert_eq!(n.nn, 0xB4);
    assert_eq!(n.nnn, 0xAB4);
}

#[test]
fn keypad_down_and_up() {
    let mut k = Keypad::new();
    assert!(k.get_keys().iter().all(|held| !held));
    k.key_down(0xC);
    assert!(k.get_keys()[0xC]);
    k.key_up(0xC);
    assert!(!k.get_keys()[0xC]);
}

#[test]
fn keypad_ignores_keys_past_fifteen() {
    let mut k = Keypad::new();
    k.key_down(16);
    k.key_down(200);
    assert!(k.get_keys().iter().all(|held| !held));
}
