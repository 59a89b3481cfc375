use chip8::keys::KeyEvent;
use chip8::machine::Emulator;

fn press(name: &str) -> KeyEvent {
    KeyEvent::KeyDown(Some(name.to_string()))
}

#[test]
fn return_needs_a_caller() {
    let mut em = Emulator::new();
    assert!(!em.can_execute([0, 0, 0xE, 0xE]));
    em.stack.push(0x300);
    assert!(em.can_execute([0, 0, 0xE, 0xE]));
}

#[test]
fn codes_must_be_nibbles() {
    let em = Emulator::new();
    assert!(!em.can_execute([16, 0, 0, 0]));
    assert!(!em.can_execute([1, 0, 0, 16]));
    assert!(em.can_execute([1, 0xF, 0xF, 0xF]));
}

#[test]
fn sprite_rows_must_lie_in_memory() {
    let mut em = Emulator::new();
    em.i = 4090;
    assert!(em.can_execute([0xD, 0, 0, 6]));
    assert!(!em.can_execute([0xD, 0, 0, 7]));
    em.i = 0xFFFF;
    assert!(em.can_execute([0xD, 0, 0, 0]));
}

#[test]
fn index_arithmetic_must_not_overflow() {
    let mut em = Emulator::new();
    em.i = 0xFFF0;
    em.registers[1] = 0x0F;
    assert!(em.can_execute([0xF, 1, 1, 0xE]));
    em.registers[1] = 0x10;
    assert!(!em.can_execute([0xF, 1, 1, 0xE]));
    em.registers[2] = 51;
    assert!(em.can_execute([0xF, 2, 2, 9]));
    em.registers[2] = 52;
    assert!(!em.can_execute([0xF, 2, 2, 9]));
}

#[test]
fn memory_transfers_must_lie_in_memory() {
    let mut em = Emulator::new();
    em.i = 4093;
    assert!(em.can_execute([0xF, 0, 3, 3]));
    em.i = 4094;
    assert!(!em.can_execute([0xF, 0, 3, 3]));
    em.i = 4090;
    assert!(em.can_execute([0xF, 5, 5, 5]));
    assert!(!em.can_execute([0xF, 6, 5, 5]));
    assert!(em.can_execute([0xF, 5, 6, 5]));
    assert!(!em.can_execute([0xF, 6, 6, 5]));
}

#[test]
fn skip_must_not_overflow_counter() {
    let mut em = Emulator::new();
    em.pc = 65534;
    assert!(!em.can_execute([3, 0, 0, 0]));
    assert!(em.can_execute([4, 0, 0, 0]));
}

#[test]
fn key_test_needs_a_key_in_register() {
    let mut em = Emulator::new();
    em.registers[3] = 16;
    assert!(!em.can_take_key_event([0xE, 3, 9, 0xE], &press("X")));
    assert!(em.can_take_key_event([0xE, 3, 9, 0xE], &KeyEvent::Other));
    em.registers[3] = 15;
    assert!(em.can_take_key_event([0xE, 3, 9, 0xE], &press("V")));
}

#[test]
fn key_wait_needs_a_known_key() {
    let em = Emulator::new();
    assert!(em.can_take_key_event([0xF, 1, 0, 0xA], &press("Z")));
    assert!(!em.can_take_key_event([0xF, 1, 0, 0xA], &press("Escape")));
    assert!(!em.can_take_key_event([0xF, 1, 0, 0xA], &KeyEvent::KeyDown(None)));
    assert!(em.can_take_key_event([0xF, 1, 0, 0xA], &KeyEvent::Other));
    assert!(!em.can_take_key_event([0x1, 1, 0, 0xA], &KeyEvent::Other));
}

#[test]
fn ending_a_wait_keeps_counter_in_range() {
    let mut em = Emulator::new();
    em.pc = 0;
    assert!(!em.can_end_wait([0xF, 1, 0, 0xA]));
    assert!(em.can_end_wait([0xE, 1, 9, 0xE]));
    em.pc = 65534;
    assert!(em.can_end_wait([0xF, 1, 0, 0xA]));
    assert!(!em.can_end_wait([0xE, 1, 9, 0xE]));
}
