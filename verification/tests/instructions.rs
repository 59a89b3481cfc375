use chip8::machine::Emulator;
use chip8::ops::Outcome;

/// Places the instruction `hi lo` at the program counter, fetches and executes it.
fn run(em: &mut Emulator, hi: u8, lo: u8, screen: &mut [bool; 2048]) -> Outcome {
    let pc = em.pc as usize;
    em.memory[pc] = hi;
    em.memory[pc + 1] = lo;
    let codes = em.fetch_decode();
    em.execute(codes, 0, screen)
}

fn blank() -> [bool; 2048] {
    [false; 2048]
}

#[test]
fn new_machine_holds_font_and_starts_at_512() {
    let em = Emulator::new();
    assert_eq!(em.pc, 512);
    assert_eq!(em.i, 0);
    assert!(em.stack.is_empty());
    assert!(!em.init);
    assert!(!em.draw);
    assert_eq!(em.registers, [0u8; 16]);
    assert_eq!(&em.memory[0..5], &[0xF0, 0x90, 0x90, 0x90, 0xF0]);
    assert_eq!(&em.memory[75..80], &[0xF0, 0x80, 0xF0, 0x80, 0x80]);
    assert!(em.memory[80..].iter().all(|b| *b == 0));
}

#[test]
fn fetch_decode_splits_into_nibbles() {
    let mut em = Emulator::new();
    em.memory[512] = 0xA2;
    em.memory[513] = 0x5F;
    let codes = em.fetch_decode();
    assert_eq!(codes, [0xA, 0x2, 0x5, 0xF]);
    assert_eq!(em.pc, 514);
}

#[test]
fn load_program_writes_from_512() {
    let mut em = Emulator::new();
    let n = em.load_program(&[1, 2, 3]);
    assert_eq!(n, 3);
    assert_eq!(&em.memory[510..516], &[0, 0, 1, 2, 3, 0]);
}

#[test]
fn load_program_truncates_to_memory() {
    let mut em = Emulator::new();
    let big = vec![7u8; 5000];
    let n = em.load_program(&big);
    assert_eq!(n, 3584);
    assert_eq!(em.memory[511], 0);
    assert_eq!(em.memory[512], 7);
    assert_eq!(em.memory[4095], 7);
}

#[test]
fn clear_screen_turns_every_pixel_off() {
    let mut em = Emulator::new();
    let mut screen = [true; 2048];
    assert_eq!(run(&mut em, 0x00, 0xE0, &mut screen), Outcome::Done);
    assert!(screen.iter().all(|p| !*p));
    assert!(!em.draw);
}

#[test]
fn jump_sets_program_counter() {
    let mut em = Emulator::new();
    let mut screen = blank();
    run(&mut em, 0x1A, 0xBC, &mut screen);
    assert_eq!(em.pc, 0xABC);
}

#[test]
fn call_then_return_restores_counter_and_stack() {
    let mut em = Emulator::new();
    let mut screen = blank();
    run(&mut em, 0x23, 0x00, &mut screen);
    assert_eq!(em.pc, 0x300);
    assert_eq!(em.stack, vec![514]);
    run(&mut em, 0x00, 0xEE, &mut screen);
    assert_eq!(em.pc, 514);
    assert!(em.stack.is_empty());
}

#[test]
fn skip_if_equal_and_not_equal() {
    let mut em = Emulator::new();
    let mut screen = blank();
    em.registers[3] = 0x42;
    run(&mut em, 0x33, 0x42, &mut screen);
    assert_eq!(em.pc, 516);
    run(&mut em, 0x43, 0x42, &mut screen);
    assert_eq!(em.pc, 518);
    run(&mut em, 0x43, 0x41, &mut screen);
    assert_eq!(em.pc, 522);
    run(&mut em, 0x33, 0x41, &mut screen);
    assert_eq!(em.pc, 524);
}

#[test]
fn skip_on_register_comparison() {
    let mut em = Emulator::new();
    let mut screen = blank();
    em.registers[1] = 5;
    em.registers[2] = 5;
    em.registers[3] = 6;
    run(&mut em, 0x51, 0x20, &mut screen);
    assert_eq!(em.pc, 516);
    run(&mut em, 0x91, 0x20, &mut screen);
    assert_eq!(em.pc, 518);
    run(&mut em, 0x91, 0x30, &mut screen);
    assert_eq!(em.pc, 522);
}

#[test]
fn load_and_add_immediate_wrap() {
    let mut em = Emulator::new();
    let mut screen = blank();
    run(&mut em, 0x65, 0xF0, &mut screen);
    assert_eq!(em.registers[5], 0xF0);
    run(&mut em, 0x75, 0x20, &mut screen);
    assert_eq!(em.registers[5], 0x10);
    assert_eq!(em.registers[15], 0);
}

#[test]
fn logic_operations() {
    let mut em = Emulator::new();
    let mut screen = blank();
    em.registers[1] = 0b1100;
    em.registers[2] = 0b1010;
    run(&mut em, 0x81, 0x21, &mut screen);
    assert_eq!(em.registers[1], 0b1110);
    em.registers[1] = 0b1100;
    run(&mut em, 0x81, 0x22, &mut screen);
    assert_eq!(em.registers[1], 0b1000);
    em.registers[1] = 0b1100;
    run(&mut em, 0x81, 0x23, &mut screen);
    assert_eq!(em.registers[1], 0b0110);
    run(&mut em, 0x81, 0x20, &mut screen);
    assert_eq!(em.registers[1], 0b1010);
}

#[test]
fn add_with_carry() {
    let mut em = Emulator::new();
    let mut screen = blank();
    em.registers[1] = 0xFF;
    em.registers[2] = 0x02;
    run(&mut em, 0x81, 0x24, &mut screen);
    assert_eq!(em.registers[1], 0x01);
    assert_eq!(em.registers[15], 1);
    run(&mut em, 0x81, 0x24, &mut screen);
    assert_eq!(em.registers[1], 0x03);
    assert_eq!(em.registers[15], 0);
}

#[test]
fn subtract_sets_flag_when_strictly_larger() {
    let mut em = Emulator::new();
    let mut screen = blank();
    em.registers[1] = 10;
    em.registers[2] = 3;
    run(&mut em, 0x81, 0x25, &mut screen);
    assert_eq!(em.registers[1], 7);
    assert_eq!(em.registers[15], 1);
    em.registers[1] = 3;
    run(&mut em, 0x81, 0x25, &mut screen);
    assert_eq!(em.registers[1], 0);
    assert_eq!(em.registers[15], 0);
    em.registers[1] = 2;
    run(&mut em, 0x81, 0x25, &mut screen);
    assert_eq!(em.registers[1], 0xFF);
    assert_eq!(em.registers[15], 0);
}

#[test]
fn reverse_subtract() {
    let mut em = Emulator::new();
    let mut screen = blank();
    em.registers[1] = 3;
    em.registers[2] = 10;
    run(&mut em, 0x81, 0x27, &mut screen);
    assert_eq!(em.registers[1], 7);
    assert_eq!(em.registers[15], 1);
    em.registers[1] = 11;
    run(&mut em, 0x81, 0x27, &mut screen);
    assert_eq!(em.registers[1], 0xFF);
    assert_eq!(em.registers[15], 0);
}

#[test]
fn shifts_take_the_second_register() {
    let mut em = Emulator::new();
    let mut screen = blank();
    em.registers[2] = 0b1000_0101;
    run(&mut em, 0x81, 0x26, &mut screen);
    assert_eq!(em.registers[1], 0b0100_0010);
    assert_eq!(em.registers[15], 1);
    run(&mut em, 0x81, 0x2E, &mut screen);
    assert_eq!(em.registers[1], 0b0000_1010);
    assert_eq!(em.registers[15], 1);
    em.registers[2] = 0b0100_0010;
    run(&mut em, 0x81, 0x2E, &mut screen);
    assert_eq!(em.registers[1], 0b1000_0100);
    assert_eq!(em.registers[15], 0);
}

#[test]
fn set_index_and_jump_with_offset() {
    let mut em = Emulator::new();
    let mut screen = blank();
    run(&mut em, 0xA1, 0x23, &mut screen);
    assert_eq!(em.i, 0x123);
    em.registers[0] = 0x10;
    run(&mut em, 0xB3, 0x00, &mut screen);
    assert_eq!(em.pc, 0x310);
}

#[test]
fn random_is_masked_with_known_number() {
    let mut em = Emulator::new();
    let mut screen = blank();
    let codes = [0xC, 0x4, 0x0, 0xF];
    em.execute_op(codes, 0, 0xAB, &mut screen);
    assert_eq!(em.registers[4], 0x0B);
}

#[test]
fn random_register_stays_below_255() {
    let mut em = Emulator::new();
    let mut screen = blank();
    for _ in 0..2000 {
        em.pc = 512;
        run(&mut em, 0xC4, 0xFF, &mut screen);
        assert!(em.registers[4] < 255);
        run(&mut em, 0xC5, 0x0F, &mut screen);
        assert!(em.registers[5] <= 0x0F);
    }
}

#[test]
fn draw_font_glyph_at_origin() {
    let mut em = Emulator::new();
    let mut screen = blank();
    em.i = 0;
    em.registers[1] = 0;
    em.registers[2] = 0;
    run(&mut em, 0xD1, 0x25, &mut screen);
    assert!(em.draw);
    assert_eq!(em.registers[15], 0);
    // the glyph 0: F0 90 90 90 F0
    let rows: [[bool; 8]; 5] = [
        [true, true, true, true, false, false, false, false],
        [true, false, false, true, false, false, false, false],
        [true, false, false, true, false, false, false, false],
        [true, false, false, true, false, false, false, false],
        [true, true, true, true, false, false, false, false],
    ];
    for y in 0..5 {
        for x in 0..8 {
            assert_eq!(screen[64 * y + x], rows[y][x]);
        }
    }
    assert_eq!(screen.iter().filter(|p| **p).count(), 14);
}

#[test]
fn draw_twice_restores_screen_and_collides() {
    let mut em = Emulator::new();
    let mut screen = blank();
    screen[64 * 3 + 40] = true;
    let before = screen;
    em.i = 5;
    em.registers[1] = 38;
    em.registers[2] = 2;
    run(&mut em, 0xD1, 0x25, &mut screen);
    assert_ne!(screen, before);
    run(&mut em, 0xD1, 0x25, &mut screen);
    assert_eq!(screen, before);
    assert_eq!(em.registers[15], 1);
}

#[test]
fn draw_reports_collision_with_lit_pixel() {
    let mut em = Emulator::new();
    let mut screen = blank();
    screen[0] = true;
    em.i = 0;
    run(&mut em, 0xD0, 0x01, &mut screen);
    assert_eq!(em.registers[15], 1);
    assert!(!screen[0]);
    assert!(screen[1]);
}

#[test]
fn draw_clips_at_right_and_bottom_edges() {
    let mut em = Emulator::new();
    let mut screen = blank();
    em.i = 0;
    em.registers[1] = 62;
    em.registers[2] = 30;
    run(&mut em, 0xD1, 0x25, &mut screen);
    assert!(screen[64 * 30 + 62]);
    assert!(screen[64 * 30 + 63]);
    assert!(screen[64 * 31 + 62]);
    assert!(!screen[64 * 31 + 63]);
    assert!(!screen[0]);
    assert!(!screen[64 * 31 + 0]);
    assert_eq!(screen.iter().filter(|p| **p).count(), 3);
}

#[test]
fn draw_wraps_start_coordinates() {
    let mut em = Emulator::new();
    let mut screen = blank();
    em.i = 0;
    em.registers[1] = 64 + 2;
    em.registers[2] = 32 + 1;
    run(&mut em, 0xD1, 0x21, &mut screen);
    assert!(screen[64 * 1 + 2]);
    assert!(screen[64 * 1 + 5]);
    assert!(!screen[64 * 1 + 6]);
}

#[test]
fn delay_timer_read_and_write() {
    let mut em = Emulator::new();
    let mut screen = blank();
    let pc = em.pc as usize;
    em.memory[pc] = 0xF3;
    em.memory[pc + 1] = 0x07;
    let codes = em.fetch_decode();
    assert_eq!(em.execute(codes, 42, &mut screen), Outcome::Done);
    assert_eq!(em.registers[3], 42);
    em.registers[4] = 9;
    assert_eq!(run(&mut em, 0xF4, 0x15, &mut screen), Outcome::SetDelay(9));
    assert_eq!(run(&mut em, 0xF4, 0x18, &mut screen), Outcome::Done);
}

#[test]
fn index_add_and_font_address() {
    let mut em = Emulator::new();
    let mut screen = blank();
    em.i = 0x100;
    em.registers[2] = 0x20;
    run(&mut em, 0xF2, 0x1E, &mut screen);
    assert_eq!(em.i, 0x120);
    em.registers[2] = 0xA;
    run(&mut em, 0xF2, 0x29, &mut screen);
    assert_eq!(em.i, 50);
}

#[test]
fn decimal_digits_of_register() {
    let mut em = Emulator::new();
    let mut screen = blank();
    em.i = 0x300;
    em.registers[6] = 254;
    run(&mut em, 0xF6, 0x33, &mut screen);
    assert_eq!(&em.memory[0x300..0x303], &[2, 5, 4]);
    em.registers[6] = 7;
    run(&mut em, 0xF6, 0x33, &mut screen);
    assert_eq!(&em.memory[0x300..0x303], &[0, 0, 7]);
}

#[test]
fn store_then_load_registers() {
    let mut em = Emulator::new();
    let mut screen = blank();
    em.i = 0x380;
    for k in 0..16 {
        em.registers[k] = (k as u8) * 3 + 1;
    }
    let saved = em.registers;
    run(&mut em, 0xF3, 0x55, &mut screen);
    assert_eq!(&em.memory[0x380..0x384], &[1, 4, 7, 10]);
    assert_eq!(em.memory[0x384], 0);
    assert_eq!(em.i, 0x380);
    em.registers = [0; 16];
    run(&mut em, 0xF3, 0x65, &mut screen);
    assert_eq!(&em.registers[0..4], &saved[0..4]);
    assert_eq!(em.registers[4], 0);
}

#[test]
fn unknown_instructions_do_nothing() {
    let mut em = Emulator::new();
    let mut screen = blank();
    em.registers[1] = 7;
    let before = em.registers;
    run(&mut em, 0x01, 0x23, &mut screen);
    run(&mut em, 0x81, 0x2F, &mut screen);
    run(&mut em, 0xF1, 0x99, &mut screen);
    assert_eq!(em.registers, before);
    assert_eq!(em.pc, 518);
}

#[test]
fn only_draw_sets_the_draw_flag() {
    let mut em = Emulator::new();
    let mut screen = blank();
    run(&mut em, 0xD0, 0x01, &mut screen);
    assert!(em.draw);
    run(&mut em, 0x60, 0x01, &mut screen);
    assert!(!em.draw);
    run(&mut em, 0x00, 0xE0, &mut screen);
    assert!(!em.draw);
}
