use chip8::machine::Emulator;
use chip8::ops::Outcome;

/// Runs one instruction the way a frame of the front end does, with no input pending.
fn next_frame(em: &mut Emulator, screen: &mut [bool; 2048]) -> bool {
    let codes = em.fetch_decode();
    let out = em.execute(codes, 60, screen);
    if out == Outcome::AwaitKeys {
        em.events_exhausted(codes);
    }
    em.draw
}

#[test]
fn op_code_test() {
    let mut em = Emulator::new();
    em.registers[0] = 0;
    em.registers[1] = 0;
    em.memory[512] = 0xf4;
    em.memory[513] = 0x65;
    em.i = 0x400;
    em.memory[0x400] = 0x15;
    em.memory[0x401] = 0x16;
    em.memory[0x402] = 0x17;
    em.memory[0x403] = 0x18;
    em.memory[0x404] = 0x19;
    em.memory[0x405] = 0x20;
    let mut screen = [false; 2048];
    next_frame(&mut em, &mut screen);
    assert_eq!(em.registers[4], 0x19);
    assert_eq!(em.registers[5], 0x0);
}
