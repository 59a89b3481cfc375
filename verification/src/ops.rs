use vstd::prelude::*;
use crate::draw::{screen_after_sprite, sprite_collides};
use crate::keys::{KeyEvent, is_press_of, key_of_name};
use crate::machine::Machine;

verus! {

/// What the surrounding program must do after an instruction has been executed.
#[derive(Clone, Copy, Debug, PartialEq, Eq, Structural)]
pub enum Outcome {
    /// Nothing: the instruction is complete.
    Done,
    /// Store this value in the delay timer.
    SetDelay(u8),
    /// Hand the pending input events to `key_event`, one at a time, until it says
    /// to stop or there are none left, then call `events_exhausted` if none stopped it.
    AwaitKeys,
}

/// Each of the four codes is a nibble.
pub open spec fn valid_codes(c: [u16; 4]) -> bool {
    c[0] < 16 && c[1] < 16 && c[2] < 16 && c[3] < 16
}

/// The 12-bit address `NNN` held by the last three nibbles.
pub open spec fn nnn(c: [u16; 4]) -> u16 {
    (c[1] * 256 + c[2] * 16 + c[3]) as u16
}

/// The byte `NN` held by the last two nibbles.
pub open spec fn nn(c: [u16; 4]) -> u8 {
    (c[2] * 16 + c[3]) as u8
}

/// `a + b` modulo 256.
pub open spec fn add_mod(a: u8, b: u8) -> u8 {
    ((a + b) % 256) as u8
}

/// `a - b` modulo 256.
pub open spec fn sub_mod(a: u8, b: u8) -> u8 {
    ((a - b) % 256) as u8
}

/// The registers after the arithmetic instruction `8xy op`. The flag register `VF`
/// is cleared first, set where the operation carries, does not borrow or shifts a
/// one out, and only then is `Vx` written, reading the registers as they then stand.
pub open spec fn alu(r: Seq<u8>, x: int, y: int, op: u16) -> Seq<u8> {
    let r1 = r.update(15, 0u8);
    if op == 0 {
        r.update(x, r[y])
    } else if op == 1 {
        r.update(x, r[x] | r[y])
    } else if op == 2 {
        r.update(x, r[x] & r[y])
    } else if op == 3 {
        r.update(x, r[x] ^ r[y])
    } else if op == 4 {
        let sum = add_mod(r1[x], r1[y]);
        let r2 = r1.update(x, sum);
        if r[x] > sum {
            r2.update(15, 1u8)
        } else {
            r2
        }
    } else if op == 5 {
        let r2 = if r1[x] > r1[y] { r1.update(15, 1u8) } else { r1 };
        r2.update(x, sub_mod(r2[x], r2[y]))
    } else if op == 6 {
        let r2 = if r1[y] & 1u8 == 1u8 { r1.update(15, 1u8) } else { r1 };
        r2.update(x, r2[y] >> 1u8)
    } else if op == 7 {
        let r2 = if r1[y] > r1[x] { r1.update(15, 1u8) } else { r1 };
        r2.update(x, sub_mod(r2[y], r2[x]))
    } else if op == 14 {
        let r2 = if (r1[y] >> 7u8) & 1u8 == 1u8 { r1.update(15, 1u8) } else { r1 };
        r2.update(x, r2[y] << 1u8)
    } else {
        r
    }
}

/// Memory after the decimal digits of `v` (hundreds, tens, ones) are stored at `i`.
pub open spec fn store_bcd(memory: Seq<u8>, i: int, v: u8) -> Seq<u8> {
    memory.update(i, (v / 100) as u8).update(i + 1, ((v % 100) / 10) as u8).update(i + 2, (v % 10) as u8)
}

/// Memory after registers `V0`..`Vx` are stored from address `i` on.
pub open spec fn store_registers(memory: Seq<u8>, registers: Seq<u8>, i: int, x: int) -> Seq<u8> {
    Seq::new(memory.len(), |a: int| if i <= a <= i + x { registers[a - i] } else { memory[a] })
}

/// Registers after `V0`..`Vx` are loaded from address `i` on.
pub open spec fn load_registers(registers: Seq<u8>, memory: Seq<u8>, i: int, x: int) -> Seq<u8> {
    Seq::new(registers.len(), |k: int| if k <= x { memory[i + k] } else { registers[k] })
}

/// The machine with its program counter moved past the next instruction when `cond` holds.
pub open spec fn skip_if(m: Machine, cond: bool) -> Machine {
    if cond {
        Machine { pc: (m.pc + 2) as u16, ..m }
    } else {
        m
    }
}

/// The conditional-skip instructions `3xNN`, `4xNN`, `5xy0` and `9xy0` skip.
pub open spec fn skips(m: Machine, c: [u16; 4]) -> bool {
    let vx = m.registers[c[1] as int];
    let vy = m.registers[c[2] as int];
    ||| c[0] == 3 && vx == nn(c)
    ||| c[0] == 4 && vx != nn(c)
    ||| c[0] == 5 && vx == vy
    ||| c[0] == 9 && vx != vy
}

/// The instruction `Fx` followed by the byte `a b`.
pub open spec fn is_f(c: [u16; 4], a: u16, b: u16) -> bool {
    c[0] == 15 && c[2] == a && c[3] == b
}

/// The `F`-group instructions: timers, index arithmetic, font, decimal digits,
/// register store and load, and key wait.
pub open spec fn misc_step(m: Machine, c: [u16; 4], delay: u8) -> (Machine, Outcome) {
    let x = c[1] as int;
    let vx = m.registers[x];
    if is_f(c, 0, 7) {
        (Machine { registers: m.registers.update(x, delay), ..m }, Outcome::Done)
    } else if is_f(c, 1, 5) {
        (m, Outcome::SetDelay(vx))
    } else if is_f(c, 1, 14) {
        (Machine { i: (m.i + vx) as u16, ..m }, Outcome::Done)
    } else if is_f(c, 0, 10) {
        (m, Outcome::AwaitKeys)
    } else if is_f(c, 2, 9) {
        (Machine { i: (vx * 5) as u16, ..m }, Outcome::Done)
    } else if is_f(c, 3, 3) {
        (Machine { memory: store_bcd(m.memory, m.i as int, vx), ..m }, Outcome::Done)
    } else if is_f(c, 5, 5) {
        (Machine { memory: store_registers(m.memory, m.registers, m.i as int, x), ..m }, Outcome::Done)
    } else if is_f(c, 6, 5) {
        (Machine { registers: load_registers(m.registers, m.memory, m.i as int, x), ..m }, Outcome::Done)
    } else {
        (m, Outcome::Done)
    }
}

/// The effect of executing the decoded instruction `c` on machine `m` and display
/// `screen`: the next machine, the next display and what is left to do.
/// `delay` is the delay timer's value; `rnd` is the random number for `CxNN`.
pub open spec fn step(m: Machine, screen: Seq<bool>, c: [u16; 4], delay: u8, rnd: u16) -> (Machine, Seq<bool>, Outcome) {
    let m0 = Machine { draw: false, ..m };
    let x = c[1] as int;
    let y = c[2] as int;
    let vx = m.registers[x];
    let vy = m.registers[y];
    if c[0] == 0 {
        if c[1] == 0 && c[2] == 14 && c[3] == 0 {
            (m0, Seq::new(2048, |p: int| false), Outcome::Done)
        } else if c[1] == 0 && c[2] == 14 && c[3] == 14 {
            (Machine { pc: m.stack.last(), stack: m.stack.drop_last(), ..m0 }, screen, Outcome::Done)
        } else {
            (m0, screen, Outcome::Done)
        }
    } else if c[0] == 1 {
        (Machine { pc: nnn(c), ..m0 }, screen, Outcome::Done)
    } else if c[0] == 2 {
        (Machine { stack: m.stack.push(m.pc), pc: nnn(c), ..m0 }, screen, Outcome::Done)
    } else if c[0] == 3 || c[0] == 4 || c[0] == 5 || c[0] == 9 {
        (skip_if(m0, skips(m, c)), screen, Outcome::Done)
    } else if c[0] == 6 {
        (Machine { registers: m.registers.update(x, nn(c)), ..m0 }, screen, Outcome::Done)
    } else if c[0] == 7 {
        (Machine { registers: m.registers.update(x, add_mod(vx, nn(c))), ..m0 }, screen, Outcome::Done)
    } else if c[0] == 8 {
        (Machine { registers: alu(m.registers, x, y, c[3]), ..m0 }, screen, Outcome::Done)
    } else if c[0] == 10 {
        (Machine { i: nnn(c), ..m0 }, screen, Outcome::Done)
    } else if c[0] == 11 {
        (Machine { pc: (nnn(c) + m.registers[0]) as u16, ..m0 }, screen, Outcome::Done)
    } else if c[0] == 12 {
        (Machine { registers: m.registers.update(x, (rnd & (nn(c) as u16)) as u8), ..m0 }, screen, Outcome::Done)
    } else if c[0] == 13 {
        let hit = sprite_collides(screen, m.memory, m.i, vx, vy, c[3]);
        (
            Machine { registers: m.registers.update(15, if hit { 1u8 } else { 0u8 }), draw: true, ..m0 },
            screen_after_sprite(screen, m.memory, m.i, vx, vy, c[3]),
            Outcome::Done,
        )
    } else if c[0] == 14 {
        (m0, screen, Outcome::AwaitKeys)
    } else {
        let (m1, out) = misc_step(m0, c, delay);
        (m1, screen, out)
    }
}

/// The instruction `c` can be executed on `m`: on every other machine it would fail
/// (an empty stack to return from, an address or counter out of range, an overflow).
pub open spec fn can_step(m: Machine, c: [u16; 4]) -> bool {
    let vx = m.registers[c[1] as int];
    &&& valid_codes(c)
    &&& m.memory.len() == 4096
    &&& m.registers.len() == 16
    &&& (c[0] == 0 && c[1] == 0 && c[2] == 14 && c[3] == 14 ==> m.stack.len() > 0)
    &&& (skips(m, c) ==> m.pc + 2 <= u16::MAX)
    &&& (c[0] == 13 && c[3] != 0 ==> m.i + c[3] <= 4096)
    &&& (is_f(c, 1, 14) ==> m.i + vx <= u16::MAX)
    &&& (is_f(c, 2, 9) ==> vx * 5 <= u8::MAX)
    &&& (is_f(c, 3, 3) ==> m.i + 2 < 4096)
    &&& (is_f(c, 5, 5) || is_f(c, 6, 5) ==> m.i + c[1] < 4096)
}

/// The instruction waits on input: `ExNN` (key tests) and `Fx0A` (key wait).
pub open spec fn awaits_keys(c: [u16; 4]) -> bool {
    c[0] == 14 || is_f(c, 0, 10)
}

/// The effect of one input event on an instruction that waits on input: the next
/// machine, and whether to stop handing over events.
/// `Ex9E` on a press of key `Vx` skips the next instruction and stops; `ExA1` on such
/// a press stops without skipping; `Fx0A` stores the key of the first press in `Vx`.
pub open spec fn key_event_step(m: Machine, c: [u16; 4], event: KeyEvent) -> (Machine, bool) {
    let x = c[1] as int;
    if c[0] == 14 {
        if is_press_of(event, m.registers[x] as int) && c[2] == 9 && c[3] == 14 {
            (Machine { pc: (m.pc + 2) as u16, ..m }, true)
        } else if is_press_of(event, m.registers[x] as int) && c[2] == 10 && c[3] == 1 {
            (m, true)
        } else {
            (m, false)
        }
    } else {
        match event {
            KeyEvent::KeyDown(Some(name)) => (
                Machine { registers: m.registers.update(x, key_of_name(name@).unwrap()), ..m },
                true,
            ),
            _ => (m, false),
        }
    }
}

/// One input event can be handed to the waiting instruction `c` without failing:
/// `Ex` with a press needs `Vx` to be a key; `Fx0A` needs every press to name a key.
pub open spec fn can_key_event(m: Machine, c: [u16; 4], event: KeyEvent) -> bool {
    let vx = m.registers[c[1] as int];
    &&& valid_codes(c)
    &&& awaits_keys(c)
    &&& m.registers.len() == 16
    &&& (c[0] == 14 && event is KeyDown ==> vx < 16)
    &&& (c[0] == 14 && c[2] == 9 && c[3] == 14 && is_press_of(event, vx as int) ==> m.pc + 2 <= u16::MAX)
    &&& (c[0] == 15 && event is KeyDown ==> match event {
        KeyEvent::KeyDown(Some(name)) => key_of_name(name@) is Some,
        _ => false,
    })
}

/// The machine once the events ran out without stopping the waiting instruction:
/// `ExNN` moves past the next instruction, `Fx0A` goes back to run again.
pub open spec fn exhausted_step(m: Machine, c: [u16; 4]) -> Machine {
    if c[0] == 14 {
        Machine { pc: (m.pc + 2) as u16, ..m }
    } else {
        Machine { pc: (m.pc - 2) as u16, ..m }
    }
}

/// `exhausted_step` does not overflow.
pub open spec fn can_exhaust(m: Machine, c: [u16; 4]) -> bool {
    &&& valid_codes(c)
    &&& awaits_keys(c)
    &&& (c[0] == 14 ==> m.pc + 2 <= u16::MAX)
    &&& (c[0] == 15 ==> m.pc >= 2)
}

} // verus!
