use vstd::prelude::*;
use crate::draw::{lemma_pixel_coords, sprite_covers};
use crate::keys::{KeyEvent, is_press_of, key_of_name, keymap, lemma_keymap_distinct, names_key};
use crate::machine::{Machine, initial_machine, with_program};
use crate::ops::{Outcome, alu, can_exhaust, can_key_event, can_step, exhausted_step, is_f, key_event_step, step};

verus! {

/// The display pixel at column `x`, row `y`.
pub open spec fn pixel(screen: Seq<bool>, x: int, y: int) -> bool {
    screen[64 * y + x]
}

/// Bit `7 - col` of `b`: the pixel in column `col` of a sprite row, counted from the left.
pub open spec fn row_bit(b: u8, col: int) -> bool {
    (b >> ((7 - col) as u8)) & 1u8 == 1u8
}

/// What `Dxyn` does to the display, pixel by pixel: with the sprite's corner at
/// (`x0`, `y0`) = (`Vx` mod 64, `Vy` mod 32), the pixel at column `x0 + col`
/// (`col` in 0..8) and row `y0 + row` (`row` in 0..n) flips exactly when bit `7 - col`
/// of the byte at `I + row` is set, as long as it lies on the display; every other
/// pixel keeps its value. `VF` becomes 1 exactly when some flipped pixel was lit, and
/// no other register changes.
pub proof fn lemma_draw_pixels(m: Machine, screen: Seq<bool>, c: [u16; 4], delay: u8, rnd: u16)
    requires
        can_step(m, c),
        c[0] == 13,
        screen.len() == 2048,
    ensures
        ({
            let (m1, s1, out) = step(m, screen, c, delay, rnd);
            let x0 = (m.registers[c[1] as int] % 64) as int;
            let y0 = (m.registers[c[2] as int] % 32) as int;
            let n = c[3] as int;
            &&& s1.len() == 2048
            &&& forall|px: int, py: int|
                x0 <= px < x0 + 8 && px < 64 && y0 <= py < y0 + n && py < 32 ==> #[trigger] pixel(s1, px, py) == (
                pixel(screen, px, py) != row_bit(m.memory[m.i + (py - y0)], px - x0))
            &&& forall|px: int, py: int|
                0 <= px < 64 && 0 <= py < 32 && !(x0 <= px < x0 + 8 && y0 <= py < y0 + n) ==> #[trigger] pixel(
                    s1,
                    px,
                    py,
                ) == pixel(screen, px, py)
            &&& m1.registers[15] == (if exists|px: int, py: int|
                x0 <= px < x0 + 8 && px < 64 && y0 <= py < y0 + n && py < 32 && row_bit(
                    m.memory[m.i + (py - y0)],
                    px - x0,
                ) && #[trigger] pixel(screen, px, py) {
                1u8
            } else {
                0u8
            })
            &&& forall|k: int| 0 <= k < 15 ==> #[trigger] m1.registers[k] == m.registers[k]
            &&& m1.draw
            &&& m1.pc == m.pc && m1.i == m.i && m1.memory == m.memory && m1.stack == m.stack
        }),
{
    let (m1, s1, out) = step(m, screen, c, delay, rnd);
    let vx = m.registers[c[1] as int];
    let vy = m.registers[c[2] as int];
    let x0 = (vx % 64) as int;
    let y0 = (vy % 32) as int;
    let n = c[3] as int;
    assert forall|px: int, py: int| 0 <= px < 64 && 0 <= py < 32 implies #[trigger] pixel(s1, px, py) == (if (x0 <= px
        < x0 + 8 && y0 <= py < y0 + n && row_bit(m.memory[m.i + (py - y0)], px - x0)) {
        !pixel(screen, px, py)
    } else {
        pixel(screen, px, py)
    }) by {
        lemma_pixel_coords(px, py);
    }
    let hit = exists|px: int, py: int|
        x0 <= px < x0 + 8 && px < 64 && y0 <= py < y0 + n && py < 32 && row_bit(m.memory[m.i + (py - y0)], px - x0)
            && #[trigger] pixel(screen, px, py);
    if hit {
        let (px, py) = choose|px: int, py: int|
            x0 <= px < x0 + 8 && px < 64 && y0 <= py < y0 + n && py < 32 && row_bit(
                m.memory[m.i + (py - y0)],
                px - x0,
            ) && #[trigger] pixel(screen, px, py);
        lemma_pixel_coords(px, py);
        assert(sprite_covers(m.memory, m.i, vx, vy, c[3], 64 * py + px) && screen[64 * py + px]);
    }
    if m1.registers[15] == 1u8 {
        let p = choose|p: int| #[trigger] sprite_covers(m.memory, m.i, vx, vy, c[3], p) && screen[p];
        let px = p % 64;
        let py = p / 64;
        assert(p == 64 * py + px);
        assert(pixel(screen, px, py));
    }
}

/// What the arithmetic instructions `8xyN` leave alone and what the copy and bitwise
/// ones compute: every register other than `Vx` and `VF` keeps its value for every
/// `N`; `8xy0` to `8xy3` store `Vy`, `Vx | Vy`, `Vx & Vy`, `Vx ^ Vy` in `Vx` and, when
/// `Vx` is not `VF`, leave `VF` alone.
pub proof fn lemma_alu_frame(r: Seq<u8>, x: int, y: int, op: u16)
    requires
        r.len() == 16,
        0 <= x < 16,
        0 <= y < 16,
    ensures
        alu(r, x, y, op).len() == 16,
        forall|k: int| 0 <= k < 16 && k != x && k != 15 ==> #[trigger] alu(r, x, y, op)[k] == r[k],
        op == 0 ==> alu(r, x, y, op)[x] == r[y],
        op == 1 ==> alu(r, x, y, op)[x] == r[x] | r[y],
        op == 2 ==> alu(r, x, y, op)[x] == r[x] & r[y],
        op == 3 ==> alu(r, x, y, op)[x] == r[x] ^ r[y],
        op <= 3 && x != 15 ==> alu(r, x, y, op)[15] == r[15],
        !(op <= 7 || op == 14) ==> alu(r, x, y, op) == r,
{
}

/// What the instructions with an immediate operand do, read off the nibbles
/// `c[1] c[2] c[3]`: `6xNN` loads `NN` into `Vx`, `7xNN` adds it modulo 256, `ANNN`
/// loads `NNN` into `I`, `1NNN` jumps to `NNN`, `2NNN` calls it, `BNNN` jumps to
/// `NNN + V0`, `CxNN` stores the random number masked with `NN`; the conditional skips
/// move the counter on by two exactly when their condition holds; `00E0` clears the
/// display. Registers other than the one written keep their values.
pub proof fn lemma_immediate_instructions(m: Machine, screen: Seq<bool>, c: [u16; 4], delay: u8, rnd: u16)
    requires
        can_step(m, c),
    ensures
        ({
            let (m1, s1, out) = step(m, screen, c, delay, rnd);
            let x = c[1] as int;
            let byte = c[2] * 16 + c[3];
            let addr = c[1] * 256 + c[2] * 16 + c[3];
            let vx = m.registers[x];
            let vy = m.registers[c[2] as int];
            let others_kept = forall|k: int| 0 <= k < 16 && k != x ==> #[trigger] m1.registers[k] == m.registers[k];
            &&& c[0] == 6 ==> m1.registers[x] == byte && others_kept && m1.pc == m.pc && m1.i == m.i
            &&& c[0] == 7 ==> m1.registers[x] == (vx + byte) % 256 && others_kept && m1.pc == m.pc
            &&& c[0] == 12 ==> m1.registers[x] == rnd & (byte as u16) && others_kept && m1.pc == m.pc
            &&& c[0] == 10 ==> m1.i == addr && m1.registers == m.registers && m1.pc == m.pc
            &&& c[0] == 1 ==> m1.pc == addr && m1.registers == m.registers && m1.stack == m.stack
            &&& c[0] == 2 ==> m1.pc == addr && m1.stack.len() == m.stack.len() + 1 && m1.stack.last() == m.pc
                && m1.stack.drop_last() == m.stack
            &&& c[0] == 11 ==> m1.pc == addr + m.registers[0] && m1.registers == m.registers
            &&& c[0] == 3 ==> m1.pc == (if vx == byte { m.pc + 2 } else { m.pc as int })
            &&& c[0] == 4 ==> m1.pc == (if vx != byte { m.pc + 2 } else { m.pc as int })
            &&& c[0] == 5 ==> m1.pc == (if vx == vy { m.pc + 2 } else { m.pc as int })
            &&& c[0] == 9 ==> m1.pc == (if vx != vy { m.pc + 2 } else { m.pc as int })
            &&& (c[0] == 3 || c[0] == 4 || c[0] == 5 || c[0] == 9) ==> m1.registers == m.registers
            &&& c[0] == 0 && c[1] == 0 && c[2] == 14 && c[3] == 0 ==> s1.len() == 2048 && forall|p: int|
                0 <= p < 2048 ==> !#[trigger] s1[p]
        }),
{
    let (m1, s1, out) = step(m, screen, c, delay, rnd);
    if c[0] == 2 {
        assert(m1.stack.drop_last() =~= m.stack);
    }
    if c[0] == 12 {
        let b = (c[2] * 16 + c[3]) as u16;
        assert(b < 256);
        assert((rnd & b) < 256 && ((rnd & b) as u8) as u16 == rnd & b) by (bit_vector)
            requires
                b < 256,
        ;
    }
}

/// A key event is a press of keypad key `k` exactly when it is a key press whose
/// scancode name maps to `k`.
pub proof fn lemma_press_means_named_key(event: KeyEvent, k: u8)
    requires
        k < 16,
    ensures
        is_press_of(event, k as int) <==> (match event {
            KeyEvent::KeyDown(Some(name)) => key_of_name(name@) == Some(k),
            _ => false,
        }),
{
    match event {
        KeyEvent::KeyDown(Some(name)) => {
            lemma_key_of_name_exact(name@, k);
        },
        _ => {},
    }
}

/// `key_of_name` finds key `k` for a name exactly when the name is that of key `k`.
proof fn lemma_key_of_name_exact(name: Seq<char>, k: u8)
    requires
        k < 16,
    ensures
        key_of_name(name) == Some(k) <==> names_key(name, k as int),
{
    if names_key(name, k as int) {
        let j = choose|j: int| names_key(name, j);
        if j != k as int {
            lemma_keymap_distinct(j, k as int);
            assert(name[0] == keymap()[j]);
        }
    }
    if key_of_name(name) == Some(k) {
        let j = choose|j: int| names_key(name, j);
        assert(names_key(name, j));
    }
}

/// The key tests `Ex9E` and `ExA1`: an event that is not a press of the key held in
/// `Vx` changes nothing and does not end the wait; a press of that key ends the wait,
/// `Ex9E` moving the counter on by two and `ExA1` leaving everything as it was.
/// The key wait `Fx0A`: a press of a key stores that key in `Vx` and ends the wait; any
/// other event changes nothing and does not end it.
pub proof fn lemma_key_events(m: Machine, c: [u16; 4], event: KeyEvent)
    requires
        can_key_event(m, c, event),
    ensures
        ({
            let (m1, stop) = key_event_step(m, c, event);
            let x = c[1] as int;
            let vx = m.registers[x];
            &&& c[0] == 14 && !is_press_of(event, vx as int) ==> m1 == m && !stop
            &&& c[0] == 14 && is_press_of(event, vx as int) && c[2] == 9 && c[3] == 14 ==> stop && m1 == (Machine {
                pc: (m.pc + 2) as u16,
                ..m
            })
            &&& c[0] == 14 && is_press_of(event, vx as int) && c[2] == 10 && c[3] == 1 ==> stop && m1 == m
            &&& c[0] == 15 ==> match event {
                KeyEvent::KeyDown(Some(name)) => stop && is_press_of(event, m1.registers[x] as int)
                    && m1.registers == m.registers.update(x, m1.registers[x]) && m1.pc == m.pc,
                _ => !stop && m1 == m,
            }
        }),
{
    let (m1, stop) = key_event_step(m, c, event);
    let x = c[1] as int;
    if c[0] == 15 {
        match event {
            KeyEvent::KeyDown(Some(name)) => {
                let k = key_of_name(name@).unwrap();
                let j = choose|j: int| names_key(name@, j);
                assert(names_key(name@, j));
                assert(m1.registers[x] == k);
                assert(m1.registers =~= m.registers.update(x, m1.registers[x]));
            },
            _ => {},
        }
    }
}

/// The keypad layout: the keyboard keys X 1 2 3 Q W E A S D Z C 4 R F V stand, in this
/// order, for the keypad keys 0 to F.
pub proof fn lemma_keypad_layout()
    ensures
        key_of_name(seq!['X']) == Some(0u8),
        key_of_name(seq!['1']) == Some(1u8),
        key_of_name(seq!['2']) == Some(2u8),
        key_of_name(seq!['3']) == Some(3u8),
        key_of_name(seq!['Q']) == Some(4u8),
        key_of_name(seq!['W']) == Some(5u8),
        key_of_name(seq!['E']) == Some(6u8),
        key_of_name(seq!['A']) == Some(7u8),
        key_of_name(seq!['S']) == Some(8u8),
        key_of_name(seq!['D']) == Some(9u8),
        key_of_name(seq!['Z']) == Some(10u8),
        key_of_name(seq!['C']) == Some(11u8),
        key_of_name(seq!['4']) == Some(12u8),
        key_of_name(seq!['R']) == Some(13u8),
        key_of_name(seq!['F']) == Some(14u8),
        key_of_name(seq!['V']) == Some(15u8),
{
    let names = seq!['X', '1', '2', '3', 'Q', 'W', 'E', 'A', 'S', 'D', 'Z', 'C', '4', 'R', 'F', 'V'];
    assert forall|k: int| 0 <= k < 16 implies key_of_name(seq![#[trigger] names[k]]) == Some(k as u8) by {
        assert(names_key(seq![names[k]], k));
        lemma_key_of_name_exact(seq![names[k]], k as u8);
    }
    assert(names[0] == 'X' && names[1] == '1' && names[2] == '2' && names[3] == '3');
    assert(names[4] == 'Q' && names[5] == 'W' && names[6] == 'E' && names[7] == 'A');
    assert(names[8] == 'S' && names[9] == 'D' && names[10] == 'Z' && names[11] == 'C');
    assert(names[12] == '4' && names[13] == 'R' && names[14] == 'F' && names[15] == 'V');
}

/// What the `Fx..` instructions other than the key wait do: `Fx07` copies the delay
/// timer into `Vx`; `Fx15` asks for `Vx` to be stored in the delay timer and changes
/// nothing else; `Fx1E` adds `Vx` to `I`; `Fx29` points `I` at the font glyph of `Vx`
/// (five bytes per glyph); `Fx18` changes nothing. None of them moves the counter.
pub proof fn lemma_timer_and_index_instructions(m: Machine, screen: Seq<bool>, c: [u16; 4], delay: u8, rnd: u16)
    requires
        can_step(m, c),
        c[0] == 15,
    ensures
        ({
            let (m1, s1, out) = step(m, screen, c, delay, rnd);
            let x = c[1] as int;
            let vx = m.registers[x];
            let m0 = Machine { draw: false, ..m };
            &&& m1.pc == m.pc
            &&& s1 == screen
            &&& is_f(c, 0, 7) ==> m1.registers[x] == delay && forall|k: int|
                0 <= k < 16 && k != x ==> #[trigger] m1.registers[k] == m.registers[k]
            &&& is_f(c, 1, 5) ==> out == Outcome::SetDelay(vx) && m1 == m0
            &&& is_f(c, 1, 14) ==> m1.i == m.i + vx && m1.registers == m.registers
            &&& is_f(c, 2, 9) ==> m1.i == 5 * vx && m1.registers == m.registers
            &&& is_f(c, 1, 8) ==> m1 == m0 && out == Outcome::Done
            &&& is_f(c, 0, 10) ==> m1 == m0 && out == Outcome::AwaitKeys
        }),
{
}

/// `Fx55` writes `V0`..`Vx` to memory from `I` on and nothing else; `Fx65` reads
/// `V0`..`Vx` from memory from `I` on and leaves the other registers. `I` stays.
pub proof fn lemma_register_transfer(m: Machine, screen: Seq<bool>, c: [u16; 4], delay: u8, rnd: u16)
    requires
        can_step(m, c),
    ensures
        ({
            let (m1, s1, out) = step(m, screen, c, delay, rnd);
            let x = c[1] as int;
            &&& is_f(c, 5, 5) ==> m1.i == m.i && m1.registers == m.registers && m1.memory.len() == m.memory.len()
                && (forall|k: int| 0 <= k <= x ==> #[trigger] m1.memory[m.i + k] == m.registers[k]) && (forall|a: int|
                0 <= a < m.memory.len() && !(m.i <= a <= m.i + x) ==> #[trigger] m1.memory[a] == m.memory[a])
            &&& is_f(c, 6, 5) ==> m1.i == m.i && m1.memory == m.memory && (forall|k: int|
                0 <= k <= x ==> #[trigger] m1.registers[k] == m.memory[m.i + k]) && (forall|k: int|
                x < k < 16 ==> #[trigger] m1.registers[k] == m.registers[k])
        }),
{
}

/// When the events run out, a key test `ExNN` moves past the next instruction and the
/// key wait `Fx0A` steps back onto itself to run again; nothing else changes.
pub proof fn lemma_wait_ends(m: Machine, c: [u16; 4])
    requires
        can_exhaust(m, c),
    ensures
        c[0] == 14 ==> exhausted_step(m, c).pc == m.pc + 2,
        c[0] == 15 ==> exhausted_step(m, c).pc == m.pc - 2,
        exhausted_step(m, c).registers == m.registers,
        exhausted_step(m, c).memory == m.memory,
        exhausted_step(m, c).i == m.i,
        exhausted_step(m, c).stack == m.stack,
{
}

/// A fresh machine: counter at 512, `I` zero, every register zero, an empty stack, no
/// drawing and no timer started; memory holds the font glyphs 0 to F in its first 80
/// bytes and zero everywhere else.
pub proof fn lemma_initial_state()
    ensures
        initial_machine().pc == 512,
        initial_machine().i == 0,
        initial_machine().stack.len() == 0,
        !initial_machine().draw && !initial_machine().init,
        initial_machine().registers.len() == 16,
        forall|k: int| 0 <= k < 16 ==> #[trigger] initial_machine().registers[k] == 0,
        initial_machine().memory.len() == 4096,
        forall|a: int| 80 <= a < 4096 ==> #[trigger] initial_machine().memory[a] == 0,
        initial_machine().memory.subrange(0, 80) == seq![
            0xF0u8, 0x90, 0x90, 0x90, 0xF0, 0x20, 0x60, 0x20, 0x20, 0x70,
            0xF0, 0x10, 0xF0, 0x80, 0xF0, 0xF0, 0x10, 0xF0, 0x10, 0xF0,
            0x90, 0x90, 0xF0, 0x10, 0x10, 0xF0, 0x80, 0xF0, 0x10, 0xF0,
            0xF0, 0x80, 0xF0, 0x90, 0xF0, 0xF0, 0x10, 0x20, 0x40, 0x40,
            0xF0, 0x90, 0xF0, 0x90, 0xF0, 0xF0, 0x90, 0xF0, 0x10, 0xF0,
            0xF0, 0x90, 0xF0, 0x90, 0x90, 0xE0, 0x90, 0xE0, 0x90, 0xE0,
            0xF0, 0x80, 0x80, 0x80, 0xF0, 0xE0, 0x90, 0x90, 0x90, 0xE0,
            0xF0, 0x80, 0xF0, 0x80, 0xF0, 0xF0, 0x80, 0xF0, 0x80, 0x80,
        ],
{
    assert(initial_machine().memory.subrange(0, 80) =~= seq![
        0xF0u8, 0x90, 0x90, 0x90, 0xF0, 0x20, 0x60, 0x20, 0x20, 0x70,
        0xF0, 0x10, 0xF0, 0x80, 0xF0, 0xF0, 0x10, 0xF0, 0x10, 0xF0,
        0x90, 0x90, 0xF0, 0x10, 0x10, 0xF0, 0x80, 0xF0, 0x10, 0xF0,
        0xF0, 0x80, 0xF0, 0x90, 0xF0, 0xF0, 0x10, 0x20, 0x40, 0x40,
        0xF0, 0x90, 0xF0, 0x90, 0xF0, 0xF0, 0x90, 0xF0, 0x10, 0xF0,
        0xF0, 0x90, 0xF0, 0x90, 0x90, 0xE0, 0x90, 0xE0, 0x90, 0xE0,
        0xF0, 0x80, 0x80, 0x80, 0xF0, 0xE0, 0x90, 0x90, 0x90, 0xE0,
        0xF0, 0x80, 0xF0, 0x80, 0xF0, 0xF0, 0x80, 0xF0, 0x80, 0x80,
    ]);
}

/// Loading a program puts its byte `j` at address `512 + j` and leaves every other
/// address as it was.
pub proof fn lemma_program_layout(memory: Seq<u8>, program: Seq<u8>)
    requires
        memory.len() == 4096,
        program.len() <= 4096 - 512,
    ensures
        with_program(memory, program).len() == 4096,
        forall|j: int| 0 <= j < program.len() ==> #[trigger] with_program(memory, program)[512 + j] == program[j],
        forall|a: int|
            0 <= a < 4096 && !(512 <= a < 512 + program.len()) ==> #[trigger] with_program(memory, program)[a]
                == memory[a],
{
}

} // verus!
