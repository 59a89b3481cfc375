use vstd::prelude::*;
use crate::draw::{sprite_collides, sprite_covers};
use crate::keys::{key_of_name, keymap, lemma_keymap_distinct, names_key};
use crate::machine::{Machine, nibbles};
use crate::ops::{Outcome, alu, can_step, is_f, skips, step, store_bcd, sub_mod, valid_codes};

verus! {

/// The four nibbles of an instruction word are nibbles, and put together again they
/// give the word back.
pub proof fn lemma_nibbles_recombine(hi: u8, lo: u8)
    ensures
        valid_codes([nibbles(hi, lo)[0], nibbles(hi, lo)[1], nibbles(hi, lo)[2], nibbles(hi, lo)[3]]),
        nibbles(hi, lo)[0] * 4096 + nibbles(hi, lo)[1] * 256 + nibbles(hi, lo)[2] * 16 + nibbles(hi, lo)[3]
            == hi * 256 + lo,
{
}

/// A return undoes a call: executing `2NNN` and then `00EE` leaves the program counter
/// and the stack as they were before the call, whatever lies between in the display,
/// the timer value or the random number.
pub proof fn lemma_return_undoes_call(
    m: Machine,
    screen: Seq<bool>,
    call: [u16; 4],
    ret: [u16; 4],
    delay1: u8,
    rnd1: u16,
    delay2: u8,
    rnd2: u16,
)
    requires
        can_step(m, call),
        call[0] == 2,
        ret[0] == 0 && ret[1] == 0 && ret[2] == 14 && ret[3] == 14,
    ensures
        ({
            let (m1, s1, o1) = step(m, screen, call, delay1, rnd1);
            let (m2, s2, o2) = step(m1, s1, ret, delay2, rnd2);
            &&& can_step(m1, ret)
            &&& m2.pc == m.pc
            &&& m2.stack == m.stack
            &&& m2.registers == m.registers
            &&& m2.memory == m.memory
            &&& s2 == screen
        }),
{
    let (m1, s1, o1) = step(m, screen, call, delay1, rnd1);
    assert(m1.stack.drop_last() =~= m.stack);
}

/// Drawing the same sprite twice in a row leaves the display as it was, and the second
/// drawing reports a collision exactly when the sprite covers a pixel that was dark
/// before the first drawing.
/// (It holds when neither coordinate register is `VF`, which the first drawing sets.)
pub proof fn lemma_draw_twice_restores(m: Machine, screen: Seq<bool>, c: [u16; 4], delay: u8, rnd: u16)
    requires
        can_step(m, c),
        screen.len() == 2048,
        c[0] == 13,
        c[1] != 15,
        c[2] != 15,
    ensures
        ({
            let (m1, s1, o1) = step(m, screen, c, delay, rnd);
            let (m2, s2, o2) = step(m1, s1, c, delay, rnd);
            let vx = m.registers[c[1] as int];
            let vy = m.registers[c[2] as int];
            &&& can_step(m1, c)
            &&& s2 == screen
            &&& m2.registers[15] == (if exists|p: int| #[trigger] sprite_covers(m.memory, m.i, vx, vy, c[3], p) && !screen[p] {
                1u8
            } else {
                0u8
            })
        }),
{
    let (m1, s1, o1) = step(m, screen, c, delay, rnd);
    let (m2, s2, o2) = step(m1, s1, c, delay, rnd);
    let vx = m.registers[c[1] as int];
    let vy = m.registers[c[2] as int];
    assert(m1.registers[c[1] as int] == vx);
    assert(m1.registers[c[2] as int] == vy);
    assert(s2 =~= screen);
    let hit2 = sprite_collides(s1, m.memory, m.i, vx, vy, c[3]);
    if exists|p: int| #[trigger] sprite_covers(m.memory, m.i, vx, vy, c[3], p) && !screen[p] {
        let p = choose|p: int| #[trigger] sprite_covers(m.memory, m.i, vx, vy, c[3], p) && !screen[p];
        assert(s1[p]);
        assert(hit2);
    }
    if hit2 {
        let q = choose|q: int| #[trigger] sprite_covers(m.memory, m.i, vx, vy, c[3], q) && s1[q];
        assert(sprite_covers(m.memory, m.i, vx, vy, c[3], q) && !screen[q]);
    }
}

/// A sprite drawn on a cleared display reports no collision.
pub proof fn lemma_draw_on_blank(memory: Seq<u8>, i: u16, vx: u8, vy: u8, n: u16)
    ensures
        !sprite_collides(Seq::new(2048, |p: int| false), memory, i, vx, vy, n),
{
}

/// Storing registers `V0`..`Vx` with `Fx55` and loading them back with `Fx65` from the
/// same address gives the registers they had; memory holds their values.
pub proof fn lemma_store_then_load(m: Machine, screen: Seq<bool>, store: [u16; 4], load: [u16; 4], delay: u8, rnd: u16)
    requires
        can_step(m, store),
        store[0] == 15 && store[2] == 5 && store[3] == 5,
        load[0] == 15 && load[1] == store[1] && load[2] == 6 && load[3] == 5,
    ensures
        ({
            let (m1, s1, o1) = step(m, screen, store, delay, rnd);
            let (m2, s2, o2) = step(m1, s1, load, delay, rnd);
            &&& can_step(m1, load)
            &&& forall|k: int| 0 <= k <= store[1] ==> m1.memory[m.i + k] == m.registers[k]
            &&& m2.registers == m.registers
            &&& m2.memory == m1.memory
        }),
{
    let (m1, s1, o1) = step(m, screen, store, delay, rnd);
    let (m2, s2, o2) = step(m1, s1, load, delay, rnd);
    assert(m2.registers =~= m.registers);
}

/// `Fx33` stores three decimal digits whose value is `Vx`.
pub proof fn lemma_bcd_digits(memory: Seq<u8>, i: int, v: u8)
    requires
        0 <= i,
        i + 2 < memory.len(),
    ensures
        ({
            let out = store_bcd(memory, i, v);
            &&& out[i] < 10 && out[i + 1] < 10 && out[i + 2] < 10
            &&& 100 * out[i] + 10 * out[i + 1] + out[i + 2] == v
            &&& out.len() == memory.len()
            &&& forall|a: int| 0 <= a < memory.len() && !(i <= a <= i + 2) ==> out[a] == memory[a]
        }),
{
}

/// The arithmetic meaning of `8xy4`, `8xy5`, `8xy6`, `8xy7` and `8xyE` when neither
/// operand is `VF`: add with carry out in `VF`, subtract with `VF` set when no borrow
/// was needed (the minuend is strictly larger), shift right and left by one with the
/// bit shifted out in `VF`.
pub proof fn lemma_alu_arithmetic(r: Seq<u8>, x: int, y: int)
    requires
        r.len() == 16,
        0 <= x < 15,
        0 <= y < 15,
    ensures
        alu(r, x, y, 4)[x] + 256 * alu(r, x, y, 4)[15] == r[x] + r[y],
        alu(r, x, y, 5)[x] == sub_mod(r[x], r[y]),
        alu(r, x, y, 5)[15] == (if r[x] > r[y] { 1u8 } else { 0u8 }),
        alu(r, x, y, 7)[x] == sub_mod(r[y], r[x]),
        alu(r, x, y, 7)[15] == (if r[y] > r[x] { 1u8 } else { 0u8 }),
        alu(r, x, y, 6)[x] == r[y] / 2,
        alu(r, x, y, 6)[15] == r[y] % 2,
        alu(r, x, y, 14)[x] == (r[y] * 2) % 256,
        alu(r, x, y, 14)[15] == r[y] / 128,
        forall|k: int| 0 <= k < 15 && k != x ==> #[trigger] alu(r, x, y, 4)[k] == r[k],
{
    let a = r[x];
    let b = r[y];
    assert((b & 1u8 == 1u8) == (b % 2 == 1) && b >> 1u8 == b / 2) by (bit_vector);
    assert(((b >> 7u8) & 1u8 == 1u8) == (b / 128 == 1) && b / 128 <= 1) by (bit_vector);
    assert(b << 1u8 == (b * 2) % 256) by (bit_vector);
}

/// `3xNN` and `4xNN` are each other's negation: on the same register and byte,
/// exactly one of them skips.
pub proof fn lemma_skip_complementary(m: Machine, eq: [u16; 4], ne: [u16; 4])
    requires
        eq[0] == 3,
        ne[0] == 4,
        eq[1] == ne[1] && eq[2] == ne[2] && eq[3] == ne[3],
    ensures
        skips(m, eq) != skips(m, ne),
{
}

/// Each keypad key is found again from the name of its keyboard key, and a name
/// belongs to at most one key.
pub proof fn lemma_keymap_round_trip(key: u8, name: Seq<char>)
    requires
        key < 16,
    ensures
        key_of_name(seq![keymap()[key as int]]) == Some(key),
        key_of_name(name) == Some(key) <==> name == seq![keymap()[key as int]],
{
    assert(names_key(seq![keymap()[key as int]], key as int));
    let k = choose|k: int| names_key(seq![keymap()[key as int]], k);
    if k != key as int {
        lemma_keymap_distinct(k, key as int);
        assert(seq![keymap()[key as int]][0] == keymap()[k]);
    }
    if key_of_name(name) == Some(key) {
        let j = choose|j: int| names_key(name, j);
        assert(names_key(name, j));
    }
}

/// What each instruction may touch: only `Dxyn` sets the draw flag (every other
/// instruction clears it); only `Dxyn` and `00E0` change the display; only `Fx33` and
/// `Fx55` write memory; only `2NNN` and `00EE` change the stack.
pub proof fn lemma_step_frame(m: Machine, screen: Seq<bool>, c: [u16; 4], delay: u8, rnd: u16)
    requires
        can_step(m, c),
    ensures
        ({
            let (m1, s1, out) = step(m, screen, c, delay, rnd);
            &&& m1.draw == (c[0] == 13)
            &&& (c[0] != 13 && !(c[0] == 0 && c[1] == 0 && c[2] == 14 && c[3] == 0) ==> s1 == screen)
            &&& (!is_f(c, 3, 3) && !is_f(c, 5, 5) ==> m1.memory == m.memory)
            &&& (c[0] != 2 && !(c[0] == 0 && c[1] == 0 && c[2] == 14 && c[3] == 14) ==> m1.stack == m.stack)
            &&& m1.init == m.init
        }),
{
}

/// One frame, `fetch_decode` and then the instruction it returns, sets the draw flag
/// exactly when the instruction is a sprite draw `Dxyn`.
pub proof fn lemma_frame_draw_flag(m: Machine, screen: Seq<bool>, delay: u8, rnd: u16)
    requires
        m.memory.len() == 4096,
        m.pc + 1 < 4096,
    ensures
        ({
            let hi = m.memory[m.pc as int];
            let lo = m.memory[m.pc + 1];
            let n = nibbles(hi, lo);
            let codes = [n[0], n[1], n[2], n[3]];
            let fetched = Machine { pc: (m.pc + 2) as u16, ..m };
            step(fetched, screen, codes, delay, rnd).0.draw == (hi / 16 == 13)
        }),
{
}

/// The delay timer gives back what the program wrote: `Fx15` asks for `Vx` to be stored
/// in the timer, and `Fy07` run with the timer holding that value (no tick between)
/// sets `Vy` to it and leaves every other register as it was.
pub proof fn lemma_timer_write_then_read(
    m: Machine,
    screen: Seq<bool>,
    set: [u16; 4],
    get: [u16; 4],
    delay: u8,
    rnd1: u16,
    rnd2: u16,
)
    requires
        valid_codes(set),
        valid_codes(get),
        is_f(set, 1, 5),
        is_f(get, 0, 7),
        m.registers.len() == 16,
    ensures
        ({
            let (m1, s1, o1) = step(m, screen, set, delay, rnd1);
            let written = m.registers[set[1] as int];
            let (m2, s2, o2) = step(m1, s1, get, written, rnd2);
            &&& o1 == Outcome::SetDelay(written)
            &&& m2.registers == m.registers.update(get[1] as int, written)
            &&& m2.memory == m.memory
            &&& s2 == screen
        }),
{
}

} // verus!
