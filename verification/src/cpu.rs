use vstd::prelude::*;
use crate::draw::draw_sprite;
use crate::keys::{KeyEvent, is_key_press, key_for_name};
use crate::machine::{Emulator, Machine};
use crate::ops::{
    Outcome, alu, can_exhaust, can_key_event, can_step, exhausted_step, key_event_step, load_registers,
    misc_step, step, store_bcd, store_registers,
};
use crate::random::random_below;

verus! {

proof fn lemma_nibble_shifts(a: u16, b: u16, c: u16)
    requires
        a < 16,
        b < 16,
        c < 16,
    ensures
        (a << 8u16) + (b << 4u16) + c == a * 256 + b * 16 + c,
        (b << 4u16) + c == b * 16 + c,
        (a << 8u16) + (b << 4u16) + c < 4096,
{
    assert(a << 8u16 == a * 256 && b << 4u16 == b * 16) by (bit_vector)
        requires
            a < 16,
            b < 16,
    ;
}

impl Emulator {
    /// The arithmetic and logic instructions `8xyN`.
    fn execute_alu(&mut self, x: usize, y: usize, op: u16)
        requires
            x < 16,
            y < 16,
        ensures
            final(self)@ == (Machine { registers: alu(old(self)@.registers, x as int, y as int, op), ..old(self)@ }),
    {
        let ghost r = self.registers@;
        if op == 0 {
            self.registers[x] = self.registers[y];
        } else if op == 1 {
            self.registers[x] = self.registers[x] | self.registers[y];
        } else if op == 2 {
            self.registers[x] = self.registers[x] & self.registers[y];
        } else if op == 3 {
            self.registers[x] = self.registers[x] ^ self.registers[y];
        } else if op == 4 {
            let old_val = self.registers[x];
            self.registers[15] = 0;
            self.registers[x] = self.registers[x].wrapping_add(self.registers[y]);
            if old_val > self.registers[x] {
                self.registers[15] = 1;
            }
        } else if op == 5 {
            self.registers[15] = 0;
            if self.registers[x] > self.registers[y] {
                self.registers[15] = 1;
            }
            self.registers[x] = self.registers[x].wrapping_sub(self.registers[y]);
        } else if op == 6 {
            self.registers[15] = 0;
            if self.registers[y] & 1 == 1 {
                self.registers[15] = 1;
            }
            self.registers[x] = self.registers[y] >> 1u8;
        } else if op == 7 {
            self.registers[15] = 0;
            if self.registers[y] > self.registers[x] {
                self.registers[15] = 1;
            }
            self.registers[x] = self.registers[y].wrapping_sub(self.registers[x]);
        } else if op == 14 {
            self.registers[15] = 0;
            if (self.registers[y] >> 7u8) & 1 == 1 {
                self.registers[15] = 1;
            }
            self.registers[x] = self.registers[y] << 1u8;
        }
        assert(self.registers@ =~= alu(r, x as int, y as int, op));
    }

    /// The `Fx..` instructions.
    fn execute_misc(&mut self, codes: [u16; 4], delay: u8) -> (out: Outcome)
        requires
            can_step(old(self)@, codes),
            codes[0] == 15,
        ensures
            (final(self)@, out) == misc_step(old(self)@, codes, delay),
    {
        let x = codes[1] as usize;
        if codes[2] == 0 && codes[3] == 7 {
            self.registers[x] = delay;
            Outcome::Done
        } else if codes[2] == 1 && codes[3] == 5 {
            Outcome::SetDelay(self.registers[x])
        } else if codes[2] == 1 && codes[3] == 8 {
            Outcome::Done
        } else if codes[2] == 1 && codes[3] == 14 {
            self.i = self.i + self.registers[x] as u16;
            Outcome::Done
        } else if codes[2] == 0 && codes[3] == 10 {
            Outcome::AwaitKeys
        } else if codes[2] == 2 && codes[3] == 9 {
            self.i = (self.registers[x] * 5) as u16;
            Outcome::Done
        } else if codes[2] == 3 && codes[3] == 3 {
            let num = self.registers[x] as u16;
            let at = self.i as usize;
            self.memory[at] = (num % 1000 / 100) as u8;
            self.memory[at + 1] = (num % 100 / 10) as u8;
            self.memory[at + 2] = (num % 10) as u8;
            assert(self.memory@ =~= store_bcd(old(self).memory@, at as int, num as u8));
            Outcome::Done
        } else if codes[2] == 5 && codes[3] == 5 {
            let at = self.i as usize;
            let ghost mem = self.memory@;
            let mut n: usize = 0;
            while n <= x
                invariant
                    x < 16,
                    at + x < 4096,
                    n <= x + 1,
                    mem == old(self).memory@,
                    self@ == (Machine { memory: self.memory@, ..old(self)@ }),
                    self.memory@ == store_registers(mem, self.registers@, at as int, n - 1),
                decreases x + 1 - n,
            {
                self.memory[at + n] = self.registers[n];
                n += 1;
                assert(self.memory@ =~= store_registers(mem, self.registers@, at as int, n - 1));
            }
            Outcome::Done
        } else if codes[2] == 6 && codes[3] == 5 {
            let at = self.i as usize;
            let ghost regs = self.registers@;
            let mut n: usize = 0;
            while n <= x
                invariant
                    x < 16,
                    at + x < 4096,
                    n <= x + 1,
                    regs == old(self).registers@,
                    self@ == (Machine { registers: self.registers@, ..old(self)@ }),
                    self.registers@ == load_registers(regs, self.memory@, at as int, n - 1),
                decreases x + 1 - n,
            {
                self.registers[n] = self.memory[at + n];
                n += 1;
                assert(self.registers@ =~= load_registers(regs, self.memory@, at as int, n - 1));
            }
            Outcome::Done
        } else {
            Outcome::Done
        }
    }

    /// Whether `execute` can run the decoded instruction `codes` on this machine: on
    /// any other machine the instruction fails (return with an empty stack, a counter,
    /// index or memory address out of range).
    pub fn can_execute(&self, codes: [u16; 4]) -> (ok: bool)
        ensures
            ok == can_step(self@, codes),
    {
        if !(codes[0] < 16 && codes[1] < 16 && codes[2] < 16 && codes[3] < 16) {
            return false;
        }
        let c0 = codes[0];
        let vx = self.registers[codes[1] as usize];
        let vy = self.registers[codes[2] as usize];
        let nn_val: u8 = (codes[2] * 16 + codes[3]) as u8;
        let skip = (c0 == 3 && vx == nn_val) || (c0 == 4 && vx != nn_val) || (c0 == 5 && vx == vy) || (
        c0 == 9 && vx != vy);
        let f = c0 == 15;
        if c0 == 0 && codes[1] == 0 && codes[2] == 14 && codes[3] == 14 && self.stack.len() == 0 {
            false
        } else if skip && self.pc > 65533 {
            false
        } else if c0 == 13 && codes[3] != 0 && self.i as u32 + codes[3] as u32 > 4096 {
            false
        } else if f && codes[2] == 1 && codes[3] == 14 && self.i as u32 + vx as u32 > 65535 {
            false
        } else if f && codes[2] == 2 && codes[3] == 9 && vx > 51 {
            false
        } else if f && codes[2] == 3 && codes[3] == 3 && self.i as u32 + 2 >= 4096 {
            false
        } else if f && (codes[2] == 5 || codes[2] == 6) && codes[3] == 5 && self.i as u32 + codes[1] as u32 >= 4096 {
            false
        } else {
            true
        }
    }

    /// Whether `key_event` can take `event` for the waiting instruction `codes`: on
    /// any other event it fails (a key test on a register that holds no key, a key
    /// wait on a press of an unknown key or of no key).
    pub fn can_take_key_event(&self, codes: [u16; 4], event: &KeyEvent) -> (ok: bool)
        ensures
            ok == can_key_event(self@, codes, *event),
    {
        if !(codes[0] < 16 && codes[1] < 16 && codes[2] < 16 && codes[3] < 16) {
            return false;
        }
        let vx = self.registers[codes[1] as usize];
        if codes[0] == 14 {
            match event {
                KeyEvent::KeyDown(_) => {
                    if vx >= 16 {
                        false
                    } else if codes[2] == 9 && codes[3] == 14 && is_key_press(event, vx) {
                        self.pc <= 65533
                    } else {
                        true
                    }
                },
                KeyEvent::Other => true,
            }
        } else if codes[0] == 15 && codes[2] == 0 && codes[3] == 10 {
            match event {
                KeyEvent::KeyDown(Some(name)) => key_for_name(name.as_str()).is_some(),
                KeyEvent::KeyDown(None) => false,
                KeyEvent::Other => true,
            }
        } else {
            false
        }
    }

    /// Whether `events_exhausted` can end the wait of instruction `codes` without
    /// overflowing the program counter.
    pub fn can_end_wait(&self, codes: [u16; 4]) -> (ok: bool)
        ensures
            ok == can_exhaust(self@, codes),
    {
        if !(codes[0] < 16 && codes[1] < 16 && codes[2] < 16 && codes[3] < 16) {
            false
        } else if codes[0] == 14 {
            self.pc <= 65533
        } else if codes[0] == 15 && codes[2] == 0 && codes[3] == 10 {
            self.pc >= 2
        } else {
            false
        }
    }

    /// Executes the decoded instruction `codes`, given the delay timer's value `delay`
    /// and the random number `rnd` that `CxNN` masks. The display is `screen`,
    /// 64 by 32 pixels stored row by row.
    #[verifier::spinoff_prover]
    #[verifier::rlimit(40)]
    pub fn execute_op(&mut self, codes: [u16; 4], delay: u8, rnd: u16, screen: &mut [bool; 2048]) -> (out: Outcome)
        requires
            can_step(old(self)@, codes),
        ensures
            (final(self)@, final(screen)@, out) == step(old(self)@, old(screen)@, codes, delay, rnd),
    {
        self.draw = false;
        let x = codes[1] as usize;
        let y = codes[2] as usize;
        proof {
            lemma_nibble_shifts(codes[1], codes[2], codes[3]);
        }
        let c0 = codes[0];
        if c0 == 0 {
            if codes[1] == 0 && codes[2] == 14 && codes[3] == 0 {
                *screen = [false; 2048];
                assert(screen@ =~= Seq::new(2048, |p: int| false));
            } else if codes[1] == 0 && codes[2] == 14 && codes[3] == 14 {
                self.pc = self.stack.pop().unwrap();
            }
            Outcome::Done
        } else if c0 == 1 {
            self.pc = (codes[1] << 8) + (codes[2] << 4) + codes[3];
            Outcome::Done
        } else if c0 == 2 {
            self.stack.push(self.pc);
            self.pc = (codes[1] << 8) + (codes[2] << 4) + codes[3];
            Outcome::Done
        } else if c0 == 3 {
            let x_val = self.registers[x];
            let nn_val = ((codes[2] << 4) + codes[3]) as u8;
            if x_val == nn_val {
                self.pc += 2;
            }
            Outcome::Done
        } else if c0 == 4 {
            let x_val = self.registers[x];
            let nn_val = ((codes[2] << 4) + codes[3]) as u8;
            if x_val != nn_val {
                self.pc += 2;
            }
            Outcome::Done
        } else if c0 == 5 {
            if self.registers[x] == self.registers[y] {
                self.pc += 2;
            }
            Outcome::Done
        } else if c0 == 6 {
            self.registers[x] = ((codes[2] << 4) + codes[3]) as u8;
            Outcome::Done
        } else if c0 == 7 {
            self.registers[x] = self.registers[x].wrapping_add(((codes[2] << 4) + codes[3]) as u8);
            Outcome::Done
        } else if c0 == 8 {
            self.execute_alu(x, y, codes[3]);
            Outcome::Done
        } else if c0 == 9 {
            if self.registers[x] != self.registers[y] {
                self.pc += 2;
            }
            Outcome::Done
        } else if c0 == 10 {
            self.i = (codes[1] << 8) + (codes[2] << 4) + codes[3];
            Outcome::Done
        } else if c0 == 11 {
            self.pc = (codes[1] << 8) + (codes[2] << 4) + codes[3] + self.registers[0] as u16;
            Outcome::Done
        } else if c0 == 12 {
            self.registers[x] = (rnd & ((codes[2] << 4) + codes[3])) as u8;
            Outcome::Done
        } else if c0 == 13 {
            self.draw = true;
            let collided = draw_sprite(&self.memory, self.i, self.registers[x], self.registers[y], codes[3], screen);
            self.registers[15] = if collided { 1 } else { 0 };
            Outcome::Done
        } else if c0 == 14 {
            Outcome::AwaitKeys
        } else {
            self.execute_misc(codes, delay)
        }
    }

    /// Executes the decoded instruction `codes` as `execute_op` does, drawing the
    /// random number for `CxNN` uniformly from 0 to 254.
    pub fn execute(&mut self, codes: [u16; 4], delay: u8, screen: &mut [bool; 2048]) -> (out: Outcome)
        requires
            can_step(old(self)@, codes),
        ensures
            exists|rnd: u16|
                rnd < 255 && (final(self)@, final(screen)@, out) == #[trigger] step(old(self)@, old(screen)@, codes, delay, rnd),
    {
        let rnd: u16 = if codes[0] == 12 { random_below(255) } else { 0 };
        self.execute_op(codes, delay, rnd, screen)
    }

    /// Hands one input event to the waiting instruction `codes` (one for which
    /// `execute` returned `AwaitKeys`). Returns whether to stop handing over events.
    pub fn key_event(&mut self, codes: [u16; 4], event: &KeyEvent) -> (stop: bool)
        requires
            can_key_event(old(self)@, codes, *event),
        ensures
            (final(self)@, stop) == key_event_step(old(self)@, codes, *event),
    {
        let x = codes[1] as usize;
        if codes[0] == 14 {
            match event {
                KeyEvent::KeyDown(_) => {
                    let key = self.registers[x];
                    if is_key_press(event, key) {
                        if codes[2] == 9 && codes[3] == 14 {
                            self.pc += 2;
                            return true;
                        } else if codes[2] == 10 && codes[3] == 1 {
                            return true;
                        }
                    }
                    false
                },
                KeyEvent::Other => false,
            }
        } else {
            match event {
                KeyEvent::KeyDown(Some(name)) => {
                    let key = key_for_name(name.as_str());
                    self.registers[x] = key.unwrap();
                    true
                },
                _ => false,
            }
        }
    }

    /// Ends the wait of instruction `codes` when the events ran out before
    /// `key_event` said to stop.
    pub fn events_exhausted(&mut self, codes: [u16; 4])
        requires
            can_exhaust(old(self)@, codes),
        ensures
            final(self)@ == exhausted_step(old(self)@, codes),
    {
        if codes[0] == 14 {
            self.pc += 2;
        } else {
            self.pc -= 2;
        }
    }
}

} // verus!
