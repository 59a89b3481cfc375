use vstd::prelude::*;
use crate::timer::{DELAY_START, DelayTimer};

verus! {

/// Bytes of memory the machine addresses.
pub const MEMORY_SIZE: usize = 4096;

/// Address at which programs are loaded and execution starts.
pub const PROGRAM_START: u16 = 512;

/// Number of bytes of the built-in hexadecimal font (16 glyphs of 5 rows).
pub const FONT_SIZE: usize = 80;

/// The built-in font: glyphs for the digits 0 to F, five rows of four pixels each,
/// stored from address 0.
pub open spec fn font() -> Seq<u8> {
    seq![
        0xF0u8, 0x90, 0x90, 0x90, 0xF0, // 0
        0x20, 0x60, 0x20, 0x20, 0x70, // 1
        0xF0, 0x10, 0xF0, 0x80, 0xF0, // 2
        0xF0, 0x10, 0xF0, 0x10, 0xF0, // 3
        0x90, 0x90, 0xF0, 0x10, 0x10, // 4
        0xF0, 0x80, 0xF0, 0x10, 0xF0, // 5
        0xF0, 0x80, 0xF0, 0x90, 0xF0, // 6
        0xF0, 0x10, 0x20, 0x40, 0x40, // 7
        0xF0, 0x90, 0xF0, 0x90, 0xF0, // 8
        0xF0, 0x90, 0xF0, 0x10, 0xF0, // 9
        0xF0, 0x90, 0xF0, 0x90, 0x90, // A
        0xE0, 0x90, 0xE0, 0x90, 0xE0, // B
        0xF0, 0x80, 0x80, 0x80, 0xF0, // C
        0xE0, 0x90, 0x90, 0x90, 0xE0, // D
        0xF0, 0x80, 0xF0, 0x80, 0xF0, // E
        0xF0, 0x80, 0xF0, 0x80, 0x80, // F
    ]
}

/// The abstract state of the machine: what every contract speaks of.
pub struct Machine {
    pub memory: Seq<u8>,
    pub registers: Seq<u8>,
    pub i: u16,
    pub pc: u16,
    pub stack: Seq<u16>,
    pub init: bool,
    pub draw: bool,
}

/// A CHIP-8 machine: 4 KiB of memory, sixteen 8-bit registers `V0`..`VF`,
/// the index register `I`, the program counter, the call stack, and two flags:
/// whether the timer was started and whether the last instruction drew.
pub struct Emulator {
    pub memory: [u8; 4096],
    pub registers: [u8; 16],
    pub i: u16,
    pub pc: u16,
    pub stack: Vec<u16>,
    pub init: bool,
    pub draw: bool,
}

impl View for Emulator {
    type V = Machine;

    open spec fn view(&self) -> Machine {
        Machine {
            memory: self.memory@,
            registers: self.registers@,
            i: self.i,
            pc: self.pc,
            stack: self.stack@,
            init: self.init,
            draw: self.draw,
        }
    }
}

/// Memory as it stands after the font is written over `memory`.
pub open spec fn with_font(memory: Seq<u8>) -> Seq<u8> {
    Seq::new(memory.len(), |a: int| if a < FONT_SIZE { font()[a] } else { memory[a] })
}

/// The state of a freshly made machine.
pub open spec fn initial_machine() -> Machine {
    Machine {
        memory: with_font(Seq::new(4096, |a: int| 0u8)),
        registers: Seq::new(16, |k: int| 0u8),
        i: 0,
        pc: PROGRAM_START,
        stack: Seq::empty(),
        init: false,
        draw: false,
    }
}

/// The four nibbles of the instruction word `hi:lo`, most significant first.
pub open spec fn nibbles(hi: u8, lo: u8) -> Seq<u16> {
    seq![(hi / 16) as u16, (hi % 16) as u16, (lo / 16) as u16, (lo % 16) as u16]
}

/// Memory after a program image is written at `PROGRAM_START`: as many bytes as fit.
pub open spec fn with_program(memory: Seq<u8>, program: Seq<u8>) -> Seq<u8> {
    Seq::new(
        memory.len(),
        |a: int|
            if PROGRAM_START <= a < PROGRAM_START + program.len() {
                program[a - PROGRAM_START]
            } else {
                memory[a]
            },
    )
}

impl Emulator {
    /// A machine with the font in low memory, every register and all other memory
    /// zero, an empty stack and the program counter at `PROGRAM_START`.
    pub fn new() -> (em: Emulator)
        ensures
            em@ == initial_machine(),
    {
        let mut memory: [u8; 4096] = [0; 4096];
        Self::load_fonts(&mut memory);
        let em = Emulator {
            memory,
            registers: [0; 16],
            i: 0,
            pc: PROGRAM_START,
            stack: Vec::new(),
            init: false,
            draw: false,
        };
        assert(em@.registers =~= initial_machine().registers);
        assert(em@.memory =~= initial_machine().memory);
        em
    }

    /// A fresh machine, as `new` makes it, together with its delay timer holding
    /// `DELAY_START` (60). The timer is kept apart from the machine so that the clock
    /// that counts it down can share it.
    pub fn power_on() -> (parts: (Emulator, DelayTimer))
        ensures
            parts.0@ == initial_machine(),
            parts.1@ == DELAY_START,
            parts.1@ == 60,
    {
        (Emulator::new(), DelayTimer::new())
    }

    /// Writes the built-in font at the start of `memory`, leaving the rest as it was.
    fn load_fonts(memory: &mut [u8; 4096])
        ensures
            final(memory)@ == with_font(old(memory)@),
    {
        let font_data: Vec<u8> = vec![
            0xF0, 0x90, 0x90, 0x90, 0xF0, // 0
            0x20, 0x60, 0x20, 0x20, 0x70, // 1
            0xF0, 0x10, 0xF0, 0x80, 0xF0, // 2
            0xF0, 0x10, 0xF0, 0x10, 0xF0, // 3
            0x90, 0x90, 0xF0, 0x10, 0x10, // 4
            0xF0, 0x80, 0xF0, 0x10, 0xF0, // 5
            0xF0, 0x80, 0xF0, 0x90, 0xF0, // 6
            0xF0, 0x10, 0x20, 0x40, 0x40, // 7
            0xF0, 0x90, 0xF0, 0x90, 0xF0, // 8
            0xF0, 0x90, 0xF0, 0x10, 0xF0, // 9
            0xF0, 0x90, 0xF0, 0x90, 0x90, // A
            0xE0, 0x90, 0xE0, 0x90, 0xE0, // B
            0xF0, 0x80, 0x80, 0x80, 0xF0, // C
            0xE0, 0x90, 0x90, 0x90, 0xE0, // D
            0xF0, 0x80, 0xF0, 0x80, 0xF0, // E
            0xF0, 0x80, 0xF0, 0x80, 0x80, // F
        ];
        assert(font_data@ =~= font());
        let ghost start = memory@;
        let mut k: usize = 0;
        while k < font_data.len()
            invariant
                font_data@ == font(),
                k <= FONT_SIZE,
                memory@.len() == 4096,
                forall|a: int| 0 <= a < k ==> memory@[a] == font()[a],
                forall|a: int| k <= a < 4096 ==> memory@[a] == start[a],
            decreases font_data.len() - k,
        {
            memory[k] = font_data[k];
            k += 1;
        }
        assert(memory@ =~= with_font(start));
    }

    /// Fetches the instruction at the program counter, advances the counter past it,
    /// and splits it into its four nibbles.
    pub fn fetch_decode(&mut self) -> (codes: [u16; 4])
        requires
            old(self).pc + 1 < MEMORY_SIZE,
        ensures
            codes@ == nibbles(old(self).memory@[old(self).pc as int], old(self).memory@[old(self).pc + 1]),
            final(self)@ == (Machine { pc: (old(self).pc + 2) as u16, ..old(self)@ }),
    {
        let opcode1 = self.memory[self.pc as usize] as u16;
        let opcode2 = self.memory[(self.pc + 1) as usize] as u16;
        self.pc += 2;
        assert(opcode1 >> 4 == opcode1 / 16 && opcode1 & 15 == opcode1 % 16) by (bit_vector)
            requires opcode1 < 256;
        assert(opcode2 >> 4 == opcode2 / 16 && opcode2 & 15 == opcode2 % 16) by (bit_vector)
            requires opcode2 < 256;
        let codes = [opcode1 >> 4, opcode1 & 15, opcode2 >> 4, opcode2 & 15];
        assert(codes@ =~= nibbles(old(self).memory@[old(self).pc as int], old(self).memory@[old(self).pc + 1]));
        codes
    }

    /// Writes a program image into memory from `PROGRAM_START` on: the first
    /// `MEMORY_SIZE - PROGRAM_START` bytes of `program`, or all of it if it is shorter.
    /// Returns how many bytes were written.
    pub fn load_program(&mut self, program: &[u8]) -> (written: usize)
        ensures
            written == if program@.len() < MEMORY_SIZE - PROGRAM_START {
                program@.len() as int
            } else {
                MEMORY_SIZE - PROGRAM_START
            },
            final(self)@ == (Machine {
                memory: with_program(old(self).memory@, program@.take(written as int)),
                ..old(self)@
            }),
    {
        let room: usize = MEMORY_SIZE - 512;
        let n: usize = if program.len() < room { program.len() } else { room };
        let ghost start = self.memory@;
        let mut k: usize = 0;
        while k < n
            invariant
                n <= room,
                room == MEMORY_SIZE - PROGRAM_START,
                start == old(self).memory@,
                self@ == (Machine { memory: self.memory@, ..old(self)@ }),
                n <= program@.len(),
                k <= n,
                self.memory@.len() == 4096,
                forall|a: int| 0 <= a < 512 ==> self.memory@[a] == start[a],
                forall|a: int| 512 <= a < 512 + k ==> self.memory@[a] == program@[a - 512],
                forall|a: int| 512 + k <= a < 4096 ==> self.memory@[a] == start[a],
            decreases n - k,
        {
            self.memory[512 + k] = program[k];
            k += 1;
        }
        assert(self.memory@ =~= with_program(start, program@.take(n as int)));
        n
    }
}

} // verus!
