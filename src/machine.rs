//! The machine state, its mathematical model, and the operations on it:
//! loading, fetching, executing, drawing, timers and key input.

use vstd::prelude::*;
use crate::instruction::{decode, decoded, operands_in_range, operands_valid, Instruction};
use crate::nibble::low_nibble;
use vstd::arithmetic::div_mod::{
    lemma_add_mod_noop, lemma_mod_add_multiples_vanish, lemma_mod_sub_multiples_vanish,
    lemma_small_mod,
};

verus! {

/// Bytes of addressable memory; every address is taken modulo this size.
pub const MEMORY_SIZE: usize = 4096;
/// Columns of the framebuffer.
pub const DISPLAY_WIDTH: usize = 64;
/// Rows of the framebuffer.
pub const DISPLAY_HEIGHT: usize = 32;
/// General-purpose byte registers; the last one doubles as the flag register.
pub const REGISTER_SIZE: usize = 16;
/// Where programs are loaded and where execution starts.
pub const PROGRAM_MEMORY_START: usize = 0x200;
/// Where the digit glyphs are installed.
pub const FONT_START: usize = 0x50;
/// Bytes of one glyph.
pub const GLYPH_SIZE: usize = 5;
/// The deepest call nesting that the stack-pointer byte can count.
pub const STACK_LIMIT: usize = 255;
/// The flag register.
pub const FLAG: u8 = 0xF;

/// Whether the machine fetches instructions, or waits for a key press to
/// complete a pending wait-for-key instruction.
#[derive(Clone, Copy, Debug, PartialEq, Eq, Structural)]
pub enum Mode {
    Running,
    AwaitingKey { register: u8 },
}

/// What made execution stop.
#[derive(Clone, Copy, Debug, PartialEq, Eq, Structural)]
pub enum FaultKind {
    /// The instruction matches no opcode.
    UnknownInstruction,
    /// A return with an empty call stack.
    StackUnderflow,
    /// A call with a full call stack.
    StackOverflow,
    /// An operand outside the range of its field.
    OperandOutOfRange,
}

/// A fatal condition, with the instruction that raised it and the program
/// counter at that moment (just past the instruction when it was fetched).
#[derive(Clone, Copy, Debug, PartialEq, Eq, Structural)]
pub struct Fault {
    pub kind: FaultKind,
    pub instruction: Instruction,
    pub pc: u16,
}

/// The machine as a mathematical value: memory as a sequence of bytes, the
/// framebuffer as rows of pixels, the registers, the call stack (last entry on
/// top), program counter, index register, timers, mode, and the key that is
/// down, if any.
pub ghost struct Machine {
    pub memory: Seq<u8>,
    pub display: Seq<Seq<u8>>,
    pub registers: Seq<u8>,
    pub stack: Seq<u16>,
    pub pc: u16,
    pub index: u16,
    pub delay_timer: u8,
    pub sound_timer: u8,
    pub mode: Mode,
    pub key: Option<u8>,
}

/// The program counter one instruction on: the 16-bit counter raised by 2.
pub open spec fn next_pc(pc: u16) -> u16 {
    ((pc + 2) % 65536) as u16
}

/// The program counter one instruction back: the 16-bit counter lowered by 2.
pub open spec fn prev_pc(pc: u16) -> u16 {
    ((pc + 65534) % 65536) as u16
}

/// How far `a` lies past `base`, counted modulo `modulus`.
pub open spec fn offset(a: int, base: int, modulus: int) -> int {
    (a - base % modulus + modulus) % modulus
}

/// Bit `b` of `byte`, counted from the most significant bit.
pub open spec fn bit_at(byte: u8, b: int) -> bool {
    (byte >> ((7 - b) as u8)) & 1u8 == 1u8
}

/// A pixel after an XOR with a set bit.
pub open spec fn flip(p: u8) -> u8 {
    if p == 0 { 1 } else { 0 }
}

pub open spec fn blank_display() -> Seq<Seq<u8>> {
    Seq::new(32, |y: int| Seq::new(64, |x: int| 0u8))
}

/// The glyphs of the hexadecimal digits 0 to F, five rows of one byte each.
pub open spec fn font_glyphs() -> Seq<u8> {
    seq![
        0xF0, 0x90, 0x90, 0x90, 0xF0, 0x20, 0x60, 0x20, 0x20, 0x70,
        0xF0, 0x10, 0xF0, 0x80, 0xF0, 0xF0, 0x10, 0xF0, 0x10, 0xF0,
        0x90, 0x90, 0xF0, 0x10, 0x10, 0xF0, 0x80, 0xF0, 0x10, 0xF0,
        0xF0, 0x80, 0xF0, 0x90, 0xF0, 0xF0, 0x10, 0x20, 0x40, 0x40,
        0xF0, 0x90, 0xF0, 0x90, 0xF0, 0xF0, 0x90, 0xF0, 0x10, 0xF0,
        0xF0, 0x90, 0xF0, 0x90, 0x90, 0xE0, 0x90, 0xE0, 0x90, 0xE0,
        0xF0, 0x80, 0x80, 0x80, 0xF0, 0xE0, 0x90, 0x90, 0x90, 0xE0,
        0xF0, 0x80, 0xF0, 0x80, 0xF0, 0xF0, 0x80, 0xF0, 0x80, 0x80,
    ]
}

/// `memory` with `bytes` written from address `start` on.
pub open spec fn written(memory: Seq<u8>, start: int, bytes: Seq<u8>) -> Seq<u8> {
    Seq::new(
        memory.len(),
        |a: int| if start <= a < start + bytes.len() { bytes[a - start] } else { memory[a] },
    )
}

/// The machine at reset: everything zero, the program counter at the load address.
pub open spec fn initial_machine() -> Machine {
    Machine {
        memory: Seq::new(4096, |a: int| 0u8),
        display: blank_display(),
        registers: Seq::new(16, |r: int| 0u8),
        stack: Seq::empty(),
        pc: 0x200,
        index: 0,
        delay_timer: 0,
        sound_timer: 0,
        mode: Mode::Running,
        key: None,
    }
}

impl Machine {
    pub open spec fn wf(self) -> bool {
        &&& self.memory.len() == 4096
        &&& self.registers.len() == 16
        &&& self.display.len() == 32
        &&& forall|y: int| 0 <= y < 32 ==> #[trigger] self.display[y].len() == 64
        &&& forall|y: int, x: int|
            0 <= y < 32 && 0 <= x < 64 ==> #[trigger] self.display[y][x] <= 1
        &&& self.stack.len() <= STACK_LIMIT
        &&& (self.mode matches Mode::AwaitingKey { register } ==> register < 16)
    }

    pub open spec fn reg(self, r: u8) -> u8 {
        self.registers[r as int]
    }

    pub open spec fn set_reg(self, r: u8, v: u8) -> Machine {
        Machine { registers: self.registers.update(r as int, v), ..self }
    }

    /// Register `r` set to `v`, then the flag register set to 1 or 0 by `flag`.
    pub open spec fn set_reg_and_flag(self, r: u8, v: u8, flag: bool) -> Machine {
        self.set_reg(r, v).set_reg(FLAG, if flag { 1 } else { 0 })
    }

    pub open spec fn with_pc(self, pc: u16) -> Machine {
        Machine { pc, ..self }
    }

    /// The next instruction skipped when `cond` holds.
    pub open spec fn skip_if(self, cond: bool) -> Machine {
        if cond { self.with_pc(next_pc(self.pc)) } else { self }
    }

    /// The memory address `k` bytes past the index register.
    pub open spec fn index_addr(self, k: int) -> int {
        (self.index + k) % 4096
    }

    /// The state after a fetch: the program counter one instruction on.
    pub open spec fn advanced(self) -> Machine {
        self.with_pc(next_pc(self.pc))
    }

    /// The instruction at the program counter.
    pub open spec fn current_instruction(self) -> Instruction {
        decoded(self.memory[self.pc as int % 4096], self.memory[(self.pc as int + 1) % 4096])
    }

    /// Whether a sprite of `n` rows drawn at column `x` and row `y` covers
    /// pixel (`py`, `px`) with a set bit. Rows come from memory at the index
    /// register; the origin and the covered pixels wrap around the edges.
    pub open spec fn sprite_bit(self, x: u8, y: u8, n: u8, py: int, px: int) -> bool {
        let row = offset(py, y as int, 32);
        let col = offset(px, x as int, 64);
        row < n && col < 8 && bit_at(self.memory[self.index_addr(row)], col)
    }

    /// Whether that sprite turns a pixel that is set off.
    pub open spec fn collides(self, x: u8, y: u8, n: u8) -> bool {
        exists|py: int, px: int|
            0 <= py < 32 && 0 <= px < 64 && #[trigger] self.sprite_bit(x, y, n, py, px)
                && self.display[py][px] != 0
    }

    /// The framebuffer with that sprite XORed into it.
    pub open spec fn drawn_display(self, x: u8, y: u8, n: u8) -> Seq<Seq<u8>> {
        Seq::new(
            32,
            |py: int|
                Seq::new(
                    64,
                    |px: int|
                        if self.sprite_bit(x, y, n, py, px) {
                            flip(self.display[py][px])
                        } else {
                            self.display[py][px]
                        },
                ),
        )
    }

    /// The machine after drawing that sprite, with the flag register telling
    /// whether it collided.
    pub open spec fn drawn(self, x: u8, y: u8, n: u8) -> Machine {
        Machine { display: self.drawn_display(x, y, n), ..self }.set_reg(
            FLAG,
            if self.collides(x, y, n) { 1 } else { 0 },
        )
    }

    /// Memory with registers 0 to `last` stored from the index register on.
    pub open spec fn stored_registers(self, last: u8) -> Seq<u8> {
        Seq::new(
            4096,
            |a: int|
                if offset(a, self.index as int, 4096) <= last {
                    self.registers[offset(a, self.index as int, 4096)]
                } else {
                    self.memory[a]
                },
        )
    }

    /// Registers 0 to `last` read from memory from the index register on.
    pub open spec fn loaded_registers(self, last: u8) -> Seq<u8> {
        Seq::new(
            16,
            |r: int| if r <= last { self.memory[self.index_addr(r)] } else { self.registers[r] },
        )
    }

    /// The timers after one tick: each one less, down to 0.
    pub open spec fn ticked(self) -> Machine {
        Machine {
            delay_timer: if self.delay_timer > 0 { (self.delay_timer - 1) as u8 } else { 0 },
            sound_timer: if self.sound_timer > 0 { (self.sound_timer - 1) as u8 } else { 0 },
            ..self
        }
    }

    /// The machine once `key` is the key that is down. A pending wait for a
    /// key completes with it: the key goes to the waiting register and
    /// execution moves past the wait.
    pub open spec fn with_key(self, key: Option<u8>) -> Machine {
        match (self.mode, key) {
            (Mode::AwaitingKey { register }, Some(k)) => Machine {
                mode: Mode::Running,
                key,
                ..self.set_reg(register, k).advanced()
            },
            _ => Machine { key, ..self },
        }
    }
}

/// Within one period, the address `k` past `base` is the one whose offset
/// from `base` is `k`.
pub proof fn lemma_offset(a: int, base: int, k: int, modulus: int)
    requires
        0 < modulus,
        0 <= a < modulus,
        0 <= k < modulus,
        0 <= base,
    ensures
        (a == (base + k) % modulus) <==> (offset(a, base, modulus) == k),
        0 <= offset(a, base, modulus) < modulus,
{
    let b = base % modulus;
    assert(0 <= b < modulus);
    lemma_small_mod(k as nat, modulus as nat);
    lemma_add_mod_noop(base, k, modulus);
    assert((base + k) % modulus == (b + k) % modulus);
    lemma_mod_sub_multiples_vanish(b + k, modulus);
    if b + k < modulus {
        lemma_small_mod((b + k) as nat, modulus as nat);
    } else {
        lemma_small_mod((b + k - modulus) as nat, modulus as nat);
    }
    lemma_mod_add_multiples_vanish(a - b, modulus);
    if a >= b {
        lemma_small_mod((a - b) as nat, modulus as nat);
    } else {
        lemma_small_mod((a - b + modulus) as nat, modulus as nat);
    }
}

/// The outcome of executing `i` on `m`, with `random` as the byte drawn by
/// the random instruction: the next machine, or the kind of fault.
pub open spec fn step(m: Machine, i: Instruction, random: u8) -> Result<Machine, FaultKind> {
    if !operands_in_range(i) {
        Err(FaultKind::OperandOutOfRange)
    } else {
        match i {
            Instruction::NoOperation => Ok(m),
            Instruction::ClearScreen => Ok(Machine { display: blank_display(), ..m }),
            Instruction::ReturnFromSubroutine => {
                if m.stack.len() == 0 {
                    Err(FaultKind::StackUnderflow)
                } else {
                    Ok(Machine { stack: m.stack.drop_last(), pc: m.stack.last(), ..m })
                }
            },
            Instruction::Jump { address } => Ok(m.with_pc(address)),
            Instruction::CallSubroutine { address } => {
                if m.stack.len() >= STACK_LIMIT {
                    Err(FaultKind::StackOverflow)
                } else {
                    Ok(Machine { stack: m.stack.push(m.pc), pc: address, ..m })
                }
            },
            Instruction::SkipIfEqual { register, byte } => Ok(m.skip_if(m.reg(register) == byte)),
            Instruction::SkipIfNotEqual { register, byte } => Ok(m.skip_if(m.reg(register) != byte)),
            Instruction::SkipIfRegisterEqual { register1, register2 } => Ok(
                m.skip_if(m.reg(register1) == m.reg(register2)),
            ),
            Instruction::LoadByteIntoRegister { register, byte } => Ok(m.set_reg(register, byte)),
            Instruction::AddByteToRegister { register, byte } => Ok(
                m.set_reg(register, ((m.reg(register) + byte) % 256) as u8),
            ),
            Instruction::LoadRegisterIntoRegister { register1, register2 } => Ok(
                m.set_reg(register1, m.reg(register2)),
            ),
            Instruction::OrRegisters { register1, register2 } => Ok(
                m.set_reg(register1, m.reg(register1) | m.reg(register2)),
            ),
            Instruction::AndRegisters { register1, register2 } => Ok(
                m.set_reg(register1, m.reg(register1) & m.reg(register2)),
            ),
            Instruction::XorRegisters { register1, register2 } => Ok(
                m.set_reg(register1, m.reg(register1) ^ m.reg(register2)),
            ),
            Instruction::AddRegisters { register1, register2 } => {
                let sum = m.reg(register1) + m.reg(register2);
                Ok(m.set_reg_and_flag(register1, (sum % 256) as u8, sum > 255))
            },
            Instruction::SubRegisters { register1, register2 } => {
                let (a, b) = (m.reg(register1), m.reg(register2));
                Ok(m.set_reg_and_flag(register1, ((a - b + 256) % 256) as u8, a >= b))
            },
            Instruction::ShiftRight { register } => {
                let v = m.reg(register);
                Ok(m.set_reg_and_flag(register, v / 2, v % 2 == 1))
            },
            Instruction::SubNRegisters { register1, register2 } => {
                let (a, b) = (m.reg(register1), m.reg(register2));
                Ok(m.set_reg_and_flag(register1, ((b - a + 256) % 256) as u8, b >= a))
            },
            Instruction::ShiftLeft { register } => {
                let v = m.reg(register);
                Ok(m.set_reg_and_flag(register, ((v * 2) % 256) as u8, v >= 128))
            },
            Instruction::SkipIfRegisterNotEqual { register1, register2 } => Ok(
                m.skip_if(m.reg(register1) != m.reg(register2)),
            ),
            Instruction::LoadAddressIntoIndex { address } => Ok(Machine { index: address, ..m }),
            Instruction::JumpToAddressPlusV0 { address } => Ok(
                m.with_pc((address + m.reg(0)) as u16),
            ),
            Instruction::RandomByteAndIntoRegister { register, byte } => Ok(
                m.set_reg(register, random & byte),
            ),
            Instruction::DrawSprite { register1, register2, nibble } => Ok(
                m.drawn(m.reg(register1), m.reg(register2), nibble),
            ),
            Instruction::SkipIfKeyPressed { register } => Ok(
                m.skip_if(m.key == Some(m.reg(register))),
            ),
            Instruction::SkipIfKeyNotPressed { register } => Ok(
                m.skip_if(m.key != Some(m.reg(register))),
            ),
            Instruction::LoadDelayTimerIntoRegister { register } => Ok(
                m.set_reg(register, m.delay_timer),
            ),
            Instruction::WaitForKeyPress { register } => match m.key {
                Some(k) => Ok(m.set_reg(register, k)),
                None => Ok(
                    Machine { mode: Mode::AwaitingKey { register }, pc: prev_pc(m.pc), ..m },
                ),
            },
            Instruction::LoadRegisterIntoDelayTimer { register } => Ok(
                Machine { delay_timer: m.reg(register), ..m },
            ),
            Instruction::LoadRegisterIntoSoundTimer { register } => Ok(
                Machine { sound_timer: m.reg(register), ..m },
            ),
            Instruction::AddRegisterToIndex { register } => Ok(
                Machine { index: ((m.index + m.reg(register)) % 65536) as u16, ..m },
            ),
            Instruction::LoadFontLocationIntoIndex { register } => Ok(
                Machine { index: (FONT_START + (m.reg(register) % 16) * GLYPH_SIZE) as u16, ..m },
            ),
            Instruction::LoadBinaryCodedDecimalIntoMemory { register } => {
                let v = m.reg(register);
                Ok(
                    Machine {
                        memory: m.memory.update(m.index_addr(0), v / 100).update(
                            m.index_addr(1),
                            (v / 10) % 10,
                        ).update(m.index_addr(2), v % 10),
                        ..m
                    },
                )
            },
            Instruction::LoadRegistersIntoMemory { register } => Ok(
                Machine { memory: m.stored_registers(register), ..m },
            ),
            Instruction::LoadMemoryIntoRegisters { register } => Ok(
                Machine { registers: m.loaded_registers(register), ..m },
            ),
            Instruction::UnknownInstruction => Err(FaultKind::UnknownInstruction),
        }
    }
}

/// The machine: 4096 bytes of memory, a 64 by 32 framebuffer of one-bit
/// pixels (rows of columns), sixteen byte registers, the call stack with its
/// depth counter `sp`, program counter, index register, the two timers, the
/// mode, and the key that is down, if any.
#[derive(Debug)]
pub struct CHIP8 {
    pub memory: [u8; MEMORY_SIZE],
    pub display: [[u8; DISPLAY_WIDTH]; DISPLAY_HEIGHT],
    pub registers: [u8; REGISTER_SIZE],
    pub stack: Vec<u16>,
    pub pc: u16,
    pub sp: u8,
    pub index: u16,
    pub delay_timer: u8,
    pub sound_timer: u8,
    pub mode: Mode,
    pub key: Option<u8>,
}

impl View for CHIP8 {
    type V = Machine;

    open spec fn view(&self) -> Machine {
        Machine {
            memory: self.memory@,
            display: Seq::new(32, |y: int| self.display@[y]@),
            registers: self.registers@,
            stack: self.stack@,
            pc: self.pc,
            index: self.index,
            delay_timer: self.delay_timer,
            sound_timer: self.sound_timer,
            mode: self.mode,
            key: self.key,
        }
    }
}

impl Default for CHIP8 {
    /// The machine at reset.
    fn default() -> (r: CHIP8)
        ensures
            r@ == initial_machine(),
            r.wf(),
    {
        let r = CHIP8 {
            memory: [0u8; MEMORY_SIZE],
            display: [[0u8; DISPLAY_WIDTH]; DISPLAY_HEIGHT],
            registers: [0u8; REGISTER_SIZE],
            stack: Vec::new(),
            pc: PROGRAM_MEMORY_START as u16,
            sp: 0,
            index: 0,
            delay_timer: 0,
            sound_timer: 0,
            mode: Mode::Running,
            key: None,
        };
        assert(r@.memory =~= initial_machine().memory);
        assert(r@.registers =~= initial_machine().registers);
        assert(r@.display =~~= blank_display());
        r
    }
}

impl CHIP8 {
    /// The depth counter follows the call stack, and the model is well formed.
    pub open spec fn wf(&self) -> bool {
        &&& self.sp as int == self.stack@.len()
        &&& self@.wf()
    }

    /// Installs the digit glyphs at the font region.
    pub fn load_font(&mut self)
        requires
            old(self).wf(),
        ensures
            final(self).wf(),
            final(self)@ == (Machine {
                memory: written(old(self)@.memory, FONT_START as int, font_glyphs()),
                ..old(self)@
            }),
    {
        let font: [u8; 80] = [
            0xF0, 0x90, 0x90, 0x90, 0xF0, // 0
            0x20, 0x60, 0x20, 0x20, 0x70, // 1
            0xF0, 0x10, 0xF0, 0x80, 0xF0, // 2
            0xF0, 0x10, 0xF0, 0x10, 0xF0, // 3
            0x90, 0x90, 0xF0, 0x10, 0x10, // 4
            0xF0, 0x80, 0xF0, 0x10, 0xF0, // 5
            0xF0, 0x80, 0xF0, 0x90, 0xF0, // 6
            0xF0, 0x10, 0x20, 0x40, 0x40, // 7
            0xF0, 0x90, 0xF0, 0x90, 0xF0, // 8
            0xF0, 0x90, 0xF0, 0x10, 0xF0, // 9
            0xF0, 0x90, 0xF0, 0x90, 0x90, // A
            0xE0, 0x90, 0xE0, 0x90, 0xE0, // B
            0xF0, 0x80, 0x80, 0x80, 0xF0, // C
            0xE0, 0x90, 0x90, 0x90, 0xE0, // D
            0xF0, 0x80, 0xF0, 0x80, 0xF0, // E
            0xF0, 0x80, 0xF0, 0x80, 0x80, // F
        ];
        assert(font@ =~= font_glyphs());
        self.load_from_slice(&font, Some(FONT_START as u16));
    }

    /// Writes `slice` into memory from `address` on, or from the program
    /// start when no address is given.
    pub fn load_from_slice(&mut self, slice: &[u8], address: Option<u16>)
        requires
            old(self).wf(),
            (match address {
                Some(a) => a as int,
                None => PROGRAM_MEMORY_START as int,
            }) + slice@.len() <= MEMORY_SIZE,
        ensures
            final(self).wf(),
            final(self)@ == (Machine {
                memory: written(
                    old(self)@.memory,
                    match address {
                        Some(a) => a as int,
                        None => PROGRAM_MEMORY_START as int,
                    },
                    slice@,
                ),
                ..old(self)@
            }),
    {
        let start: usize = match address {
            Some(a) => a as usize,
            None => PROGRAM_MEMORY_START,
        };
        let ghost before = self@;
        let mut i: usize = 0;
        while i < slice.len()
            invariant
                0 <= i <= slice@.len(),
                start + slice@.len() <= MEMORY_SIZE,
                self.wf(),
                self@ == (Machine { memory: self@.memory, ..before }),
                self@.memory =~= written(before.memory, start as int, slice@.take(i as int)),
            decreases slice@.len() - i,
        {
            self.memory[start + i] = slice[i];
            i = i + 1;
        }
        assert(slice@.take(i as int) =~= slice@);
    }

    /// Moves the program counter one instruction on.
    pub fn skip(&mut self)
        ensures
            final(self).pc == next_pc(old(self).pc),
            final(self)@ == old(self)@.advanced(),
            final(self).sp == old(self).sp,
    {
        self.pc = ((self.pc as u32 + 2) % 65536) as u16;
    }

    /// Reads the two bytes at the program counter, moves the program counter
    /// past them, and returns the instruction they hold.
    pub fn fetch(&mut self) -> (r: Instruction)
        ensures
            r == old(self)@.current_instruction(),
            final(self)@ == old(self)@.advanced(),
            final(self).sp == old(self).sp,
            operands_in_range(r),
    {
        let at = self.pc as usize % MEMORY_SIZE;
        let first = self.memory[at];
        let second = self.memory[(at + 1) % MEMORY_SIZE];
        self.skip();
        decode(first, second)
    }

    /// One tick of the 60 Hz clock: each timer one less, down to 0.
    pub fn tick(&mut self)
        requires
            old(self).wf(),
        ensures
            final(self).wf(),
            final(self)@ == old(self)@.ticked(),
    {
        if self.delay_timer > 0 {
            self.delay_timer = self.delay_timer - 1;
        }
        if self.sound_timer > 0 {
            self.sound_timer = self.sound_timer - 1;
        }
    }

    /// Records `key` as the key that is down (`None`: no key). A pending wait
    /// for a key completes with it.
    pub fn set_key(&mut self, key: Option<u8>)
        requires
            old(self).wf(),
        ensures
            final(self).wf(),
            final(self)@ == old(self)@.with_key(key),
    {
        match (self.mode, key) {
            (Mode::AwaitingKey { register }, Some(k)) => {
                self.registers[register as usize] = k;
                self.skip();
                self.mode = Mode::Running;
            },
            _ => {},
        }
        self.key = key;
    }

    /// Sets register `r` to `v`, then the flag register to 1 or 0 by `flag`.
    fn set_with_flag(&mut self, r: u8, v: u8, flag: bool)
        requires
            old(self).wf(),
            r < 16,
        ensures
            final(self).wf(),
            final(self)@ == old(self)@.set_reg_and_flag(r, v, flag),
    {
        self.registers[r as usize] = v;
        self.registers[FLAG as usize] = if flag { 1 } else { 0 };
    }

    /// Copies registers 0 to `last` into memory from the index register on.
    fn store_registers(&mut self, last: u8)
        requires
            old(self).wf(),
            last < 16,
        ensures
            final(self).wf(),
            final(self)@ == (Machine { memory: old(self)@.stored_registers(last), ..old(self)@ }),
    {
        let ghost before = self@;
        let mut i: usize = 0;
        while i <= last as usize
            invariant
                i <= last as usize + 1,
                last < 16,
                self.wf(),
                self@ == (Machine { memory: self@.memory, ..before }),
                forall|a: int|
                    0 <= a < 4096 ==> #[trigger] self@.memory[a] == if offset(
                        a,
                        before.index as int,
                        4096,
                    ) < i {
                        before.registers[offset(a, before.index as int, 4096)]
                    } else {
                        before.memory[a]
                    },
            decreases last as usize + 1 - i,
        {
            let at = (self.index as usize + i) % MEMORY_SIZE;
            proof {
                assert forall|a: int| 0 <= a < 4096 implies (a == at) <==> (offset(
                    a,
                    before.index as int,
                    4096,
                ) == i) by {
                    lemma_offset(a, before.index as int, i as int, 4096);
                }
            }
            self.memory[at] = self.registers[i];
            i = i + 1;
        }
        proof {
            assert forall|a: int| 0 <= a < 4096 implies 0 <= #[trigger] offset(
                a,
                before.index as int,
                4096,
            ) < 4096 by {
                lemma_offset(a, before.index as int, 0, 4096);
            }
        }
        assert(self@.memory =~= before.stored_registers(last));
    }

    /// Reads registers 0 to `last` from memory from the index register on.
    fn load_registers(&mut self, last: u8)
        requires
            old(self).wf(),
            last < 16,
        ensures
            final(self).wf(),
            final(self)@ == (Machine {
                registers: old(self)@.loaded_registers(last),
                ..old(self)@
            }),
    {
        let ghost before = self@;
        let mut i: usize = 0;
        while i <= last as usize
            invariant
                i <= last as usize + 1,
                last < 16,
                self.wf(),
                self@ == (Machine { registers: self@.registers, ..before }),
                forall|r: int|
                    0 <= r < 16 ==> #[trigger] self@.registers[r] == if r < i {
                        before.memory[before.index_addr(r)]
                    } else {
                        before.registers[r]
                    },
            decreases last as usize + 1 - i,
        {
            self.registers[i] = self.memory[(self.index as usize + i) % MEMORY_SIZE];
            i = i + 1;
        }
        assert(self@.registers =~= before.loaded_registers(last));
    }

    /// Sets the pixel at row `py` and column `px` to `v`.
    fn set_pixel(&mut self, py: usize, px: usize, v: u8)
        requires
            old(self).wf(),
            py < DISPLAY_HEIGHT,
            px < DISPLAY_WIDTH,
            v <= 1,
        ensures
            final(self).wf(),
            final(self)@ == (Machine {
                display: old(self)@.display.update(
                    py as int,
                    old(self)@.display[py as int].update(px as int, v),
                ),
                ..old(self)@
            }),
    {
        let ghost before = self@;
        let mut line = self.display[py];
        line[px] = v;
        self.display[py] = line;
        assert(self@.display =~~= before.display.update(
            py as int,
            before.display[py as int].update(px as int, v),
        ));
    }

    /// XORs a sprite of `n` rows, read from memory at the index register, into
    /// the framebuffer at column `x` and row `y` (both wrapped), and sets the
    /// flag register to 1 if a set pixel was turned off, else to 0.
    fn draw_sprite(&mut self, x: u8, y: u8, n: u8)
        requires
            old(self).wf(),
            n < 16,
        ensures
            final(self).wf(),
            final(self)@ == old(self)@.drawn(x, y, n),
    {
        let ghost before = self@;
        let x0 = x as usize % DISPLAY_WIDTH;
        let y0 = y as usize % DISPLAY_HEIGHT;
        let mut collision = false;
        let mut row: usize = 0;
        while row < n as usize
            invariant
                row <= n < 16,
                x0 == x % 64,
                y0 == y % 32,
                self.wf(),
                self@ == (Machine { display: self@.display, ..before }),
                forall|py: int, px: int|
                    0 <= py < 32 && 0 <= px < 64 ==> #[trigger] self@.display[py][px] == if offset(
                        py,
                        y as int,
                        32,
                    ) < row && before.sprite_bit(x, y, n, py, px) {
                        flip(before.display[py][px])
                    } else {
                        before.display[py][px]
                    },
                collision ==> exists|py: int, px: int|
                    0 <= py < 32 && 0 <= px < 64 && offset(py, y as int, 32) < row
                        && #[trigger] before.sprite_bit(x, y, n, py, px) && before.display[py][px]
                        != 0,
                !collision ==> forall|py: int, px: int|
                    0 <= py < 32 && 0 <= px < 64 && offset(py, y as int, 32) < row
                        && #[trigger] before.sprite_bit(x, y, n, py, px) ==> before.display[py][px]
                        == 0,
            decreases n - row,
        {
            let byte = self.memory[(self.index as usize + row) % MEMORY_SIZE];
            let py = (y0 + row) % DISPLAY_HEIGHT;
            proof {
                lemma_add_mod_noop(y as int, row as int, 32);
                lemma_small_mod(row as nat, 32);
                assert forall|a: int| 0 <= a < 32 implies (a == py) <==> (offset(a, y as int, 32)
                    == row) by {
                    lemma_offset(a, y as int, row as int, 32);
                }
            }
            let mut col: usize = 0;
            while col < 8
                invariant
                    row < n < 16,
                    col <= 8,
                    x0 == x % 64,
                    py < 32,
                    byte == before.memory[before.index_addr(row as int)],
                    forall|a: int| 0 <= a < 32 ==> ((a == py) <==> (offset(a, y as int, 32) == row)),
                    self.wf(),
                    self@ == (Machine { display: self@.display, ..before }),
                    forall|qy: int, qx: int|
                        0 <= qy < 32 && 0 <= qx < 64 ==> #[trigger] self@.display[qy][qx] == if (
                        offset(qy, y as int, 32) < row || (offset(qy, y as int, 32) == row && offset(
                            qx,
                            x as int,
                            64,
                        ) < col)) && before.sprite_bit(x, y, n, qy, qx) {
                            flip(before.display[qy][qx])
                        } else {
                            before.display[qy][qx]
                        },
                    collision ==> exists|qy: int, qx: int|
                        0 <= qy < 32 && 0 <= qx < 64 && (offset(qy, y as int, 32) < row || (offset(
                            qy,
                            y as int,
                            32,
                        ) == row && offset(qx, x as int, 64) < col)) && #[trigger] before.sprite_bit(
                            x,
                            y,
                            n,
                            qy,
                            qx,
                        ) && before.display[qy][qx] != 0,
                    !collision ==> forall|qy: int, qx: int|
                        0 <= qy < 32 && 0 <= qx < 64 && (offset(qy, y as int, 32) < row || (offset(
                            qy,
                            y as int,
                            32,
                        ) == row && offset(qx, x as int, 64) < col)) && #[trigger] before.sprite_bit(
                            x,
                            y,
                            n,
                            qy,
                            qx,
                        ) ==> before.display[qy][qx] == 0,
                decreases 8 - col,
            {
                let px = (x0 + col) % DISPLAY_WIDTH;
                proof {
                    lemma_add_mod_noop(x as int, col as int, 64);
                    lemma_small_mod(col as nat, 64);
                    assert forall|a: int| 0 <= a < 64 implies (a == px) <==> (offset(
                        a,
                        x as int,
                        64,
                    ) == col) by {
                        lemma_offset(a, x as int, col as int, 64);
                    }
                    assert(before.sprite_bit(x, y, n, py as int, px as int) == bit_at(
                        byte,
                        col as int,
                    ));
                }
                if (byte >> (7 - col as u8)) & 1 == 1 {
                    if self.display[py][px] != 0 {
                        collision = true;
                        self.set_pixel(py, px, 0);
                    } else {
                        self.set_pixel(py, px, 1);
                    }
                }
                col = col + 1;
            }
            row = row + 1;
        }
        proof {
            assert forall|py: int, px: int|
                0 <= py < 32 && 0 <= px < 64 implies #[trigger] offset(py, y as int, 32) < 32
                && #[trigger] offset(px, x as int, 64) < 64 by {
                lemma_offset(py, y as int, 0, 32);
                lemma_offset(px, x as int, 0, 64);
            }
        }
        self.registers[FLAG as usize] = if collision { 1 } else { 0 };
        assert(self@.display =~~= before.drawn_display(x, y, n));
    }

    /// Executes `instruction`, with `random` as the byte that the random
    /// instruction draws. On a fault the machine is left as it was.
    pub fn execute_with_random(&mut self, instruction: Instruction, random: u8) -> (r: Result<
        (),
        Fault,
    >)
        requires
            old(self).wf(),
        ensures
            final(self).wf(),
            executed(old(self)@, old(self).pc, instruction, random, r, final(self)@),
    {
        let ghost before = self@;
        let pc = self.pc;
        if !operands_valid(&instruction) {
            return Err(Fault { kind: FaultKind::OperandOutOfRange, instruction, pc });
        }
        match instruction {
            Instruction::NoOperation => {},
            Instruction::ClearScreen => {
                self.display = [[0u8; DISPLAY_WIDTH]; DISPLAY_HEIGHT];
                assert(self@.display =~~= blank_display());
            },
            Instruction::ReturnFromSubroutine => {
                if self.stack.len() == 0 {
                    return Err(Fault { kind: FaultKind::StackUnderflow, instruction, pc });
                }
                match self.stack.pop() {
                    Some(address) => {
                        self.sp = self.sp - 1;
                        self.pc = address;
                    },
                    None => {},
                }
            },
            Instruction::Jump { address } => {
                self.pc = address;
            },
            Instruction::CallSubroutine { address } => {
                if self.stack.len() >= STACK_LIMIT {
                    return Err(Fault { kind: FaultKind::StackOverflow, instruction, pc });
                }
                self.stack.push(self.pc);
                self.sp = self.sp + 1;
                self.pc = address;
            },
            Instruction::SkipIfEqual { register, byte } => {
                if self.registers[register as usize] == byte {
                    self.skip();
                }
            },
            Instruction::SkipIfNotEqual { register, byte } => {
                if self.registers[register as usize] != byte {
                    self.skip();
                }
            },
            Instruction::SkipIfRegisterEqual { register1, register2 } => {
                if self.registers[register1 as usize] == self.registers[register2 as usize] {
                    self.skip();
                }
            },
            Instruction::LoadByteIntoRegister { register, byte } => {
                self.registers[register as usize] = byte;
            },
            Instruction::AddByteToRegister { register, byte } => {
                let sum = self.registers[register as usize] as u16 + byte as u16;
                self.registers[register as usize] = (sum % 256) as u8;
            },
            Instruction::LoadRegisterIntoRegister { register1, register2 } => {
                self.registers[register1 as usize] = self.registers[register2 as usize];
            },
            Instruction::OrRegisters { register1, register2 } => {
                self.registers[register1 as usize] = self.registers[register1 as usize]
                    | self.registers[register2 as usize];
            },
            Instruction::AndRegisters { register1, register2 } => {
                self.registers[register1 as usize] = self.registers[register1 as usize]
                    & self.registers[register2 as usize];
            },
            Instruction::XorRegisters { register1, register2 } => {
                self.registers[register1 as usize] = self.registers[register1 as usize]
                    ^ self.registers[register2 as usize];
            },
            Instruction::AddRegisters { register1, register2 } => {
                let sum = self.registers[register1 as usize] as u16
                    + self.registers[register2 as usize] as u16;
                self.set_with_flag(register1, (sum % 256) as u8, sum > 255);
            },
            Instruction::SubRegisters { register1, register2 } => {
                let a = self.registers[register1 as usize];
                let b = self.registers[register2 as usize];
                let difference = ((a as u16 + 256 - b as u16) % 256) as u8;
                self.set_with_flag(register1, difference, a >= b);
            },
            Instruction::ShiftRight { register } => {
                let v = self.registers[register as usize];
                self.set_with_flag(register, v / 2, v % 2 == 1);
            },
            Instruction::SubNRegisters { register1, register2 } => {
                let a = self.registers[register1 as usize];
                let b = self.registers[register2 as usize];
                let difference = ((b as u16 + 256 - a as u16) % 256) as u8;
                self.set_with_flag(register1, difference, b >= a);
            },
            Instruction::ShiftLeft { register } => {
                let v = self.registers[register as usize];
                self.set_with_flag(register, ((v as u16 * 2) % 256) as u8, v >= 128);
            },
            Instruction::SkipIfRegisterNotEqual { register1, register2 } => {
                if self.registers[register1 as usize] != self.registers[register2 as usize] {
                    self.skip();
                }
            },
            Instruction::LoadAddressIntoIndex { address } => {
                self.index = address;
            },
            Instruction::JumpToAddressPlusV0 { address } => {
                self.pc = address + self.registers[0] as u16;
            },
            Instruction::RandomByteAndIntoRegister { register, byte } => {
                self.registers[register as usize] = random & byte;
            },
            Instruction::DrawSprite { register1, register2, nibble } => {
                let x = self.registers[register1 as usize];
                let y = self.registers[register2 as usize];
                self.draw_sprite(x, y, nibble);
            },
            Instruction::SkipIfKeyPressed { register } => {
                if self.key == Some(self.registers[register as usize]) {
                    self.skip();
                }
            },
            Instruction::SkipIfKeyNotPressed { register } => {
                if self.key != Some(self.registers[register as usize]) {
                    self.skip();
                }
            },
            Instruction::LoadDelayTimerIntoRegister { register } => {
                self.registers[register as usize] = self.delay_timer;
            },
            Instruction::WaitForKeyPress { register } => {
                match self.key {
                    Some(k) => {
                        self.registers[register as usize] = k;
                    },
                    None => {
                        self.mode = Mode::AwaitingKey { register };
                        self.pc = ((self.pc as u32 + 65534) % 65536) as u16;
                    },
                }
            },
            Instruction::LoadRegisterIntoDelayTimer { register } => {
                self.delay_timer = self.registers[register as usize];
            },
            Instruction::LoadRegisterIntoSoundTimer { register } => {
                self.sound_timer = self.registers[register as usize];
            },
            Instruction::AddRegisterToIndex { register } => {
                self.index = ((self.index as u32 + self.registers[register as usize] as u32)
                    % 65536) as u16;
            },
            Instruction::LoadFontLocationIntoIndex { register } => {
                let digit = low_nibble(self.registers[register as usize]);
                self.index = (FONT_START + digit as usize * GLYPH_SIZE) as u16;
            },
            Instruction::LoadBinaryCodedDecimalIntoMemory { register } => {
                let v = self.registers[register as usize];
                let base = self.index as usize;
                self.memory[base % MEMORY_SIZE] = v / 100;
                self.memory[(base + 1) % MEMORY_SIZE] = (v / 10) % 10;
                self.memory[(base + 2) % MEMORY_SIZE] = v % 10;
            },
            Instruction::LoadRegistersIntoMemory { register } => {
                self.store_registers(register);
            },
            Instruction::LoadMemoryIntoRegisters { register } => {
                self.load_registers(register);
            },
            Instruction::UnknownInstruction => {
                return Err(Fault { kind: FaultKind::UnknownInstruction, instruction, pc });
            },
        }
        Ok(())
    }

    /// Executes `instruction`. The random instruction draws its byte from the
    /// thread-local generator; every other instruction is fully determined.
    pub fn execute(&mut self, instruction: Instruction) -> (r: Result<(), Fault>)
        requires
            old(self).wf(),
        ensures
            final(self).wf(),
            exists|random: u8| executed(old(self)@, old(self).pc, instruction, random, r, final(self)@),
            !(instruction is RandomByteAndIntoRegister) ==> executed(
                old(self)@,
                old(self).pc,
                instruction,
                0,
                r,
                final(self)@,
            ),
    {
        let random = if matches!(instruction, Instruction::RandomByteAndIntoRegister { .. }) {
            random_byte()
        } else {
            0
        };
        self.execute_with_random(instruction, random)
    }

    /// One machine cycle, with `random` as the byte that a random instruction
    /// draws: while a wait for a key is pending nothing happens; otherwise the
    /// instruction at the program counter is fetched and executed.
    pub fn cycle_with_random(&mut self, random: u8) -> (r: Result<(), Fault>)
        requires
            old(self).wf(),
        ensures
            final(self).wf(),
            old(self).mode is AwaitingKey ==> r is Ok && final(self)@ == old(self)@,
            old(self).mode is Running ==> executed(
                old(self)@.advanced(),
                next_pc(old(self).pc),
                old(self)@.current_instruction(),
                random,
                r,
                final(self)@,
            ),
    {
        if let Mode::AwaitingKey { .. } = self.mode {
            return Ok(());
        }
        let instruction = self.fetch();
        self.execute_with_random(instruction, random)
    }

    /// One machine cycle: while a wait for a key is pending nothing happens;
    /// otherwise the instruction at the program counter is fetched and
    /// executed, a random instruction drawing its byte from the thread-local
    /// generator.
    pub fn cycle(&mut self) -> (r: Result<(), Fault>)
        requires
            old(self).wf(),
        ensures
            final(self).wf(),
            old(self).mode is AwaitingKey ==> r is Ok && final(self)@ == old(self)@,
            old(self).mode is Running ==> exists|random: u8|
                executed(
                    old(self)@.advanced(),
                    next_pc(old(self).pc),
                    old(self)@.current_instruction(),
                    random,
                    r,
                    final(self)@,
                ),
    {
        let random = random_byte();
        self.cycle_with_random(random)
    }
}

/// Relies on rand::random: a byte from the thread-local generator, uniform
/// over all 256 values. Nothing is known of which one comes.
#[verifier::external_body]
fn random_byte() -> (r: u8) {
    rand::random::<u8>()
}

/// Executing `i` on `before`, with the program counter at `pc` and `random` as
/// the drawn byte, gave `r` and left the machine as `after`: the next state of
/// `step` on success, or the fault with the machine untouched.
pub open spec fn executed(
    before: Machine,
    pc: u16,
    i: Instruction,
    random: u8,
    r: Result<(), Fault>,
    after: Machine,
) -> bool {
    match step(before, i, random) {
        Ok(m) => r is Ok && after == m,
        Err(kind) => r == Err::<(), Fault>(Fault { kind, instruction: i, pc }) && after == before,
    }
}

} // verus!
