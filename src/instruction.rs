//! The instruction set, and the decoder from two program bytes to an instruction.

use vstd::prelude::*;
use crate::nibble::{
    address_from_nibbles, from_low_and_high, high_nibble, high_of, low_nibble, low_of,
};

verus! {

/// One decoded instruction: an opcode tag with its operand fields.
/// Register operands are register indices, `byte` an immediate byte,
/// `address` a 12-bit address and `nibble` a 4-bit row count.
#[derive(Clone, Copy, Debug, PartialEq, Eq, Structural)]
pub enum Instruction {
    NoOperation,
    ClearScreen,
    ReturnFromSubroutine,
    Jump { address: u16 },
    CallSubroutine { address: u16 },
    SkipIfEqual { register: u8, byte: u8 },
    SkipIfNotEqual { register: u8, byte: u8 },
    SkipIfRegisterEqual { register1: u8, register2: u8 },
    LoadByteIntoRegister { register: u8, byte: u8 },
    AddByteToRegister { register: u8, byte: u8 },
    LoadRegisterIntoRegister { register1: u8, register2: u8 },
    OrRegisters { register1: u8, register2: u8 },
    AndRegisters { register1: u8, register2: u8 },
    XorRegisters { register1: u8, register2: u8 },
    AddRegisters { register1: u8, register2: u8 },
    SubRegisters { register1: u8, register2: u8 },
    ShiftRight { register: u8 },
    SubNRegisters { register1: u8, register2: u8 },
    ShiftLeft { register: u8 },
    SkipIfRegisterNotEqual { register1: u8, register2: u8 },
    LoadAddressIntoIndex { address: u16 },
    JumpToAddressPlusV0 { address: u16 },
    RandomByteAndIntoRegister { register: u8, byte: u8 },
    DrawSprite { register1: u8, register2: u8, nibble: u8 },
    SkipIfKeyPressed { register: u8 },
    SkipIfKeyNotPressed { register: u8 },
    LoadDelayTimerIntoRegister { register: u8 },
    WaitForKeyPress { register: u8 },
    LoadRegisterIntoDelayTimer { register: u8 },
    LoadRegisterIntoSoundTimer { register: u8 },
    AddRegisterToIndex { register: u8 },
    LoadFontLocationIntoIndex { register: u8 },
    LoadBinaryCodedDecimalIntoMemory { register: u8 },
    LoadRegistersIntoMemory { register: u8 },
    LoadMemoryIntoRegisters { register: u8 },
    UnknownInstruction,
}

/// The instruction that the bytes `first`, `second` encode. The upper nibble of
/// `first` selects the family; `x` and `y` are the next two nibbles, `n` the
/// last, `kk` the second byte and `nnn` the lower twelve bits of the pair.
pub open spec fn decoded(first: u8, second: u8) -> Instruction {
    let family = high_of(first);
    let x = low_of(first);
    let y = high_of(second);
    let n = low_of(second);
    let kk = second;
    let nnn = (x * 256 + second) as u16;
    if family == 0x0 {
        if first == 0x00 && second == 0xE0 {
            Instruction::ClearScreen
        } else if first == 0x00 && second == 0xEE {
            Instruction::ReturnFromSubroutine
        } else {
            Instruction::UnknownInstruction
        }
    } else if family == 0x1 {
        Instruction::Jump { address: nnn }
    } else if family == 0x2 {
        Instruction::CallSubroutine { address: nnn }
    } else if family == 0x3 {
        Instruction::SkipIfEqual { register: x, byte: kk }
    } else if family == 0x4 {
        Instruction::SkipIfNotEqual { register: x, byte: kk }
    } else if family == 0x5 {
        if n == 0x0 {
            Instruction::SkipIfRegisterEqual { register1: x, register2: y }
        } else {
            Instruction::UnknownInstruction
        }
    } else if family == 0x6 {
        Instruction::LoadByteIntoRegister { register: x, byte: kk }
    } else if family == 0x7 {
        Instruction::AddByteToRegister { register: x, byte: kk }
    } else if family == 0x8 {
        if n == 0x0 {
            Instruction::LoadRegisterIntoRegister { register1: x, register2: y }
        } else if n == 0x1 {
            Instruction::OrRegisters { register1: x, register2: y }
        } else if n == 0x2 {
            Instruction::AndRegisters { register1: x, register2: y }
        } else if n == 0x3 {
            Instruction::XorRegisters { register1: x, register2: y }
        } else if n == 0x4 {
            Instruction::AddRegisters { register1: x, register2: y }
        } else if n == 0x5 {
            Instruction::SubRegisters { register1: x, register2: y }
        } else if n == 0x6 {
            Instruction::ShiftRight { register: x }
        } else if n == 0x7 {
            Instruction::SubNRegisters { register1: x, register2: y }
        } else if n == 0xE {
            Instruction::ShiftLeft { register: x }
        } else {
            Instruction::UnknownInstruction
        }
    } else if family == 0x9 {
        if n == 0x0 {
            Instruction::SkipIfRegisterNotEqual { register1: x, register2: y }
        } else {
            Instruction::UnknownInstruction
        }
    } else if family == 0xA {
        Instruction::LoadAddressIntoIndex { address: nnn }
    } else if family == 0xB {
        Instruction::JumpToAddressPlusV0 { address: nnn }
    } else if family == 0xC {
        Instruction::RandomByteAndIntoRegister { register: x, byte: kk }
    } else if family == 0xD {
        Instruction::DrawSprite { register1: x, register2: y, nibble: n }
    } else if family == 0xE {
        if kk == 0x9E {
            Instruction::SkipIfKeyPressed { register: x }
        } else if kk == 0xA1 {
            Instruction::SkipIfKeyNotPressed { register: x }
        } else {
            Instruction::UnknownInstruction
        }
    } else {
        if kk == 0x07 {
            Instruction::LoadDelayTimerIntoRegister { register: x }
        } else if kk == 0x0A {
            Instruction::WaitForKeyPress { register: x }
        } else if kk == 0x15 {
            Instruction::LoadRegisterIntoDelayTimer { register: x }
        } else if kk == 0x18 {
            Instruction::LoadRegisterIntoSoundTimer { register: x }
        } else if kk == 0x1E {
            Instruction::AddRegisterToIndex { register: x }
        } else if kk == 0x29 {
            Instruction::LoadFontLocationIntoIndex { register: x }
        } else if kk == 0x33 {
            Instruction::LoadBinaryCodedDecimalIntoMemory { register: x }
        } else if kk == 0x55 {
            Instruction::LoadRegistersIntoMemory { register: x }
        } else if kk == 0x65 {
            Instruction::LoadMemoryIntoRegisters { register: x }
        } else {
            Instruction::UnknownInstruction
        }
    }
}

/// Every operand lies in the range of its field: registers and the row count
/// below 16, addresses below 4096.
pub open spec fn operands_in_range(i: Instruction) -> bool {
    match i {
        Instruction::Jump { address } => address < 4096,
        Instruction::CallSubroutine { address } => address < 4096,
        Instruction::LoadAddressIntoIndex { address } => address < 4096,
        Instruction::JumpToAddressPlusV0 { address } => address < 4096,
        Instruction::SkipIfEqual { register, .. } => register < 16,
        Instruction::SkipIfNotEqual { register, .. } => register < 16,
        Instruction::LoadByteIntoRegister { register, .. } => register < 16,
        Instruction::AddByteToRegister { register, .. } => register < 16,
        Instruction::RandomByteAndIntoRegister { register, .. } => register < 16,
        Instruction::ShiftRight { register } => register < 16,
        Instruction::ShiftLeft { register } => register < 16,
        Instruction::SkipIfKeyPressed { register } => register < 16,
        Instruction::SkipIfKeyNotPressed { register } => register < 16,
        Instruction::LoadDelayTimerIntoRegister { register } => register < 16,
        Instruction::WaitForKeyPress { register } => register < 16,
        Instruction::LoadRegisterIntoDelayTimer { register } => register < 16,
        Instruction::LoadRegisterIntoSoundTimer { register } => register < 16,
        Instruction::AddRegisterToIndex { register } => register < 16,
        Instruction::LoadFontLocationIntoIndex { register } => register < 16,
        Instruction::LoadBinaryCodedDecimalIntoMemory { register } => register < 16,
        Instruction::LoadRegistersIntoMemory { register } => register < 16,
        Instruction::LoadMemoryIntoRegisters { register } => register < 16,
        Instruction::SkipIfRegisterEqual { register1, register2 } => register1 < 16 && register2 < 16,
        Instruction::SkipIfRegisterNotEqual { register1, register2 } => register1 < 16 && register2 < 16,
        Instruction::LoadRegisterIntoRegister { register1, register2 } => register1 < 16 && register2 < 16,
        Instruction::OrRegisters { register1, register2 } => register1 < 16 && register2 < 16,
        Instruction::AndRegisters { register1, register2 } => register1 < 16 && register2 < 16,
        Instruction::XorRegisters { register1, register2 } => register1 < 16 && register2 < 16,
        Instruction::AddRegisters { register1, register2 } => register1 < 16 && register2 < 16,
        Instruction::SubRegisters { register1, register2 } => register1 < 16 && register2 < 16,
        Instruction::SubNRegisters { register1, register2 } => register1 < 16 && register2 < 16,
        Instruction::DrawSprite { register1, register2, nibble } =>
            register1 < 16 && register2 < 16 && nibble < 16,
        _ => true,
    }
}

/// Decodes the instruction held in the bytes `first`, `second`. A pair that
/// matches no opcode gives `UnknownInstruction`.
pub fn decode(first: u8, second: u8) -> (r: Instruction)
    ensures
        r == decoded(first, second),
        operands_in_range(r),
{
    let family = high_nibble(first);
    let x = low_nibble(first);
    let y = high_nibble(second);
    let n = low_nibble(second);
    let kk = from_low_and_high(y, n);
    let nnn = address_from_nibbles(x, y, n);
    match family {
        0x0 => {
            if first == 0x00 && second == 0xE0 {
                Instruction::ClearScreen
            } else if first == 0x00 && second == 0xEE {
                Instruction::ReturnFromSubroutine
            } else {
                Instruction::UnknownInstruction
            }
        },
        0x1 => Instruction::Jump { address: nnn },
        0x2 => Instruction::CallSubroutine { address: nnn },
        0x3 => Instruction::SkipIfEqual { register: x, byte: kk },
        0x4 => Instruction::SkipIfNotEqual { register: x, byte: kk },
        0x5 => {
            if n == 0x0 {
                Instruction::SkipIfRegisterEqual { register1: x, register2: y }
            } else {
                Instruction::UnknownInstruction
            }
        },
        0x6 => Instruction::LoadByteIntoRegister { register: x, byte: kk },
        0x7 => Instruction::AddByteToRegister { register: x, byte: kk },
        0x8 => match n {
            0x0 => Instruction::LoadRegisterIntoRegister { register1: x, register2: y },
            0x1 => Instruction::OrRegisters { register1: x, register2: y },
            0x2 => Instruction::AndRegisters { register1: x, register2: y },
            0x3 => Instruction::XorRegisters { register1: x, register2: y },
            0x4 => Instruction::AddRegisters { register1: x, register2: y },
            0x5 => Instruction::SubRegisters { register1: x, register2: y },
            0x6 => Instruction::ShiftRight { register: x },
            0x7 => Instruction::SubNRegisters { register1: x, register2: y },
            0xE => Instruction::ShiftLeft { register: x },
            _ => Instruction::UnknownInstruction,
        },
        0x9 => {
            if n == 0x0 {
                Instruction::SkipIfRegisterNotEqual { register1: x, register2: y }
            } else {
                Instruction::UnknownInstruction
            }
        },
        0xA => Instruction::LoadAddressIntoIndex { address: nnn },
        0xB => Instruction::JumpToAddressPlusV0 { address: nnn },
        0xC => Instruction::RandomByteAndIntoRegister { register: x, byte: kk },
        0xD => Instruction::DrawSprite { register1: x, register2: y, nibble: n },
        0xE => match kk {
            0x9E => Instruction::SkipIfKeyPressed { register: x },
            0xA1 => Instruction::SkipIfKeyNotPressed { register: x },
            _ => Instruction::UnknownInstruction,
        },
        _ => match kk {
            0x07 => Instruction::LoadDelayTimerIntoRegister { register: x },
            0x0A => Instruction::WaitForKeyPress { register: x },
            0x15 => Instruction::LoadRegisterIntoDelayTimer { register: x },
            0x18 => Instruction::LoadRegisterIntoSoundTimer { register: x },
            0x1E => Instruction::AddRegisterToIndex { register: x },
            0x29 => Instruction::LoadFontLocationIntoIndex { register: x },
            0x33 => Instruction::LoadBinaryCodedDecimalIntoMemory { register: x },
            0x55 => Instruction::LoadRegistersIntoMemory { register: x },
            0x65 => Instruction::LoadMemoryIntoRegisters { register: x },
            _ => Instruction::UnknownInstruction,
        },
    }
}

/// Whether every operand of `i` lies in the range of its field.
pub fn operands_valid(i: &Instruction) -> (r: bool)
    ensures
        r == operands_in_range(*i),
{
    match *i {
        Instruction::Jump { address }
        | Instruction::CallSubroutine { address }
        | Instruction::LoadAddressIntoIndex { address }
        | Instruction::JumpToAddressPlusV0 { address } => address < 4096,
        Instruction::SkipIfEqual { register, .. }
        | Instruction::SkipIfNotEqual { register, .. }
        | Instruction::LoadByteIntoRegister { register, .. }
        | Instruction::AddByteToRegister { register, .. }
        | Instruction::RandomByteAndIntoRegister { register, .. }
        | Instruction::ShiftRight { register }
        | Instruction::ShiftLeft { register }
        | Instruction::SkipIfKeyPressed { register }
        | Instruction::SkipIfKeyNotPressed { register }
        | Instruction::LoadDelayTimerIntoRegister { register }
        | Instruction::WaitForKeyPress { register }
        | Instruction::LoadRegisterIntoDelayTimer { register }
        | Instruction::LoadRegisterIntoSoundTimer { register }
        | Instruction::AddRegisterToIndex { register }
        | Instruction::LoadFontLocationIntoIndex { register }
        | Instruction::LoadBinaryCodedDecimalIntoMemory { register }
        | Instruction::LoadRegistersIntoMemory { register }
        | Instruction::LoadMemoryIntoRegisters { register } => register < 16,
        Instruction::SkipIfRegisterEqual { register1, register2 }
        | Instruction::SkipIfRegisterNotEqual { register1, register2 }
        | Instruction::LoadRegisterIntoRegister { register1, register2 }
        | Instruction::OrRegisters { register1, register2 }
        | Instruction::AndRegisters { register1, register2 }
        | Instruction::XorRegisters { register1, register2 }
        | Instruction::AddRegisters { register1, register2 }
        | Instruction::SubRegisters { register1, register2 }
        | Instruction::SubNRegisters { register1, register2 } => register1 < 16 && register2 < 16,
        Instruction::DrawSprite { register1, register2, nibble } =>
            register1 < 16 && register2 < 16 && nibble < 16,
        _ => true,
    }
}

} // verus!
