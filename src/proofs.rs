//! Facts about the instruction semantics that relate several steps, or that
//! hold for all operand values, proved from the model that `step` defines.

use vstd::prelude::*;
use crate::instruction::Instruction;
use crate::machine::{
    blank_display, flip, lemma_offset, next_pc, offset, step, FaultKind, Machine, FLAG,
    STACK_LIMIT,
};

verus! {

/// Copying register `y` into register `x` leaves `x` holding the former value
/// of `y`, and `y` unchanged.
pub proof fn lemma_copy_register(m: Machine, x: u8, y: u8, random: u8)
    requires
        m.wf(),
        x < 16,
        y < 16,
    ensures
        step(m, Instruction::LoadRegisterIntoRegister { register1: x, register2: y }, random) is Ok,
        step(
            m,
            Instruction::LoadRegisterIntoRegister { register1: x, register2: y },
            random,
        )->Ok_0.reg(x) == m.reg(y),
        step(
            m,
            Instruction::LoadRegisterIntoRegister { register1: x, register2: y },
            random,
        )->Ok_0.reg(y) == m.reg(y),
{
}

/// Adding register `y` into register `x` stores the sum modulo 256 and sets
/// the flag register to 1 exactly when the sum exceeds 255. (With `x` the
/// flag register itself, the flag overwrites the sum.)
pub proof fn lemma_add_registers(m: Machine, x: u8, y: u8, random: u8)
    requires
        m.wf(),
        x < 15,
        y < 16,
    ensures
        ({
            let (a, b) = (m.reg(x), m.reg(y));
            let r = step(m, Instruction::AddRegisters { register1: x, register2: y }, random);
            &&& r is Ok
            &&& r->Ok_0.reg(x) == (a + b) % 256
            &&& (r->Ok_0.reg(FLAG) == 1) == (a + b > 255)
            &&& r->Ok_0.reg(FLAG) <= 1
        }),
{
    let (a, b) = (m.reg(x), m.reg(y));
    assert(step(m, Instruction::AddRegisters { register1: x, register2: y }, random) == Ok::<
        Machine,
        FaultKind,
    >(m.set_reg_and_flag(x, ((a + b) % 256) as u8, a + b > 255)));
}

/// Subtracting register `y` from register `x` stores the difference modulo
/// 256 and sets the flag register to 1 exactly when no borrow occurs. (With
/// `x` the flag register itself, the flag overwrites the difference.)
pub proof fn lemma_sub_registers(m: Machine, x: u8, y: u8, random: u8)
    requires
        m.wf(),
        x < 15,
        y < 16,
    ensures
        ({
            let (a, b) = (m.reg(x), m.reg(y));
            let r = step(m, Instruction::SubRegisters { register1: x, register2: y }, random);
            &&& r is Ok
            &&& r->Ok_0.reg(x) == (a - b) % 256
            &&& (r->Ok_0.reg(FLAG) == 1) == (a >= b)
            &&& r->Ok_0.reg(FLAG) <= 1
        }),
{
    let (a, b) = (m.reg(x), m.reg(y));
    assert(step(m, Instruction::SubRegisters { register1: x, register2: y }, random) == Ok::<
        Machine,
        FaultKind,
    >(m.set_reg_and_flag(x, ((a - b + 256) % 256) as u8, a >= b)));
}

/// A right shift of `v` puts its bit 0 into the flag register and `v >> 1`
/// into the register; a left shift puts its bit 7 into the flag register and
/// `v << 1`, cut to eight bits, into the register. (With the shifted register
/// the flag register itself, the flag overwrites the result.)
pub proof fn lemma_shifts(m: Machine, x: u8, random: u8)
    requires
        m.wf(),
        x < 15,
    ensures
        ({
            let v = m.reg(x);
            let r = step(m, Instruction::ShiftRight { register: x }, random);
            &&& r is Ok
            &&& r->Ok_0.reg(x) == v >> 1u8
            &&& r->Ok_0.reg(FLAG) == v & 1u8
        }),
        ({
            let v = m.reg(x);
            let r = step(m, Instruction::ShiftLeft { register: x }, random);
            &&& r is Ok
            &&& r->Ok_0.reg(x) == ((v as u16) << 1u16) % 256
            &&& r->Ok_0.reg(FLAG) == v >> 7u8
        }),
{
    let v = m.reg(x);
    assert(v >> 1u8 == v / 2 && v & 1u8 == v % 2) by (bit_vector);
    assert(((v as u16) << 1u16) % 256 == ((v as u16) * 2) % 256 && v >> 7u8 == (if v >= 128 {
        1u8
    } else {
        0u8
    })) by (bit_vector);
}

/// Clearing the screen leaves a framebuffer of 32 rows of 64 pixels, all 0.
pub proof fn lemma_clear_screen(m: Machine, random: u8)
    requires
        m.wf(),
    ensures
        step(m, Instruction::ClearScreen, random) is Ok,
        step(m, Instruction::ClearScreen, random)->Ok_0.display.len() == 32,
        forall|y: int|
            0 <= y < 32 ==> (#[trigger] step(m, Instruction::ClearScreen, random)->Ok_0.display[y]).len()
                == 64,
        forall|y: int, x: int|
            0 <= y < 32 && 0 <= x < 64 ==> #[trigger] step(
                m,
                Instruction::ClearScreen,
                random,
            )->Ok_0.display[y][x] == 0,
{
    assert(step(m, Instruction::ClearScreen, random)->Ok_0.display == blank_display());
}

/// Drawing the same sprite twice, with origin registers other than the flag
/// register and nothing run in between, restores the framebuffer. The second
/// draw reports a collision exactly when the first one turned some pixel on.
/// With an operand out of range, both draws fault and change nothing.
pub proof fn lemma_draw_twice(m: Machine, x: u8, y: u8, n: u8, random: u8)
    requires
        m.wf(),
        x != FLAG,
        y != FLAG,
    ensures
        !(x < 16 && y < 16 && n < 16) ==> step(
            m,
            Instruction::DrawSprite { register1: x, register2: y, nibble: n },
            random,
        ) == Err::<Machine, FaultKind>(FaultKind::OperandOutOfRange),
        x < 16 && y < 16 && n < 16 ==> ({
            let i = Instruction::DrawSprite { register1: x, register2: y, nibble: n };
            let turned_on = exists|py: int, px: int|
                0 <= py < 32 && 0 <= px < 64 && #[trigger] m.sprite_bit(
                    m.reg(x),
                    m.reg(y),
                    n,
                    py,
                    px,
                ) && m.display[py][px] == 0;
            &&& step(m, i, random) is Ok
            &&& step(step(m, i, random)->Ok_0, i, random) is Ok
            &&& step(step(m, i, random)->Ok_0, i, random)->Ok_0 == m.set_reg(
                FLAG,
                if turned_on { 1 } else { 0 },
            )
        }),
{
    if x < 16 && y < 16 && n < 16 {
        let i = Instruction::DrawSprite { register1: x, register2: y, nibble: n };
        let (cx, cy) = (m.reg(x), m.reg(y));
        let m1 = step(m, i, random)->Ok_0;
        assert(m1.reg(x) == cx && m1.reg(y) == cy);
        let m2 = step(m1, i, random)->Ok_0;
        assert(m1.memory == m.memory && m1.index == m.index);
        assert forall|py: int, px: int| m1.sprite_bit(cx, cy, n, py, px) == m.sprite_bit(
            cx,
            cy,
            n,
            py,
            px,
        ) by {}
        assert(m2.display =~~= m.display);
        let turned_on = exists|py: int, px: int|
            0 <= py < 32 && 0 <= px < 64 && #[trigger] m.sprite_bit(cx, cy, n, py, px)
                && m.display[py][px] == 0;
        if turned_on {
            let (py, px) = choose|py: int, px: int|
                0 <= py < 32 && 0 <= px < 64 && #[trigger] m.sprite_bit(cx, cy, n, py, px)
                    && m.display[py][px] == 0;
            assert(m1.display[py][px] == flip(m.display[py][px]));
            assert(m1.sprite_bit(cx, cy, n, py, px));
        }
        if m1.collides(cx, cy, n) {
            let (py, px) = choose|py: int, px: int|
                0 <= py < 32 && 0 <= px < 64 && #[trigger] m1.sprite_bit(cx, cy, n, py, px)
                    && m1.display[py][px] != 0;
            assert(m.sprite_bit(cx, cy, n, py, px));
        }
        assert(m2.registers =~= m.set_reg(FLAG, if turned_on { 1 } else { 0 }).registers);
    }
}

/// A call fetched at `pc`, followed by a return, leaves the machine as the
/// fetch left it: the program counter just past the call (`pc + 2` below the
/// top of the 16-bit range), and the stack as before. This holds wherever the
/// program counter stands when the return runs (`resume`), so also when the
/// return is fetched at the call target. In between, the return address on
/// top of the stack is the address past the call. A call with a full stack,
/// or to an address out of range, faults instead.
pub proof fn lemma_call_then_return(m: Machine, address: u16, resume: u16, random: u8)
    requires
        m.wf(),
    ensures
        address >= 4096 ==> step(m.advanced(), Instruction::CallSubroutine { address }, random)
            == Err::<Machine, FaultKind>(FaultKind::OperandOutOfRange),
        address < 4096 && m.stack.len() >= STACK_LIMIT ==> step(
            m.advanced(),
            Instruction::CallSubroutine { address },
            random,
        ) == Err::<Machine, FaultKind>(FaultKind::StackOverflow),
        address < 4096 && m.stack.len() < STACK_LIMIT ==> ({
            let called = step(m.advanced(), Instruction::CallSubroutine { address }, random);
            &&& called is Ok
            &&& called->Ok_0.pc == address
            &&& called->Ok_0.stack.last() == next_pc(m.pc)
            &&& step(called->Ok_0.with_pc(resume), Instruction::ReturnFromSubroutine, random)
                == Ok::<Machine, FaultKind>(m.advanced())
        }),
        m.advanced().pc == next_pc(m.pc),
        m.pc <= 0xFFFD ==> next_pc(m.pc) == m.pc + 2,
{
    if address < 4096 && m.stack.len() < STACK_LIMIT {
        let called = step(m.advanced(), Instruction::CallSubroutine { address }, random)->Ok_0;
        assert(called.with_pc(resume).stack.drop_last() =~= m.stack);
    }
}

/// Storing registers 0 to `last` and later loading them back gives the
/// registers their values from before the store, provided the index register
/// and the bytes that the store wrote are unchanged when the load runs
/// (`later`). The load changes no other register and nothing else. With
/// `last` out of range, the store faults.
pub proof fn lemma_store_then_load(m: Machine, later: Machine, last: u8, random: u8)
    requires
        m.wf(),
        later.wf(),
        last < 16 ==> later.index == m.index,
        last < 16 ==> forall|k: int|
            0 <= k <= last ==> #[trigger] later.memory[m.index_addr(k)] == step(
                m,
                Instruction::LoadRegistersIntoMemory { register: last },
                random,
            )->Ok_0.memory[m.index_addr(k)],
    ensures
        last >= 16 ==> step(m, Instruction::LoadRegistersIntoMemory { register: last }, random)
            == Err::<Machine, FaultKind>(FaultKind::OperandOutOfRange),
        last < 16 ==> ({
            let stored = step(m, Instruction::LoadRegistersIntoMemory { register: last }, random);
            let loaded = step(later, Instruction::LoadMemoryIntoRegisters { register: last }, random);
            &&& stored is Ok
            &&& loaded is Ok
            &&& forall|k: int| 0 <= k <= last ==> #[trigger] loaded->Ok_0.registers[k] == m.registers[k]
            &&& forall|k: int| last < k < 16 ==> #[trigger] loaded->Ok_0.registers[k] == later.registers[k]
            &&& loaded->Ok_0 == (Machine { registers: loaded->Ok_0.registers, ..later })
        }),
{
    if last < 16 {
        let m1 = step(m, Instruction::LoadRegistersIntoMemory { register: last }, random)->Ok_0;
        let m2 = step(later, Instruction::LoadMemoryIntoRegisters { register: last }, random)->Ok_0;
        assert forall|k: int| 0 <= k <= last implies #[trigger] m2.registers[k] == m.registers[k] by {
            let a = m.index_addr(k);
            lemma_offset(a, m.index as int, k, 4096);
            assert(offset(a, m.index as int, 4096) == k);
            assert(later.memory[a] == m1.memory[a]);
        }
    }
}

} // verus!
