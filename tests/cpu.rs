use chip8::{from_low_and_high, Instruction, CHIP8, DISPLAY_HEIGHT, DISPLAY_WIDTH, PROGRAM_MEMORY_START};
use itertools::Itertools;

#[test]
fn test_load_clear_screen() {
    let mut cpu = CHIP8::default();
    cpu.display = [[1u8; DISPLAY_WIDTH]; DISPLAY_HEIGHT];
    cpu.execute(Instruction::ClearScreen).unwrap();
    assert_eq!(cpu.display, [[0u8; DISPLAY_WIDTH]; DISPLAY_HEIGHT]);
}

#[test]
fn test_set_from_register() {
    let mut cpu = CHIP8::default();
    for reg_x in 0x0..=0xF {
        for reg_y in 0x0..=0xF {
            cpu.pc = 0x200;
            // The "program" is the LD instruction.
            let program = [0x80 + reg_x, reg_y << 4];
            cpu.load_from_slice(&program, None);
            let instruction = cpu.fetch();
            cpu.execute(instruction).unwrap();
            assert_eq!(cpu.pc, 0x202);
            assert_eq!(cpu.registers[reg_x as usize], cpu.registers[reg_y as usize]);
        }
    }
}

#[test]
fn test_set_register_to_immediate() {
    let mut cpu = CHIP8::default();
    for reg_x in 0x0..=0xF {
        for nibbles in (0x0..=0xF).permutations(2).collect_vec() {
            cpu.pc = 0x200;
            let [nibble_1, nibble_2] = &nibbles[..] else { panic!("Permutations are working weirdly") };
            let expected_val = from_low_and_high(*nibble_1, *nibble_2);
            let program = [0x60 + reg_x, expected_val];
            cpu.load_from_slice(&program, None);
            let instruction = cpu.fetch();
            cpu.execute(instruction).unwrap();
            assert_eq!(cpu.pc, 0x202);
            assert_eq!(cpu.registers[reg_x as usize], expected_val);
        }
    }
}

#[test]
fn test_sum_register_with_immediate() {
    let mut cpu = CHIP8::default();
    for reg_x in 0x0..=0xF {
        for nibbles in (0x0..=0xF).permutations(2).collect_vec() {
            cpu.pc = 0x200;
            let [nibble_1, nibble_2] = &nibbles[..] else { panic!("Permutations are working weirdly") };
            let expected_val = cpu.registers[reg_x as usize]
                .wrapping_add(from_low_and_high(*nibble_1, *nibble_2));
            let program = [0x60 + reg_x, expected_val];
            cpu.load_from_slice(&program, None);
            let instruction = cpu.fetch();
            cpu.execute(instruction).unwrap();
            assert_eq!(cpu.pc, 0x202);
            assert_eq!(cpu.registers[reg_x as usize], expected_val);
        }
    }
}

#[test]
fn test_call_and_return_subroutine() {
    let mut cpu = CHIP8::default();
    cpu.stack.push(0x200);
    cpu.sp = 1;
    cpu.execute(Instruction::ReturnFromSubroutine).unwrap();
    assert_eq!(cpu.pc, 0x200);
    assert_eq!(cpu.sp, 0);
}

#[test]
fn test_jump_immediate() {
    let mut cpu = CHIP8::default();
    cpu.execute(Instruction::Jump { address: 0x200 }).unwrap();
    assert_eq!(cpu.pc, 0x200);
}

#[test]
fn test_call_subroutine() {
    let mut cpu = CHIP8::default();
    cpu.execute(Instruction::CallSubroutine { address: 0x300 }).unwrap();
    assert_eq!(cpu.pc, 0x300);
    assert_eq!(cpu.stack[0], PROGRAM_MEMORY_START as u16);
    assert_eq!(cpu.sp, 1);
}

#[test]
fn test_subroutine() {
    let mut cpu = CHIP8::default();

    cpu.execute(Instruction::CallSubroutine { address: 0x300 }).unwrap();
    assert_eq!(cpu.stack[0], 0x200);
    assert_eq!(cpu.pc, 0x300);

    cpu.execute(Instruction::LoadByteIntoRegister { register: 0, byte: 0xAB }).unwrap();
    assert_eq!(cpu.registers[0], 0xAB);

    cpu.execute(Instruction::ReturnFromSubroutine).unwrap();
    assert_eq!(cpu.pc, 0x200);

    cpu.execute(Instruction::SkipIfEqual { register: 0, byte: 0xAB }).unwrap();
    assert_eq!(cpu.pc, 0x202);
}

#[test]
fn test_skip_if_equal() {
    let mut cpu = CHIP8::default();
    cpu.registers[0] = 0xAB;
    cpu.execute(Instruction::SkipIfEqual { register: 0, byte: 0xAB }).unwrap();
    assert_eq!(cpu.pc, (PROGRAM_MEMORY_START as u16) + 2);
}

#[test]
fn test_skip_if_not_equal() {
    let mut cpu = CHIP8::default();
    cpu.registers[0] = 0xAB;
    cpu.execute(Instruction::SkipIfNotEqual { register: 0, byte: 0xCD }).unwrap();
    assert_eq!(cpu.pc, (PROGRAM_MEMORY_START as u16) + 2);
}

#[test]
fn test_load_byte_into_register() {
    let mut cpu = CHIP8::default();

    for i in 0..16 {
        cpu.execute(Instruction::LoadByteIntoRegister { register: i, byte: i as u8 * 10 }).unwrap();
    }

    for i in 0..16 {
        assert_eq!(cpu.registers[i as usize], i as u8 * 10);
    }

    cpu.execute(Instruction::LoadByteIntoRegister { register: 0, byte: 255 }).unwrap();

    assert_eq!(cpu.registers[0], 255);
    for i in 1..16 {
        assert_eq!(cpu.registers[i as usize], i as u8 * 10);
    }

    cpu.execute(Instruction::LoadByteIntoRegister { register: 15, byte: 255 }).unwrap();

    assert_eq!(cpu.registers[15], 255);
    assert_eq!(cpu.registers[0], 255);
    for i in 1..15 {
        assert_eq!(cpu.registers[i as usize], i as u8 * 10);
    }
}

#[test]
fn test_add_byte_to_register() {
    let mut cpu = CHIP8::default();
    let register = 0xA;
    let byte = 0x10;
    cpu.registers[register as usize] = 0x20;
    cpu.execute(Instruction::AddByteToRegister { register, byte }).unwrap();
    assert_eq!(cpu.registers[register as usize], 0x30, "Byte was not correctly added to the register.");
}

#[test]
fn test_add_registers() {
    let mut cpu = CHIP8::default();
    let register1 = 0xA;
    let register2 = 0xB;
    cpu.registers[register1 as usize] = 0x20;
    cpu.registers[register2 as usize] = 0x10;
    cpu.execute(Instruction::AddRegisters { register1, register2 }).unwrap();
    assert_eq!(cpu.registers[register1 as usize], 0x30, "Registers were not correctly added.");
    assert_eq!(cpu.registers[0xF], 0, "Overflow flag should be unset.");
}

#[test]
fn test_sub_registers() {
    let mut cpu = CHIP8::default();
    let register1 = 0xA;
    let register2 = 0xB;
    cpu.registers[register1 as usize] = 0x20;
    cpu.registers[register2 as usize] = 0x10;
    cpu.execute(Instruction::SubRegisters { register1, register2 }).unwrap();
    assert_eq!(cpu.registers[register1 as usize], 0x10, "Registers were not correctly subtracted.");
    assert_eq!(cpu.registers[0xF], 1, "Borrow flag should be set.");
}

#[test]
fn test_load_registers_into_memory() {
    let mut cpu = CHIP8::default();
    let register = 0xA;
    for i in 0..=register {
        cpu.registers[i as usize] = i as u8;
    }
    cpu.index = 0x200;
    cpu.execute(Instruction::LoadRegistersIntoMemory { register }).unwrap();
    for i in 0..=register {
        assert_eq!(cpu.memory[(cpu.index + i as u16) as usize], i as u8, "Registers were not correctly loaded into memory.");
    }
}

#[test]
fn test_another_load_registers_into_memory() {
    let mut cpu = CHIP8::default();
    cpu.index = 0x200;

    for i in 0..8 {
        cpu.registers[i] = i as u8 * 10;
    }

    cpu.execute(Instruction::LoadRegistersIntoMemory { register: 7 }).unwrap();

    for i in 0..=7 {
        assert_eq!(cpu.memory[cpu.index as usize + i], i as u8 * 10);
    }
}

#[test]
fn test_complex_scenario() {
    let mut cpu = CHIP8::default();

    cpu.execute(Instruction::CallSubroutine { address: 0x300 }).unwrap();
    assert_eq!(cpu.stack[0x0], 0x200);
    assert_eq!(cpu.pc, 0x300);

    cpu.execute(Instruction::LoadByteIntoRegister { register: 1, byte: 0x05 }).unwrap();
    assert_eq!(cpu.registers[0x1], 0x05);

    cpu.execute(Instruction::LoadByteIntoRegister { register: 2, byte: 0x06 }).unwrap();
    assert_eq!(cpu.registers[0x2], 0x06);

    cpu.execute(Instruction::AddRegisters { register1: 1, register2: 2 }).unwrap();
    assert_eq!(cpu.registers[0x1], 0x0B);

    assert_eq!(cpu.registers[0xF], 0x00);

    cpu.execute(Instruction::SubRegisters { register1: 1, register2: 2 }).unwrap();
    assert_eq!(cpu.registers[0x1], 0x05);

    assert_eq!(cpu.registers[0xF], 0x01); // 1 - 6

    cpu.execute(Instruction::LoadRegistersIntoMemory { register: 1 }).unwrap();
    // Registers 0 and 1 go to index and index + 1; register 0 still holds 0.
    assert_eq!(cpu.memory[cpu.index as usize], 0x00);
    assert_eq!(cpu.memory[cpu.index as usize + 1], 0x05);

    cpu.execute(Instruction::ReturnFromSubroutine).unwrap();
    assert_eq!(cpu.pc, 0x200);
}
