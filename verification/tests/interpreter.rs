use chip8::decode::decode;
use chip8::machine::FONT_START;
use chip8::{Chip8, CycleStatus, Fault, Instruction, LoadError};

fn pixel(c: &Chip8, x: usize, y: usize) -> bool {
    c.framebuffer[y * 64 + x]
}

#[test]
fn power_on_state() {
    let c = Chip8::new();
    assert_eq!(c.program_counter, 0x200);
    assert_eq!(c.index_register, 0);
    assert_eq!(c.registers, vec![0u8; 16]);
    assert_eq!(c.stack.len(), 0);
    assert_eq!(c.delay_timer, 0);
    assert_eq!(c.sound_timer, 0);
    assert!(c.framebuffer.iter().all(|p| !p));
    assert!(c.keypad.iter().all(|k| !k));
    // the font table sits at its fixed location: glyph 0 starts with 0xF0,
    // glyph F ends with 0x80, and the byte after the table is zero
    assert_eq!(c.memory[FONT_START], 0xF0);
    assert_eq!(c.memory[FONT_START + 79], 0x80);
    assert_eq!(c.memory[FONT_START + 80], 0x00);
    assert_eq!(c.memory[0x200], 0x00);
}

#[test]
fn load_places_image_at_origin() {
    let mut c = Chip8::new();
    let rom = vec![0x60, 0x05, 0x70, 0x03];
    assert_eq!(c.load(&rom, 0x200), Ok(()));
    assert_eq!(&c.memory[0x200..0x204], &[0x60, 0x05, 0x70, 0x03]);
    assert_eq!(c.memory[0x204], 0x00);
}

#[test]
fn load_rejects_image_past_end_of_memory() {
    let mut c = Chip8::new();
    let before = c.memory.clone();
    let rom = vec![0xAB; 3585];
    assert_eq!(c.load(&rom, 0x200), Err(LoadError::RomTooLarge));
    assert_eq!(c.memory, before);
    // one byte smaller fits exactly
    let rom = vec![0xAB; 3584];
    assert_eq!(c.load(&rom, 0x200), Ok(()));
    assert_eq!(c.memory[4095], 0xAB);
}

#[test]
fn decode_covers_the_opcode_table() {
    assert_eq!(decode(0x00E0), Some(Instruction::ClearScreen));
    assert_eq!(decode(0x00EE), Some(Instruction::Return));
    assert_eq!(decode(0x1ABC), Some(Instruction::Jump { nnn: 0xABC }));
    assert_eq!(decode(0x2300), Some(Instruction::Call { nnn: 0x300 }));
    assert_eq!(decode(0x3A42), Some(Instruction::SkipEqImm { x: 0xA, nn: 0x42 }));
    assert_eq!(decode(0x4A42), Some(Instruction::SkipNeImm { x: 0xA, nn: 0x42 }));
    assert_eq!(decode(0x5AB0), Some(Instruction::SkipEqReg { x: 0xA, y: 0xB }));
    assert_eq!(decode(0x6C99), Some(Instruction::SetImm { x: 0xC, nn: 0x99 }));
    assert_eq!(decode(0x7C01), Some(Instruction::AddImm { x: 0xC, nn: 0x01 }));
    assert_eq!(decode(0x8AB0), Some(Instruction::Assign { x: 0xA, y: 0xB }));
    assert_eq!(decode(0x8AB1), Some(Instruction::Or { x: 0xA, y: 0xB }));
    assert_eq!(decode(0x8AB2), Some(Instruction::And { x: 0xA, y: 0xB }));
    assert_eq!(decode(0x8AB3), Some(Instruction::Xor { x: 0xA, y: 0xB }));
    assert_eq!(decode(0x8AB4), Some(Instruction::AddCarry { x: 0xA, y: 0xB }));
    assert_eq!(decode(0x8AB5), Some(Instruction::SubBorrow { x: 0xA, y: 0xB }));
    assert_eq!(decode(0x8AB6), Some(Instruction::ShiftRight { x: 0xA, y: 0xB }));
    assert_eq!(decode(0x8AB7), Some(Instruction::SubBorrowRev { x: 0xA, y: 0xB }));
    assert_eq!(decode(0x8ABE), Some(Instruction::ShiftLeft { x: 0xA, y: 0xB }));
    assert_eq!(decode(0x9AB0), Some(Instruction::SkipNeReg { x: 0xA, y: 0xB }));
    assert_eq!(decode(0xA123), Some(Instruction::SetIndex { nnn: 0x123 }));
    assert_eq!(decode(0xB123), Some(Instruction::JumpOffset { nnn: 0x123 }));
    assert_eq!(decode(0xC5F0), Some(Instruction::Random { x: 5, nn: 0xF0 }));
    assert_eq!(decode(0xD123), Some(Instruction::Draw { x: 1, y: 2, n: 3 }));
    assert_eq!(decode(0xE49E), Some(Instruction::SkipKeyPressed { x: 4 }));
    assert_eq!(decode(0xE4A1), Some(Instruction::SkipKeyNotPressed { x: 4 }));
    assert_eq!(decode(0xF407), Some(Instruction::ReadDelay { x: 4 }));
    assert_eq!(decode(0xF40A), Some(Instruction::WaitKey { x: 4 }));
    assert_eq!(decode(0xF415), Some(Instruction::SetDelay { x: 4 }));
    assert_eq!(decode(0xF418), Some(Instruction::SetSound { x: 4 }));
    assert_eq!(decode(0xF41E), Some(Instruction::AddIndex { x: 4 }));
    assert_eq!(decode(0xF429), Some(Instruction::FontIndex { x: 4 }));
    assert_eq!(decode(0xF433), Some(Instruction::StoreBcd { x: 4 }));
    assert_eq!(decode(0xF455), Some(Instruction::StoreRegs { x: 4 }));
    assert_eq!(decode(0xF465), Some(Instruction::LoadRegs { x: 4 }));
}

#[test]
fn decode_rejects_words_outside_the_table() {
    assert_eq!(decode(0x0123), None);
    assert_eq!(decode(0x5AB1), None);
    assert_eq!(decode(0x8AB8), None);
    assert_eq!(decode(0x9AB5), None);
    assert_eq!(decode(0xE400), None);
    assert_eq!(decode(0xF4FF), None);
}

#[test]
fn add_with_carry_wraps_and_sets_flag() {
    let mut c = Chip8::new();
    c.registers[1] = 200;
    c.registers[2] = 100;
    let st = c.exec_instr(Instruction::AddCarry { x: 1, y: 2 }, 0);
    assert_eq!(st, CycleStatus::Executed);
    assert_eq!(c.registers[1], 44); // (200 + 100) mod 256
    assert_eq!(c.registers[15], 1);

    c.registers[1] = 20;
    c.registers[2] = 30;
    c.exec_instr(Instruction::AddCarry { x: 1, y: 2 }, 0);
    assert_eq!(c.registers[1], 50);
    assert_eq!(c.registers[15], 0);
}

#[test]
fn sub_with_borrow_wraps_and_sets_flag() {
    let mut c = Chip8::new();
    c.registers[1] = 10;
    c.registers[2] = 3;
    c.exec_instr(Instruction::SubBorrow { x: 1, y: 2 }, 0);
    assert_eq!(c.registers[1], 7);
    assert_eq!(c.registers[15], 1); // no borrow

    c.registers[1] = 3;
    c.registers[2] = 10;
    c.exec_instr(Instruction::SubBorrow { x: 1, y: 2 }, 0);
    assert_eq!(c.registers[1], 249); // (3 - 10) mod 256
    assert_eq!(c.registers[15], 0);

    // equal values count as "no borrow"
    c.registers[1] = 5;
    c.registers[2] = 5;
    c.exec_instr(Instruction::SubBorrow { x: 1, y: 2 }, 0);
    assert_eq!(c.registers[1], 0);
    assert_eq!(c.registers[15], 1);
}

#[test]
fn sub_reversed_uses_other_operand_order() {
    let mut c = Chip8::new();
    c.registers[1] = 3;
    c.registers[2] = 10;
    c.exec_instr(Instruction::SubBorrowRev { x: 1, y: 2 }, 0);
    assert_eq!(c.registers[1], 7); // Vy - Vx
    assert_eq!(c.registers[15], 1);
}

#[test]
fn shifts_report_the_dropped_bit() {
    let mut c = Chip8::new();
    c.registers[3] = 0b1001_0101;
    c.exec_instr(Instruction::ShiftRight { x: 3, y: 0 }, 0);
    assert_eq!(c.registers[3], 0b0100_1010);
    assert_eq!(c.registers[15], 1);

    c.registers[3] = 0b1001_0100;
    c.exec_instr(Instruction::ShiftLeft { x: 3, y: 0 }, 0);
    assert_eq!(c.registers[3], 0b0010_1000);
    assert_eq!(c.registers[15], 1);
}

#[test]
fn bitwise_ops_apply_to_vx() {
    let mut c = Chip8::new();
    c.registers[1] = 0b1100;
    c.registers[2] = 0b1010;
    c.exec_instr(Instruction::Or { x: 1, y: 2 }, 0);
    assert_eq!(c.registers[1], 0b1110);
    c.registers[1] = 0b1100;
    c.exec_instr(Instruction::And { x: 1, y: 2 }, 0);
    assert_eq!(c.registers[1], 0b1000);
    c.registers[1] = 0b1100;
    c.exec_instr(Instruction::Xor { x: 1, y: 2 }, 0);
    assert_eq!(c.registers[1], 0b0110);
}

#[test]
fn draw_twice_turns_touched_pixels_off_and_collides() {
    let mut c = Chip8::new();
    c.index_register = 0x300;
    c.memory[0x300] = 0xFF; // all-set 8x1 sprite
    c.registers[0] = 5;
    c.registers[1] = 3;
    let st = c.exec_instr(Instruction::Draw { x: 0, y: 1, n: 1 }, 0);
    assert_eq!(st, CycleStatus::Executed);
    for col in 0..8 {
        assert!(pixel(&c, 5 + col, 3));
    }
    assert_eq!(c.registers[15], 0);

    let st = c.exec_instr(Instruction::Draw { x: 0, y: 1, n: 1 }, 0);
    assert_eq!(st, CycleStatus::Executed);
    for col in 0..8 {
        assert!(!pixel(&c, 5 + col, 3));
    }
    assert_eq!(c.registers[15], 1);
}

#[test]
fn draw_after_clear_screen_never_collides() {
    let mut c = Chip8::new();
    c.index_register = 0x300;
    c.memory[0x300] = 0xFF;
    c.registers[0] = 5;
    c.registers[1] = 3;
    c.exec_instr(Instruction::Draw { x: 0, y: 1, n: 1 }, 0);
    c.exec_instr(Instruction::ClearScreen, 0);
    assert!(c.framebuffer.iter().all(|p| !p));
    c.exec_instr(Instruction::Draw { x: 0, y: 1, n: 1 }, 0);
    assert_eq!(c.registers[15], 0);
}

#[test]
fn draw_wraps_at_screen_edges() {
    let mut c = Chip8::new();
    c.index_register = 0x300;
    c.memory[0x300] = 0xFF;
    c.memory[0x301] = 0xFF;
    c.registers[0] = 60; // wraps across the right edge
    c.registers[1] = 31; // second row wraps to the top
    c.exec_instr(Instruction::Draw { x: 0, y: 1, n: 2 }, 0);
    assert!(pixel(&c, 60, 31));
    assert!(pixel(&c, 63, 31));
    assert!(pixel(&c, 0, 31));
    assert!(pixel(&c, 3, 31));
    assert!(pixel(&c, 60, 0));
    assert!(pixel(&c, 3, 0));
    assert!(!pixel(&c, 4, 31));
    assert_eq!(c.registers[15], 0);
}

#[test]
fn draw_coordinates_reduce_modulo_screen_size() {
    let mut c = Chip8::new();
    c.index_register = 0x300;
    c.memory[0x300] = 0x80; // single pixel
    c.registers[0] = 64 + 2;
    c.registers[1] = 32 + 1;
    c.exec_instr(Instruction::Draw { x: 0, y: 1, n: 1 }, 0);
    assert!(pixel(&c, 2, 1));
}

#[test]
fn draw_past_end_of_memory_faults() {
    let mut c = Chip8::new();
    c.index_register = 0xFFA; // 4090; 15 rows would pass 4096
    let st = c.exec_instr(Instruction::Draw { x: 0, y: 1, n: 15 }, 0);
    assert_eq!(st, CycleStatus::Faulted(Fault::MemoryOutOfBounds));
    assert_eq!(c.fault, Some(Fault::MemoryOutOfBounds));
}

#[test]
fn call_then_return_restores_counter_and_stack() {
    let mut c = Chip8::new();
    let rom = vec![0x23, 0x00]; // call 0x300
    c.load(&rom, 0x200).unwrap();
    c.memory[0x300] = 0x00;
    c.memory[0x301] = 0xEE; // return
    let sp_before = c.stack_pointer();
    assert_eq!(c.step(0), CycleStatus::Executed);
    assert_eq!(c.program_counter, 0x300);
    assert_eq!(c.stack, vec![0x202]);
    assert_eq!(c.stack_pointer(), sp_before + 1);
    assert_eq!(c.step(0), CycleStatus::Executed);
    assert_eq!(c.program_counter, 0x202);
    assert_eq!(c.stack_pointer(), sp_before);
}

#[test]
fn call_on_a_full_stack_overflows() {
    let mut c = Chip8::new();
    c.stack = vec![0x200; 16];
    let st = c.exec_instr(Instruction::Call { nnn: 0x300 }, 0);
    assert_eq!(st, CycleStatus::Faulted(Fault::StackOverflow));
    assert_eq!(c.fault, Some(Fault::StackOverflow));
    // a halted machine refuses to move
    assert_eq!(c.step(0), CycleStatus::Faulted(Fault::StackOverflow));
}

#[test]
fn return_on_an_empty_stack_underflows() {
    let mut c = Chip8::new();
    let st = c.exec_instr(Instruction::Return, 0);
    assert_eq!(st, CycleStatus::Faulted(Fault::StackUnderflow));
    assert_eq!(c.fault, Some(Fault::StackUnderflow));
}

#[test]
fn fetch_past_end_of_memory_faults() {
    let mut c = Chip8::new();
    c.program_counter = 0xFFF;
    assert_eq!(c.step(0), CycleStatus::Faulted(Fault::MemoryOutOfBounds));
    assert_eq!(c.fault, Some(Fault::MemoryOutOfBounds));
}

#[test]
fn fetch_at_the_last_valid_address_then_fault() {
    let mut c = Chip8::new();
    c.program_counter = 0xFFE; // the last 2-byte-aligned fetch location
    assert_eq!(c.step(0), CycleStatus::UnknownOpcode); // the word there is 0x0000
    assert_eq!(c.program_counter, 0x1000);
    assert_eq!(c.step(0), CycleStatus::Faulted(Fault::MemoryOutOfBounds));
}

#[test]
fn data_opcodes_respect_memory_bounds() {
    let mut c = Chip8::new();
    c.index_register = 0xFFE; // three digits would pass 4096
    assert_eq!(
        c.exec_instr(Instruction::StoreBcd { x: 0 }, 0),
        CycleStatus::Faulted(Fault::MemoryOutOfBounds)
    );

    let mut c = Chip8::new();
    c.index_register = 0xFF8; // sixteen registers would pass 4096
    assert_eq!(
        c.exec_instr(Instruction::StoreRegs { x: 15 }, 0),
        CycleStatus::Faulted(Fault::MemoryOutOfBounds)
    );

    let mut c = Chip8::new();
    c.index_register = 0xFF8;
    assert_eq!(
        c.exec_instr(Instruction::LoadRegs { x: 15 }, 0),
        CycleStatus::Faulted(Fault::MemoryOutOfBounds)
    );

    // sixteen registers ending exactly at the end of memory are fine
    let mut c = Chip8::new();
    c.index_register = 0xFF0;
    c.registers[15] = 0x7E;
    assert_eq!(
        c.exec_instr(Instruction::StoreRegs { x: 15 }, 0),
        CycleStatus::Executed
    );
    assert_eq!(c.memory[4095], 0x7E);
}

#[test]
fn draw_with_zero_rows_does_nothing() {
    let mut c = Chip8::new();
    c.index_register = 0x300;
    c.memory[0x300] = 0xFF;
    let st = c.exec_instr(Instruction::Draw { x: 0, y: 1, n: 0 }, 0);
    assert_eq!(st, CycleStatus::Executed);
    assert!(c.framebuffer.iter().all(|p| !p));
    assert_eq!(c.registers[15], 0);
}

#[test]
fn jump_with_offset_adds_v0() {
    let mut c = Chip8::new();
    c.registers[0] = 0x10;
    c.exec_instr(Instruction::JumpOffset { nnn: 0x300 }, 0);
    assert_eq!(c.program_counter, 0x310);
}

#[test]
fn jump_with_offset_past_end_of_memory_faults() {
    let mut c = Chip8::new();
    c.registers[0] = 200;
    let st = c.exec_instr(Instruction::JumpOffset { nnn: 0xFFF }, 0);
    assert_eq!(st, CycleStatus::Faulted(Fault::MemoryOutOfBounds));
}

#[test]
fn skip_equal_immediate_advances_four_or_two() {
    let mut c = Chip8::new();
    let rom = vec![0x30, 0x42, 0x00, 0x00, 0x30, 0x42];
    c.load(&rom, 0x200).unwrap();
    c.registers[0] = 0x42;
    c.step(0);
    assert_eq!(c.program_counter, 0x204); // matched: 2 for fetch + 2 skip
    c.registers[0] = 0x41;
    c.step(0);
    assert_eq!(c.program_counter, 0x206); // not matched: fetch advance only
}

#[test]
fn register_skips_compare_vx_and_vy() {
    let mut c = Chip8::new();
    c.registers[1] = 7;
    c.registers[2] = 7;
    let pc = c.program_counter;
    c.exec_instr(Instruction::SkipEqReg { x: 1, y: 2 }, 0);
    assert_eq!(c.program_counter, pc + 2);
    c.exec_instr(Instruction::SkipNeReg { x: 1, y: 2 }, 0);
    assert_eq!(c.program_counter, pc + 2);
    c.registers[2] = 8;
    c.exec_instr(Instruction::SkipNeReg { x: 1, y: 2 }, 0);
    assert_eq!(c.program_counter, pc + 4);
}

#[test]
fn unknown_opcode_is_skipped_as_no_op() {
    let mut c = Chip8::new();
    let rom = vec![0x01, 0x23]; // no opcode of the table
    c.load(&rom, 0x200).unwrap();
    let before = c.registers.clone();
    assert_eq!(c.step(0), CycleStatus::UnknownOpcode);
    assert_eq!(c.program_counter, 0x202);
    assert_eq!(c.registers, before);
    assert_eq!(c.fault, None);
}

#[test]
fn timer_decay_reaches_zero_and_stays_there() {
    let mut c = Chip8::new();
    c.delay_timer = 3;
    c.sound_timer = 2;
    for _ in 0..3 {
        c.tick_timers();
    }
    assert_eq!(c.delay_timer, 0);
    assert_eq!(c.sound_timer, 0);
    for _ in 0..5 {
        c.tick_timers();
    }
    assert_eq!(c.delay_timer, 0);
    assert_eq!(c.sound_timer, 0);
}

#[test]
fn timer_transfer_opcodes() {
    let mut c = Chip8::new();
    c.registers[4] = 77;
    c.exec_instr(Instruction::SetDelay { x: 4 }, 0);
    assert_eq!(c.delay_timer, 77);
    c.exec_instr(Instruction::SetSound { x: 4 }, 0);
    assert_eq!(c.sound_timer, 77);
    assert!(c.sound_active());
    c.registers[5] = 0;
    c.exec_instr(Instruction::ReadDelay { x: 5 }, 0);
    assert_eq!(c.registers[5], 77);
    c.sound_timer = 0;
    assert!(!c.sound_active());
}

#[test]
fn bcd_store_writes_decimal_digits() {
    let mut c = Chip8::new();
    c.registers[0] = 234;
    c.index_register = 0x300;
    let st = c.exec_instr(Instruction::StoreBcd { x: 0 }, 0);
    assert_eq!(st, CycleStatus::Executed);
    assert_eq!(&c.memory[0x300..0x303], &[2, 3, 4]);
}

#[test]
fn bcd_store_edge_values() {
    let mut c = Chip8::new();
    c.index_register = 0x300;
    c.registers[0] = 0;
    c.exec_instr(Instruction::StoreBcd { x: 0 }, 0);
    assert_eq!(&c.memory[0x300..0x303], &[0, 0, 0]);
    c.registers[0] = 255;
    c.exec_instr(Instruction::StoreBcd { x: 0 }, 0);
    assert_eq!(&c.memory[0x300..0x303], &[2, 5, 5]);
}

#[test]
fn store_and_load_registers_round_trip() {
    let mut c = Chip8::new();
    for k in 0..6 {
        c.registers[k] = 10 * k as u8 + 1;
    }
    c.index_register = 0x400;
    c.exec_instr(Instruction::StoreRegs { x: 5 }, 0);
    assert_eq!(&c.memory[0x400..0x406], &[1, 11, 21, 31, 41, 51]);
    assert_eq!(c.memory[0x406], 0);
    for k in 0..16 {
        c.registers[k] = 0xEE;
    }
    c.exec_instr(Instruction::LoadRegs { x: 5 }, 0);
    assert_eq!(&c.registers[0..6], &[1, 11, 21, 31, 41, 51]);
    assert_eq!(c.registers[6], 0xEE); // registers above Vx stay untouched
}

#[test]
fn add_to_index_wraps_in_address_space() {
    let mut c = Chip8::new();
    c.index_register = 0xFFE;
    c.registers[1] = 4;
    c.exec_instr(Instruction::AddIndex { x: 1 }, 0);
    assert_eq!(c.index_register, 0x002);
    assert_eq!(c.registers[15], 0); // flag untouched by convention
}

#[test]
fn font_index_points_at_the_glyph() {
    let mut c = Chip8::new();
    c.registers[2] = 0x0A;
    c.exec_instr(Instruction::FontIndex { x: 2 }, 0);
    assert_eq!(c.index_register, 0x50 + 5 * 0xA);
    // only the low nibble selects the glyph
    c.registers[2] = 0xFA;
    c.exec_instr(Instruction::FontIndex { x: 2 }, 0);
    assert_eq!(c.index_register, 0x50 + 5 * 0xA);
}

#[test]
fn random_masks_with_the_immediate() {
    let mut c = Chip8::new();
    c.exec_instr(Instruction::Random { x: 3, nn: 0x0F }, 0b1010_1100);
    assert_eq!(c.registers[3], 0b0000_1100);
    // a zero mask pins the result whatever the generator returned
    let rom = vec![0xC3, 0x00];
    let mut c = Chip8::new();
    c.load(&rom, 0x200).unwrap();
    c.registers[3] = 7;
    assert_eq!(c.emulate_cycle(), CycleStatus::Executed);
    assert_eq!(c.registers[3], 0);
}

#[test]
fn key_skips_test_the_key_under_vx() {
    let mut c = Chip8::new();
    c.registers[1] = 0x5;
    c.set_key(0x5, true);
    let pc = c.program_counter;
    c.exec_instr(Instruction::SkipKeyPressed { x: 1 }, 0);
    assert_eq!(c.program_counter, pc + 2);
    c.exec_instr(Instruction::SkipKeyNotPressed { x: 1 }, 0);
    assert_eq!(c.program_counter, pc + 2);
    c.set_key(0x5, false);
    c.exec_instr(Instruction::SkipKeyNotPressed { x: 1 }, 0);
    assert_eq!(c.program_counter, pc + 4);
}

#[test]
fn wait_key_suspends_until_a_key_arrives() {
    let mut c = Chip8::new();
    let rom = vec![0xF2, 0x0A]; // wait for a key into V2
    c.load(&rom, 0x200).unwrap();
    assert_eq!(c.step(0), CycleStatus::AwaitingKey);
    assert_eq!(c.program_counter, 0x202);
    assert_eq!(c.awaiting_key, Some(2));
    // still waiting while nothing is pressed
    assert_eq!(c.step(0), CycleStatus::AwaitingKey);
    assert_eq!(c.program_counter, 0x202);
    c.set_key(0x7, true);
    assert_eq!(c.step(0), CycleStatus::Executed);
    assert_eq!(c.registers[2], 0x7);
    assert_eq!(c.awaiting_key, None);
    assert_eq!(c.program_counter, 0x202); // resuming consumed no instruction
}

#[test]
fn wait_key_with_key_already_down_stores_immediately() {
    let mut c = Chip8::new();
    c.set_key(0x3, true);
    let st = c.exec_instr(Instruction::WaitKey { x: 2 }, 0);
    assert_eq!(st, CycleStatus::Executed);
    assert_eq!(c.registers[2], 0x3);
    assert_eq!(c.awaiting_key, None);
}

#[test]
fn assign_and_immediates() {
    let mut c = Chip8::new();
    c.exec_instr(Instruction::SetImm { x: 1, nn: 0xAB }, 0);
    assert_eq!(c.registers[1], 0xAB);
    c.exec_instr(Instruction::AddImm { x: 1, nn: 0x60 }, 0);
    assert_eq!(c.registers[1], 0x0B); // wraps, no flag effect
    assert_eq!(c.registers[15], 0);
    c.exec_instr(Instruction::Assign { x: 2, y: 1 }, 0);
    assert_eq!(c.registers[2], 0x0B);
    c.exec_instr(Instruction::SetIndex { nnn: 0x321 }, 0);
    assert_eq!(c.index_register, 0x321);
}

#[test]
fn two_cycles_then_a_jump_loop() {
    let mut c = Chip8::new();
    // V0 = 0x05; V0 += 0x03; jump back to the start of the program
    let rom = vec![0x60, 0x05, 0x70, 0x03, 0x12, 0x00];
    c.load(&rom, 0x200).unwrap();
    assert_eq!(c.emulate_cycle(), CycleStatus::Executed);
    assert_eq!(c.emulate_cycle(), CycleStatus::Executed);
    assert_eq!(c.registers[0], 8);
    assert_eq!(c.program_counter, 0x204);
    assert_eq!(c.emulate_cycle(), CycleStatus::Executed);
    assert_eq!(c.program_counter, 0x200);
    // the loop repeats forever: two more cycles land at the same spot
    for _ in 0..2 {
        assert_eq!(c.emulate_cycle(), CycleStatus::Executed);
    }
    assert_eq!(c.registers[0], 8);
    assert_eq!(c.program_counter, 0x204);
}
