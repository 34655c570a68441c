use chip8_rs::keymap::key_for_code;
use chip8_rs::{
    Chip8, Chip8Error, SoundState, FONTSET, FONTSET_SIZE, FONTSET_START_ADDRESS, MEMORY_SIZE,
    START_ADDRESS, VIDEO_HEIGHT, VIDEO_WIDTH,
};

fn machine_with(program: &[u8]) -> Chip8 {
    let mut chp8 = Chip8::new();
    assert_eq!(chp8.load_rom(program), Ok(()));
    chp8
}

#[test]
fn new_machine_holds_font_and_starts_at_load_address() {
    let chp8 = Chip8::new();
    assert_eq!(chp8.pc, 0x200);
    assert_eq!(chp8.sp, 0);
    assert_eq!(chp8.index, 0);
    let start = FONTSET_START_ADDRESS as usize;
    assert_eq!(&chp8.memory[start..start + FONTSET_SIZE], &FONTSET[..]);
    assert_eq!(chp8.memory[start], 0xF0);
    assert_eq!(chp8.memory[start + FONTSET_SIZE - 1], 0x80);
    assert!(chp8.memory[..start].iter().all(|b| *b == 0));
    assert!(chp8.memory[start + FONTSET_SIZE..].iter().all(|b| *b == 0));
    assert!(chp8.video.iter().all(|p| *p == 0));
}

#[test]
fn load_rom_copies_bytes_to_load_address() {
    let chp8 = machine_with(&[0xA1, 0x23, 0x60, 0x05]);
    assert_eq!(&chp8.memory[0x200..0x204], &[0xA1, 0x23, 0x60, 0x05]);
    assert_eq!(chp8.memory[0x204], 0);
}

#[test]
fn load_rom_accepts_largest_program() {
    let rom = vec![0x11u8; MEMORY_SIZE - START_ADDRESS as usize];
    let mut chp8 = Chip8::new();
    assert_eq!(chp8.load_rom(&rom), Ok(()));
    assert_eq!(chp8.memory[MEMORY_SIZE - 1], 0x11);
}

#[test]
fn load_rom_refuses_program_too_large() {
    let rom = vec![0x11u8; MEMORY_SIZE - START_ADDRESS as usize + 1];
    let mut chp8 = Chip8::new();
    assert_eq!(chp8.load_rom(&rom), Err(Chip8Error::RomTooLarge));
    assert_eq!(chp8.memory[0x200], 0);
}

#[test]
fn cycle_fetches_advances_and_executes() {
    let mut chp8 = machine_with(&[0x6A, 0x42, 0xA1, 0x23]);
    assert_eq!(chp8.step(0), Ok(()));
    assert_eq!(chp8.opcode, 0x6A42);
    assert_eq!(chp8.registers[0xA], 0x42);
    assert_eq!(chp8.pc, 0x202);
    assert_eq!(chp8.cycle(), Ok(()));
    assert_eq!(chp8.index, 0x123);
    assert_eq!(chp8.pc, 0x204);
}

#[test]
fn skip_advances_by_four_when_taken_and_two_when_not() {
    // 3xnn with V0 == 0x00: skip taken.
    let mut chp8 = machine_with(&[0x30, 0x00]);
    assert_eq!(chp8.step(0), Ok(()));
    assert_eq!(chp8.pc, 0x204);
    // 3xnn with V0 != 0x01: not taken.
    let mut chp8 = machine_with(&[0x30, 0x01]);
    assert_eq!(chp8.step(0), Ok(()));
    assert_eq!(chp8.pc, 0x202);
    // 9xy0 with V1 != V2: taken.
    let mut chp8 = machine_with(&[0x91, 0x20]);
    chp8.registers[1] = 7;
    assert_eq!(chp8.step(0), Ok(()));
    assert_eq!(chp8.pc, 0x204);
    // ExA1 with key V0 down: not taken.
    let mut chp8 = machine_with(&[0xE0, 0xA1]);
    chp8.keypad[0] = 1;
    assert_eq!(chp8.step(0), Ok(()));
    assert_eq!(chp8.pc, 0x202);
}

#[test]
fn clear_after_draw_turns_every_cell_off() {
    // CLS; DRW V0, V1, 5 (glyph 0 at I); CLS
    let mut chp8 = machine_with(&[0x00, 0xE0, 0xA0, 0x50, 0xD0, 0x15, 0x00, 0xE0]);
    chp8.video.fill(0xFFFF_FFFF);
    assert_eq!(chp8.step(0), Ok(()));
    assert!(chp8.video.iter().all(|p| *p == 0));
    assert_eq!(chp8.step(0), Ok(()));
    assert_eq!(chp8.step(0), Ok(()));
    assert!(chp8.video.iter().any(|p| *p != 0));
    assert_eq!(chp8.step(0), Ok(()));
    assert!(chp8.video.iter().all(|p| *p == 0));
}

#[test]
fn drawing_twice_restores_framebuffer() {
    let mut chp8 = Chip8::new();
    chp8.video[5] = 0xFFFF_FFFF;
    let before = chp8.video;
    chp8.index = FONTSET_START_ADDRESS + 5 * 8;
    chp8.registers[3] = 10;
    chp8.registers[4] = 20;
    chp8.opcode = 0xD345;
    chp8.op_dxyn();
    assert_eq!(chp8.registers[0xF], 0);
    assert_ne!(chp8.video, before);
    chp8.op_dxyn();
    assert_eq!(chp8.registers[0xF], 1);
    assert_eq!(chp8.video, before);
}

#[test]
fn draw_wraps_around_both_edges() {
    let mut chp8 = Chip8::new();
    chp8.index = 0x300;
    chp8.memory[0x300] = 0xC0;
    chp8.memory[0x301] = 0xC0;
    chp8.registers[0] = 63;
    chp8.registers[1] = 31;
    chp8.opcode = 0xD012;
    chp8.op_dxyn();
    assert_eq!(chp8.video[31 * VIDEO_WIDTH + 63], 0xFFFF_FFFF);
    assert_eq!(chp8.video[31 * VIDEO_WIDTH], 0xFFFF_FFFF);
    assert_eq!(chp8.video[63], 0xFFFF_FFFF);
    assert_eq!(chp8.video[0], 0xFFFF_FFFF);
    assert_eq!(chp8.video.iter().filter(|p| **p != 0).count(), 4);
    assert_eq!(chp8.registers[0xF], 0);
}

#[test]
fn add_with_carry_examples() {
    let mut chp8 = Chip8::new();
    chp8.registers[0] = 0x00;
    chp8.registers[1] = 0x01;
    chp8.opcode = 0x8014;
    chp8.op_8xy4();
    assert_eq!(chp8.registers[0], 0x01);
    assert_eq!(chp8.registers[0xF], 0);

    chp8.registers[2] = 0xF2;
    chp8.registers[3] = 0xF3;
    chp8.opcode = 0x8234;
    chp8.op_8xy4();
    assert_eq!(chp8.registers[2], 0xE5);
    assert_eq!(chp8.registers[0xF], 1);
}

#[test]
fn shift_examples() {
    let mut chp8 = Chip8::new();
    chp8.registers[5] = 0b0000_1001;
    chp8.opcode = 0x8506;
    chp8.op_8xy6();
    assert_eq!(chp8.registers[5], 0b0000_0100);
    assert_eq!(chp8.registers[0xF], 1);

    chp8.registers[6] = 0b1000_1000;
    chp8.opcode = 0x860E;
    chp8.op_8xye();
    assert_eq!(chp8.registers[6], 0b0001_0000);
    assert_eq!(chp8.registers[0xF], 1);

    chp8.registers[6] = 0b0100_0000;
    chp8.op_8xye();
    assert_eq!(chp8.registers[6], 0b1000_0000);
    assert_eq!(chp8.registers[0xF], 0);
}

#[test]
fn subtraction_flags_are_strict() {
    let mut chp8 = Chip8::new();
    chp8.registers[0] = 5;
    chp8.registers[1] = 5;
    chp8.opcode = 0x8015;
    chp8.op_8xy5();
    assert_eq!(chp8.registers[0], 0);
    assert_eq!(chp8.registers[0xF], 0);

    chp8.registers[0] = 3;
    chp8.registers[1] = 5;
    chp8.opcode = 0x8017;
    chp8.op_8xy7();
    assert_eq!(chp8.registers[0], 2);
    assert_eq!(chp8.registers[0xF], 1);
}

#[test]
fn add_byte_wraps_and_keeps_flag() {
    let mut chp8 = Chip8::new();
    chp8.registers[2] = 0xFF;
    chp8.registers[0xF] = 7;
    chp8.opcode = 0x7202;
    chp8.op_7xnn();
    assert_eq!(chp8.registers[2], 0x01);
    assert_eq!(chp8.registers[0xF], 7);
}

#[test]
fn call_then_return_resumes_after_call() {
    // 0x200: CALL 0x206; 0x206: RET
    let mut chp8 = machine_with(&[0x22, 0x06, 0x00, 0x00, 0x00, 0x00, 0x00, 0xEE]);
    chp8.sp = 3;
    assert_eq!(chp8.step(0), Ok(()));
    assert_eq!(chp8.pc, 0x206);
    assert_eq!(chp8.sp, 4);
    assert_eq!(chp8.stack[3], 0x202);
    assert_eq!(chp8.step(0), Ok(()));
    assert_eq!(chp8.pc, 0x202);
    assert_eq!(chp8.sp, 3);
}

#[test]
fn key_wait_repeats_until_a_key_is_down() {
    let mut chp8 = machine_with(&[0xF5, 0x0A]);
    chp8.delay_timer = 3;
    for _ in 0..3 {
        assert_eq!(chp8.step(0), Ok(()));
        assert_eq!(chp8.pc, 0x200);
        assert_eq!(chp8.registers[5], 0);
    }
    assert_eq!(chp8.delay_timer, 0);
    chp8.keypad[0xC] = 1;
    chp8.keypad[0x9] = 1;
    assert_eq!(chp8.step(0), Ok(()));
    assert_eq!(chp8.registers[5], 0x9);
    assert_eq!(chp8.pc, 0x202);
}

#[test]
fn bcd_of_123_and_255() {
    let mut chp8 = Chip8::new();
    chp8.index = 0x300;
    chp8.registers[1] = 123;
    chp8.opcode = 0xF133;
    chp8.op_fx33();
    assert_eq!(&chp8.memory[0x300..0x303], &[1, 2, 3]);
    chp8.registers[1] = 255;
    chp8.op_fx33();
    assert_eq!(&chp8.memory[0x300..0x303], &[2, 5, 5]);
}

#[test]
fn store_then_load_restores_registers() {
    let mut chp8 = Chip8::new();
    let saved: [u8; 16] = [9, 8, 7, 6, 5, 4, 3, 2, 1, 0, 11, 12, 13, 14, 15, 16];
    chp8.registers = saved;
    chp8.index = 0x400;
    chp8.opcode = 0xFF55;
    chp8.op_fx55();
    chp8.registers = [0; 16];
    chp8.opcode = 0xFF65;
    chp8.op_fx65();
    assert_eq!(chp8.registers, saved);
}

#[test]
fn glyph_address_of_digit() {
    let mut chp8 = Chip8::new();
    chp8.registers[2] = 0xA;
    chp8.opcode = 0xF229;
    chp8.op_fx29();
    assert_eq!(chp8.index, 0x50 + 50);
    chp8.registers[2] = 0xFF;
    chp8.op_fx29();
    assert_eq!(chp8.index, 0x50 + 5 * 255);
}

#[test]
fn add_index_wraps_at_sixteen_bits() {
    let mut chp8 = Chip8::new();
    chp8.index = 0xFFFF;
    chp8.registers[0] = 2;
    chp8.opcode = 0xF01E;
    chp8.op_fx1e();
    assert_eq!(chp8.index, 1);
}

#[test]
fn jump_with_offset() {
    let mut chp8 = machine_with(&[0xB3, 0x00]);
    chp8.registers[0] = 0x20;
    assert_eq!(chp8.step(0), Ok(()));
    assert_eq!(chp8.pc, 0x320);
}

#[test]
fn random_load_masks_with_byte() {
    let mut chp8 = Chip8::new();
    chp8.opcode = 0xC30F;
    chp8.op_cxkk_with(0xAB);
    assert_eq!(chp8.registers[3], 0x0B);
    let mut chp8 = machine_with(&[0xC4, 0x00]);
    chp8.registers[4] = 0x77;
    assert_eq!(chp8.cycle(), Ok(()));
    assert_eq!(chp8.registers[4], 0);
}

#[test]
fn unknown_instruction_changes_only_pc_and_opcode() {
    let mut chp8 = machine_with(&[0x80, 0x0F]);
    chp8.registers[0] = 3;
    let registers = chp8.registers;
    assert_eq!(chp8.step(0), Ok(()));
    assert_eq!(chp8.pc, 0x202);
    assert_eq!(chp8.opcode, 0x800F);
    assert_eq!(chp8.registers, registers);
}

#[test]
fn timers_count_down_to_zero() {
    let mut chp8 = machine_with(&[0x12, 0x00]);
    chp8.delay_timer = 2;
    chp8.sound_timer = 1;
    assert_eq!(chp8.sound_state(), SoundState::On);
    assert_eq!(chp8.step(0), Ok(()));
    assert_eq!(chp8.delay_timer, 1);
    assert_eq!(chp8.sound_timer, 0);
    assert_eq!(chp8.sound_state(), SoundState::Off);
    assert_eq!(chp8.step(0), Ok(()));
    assert_eq!(chp8.step(0), Ok(()));
    assert_eq!(chp8.delay_timer, 0);
    assert_eq!(chp8.sound_timer, 0);
}

#[test]
fn call_with_full_stack_is_overflow() {
    let mut chp8 = machine_with(&[0x23, 0x00]);
    chp8.sp = 16;
    assert_eq!(chp8.step(0), Err(Chip8Error::StackOverflow));
    assert_eq!(chp8.pc, 0x200);
    assert_eq!(chp8.sp, 16);
}

#[test]
fn return_with_empty_stack_is_underflow() {
    let mut chp8 = machine_with(&[0x00, 0xEE]);
    assert_eq!(chp8.step(0), Err(Chip8Error::StackUnderflow));
    assert_eq!(chp8.pc, 0x200);
    assert_eq!(chp8.opcode, 0);
}

#[test]
fn fetch_past_memory_is_out_of_range() {
    let mut chp8 = Chip8::new();
    chp8.pc = 0xFFF;
    assert_eq!(chp8.step(0), Err(Chip8Error::AddressOutOfRange));
    assert_eq!(chp8.pc, 0xFFF);
    chp8.pc = 0xFFE;
    assert_eq!(chp8.step(0), Ok(()));
}

#[test]
fn memory_instructions_past_the_end_are_out_of_range() {
    // Fx33 with index + 2 past the end.
    let mut chp8 = machine_with(&[0xF0, 0x33]);
    chp8.index = 0xFFE;
    assert_eq!(chp8.step(0), Err(Chip8Error::AddressOutOfRange));
    // Fx55 storing V0..=V3 from 0xFFD.
    let mut chp8 = machine_with(&[0xF3, 0x55]);
    chp8.index = 0xFFD;
    assert_eq!(chp8.step(0), Err(Chip8Error::AddressOutOfRange));
    chp8.index = 0xFFC;
    assert_eq!(chp8.step(0), Ok(()));
    // Fx65 loading V0..=V1 from 0xFFF.
    let mut chp8 = machine_with(&[0xF1, 0x65]);
    chp8.index = 0xFFF;
    assert_eq!(chp8.step(0), Err(Chip8Error::AddressOutOfRange));
    // Dxyn reading three sprite rows from 0xFFE.
    let mut chp8 = machine_with(&[0xD0, 0x03]);
    chp8.index = 0xFFE;
    assert_eq!(chp8.step(0), Err(Chip8Error::AddressOutOfRange));
    assert!(chp8.video.iter().all(|p| *p == 0));
}

#[test]
fn key_test_on_register_past_the_pad_is_rejected() {
    let mut chp8 = machine_with(&[0xE2, 0x9E]);
    chp8.registers[2] = 16;
    assert_eq!(chp8.step(0), Err(Chip8Error::KeyOutOfRange));
    chp8.registers[2] = 15;
    chp8.keypad[15] = 1;
    assert_eq!(chp8.step(0), Ok(()));
    assert_eq!(chp8.pc, 0x204);
}

#[test]
fn host_keys_map_onto_the_pad() {
    assert_eq!(key_for_code('x' as i32), Some(0x0));
    assert_eq!(key_for_code('1' as i32), Some(0x1));
    assert_eq!(key_for_code('4' as i32), Some(0xC));
    assert_eq!(key_for_code('r' as i32), Some(0xD));
    assert_eq!(key_for_code('z' as i32), Some(0xA));
    assert_eq!(key_for_code('v' as i32), Some(0xF));
    assert_eq!(key_for_code('p' as i32), None);
    assert_eq!(key_for_code(-1), None);
}

#[test]
fn frame_text_shows_lit_cells() {
    let mut chp8 = Chip8::new();
    chp8.video[0] = 0xFFFF_FFFF;
    chp8.video[VIDEO_WIDTH + 2] = 0xFFFF_FFFF;
    let text = chp8.frame_chars();
    assert_eq!(text.len(), VIDEO_HEIGHT * (VIDEO_WIDTH + 1));
    assert_eq!(text[0], '\u{25A0}');
    assert_eq!(text[1], ' ');
    assert_eq!(text[VIDEO_WIDTH], '\n');
    assert_eq!(text[VIDEO_WIDTH + 1 + 2], '\u{25A0}');
    assert_eq!(text.iter().filter(|c| **c == '\u{25A0}').count(), 2);
}

#[test]
fn random_bytes_vary() {
    let mut chp8 = Chip8::new();
    let first = chp8.rand_byte();
    let draws: Vec<u8> = (0..64).map(|_| chp8.rand_byte()).collect();
    assert!(draws.iter().any(|b| *b != first));
}
