use chip8::Chip8Error;
use chip8::PROGRAM_START;
use chip8::display::DisplayBuffer;
use chip8::machine::Internals;

/// A machine with `code` loaded at the program start.
fn boot(code: &[u8]) -> Internals {
    let mut m = Internals::new();
    m.ram.bulk_write(PROGRAM_START, &code.to_vec()).unwrap();
    m
}

fn step(m: &mut Internals, d: &mut DisplayBuffer) -> Result<(), Chip8Error> {
    m.run_next(d, None)
}

#[test]
fn add_imm_wraps_without_flag() {
    // 7301: V3 += 0x01 with V3 = 0xFF wraps to 0x00 and sets no flag.
    let mut m = boot(&[0x73, 0x01]);
    let mut d = DisplayBuffer::new();
    m.v[3] = 0xFF;
    m.v[15] = 0x5A;
    step(&mut m, &mut d).unwrap();
    assert_eq!(m.v[3], 0x00);
    assert_eq!(m.v[15], 0x5A);
    assert_eq!(m.pc, PROGRAM_START + 2);
}

#[test]
fn add_reg_sets_carry_on_overflow() {
    // 8124: V1 += V2.
    let mut m = boot(&[0x81, 0x24]);
    let mut d = DisplayBuffer::new();
    m.v[1] = 0xFF;
    m.v[2] = 0x01;
    step(&mut m, &mut d).unwrap();
    assert_eq!(m.v[1], 0x00);
    assert_eq!(m.v[15], 1);
}

#[test]
fn add_reg_clears_carry_without_overflow() {
    let mut m = boot(&[0x81, 0x24]);
    let mut d = DisplayBuffer::new();
    m.v[1] = 0x01;
    m.v[2] = 0x01;
    m.v[15] = 1;
    step(&mut m, &mut d).unwrap();
    assert_eq!(m.v[1], 0x02);
    assert_eq!(m.v[15], 0);
}

#[test]
fn sub_reg_flag_polarity() {
    // 8125: V1 -= V2; VF = 1 iff no borrow.
    let mut m = boot(&[0x81, 0x25]);
    let mut d = DisplayBuffer::new();
    m.v[1] = 0x01;
    m.v[2] = 0x02;
    step(&mut m, &mut d).unwrap();
    assert_eq!(m.v[15], 0);
    assert_eq!(m.v[1], 0xFF);

    let mut m2 = boot(&[0x81, 0x25]);
    m2.v[1] = 0x02;
    m2.v[2] = 0x01;
    step(&mut m2, &mut d).unwrap();
    assert_eq!(m2.v[15], 1);
    assert_eq!(m2.v[1], 0x01);
}

#[test]
fn sub_from_reg_flag_polarity() {
    // 8127: V1 = V2 - V1; VF = 1 iff no borrow.
    let mut m = boot(&[0x81, 0x27]);
    let mut d = DisplayBuffer::new();
    m.v[1] = 0x01;
    m.v[2] = 0x05;
    step(&mut m, &mut d).unwrap();
    assert_eq!(m.v[1], 0x04);
    assert_eq!(m.v[15], 1);
}

#[test]
fn shift_right_moves_low_bit_to_flag() {
    // 8106: V1 >>= 1.
    let mut m = boot(&[0x81, 0x06]);
    let mut d = DisplayBuffer::new();
    m.v[1] = 0b0000_0011;
    step(&mut m, &mut d).unwrap();
    assert_eq!(m.v[1], 0b0000_0001);
    assert_eq!(m.v[15], 1);
}

#[test]
fn shift_left_moves_high_bit_to_flag() {
    // 810E: V1 <<= 1.
    let mut m = boot(&[0x81, 0x0E]);
    let mut d = DisplayBuffer::new();
    m.v[1] = 0b1100_0000;
    step(&mut m, &mut d).unwrap();
    assert_eq!(m.v[1], 0b1000_0000);
    assert_eq!(m.v[15], 1);
}

#[test]
fn bitwise_ops_and_assign() {
    // 8120: V1 = V2.
    let mut m = boot(&[0x81, 0x20, 0x81, 0x31, 0x81, 0x42, 0x81, 0x53]);
    let mut d = DisplayBuffer::new();
    m.v[2] = 0b1010_0000;
    m.v[3] = 0b0000_0101;
    m.v[4] = 0b1111_0000;
    m.v[5] = 0b1010_1010;
    step(&mut m, &mut d).unwrap();
    assert_eq!(m.v[1], 0b1010_0000);
    step(&mut m, &mut d).unwrap();
    assert_eq!(m.v[1], 0b1010_0101);
    step(&mut m, &mut d).unwrap();
    assert_eq!(m.v[1], 0b1010_0000);
    step(&mut m, &mut d).unwrap();
    assert_eq!(m.v[1], 0b0000_1010);
}

#[test]
fn set_imm_and_skips() {
    // 6407: V4 = 7; 3407: skip (taken); unreachable word; 3408: not taken.
    let mut m = boot(&[0x64, 0x07, 0x34, 0x07, 0xFF, 0xFF, 0x34, 0x08]);
    let mut d = DisplayBuffer::new();
    step(&mut m, &mut d).unwrap();
    assert_eq!(m.v[4], 7);
    step(&mut m, &mut d).unwrap();
    assert_eq!(m.pc, PROGRAM_START + 6);
    step(&mut m, &mut d).unwrap();
    assert_eq!(m.pc, PROGRAM_START + 8);
}

#[test]
fn skip_ne_imm_and_register_compares() {
    // 4500: not taken when V5 == 0; then 9560 taken when V5 != V6 after 6501.
    let mut m = boot(&[0x45, 0x00, 0x65, 0x01, 0x55, 0x60, 0x00, 0x00, 0x95, 0x60]);
    let mut d = DisplayBuffer::new();
    step(&mut m, &mut d).unwrap();
    assert_eq!(m.pc, PROGRAM_START + 2);
    step(&mut m, &mut d).unwrap();
    assert_eq!(m.v[5], 1);
    // 5560: V5 != V6, not taken.
    step(&mut m, &mut d).unwrap();
    assert_eq!(m.pc, PROGRAM_START + 6);
    // Illegal word at +6 would fault; jump over it by loading pc directly.
    m.pc = PROGRAM_START + 8;
    step(&mut m, &mut d).unwrap();
    assert_eq!(m.pc, PROGRAM_START + 12);
}

#[test]
fn jump_and_jump_v0() {
    let mut m = boot(&[0x1A, 0xBC]);
    let mut d = DisplayBuffer::new();
    step(&mut m, &mut d).unwrap();
    assert_eq!(m.pc, 0xABC);

    let mut m2 = boot(&[0xB3, 0x00]);
    m2.v[0] = 4;
    step(&mut m2, &mut d).unwrap();
    assert_eq!(m2.pc, 0x304);
}

#[test]
fn call_then_return_round_trip() {
    // 2330 at the call site; 00EE at 0x330.
    let mut m = boot(&[0x23, 0x30]);
    let mut d = DisplayBuffer::new();
    m.ram.write(0x330, 0x00).unwrap();
    m.ram.write(0x331, 0xEE).unwrap();
    step(&mut m, &mut d).unwrap();
    assert_eq!(m.pc, 0x330);
    assert_eq!(m.stack, vec![PROGRAM_START + 2]);
    step(&mut m, &mut d).unwrap();
    assert_eq!(m.pc, PROGRAM_START + 2);
    assert!(m.stack.is_empty());
}

#[test]
fn return_on_empty_stack_fails_and_keeps_pc() {
    let mut m = boot(&[0x00, 0xEE]);
    let mut d = DisplayBuffer::new();
    let r = step(&mut m, &mut d);
    assert_eq!(r, Err(Chip8Error::MissingReturnAddress));
    assert_eq!(m.pc, PROGRAM_START);
    assert!(m.stack.is_empty());
}

#[test]
fn illegal_instruction_reports_pc_and_mutates_nothing() {
    let mut m = boot(&[0xFF, 0xFF]);
    let mut d = DisplayBuffer::new();
    m.v[7] = 9;
    let r = step(&mut m, &mut d);
    assert_eq!(r, Err(Chip8Error::IllegalInstruction(PROGRAM_START)));
    assert_eq!(m.pc, PROGRAM_START);
    assert_eq!(m.v[7], 9);
    assert_eq!(m.i, 0);
}

#[test]
fn illegal_alu_selector_faults() {
    let mut m = boot(&[0x81, 0x28]);
    let mut d = DisplayBuffer::new();
    assert_eq!(step(&mut m, &mut d), Err(Chip8Error::IllegalInstruction(PROGRAM_START)));
}

#[test]
fn illegal_system_word_faults() {
    let mut m = boot(&[0x00, 0x00]);
    let mut d = DisplayBuffer::new();
    assert_eq!(step(&mut m, &mut d), Err(Chip8Error::IllegalInstruction(PROGRAM_START)));
}

#[test]
fn set_index_add_index_and_font_address() {
    // A123: I = 0x123; F11E: I += V1; F229: I = V2 * 5.
    let mut m = boot(&[0xA1, 0x23, 0xF1, 0x1E, 0xF2, 0x29]);
    let mut d = DisplayBuffer::new();
    m.v[1] = 0x10;
    m.v[2] = 7;
    step(&mut m, &mut d).unwrap();
    assert_eq!(m.i, 0x123);
    step(&mut m, &mut d).unwrap();
    assert_eq!(m.i, 0x133);
    step(&mut m, &mut d).unwrap();
    assert_eq!(m.i, 35);
}

#[test]
fn bcd_store_decomposes_decimal_digits() {
    // F133: digits of V1 at I, I+1, I+2.
    let mut m = boot(&[0xF1, 0x33]);
    let mut d = DisplayBuffer::new();
    m.v[1] = 123;
    m.i = 0x300;
    step(&mut m, &mut d).unwrap();
    assert_eq!(m.ram.read(0x300).unwrap(), 1);
    assert_eq!(m.ram.read(0x301).unwrap(), 2);
    assert_eq!(m.ram.read(0x302).unwrap(), 3);
    assert_eq!(m.i, 0x300);
}

#[test]
fn bcd_store_small_value() {
    let mut m = boot(&[0xF1, 0x33]);
    let mut d = DisplayBuffer::new();
    m.v[1] = 7;
    m.i = 0x300;
    step(&mut m, &mut d).unwrap();
    assert_eq!(m.ram.read(0x300).unwrap(), 0);
    assert_eq!(m.ram.read(0x301).unwrap(), 0);
    assert_eq!(m.ram.read(0x302).unwrap(), 7);
}

#[test]
fn store_and_load_registers_advance_index() {
    // F255: store V0..=V2; F265: load them back.
    let mut m = boot(&[0xF2, 0x55, 0xF2, 0x65]);
    let mut d = DisplayBuffer::new();
    m.v[0] = 0xAA;
    m.v[1] = 0xBB;
    m.v[2] = 0xCC;
    m.v[3] = 0xDD;
    m.i = 0x400;
    step(&mut m, &mut d).unwrap();
    assert_eq!(m.ram.read(0x400).unwrap(), 0xAA);
    assert_eq!(m.ram.read(0x401).unwrap(), 0xBB);
    assert_eq!(m.ram.read(0x402).unwrap(), 0xCC);
    assert_eq!(m.ram.read(0x403).unwrap(), 0);
    assert_eq!(m.i, 0x403);
    m.v[0] = 0;
    m.v[1] = 0;
    m.v[2] = 0;
    m.i = 0x400;
    step(&mut m, &mut d).unwrap();
    assert_eq!(m.v[0], 0xAA);
    assert_eq!(m.v[1], 0xBB);
    assert_eq!(m.v[2], 0xCC);
    assert_eq!(m.v[3], 0xDD);
    assert_eq!(m.i, 0x403);
}

#[test]
fn store_registers_out_of_bounds_fails() {
    let mut m = boot(&[0xF2, 0x55]);
    let mut d = DisplayBuffer::new();
    m.i = 4094;
    let r = step(&mut m, &mut d);
    assert_eq!(r, Err(Chip8Error::OutOfBounds));
    assert_eq!(m.i, 4094);
    assert_eq!(m.pc, PROGRAM_START);
}

#[test]
fn masked_random_respects_mask() {
    let mut m = boot(&[0xC1, 0x0F, 0xC2, 0x00]);
    let mut d = DisplayBuffer::new();
    m.v[1] = 0xFF;
    step(&mut m, &mut d).unwrap();
    assert_eq!(m.v[1] & 0xF0, 0);
    step(&mut m, &mut d).unwrap();
    assert_eq!(m.v[2], 0);
    assert_eq!(m.pc, PROGRAM_START + 4);
}

#[test]
fn draw_sets_pixels_and_collision_flag() {
    // D015: draw the 5-row sprite at (V0, V1).
    let mut m = boot(&[0xD0, 0x11, 0xD0, 0x11]);
    let mut d = DisplayBuffer::new();
    m.i = 0x500;
    m.ram.write(0x500, 0xF0).unwrap();
    m.v[0] = 4;
    m.v[1] = 2;
    step(&mut m, &mut d).unwrap();
    assert_eq!(m.v[15], 0);
    assert!(d.pixel(4, 2));
    assert!(d.pixel(5, 2));
    assert!(d.pixel(6, 2));
    assert!(d.pixel(7, 2));
    assert!(!d.pixel(8, 2));
    // Drawing the same sprite again erases it and reports the collision.
    step(&mut m, &mut d).unwrap();
    assert_eq!(m.v[15], 1);
    assert!(!d.pixel(4, 2));
}

#[test]
fn draw_out_of_bounds_sprite_fails() {
    let mut m = boot(&[0xD0, 0x15]);
    let mut d = DisplayBuffer::new();
    m.i = 4093;
    assert_eq!(step(&mut m, &mut d), Err(Chip8Error::OutOfBounds));
    assert_eq!(m.pc, PROGRAM_START);
}

#[test]
fn clear_screen_instruction_clears() {
    let mut m = boot(&[0xD0, 0x11, 0x00, 0xE0]);
    let mut d = DisplayBuffer::new();
    m.i = 0x500;
    m.ram.write(0x500, 0xFF).unwrap();
    step(&mut m, &mut d).unwrap();
    assert!(d.pixel(0, 0));
    step(&mut m, &mut d).unwrap();
    assert!(!d.pixel(0, 0));
    assert_eq!(m.pc, PROGRAM_START + 4);
}

#[test]
fn key_skips_follow_the_held_key() {
    // E19E skips when key V1 is held; E1A1 skips when it is not.
    let mut m = boot(&[0xE1, 0x9E]);
    let mut d = DisplayBuffer::new();
    m.v[1] = 5;
    m.run_next(&mut d, Some(5)).unwrap();
    assert_eq!(m.pc, PROGRAM_START + 4);

    let mut m2 = boot(&[0xE1, 0x9E]);
    m2.v[1] = 5;
    m2.run_next(&mut d, Some(6)).unwrap();
    assert_eq!(m2.pc, PROGRAM_START + 2);

    let mut m3 = boot(&[0xE1, 0xA1]);
    m3.v[1] = 5;
    m3.run_next(&mut d, None).unwrap();
    assert_eq!(m3.pc, PROGRAM_START + 4);

    let mut m4 = boot(&[0xE1, 0xA1]);
    m4.v[1] = 5;
    m4.run_next(&mut d, Some(5)).unwrap();
    assert_eq!(m4.pc, PROGRAM_START + 2);
}

#[test]
fn timer_hooks_are_noops_that_advance_pc() {
    let mut m = boot(&[0xF1, 0x07, 0xF1, 0x0A, 0xF1, 0x15, 0xF1, 0x18]);
    let mut d = DisplayBuffer::new();
    m.v[1] = 0x42;
    for k in 1..=4 {
        step(&mut m, &mut d).unwrap();
        assert_eq!(m.pc, PROGRAM_START + 2 * k);
    }
    assert_eq!(m.v[1], 0x42);
    assert_eq!(m.i, 0);
}

#[test]
fn fetch_past_capacity_fails() {
    let mut m = Internals::new();
    let mut d = DisplayBuffer::new();
    m.pc = 4095;
    assert_eq!(step(&mut m, &mut d), Err(Chip8Error::OutOfBounds));
    assert_eq!(m.pc, 4095);
}

#[test]
fn fresh_machine_state() {
    let m = Internals::new();
    assert_eq!(m.pc, PROGRAM_START);
    assert_eq!(m.i, 0);
    assert!(m.stack.is_empty());
    assert_eq!(m.v, vec![0u8; 16]);
}
