//! Opcode semantics: arithmetic, flow control, shifts, the register-block
//! transfers and the error conditions of the decode/execute engine.

use chip8_core::Emu;
use chip8_core::EmuError;

fn boot(program: &[u8]) -> Emu {
    let mut emu = Emu::new();
    emu.load(program).unwrap();
    emu
}

fn run(emu: &mut Emu, ticks: usize) {
    for _ in 0..ticks {
        assert_eq!(emu.tick(), Ok(()));
    }
}

#[test]
fn wrapping_add_immediate_has_no_flag_effect() {
    // VF = 5; V1 = 0xFF; V1 += 0x01.
    let mut emu = boot(&[0x6F, 0x05, 0x61, 0xFF, 0x71, 0x01]);
    run(&mut emu, 3);
    assert_eq!(emu.v_reg[1], 0x00);
    assert_eq!(emu.v_reg[0xF], 0x05);
}

#[test]
fn load_immediate_and_register_copy() {
    let mut emu = boot(&[0x61, 0x2A, 0x82, 0x10]);
    run(&mut emu, 2);
    assert_eq!(emu.v_reg[1], 0x2A);
    assert_eq!(emu.v_reg[2], 0x2A);
}

#[test]
fn bitwise_or_and_xor() {
    let mut emu = boot(&[
        0x61, 0b1100, 0x62, 0b1010, 0x81, 0x21, // V1 |= V2
        0x63, 0b1100, 0x83, 0x22, // V3 &= V2
        0x64, 0b1100, 0x84, 0x23, // V4 ^= V2
    ]);
    run(&mut emu, 7);
    assert_eq!(emu.v_reg[1], 0b1110);
    assert_eq!(emu.v_reg[3], 0b1000);
    assert_eq!(emu.v_reg[4], 0b0110);
}

#[test]
fn add_registers_sets_carry_flag() {
    let mut emu = boot(&[0x61, 200, 0x62, 100, 0x81, 0x24]);
    run(&mut emu, 3);
    assert_eq!(emu.v_reg[1], 44);
    assert_eq!(emu.v_reg[0xF], 1);

    let mut emu2 = boot(&[0x61, 20, 0x62, 30, 0x81, 0x24]);
    run(&mut emu2, 3);
    assert_eq!(emu2.v_reg[1], 50);
    assert_eq!(emu2.v_reg[0xF], 0);
}

#[test]
fn subtract_sets_no_borrow_flag() {
    // V1 - V2 with V1 >= V2.
    let mut emu = boot(&[0x61, 30, 0x62, 10, 0x81, 0x25]);
    run(&mut emu, 3);
    assert_eq!(emu.v_reg[1], 20);
    assert_eq!(emu.v_reg[0xF], 1);
    // V1 - V2 with borrow.
    let mut emu2 = boot(&[0x61, 10, 0x62, 30, 0x81, 0x25]);
    run(&mut emu2, 3);
    assert_eq!(emu2.v_reg[1], 236);
    assert_eq!(emu2.v_reg[0xF], 0);
}

#[test]
fn subtract_reversed_sets_no_borrow_flag() {
    // V1 = V2 - V1.
    let mut emu = boot(&[0x61, 10, 0x62, 30, 0x81, 0x27]);
    run(&mut emu, 3);
    assert_eq!(emu.v_reg[1], 20);
    assert_eq!(emu.v_reg[0xF], 1);
    let mut emu2 = boot(&[0x61, 30, 0x62, 10, 0x81, 0x27]);
    run(&mut emu2, 3);
    assert_eq!(emu2.v_reg[1], 236);
    assert_eq!(emu2.v_reg[0xF], 0);
}

#[test]
fn shift_right_modern_ignores_vy() {
    let mut emu = boot(&[0x61, 0x0B, 0x62, 0xFF, 0x81, 0x26]);
    run(&mut emu, 3);
    assert_eq!(emu.v_reg[1], 0x05);
    assert_eq!(emu.v_reg[0xF], 1);
}

#[test]
fn shift_right_legacy_takes_vy() {
    let mut emu = Emu::new();
    emu.set_cosmac();
    emu.load(&[0x61, 0xAA, 0x62, 0x05, 0x81, 0x26]).unwrap();
    run(&mut emu, 3);
    // V1 = V2 >> 1, VF = V2 & 1, whatever V1 held before.
    assert_eq!(emu.v_reg[1], 0x02);
    assert_eq!(emu.v_reg[0xF], 1);
}

#[test]
fn shift_left_modern_and_legacy() {
    let mut emu = boot(&[0x61, 0x81, 0x62, 0xFF, 0x81, 0x2E]);
    run(&mut emu, 3);
    assert_eq!(emu.v_reg[1], 0x02);
    assert_eq!(emu.v_reg[0xF], 1);

    let mut legacy = Emu::new();
    legacy.set_cosmac();
    legacy.load(&[0x61, 0xAA, 0x62, 0x41, 0x81, 0x2E]).unwrap();
    run(&mut legacy, 3);
    assert_eq!(legacy.v_reg[1], 0x82);
    assert_eq!(legacy.v_reg[0xF], 0);
}

#[test]
fn skip_families_advance_conditionally() {
    // V1 = 5; skip-if-equal taken: lands past the embedded word.
    let mut emu = boot(&[0x61, 0x05, 0x31, 0x05]);
    run(&mut emu, 2);
    assert_eq!(emu.pc, 0x206);
    // Not taken.
    let mut emu2 = boot(&[0x61, 0x05, 0x31, 0x06]);
    run(&mut emu2, 2);
    assert_eq!(emu2.pc, 0x204);
    // Skip-if-not-equal register form.
    let mut emu3 = boot(&[0x61, 0x05, 0x62, 0x06, 0x91, 0x20]);
    run(&mut emu3, 3);
    assert_eq!(emu3.pc, 0x208);
    // Skip-if-equal register form, not taken.
    let mut emu4 = boot(&[0x61, 0x05, 0x62, 0x06, 0x51, 0x20]);
    run(&mut emu4, 3);
    assert_eq!(emu4.pc, 0x206);
}

#[test]
fn jump_sets_the_program_counter() {
    let mut emu = boot(&[0x1A, 0xBC]);
    run(&mut emu, 1);
    assert_eq!(emu.pc, 0xABC);
}

#[test]
fn jump_with_offset_picks_register_by_mode() {
    // Modern: offset comes from V2, the high nibble of NNN.
    let mut emu = boot(&[0x62, 0x10, 0xB2, 0x34]);
    run(&mut emu, 2);
    assert_eq!(emu.pc, 0x244);
    // Legacy: offset comes from V0.
    let mut legacy = Emu::new();
    legacy.set_cosmac();
    legacy.load(&[0x60, 0x08, 0x62, 0x10, 0xB2, 0x34]).unwrap();
    run(&mut legacy, 3);
    assert_eq!(legacy.pc, 0x23C);
}

#[test]
fn call_pushes_the_return_address_and_return_pops_it() {
    let mut program = vec![0u8; 0x102];
    program[0] = 0x23; // CALL 0x300
    program[1] = 0x00;
    program[0x100] = 0x00; // RET at 0x300
    program[0x101] = 0xEE;
    let mut emu = boot(&program);
    run(&mut emu, 1);
    assert_eq!(emu.pc, 0x300);
    assert_eq!(emu.stack, vec![0x202]);
    run(&mut emu, 1);
    assert_eq!(emu.pc, 0x202);
    assert!(emu.stack.is_empty());
}

#[test]
fn return_with_empty_stack_reports_underflow() {
    let mut emu = boot(&[0x00, 0xEE]);
    assert_eq!(emu.tick(), Err(EmuError::StackUnderflow));
    assert_eq!(emu.pc, 0x200);
    assert!(emu.stack.is_empty());
}

#[test]
fn call_beyond_capacity_reports_overflow() {
    // CALL 0x200 loops onto itself, pushing each time.
    let mut emu = boot(&[0x22, 0x00]);
    for _ in 0..16 {
        assert_eq!(emu.tick(), Ok(()));
    }
    assert_eq!(emu.stack.len(), 16);
    assert_eq!(emu.tick(), Err(EmuError::StackOverflow));
    assert_eq!(emu.stack.len(), 16);
    assert_eq!(emu.pc, 0x200);
}

#[test]
fn unmatched_pattern_reports_the_word_and_address() {
    let mut emu = boot(&[0x50, 0x11]);
    assert_eq!(emu.tick(), Err(EmuError::UnimplementedOpcode(0x5011, 0x200)));
    assert_eq!(emu.pc, 0x200);
}

#[test]
fn program_counter_outside_memory_reports_range_error() {
    let mut emu = Emu::new();
    emu.pc = 0xFFF;
    assert_eq!(emu.tick(), Err(EmuError::OutOfRangeAddress(0xFFF)));
    assert_eq!(emu.pc, 0xFFF);
}

#[test]
fn random_masked_by_zero_is_zero() {
    let mut emu = boot(&[0x61, 0xFF, 0xC1, 0x00]);
    run(&mut emu, 2);
    assert_eq!(emu.v_reg[1], 0);
}

#[test]
fn index_register_loads_and_adds() {
    let mut emu = boot(&[0xA1, 0x23, 0x61, 0x02, 0xF1, 0x1E]);
    run(&mut emu, 3);
    assert_eq!(emu.i_reg, 0x125);
}

#[test]
fn add_to_index_wraps_modulo_16_bits() {
    let mut emu = boot(&[0x61, 0x02, 0xF1, 0x1E]);
    emu.i_reg = 0xFFFF;
    run(&mut emu, 2);
    assert_eq!(emu.i_reg, 0x0001);
}

#[test]
fn font_address_points_at_the_glyph() {
    let mut emu = boot(&[0x61, 0x0A, 0xF1, 0x29]);
    run(&mut emu, 2);
    assert_eq!(emu.i_reg, 50);
    assert_eq!(&emu.mem[50..55], &[0xF0, 0x90, 0xF0, 0x90, 0x90]);
}

#[test]
fn font_address_masks_the_register_to_a_digit() {
    let mut emu = boot(&[0x61, 0x1A, 0xF1, 0x29]);
    run(&mut emu, 2);
    assert_eq!(emu.i_reg, 50);
}

#[test]
fn bcd_stores_three_digits() {
    let mut emu = boot(&[0x61, 234, 0xA3, 0x00, 0xF1, 0x33]);
    run(&mut emu, 3);
    assert_eq!(&emu.mem[0x300..0x303], &[2, 3, 4]);
}

#[test]
fn bcd_near_end_of_memory_reports_range_error() {
    let mut emu = boot(&[0xAF, 0xFE, 0xF1, 0x33]);
    run(&mut emu, 1);
    assert_eq!(emu.tick(), Err(EmuError::OutOfRangeAddress(0xFFE)));
}

#[test]
fn store_then_load_round_trips_in_modern_mode() {
    let mut emu = boot(&[
        0x60, 0x11, 0x61, 0x22, 0x62, 0x33, 0xA4, 0x00, // I = 0x400
        0xF2, 0x55, // store V0..=V2
        0x60, 0x00, 0x61, 0x00, 0x62, 0x00, // clobber
        0xF2, 0x65, // load V0..=V2
    ]);
    run(&mut emu, 9);
    assert_eq!(&emu.mem[0x400..0x403], &[0x11, 0x22, 0x33]);
    assert_eq!(emu.v_reg[0], 0x11);
    assert_eq!(emu.v_reg[1], 0x22);
    assert_eq!(emu.v_reg[2], 0x33);
    assert_eq!(emu.i_reg, 0x400);
}

#[test]
fn store_then_load_round_trips_in_legacy_mode_with_index_reset() {
    let mut emu = Emu::new();
    emu.set_cosmac();
    emu.load(&[
        0x60, 0x11, 0x61, 0x22, 0xA4, 0x00, // I = 0x400
        0xF1, 0x55, // store V0..=V1; I advances to 0x402
        0x60, 0x00, 0x61, 0x00, // clobber
        0xA4, 0x00, // reset I
        0xF1, 0x65, // load V0..=V1
    ])
    .unwrap();
    run(&mut emu, 5);
    assert_eq!(emu.i_reg, 0x402);
    run(&mut emu, 3);
    assert_eq!(emu.v_reg[0], 0x11);
    assert_eq!(emu.v_reg[1], 0x22);
    assert_eq!(emu.i_reg, 0x402);
}

#[test]
fn block_transfer_beyond_memory_reports_range_error() {
    let mut emu = boot(&[0xAF, 0xFE, 0xF2, 0x55]);
    run(&mut emu, 1);
    assert_eq!(emu.tick(), Err(EmuError::OutOfRangeAddress(0xFFE)));
}

#[test]
fn skip_if_key_pressed_and_not_pressed() {
    let mut emu = boot(&[0x61, 0x07, 0xE1, 0x9E]);
    emu.keypress(7, true);
    run(&mut emu, 2);
    assert_eq!(emu.pc, 0x206);

    let mut emu2 = boot(&[0x61, 0x07, 0xE1, 0xA1]);
    run(&mut emu2, 2);
    assert_eq!(emu2.pc, 0x206);

    let mut emu3 = boot(&[0x61, 0x07, 0xE1, 0x9E]);
    run(&mut emu3, 2);
    assert_eq!(emu3.pc, 0x204);
}

#[test]
fn skip_if_not_pressed_stays_when_key_is_held() {
    let mut emu = boot(&[0x61, 0x07, 0xE1, 0xA1]);
    emu.keypress(7, true);
    run(&mut emu, 2);
    assert_eq!(emu.pc, 0x204);
}

#[test]
fn key_skip_reads_only_the_low_nibble_of_vx() {
    let mut emu = boot(&[0x61, 0x17, 0xE1, 0x9E]);
    emu.keypress(7, true);
    run(&mut emu, 2);
    assert_eq!(emu.pc, 0x206);
}

#[test]
fn add_to_index_behaves_alike_in_legacy_mode() {
    let mut emu = Emu::new();
    emu.set_cosmac();
    emu.load(&[0x61, 0x02, 0xF1, 0x1E]).unwrap();
    emu.i_reg = 0x123;
    run(&mut emu, 2);
    assert_eq!(emu.i_reg, 0x125);
}

#[test]
fn skip_if_not_equal_immediate() {
    let mut emu = boot(&[0x61, 0x05, 0x41, 0x06]);
    run(&mut emu, 2);
    assert_eq!(emu.pc, 0x206);
    let mut emu2 = boot(&[0x61, 0x05, 0x41, 0x05]);
    run(&mut emu2, 2);
    assert_eq!(emu2.pc, 0x204);
}

#[test]
fn wait_for_key_holds_until_a_key_is_seen() {
    let mut emu = boot(&[0xF1, 0x0A]);
    // No key pressed: the same instruction is fetched again.
    assert_eq!(emu.tick(), Ok(()));
    assert_eq!(emu.pc, 0x200);
    assert_eq!(emu.tick(), Ok(()));
    assert_eq!(emu.pc, 0x200);
    // A key arrives between ticks.
    emu.keypress(0xB, true);
    assert_eq!(emu.tick(), Ok(()));
    assert_eq!(emu.v_reg[1], 0xB);
    assert_eq!(emu.pc, 0x202);
}

#[test]
fn wait_for_key_reports_the_lowest_pressed_index() {
    let mut emu = boot(&[0xF1, 0x0A]);
    emu.keypress(0xC, true);
    emu.keypress(0x3, true);
    assert_eq!(emu.tick(), Ok(()));
    assert_eq!(emu.v_reg[1], 0x3);
}
