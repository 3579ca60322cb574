//! State lifecycle: construction, reset, loading, keypad and timers.

use chip8_core::Emu;
use chip8_core::EmuError;

const FONT_GLYPH_0: [u8; 5] = [0xF0, 0x90, 0x90, 0x90, 0xF0];
const FONT_GLYPH_A: [u8; 5] = [0xF0, 0x90, 0xF0, 0x90, 0x90];

#[test]
fn new_starts_zeroed_with_font() {
    let emu = Emu::new();
    assert_eq!(emu.pc, 0x200);
    assert_eq!(emu.i_reg, 0);
    assert_eq!(emu.d_timer, 0);
    assert_eq!(emu.s_timer, 0);
    assert!(emu.stack.is_empty());
    assert!(!emu.cosmac);
    assert_eq!(emu.v_reg, vec![0u8; 16]);
    assert_eq!(emu.keys, vec![false; 16]);
    assert_eq!(emu.mem.len(), 4096);
    assert_eq!(&emu.mem[0..5], &FONT_GLYPH_0);
    assert_eq!(&emu.mem[50..55], &FONT_GLYPH_A);
    assert!(emu.mem[80..].iter().all(|b| *b == 0));
    let pixels = emu.get_display();
    assert_eq!(pixels.len(), 64 * 32);
    assert!(pixels.iter().all(|p| !*p));
}

#[test]
fn load_places_bytes_at_start_address() {
    let mut emu = Emu::new();
    let r = emu.load(&[0xAB, 0xCD, 0x12]);
    assert_eq!(r, Ok(()));
    assert_eq!(emu.mem[0x200], 0xAB);
    assert_eq!(emu.mem[0x201], 0xCD);
    assert_eq!(emu.mem[0x202], 0x12);
    assert_eq!(emu.mem[0x203], 0x00);
}

#[test]
fn load_accepts_exactly_full_memory() {
    let mut emu = Emu::new();
    let image = vec![0x77u8; 4096 - 0x200];
    assert_eq!(emu.load(&image), Ok(()));
    assert_eq!(emu.mem[0xFFF], 0x77);
}

#[test]
fn load_rejects_oversized_program() {
    let mut emu = Emu::new();
    let image = vec![0x77u8; 4096 - 0x200 + 1];
    assert_eq!(emu.load(&image), Err(EmuError::OversizedProgram));
    assert_eq!(emu.mem[0x200], 0x00);
}

#[test]
fn reset_restores_the_start_state() {
    let mut emu = Emu::new();
    emu.set_cosmac();
    emu.keypress(4, true);
    emu.load(&[0x61, 0x55]).unwrap();
    assert_eq!(emu.tick(), Ok(()));
    emu.d_timer = 9;
    emu.reset();
    let fresh = Emu::new();
    assert_eq!(emu.pc, fresh.pc);
    assert_eq!(emu.i_reg, fresh.i_reg);
    assert_eq!(emu.mem, fresh.mem);
    assert_eq!(emu.display, fresh.display);
    assert_eq!(emu.stack, fresh.stack);
    assert_eq!(emu.v_reg, fresh.v_reg);
    assert_eq!(emu.keys, fresh.keys);
    assert_eq!(emu.d_timer, 0);
    assert_eq!(emu.s_timer, 0);
    assert!(!emu.cosmac);
}

#[test]
fn keypress_sets_and_clears_levels() {
    let mut emu = Emu::new();
    emu.keypress(0xC, true);
    assert!(emu.keys[0xC]);
    emu.keypress(0xC, false);
    assert!(!emu.keys[0xC]);
}

#[test]
fn timer_tick_decrements_both_counters() {
    let mut emu = Emu::new();
    emu.d_timer = 2;
    emu.s_timer = 1;
    emu.tick_timers();
    assert_eq!(emu.d_timer, 1);
    assert_eq!(emu.s_timer, 0);
}

#[test]
fn timer_floor_holds_at_zero() {
    let mut emu = Emu::new();
    assert_eq!(emu.d_timer, 0);
    assert_eq!(emu.s_timer, 0);
    for _ in 0..5 {
        emu.tick_timers();
    }
    assert_eq!(emu.d_timer, 0);
    assert_eq!(emu.s_timer, 0);
}

#[test]
fn timer_transfer_opcodes_move_values() {
    let mut emu = Emu::new();
    // V1 = 5; DT = V1; V2 = 7; ST = V2; V3 = DT.
    emu.load(&[0x61, 0x05, 0xF1, 0x15, 0x62, 0x07, 0xF2, 0x18, 0xF3, 0x07])
        .unwrap();
    for _ in 0..5 {
        assert_eq!(emu.tick(), Ok(()));
    }
    assert_eq!(emu.d_timer, 5);
    assert_eq!(emu.s_timer, 7);
    assert_eq!(emu.v_reg[3], 5);
}
