//! The display compositor: XOR drawing, wraparound and the collision flag.

use chip8_core::Emu;
use chip8_core::EmuError;
use chip8_core::SCREEN_WIDTH;

fn pixel(emu: &Emu, x: usize, y: usize) -> bool {
    emu.get_display()[x + SCREEN_WIDTH * y]
}

#[test]
fn draw_places_a_row_of_pixels() {
    // Glyph 0 sits at memory 0; its first row is 0xF0.
    let mut emu = Emu::new();
    emu.load(&[0xA0, 0x00, 0xD0, 0x11]).unwrap();
    assert_eq!(emu.tick(), Ok(()));
    assert_eq!(emu.tick(), Ok(()));
    for x in 0..4 {
        assert!(pixel(&emu, x, 0));
    }
    for x in 4..16 {
        assert!(!pixel(&emu, x, 0));
    }
    assert_eq!(emu.v_reg[0xF], 0);
}

#[test]
fn double_draw_clears_all_touched_pixels_and_flags_collision() {
    // Draw the five-row glyph 0 twice at the same spot.
    let mut emu = Emu::new();
    emu.load(&[0xA0, 0x00, 0xD0, 0x15, 0xD0, 0x15]).unwrap();
    assert_eq!(emu.tick(), Ok(()));
    assert_eq!(emu.tick(), Ok(()));
    assert_eq!(emu.v_reg[0xF], 0);
    assert!(emu.get_display().iter().any(|p| *p));
    assert_eq!(emu.tick(), Ok(()));
    assert_eq!(emu.v_reg[0xF], 1);
    assert!(emu.get_display().iter().all(|p| !*p));
}

#[test]
fn horizontal_wraparound_moves_overflow_columns_to_the_left_edge() {
    // An 0xFF row drawn at x = 63 wraps columns 1..=7 to x = 0..=6.
    let mut emu = Emu::new();
    emu.mem[0x400] = 0xFF;
    emu.load(&[0xA4, 0x00, 0x60, 0x3F, 0xD0, 0x11]).unwrap();
    for _ in 0..3 {
        assert_eq!(emu.tick(), Ok(()));
    }
    assert!(pixel(&emu, 63, 0));
    for x in 0..7 {
        assert!(pixel(&emu, x, 0));
    }
    assert!(!pixel(&emu, 7, 0));
    assert!(!pixel(&emu, 62, 0));
}

#[test]
fn vertical_wraparound_moves_overflow_rows_to_the_top() {
    let mut emu = Emu::new();
    emu.mem[0x400] = 0x80;
    emu.mem[0x401] = 0x80;
    emu.load(&[0xA4, 0x00, 0x61, 0x1F, 0xD0, 0x12]).unwrap();
    for _ in 0..3 {
        assert_eq!(emu.tick(), Ok(()));
    }
    assert!(pixel(&emu, 0, 31));
    assert!(pixel(&emu, 0, 0));
    assert!(!pixel(&emu, 0, 1));
}

#[test]
fn collision_is_judged_across_the_whole_sprite() {
    // First draw one pixel at (0, 1); then an overlapping two-row sprite:
    // its first row is clear there, only the second row collides.
    let mut emu = Emu::new();
    emu.mem[0x400] = 0x80;
    emu.mem[0x500] = 0x00;
    emu.mem[0x501] = 0x80;
    emu.load(&[
        0xA4, 0x00, 0x61, 0x01, 0xD0, 0x11, // one pixel at (0, 1)
        0xA5, 0x00, 0xD0, 0x02, // rows 0 and 1 from (0, 0)
    ])
    .unwrap();
    for _ in 0..5 {
        assert_eq!(emu.tick(), Ok(()));
    }
    assert_eq!(emu.v_reg[0xF], 1);
    assert!(!pixel(&emu, 0, 1));
}

#[test]
fn zero_row_draw_touches_nothing_and_clears_the_flag() {
    let mut emu = Emu::new();
    emu.v_reg[0xF] = 1;
    emu.load(&[0xD0, 0x10]).unwrap();
    assert_eq!(emu.tick(), Ok(()));
    assert_eq!(emu.v_reg[0xF], 0);
    assert!(emu.get_display().iter().all(|p| !*p));
}

#[test]
fn draw_past_end_of_memory_reports_range_error() {
    let mut emu = Emu::new();
    emu.load(&[0xAF, 0xFF, 0xD0, 0x12]).unwrap();
    assert_eq!(emu.tick(), Ok(()));
    assert_eq!(emu.tick(), Err(EmuError::OutOfRangeAddress(0xFFF)));
    assert_eq!(emu.pc, 0x202);
}

#[test]
fn clear_screen_blanks_the_framebuffer() {
    let mut emu = Emu::new();
    emu.load(&[0xA0, 0x00, 0xD0, 0x15, 0x00, 0xE0]).unwrap();
    for _ in 0..3 {
        assert_eq!(emu.tick(), Ok(()));
    }
    assert!(emu.get_display().iter().all(|p| !*p));
}
