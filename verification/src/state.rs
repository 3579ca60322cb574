//! The abstract machine state: sizes, the built-in font, the mathematical
//! view of the whole machine, and its well-formedness condition.

use vstd::prelude::*;

verus! {

/// Width of the monochrome display in pixels.
pub const SCREEN_WIDTH: usize = 64;

/// Height of the monochrome display in pixels.
pub const SCREEN_HEIGHT: usize = 32;

/// Number of addressable bytes of memory.
pub const MEM_SIZE: usize = 4096;

/// Capacity of the call stack.
pub const STACK_SIZE: usize = 16;

/// Number of general-purpose registers.
pub const NUM_V: usize = 16;

/// Number of logical keys on the keypad.
pub const NUM_KEYS: usize = 16;

/// Address at which a loaded program image begins.
pub const START_ADDR: u16 = 0x200;

/// Number of bytes of the built-in font: 16 glyphs of 5 rows each.
pub const FONTSET_SIZE: usize = 80;

/// The built-in font: for each hexadecimal digit 0..=0xF, five bytes whose
/// high nibbles are the pixel rows of the glyph.
pub open spec fn font_data() -> Seq<u8> {
    seq![
        0xF0u8, 0x90, 0x90, 0x90, 0xF0, // 0
        0x20, 0x60, 0x20, 0x20, 0x70, // 1
        0xF0, 0x10, 0xF0, 0x80, 0xF0, // 2
        0xF0, 0x10, 0xF0, 0x10, 0xF0, // 3
        0x90, 0x90, 0xF0, 0x10, 0x10, // 4
        0xF0, 0x80, 0xF0, 0x10, 0xF0, // 5
        0xF0, 0x80, 0xF0, 0x90, 0xF0, // 6
        0xF0, 0x10, 0x20, 0x40, 0x40, // 7
        0xF0, 0x90, 0xF0, 0x90, 0xF0, // 8
        0xF0, 0x90, 0xF0, 0x10, 0xF0, // 9
        0xF0, 0x90, 0xF0, 0x90, 0x90, // A
        0xE0, 0x90, 0xE0, 0x90, 0xE0, // B
        0xF0, 0x80, 0x80, 0x80, 0xF0, // C
        0xE0, 0x90, 0x90, 0x90, 0xE0, // D
        0xF0, 0x80, 0xF0, 0x80, 0xF0, // E
        0xF0, 0x80, 0xF0, 0x80, 0x80, // F
    ]
}

/// The whole machine state as mathematical values. Contracts and the
/// instruction semantics are stated over this view.
#[verifier::ext_equal]
pub ghost struct EmuView {
    /// Flat byte memory, addresses 0x000..=0xFFF.
    pub mem: Seq<u8>,
    /// Pixel states, row-major: index `x + SCREEN_WIDTH * y`.
    pub display: Seq<bool>,
    /// Program counter.
    pub pc: u16,
    /// Index register.
    pub i_reg: u16,
    /// Return addresses of active subroutine calls, most recent last.
    pub stack: Seq<u16>,
    /// Delay timer counter.
    pub d_timer: u8,
    /// Sound timer counter.
    pub s_timer: u8,
    /// General-purpose registers V0..=VF.
    pub v_reg: Seq<u8>,
    /// Level state of the 16 keypad keys.
    pub keys: Seq<bool>,
    /// True selects the legacy reference-interpreter semantics.
    pub cosmac: bool,
}

impl EmuView {
    /// Structural well-formedness: every component has its fixed size and
    /// the stack is within capacity.
    pub open spec fn wf(self) -> bool {
        &&& self.mem.len() == MEM_SIZE
        &&& self.display.len() == SCREEN_WIDTH * SCREEN_HEIGHT
        &&& self.stack.len() <= STACK_SIZE
        &&& self.v_reg.len() == NUM_V
        &&& self.keys.len() == NUM_KEYS
    }
}

/// Memory as construction and reset leave it: the font in the low region,
/// zero everywhere else.
pub open spec fn start_mem() -> Seq<u8> {
    Seq::new(MEM_SIZE as nat, |k: int| if k < FONTSET_SIZE { font_data()[k] } else { 0u8 })
}

/// A display with every pixel unset.
pub open spec fn blank_display() -> Seq<bool> {
    Seq::new((SCREEN_WIDTH * SCREEN_HEIGHT) as nat, |k: int| false)
}

/// The machine state after construction or a full reset: zeroed registers,
/// timers, keypad and display, the font loaded, the program counter at the
/// start address, and the legacy-mode flag cleared.
pub open spec fn start_view() -> EmuView {
    EmuView {
        mem: start_mem(),
        display: blank_display(),
        pc: START_ADDR,
        i_reg: 0,
        stack: Seq::empty(),
        d_timer: 0,
        s_timer: 0,
        v_reg: Seq::new(NUM_V as nat, |k: int| 0u8),
        keys: Seq::new(NUM_KEYS as nat, |k: int| false),
        cosmac: false,
    }
}

} // verus!
