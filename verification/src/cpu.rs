//! The executable machine: memory, register file, timers, keypad, display
//! and the fetch/decode/execute engine, each operation proved against the
//! step functions of `crate::step`.

use vstd::prelude::*;

use crate::compositor::xor_sprite;
use crate::error::EmuError;
use crate::rng::random_byte;
use crate::state::EmuView;
use crate::state::FONTSET_SIZE;
use crate::state::MEM_SIZE;
use crate::state::NUM_KEYS;
use crate::state::NUM_V;
use crate::state::SCREEN_HEIGHT;
use crate::state::SCREEN_WIDTH;
use crate::state::STACK_SIZE;
use crate::state::START_ADDR;
use crate::state::blank_display;
use crate::state::font_data;
use crate::state::start_mem;
use crate::state::start_view;
use crate::step::lowest_pressed;
use crate::step::lowest_pressed_from;
use crate::step::spec_exec;
use crate::step::spec_tick;
use crate::step::spec_tick_timers;
use crate::step::step_to;
use crate::step::tick_to;

verus! {

/// The machine. All state the engine mutates lives here; the driver owns
/// the value and calls the tick entry points.
pub struct Emu {
    /// Flat byte memory, addresses 0x000..=0xFFF.
    pub mem: Vec<u8>,
    /// Pixel states, row-major: index `x + SCREEN_WIDTH * y`.
    pub display: Vec<bool>,
    /// Program counter.
    pub pc: u16,
    /// Index register.
    pub i_reg: u16,
    /// Return addresses of active subroutine calls, most recent last.
    pub stack: Vec<u16>,
    /// Delay timer counter.
    pub d_timer: u8,
    /// Sound timer counter.
    pub s_timer: u8,
    /// General-purpose registers V0..=VF.
    pub v_reg: Vec<u8>,
    /// Level state of the 16 keypad keys.
    pub keys: Vec<bool>,
    /// True selects the legacy reference-interpreter semantics.
    pub cosmac: bool,
}

impl View for Emu {
    type V = EmuView;

    open spec fn view(&self) -> EmuView {
        EmuView {
            mem: self.mem@,
            display: self.display@,
            pc: self.pc,
            i_reg: self.i_reg,
            stack: self.stack@,
            d_timer: self.d_timer,
            s_timer: self.s_timer,
            v_reg: self.v_reg@,
            keys: self.keys@,
            cosmac: self.cosmac,
        }
    }
}

/// A vector of `n` zero bytes.
fn zeroed_bytes(n: usize) -> (v: Vec<u8>)
    ensures
        v@.len() == n,
        forall|k: int| 0 <= k < n ==> v@[k] == 0u8,
{
    let v = vec![0u8; n];
    proof {
        assert forall|k: int| 0 <= k < n implies v@[k] == 0u8 by {
            assert(cloned(0u8, v@[k]));
        }
    }
    v
}

/// A vector of `n` unset pixels or released keys.
fn cleared_flags(n: usize) -> (v: Vec<bool>)
    ensures
        v@.len() == n,
        forall|k: int| 0 <= k < n ==> v@[k] == false,
{
    let v = vec![false; n];
    proof {
        assert forall|k: int| 0 <= k < n implies v@[k] == false by {
            assert(cloned(false, v@[k]));
        }
    }
    v
}

/// Copies the built-in font into the low region of memory.
fn write_font(mem: &mut Vec<u8>)
    requires
        old(mem)@.len() == MEM_SIZE,
    ensures
        final(mem)@.len() == MEM_SIZE,
        forall|k: int| 0 <= k < FONTSET_SIZE ==> final(mem)@[k] == font_data()[k],
        forall|k: int| FONTSET_SIZE <= k < MEM_SIZE ==> final(mem)@[k] == old(mem)@[k],
{
    let glyphs: [u8; 80] = [
        0xF0, 0x90, 0x90, 0x90, 0xF0, // 0
        0x20, 0x60, 0x20, 0x20, 0x70, // 1
        0xF0, 0x10, 0xF0, 0x80, 0xF0, // 2
        0xF0, 0x10, 0xF0, 0x10, 0xF0, // 3
        0x90, 0x90, 0xF0, 0x10, 0x10, // 4
        0xF0, 0x80, 0xF0, 0x10, 0xF0, // 5
        0xF0, 0x80, 0xF0, 0x90, 0xF0, // 6
        0xF0, 0x10, 0x20, 0x40, 0x40, // 7
        0xF0, 0x90, 0xF0, 0x90, 0xF0, // 8
        0xF0, 0x90, 0xF0, 0x10, 0xF0, // 9
        0xF0, 0x90, 0xF0, 0x90, 0x90, // A
        0xE0, 0x90, 0xE0, 0x90, 0xE0, // B
        0xF0, 0x80, 0x80, 0x80, 0xF0, // C
        0xE0, 0x90, 0x90, 0x90, 0xE0, // D
        0xF0, 0x80, 0xF0, 0x80, 0xF0, // E
        0xF0, 0x80, 0xF0, 0x80, 0x80, // F
    ];
    proof {
        assert(glyphs@ =~= font_data());
    }
    for k in 0..FONTSET_SIZE
        invariant
            mem@.len() == MEM_SIZE,
            glyphs@ == font_data(),
            forall|j: int| 0 <= j < k ==> mem@[j] == font_data()[j],
            forall|j: int| k <= j < MEM_SIZE ==> mem@[j] == old(mem)@[j],
    {
        mem.set(k, glyphs[k]);
    }
}

impl Emu {
    /// Structural well-formedness of the machine; every public operation
    /// preserves it.
    pub open spec fn wf(&self) -> bool {
        self@.wf()
    }

    /// A fresh machine in the start state: zeroed everywhere, the font
    /// loaded, the program counter at the start address, modern semantics.
    pub fn new() -> (emu: Emu)
        ensures
            emu@ == start_view(),
            emu.wf(),
    {
        let mut mem = zeroed_bytes(MEM_SIZE);
        write_font(&mut mem);
        let emu = Emu {
            mem,
            display: cleared_flags(SCREEN_WIDTH * SCREEN_HEIGHT),
            pc: START_ADDR,
            i_reg: 0,
            stack: Vec::new(),
            d_timer: 0,
            s_timer: 0,
            v_reg: zeroed_bytes(NUM_V),
            keys: cleared_flags(NUM_KEYS),
            cosmac: false,
        };
        proof {
            assert(emu@.mem =~= start_mem());
            assert(emu@.display =~= blank_display());
            assert(emu@ =~= start_view());
        }
        emu
    }

    /// Full reinitialization: every component returns to the start state,
    /// including the mode flag, exactly as construction leaves it.
    pub fn reset(&mut self)
        ensures
            final(self)@ == start_view(),
            final(self).wf(),
    {
        *self = Emu::new();
    }

    /// Selects the legacy reference-interpreter semantics for the shift,
    /// register-block and jump-with-offset families.
    pub fn set_cosmac(&mut self)
        ensures
            final(self)@ == (EmuView { cosmac: true, ..old(self)@ }),
    {
        self.cosmac = true;
    }

    /// One timer tick: both counters go down by one with a floor at zero.
    /// A sound counter held at zero is the level-triggered cue that no
    /// tone is due; the driver sounds the tone while the counter is
    /// nonzero.
    pub fn tick_timers(&mut self)
        ensures
            final(self)@ == spec_tick_timers(old(self)@),
    {
        if self.d_timer > 0 {
            self.d_timer = self.d_timer - 1;
        }
        if self.s_timer > 0 {
            self.s_timer = self.s_timer - 1;
        }
        proof {
            assert(self@ =~= spec_tick_timers(old(self)@));
        }
    }

    /// Read-only view of the whole framebuffer for the rendering
    /// collaborator.
    pub fn get_display(&self) -> (pixels: &[bool])
        ensures
            pixels@ == self@.display,
    {
        self.display.as_slice()
    }

    /// Copies a program image into memory at the start address. An image
    /// that would run past the end of memory is rejected whole, before
    /// any byte is written.
    pub fn load(&mut self, data: &[u8]) -> (r: Result<(), EmuError>)
        requires
            old(self).wf(),
        ensures
            final(self).wf(),
            data@.len() > MEM_SIZE - START_ADDR ==> r == Err::<(), EmuError>(
                EmuError::OversizedProgram,
            ) && final(self)@ == old(self)@,
            data@.len() <= MEM_SIZE - START_ADDR ==> r is Ok && final(self)@ == (EmuView {
                mem: Seq::new(
                    old(self)@.mem.len(),
                    |k: int|
                        if START_ADDR <= k < START_ADDR + data@.len() {
                            data@[k - START_ADDR]
                        } else {
                            old(self)@.mem[k]
                        },
                ),
                ..old(self)@
            }),
    {
        if data.len() > MEM_SIZE - START_ADDR as usize {
            return Err(EmuError::OversizedProgram);
        }
        let base = START_ADDR as usize;
        for j in 0..data.len()
            invariant
                self@.mem.len() == MEM_SIZE,
                data@.len() <= MEM_SIZE - START_ADDR,
                base == START_ADDR,
                forall|k: int| base <= k < base + j ==> self@.mem[k] == data@[k - base],
                forall|k: int|
                    0 <= k < MEM_SIZE && !(base <= k < base + j) ==> self@.mem[k] == old(self)@.mem[
                        k
                    ],
                self@.display == old(self)@.display,
                self.pc == old(self).pc,
                self.i_reg == old(self).i_reg,
                self@.stack == old(self)@.stack,
                self.d_timer == old(self).d_timer,
                self.s_timer == old(self).s_timer,
                self@.v_reg == old(self)@.v_reg,
                self@.keys == old(self)@.keys,
                self.cosmac == old(self).cosmac,
        {
            self.mem.set(base + j, data[j]);
        }
        proof {
            assert(self@ =~= (EmuView {
                mem: Seq::new(
                    old(self)@.mem.len(),
                    |k: int|
                        if START_ADDR <= k < START_ADDR + data@.len() {
                            data@[k - START_ADDR]
                        } else {
                            old(self)@.mem[k]
                        },
                ),
                ..old(self)@
            }));
        }
        Ok(())
    }

    /// Records a key level change from the input collaborator, between
    /// ticks.
    pub fn keypress(&mut self, index: usize, pressed: bool)
        requires
            old(self).wf(),
            index < NUM_KEYS,
        ensures
            final(self).wf(),
            final(self)@ == (EmuView { keys: old(self)@.keys.update(index as int, pressed), ..old(
                self,
            )@ }),
    {
        self.keys.set(index, pressed);
    }

    /// Reads the big-endian instruction word at the program counter and
    /// advances the counter past it; a counter that cannot address two
    /// bytes is a range error and changes nothing.
    fn fetch(&mut self) -> (r: Result<u16, EmuError>)
        requires
            old(self).wf(),
        ensures
            final(self).wf(),
            match r {
                Ok(op) => {
                    &&& old(self)@.pc + 1 < MEM_SIZE
                    &&& op == (old(self)@.mem[old(self)@.pc as int] as u16) * 256 + old(
                        self,
                    )@.mem[old(self)@.pc + 1]
                    &&& final(self)@ == (EmuView {
                        pc: (old(self)@.pc + 2) as u16,
                        ..old(self)@
                    })
                },
                Err(e) => {
                    &&& old(self)@.pc + 1 >= MEM_SIZE
                    &&& e == EmuError::OutOfRangeAddress(old(self)@.pc)
                    &&& final(self)@ == old(self)@
                },
            },
    {
        let at = self.pc as usize;
        if at + 1 >= MEM_SIZE {
            return Err(EmuError::OutOfRangeAddress(self.pc));
        }
        let hi = self.mem[at];
        let lo = self.mem[at + 1];
        self.pc = self.pc + 2;
        proof {
            assert(self@ =~= (EmuView { pc: (old(self)@.pc + 2) as u16, ..old(self)@ }));
        }
        Ok((hi as u16) * 256 + (lo as u16))
    }

    /// Index of the lowest pressed key, if any key is pressed.
    fn first_pressed(&self) -> (r: Option<u8>)
        requires
            self.wf(),
        ensures
            match r {
                Some(k) => k < NUM_KEYS && k as int == lowest_pressed(self@.keys),
                None => lowest_pressed(self@.keys) == NUM_KEYS,
            },
    {
        let mut j: usize = 0;
        while j < NUM_KEYS
            invariant
                self.wf(),
                j <= NUM_KEYS,
                lowest_pressed(self@.keys) == lowest_pressed_from(self@.keys, j as int),
            decreases NUM_KEYS - j,
        {
            if self.keys[j] {
                return Some(j as u8);
            }
            j = j + 1;
        }
        None
    }

    /// Copies V0..=VX into memory starting at the index register; legacy
    /// mode leaves the index register pointing past the block.
    fn store_block(&mut self, x: usize)
        requires
            old(self).wf(),
            x < NUM_V,
            old(self)@.i_reg + x < MEM_SIZE,
        ensures
            final(self).wf(),
            final(self)@ == (EmuView {
                mem: Seq::new(
                    old(self)@.mem.len(),
                    |k: int|
                        if old(self)@.i_reg <= k <= old(self)@.i_reg + x {
                            old(self)@.v_reg[k - old(self)@.i_reg]
                        } else {
                            old(self)@.mem[k]
                        },
                ),
                i_reg: if old(self)@.cosmac {
                    (old(self)@.i_reg + x + 1) as u16
                } else {
                    old(self)@.i_reg
                },
                ..old(self)@
            }),
    {
        let base = self.i_reg as usize;
        for j in 0..(x + 1)
            invariant
                old(self).wf(),
                self@.mem.len() == MEM_SIZE,
                x < NUM_V,
                base == old(self)@.i_reg,
                base + x < MEM_SIZE,
                forall|k: int| base <= k < base + j ==> self@.mem[k] == old(self)@.v_reg[k - base],
                forall|k: int|
                    0 <= k < MEM_SIZE && !(base <= k < base + j) ==> self@.mem[k] == old(self)@.mem[
                        k
                    ],
                self@.display == old(self)@.display,
                self.pc == old(self).pc,
                self.i_reg == old(self).i_reg,
                self@.stack == old(self)@.stack,
                self.d_timer == old(self).d_timer,
                self.s_timer == old(self).s_timer,
                self@.v_reg == old(self)@.v_reg,
                self@.keys == old(self)@.keys,
                self.cosmac == old(self).cosmac,
        {
            let val = self.v_reg[j];
            self.mem.set(base + j, val);
        }
        if self.cosmac {
            self.i_reg = self.i_reg + (x as u16) + 1;
        }
        proof {
            assert(final(self)@ =~~= (EmuView {
                mem: Seq::new(
                    old(self)@.mem.len(),
                    |k: int|
                        if old(self)@.i_reg <= k <= old(self)@.i_reg + x {
                            old(self)@.v_reg[k - old(self)@.i_reg]
                        } else {
                            old(self)@.mem[k]
                        },
                ),
                i_reg: if old(self)@.cosmac {
                    (old(self)@.i_reg + x + 1) as u16
                } else {
                    old(self)@.i_reg
                },
                ..old(self)@
            }));
        }
    }

    /// Loads memory starting at the index register into V0..=VX; legacy
    /// mode leaves the index register pointing past the block.
    fn load_block(&mut self, x: usize)
        requires
            old(self).wf(),
            x < NUM_V,
            old(self)@.i_reg + x < MEM_SIZE,
        ensures
            final(self).wf(),
            final(self)@ == (EmuView {
                v_reg: Seq::new(
                    old(self)@.v_reg.len(),
                    |k: int|
                        if 0 <= k <= x {
                            old(self)@.mem[old(self)@.i_reg + k]
                        } else {
                            old(self)@.v_reg[k]
                        },
                ),
                i_reg: if old(self)@.cosmac {
                    (old(self)@.i_reg + x + 1) as u16
                } else {
                    old(self)@.i_reg
                },
                ..old(self)@
            }),
    {
        let base = self.i_reg as usize;
        for j in 0..(x + 1)
            invariant
                old(self).wf(),
                self@.v_reg.len() == NUM_V,
                x < NUM_V,
                base == old(self)@.i_reg,
                base + x < MEM_SIZE,
                forall|k: int| 0 <= k < j ==> self@.v_reg[k] == old(self)@.mem[base + k],
                forall|k: int| j <= k < NUM_V ==> self@.v_reg[k] == old(self)@.v_reg[k],
                self@.mem == old(self)@.mem,
                self@.display == old(self)@.display,
                self.pc == old(self).pc,
                self.i_reg == old(self).i_reg,
                self@.stack == old(self)@.stack,
                self.d_timer == old(self).d_timer,
                self.s_timer == old(self).s_timer,
                self@.keys == old(self)@.keys,
                self.cosmac == old(self).cosmac,
        {
            let val = self.mem[base + j];
            self.v_reg.set(j, val);
        }
        if self.cosmac {
            self.i_reg = self.i_reg + (x as u16) + 1;
        }
        proof {
            assert(final(self)@ =~~= (EmuView {
                v_reg: Seq::new(
                    old(self)@.v_reg.len(),
                    |k: int|
                        if 0 <= k <= x {
                            old(self)@.mem[old(self)@.i_reg + k]
                        } else {
                            old(self)@.v_reg[k]
                        },
                ),
                i_reg: if old(self)@.cosmac {
                    (old(self)@.i_reg + x + 1) as u16
                } else {
                    old(self)@.i_reg
                },
                ..old(self)@
            }));
        }
    }

    /// Decodes and executes one instruction word, the program counter
    /// already advanced past it. An error changes nothing; a successful
    /// instruction takes the machine to the state `spec_exec` gives for
    /// the random byte that was drawn.
    fn execute(&mut self, op: u16) -> (r: Result<(), EmuError>)
        requires
            old(self).wf(),
            2 <= old(self)@.pc <= 0x1000,
        ensures
            final(self).wf(),
            (match spec_exec(old(self)@, op, 0u8) {
                Err(e) => r == Err::<(), EmuError>(e) && final(self)@ == old(self)@,
                Ok(_) => r is Ok,
            }),
            r is Ok ==> exists|rnd: u8| #[trigger] step_to(old(self)@, op, rnd, final(self)@),
    {
        let n1 = op / 0x1000;
        let x = ((op / 0x100) % 16) as usize;
        let y = ((op / 16) % 16) as usize;
        let n = (op % 16) as u8;
        let nn = (op % 256) as u8;
        let nnn = op % 0x1000;
        if op == 0x00E0 {
            // Clear screen.
            self.display = cleared_flags(SCREEN_WIDTH * SCREEN_HEIGHT);
            proof {
                let tv = spec_exec(old(self)@, op, 0u8)->Ok_0;
                assert(self@ =~~= tv);
                assert(step_to(old(self)@, op, 0u8, self@));
            }
            Ok(())
        } else if op == 0x00EE {
            // Return from subroutine.
            match self.stack.pop() {
                Some(a) => {
                    self.pc = a;
                    proof {
                        let tv = spec_exec(old(self)@, op, 0u8)->Ok_0;
                        assert(self@ =~~= tv);
                        assert(step_to(old(self)@, op, 0u8, self@));
                    }
                    Ok(())
                },
                None => Err(EmuError::StackUnderflow),
            }
        } else if n1 == 1 {
            // Jump.
            self.pc = nnn;
            proof {
                assert(self@ =~~= spec_exec(old(self)@, op, 0u8)->Ok_0);
                assert(step_to(old(self)@, op, 0u8, self@));
            }
            Ok(())
        } else if n1 == 2 {
            // Call subroutine.
            if self.stack.len() >= STACK_SIZE {
                return Err(EmuError::StackOverflow);
            }
            let ret = self.pc;
            self.stack.push(ret);
            self.pc = nnn;
            proof {
                assert(self@ =~~= spec_exec(old(self)@, op, 0u8)->Ok_0);
                assert(step_to(old(self)@, op, 0u8, self@));
            }
            Ok(())
        } else if n1 == 3 {
            // Skip if VX == NN.
            if self.v_reg[x] == nn {
                self.pc = self.pc + 2;
            }
            proof {
                assert(self@ =~~= spec_exec(old(self)@, op, 0u8)->Ok_0);
                assert(step_to(old(self)@, op, 0u8, self@));
            }
            Ok(())
        } else if n1 == 4 {
            // Skip if VX != NN.
            if self.v_reg[x] != nn {
                self.pc = self.pc + 2;
            }
            proof {
                assert(self@ =~~= spec_exec(old(self)@, op, 0u8)->Ok_0);
                assert(step_to(old(self)@, op, 0u8, self@));
            }
            Ok(())
        } else if n1 == 5 && op % 16 == 0 {
            // Skip if VX == VY.
            if self.v_reg[x] == self.v_reg[y] {
                self.pc = self.pc + 2;
            }
            proof {
                assert(self@ =~~= spec_exec(old(self)@, op, 0u8)->Ok_0);
                assert(step_to(old(self)@, op, 0u8, self@));
            }
            Ok(())
        } else if n1 == 6 {
            // Load immediate.
            self.v_reg.set(x, nn);
            proof {
                assert(self@ =~~= spec_exec(old(self)@, op, 0u8)->Ok_0);
                assert(step_to(old(self)@, op, 0u8, self@));
            }
            Ok(())
        } else if n1 == 7 {
            // Add immediate, wrapping, no flag effect.
            let sum = ((self.v_reg[x] as u16 + nn as u16) % 256) as u8;
            self.v_reg.set(x, sum);
            proof {
                assert(self@ =~~= spec_exec(old(self)@, op, 0u8)->Ok_0);
                assert(step_to(old(self)@, op, 0u8, self@));
            }
            Ok(())
        } else if n1 == 8 && op % 16 == 0 {
            // Load register.
            let vy = self.v_reg[y];
            self.v_reg.set(x, vy);
            proof {
                assert(self@ =~~= spec_exec(old(self)@, op, 0u8)->Ok_0);
                assert(step_to(old(self)@, op, 0u8, self@));
            }
            Ok(())
        } else if n1 == 8 && op % 16 == 1 {
            // Bitwise OR.
            let v = self.v_reg[x] | self.v_reg[y];
            self.v_reg.set(x, v);
            proof {
                assert(self@ =~~= spec_exec(old(self)@, op, 0u8)->Ok_0);
                assert(step_to(old(self)@, op, 0u8, self@));
            }
            Ok(())
        } else if n1 == 8 && op % 16 == 2 {
            // Bitwise AND.
            let v = self.v_reg[x] & self.v_reg[y];
            self.v_reg.set(x, v);
            proof {
                assert(self@ =~~= spec_exec(old(self)@, op, 0u8)->Ok_0);
                assert(step_to(old(self)@, op, 0u8, self@));
            }
            Ok(())
        } else if n1 == 8 && op % 16 == 3 {
            // Bitwise XOR.
            let v = self.v_reg[x] ^ self.v_reg[y];
            self.v_reg.set(x, v);
            proof {
                assert(self@ =~~= spec_exec(old(self)@, op, 0u8)->Ok_0);
                assert(step_to(old(self)@, op, 0u8, self@));
            }
            Ok(())
        } else if n1 == 8 && op % 16 == 4 {
            // Add registers: VF takes the carry.
            let s = self.v_reg[x] as u16 + self.v_reg[y] as u16;
            self.v_reg.set(15, if s > 255 { 1 } else { 0 });
            self.v_reg.set(x, (s % 256) as u8);
            proof {
                assert(self@ =~~= spec_exec(old(self)@, op, 0u8)->Ok_0);
                assert(step_to(old(self)@, op, 0u8, self@));
            }
            Ok(())
        } else if n1 == 8 && op % 16 == 5 {
            // VX - VY: VF is 1 when there is no borrow.
            let vx = self.v_reg[x];
            let vy = self.v_reg[y];
            self.v_reg.set(15, if vx >= vy { 1 } else { 0 });
            self.v_reg.set(x, ((256u16 + vx as u16 - vy as u16) % 256) as u8);
            proof {
                assert(self@ =~~= spec_exec(old(self)@, op, 0u8)->Ok_0);
                assert(step_to(old(self)@, op, 0u8, self@));
            }
            Ok(())
        } else if n1 == 8 && op % 16 == 6 {
            // Shift right; legacy mode shifts VY into VX.
            let src = if self.cosmac {
                self.v_reg[y]
            } else {
                self.v_reg[x]
            };
            self.v_reg.set(x, src / 2);
            self.v_reg.set(15, src % 2);
            proof {
                assert(self@ =~~= spec_exec(old(self)@, op, 0u8)->Ok_0);
                assert(step_to(old(self)@, op, 0u8, self@));
            }
            Ok(())
        } else if n1 == 8 && op % 16 == 7 {
            // VY - VX: VF is 1 when there is no borrow.
            let vx = self.v_reg[x];
            let vy = self.v_reg[y];
            self.v_reg.set(15, if vy >= vx { 1 } else { 0 });
            self.v_reg.set(x, ((256u16 + vy as u16 - vx as u16) % 256) as u8);
            proof {
                assert(self@ =~~= spec_exec(old(self)@, op, 0u8)->Ok_0);
                assert(step_to(old(self)@, op, 0u8, self@));
            }
            Ok(())
        } else if n1 == 8 && op % 16 == 0xE {
            // Shift left; legacy mode shifts VY into VX.
            let src = if self.cosmac {
                self.v_reg[y]
            } else {
                self.v_reg[x]
            };
            self.v_reg.set(x, ((src as u16 * 2) % 256) as u8);
            self.v_reg.set(15, src / 128);
            proof {
                assert(self@ =~~= spec_exec(old(self)@, op, 0u8)->Ok_0);
                assert(step_to(old(self)@, op, 0u8, self@));
            }
            Ok(())
        } else if n1 == 9 && op % 16 == 0 {
            // Skip if VX != VY.
            if self.v_reg[x] != self.v_reg[y] {
                self.pc = self.pc + 2;
            }
            proof {
                assert(self@ =~~= spec_exec(old(self)@, op, 0u8)->Ok_0);
                assert(step_to(old(self)@, op, 0u8, self@));
            }
            Ok(())
        } else if n1 == 0xA {
            // Load index register.
            self.i_reg = nnn;
            proof {
                assert(self@ =~~= spec_exec(old(self)@, op, 0u8)->Ok_0);
                assert(step_to(old(self)@, op, 0u8, self@));
            }
            Ok(())
        } else if n1 == 0xB {
            // Jump with offset.
            let off = if self.cosmac {
                self.v_reg[0]
            } else {
                self.v_reg[x]
            };
            self.pc = nnn + off as u16;
            proof {
                assert(self@ =~~= spec_exec(old(self)@, op, 0u8)->Ok_0);
                assert(step_to(old(self)@, op, 0u8, self@));
            }
            Ok(())
        } else if n1 == 0xC {
            // Random byte masked by NN.
            let rb = random_byte();
            self.v_reg.set(x, nn & rb);
            proof {
                assert(self@ =~~= spec_exec(old(self)@, op, rb)->Ok_0);
                assert(step_to(old(self)@, op, rb, self@));
            }
            Ok(())
        } else if n1 == 0xD {
            // Draw sprite; VF takes the collision flag of the whole draw.
            if n > 0 && self.i_reg as usize + n as usize > MEM_SIZE {
                return Err(EmuError::OutOfRangeAddress(self.i_reg));
            }
            let xc = self.v_reg[x];
            let yc = self.v_reg[y];
            let i = self.i_reg as usize;
            let col = xor_sprite(&mut self.display, &self.mem, i, xc, yc, n);
            self.v_reg.set(15, if col { 1 } else { 0 });
            proof {
                assert(self@ =~~= spec_exec(old(self)@, op, 0u8)->Ok_0);
                assert(step_to(old(self)@, op, 0u8, self@));
            }
            Ok(())
        } else if n1 == 0xE && nn == 0x9E {
            // Skip if the key named by the low nibble of VX is pressed.
            let key = (self.v_reg[x] % 16) as usize;
            if self.keys[key] {
                self.pc = self.pc + 2;
            }
            proof {
                assert(self@ =~~= spec_exec(old(self)@, op, 0u8)->Ok_0);
                assert(step_to(old(self)@, op, 0u8, self@));
            }
            Ok(())
        } else if n1 == 0xE && nn == 0xA1 {
            // Skip if that key is not pressed.
            let key = (self.v_reg[x] % 16) as usize;
            if !self.keys[key] {
                self.pc = self.pc + 2;
            }
            proof {
                assert(self@ =~~= spec_exec(old(self)@, op, 0u8)->Ok_0);
                assert(step_to(old(self)@, op, 0u8, self@));
            }
            Ok(())
        } else if n1 == 0xF && nn == 0x07 {
            // Read the delay timer into VX.
            let t = self.d_timer;
            self.v_reg.set(x, t);
            proof {
                assert(self@ =~~= spec_exec(old(self)@, op, 0u8)->Ok_0);
                assert(step_to(old(self)@, op, 0u8, self@));
            }
            Ok(())
        } else if n1 == 0xF && nn == 0x0A {
            // Wait for a key: without one, step back over the instruction.
            match self.first_pressed() {
                Some(k) => {
                    self.v_reg.set(x, k);
                },
                None => {
                    self.pc = self.pc - 2;
                },
            }
            proof {
                assert(self@ =~~= spec_exec(old(self)@, op, 0u8)->Ok_0);
                assert(step_to(old(self)@, op, 0u8, self@));
            }
            Ok(())
        } else if n1 == 0xF && nn == 0x15 {
            // Load VX into the delay timer.
            self.d_timer = self.v_reg[x];
            proof {
                assert(self@ =~~= spec_exec(old(self)@, op, 0u8)->Ok_0);
                assert(step_to(old(self)@, op, 0u8, self@));
            }
            Ok(())
        } else if n1 == 0xF && nn == 0x18 {
            // Load VX into the sound timer.
            self.s_timer = self.v_reg[x];
            proof {
                assert(self@ =~~= spec_exec(old(self)@, op, 0u8)->Ok_0);
                assert(step_to(old(self)@, op, 0u8, self@));
            }
            Ok(())
        } else if n1 == 0xF && nn == 0x1E {
            // Add VX to the index register, modulo 2^16.
            self.i_reg = ((self.i_reg as u32 + self.v_reg[x] as u32) % 0x10000) as u16;
            proof {
                assert(self@ =~~= spec_exec(old(self)@, op, 0u8)->Ok_0);
                assert(step_to(old(self)@, op, 0u8, self@));
            }
            Ok(())
        } else if n1 == 0xF && nn == 0x29 {
            // Font address of the glyph named by the low nibble of VX.
            self.i_reg = 5 * ((self.v_reg[x] % 16) as u16);
            proof {
                assert(self@ =~~= spec_exec(old(self)@, op, 0u8)->Ok_0);
                assert(step_to(old(self)@, op, 0u8, self@));
            }
            Ok(())
        } else if n1 == 0xF && nn == 0x33 {
            // Binary-coded decimal of VX at I, I+1, I+2.
            if self.i_reg as usize + 2 >= MEM_SIZE {
                return Err(EmuError::OutOfRangeAddress(self.i_reg));
            }
            let v = self.v_reg[x];
            let base = self.i_reg as usize;
            self.mem.set(base, v / 100);
            self.mem.set(base + 1, (v / 10) % 10);
            self.mem.set(base + 2, v % 10);
            proof {
                assert(self@ =~~= spec_exec(old(self)@, op, 0u8)->Ok_0);
                assert(step_to(old(self)@, op, 0u8, self@));
            }
            Ok(())
        } else if n1 == 0xF && nn == 0x55 {
            // Register-block store.
            if self.i_reg as usize + x >= MEM_SIZE {
                return Err(EmuError::OutOfRangeAddress(self.i_reg));
            }
            self.store_block(x);
            proof {
                assert(self@ =~~= spec_exec(old(self)@, op, 0u8)->Ok_0);
                assert(step_to(old(self)@, op, 0u8, self@));
            }
            Ok(())
        } else if n1 == 0xF && nn == 0x65 {
            // Register-block load.
            if self.i_reg as usize + x >= MEM_SIZE {
                return Err(EmuError::OutOfRangeAddress(self.i_reg));
            }
            self.load_block(x);
            proof {
                assert(self@ =~~= spec_exec(old(self)@, op, 0u8)->Ok_0);
                assert(step_to(old(self)@, op, 0u8, self@));
            }
            Ok(())
        } else {
            let back = self.pc - 2;
            Err(EmuError::UnimplementedOpcode(op, back))
        }
    }

    /// One instruction tick: fetch the word at the program counter,
    /// advance the counter past it, and execute. On an error the machine
    /// is left exactly as it was, so the driver can report the condition
    /// and decide; on success the machine steps to the state `spec_tick`
    /// gives for the random byte that was drawn.
    pub fn tick(&mut self) -> (r: Result<(), EmuError>)
        requires
            old(self).wf(),
        ensures
            final(self).wf(),
            (match spec_tick(old(self)@, 0u8) {
                Err(e) => r == Err::<(), EmuError>(e) && final(self)@ == old(self)@,
                Ok(_) => r is Ok,
            }),
            r is Ok ==> exists|rnd: u8| #[trigger] tick_to(old(self)@, rnd, final(self)@),
    {
        let op = match self.fetch() {
            Ok(op) => op,
            Err(e) => {
                return Err(e);
            },
        };
        let ghost mid = self@;
        match self.execute(op) {
            Ok(()) => {
                proof {
                    let rw = choose|rnd: u8| step_to(mid, op, rnd, self@);
                    assert(spec_tick(old(self)@, rw) == spec_exec(mid, op, rw));
                    assert(tick_to(old(self)@, rw, self@));
                }
                Ok(())
            },
            Err(e) => {
                self.pc = self.pc - 2;
                proof {
                    assert(self@ =~= old(self)@);
                }
                Err(e)
            },
        }
    }
}

} // verus!
