//! The instruction semantics: decoding of the instruction word and the
//! mathematical step function of the decode/execute engine. Every executable
//! tick is proved against `spec_tick`; the timer subsystem against
//! `spec_tick_timers`.

use vstd::prelude::*;

use crate::error::EmuError;
use crate::state::EmuView;
use crate::state::MEM_SIZE;
use crate::state::NUM_KEYS;
use crate::state::STACK_SIZE;

verus! {

/// Top nibble of an instruction word: the opcode family.
pub open spec fn nib1(op: u16) -> u16 {
    op / 0x1000
}

/// Second nibble: the register index X.
pub open spec fn nib2(op: u16) -> u16 {
    (op / 0x100) % 16
}

/// Third nibble: the register index Y.
pub open spec fn nib3(op: u16) -> u16 {
    (op / 16) % 16
}

/// Low nibble N.
pub open spec fn nib4(op: u16) -> u16 {
    op % 16
}

/// Low byte NN.
pub open spec fn imm8(op: u16) -> u16 {
    op % 256
}

/// Low 12 bits NNN.
pub open spec fn imm12(op: u16) -> u16 {
    op % 0x1000
}

/// Whether bit `c` (counted from the left, 0 = most significant) of a
/// sprite row byte is set.
pub open spec fn sprite_bit(b: u8, c: int) -> bool
    recommends
        0 <= c < 8,
{
    b & (0x80u8 >> (c as u8)) != 0
}

/// Horizontal distance from the sprite's left edge to screen column `px`,
/// wrapped modulo the screen width.
pub open spec fn dx_of(x0: int, px: int) -> int {
    (px - (x0 % 64) + 64) % 64
}

/// Vertical distance from the sprite's top edge to screen row `py`,
/// wrapped modulo the screen height.
pub open spec fn dy_of(y0: int, py: int) -> int {
    (py - (y0 % 32) + 32) % 32
}

/// Whether the pixel at (`px`, `py`) is flipped by the part of a sprite
/// draw that covers full rows `0..rows` and, on row `rows`, columns
/// `0..cols`. The sprite is `n` rows of `mem` starting at `i`, its top-left
/// corner at (`x0`, `y0`), both axes wrapped. Since a sprite is at most
/// 15 rows of 8 columns, no pixel is reached twice, and the wrapped
/// distances `dx_of`/`dy_of` identify the unique sprite bit over a pixel.
pub open spec fn touched_prefix(
    mem: Seq<u8>,
    i: int,
    x0: int,
    y0: int,
    rows: int,
    cols: int,
    px: int,
    py: int,
) -> bool {
    let dx = dx_of(x0, px);
    let dy = dy_of(y0, py);
    ((dy < rows && dx < 8) || (dy == rows && dx < cols)) && sprite_bit(mem[i + dy], dx)
}

/// Whether a full `n`-row sprite draw flips the pixel at (`px`, `py`).
pub open spec fn sprite_covers(
    mem: Seq<u8>,
    i: int,
    x0: int,
    y0: int,
    n: int,
    px: int,
    py: int,
) -> bool {
    touched_prefix(mem, i, x0, y0, n, 0, px, py)
}

/// The display after XOR-compositing an `n`-row sprite from `mem` at `i`
/// onto `disp` with its top-left corner at (`x0`, `y0`).
pub open spec fn draw_display(
    disp: Seq<bool>,
    mem: Seq<u8>,
    i: int,
    x0: int,
    y0: int,
    n: int,
) -> Seq<bool> {
    Seq::new(disp.len(), |idx: int| disp[idx] ^ sprite_covers(mem, i, x0, y0, n, idx % 64, idx / 64))
}

/// Whether sprite bit (`r`, `c`) is set and lands on a pixel of `disp`
/// that is itself set: the elementary collision event of a draw.
pub open spec fn sprite_hit(
    disp: Seq<bool>,
    mem: Seq<u8>,
    i: int,
    x0: int,
    y0: int,
    r: int,
    c: int,
) -> bool {
    &&& 0 <= r
    &&& 0 <= c < 8
    &&& sprite_bit(mem[i + r], c)
    &&& disp[((y0 + r) % 32) * 64 + (x0 + c) % 64]
}

/// Whether the partial draw covering full rows `0..rows` and columns
/// `0..cols` of row `rows` turns some set pixel of `disp` unset.
pub open spec fn collided_prefix(
    disp: Seq<bool>,
    mem: Seq<u8>,
    i: int,
    x0: int,
    y0: int,
    rows: int,
    cols: int,
) -> bool {
    exists|r: int, c: int|
        (r < rows || (r == rows && c < cols)) && #[trigger] sprite_hit(disp, mem, i, x0, y0, r, c)
}

/// Collision of a full `n`-row sprite draw: at least one touched pixel was
/// already set, evaluated against the display as it was before the whole
/// draw.
pub open spec fn draw_collision(
    disp: Seq<bool>,
    mem: Seq<u8>,
    i: int,
    x0: int,
    y0: int,
    n: int,
) -> bool {
    collided_prefix(disp, mem, i, x0, y0, n, 0)
}

/// Whether an `n`-row sprite has at least one set bit.
pub open spec fn sprite_nonblank(mem: Seq<u8>, i: int, n: int) -> bool {
    exists|r: int, c: int| 0 <= r < n && 0 <= c < 8 && #[trigger] sprite_bit(mem[i + r], c)
}

/// Index of the lowest pressed key at or above `j`, or `NUM_KEYS` if none.
pub open spec fn lowest_pressed_from(keys: Seq<bool>, j: int) -> int
    decreases NUM_KEYS - j,
{
    if j >= NUM_KEYS {
        NUM_KEYS as int
    } else if keys[j] {
        j
    } else {
        lowest_pressed_from(keys, j + 1)
    }
}

/// Index of the lowest pressed key, or `NUM_KEYS` if no key is pressed.
pub open spec fn lowest_pressed(keys: Seq<bool>) -> int {
    lowest_pressed_from(keys, 0)
}

/// One timer tick: both counters go down by one, with a floor at zero.
pub open spec fn spec_tick_timers(pre: EmuView) -> EmuView {
    EmuView {
        d_timer: if pre.d_timer > 0 {
            (pre.d_timer - 1) as u8
        } else {
            0u8
        },
        s_timer: if pre.s_timer > 0 {
            (pre.s_timer - 1) as u8
        } else {
            0u8
        },
        ..pre
    }
}

/// The effect of executing instruction word `op` on the machine state
/// `pre`, whose program counter has already been advanced past the
/// instruction. `rnd` is the byte drawn by the host's random source; only
/// the random-number family reads it. An error leaves no state change; the
/// caller reports it with the machine as it was.
pub open spec fn spec_exec(pre: EmuView, op: u16, rnd: u8) -> Result<EmuView, EmuError> {
    let x = nib2(op) as int;
    let y = nib3(op) as int;
    let n = nib4(op) as int;
    let nn = imm8(op);
    let nnn = imm12(op);
    let at = if pre.pc >= 2 {
        (pre.pc - 2) as u16
    } else {
        0u16
    };
    if op == 0x00E0 {
        // Clear screen.
        Ok(EmuView { display: Seq::new(pre.display.len(), |k: int| false), ..pre })
    } else if op == 0x00EE {
        // Return from subroutine.
        if pre.stack.len() == 0 {
            Err(EmuError::StackUnderflow)
        } else {
            Ok(
                EmuView {
                    pc: pre.stack[pre.stack.len() - 1],
                    stack: pre.stack.drop_last(),
                    ..pre
                },
            )
        }
    } else if nib1(op) == 1 {
        // Jump.
        Ok(EmuView { pc: nnn, ..pre })
    } else if nib1(op) == 2 {
        // Call subroutine: the return address is the already-advanced
        // program counter.
        if pre.stack.len() >= STACK_SIZE {
            Err(EmuError::StackOverflow)
        } else {
            Ok(EmuView { stack: pre.stack.push(pre.pc), pc: nnn, ..pre })
        }
    } else if nib1(op) == 3 {
        // Skip if VX == NN.
        Ok(
            EmuView {
                pc: if pre.v_reg[x] == nn {
                    (pre.pc + 2) as u16
                } else {
                    pre.pc
                },
                ..pre
            },
        )
    } else if nib1(op) == 4 {
        // Skip if VX != NN.
        Ok(
            EmuView {
                pc: if pre.v_reg[x] != nn {
                    (pre.pc + 2) as u16
                } else {
                    pre.pc
                },
                ..pre
            },
        )
    } else if nib1(op) == 5 && nib4(op) == 0 {
        // Skip if VX == VY.
        Ok(
            EmuView {
                pc: if pre.v_reg[x] == pre.v_reg[y] {
                    (pre.pc + 2) as u16
                } else {
                    pre.pc
                },
                ..pre
            },
        )
    } else if nib1(op) == 6 {
        // Load immediate.
        Ok(EmuView { v_reg: pre.v_reg.update(x, nn as u8), ..pre })
    } else if nib1(op) == 7 {
        // Add immediate: wrapping, no flag effect.
        Ok(EmuView { v_reg: pre.v_reg.update(x, ((pre.v_reg[x] + nn) % 256) as u8), ..pre })
    } else if nib1(op) == 8 && nib4(op) == 0 {
        // Load register.
        Ok(EmuView { v_reg: pre.v_reg.update(x, pre.v_reg[y]), ..pre })
    } else if nib1(op) == 8 && nib4(op) == 1 {
        // Bitwise OR, no flag effect.
        Ok(EmuView { v_reg: pre.v_reg.update(x, pre.v_reg[x] | pre.v_reg[y]), ..pre })
    } else if nib1(op) == 8 && nib4(op) == 2 {
        // Bitwise AND, no flag effect.
        Ok(EmuView { v_reg: pre.v_reg.update(x, pre.v_reg[x] & pre.v_reg[y]), ..pre })
    } else if nib1(op) == 8 && nib4(op) == 3 {
        // Bitwise XOR, no flag effect.
        Ok(EmuView { v_reg: pre.v_reg.update(x, pre.v_reg[x] ^ pre.v_reg[y]), ..pre })
    } else if nib1(op) == 8 && nib4(op) == 4 {
        // Add registers: VF is the carry, written after the sum.
        Ok(
            EmuView {
                v_reg: pre.v_reg.update(
                    15,
                    if pre.v_reg[x] + pre.v_reg[y] > 255 {
                        1u8
                    } else {
                        0u8
                    },
                ).update(x, ((pre.v_reg[x] + pre.v_reg[y]) % 256) as u8),
                ..pre
            },
        )
    } else if nib1(op) == 8 && nib4(op) == 5 {
        // VX - VY: VF is 1 when there is no borrow.
        Ok(
            EmuView {
                v_reg: pre.v_reg.update(
                    15,
                    if pre.v_reg[x] >= pre.v_reg[y] {
                        1u8
                    } else {
                        0u8
                    },
                ).update(x, ((256 + pre.v_reg[x] - pre.v_reg[y]) % 256) as u8),
                ..pre
            },
        )
    } else if nib1(op) == 8 && nib4(op) == 6 {
        // Shift right. Legacy mode first moves VY into VX; the shifted
        // source's low bit lands in VF after the shifted value is written.
        Ok(
            EmuView {
                v_reg: shift_right_regs(pre.v_reg, x, y, pre.cosmac),
                ..pre
            },
        )
    } else if nib1(op) == 8 && nib4(op) == 7 {
        // VY - VX: VF is 1 when there is no borrow.
        Ok(
            EmuView {
                v_reg: pre.v_reg.update(
                    15,
                    if pre.v_reg[y] >= pre.v_reg[x] {
                        1u8
                    } else {
                        0u8
                    },
                ).update(x, ((256 + pre.v_reg[y] - pre.v_reg[x]) % 256) as u8),
                ..pre
            },
        )
    } else if nib1(op) == 8 && nib4(op) == 0xE {
        // Shift left, with the same legacy-mode source selection.
        Ok(
            EmuView {
                v_reg: shift_left_regs(pre.v_reg, x, y, pre.cosmac),
                ..pre
            },
        )
    } else if nib1(op) == 9 && nib4(op) == 0 {
        // Skip if VX != VY.
        Ok(
            EmuView {
                pc: if pre.v_reg[x] != pre.v_reg[y] {
                    (pre.pc + 2) as u16
                } else {
                    pre.pc
                },
                ..pre
            },
        )
    } else if nib1(op) == 0xA {
        // Load index register.
        Ok(EmuView { i_reg: nnn, ..pre })
    } else if nib1(op) == 0xB {
        // Jump with offset: legacy mode offsets by V0, modern mode by the
        // register named by the high nibble of NNN.
        Ok(
            EmuView {
                pc: (nnn + if pre.cosmac {
                    pre.v_reg[0]
                } else {
                    pre.v_reg[x]
                }) as u16,
                ..pre
            },
        )
    } else if nib1(op) == 0xC {
        // Random byte masked by NN.
        Ok(EmuView { v_reg: pre.v_reg.update(x, (nn as u8) & rnd), ..pre })
    } else if nib1(op) == 0xD {
        // Draw sprite; VF is the collision flag of the whole draw.
        if n > 0 && pre.i_reg + n > MEM_SIZE {
            Err(EmuError::OutOfRangeAddress(pre.i_reg))
        } else {
            let xc = pre.v_reg[x] as int;
            let yc = pre.v_reg[y] as int;
            Ok(
                EmuView {
                    display: draw_display(pre.display, pre.mem, pre.i_reg as int, xc, yc, n),
                    v_reg: pre.v_reg.update(
                        15,
                        if draw_collision(pre.display, pre.mem, pre.i_reg as int, xc, yc, n) {
                            1u8
                        } else {
                            0u8
                        },
                    ),
                    ..pre
                },
            )
        }
    } else if nib1(op) == 0xE && imm8(op) == 0x9E {
        // Skip if the key named by the low nibble of VX is pressed.
        Ok(
            EmuView {
                pc: if pre.keys[(pre.v_reg[x] % 16) as int] {
                    (pre.pc + 2) as u16
                } else {
                    pre.pc
                },
                ..pre
            },
        )
    } else if nib1(op) == 0xE && imm8(op) == 0xA1 {
        // Skip if that key is not pressed.
        Ok(
            EmuView {
                pc: if !pre.keys[(pre.v_reg[x] % 16) as int] {
                    (pre.pc + 2) as u16
                } else {
                    pre.pc
                },
                ..pre
            },
        )
    } else if nib1(op) == 0xF && imm8(op) == 0x07 {
        // Read the delay timer into VX.
        Ok(EmuView { v_reg: pre.v_reg.update(x, pre.d_timer), ..pre })
    } else if nib1(op) == 0xF && imm8(op) == 0x0A {
        // Wait for a key: with no key pressed the program counter steps
        // back over the instruction, so the same word is fetched again.
        if lowest_pressed(pre.keys) < NUM_KEYS {
            Ok(EmuView { v_reg: pre.v_reg.update(x, lowest_pressed(pre.keys) as u8), ..pre })
        } else {
            Ok(EmuView { pc: at, ..pre })
        }
    } else if nib1(op) == 0xF && imm8(op) == 0x15 {
        // Load VX into the delay timer.
        Ok(EmuView { d_timer: pre.v_reg[x], ..pre })
    } else if nib1(op) == 0xF && imm8(op) == 0x18 {
        // Load VX into the sound timer.
        Ok(EmuView { s_timer: pre.v_reg[x], ..pre })
    } else if nib1(op) == 0xF && imm8(op) == 0x1E {
        // Add VX to the index register, modulo 2^16. In both modes the
        // stored 16-bit value is the same; the sum may exceed 0xFFF, and a
        // later access through it is what reports the range error.
        Ok(EmuView { i_reg: ((pre.i_reg + pre.v_reg[x]) % 0x10000) as u16, ..pre })
    } else if nib1(op) == 0xF && imm8(op) == 0x29 {
        // Font address: each glyph is five bytes from the start of memory.
        Ok(EmuView { i_reg: (5 * (pre.v_reg[x] % 16)) as u16, ..pre })
    } else if nib1(op) == 0xF && imm8(op) == 0x33 {
        // Binary-coded decimal of VX at I, I+1, I+2.
        if pre.i_reg + 2 >= MEM_SIZE {
            Err(EmuError::OutOfRangeAddress(pre.i_reg))
        } else {
            Ok(
                EmuView {
                    mem: pre.mem.update(pre.i_reg as int, pre.v_reg[x] / 100).update(
                        pre.i_reg + 1,
                        (pre.v_reg[x] / 10) % 10,
                    ).update(pre.i_reg + 2, pre.v_reg[x] % 10),
                    ..pre
                },
            )
        }
    } else if nib1(op) == 0xF && imm8(op) == 0x55 {
        // Register-block store: V0..=VX into memory from I. Legacy mode
        // leaves I past the stored block; modern mode leaves it unchanged.
        if pre.i_reg + x >= MEM_SIZE {
            Err(EmuError::OutOfRangeAddress(pre.i_reg))
        } else {
            Ok(
                EmuView {
                    mem: Seq::new(
                        pre.mem.len(),
                        |k: int|
                            if pre.i_reg <= k <= pre.i_reg + x {
                                pre.v_reg[k - pre.i_reg]
                            } else {
                                pre.mem[k]
                            },
                    ),
                    i_reg: if pre.cosmac {
                        (pre.i_reg + x + 1) as u16
                    } else {
                        pre.i_reg
                    },
                    ..pre
                },
            )
        }
    } else if nib1(op) == 0xF && imm8(op) == 0x65 {
        // Register-block load: memory from I into V0..=VX, with the same
        // legacy-mode treatment of I.
        if pre.i_reg + x >= MEM_SIZE {
            Err(EmuError::OutOfRangeAddress(pre.i_reg))
        } else {
            Ok(
                EmuView {
                    v_reg: Seq::new(
                        pre.v_reg.len(),
                        |k: int|
                            if 0 <= k <= x {
                                pre.mem[pre.i_reg + k]
                            } else {
                                pre.v_reg[k]
                            },
                    ),
                    i_reg: if pre.cosmac {
                        (pre.i_reg + x + 1) as u16
                    } else {
                        pre.i_reg
                    },
                    ..pre
                },
            )
        }
    } else {
        Err(EmuError::UnimplementedOpcode(op, at))
    }
}

/// Register file after a shift-right: in legacy mode the source is VY,
/// otherwise VX; VX takes the halved source and VF its low bit, in that
/// order.
pub open spec fn shift_right_regs(v: Seq<u8>, x: int, y: int, cosmac: bool) -> Seq<u8> {
    let src = if cosmac {
        v[y]
    } else {
        v[x]
    };
    v.update(x, src / 2).update(15, src % 2)
}

/// Register file after a shift-left: in legacy mode the source is VY,
/// otherwise VX; VX takes the doubled source modulo 256 and VF the
/// source's high bit, in that order.
pub open spec fn shift_left_regs(v: Seq<u8>, x: int, y: int, cosmac: bool) -> Seq<u8> {
    let src = if cosmac {
        v[y]
    } else {
        v[x]
    };
    v.update(x, ((src * 2) % 256) as u8).update(15, src / 128)
}

/// One instruction tick from state `pre`: fetch the big-endian word at the
/// program counter, advance the counter by two, then execute. A program
/// counter that cannot address two bytes is a range error, and an error
/// leaves no state change.
pub open spec fn spec_tick(pre: EmuView, rnd: u8) -> Result<EmuView, EmuError> {
    if pre.pc + 1 >= MEM_SIZE {
        Err(EmuError::OutOfRangeAddress(pre.pc))
    } else {
        let op = ((pre.mem[pre.pc as int] as u16) * 256 + pre.mem[pre.pc + 1]) as u16;
        spec_exec(EmuView { pc: (pre.pc + 2) as u16, ..pre }, op, rnd)
    }
}

/// Executing `op` with random byte `rnd` from `pre` succeeds and yields
/// `post`.
pub open spec fn step_to(pre: EmuView, op: u16, rnd: u8, post: EmuView) -> bool {
    spec_exec(pre, op, rnd) == Ok::<EmuView, EmuError>(post)
}

/// A whole instruction tick from `pre` with random byte `rnd` succeeds
/// and yields `post`.
pub open spec fn tick_to(pre: EmuView, rnd: u8, post: EmuView) -> bool {
    spec_tick(pre, rnd) == Ok::<EmuView, EmuError>(post)
}

} // verus!
