//! Laws of the machine: properties that relate several operations or
//! several calls, stated over the step functions and proved once for all
//! inputs.

use vstd::prelude::*;

use vstd::arithmetic::div_mod::lemma_mod_bound;

use crate::compositor::lemma_draw_maps;
use crate::compositor::lemma_pix_index;
use crate::error::EmuError;
use crate::state::EmuView;
use crate::state::MEM_SIZE;
use crate::state::NUM_V;
use crate::state::SCREEN_HEIGHT;
use crate::state::SCREEN_WIDTH;
use crate::step::draw_collision;
use crate::step::draw_display;
use crate::step::imm8;
use crate::step::nib1;
use crate::step::nib2;
use crate::step::shift_left_regs;
use crate::step::shift_right_regs;
use crate::step::spec_exec;
use crate::step::spec_tick;
use crate::step::spec_tick_timers;
use crate::step::sprite_bit;
use crate::step::sprite_hit;
use crate::step::sprite_nonblank;
use crate::step::touched_prefix;

verus! {

/// Drawing a sprite twice at identical coordinates on an initially clear
/// framebuffer raises no collision the first time, restores every pixel to
/// clear, and reports a collision the second time exactly when the sprite
/// has a set bit at all.
pub proof fn lemma_double_draw(disp: Seq<bool>, mem: Seq<u8>, i: int, x0: int, y0: int, n: int)
    requires
        disp.len() == SCREEN_WIDTH * SCREEN_HEIGHT,
        forall|k: int| 0 <= k < disp.len() ==> !disp[k],
        i >= 0,
        x0 >= 0,
        y0 >= 0,
        0 <= n <= 15,
    ensures
        !draw_collision(disp, mem, i, x0, y0, n),
        draw_display(draw_display(disp, mem, i, x0, y0, n), mem, i, x0, y0, n) == disp,
        draw_collision(draw_display(disp, mem, i, x0, y0, n), mem, i, x0, y0, n)
            <==> sprite_nonblank(mem, i, n),
{
    let d1 = draw_display(disp, mem, i, x0, y0, n);
    assert forall|r: int, c: int| !sprite_hit(disp, mem, i, x0, y0, r, c) by {
        if 0 <= r && 0 <= c < 8 {
            lemma_mod_bound(y0 + r, 32);
            lemma_mod_bound(x0 + c, 64);
            assert(0 <= ((y0 + r) % 32) * 64 + (x0 + c) % 64 < 2048);
            assert(!disp[((y0 + r) % 32) * 64 + (x0 + c) % 64]);
        }
    }
    assert(!draw_collision(disp, mem, i, x0, y0, n));
    assert(draw_display(d1, mem, i, x0, y0, n) =~= disp);
    if sprite_nonblank(mem, i, n) {
        let (r, c): (int, int) = choose|r: int, c: int|
            0 <= r < n && 0 <= c < 8 && #[trigger] sprite_bit(mem[i + r], c);
        lemma_draw_maps(x0, y0, r, c);
        let px = (x0 + c) % 64;
        let py = (y0 + r) % 32;
        lemma_pix_index(px, py);
        let idx = py * 64 + px;
        assert(touched_prefix(mem, i, x0, y0, n, 0, idx % 64, idx / 64));
        assert(d1[idx]);
        assert(sprite_hit(d1, mem, i, x0, y0, r, c));
        assert((r < n || (r == n && c < 0)) && sprite_hit(d1, mem, i, x0, y0, r, c));
    }
    if draw_collision(d1, mem, i, x0, y0, n) {
        let (r, c): (int, int) = choose|r: int, c: int|
            (r < n || (r == n && c < 0)) && #[trigger] sprite_hit(d1, mem, i, x0, y0, r, c);
        assert(0 <= r < n && 0 <= c < 8 && sprite_bit(mem[i + r], c));
    }
}

/// The shift-right family: VX takes the halved source and VF the source's
/// low bit, where the source is VY in legacy mode and VX otherwise; every
/// other register is untouched, and in legacy mode the result does not
/// depend on the prior value of VX.
pub proof fn lemma_shift_right_semantics(v: Seq<u8>, x: int, y: int, cosmac: bool)
    requires
        v.len() == NUM_V,
        0 <= x < NUM_V,
        0 <= y < NUM_V,
    ensures
        shift_right_regs(v, x, y, cosmac).len() == NUM_V,
        shift_right_regs(v, x, y, cosmac)[15] == (if cosmac {
            v[y]
        } else {
            v[x]
        }) % 2,
        x != 15 ==> shift_right_regs(v, x, y, cosmac)[x] == (if cosmac {
            v[y]
        } else {
            v[x]
        }) / 2,
        forall|j: int|
            0 <= j < NUM_V && j != x && j != 15 ==> shift_right_regs(v, x, y, cosmac)[j] == v[j],
        cosmac && x != y ==> forall|w: u8| #![auto]
            shift_right_regs(v.update(x, w), x, y, true) =~= shift_right_regs(v, x, y, true),
{
    if cosmac && x != y {
        assert forall|w: u8| #![auto]
            shift_right_regs(v.update(x, w), x, y, true) =~= shift_right_regs(
                v,
                x,
                y,
                true,
            ) by {
            assert(v.update(x, w)[y] == v[y]);
        }
    }
}

/// The shift-left family: VX takes the doubled source modulo 256 and VF
/// the source's high bit, with the same legacy-mode source selection and
/// the same independence from the prior VX.
pub proof fn lemma_shift_left_semantics(v: Seq<u8>, x: int, y: int, cosmac: bool)
    requires
        v.len() == NUM_V,
        0 <= x < NUM_V,
        0 <= y < NUM_V,
    ensures
        shift_left_regs(v, x, y, cosmac).len() == NUM_V,
        shift_left_regs(v, x, y, cosmac)[15] == (if cosmac {
            v[y]
        } else {
            v[x]
        }) / 128,
        x != 15 ==> shift_left_regs(v, x, y, cosmac)[x] == ((if cosmac {
            v[y]
        } else {
            v[x]
        }) * 2) % 256,
        forall|j: int|
            0 <= j < NUM_V && j != x && j != 15 ==> shift_left_regs(v, x, y, cosmac)[j] == v[j],
        cosmac && x != y ==> forall|w: u8| #![auto]
            shift_left_regs(v.update(x, w), x, y, true) =~= shift_left_regs(v, x, y, true),
{
    if cosmac && x != y {
        assert forall|w: u8| #![auto]
            shift_left_regs(v.update(x, w), x, y, true) =~= shift_left_regs(v, x, y, true) by {
            assert(v.update(x, w)[y] == v[y]);
        }
    }
}

/// The arithmetic form of the shifts agrees with the conventional bit
/// form: halving is a right shift, the low bit is a mask by one, doubling
/// modulo 256 is a left shift, and the high bit is the seventh.
pub proof fn lemma_shift_matches_bits(b: u8)
    by (bit_vector)
    ensures
        b / 2 == b >> 1u8,
        b % 2 == b & 1,
        ((b * 2) % 256) as u8 == b << 1u8,
        b / 128 == (b >> 7u8) & 1,
{
}

/// The timer floor: a tick decrements each counter by exactly one unit
/// until it reaches zero, and a counter already at zero is left at zero,
/// so repeated ticks never wrap it negative.
pub proof fn lemma_timer_floor(pre: EmuView)
    ensures
        spec_tick_timers(pre).d_timer == if pre.d_timer > 0 {
            (pre.d_timer - 1) as u8
        } else {
            0u8
        },
        spec_tick_timers(pre).s_timer == if pre.s_timer > 0 {
            (pre.s_timer - 1) as u8
        } else {
            0u8
        },
        pre.d_timer == 0 ==> spec_tick_timers(pre).d_timer == 0,
        pre.s_timer == 0 ==> spec_tick_timers(pre).s_timer == 0,
{
}

/// A return executed with an empty call stack reports a stack underflow.
/// By the tick contract an error changes nothing, so the program counter
/// is left unmodified.
pub proof fn lemma_return_underflow(pre: EmuView, rnd: u8)
    requires
        pre.wf(),
        pre.stack.len() == 0,
        pre.pc + 1 < MEM_SIZE,
        pre.mem[pre.pc as int] == 0x00u8,
        pre.mem[pre.pc + 1] == 0xEEu8,
    ensures
        spec_tick(pre, rnd) == Err::<EmuView, EmuError>(EmuError::StackUnderflow),
{
}

/// Only the random-number family reads the random byte: every other
/// instruction steps to the same state whatever byte was drawn.
pub proof fn lemma_step_rand_independent(pre: EmuView, op: u16, r1: u8, r2: u8)
    requires
        nib1(op) != 0xC,
    ensures
        spec_exec(pre, op, r1) == spec_exec(pre, op, r2),
{
}

/// The same, lifted to a whole tick: unless the fetched word belongs to
/// the random-number family, the tick's outcome does not depend on the
/// byte the random source returns.
pub proof fn lemma_tick_rand_independent(pre: EmuView, r1: u8, r2: u8)
    requires
        pre.pc + 1 < MEM_SIZE ==> nib1(
            ((pre.mem[pre.pc as int] as u16) * 256 + pre.mem[pre.pc + 1]) as u16,
        ) != 0xC,
    ensures
        spec_tick(pre, r1) == spec_tick(pre, r2),
{
    if pre.pc + 1 < MEM_SIZE {
        let op = ((pre.mem[pre.pc as int] as u16) * 256 + pre.mem[pre.pc + 1]) as u16;
        let shifted = EmuView { pc: (pre.pc + 2) as u16, ..pre };
        lemma_step_rand_independent(shifted, op, r1, r2);
    }
}

/// A register-block store followed by a register-block load for the same
/// X restores V0..=VX — in modern mode with no handling of the index
/// register between the calls, since the store leaves it unchanged.
pub proof fn lemma_store_load_round_trip(pre: EmuView, sop: u16, lop: u16, rnd: u8)
    requires
        pre.wf(),
        !pre.cosmac,
        nib1(sop) == 0xF,
        imm8(sop) == 0x55,
        nib1(lop) == 0xF,
        imm8(lop) == 0x65,
        nib2(lop) == nib2(sop),
        pre.i_reg + nib2(sop) < MEM_SIZE,
    ensures
        spec_exec(pre, sop, rnd) is Ok,
        spec_exec(pre, sop, rnd)->Ok_0.i_reg == pre.i_reg,
        spec_exec(spec_exec(pre, sop, rnd)->Ok_0, lop, rnd) is Ok,
        spec_exec(spec_exec(pre, sop, rnd)->Ok_0, lop, rnd)->Ok_0.v_reg == pre.v_reg,
{
    let s1 = spec_exec(pre, sop, rnd)->Ok_0;
    let s2 = spec_exec(s1, lop, rnd)->Ok_0;
    assert(s2.v_reg =~= pre.v_reg);
}

/// In legacy mode the store advances the index register past the block,
/// so the register file is restored only if the index register is put
/// back between the two operations.
pub proof fn lemma_store_load_round_trip_legacy(pre: EmuView, sop: u16, lop: u16, rnd: u8)
    requires
        pre.wf(),
        pre.cosmac,
        nib1(sop) == 0xF,
        imm8(sop) == 0x55,
        nib1(lop) == 0xF,
        imm8(lop) == 0x65,
        nib2(lop) == nib2(sop),
        pre.i_reg + nib2(sop) < MEM_SIZE,
    ensures
        spec_exec(pre, sop, rnd) is Ok,
        spec_exec(pre, sop, rnd)->Ok_0.i_reg == pre.i_reg + nib2(sop) + 1,
        ({
            let rewound = EmuView { i_reg: pre.i_reg, ..spec_exec(pre, sop, rnd)->Ok_0 };
            &&& spec_exec(rewound, lop, rnd) is Ok
            &&& spec_exec(rewound, lop, rnd)->Ok_0.v_reg == pre.v_reg
        }),
{
    let s1 = spec_exec(pre, sop, rnd)->Ok_0;
    let rewound = EmuView { i_reg: pre.i_reg, ..s1 };
    let s2 = spec_exec(rewound, lop, rnd)->Ok_0;
    assert(s2.v_reg =~= pre.v_reg);
}

} // verus!
