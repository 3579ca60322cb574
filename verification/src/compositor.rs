//! The display compositor: the executable XOR-sprite draw, proved against
//! the pointwise specification in `crate::step`, together with the
//! wraparound-coordinate lemmas the proof rests on.

use vstd::prelude::*;

use vstd::arithmetic::div_mod::lemma_add_mod_noop;
use vstd::arithmetic::div_mod::lemma_fundamental_div_mod;
use vstd::arithmetic::div_mod::lemma_fundamental_div_mod_converse_div;
use vstd::arithmetic::div_mod::lemma_fundamental_div_mod_converse_mod;
use vstd::arithmetic::div_mod::lemma_mod_add_multiples_vanish;
use vstd::arithmetic::div_mod::lemma_mod_bound;
use vstd::arithmetic::div_mod::lemma_mod_sub_multiples_vanish;
use vstd::arithmetic::div_mod::lemma_small_mod;

use crate::state::MEM_SIZE;
use crate::state::SCREEN_HEIGHT;
use crate::state::SCREEN_WIDTH;
use crate::step::collided_prefix;
use crate::step::draw_collision;
use crate::step::draw_display;
use crate::step::dx_of;
use crate::step::dy_of;
use crate::step::sprite_bit;
use crate::step::sprite_hit;
use crate::step::touched_prefix;

verus! {

/// Wrapping a distance `r < m` from `base` and taking the wrapped distance
/// back recovers `r`.
proof fn lemma_wrap_unwrap(base: int, r: int, m: int)
    requires
        base >= 0,
        0 <= r < m,
    ensures
        0 <= (base + r) % m < m,
        ((base + r) % m - base % m + m) % m == r,
{
    let e = base % m;
    lemma_mod_bound(base, m);
    lemma_small_mod(r as nat, m as nat);
    lemma_add_mod_noop(base, r, m);
    assert((base + r) % m == (e + r) % m);
    if e + r < m {
        lemma_small_mod((e + r) as nat, m as nat);
        assert((base + r) % m == e + r);
        lemma_mod_add_multiples_vanish(r, m);
        assert((e + r - e + m) % m == r % m);
    } else {
        lemma_mod_sub_multiples_vanish(e + r, m);
        lemma_small_mod((e + r - m) as nat, m as nat);
        assert((base + r) % m == e + r - m);
        assert((e + r - m - e + m) % m == r % m);
    }
}

/// The wrapped distance from `base` to a position `p < m` is the unique
/// offset that wraps from `base` back onto `p`.
proof fn lemma_unwrap_wrap(base: int, p: int, m: int)
    requires
        base >= 0,
        0 <= p < m,
    ensures
        0 <= (p - base % m + m) % m < m,
        (base + ((p - base % m + m) % m)) % m == p,
{
    let e = base % m;
    lemma_mod_bound(base, m);
    lemma_small_mod(p as nat, m as nat);
    let dy = (p - e + m) % m;
    if p >= e {
        lemma_mod_sub_multiples_vanish(p - e + m, m);
        lemma_small_mod((p - e) as nat, m as nat);
        assert(dy == p - e);
        lemma_add_mod_noop(base, p - e, m);
        lemma_small_mod((p - e) as nat, m as nat);
        assert((base + dy) % m == (e + (p - e)) % m);
        assert((base + dy) % m == p % m);
    } else {
        lemma_small_mod((p - e + m) as nat, m as nat);
        assert(dy == p - e + m);
        lemma_add_mod_noop(base, p - e + m, m);
        lemma_small_mod((p - e + m) as nat, m as nat);
        assert((base + dy) % m == (e + (p - e + m)) % m);
        lemma_mod_add_multiples_vanish(p, m);
        assert((base + dy) % m == p % m);
    }
}

/// Sprite bit (`r`, `c`) lands on the screen position whose wrapped
/// distances from the sprite corner are exactly (`r`, `c`).
pub(crate) proof fn lemma_draw_maps(x0: int, y0: int, r: int, c: int)
    requires
        x0 >= 0,
        y0 >= 0,
        0 <= r < 32,
        0 <= c < 64,
    ensures
        0 <= (x0 + c) % 64 < 64,
        0 <= (y0 + r) % 32 < 32,
        dx_of(x0, (x0 + c) % 64) == c,
        dy_of(y0, (y0 + r) % 32) == r,
{
    lemma_wrap_unwrap(x0, c, 64);
    lemma_wrap_unwrap(y0, r, 32);
}

/// A screen position is recovered from its wrapped distances: the draw
/// mapping from sprite coordinates to pixels is a bijection on each axis.
pub(crate) proof fn lemma_draw_unmaps(x0: int, y0: int, px: int, py: int)
    requires
        x0 >= 0,
        y0 >= 0,
        0 <= px < 64,
        0 <= py < 32,
    ensures
        0 <= dx_of(x0, px) < 64,
        0 <= dy_of(y0, py) < 32,
        (x0 + dx_of(x0, px)) % 64 == px,
        (y0 + dy_of(y0, py)) % 32 == py,
{
    lemma_unwrap_wrap(x0, px, 64);
    lemma_unwrap_wrap(y0, py, 32);
}

/// Row-major indexing: a pixel index below 2048 splits uniquely into its
/// row and column, and conversely.
pub(crate) proof fn lemma_pix_index(px: int, py: int)
    requires
        0 <= px < 64,
        0 <= py < 32,
    ensures
        0 <= py * 64 + px < 2048,
        (py * 64 + px) % 64 == px,
        (py * 64 + px) / 64 == py,
{
    lemma_fundamental_div_mod_converse_mod(py * 64 + px, 64, py, px);
    lemma_fundamental_div_mod_converse_div(py * 64 + px, 64, py, px);
}

/// Extending a partial collision check by one more sprite bit adds
/// exactly the collision event of that bit.
proof fn lemma_collided_step(
    disp: Seq<bool>,
    mem: Seq<u8>,
    i: int,
    x0: int,
    y0: int,
    r: int,
    c: int,
)
    requires
        0 <= r,
        0 <= c < 8,
    ensures
        collided_prefix(disp, mem, i, x0, y0, r, c + 1) <==> (collided_prefix(
            disp,
            mem,
            i,
            x0,
            y0,
            r,
            c,
        ) || sprite_hit(disp, mem, i, x0, y0, r, c)),
{
    if collided_prefix(disp, mem, i, x0, y0, r, c + 1) {
        let (rr, cc): (int, int) = choose|rr: int, cc: int|
            (rr < r || (rr == r && cc < c + 1)) && #[trigger] sprite_hit(
                disp,
                mem,
                i,
                x0,
                y0,
                rr,
                cc,
            );
        if !(rr == r && cc == c) {
            assert((rr < r || (rr == r && cc < c)) && sprite_hit(disp, mem, i, x0, y0, rr, cc));
        }
    }
    if collided_prefix(disp, mem, i, x0, y0, r, c) {
        let (rr, cc): (int, int) = choose|rr: int, cc: int|
            (rr < r || (rr == r && cc < c)) && #[trigger] sprite_hit(disp, mem, i, x0, y0, rr, cc);
        assert((rr < r || (rr == r && cc < c + 1)) && sprite_hit(disp, mem, i, x0, y0, rr, cc));
    }
    if sprite_hit(disp, mem, i, x0, y0, r, c) {
        assert((r < r || (r == r && c < c + 1)) && sprite_hit(disp, mem, i, x0, y0, r, c));
    }
}

/// A collision check over all eight columns of a row is the same as one
/// over zero columns of the next row.
proof fn lemma_collided_row_end(disp: Seq<bool>, mem: Seq<u8>, i: int, x0: int, y0: int, r: int)
    requires
        0 <= r,
    ensures
        collided_prefix(disp, mem, i, x0, y0, r, 8) <==> collided_prefix(
            disp,
            mem,
            i,
            x0,
            y0,
            r + 1,
            0,
        ),
{
    if collided_prefix(disp, mem, i, x0, y0, r, 8) {
        let (rr, cc): (int, int) = choose|rr: int, cc: int|
            (rr < r || (rr == r && cc < 8)) && #[trigger] sprite_hit(disp, mem, i, x0, y0, rr, cc);
        assert((rr < r + 1 || (rr == r + 1 && cc < 0)) && sprite_hit(disp, mem, i, x0, y0, rr, cc));
    }
    if collided_prefix(disp, mem, i, x0, y0, r + 1, 0) {
        let (rr, cc): (int, int) = choose|rr: int, cc: int|
            (rr < r + 1 || (rr == r + 1 && cc < 0)) && #[trigger] sprite_hit(
                disp,
                mem,
                i,
                x0,
                y0,
                rr,
                cc,
            );
        assert((rr < r || (rr == r && cc < 8)) && sprite_hit(disp, mem, i, x0, y0, rr, cc));
    }
}

/// XOR-composites an `n`-row sprite read from `mem` at `i` onto `disp`
/// with its top-left corner at (`x0`, `y0`), both axes wrapped per pixel.
/// Returns the collision flag of the whole draw, judged against the
/// display as it was on entry.
pub fn xor_sprite(disp: &mut Vec<bool>, mem: &Vec<u8>, i: usize, x0: u8, y0: u8, n: u8) -> (col:
    bool)
    requires
        old(disp)@.len() == SCREEN_WIDTH * SCREEN_HEIGHT,
        mem@.len() == MEM_SIZE,
        n <= 15,
        n > 0 ==> i + n <= MEM_SIZE,
    ensures
        final(disp)@ == draw_display(old(disp)@, mem@, i as int, x0 as int, y0 as int, n as int),
        col == draw_collision(old(disp)@, mem@, i as int, x0 as int, y0 as int, n as int),
{
    let mut flipped = false;
    for r in 0..n
        invariant
            disp@.len() == SCREEN_WIDTH * SCREEN_HEIGHT,
            mem@.len() == MEM_SIZE,
            n <= 15,
            n > 0 ==> i + n <= MEM_SIZE,
            forall|idx: int|
                0 <= idx < 2048 ==> disp@[idx] == (old(disp)@[idx] ^ touched_prefix(
                    mem@,
                    i as int,
                    x0 as int,
                    y0 as int,
                    r as int,
                    0,
                    idx % 64,
                    idx / 64,
                )),
            flipped == collided_prefix(
                old(disp)@,
                mem@,
                i as int,
                x0 as int,
                y0 as int,
                r as int,
                0,
            ),
    {
        let row_byte = mem[i + r as usize];
        for c in 0..8u8
            invariant
                disp@.len() == SCREEN_WIDTH * SCREEN_HEIGHT,
                mem@.len() == MEM_SIZE,
                n <= 15,
                r < n,
                i + n <= MEM_SIZE,
                row_byte == mem@[i + r],
                forall|idx: int|
                    0 <= idx < 2048 ==> disp@[idx] == (old(disp)@[idx] ^ touched_prefix(
                        mem@,
                        i as int,
                        x0 as int,
                        y0 as int,
                        r as int,
                        c as int,
                        idx % 64,
                        idx / 64,
                    )),
                flipped == collided_prefix(
                    old(disp)@,
                    mem@,
                    i as int,
                    x0 as int,
                    y0 as int,
                    r as int,
                    c as int,
                ),
        {
            let ghost mem_s = mem@;
            let ghost disp0 = old(disp)@;
            let ghost xi = x0 as int;
            let ghost yi = y0 as int;
            let ghost ri = r as int;
            let ghost ci = c as int;
            if row_byte & (0x80u8 >> c) != 0 {
                let px = (x0 as usize + c as usize) % SCREEN_WIDTH;
                let py = (y0 as usize + r as usize) % SCREEN_HEIGHT;
                let idx = px + SCREEN_WIDTH * py;
                proof {
                    lemma_draw_maps(xi, yi, ri, ci);
                    lemma_pix_index(px as int, py as int);
                    assert(sprite_bit(mem_s[i + ri], ci));
                    // The bit being placed now is not part of the prefix
                    // already applied, so this pixel still shows its
                    // original state.
                    assert(!touched_prefix(mem_s, i as int, xi, yi, ri, ci, px as int, py as int));
                    assert(disp@[idx as int] == disp0[idx as int]);
                }
                let was = disp[idx];
                flipped = flipped || was;
                disp.set(idx, !was);
                proof {
                    lemma_collided_step(disp0, mem_s, i as int, xi, yi, ri, ci);
                    assert(sprite_hit(disp0, mem_s, i as int, xi, yi, ri, ci) == was);
                    assert forall|j: int| 0 <= j < 2048 implies disp@[j] == (disp0[j]
                        ^ touched_prefix(
                        mem_s,
                        i as int,
                        xi,
                        yi,
                        ri,
                        ci + 1,
                        j % 64,
                        j / 64,
                    )) by {
                        lemma_mod_bound(j, 64);
                        lemma_fundamental_div_mod(j, 64);
                        let pj = j % 64;
                        let qj = j / 64;
                        lemma_draw_unmaps(xi, yi, pj, qj);
                        if j == idx as int {
                            assert(dx_of(xi, pj) == ci && dy_of(yi, qj) == ri);
                        } else {
                            // A pixel other than the one just flipped has
                            // different wrapped distances, so its prefix
                            // membership is unchanged.
                            if dx_of(xi, pj) == ci && dy_of(yi, qj) == ri {
                                assert(pj == (xi + ci) % 64 && qj == (yi + ri) % 32);
                                assert(j == qj * 64 + pj);
                                assert(false);
                            }
                        }
                    }
                }
            } else {
                proof {
                    lemma_collided_step(disp0, mem_s, i as int, xi, yi, ri, ci);
                    assert(!sprite_bit(mem_s[i + ri], ci));
                    assert(!sprite_hit(disp0, mem_s, i as int, xi, yi, ri, ci));
                    assert forall|j: int| 0 <= j < 2048 implies disp@[j] == (disp0[j]
                        ^ touched_prefix(
                        mem_s,
                        i as int,
                        xi,
                        yi,
                        ri,
                        ci + 1,
                        j % 64,
                        j / 64,
                    )) by {
                        lemma_mod_bound(j, 64);
                        lemma_fundamental_div_mod(j, 64);
                        lemma_draw_unmaps(xi, yi, j % 64, j / 64);
                    }
                }
            }
        }
        proof {
            lemma_collided_row_end(
                old(disp)@,
                mem@,
                i as int,
                x0 as int,
                y0 as int,
                r as int,
            );
        }
    }
    proof {
        assert(disp@ =~= draw_display(
            old(disp)@,
            mem@,
            i as int,
            x0 as int,
            y0 as int,
            n as int,
        ));
    }
    flipped
}

} // verus!
