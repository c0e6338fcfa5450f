//! Machine-wide laws of the instruction set, proved from the transition
//! relations in [`crate::step`] alone: whatever body satisfies those
//! relations satisfies these laws.

use vstd::prelude::*;

use crate::isa::{lemma_operand_bounds, op_kk, op_n, op_x, op_y, spec_decode, Fault, Instr};
use crate::step::{
    add_vx_vy_rel, call_rel, cycle_rel, drw_any_bit, drw_bit, drw_collides_upto, drw_hits,
    drw_hits_upto, drw_rel, drw_target, fetch_ok, fetch_word, ins_rel, ld_b_rel, pix_index,
    ret_rel, rnd_rel, same_state, se_rel, sknp_rel, sne_rel, spec_guard, sub_vx_vy_rel, timer_rel,
};
use crate::vm::VM;

verus! {

/// `ADD Vx, Vy` sets `VF` to 1 exactly when the unsigned sum exceeds 255,
/// and leaves the low 8 bits of the sum in `Vx` — for every pair of
/// registers other than `VF` itself as destination, whose dual role as
/// the carry flag makes the flag and the sum collide there.
pub proof fn lemma_add_sets_carry(op: u16, a: VM, b: VM)
    requires
        a.wf(),
        add_vx_vy_rel(op, a, b),
        op_x(op) != 15,
    ensures
        b.v@[15] == 1u8 <==> a.v@[op_x(op) as int] + a.v@[op_y(op) as int] > 255,
        b.v@[15] == 1u8 || b.v@[15] == 0u8,
        b.v@[op_x(op) as int] == (a.v@[op_x(op) as int] + a.v@[op_y(op) as int]) % 256,
{
    lemma_operand_bounds(op);
    let sum = a.v@[op_x(op) as int] + a.v@[op_y(op) as int];
    if sum > 255 {
        assert(sum % 256 == sum - 256) by {
            vstd::arithmetic::div_mod::lemma_mod_sub_multiples_vanish(sum, 256);
            vstd::arithmetic::div_mod::lemma_small_mod((sum - 256) as nat, 256nat);
        }
    } else {
        vstd::arithmetic::div_mod::lemma_small_mod(sum as nat, 256nat);
    }
}

/// `SUB Vx, Vy` sets `VF` to 1 exactly when `Vx > Vy` before the
/// subtraction, and wraps `Vx` on underflow — for every pair of registers
/// other than `VF` itself as destination.
pub proof fn lemma_sub_sets_borrow(op: u16, a: VM, b: VM)
    requires
        a.wf(),
        sub_vx_vy_rel(op, a, b),
        op_x(op) != 15,
    ensures
        b.v@[15] == 1u8 <==> a.v@[op_x(op) as int] > a.v@[op_y(op) as int],
        b.v@[15] == 1u8 || b.v@[15] == 0u8,
        a.v@[op_x(op) as int] >= a.v@[op_y(op) as int] ==> b.v@[op_x(op) as int] == a.v@[op_x(
            op,
        ) as int] - a.v@[op_y(op) as int],
        a.v@[op_x(op) as int] < a.v@[op_y(op) as int] ==> b.v@[op_x(op) as int] == a.v@[op_x(
            op,
        ) as int] - a.v@[op_y(op) as int] + 256,
{
    lemma_operand_bounds(op);
}

/// `CALL addr` followed by `RET` brings the program counter to the
/// call-site counter plus 2 and restores the stack pointer and every live
/// stack slot, at any legal call depth (a free slot for the call).
pub proof fn lemma_call_then_ret(op: u16, a: VM, b: VM, c: VM)
    requires
        a.wf(),
        a.sp < 16,
        call_rel(op, a, b),
        ret_rel(b, c),
    ensures
        c.pc == a.pc + 2,
        c.sp == a.sp,
        forall|j: int| 0 <= j < a.sp ==> c.stack@[j] == a.stack@[j],
{
}

/// `LD B, Vx` writes exactly the three decimal digits of `Vx`, most
/// significant first: each written cell is a digit, and the digits
/// recompose to `Vx`.
pub proof fn lemma_bcd_digits(op: u16, a: VM, b: VM)
    requires
        a.wf(),
        a.i + 3 <= 4096,
        ld_b_rel(op, a, b),
    ensures
        b.memory@[a.i as int] == a.v@[op_x(op) as int] / 100,
        b.memory@[a.i + 1] == (a.v@[op_x(op) as int] / 10) % 10,
        b.memory@[a.i + 2] == a.v@[op_x(op) as int] % 10,
        b.memory@[a.i as int] <= 2,
        b.memory@[a.i + 1] <= 9,
        b.memory@[a.i + 2] <= 9,
        b.memory@[a.i as int] * 100 + b.memory@[a.i + 1] * 10 + b.memory@[a.i + 2] == a.v@[op_x(
            op,
        ) as int],
{
    lemma_operand_bounds(op);
    let vx = a.v@[op_x(op) as int];
    assert((vx % 100) % 10 == vx % 10) by (bit_vector);
    assert(vx / 100 <= 2) by (bit_vector);
    assert((vx / 10) % 10 <= 9) by (bit_vector);
    assert(vx % 10 <= 9) by (bit_vector);
    assert((vx / 100) * 100 + ((vx / 10) % 10) * 10 + vx % 10 == vx) by (bit_vector);
}

/// Drawing the same sprite twice at the same location is an involution:
/// the framebuffer returns to what it was before the first draw, every
/// register but `VF` keeps its value, and when the affected cells started
/// dark and the sprite has any set bit, the second draw reports the
/// self-collision in `VF`. Stated for sprites whose coordinate registers
/// are not `VF` itself, which the first draw overwrites.
pub proof fn lemma_drw_involution(op: u16, a: VM, b: VM, c: VM)
    requires
        a.wf(),
        op_x(op) != 15,
        op_y(op) != 15,
        drw_rel(op, a, b),
        drw_rel(op, b, c),
    ensures
        c.gfx@ == a.gfx@,
        forall|j: int| 0 <= j < 16 && j != 15 ==> c.v@[j] == a.v@[j],
        (drw_any_bit(op, a) && (forall|p: int|
            drw_hits(op, a, p) ==> a.gfx@[p] == 0)) ==> c.v@[15] == 1u8,
{
    lemma_operand_bounds(op);
    assert(b.v@[op_x(op) as int] == a.v@[op_x(op) as int]);
    assert(b.v@[op_y(op) as int] == a.v@[op_y(op) as int]);
    assert forall|r: int, c_: int|
        #[trigger] drw_bit(op, b, r, c_) == drw_bit(op, a, r, c_) && #[trigger] drw_target(
            op,
            b,
            r,
            c_,
        ) == drw_target(op, a, r, c_) by {
        assert(b.memory@ == a.memory@);
        assert(b.i == a.i);
    }
    assert forall|p: int| #[trigger] drw_hits(op, b, p) == drw_hits(op, a, p) by {
        if drw_hits(op, b, p) {
            let (r, c_) = choose|r: int, c_: int|
                0 <= r && 0 <= c_ < 8 && (r < op_n(op) as int || (r == op_n(op) as int && c_ < 0))
                    && drw_bit(op, b, r, c_) && drw_target(op, b, r, c_) == p;
            assert(drw_bit(op, a, r, c_));
            assert(drw_hits_upto(op, a, p, op_n(op) as int, 0));
        }
        if drw_hits(op, a, p) {
            let (r, c_) = choose|r: int, c_: int|
                0 <= r && 0 <= c_ < 8 && (r < op_n(op) as int || (r == op_n(op) as int && c_ < 0))
                    && drw_bit(op, a, r, c_) && drw_target(op, a, r, c_) == p;
            assert(drw_bit(op, b, r, c_));
            assert(drw_hits_upto(op, b, p, op_n(op) as int, 0));
        }
    }
    assert forall|p: int| 0 <= p < a.gfx@.len() implies c.gfx@[p] == a.gfx@[p] by {
        assert(a.gfx@[p] <= 1);
        if drw_hits(op, a, p) {
            assert(b.gfx@[p] == (1 - a.gfx@[p]) as u8);
            assert(c.gfx@[p] == (1 - b.gfx@[p]) as u8);
        }
    }
    assert(c.gfx@ =~= a.gfx@);
    if drw_any_bit(op, a) && (forall|p: int| drw_hits(op, a, p) ==> a.gfx@[p] == 0) {
        let (r, c_) = choose|r: int, c_: int|
            0 <= r < op_n(op) as int && 0 <= c_ < 8 && drw_bit(op, a, r, c_);
        let q = drw_target(op, a, r, c_);
        assert(drw_hits_upto(op, a, q, op_n(op) as int, 0));
        assert(a.gfx@[q] == 0);
        assert(0 <= q < 2048) by {
            lemma_pix_index_bounds(
                a.v@[op_x(op) as int],
                a.v@[op_y(op) as int],
                r,
                c_,
            );
        }
        assert(b.gfx@[q] == 1);
        assert(drw_bit(op, b, r, c_));
        assert(drw_collides_upto(op, b, op_n(op) as int, 0));
    }
}

/// Every sprite bit lands inside the 2048-cell framebuffer.
pub proof fn lemma_pix_index_bounds(vx: u8, vy: u8, row: int, col: int)
    requires
        0 <= row,
        0 <= col,
    ensures
        0 <= pix_index(vx, vy, row, col) < 2048,
{
    vstd::arithmetic::div_mod::lemma_mod_bound((vx + col) + (vy + row) * 64, 2048);
}

/// A sprite bit past column 63 does not wrap within its own row: the
/// combined index carries it to the start of the following row.
pub proof fn lemma_x_overrun_bleeds(vx: u8, vy: u8, row: int, col: int)
    requires
        0 <= row < 16,
        0 <= col < 8,
        64 <= vx + col < 128,
        0 <= vy + row < 31,
    ensures
        pix_index(vx, vy, row, col) == (vx + col - 64) + ((vy + row) + 1) * 64,
{
    let w = (vx + col - 64) + ((vy + row) + 1) * 64;
    assert((vx + col) + (vy + row) * 64 == w);
    vstd::arithmetic::div_mod::lemma_small_mod(w as nat, 2048nat);
}

/// A sprite bit past row 31 wraps to the top of the screen: the combined
/// index is reduced by the whole framebuffer size.
pub proof fn lemma_y_overrun_wraps(vx: u8, vy: u8, row: int, col: int)
    requires
        0 <= row < 16,
        0 <= col < 8,
        vx + col < 64,
        32 <= vy + row < 64,
    ensures
        pix_index(vx, vy, row, col) == (vx + col) + ((vy + row) - 32) * 64,
{
    let u = (vx + col) + (vy + row) * 64;
    let w = (vx + col) + ((vy + row) - 32) * 64;
    assert(u == w + 2048);
    vstd::arithmetic::div_mod::lemma_mod_sub_multiples_vanish(u, 2048);
    vstd::arithmetic::div_mod::lemma_small_mod(w as nat, 2048nat);
}

/// The skip instructions advance the program counter by exactly 4 on a
/// taken branch and exactly 2 otherwise, and the two outcomes are the
/// only ones.
pub proof fn lemma_skip_strides(op: u16, a: VM, b: VM)
    requires
        se_rel(op, a, b) || sne_rel(op, a, b) || sknp_rel(op, a, b),
    ensures
        b.pc == a.pc + 2 || b.pc == a.pc + 4,
        se_rel(op, a, b) ==> (b.pc == a.pc + 4 <==> a.v@[op_x(op) as int] == op_kk(op)),
        sne_rel(op, a, b) ==> (b.pc == a.pc + 4 <==> a.v@[op_x(op) as int] != op_kk(op)),
        sknp_rel(op, a, b) ==> (b.pc == a.pc + 4 <==> a.key@[a.v@[op_x(op) as int] as int] == 0),
{
}

/// A delay timer at zero stays at zero across a cycle, unless the cycle's
/// own instruction is `LD DT, Vx`, the one write to it; in particular the
/// timer never steps below zero.
pub proof fn lemma_delay_timer_floor(pre: VM, post: VM, r: Result<(), Fault>)
    requires
        cycle_rel(pre, post, r),
        pre.delay_timer == 0,
        spec_decode(fetch_word(pre)) != Some(Instr::LdDtVx),
    ensures
        post.delay_timer == 0,
{
    lemma_timer_unmoved(pre, post, r);
}

/// A sound timer at zero stays at zero across a cycle, unless the cycle's
/// own instruction is `LD ST, Vx`, the one write to it; in particular the
/// timer never steps below zero.
pub proof fn lemma_sound_timer_floor(pre: VM, post: VM, r: Result<(), Fault>)
    requires
        cycle_rel(pre, post, r),
        pre.sound_timer == 0,
        spec_decode(fetch_word(pre)) != Some(Instr::LdStVx),
    ensures
        post.sound_timer == 0,
{
    lemma_timer_unmoved(pre, post, r);
}

/// Across one cycle, a timer not written by the cycle's own instruction
/// moves only by the end-of-cycle step down, which leaves zero at zero.
proof fn lemma_timer_unmoved(pre: VM, post: VM, r: Result<(), Fault>)
    requires
        cycle_rel(pre, post, r),
    ensures
        spec_decode(fetch_word(pre)) != Some(Instr::LdDtVx) && pre.delay_timer == 0 && fetch_ok(
            pre,
        ) && r == Ok::<(), Fault>(()) ==> post.delay_timer == 0,
        spec_decode(fetch_word(pre)) != Some(Instr::LdStVx) && pre.sound_timer == 0 && fetch_ok(
            pre,
        ) && r == Ok::<(), Fault>(()) ==> post.sound_timer == 0,
        r != Ok::<(), Fault>(()) ==> post.delay_timer == pre.delay_timer && post.sound_timer
            == pre.sound_timer,
{
    if !fetch_ok(pre) {
        return ;
    }
    let op = fetch_word(pre);
    match spec_decode(op) {
        None => {},
        Some(ins) => {
            if spec_guard(ins, op, pre) is None && r == Ok::<(), Fault>(()) {
                let m = choose|m: VM| #[trigger]
                    ins_rel(ins, op, pre, m) && timer_rel(m, post);
                match ins {
                    Instr::RndVxByte => {
                        let rb = choose|rb: u8| #[trigger] rnd_rel(op, pre, m, rb);
                        assert(m.delay_timer == pre.delay_timer && m.sound_timer
                            == pre.sound_timer);
                    },
                    _ => {},
                }
                assert(ins != Instr::LdDtVx ==> m.delay_timer == pre.delay_timer);
                assert(ins != Instr::LdStVx ==> m.sound_timer == pre.sound_timer);
            }
        },
    }
}

/// A fetched word with no entry in the opcode table halts the engine: the
/// cycle reports the unsupported word and the program counter (with all
/// the rest of the machine) is exactly where it was.
pub proof fn lemma_unsupported_opcode_halts(pre: VM, post: VM, r: Result<(), Fault>)
    requires
        cycle_rel(pre, post, r),
        fetch_ok(pre),
        spec_decode(fetch_word(pre)) is None,
    ensures
        r == Err::<(), Fault>(Fault::UnsupportedOpcode(fetch_word(pre))),
        post.pc == pre.pc,
        same_state(pre, post),
{
}

} // verus!
