//! The transition relation of each instruction, as spec predicates between
//! the machine state the handler saw and the state it left. Handler methods
//! on [`crate::vm::VM`] promise exactly these relations; the laws in
//! [`crate::laws`] are proved from them.

use vstd::prelude::*;

use crate::isa::{op_kk, op_n, op_nnn, op_x, op_y, spec_decode, Fault, Instr};
use crate::vm::VM;

verus! {

/// Memory unchanged.
pub open spec fn eq_mem(a: VM, b: VM) -> bool {
    b.memory@ == a.memory@
}

/// General registers unchanged.
pub open spec fn eq_regs(a: VM, b: VM) -> bool {
    b.v@ == a.v@
}

/// Index register unchanged.
pub open spec fn eq_idx(a: VM, b: VM) -> bool {
    b.i == a.i
}

/// Program counter unchanged.
pub open spec fn eq_pc(a: VM, b: VM) -> bool {
    b.pc == a.pc
}

/// Call stack and stack pointer unchanged.
pub open spec fn eq_stack(a: VM, b: VM) -> bool {
    b.stack@ == a.stack@ && b.sp == a.sp
}

/// Key latch unchanged.
pub open spec fn eq_keys(a: VM, b: VM) -> bool {
    b.key@ == a.key@
}

/// Framebuffer and draw flag unchanged.
pub open spec fn eq_gfx(a: VM, b: VM) -> bool {
    b.gfx@ == a.gfx@ && b.draw_flag == a.draw_flag
}

/// Both timers unchanged.
pub open spec fn eq_timers(a: VM, b: VM) -> bool {
    b.delay_timer == a.delay_timer && b.sound_timer == a.sound_timer
}

/// The whole machine state unchanged, apart from the latched opcode and the
/// debug switch.
pub open spec fn same_state(a: VM, b: VM) -> bool {
    eq_mem(a, b) && eq_regs(a, b) && eq_idx(a, b) && eq_pc(a, b) && eq_stack(a, b) && eq_keys(
        a,
        b,
    ) && eq_gfx(a, b) && eq_timers(a, b)
}

/// The latched opcode and the debug switch unchanged.
pub open spec fn keeps_meta(a: VM, b: VM) -> bool {
    b.opcode == a.opcode && b.debug == a.debug
}

/// `00EE`: pop the stack into the program counter, step past the popped
/// call site, and free the slot.
pub open spec fn ret_rel(a: VM, b: VM) -> bool {
    eq_mem(a, b) && eq_regs(a, b) && eq_idx(a, b) && eq_keys(a, b) && eq_gfx(a, b) && eq_timers(
        a,
        b,
    ) && b.stack@ == a.stack@ && b.sp == a.sp - 1 && b.pc == a.stack@[a.sp - 1] + 2
}

/// `1nnn`: jump to the 12-bit address, with no step past it.
pub open spec fn jp_rel(op: u16, a: VM, b: VM) -> bool {
    eq_mem(a, b) && eq_regs(a, b) && eq_idx(a, b) && eq_stack(a, b) && eq_keys(a, b) && eq_gfx(
        a,
        b,
    ) && eq_timers(a, b) && b.pc == op_nnn(op)
}

/// `2nnn`: push the call-site program counter, then jump to the 12-bit
/// address.
pub open spec fn call_rel(op: u16, a: VM, b: VM) -> bool {
    eq_mem(a, b) && eq_regs(a, b) && eq_idx(a, b) && eq_keys(a, b) && eq_gfx(a, b) && eq_timers(
        a,
        b,
    ) && b.stack@ == a.stack@.update(a.sp as int, a.pc) && b.sp == a.sp + 1 && b.pc == op_nnn(op)
}

/// `3xkk`: advance by 4 when `Vx == kk`, else by 2.
pub open spec fn se_rel(op: u16, a: VM, b: VM) -> bool {
    eq_mem(a, b) && eq_regs(a, b) && eq_idx(a, b) && eq_stack(a, b) && eq_keys(a, b) && eq_gfx(
        a,
        b,
    ) && eq_timers(a, b) && b.pc == a.pc + (if a.v@[op_x(op) as int] == op_kk(op) {
        4int
    } else {
        2int
    })
}

/// `4xkk`: advance by 4 when `Vx != kk`, else by 2.
pub open spec fn sne_rel(op: u16, a: VM, b: VM) -> bool {
    eq_mem(a, b) && eq_regs(a, b) && eq_idx(a, b) && eq_stack(a, b) && eq_keys(a, b) && eq_gfx(
        a,
        b,
    ) && eq_timers(a, b) && b.pc == a.pc + (if a.v@[op_x(op) as int] != op_kk(op) {
        4int
    } else {
        2int
    })
}

/// `6xkk`: load the immediate byte into `Vx`.
pub open spec fn ld_vx_byte_rel(op: u16, a: VM, b: VM) -> bool {
    eq_mem(a, b) && eq_idx(a, b) && eq_stack(a, b) && eq_keys(a, b) && eq_gfx(a, b) && eq_timers(
        a,
        b,
    ) && b.v@ == a.v@.update(op_x(op) as int, op_kk(op)) && b.pc == a.pc + 2
}

/// `7xkk`: add the immediate byte into `Vx`, wrapping at 256; no flag is
/// touched.
pub open spec fn add_vx_byte_rel(op: u16, a: VM, b: VM) -> bool {
    let vx = a.v@[op_x(op) as int];
    let kk = op_kk(op);
    eq_mem(a, b) && eq_idx(a, b) && eq_stack(a, b) && eq_keys(a, b) && eq_gfx(a, b) && eq_timers(
        a,
        b,
    ) && b.v@ == a.v@.update(
        op_x(op) as int,
        if vx + kk > 255 {
            (vx + kk - 256) as u8
        } else {
            (vx + kk) as u8
        },
    ) && b.pc == a.pc + 2
}

/// `8xy0`: copy `Vy` into `Vx`.
pub open spec fn ld_vx_vy_rel(op: u16, a: VM, b: VM) -> bool {
    eq_mem(a, b) && eq_idx(a, b) && eq_stack(a, b) && eq_keys(a, b) && eq_gfx(a, b) && eq_timers(
        a,
        b,
    ) && b.v@ == a.v@.update(op_x(op) as int, a.v@[op_y(op) as int]) && b.pc == a.pc + 2
}

/// `8xy2`: bitwise-and `Vy` into `Vx`.
pub open spec fn and_vx_vy_rel(op: u16, a: VM, b: VM) -> bool {
    eq_mem(a, b) && eq_idx(a, b) && eq_stack(a, b) && eq_keys(a, b) && eq_gfx(a, b) && eq_timers(
        a,
        b,
    ) && b.v@ == a.v@.update(op_x(op) as int, a.v@[op_x(op) as int] & a.v@[op_y(op) as int])
        && b.pc == a.pc + 2
}

/// `8xy4`: widen `Vx + Vy` to 16 bits; `VF` becomes 1 exactly when the sum
/// exceeds 255, and `Vx` its low byte. The flag is written first, so with
/// `x = F` the low byte wins.
pub open spec fn add_vx_vy_rel(op: u16, a: VM, b: VM) -> bool {
    let sum = a.v@[op_x(op) as int] + a.v@[op_y(op) as int];
    eq_mem(a, b) && eq_idx(a, b) && eq_stack(a, b) && eq_keys(a, b) && eq_gfx(a, b) && eq_timers(
        a,
        b,
    ) && b.v@ == a.v@.update(
        15,
        if sum > 255 {
            1u8
        } else {
            0u8
        },
    ).update(
        op_x(op) as int,
        if sum > 255 {
            (sum - 256) as u8
        } else {
            sum as u8
        },
    ) && b.pc == a.pc + 2
}

/// `8xy5`: `VF` becomes 1 exactly when `Vx > Vy` before the subtraction,
/// and `Vx` the difference, wrapped at 0. The flag is written first, so
/// with `x = F` the difference wins.
pub open spec fn sub_vx_vy_rel(op: u16, a: VM, b: VM) -> bool {
    let vx = a.v@[op_x(op) as int];
    let vy = a.v@[op_y(op) as int];
    eq_mem(a, b) && eq_idx(a, b) && eq_stack(a, b) && eq_keys(a, b) && eq_gfx(a, b) && eq_timers(
        a,
        b,
    ) && b.v@ == a.v@.update(
        15,
        if vx > vy {
            1u8
        } else {
            0u8
        },
    ).update(
        op_x(op) as int,
        if vx - vy < 0 {
            (vx - vy + 256) as u8
        } else {
            (vx - vy) as u8
        },
    ) && b.pc == a.pc + 2
}

/// `Annn`: load the 12-bit address into the index register.
pub open spec fn ld_i_rel(op: u16, a: VM, b: VM) -> bool {
    eq_mem(a, b) && eq_regs(a, b) && eq_stack(a, b) && eq_keys(a, b) && eq_gfx(a, b) && eq_timers(
        a,
        b,
    ) && b.i == op_nnn(op) && b.pc == a.pc + 2
}

/// `Cxkk`: load `r & kk` into `Vx`, for the drawn byte `r`.
pub open spec fn rnd_rel(op: u16, a: VM, b: VM, r: u8) -> bool {
    eq_mem(a, b) && eq_idx(a, b) && eq_stack(a, b) && eq_keys(a, b) && eq_gfx(a, b) && eq_timers(
        a,
        b,
    ) && b.v@ == a.v@.update(op_x(op) as int, r & op_kk(op)) && b.pc == a.pc + 2
}

/// The framebuffer cell a sprite bit lands on: one combined wraparound of
/// the linear row-major index modulo 2048, not independent wraps of the
/// two axes. An x overrun therefore bleeds into the next row, and a y
/// overrun wraps to the top of the screen.
pub open spec fn pix_index(vx: u8, vy: u8, row: int, col: int) -> int {
    ((vx + col) + (vy + row) * 64) % 2048
}

/// Whether bit `col` of a sprite row byte is set, most significant first.
pub open spec fn bit_set(b: u8, col: int) -> bool {
    b & (0x80u8 >> (col as u8)) != 0
}

/// Whether the sprite of instruction `op`, drawn from state `a`, has its
/// bit at (`row`, `col`) set.
pub open spec fn drw_bit(op: u16, a: VM, row: int, col: int) -> bool {
    bit_set(a.memory@[a.i + row], col)
}

/// The framebuffer cell that bit (`row`, `col`) of the sprite of
/// instruction `op`, drawn from state `a`, lands on.
pub open spec fn drw_target(op: u16, a: VM, row: int, col: int) -> int {
    pix_index(a.v@[op_x(op) as int], a.v@[op_y(op) as int], row, col)
}

/// Whether some sprite bit among the pairs lexicographically below
/// (`row`, `col`) is set and lands on cell `p`.
pub open spec fn drw_hits_upto(op: u16, a: VM, p: int, row: int, col: int) -> bool {
    exists|r: int, c: int|
        #![trigger drw_bit(op, a, r, c)]
        #![trigger drw_target(op, a, r, c)]
        0 <= r && 0 <= c < 8 && (r < row || (r == row && c < col)) && drw_bit(op, a, r, c)
            && drw_target(op, a, r, c) == p
}

/// Whether some sprite bit of instruction `op`, drawn from state `a`,
/// lands on cell `p`.
pub open spec fn drw_hits(op: u16, a: VM, p: int) -> bool {
    drw_hits_upto(op, a, p, op_n(op) as int, 0)
}

/// Whether some set sprite bit among the pairs lexicographically below
/// (`row`, `col`) lands on a cell that is lit in state `a`.
pub open spec fn drw_collides_upto(op: u16, a: VM, row: int, col: int) -> bool {
    exists|r: int, c: int|
        #![trigger drw_bit(op, a, r, c)]
        #![trigger drw_target(op, a, r, c)]
        0 <= r && 0 <= c < 8 && (r < row || (r == row && c < col)) && drw_bit(op, a, r, c)
            && a.gfx@[drw_target(op, a, r, c)] == 1
}

/// Whether drawing the sprite of instruction `op` from state `a` turns any
/// lit cell off.
pub open spec fn drw_collides(op: u16, a: VM) -> bool {
    drw_collides_upto(op, a, op_n(op) as int, 0)
}

/// Whether the sprite of instruction `op`, drawn from state `a`, has any
/// set bit at all.
pub open spec fn drw_any_bit(op: u16, a: VM) -> bool {
    exists|r: int, c: int|
        #![trigger drw_bit(op, a, r, c)]
        0 <= r < op_n(op) as int && 0 <= c < 8 && drw_bit(op, a, r, c)
}

/// `Dxyn`: XOR the `n`-row sprite at `memory[I..I+n]` onto the framebuffer
/// at (`Vx`, `Vy`); `VF` becomes 1 exactly when a lit cell is turned off,
/// and the draw flag is raised.
pub open spec fn drw_rel(op: u16, a: VM, b: VM) -> bool {
    eq_mem(a, b) && eq_idx(a, b) && eq_stack(a, b) && eq_keys(a, b) && eq_timers(a, b) && b.pc
        == a.pc + 2 && b.draw_flag == true && b.gfx@.len() == a.gfx@.len() && (forall|p: int|
        0 <= p < a.gfx@.len() ==> b.gfx@[p] == (if drw_hits(op, a, p) {
            (1 - a.gfx@[p]) as u8
        } else {
            a.gfx@[p]
        })) && b.v@ == a.v@.update(
        15,
        if drw_collides(op, a) {
            1u8
        } else {
            0u8
        },
    )
}

/// `ExA1`: advance by 4 when key `Vx` is up, else by 2.
pub open spec fn sknp_rel(op: u16, a: VM, b: VM) -> bool {
    eq_mem(a, b) && eq_regs(a, b) && eq_idx(a, b) && eq_stack(a, b) && eq_keys(a, b) && eq_gfx(
        a,
        b,
    ) && eq_timers(a, b) && b.pc == a.pc + (if a.key@[a.v@[op_x(op) as int] as int] == 0 {
        4int
    } else {
        2int
    })
}

/// `Fx07`: load the delay timer into `Vx`.
pub open spec fn ld_vx_dt_rel(op: u16, a: VM, b: VM) -> bool {
    eq_mem(a, b) && eq_idx(a, b) && eq_stack(a, b) && eq_keys(a, b) && eq_gfx(a, b) && eq_timers(
        a,
        b,
    ) && b.v@ == a.v@.update(op_x(op) as int, a.delay_timer) && b.pc == a.pc + 2
}

/// `Fx15`: load `Vx` into the delay timer.
pub open spec fn ld_dt_vx_rel(op: u16, a: VM, b: VM) -> bool {
    eq_mem(a, b) && eq_regs(a, b) && eq_idx(a, b) && eq_stack(a, b) && eq_keys(a, b) && eq_gfx(
        a,
        b,
    ) && b.delay_timer == a.v@[op_x(op) as int] && b.sound_timer == a.sound_timer && b.pc == a.pc
        + 2
}

/// `Fx18`: load `Vx` into the sound timer.
pub open spec fn ld_st_vx_rel(op: u16, a: VM, b: VM) -> bool {
    eq_mem(a, b) && eq_regs(a, b) && eq_idx(a, b) && eq_stack(a, b) && eq_keys(a, b) && eq_gfx(
        a,
        b,
    ) && b.sound_timer == a.v@[op_x(op) as int] && b.delay_timer == a.delay_timer && b.pc == a.pc
        + 2
}

/// `Fx29`: point the index register at the 5-byte font glyph for `Vx`.
pub open spec fn ld_f_rel(op: u16, a: VM, b: VM) -> bool {
    eq_mem(a, b) && eq_regs(a, b) && eq_stack(a, b) && eq_keys(a, b) && eq_gfx(a, b) && eq_timers(
        a,
        b,
    ) && b.i == a.v@[op_x(op) as int] * 5 && b.pc == a.pc + 2
}

/// `Fx33`: write the decimal digits of `Vx` (hundreds, tens, ones) to
/// `memory[I]`, `memory[I+1]`, `memory[I+2]`.
pub open spec fn ld_b_rel(op: u16, a: VM, b: VM) -> bool {
    let vx = a.v@[op_x(op) as int];
    eq_regs(a, b) && eq_idx(a, b) && eq_stack(a, b) && eq_keys(a, b) && eq_gfx(a, b) && eq_timers(
        a,
        b,
    ) && b.memory@ == a.memory@.update(a.i as int, (vx / 100) as u8).update(
        a.i + 1,
        ((vx / 10) % 10) as u8,
    ).update(a.i + 2, ((vx % 100) % 10) as u8) && b.pc == a.pc + 2
}

/// `Fx65`: load registers `V0..Vx` (exclusive) from `memory[I..I+x]`.
pub open spec fn ld_vx_i_rel(op: u16, a: VM, b: VM) -> bool {
    eq_mem(a, b) && eq_idx(a, b) && eq_stack(a, b) && eq_keys(a, b) && eq_gfx(a, b) && eq_timers(
        a,
        b,
    ) && b.v@.len() == a.v@.len() && (forall|j: int|
        0 <= j < op_x(op) ==> b.v@[j] == a.memory@[a.i + j]) && (forall|j: int|
        op_x(op) <= j < a.v@.len() ==> b.v@[j] == a.v@[j]) && b.pc == a.pc + 2
}

/// The transition the decoded instruction makes between the state at
/// dispatch and the state the handler leaves. A random draw is related to
/// every byte the generator may have produced.
pub open spec fn ins_rel(ins: Instr, op: u16, a: VM, b: VM) -> bool {
    match ins {
        Instr::Ret => ret_rel(a, b),
        Instr::JpAddr => jp_rel(op, a, b),
        Instr::CallAddr => call_rel(op, a, b),
        Instr::SeVxByte => se_rel(op, a, b),
        Instr::SneVxByte => sne_rel(op, a, b),
        Instr::LdVxByte => ld_vx_byte_rel(op, a, b),
        Instr::AddVxByte => add_vx_byte_rel(op, a, b),
        Instr::LdVxVy => ld_vx_vy_rel(op, a, b),
        Instr::AndVxVy => and_vx_vy_rel(op, a, b),
        Instr::AddVxVy => add_vx_vy_rel(op, a, b),
        Instr::SubVxVy => sub_vx_vy_rel(op, a, b),
        Instr::LdIAddr => ld_i_rel(op, a, b),
        Instr::RndVxByte => exists|r: u8| #[trigger] rnd_rel(op, a, b, r),
        Instr::DrwVxVyN => drw_rel(op, a, b),
        Instr::SknpVx => sknp_rel(op, a, b),
        Instr::LdVxDt => ld_vx_dt_rel(op, a, b),
        Instr::LdDtVx => ld_dt_vx_rel(op, a, b),
        Instr::LdStVx => ld_st_vx_rel(op, a, b),
        Instr::LdFVx => ld_f_rel(op, a, b),
        Instr::LdBVx => ld_b_rel(op, a, b),
        Instr::LdVxI => ld_vx_i_rel(op, a, b),
    }
}

/// The bound the decoded instruction puts on the state before it may run:
/// the fault reported when the instruction cannot run without stepping
/// outside the machine, or `None` when it can.
pub open spec fn spec_guard(ins: Instr, op: u16, a: VM) -> Option<Fault> {
    match ins {
        Instr::Ret => if a.sp < 1 {
            Some(Fault::StackUnderflow)
        } else if a.stack@[a.sp - 1] + 2 > u16::MAX {
            Some(Fault::AddressOutOfBounds)
        } else {
            None
        },
        Instr::CallAddr => if a.sp >= 16 {
            Some(Fault::StackOverflow)
        } else {
            None
        },
        Instr::DrwVxVyN => if a.i + op_n(op) > 4096 {
            Some(Fault::AddressOutOfBounds)
        } else {
            None
        },
        Instr::SknpVx => if a.v@[op_x(op) as int] >= 16 {
            Some(Fault::KeyOutOfRange)
        } else {
            None
        },
        Instr::LdBVx => if a.i + 3 > 4096 {
            Some(Fault::AddressOutOfBounds)
        } else {
            None
        },
        Instr::LdVxI => if a.i + op_x(op) > 4096 {
            Some(Fault::AddressOutOfBounds)
        } else {
            None
        },
        _ => None,
    }
}

/// One timer update: each timer steps down by one when nonzero and stays
/// at zero otherwise; nothing else moves.
pub open spec fn timer_rel(a: VM, b: VM) -> bool {
    eq_mem(a, b) && eq_regs(a, b) && eq_idx(a, b) && eq_pc(a, b) && eq_stack(a, b) && eq_keys(a, b)
        && eq_gfx(a, b) && b.delay_timer == (if a.delay_timer > 0 {
        a.delay_timer - 1
    } else {
        0int
    }) && b.sound_timer == (if a.sound_timer > 0 {
        a.sound_timer - 1
    } else {
        0int
    })
}

/// Whether the program counter leaves room to fetch a two-byte word.
pub open spec fn fetch_ok(a: VM) -> bool {
    a.pc + 1 < 4096
}

/// The big-endian word at the program counter.
pub open spec fn fetch_word(a: VM) -> u16 {
    ((a.memory@[a.pc as int] as u16) << 8) | (a.memory@[a.pc as int + 1] as u16)
}

/// One whole fetch-decode-execute-timer step. On any fault the machine
/// stops where the fault was found: nothing has moved but the opcode
/// latch, which holds the fetched word once the fetch itself succeeded.
pub open spec fn cycle_rel(pre: VM, post: VM, r: Result<(), Fault>) -> bool {
    if !fetch_ok(pre) {
        r == Err::<(), Fault>(Fault::FetchOutOfBounds) && same_state(pre, post) && keeps_meta(
            pre,
            post,
        )
    } else {
        let op = fetch_word(pre);
        post.opcode == op && post.debug == pre.debug && match spec_decode(op) {
            None => r == Err::<(), Fault>(Fault::UnsupportedOpcode(op)) && same_state(pre, post),
            Some(ins) => match spec_guard(ins, op, pre) {
                Some(f) => r == Err::<(), Fault>(f) && same_state(pre, post),
                None => r == Ok::<(), Fault>(()) && exists|m: VM|
                    #[trigger] ins_rel(ins, op, pre, m) && timer_rel(m, post),
            },
        }
    }
}

} // verus!
