//! The machine state and the fetch-decode-execute engine. Every handler
//! carries the transition relation from [`crate::step`] as its contract;
//! [`VM::emulate_cycle`] ties fetch, decode, dispatch and the timer update
//! together and reports every fault as a value instead of aborting.
//!
//! A stack overflow or underflow, an effective address past the 4096
//! cells, and a key index past the sixteen-key latch have no sanctioned
//! behavior in the instruction set. The policy here is explicit: each one
//! is a [`Fault`] returned by [`VM::emulate_cycle`] with the machine
//! state left untouched, the same halt-without-recovery treatment as the
//! unsupported-opcode fault.

use vstd::pervasive::VecAdditionalExecFns;
use vstd::prelude::*;

use rand::Rng;

use crate::isa::{decode, lemma_operand_bounds, op_n, op_x, op_y, Fault, Instr};
use crate::step::{
    add_vx_byte_rel, add_vx_vy_rel, and_vx_vy_rel, call_rel, cycle_rel, drw_bit, drw_collides,
    drw_collides_upto, drw_hits, drw_hits_upto, drw_rel, drw_target, eq_gfx, eq_idx, eq_keys,
    eq_mem, eq_pc, eq_regs, eq_stack, eq_timers, fetch_word, ins_rel, jp_rel, keeps_meta,
    ld_b_rel, ld_dt_vx_rel, ld_f_rel, ld_i_rel, ld_st_vx_rel, ld_vx_byte_rel, ld_vx_dt_rel,
    ld_vx_i_rel, ld_vx_vy_rel, ret_rel, rnd_rel, same_state, se_rel, sknp_rel, sne_rel,
    sub_vx_vy_rel, timer_rel,
};

verus! {

/// The whole machine: memory, registers, call stack, timers, framebuffer
/// and key latch, owned as one aggregate and mutated only through the
/// instruction handlers (the host writes the key latch and, through
/// [`VM::load_game`], the program region of memory).
pub struct VM {
    /// The 16-bit instruction word latched by the most recent fetch.
    pub opcode: u16,
    /// 4096 byte cells; the font table sits at 0x000, programs at 0x200.
    pub memory: Vec<u8>,
    /// The sixteen general registers V0-VF. VF doubles as the
    /// carry/borrow/collision flag and is overwritten by every arithmetic
    /// and draw instruction.
    pub v: Vec<u8>,
    /// The 16-bit index register.
    pub i: u16,
    /// The 16-bit program counter.
    pub pc: u16,
    /// Sixteen 16-bit return-address slots.
    pub stack: Vec<u16>,
    /// The stack pointer: the number of slots in use.
    pub sp: u16,
    /// The sixteen-key input latch, one cell per key, 0 for up.
    pub key: Vec<u8>,
    /// The 64x32 framebuffer, row-major, one cell per pixel, 0 or 1.
    pub gfx: Vec<u8>,
    /// Countdown timer for pacing.
    pub delay_timer: u8,
    /// Countdown timer for sound; reaching zero is the host-visible cue.
    pub sound_timer: u8,
    /// Raised by every draw; the host clears it by re-rendering.
    pub draw_flag: bool,
    /// Whether the host asked for diagnostics on a fatal fault.
    pub debug: bool,
}

impl VM {
    /// Well-formed machine state: every aggregate has its fixed size, the
    /// stack pointer stays within the sixteen slots, and every
    /// framebuffer cell is a single bit.
    pub open spec fn wf(self) -> bool {
        self.memory@.len() == 4096 && self.v@.len() == 16 && self.stack@.len() == 16
            && self.key@.len() == 16 && self.gfx@.len() == 2048 && self.sp <= 16 && (forall|p: int|
            0 <= p < 2048 ==> self.gfx@[p] <= 1)
    }

    /// A fresh machine: everything zeroed, the program counter at 0x200,
    /// and the sound timer at its 0xFF power-on value (a deliberate
    /// non-zero default: the first sound cue fires a few hundred cycles
    /// in unless the program sets the timer first).
    pub fn initialize(debug: bool) -> (vm: VM)
        ensures
            vm.wf(),
            vm.pc == 0x200,
            vm.opcode == 0,
            vm.i == 0,
            vm.sp == 0,
            vm.delay_timer == 0,
            vm.sound_timer == 0xFF,
            vm.draw_flag == false,
            vm.debug == debug,
            forall|j: int| 0 <= j < 4096 ==> vm.memory@[j] == 0,
            forall|j: int| 0 <= j < 16 ==> vm.v@[j] == 0,
            forall|j: int| 0 <= j < 16 ==> vm.stack@[j] == 0,
            forall|j: int| 0 <= j < 16 ==> vm.key@[j] == 0,
            forall|j: int| 0 <= j < 2048 ==> vm.gfx@[j] == 0,
    {
        VM {
            pc: 0x200,
            opcode: 0,
            memory: filled(4096, 0u8),
            v: filled(16, 0u8),
            i: 0,
            stack: filled(16, 0u16),
            sp: 0,
            key: filled(16, 0u8),
            gfx: filled(2048, 0u8),
            delay_timer: 0,
            sound_timer: 0xFF,
            draw_flag: false,
            debug,
        }
    }

    /// Copy a program image into memory at 0x200, the load address of
    /// every CHIP-8 program. An image longer than the 3584 cells above
    /// 0x200 cannot be loaded; the machine is then left untouched and the
    /// load is refused. Obtaining the image (a file, a download) is the
    /// host's concern.
    pub fn load_game(&mut self, data: &Vec<u8>) -> (ok: bool)
        requires
            old(self).wf(),
        ensures
            final(self).wf(),
            ok == (data@.len() <= 3584),
            keeps_meta(*old(self), *final(self)),
            eq_regs(*old(self), *final(self)),
            eq_idx(*old(self), *final(self)),
            eq_pc(*old(self), *final(self)),
            eq_stack(*old(self), *final(self)),
            eq_keys(*old(self), *final(self)),
            eq_gfx(*old(self), *final(self)),
            eq_timers(*old(self), *final(self)),
            final(self).memory@.len() == 4096,
            !ok ==> eq_mem(*old(self), *final(self)),
            ok ==> forall|j: int|
                0 <= j < data@.len() ==> final(self).memory@[512 + j] == data@[j],
            ok ==> forall|j: int|
                (0 <= j < 512 || 512 + data@.len() <= j < 4096) ==> final(self).memory@[j] == old(
                    self,
                ).memory@[j],
    {
        if data.len() > 3584 {
            return false;
        }
        let ghost pre = *self;
        let mut k: usize = 0;
        while k < data.len()
            invariant
                pre.wf(),
                k <= data@.len(),
                data@.len() <= 3584,
                self.memory@.len() == 4096,
                forall|j: int| 0 <= j < k ==> self.memory@[512 + j] == data@[j],
                forall|j: int|
                    (0 <= j < 512 || 512 + k <= j < 4096) ==> self.memory@[j] == pre.memory@[j],
                self.v == pre.v,
                self.stack == pre.stack,
                self.key == pre.key,
                self.gfx == pre.gfx,
                self.i == pre.i,
                self.pc == pre.pc,
                self.sp == pre.sp,
                self.opcode == pre.opcode,
                self.debug == pre.debug,
                self.delay_timer == pre.delay_timer,
                self.sound_timer == pre.sound_timer,
                self.draw_flag == pre.draw_flag,
            decreases data@.len() - k,
        {
            let b = data[k];
            self.memory.set(512 + k, b);
            k += 1;
        }
        true
    }

    /// Write the fixed 80-byte font table (sixteen 5-byte glyphs for the
    /// hex digits) to memory at address 0.
    pub fn load_fontset(&mut self)
        requires
            old(self).wf(),
        ensures
            final(self).wf(),
            keeps_meta(*old(self), *final(self)),
            eq_regs(*old(self), *final(self)),
            eq_idx(*old(self), *final(self)),
            eq_pc(*old(self), *final(self)),
            eq_stack(*old(self), *final(self)),
            eq_keys(*old(self), *final(self)),
            eq_gfx(*old(self), *final(self)),
            eq_timers(*old(self), *final(self)),
            final(self).memory@.len() == 4096,
            forall|j: int| 0 <= j < 80 ==> final(self).memory@[j] == fontset()[j],
            forall|j: int| 80 <= j < 4096 ==> final(self).memory@[j] == old(self).memory@[j],
    {
        let f: [u8; 80] = [
            0xF0, 0x90, 0x90, 0x90, 0xF0,  // 0
            0x20, 0x60, 0x20, 0x20, 0x70,  // 1
            0xF0, 0x10, 0xF0, 0x80, 0xF0,  // 2
            0xF0, 0x10, 0xF0, 0x10, 0xF0,  // 3
            0x90, 0x90, 0xF0, 0x10, 0x10,  // 4
            0xF0, 0x80, 0xF0, 0x10, 0xF0,  // 5
            0xF0, 0x80, 0xF0, 0x90, 0xF0,  // 6
            0xF0, 0x10, 0x20, 0x40, 0x40,  // 7
            0xF0, 0x90, 0xF0, 0x90, 0xF0,  // 8
            0xF0, 0x90, 0xF0, 0x10, 0xF0,  // 9
            0xF0, 0x90, 0xF0, 0x90, 0x90,  // A
            0xE0, 0x90, 0xE0, 0x90, 0xE0,  // B
            0xF0, 0x80, 0x80, 0x80, 0xF0,  // C
            0xE0, 0x90, 0x90, 0x90, 0xE0,  // D
            0xF0, 0x80, 0xF0, 0x80, 0xF0,  // E
            0xF0, 0x80, 0xF0, 0x80, 0x80,  // F
        ];
        proof {
            assert(f@ =~= fontset());
        }
        let ghost pre = *self;
        let mut k: usize = 0;
        while k < 80
            invariant
                pre.wf(),
                k <= 80,
                f@ == fontset(),
                self.memory@.len() == 4096,
                forall|j: int| 0 <= j < k ==> self.memory@[j] == fontset()[j],
                forall|j: int| k <= j < 4096 ==> self.memory@[j] == pre.memory@[j],
                self.v == pre.v,
                self.stack == pre.stack,
                self.key == pre.key,
                self.gfx == pre.gfx,
                self.i == pre.i,
                self.pc == pre.pc,
                self.sp == pre.sp,
                self.opcode == pre.opcode,
                self.debug == pre.debug,
                self.delay_timer == pre.delay_timer,
                self.sound_timer == pre.sound_timer,
                self.draw_flag == pre.draw_flag,
            decreases 80 - k,
        {
            let b = f[k];
            self.memory.set(k, b);
            k += 1;
        }
    }

    /// Hook of the host interface for key handling. The key latch is
    /// written directly through the public `key` field on the host's own
    /// key events, so this leaves the machine untouched.
    pub fn set_keys(&mut self)
        ensures
            same_state(*old(self), *final(self)),
            keeps_meta(*old(self), *final(self)),
    {
    }

    /// `00EE`: return from a subroutine. The popped value is the call-site
    /// program counter, so execution resumes two bytes past it.
    pub fn ret(&mut self)
        requires
            old(self).wf(),
            old(self).sp >= 1,
            old(self).stack@[old(self).sp - 1] + 2 <= u16::MAX,
        ensures
            final(self).wf(),
            ret_rel(*old(self), *final(self)),
            keeps_meta(*old(self), *final(self)),
    {
        self.sp = self.sp - 1;
        self.pc = self.stack[self.sp as usize] + 2;
    }

    /// `1nnn`: jump to the 12-bit address; nothing else moves.
    pub fn jp_addr(&mut self)
        requires
            old(self).wf(),
        ensures
            final(self).wf(),
            jp_rel(old(self).opcode, *old(self), *final(self)),
            keeps_meta(*old(self), *final(self)),
    {
        let addr = self.opcode & 0x0FFF;
        self.pc = addr;
    }

    /// `2nnn`: push the call-site program counter and jump to the 12-bit
    /// address.
    pub fn call_addr(&mut self)
        requires
            old(self).wf(),
            old(self).sp < 16,
        ensures
            final(self).wf(),
            call_rel(old(self).opcode, *old(self), *final(self)),
            keeps_meta(*old(self), *final(self)),
    {
        let subroutine_address = self.opcode & 0xFFF;
        self.stack.set(self.sp as usize, self.pc);
        self.sp = self.sp + 1;
        self.pc = subroutine_address;
    }

    /// `3xkk`: skip the next instruction when `Vx == kk`.
    pub fn se_vx_byte(&mut self)
        requires
            old(self).wf(),
            old(self).pc + 4 <= u16::MAX,
        ensures
            final(self).wf(),
            se_rel(old(self).opcode, *old(self), *final(self)),
            keeps_meta(*old(self), *final(self)),
    {
        proof {
            lemma_operand_bounds(self.opcode);
        }
        let x = ((self.opcode & 0x0F00) >> 8) as usize;
        let byte = (self.opcode & 0x00FF) as u8;
        if self.v[x] == byte {
            self.pc = self.pc + 4;
        } else {
            self.pc = self.pc + 2;
        }
    }

    /// `4xkk`: skip the next instruction when `Vx != kk`.
    pub fn sne_vx_byte(&mut self)
        requires
            old(self).wf(),
            old(self).pc + 4 <= u16::MAX,
        ensures
            final(self).wf(),
            sne_rel(old(self).opcode, *old(self), *final(self)),
            keeps_meta(*old(self), *final(self)),
    {
        proof {
            lemma_operand_bounds(self.opcode);
        }
        let x = ((self.opcode & 0x0F00) >> 8) as usize;
        let byte = (self.opcode & 0x00FF) as u8;
        if self.v[x] != byte {
            self.pc = self.pc + 4;
        } else {
            self.pc = self.pc + 2;
        }
    }

    /// `6xkk`: load the immediate byte into `Vx`.
    pub fn ld_vx_byte(&mut self)
        requires
            old(self).wf(),
            old(self).pc + 2 <= u16::MAX,
        ensures
            final(self).wf(),
            ld_vx_byte_rel(old(self).opcode, *old(self), *final(self)),
            keeps_meta(*old(self), *final(self)),
    {
        proof {
            lemma_operand_bounds(self.opcode);
        }
        let x = ((self.opcode & 0x0F00) >> 8) as usize;
        let value = (self.opcode & 0x00FF) as u8;
        self.v.set(x, value);
        self.pc = self.pc + 2;
    }

    /// `7xkk`: add the immediate byte into `Vx`, wrapping at 256; the
    /// carry flag is not touched.
    pub fn add_vx_byte(&mut self)
        requires
            old(self).wf(),
            old(self).pc + 2 <= u16::MAX,
        ensures
            final(self).wf(),
            add_vx_byte_rel(old(self).opcode, *old(self), *final(self)),
            keeps_meta(*old(self), *final(self)),
    {
        proof {
            lemma_operand_bounds(self.opcode);
        }
        let x = ((self.opcode & 0x0F00) >> 8) as usize;
        let byte = (self.opcode & 0x00FF) as u8;
        let value = self.v[x].wrapping_add(byte);
        self.v.set(x, value);
        self.pc = self.pc + 2;
    }

    /// `8xy0`: copy `Vy` into `Vx`.
    pub fn ld_vx_vy(&mut self)
        requires
            old(self).wf(),
            old(self).pc + 2 <= u16::MAX,
        ensures
            final(self).wf(),
            ld_vx_vy_rel(old(self).opcode, *old(self), *final(self)),
            keeps_meta(*old(self), *final(self)),
    {
        proof {
            lemma_operand_bounds(self.opcode);
        }
        let x = ((self.opcode & 0x0F00) >> 8) as usize;
        let y = ((self.opcode & 0x00F0) >> 4) as usize;
        let value = self.v[y];
        self.v.set(x, value);
        self.pc = self.pc + 2;
    }

    /// `8xy2`: bitwise-and `Vy` into `Vx`.
    pub fn and_vx_vy(&mut self)
        requires
            old(self).wf(),
            old(self).pc + 2 <= u16::MAX,
        ensures
            final(self).wf(),
            and_vx_vy_rel(old(self).opcode, *old(self), *final(self)),
            keeps_meta(*old(self), *final(self)),
    {
        proof {
            lemma_operand_bounds(self.opcode);
        }
        let x = ((self.opcode & 0x0F00) >> 8) as usize;
        let y = ((self.opcode & 0x00F0) >> 4) as usize;
        let value = self.v[x] & self.v[y];
        self.v.set(x, value);
        self.pc = self.pc + 2;
    }

    /// `8xy4`: add `Vy` to `Vx` widened to 16 bits; `VF` reports the carry
    /// and `Vx` keeps the low byte of the sum.
    pub fn add_vx_vy(&mut self)
        requires
            old(self).wf(),
            old(self).pc + 2 <= u16::MAX,
        ensures
            final(self).wf(),
            add_vx_vy_rel(old(self).opcode, *old(self), *final(self)),
            keeps_meta(*old(self), *final(self)),
    {
        proof {
            lemma_operand_bounds(self.opcode);
        }
        let x = ((self.opcode & 0x0F00) >> 8) as usize;
        let y = ((self.opcode & 0x00F0) >> 4) as usize;
        let sum = (self.v[x] as u16) + (self.v[y] as u16);
        if sum > 0xFF {
            self.v.set(15, 1);
        } else {
            self.v.set(15, 0);
        }
        let low = if sum > 0xFF {
            (sum - 256) as u8
        } else {
            sum as u8
        };
        self.v.set(x, low);
        self.pc = self.pc + 2;
    }

    /// `8xy5`: subtract `Vy` from `Vx`; `VF` reports the absence of a
    /// borrow and `Vx` keeps the difference, wrapped at 0.
    pub fn sub_vx_vy(&mut self)
        requires
            old(self).wf(),
            old(self).pc + 2 <= u16::MAX,
        ensures
            final(self).wf(),
            sub_vx_vy_rel(old(self).opcode, *old(self), *final(self)),
            keeps_meta(*old(self), *final(self)),
    {
        proof {
            lemma_operand_bounds(self.opcode);
        }
        let x = ((self.opcode & 0x0F00) >> 8) as usize;
        let y = ((self.opcode & 0x00F0) >> 4) as usize;
        let vx = self.v[x];
        let vy = self.v[y];
        if vx > vy {
            self.v.set(15, 1);
        } else {
            self.v.set(15, 0);
        }
        self.v.set(x, vx.wrapping_sub(vy));
        self.pc = self.pc + 2;
    }

    /// `Annn`: load the 12-bit address into the index register.
    pub fn ld_i_addr(&mut self)
        requires
            old(self).wf(),
            old(self).pc + 2 <= u16::MAX,
        ensures
            final(self).wf(),
            ld_i_rel(old(self).opcode, *old(self), *final(self)),
            keeps_meta(*old(self), *final(self)),
    {
        let value = self.opcode & 0x0FFF;
        self.i = value;
        self.pc = self.pc + 2;
    }

    /// `Cxkk`: draw a byte from the host's generator, mask it with the
    /// immediate byte and store it in `Vx`. The drawn byte is unknowable,
    /// so the contract promises only that some byte relates the states.
    pub fn rnd_vx_byte(&mut self)
        requires
            old(self).wf(),
            old(self).pc + 2 <= u16::MAX,
        ensures
            final(self).wf(),
            exists|r: u8| #[trigger] rnd_rel(old(self).opcode, *old(self), *final(self), r),
            keeps_meta(*old(self), *final(self)),
    {
        let r = random_byte();
        self.rnd_vx_byte_with(r);
    }

    /// The deterministic part of `RND Vx, byte`: mask the given byte with
    /// the immediate byte and store it in `Vx`. [`VM::rnd_vx_byte`] calls
    /// this with the byte its generator produced; it holds for every byte
    /// the generator may produce.
    pub fn rnd_vx_byte_with(&mut self, random: u8)
        requires
            old(self).wf(),
            old(self).pc + 2 <= u16::MAX,
        ensures
            final(self).wf(),
            rnd_rel(old(self).opcode, *old(self), *final(self), random),
            keeps_meta(*old(self), *final(self)),
    {
        proof {
            lemma_operand_bounds(self.opcode);
        }
        let x = ((self.opcode & 0x0F00) >> 8) as usize;
        let byte = (self.opcode & 0x00FF) as u8;
        self.v.set(x, random & byte);
        self.pc = self.pc + 2;
    }

    /// `Dxyn`: XOR the `n`-row sprite at `memory[I..I+n]` onto the
    /// framebuffer at (`Vx`, `Vy`). Each sprite bit lands on the cell
    /// given by the combined modulo-2048 index, `VF` reports whether any
    /// lit cell was turned off, and the draw flag is raised.
    pub fn drw_vx_vy_n(&mut self)
        requires
            old(self).wf(),
            old(self).i + op_n(old(self).opcode) <= 4096,
            old(self).pc + 2 <= u16::MAX,
        ensures
            final(self).wf(),
            drw_rel(old(self).opcode, *old(self), *final(self)),
            keeps_meta(*old(self), *final(self)),
    {
        let ghost a = *self;
        let ghost op = a.opcode;
        proof {
            lemma_operand_bounds(self.opcode);
        }
        let x = ((self.opcode & 0x0F00) >> 8) as usize;
        let y = ((self.opcode & 0x00F0) >> 4) as usize;
        let vx = self.v[x];
        let vy = self.v[y];
        let rows = (self.opcode & 0x000F) as usize;
        self.v.set(15, 0);
        let mut row: usize = 0;
        while row < rows
            invariant
                a.wf(),
                op == a.opcode,
                rows == op_n(op),
                rows <= 15,
                a.i + rows <= 4096,
                row <= rows,
                vx == a.v@[op_x(op) as int],
                vy == a.v@[op_y(op) as int],
                drw_loop_inv(op, a, *self, row as int, 0),
            decreases rows - row,
        {
            let pixel = self.memory[self.i as usize + row];
            let mut col: usize = 0;
            while col < 8
                invariant
                    a.wf(),
                    op == a.opcode,
                    rows == op_n(op),
                    rows <= 15,
                    a.i + rows <= 4096,
                    row < rows,
                    col <= 8,
                    vx == a.v@[op_x(op) as int],
                    vy == a.v@[op_y(op) as int],
                    pixel == a.memory@[a.i + row as int],
                    drw_loop_inv(op, a, *self, row as int, col as int),
                decreases 8 - col,
            {
                let ghost s0 = *self;
                if pixel & (0x80u8 >> (col as u8)) != 0 {
                    let pos16 = ((vx as u16 + col as u16) + ((vy as u16 + row as u16) * 64))
                        % 2048;
                    let pos = pos16 as usize;
                    proof {
                        assert(drw_bit(op, a, row as int, col as int));
                        assert(pos16 == drw_target(op, a, row as int, col as int));
                        lemma_step_set(op, a, row as int, col as int);
                    }
                    let cur = self.gfx[pos];
                    if cur == 1 {
                        self.v.set(15, 1);
                        proof {
                            assert(self.v@ =~= a.v@.update(15, 1u8));
                        }
                    }
                    self.gfx.set(pos, cur ^ 1);
                    proof {
                        let q = drw_target(op, a, row as int, col as int);
                        assert(!drw_hits_upto(op, a, q, row as int, col as int));
                        assert(cur == a.gfx@[q]);
                        if cur == 1 {
                            assert(cur ^ 1 == 0) by (bit_vector)
                                requires
                                    cur == 1,
                            ;
                        } else {
                            assert(a.gfx@[q] == 0);
                            assert(cur ^ 1 == 1) by (bit_vector)
                                requires
                                    cur == 0,
                            ;
                        }
                        assert(drw_loop_inv(op, a, *self, row as int, col as int + 1));
                    }
                } else {
                    proof {
                        assert(!drw_bit(op, a, row as int, col as int));
                        lemma_step_clear(op, a, row as int, col as int);
                        assert(drw_loop_inv(op, a, *self, row as int, col as int + 1));
                    }
                }
                col += 1;
            }
            proof {
                lemma_upto_row_wrap(op, a, row as int);
                assert(drw_loop_inv(op, a, *self, row as int + 1, 0));
            }
            row += 1;
        }
        self.draw_flag = true;
        self.pc = self.pc + 2;
        proof {
            assert forall|p: int| 0 <= p < 2048 implies final(self).gfx@[p] <= 1 by {
                assert(a.gfx@[p] <= 1);
            }
        }
    }

    /// `ExA1`: skip the next instruction when key `Vx` is up.
    pub fn sknp_vx(&mut self)
        requires
            old(self).wf(),
            old(self).pc + 4 <= u16::MAX,
            old(self).v@[op_x(old(self).opcode) as int] < 16,
        ensures
            final(self).wf(),
            sknp_rel(old(self).opcode, *old(self), *final(self)),
            keeps_meta(*old(self), *final(self)),
    {
        proof {
            lemma_operand_bounds(self.opcode);
        }
        let x = ((self.opcode & 0x0F00) >> 8) as usize;
        let k = self.v[x] as usize;
        if self.key[k] == 0 {
            self.pc = self.pc + 4;
        } else {
            self.pc = self.pc + 2;
        }
    }

    /// `Fx07`: load the delay timer into `Vx`.
    pub fn ld_vx_dt(&mut self)
        requires
            old(self).wf(),
            old(self).pc + 2 <= u16::MAX,
        ensures
            final(self).wf(),
            ld_vx_dt_rel(old(self).opcode, *old(self), *final(self)),
            keeps_meta(*old(self), *final(self)),
    {
        proof {
            lemma_operand_bounds(self.opcode);
        }
        let x = ((self.opcode & 0x0F00) >> 8) as usize;
        let value = self.delay_timer;
        self.v.set(x, value);
        self.pc = self.pc + 2;
    }

    /// `Fx15`: load `Vx` into the delay timer.
    pub fn ld_dt_vx(&mut self)
        requires
            old(self).wf(),
            old(self).pc + 2 <= u16::MAX,
        ensures
            final(self).wf(),
            ld_dt_vx_rel(old(self).opcode, *old(self), *final(self)),
            keeps_meta(*old(self), *final(self)),
    {
        proof {
            lemma_operand_bounds(self.opcode);
        }
        let x = ((self.opcode & 0x0F00) >> 8) as usize;
        self.delay_timer = self.v[x];
        self.pc = self.pc + 2;
    }

    /// `Fx18`: load `Vx` into the sound timer.
    pub fn ld_st_vx(&mut self)
        requires
            old(self).wf(),
            old(self).pc + 2 <= u16::MAX,
        ensures
            final(self).wf(),
            ld_st_vx_rel(old(self).opcode, *old(self), *final(self)),
            keeps_meta(*old(self), *final(self)),
    {
        proof {
            lemma_operand_bounds(self.opcode);
        }
        let x = ((self.opcode & 0x0F00) >> 8) as usize;
        self.sound_timer = self.v[x];
        self.pc = self.pc + 2;
    }

    /// `Fx29`: point the index register at the font glyph for `Vx`, five
    /// bytes per glyph from address 0.
    pub fn ld_f_vx(&mut self)
        requires
            old(self).wf(),
            old(self).pc + 2 <= u16::MAX,
        ensures
            final(self).wf(),
            ld_f_rel(old(self).opcode, *old(self), *final(self)),
            keeps_meta(*old(self), *final(self)),
    {
        proof {
            lemma_operand_bounds(self.opcode);
        }
        let x = ((self.opcode & 0x0F00) >> 8) as usize;
        self.i = (self.v[x] as u16) * 5;
        self.pc = self.pc + 2;
    }

    /// `Fx33`: write the decimal digits of `Vx` (hundreds, tens, ones) to
    /// `memory[I]`, `memory[I+1]`, `memory[I+2]`.
    pub fn ld_b_vx(&mut self)
        requires
            old(self).wf(),
            old(self).i + 3 <= 4096,
            old(self).pc + 2 <= u16::MAX,
        ensures
            final(self).wf(),
            ld_b_rel(old(self).opcode, *old(self), *final(self)),
            keeps_meta(*old(self), *final(self)),
    {
        proof {
            lemma_operand_bounds(self.opcode);
        }
        let vx = ((self.opcode & 0x0F00) >> 8) as usize;
        let value = self.v[vx];
        let base = self.i as usize;
        self.memory.set(base, value / 100);
        self.memory.set(base + 1, (value / 10) % 10);
        self.memory.set(base + 2, (value % 100) % 10);
        self.pc = self.pc + 2;
    }

    /// `Fx65`: load registers `V0..Vx` (exclusive) from `memory[I..I+x]`.
    pub fn ld_vx_i(&mut self)
        requires
            old(self).wf(),
            old(self).i + op_x(old(self).opcode) <= 4096,
            old(self).pc + 2 <= u16::MAX,
        ensures
            final(self).wf(),
            ld_vx_i_rel(old(self).opcode, *old(self), *final(self)),
            keeps_meta(*old(self), *final(self)),
    {
        let ghost pre = *self;
        proof {
            lemma_operand_bounds(self.opcode);
        }
        let vx = ((self.opcode & 0x0F00) >> 8) as usize;
        let mut k: usize = 0;
        while k < vx
            invariant
                pre.wf(),
                k <= vx,
                vx < 16,
                vx == op_x(pre.opcode),
                pre.i + vx <= 4096,
                self.v@.len() == 16,
                forall|j: int| 0 <= j < k ==> self.v@[j] == pre.memory@[pre.i + j],
                forall|j: int| k <= j < 16 ==> self.v@[j] == pre.v@[j],
                self.memory == pre.memory,
                self.stack == pre.stack,
                self.key == pre.key,
                self.gfx == pre.gfx,
                self.i == pre.i,
                self.pc == pre.pc,
                self.sp == pre.sp,
                self.opcode == pre.opcode,
                self.debug == pre.debug,
                self.delay_timer == pre.delay_timer,
                self.sound_timer == pre.sound_timer,
                self.draw_flag == pre.draw_flag,
            decreases vx - k,
        {
            let value = self.memory[self.i as usize + k];
            self.v.set(k, value);
            k += 1;
        }
        self.pc = self.pc + 2;
    }

    /// The fault for a fetched word that matches no entry of the opcode
    /// table. The engine halts on it; a host that asked for diagnostics
    /// prints the memory and register dumps before giving up.
    pub fn unsupported_opcode(&self) -> (f: Fault)
        ensures
            f == Fault::UnsupportedOpcode(self.opcode),
    {
        Fault::UnsupportedOpcode(self.opcode)
    }

    /// One fetch-decode-execute-timer step. Fetches the big-endian word at
    /// the program counter, dispatches it against the opcode table, runs
    /// the matching handler, and steps both timers down. The timers are
    /// coupled to the cycle rate: one step per call, so the host loop's
    /// pace sets their cadence. Every fault
    /// (unsupported word, fetch or effective address out of bounds, stack
    /// overflow or underflow, key index out of range) is returned with the
    /// machine state exactly as it was when the fault was found: the
    /// engine halts rather than advancing past what it cannot run.
    pub fn emulate_cycle(&mut self) -> (r: Result<(), Fault>)
        requires
            old(self).wf(),
        ensures
            final(self).wf(),
            cycle_rel(*old(self), *final(self), r),
    {
        let ghost pre = *self;
        if self.pc > 4094 {
            return Err(Fault::FetchOutOfBounds);
        }
        let hi = self.memory[self.pc as usize];
        let lo = self.memory[self.pc as usize + 1];
        self.opcode = ((hi as u16) << 8) | (lo as u16);
        proof {
            lemma_operand_bounds(self.opcode);
        }
        let ins = match decode(self.opcode) {
            Some(ins) => ins,
            None => {
                return Err(self.unsupported_opcode());
            },
        };
        match ins {
            Instr::Ret => {
                if self.sp < 1 {
                    return Err(Fault::StackUnderflow);
                }
                if self.stack[self.sp as usize - 1] > 0xFFFD {
                    return Err(Fault::AddressOutOfBounds);
                }
                self.ret();
            },
            Instr::JpAddr => self.jp_addr(),
            Instr::CallAddr => {
                if self.sp >= 16 {
                    return Err(Fault::StackOverflow);
                }
                self.call_addr();
            },
            Instr::SeVxByte => self.se_vx_byte(),
            Instr::SneVxByte => self.sne_vx_byte(),
            Instr::LdVxByte => self.ld_vx_byte(),
            Instr::AddVxByte => self.add_vx_byte(),
            Instr::LdVxVy => self.ld_vx_vy(),
            Instr::AndVxVy => self.and_vx_vy(),
            Instr::AddVxVy => self.add_vx_vy(),
            Instr::SubVxVy => self.sub_vx_vy(),
            Instr::LdIAddr => self.ld_i_addr(),
            Instr::RndVxByte => {
                let ghost before = *self;
                self.rnd_vx_byte();
                proof {
                    let rb = choose|rb: u8| #[trigger]
                        rnd_rel(before.opcode, before, *self, rb);
                    assert(rnd_rel(fetch_word(pre), pre, *self, rb));
                }
            },
            Instr::DrwVxVyN => {
                let n = (self.opcode & 0x000F) as usize;
                if self.i as usize + n > 4096 {
                    return Err(Fault::AddressOutOfBounds);
                }
                let ghost before = *self;
                self.drw_vx_vy_n();
                proof {
                    lemma_drw_specs_agree(before.opcode, before, pre);
                }
            },
            Instr::SknpVx => {
                let x = ((self.opcode & 0x0F00) >> 8) as usize;
                if self.v[x] >= 16 {
                    return Err(Fault::KeyOutOfRange);
                }
                self.sknp_vx();
            },
            Instr::LdVxDt => self.ld_vx_dt(),
            Instr::LdDtVx => self.ld_dt_vx(),
            Instr::LdStVx => self.ld_st_vx(),
            Instr::LdFVx => self.ld_f_vx(),
            Instr::LdBVx => {
                if self.i as usize + 3 > 4096 {
                    return Err(Fault::AddressOutOfBounds);
                }
                self.ld_b_vx();
            },
            Instr::LdVxI => {
                let x = ((self.opcode & 0x0F00) >> 8) as usize;
                if self.i as usize + x > 4096 {
                    return Err(Fault::AddressOutOfBounds);
                }
                self.ld_vx_i();
            },
        }
        let ghost mid = *self;
        proof {
            assert(ins_rel(ins, fetch_word(pre), pre, mid));
        }
        if self.delay_timer > 0 {
            self.delay_timer = self.delay_timer - 1;
        }
        if self.sound_timer > 0 {
            self.sound_timer = self.sound_timer - 1;
        }
        proof {
            assert(timer_rel(mid, *self));
        }
        Ok(())
    }
}

/// A vector of `n` copies of one value.
fn filled<T: Copy>(n: usize, value: T) -> (v: Vec<T>)
    ensures
        v@.len() == n,
        forall|j: int| 0 <= j < n ==> v@[j] == value,
{
    let mut v: Vec<T> = Vec::new();
    let mut k: usize = 0;
    while k < n
        invariant
            k <= n,
            v@.len() == k,
            forall|j: int| 0 <= j < k ==> v@[j] == value,
        decreases n - k,
    {
        v.push(value);
        k += 1;
    }
    v
}

/// The fixed 80-byte font table: sixteen 5-byte glyphs, one per hex
/// digit, glyph `g` at bytes `[5g, 5g+5)`.
pub open spec fn fontset() -> Seq<u8> {
    seq![
        0xF0u8, 0x90, 0x90, 0x90, 0xF0, 0x20, 0x60, 0x20, 0x20, 0x70, 0xF0, 0x10, 0xF0, 0x80,
        0xF0, 0xF0, 0x10, 0xF0, 0x10, 0xF0, 0x90, 0x90, 0xF0, 0x10, 0x10, 0xF0, 0x80, 0xF0, 0x10,
        0xF0, 0xF0, 0x80, 0xF0, 0x90, 0xF0, 0xF0, 0x10, 0x20, 0x40, 0x40, 0xF0, 0x90, 0xF0, 0x90,
        0xF0, 0xF0, 0x90, 0xF0, 0x10, 0xF0, 0xF0, 0x90, 0xF0, 0x90, 0x90, 0xE0, 0x90, 0xE0, 0x90,
        0xE0, 0xF0, 0x80, 0x80, 0x80, 0xF0, 0xE0, 0x90, 0x90, 0x90, 0xE0, 0xF0, 0x80, 0xF0, 0x80,
        0xF0, 0xF0, 0x80, 0xF0, 0x80, 0x80,
    ]
}

/// Relies on `rand::thread_rng` and `rand::Rng::gen`: one byte from the
/// thread-local generator. Nothing is assumed of the value; every caller
/// must hold for every byte this may return.
#[verifier::external_body]
fn random_byte() -> u8 {
    rand::thread_rng().gen()
}

/// The loop picture of a sprite draw from state `a`: with every bit pair
/// lexicographically below (`row`, `col`) applied, each framebuffer cell
/// is flipped exactly when some applied bit landed on it, `VF` holds
/// whether any applied bit landed on a lit cell, and nothing else has
/// moved.
spec fn drw_loop_inv(op: u16, a: VM, s: VM, row: int, col: int) -> bool {
    s.memory@ == a.memory@ && s.i == a.i && s.pc == a.pc && s.stack@ == a.stack@ && s.sp == a.sp
        && s.key@ == a.key@ && s.delay_timer == a.delay_timer && s.sound_timer == a.sound_timer
        && s.draw_flag == a.draw_flag && s.opcode == a.opcode && s.debug == a.debug && s.gfx@.len()
        == a.gfx@.len() && s.v@.len() == a.v@.len() && (forall|p: int|
        0 <= p < a.gfx@.len() ==> s.gfx@[p] == (if drw_hits_upto(op, a, p, row, col) {
            (1 - a.gfx@[p]) as u8
        } else {
            a.gfx@[p]
        })) && s.v@ == a.v@.update(
        15,
        if drw_collides_upto(op, a, row, col) {
            1u8
        } else {
            0u8
        },
    )
}

/// Distinct bits of one sprite draw land on distinct framebuffer cells:
/// all candidate indices lie in one window of width below 2048, so the
/// combined wraparound cannot make two of them meet.
proof fn lemma_target_unique(op: u16, a: VM, r1: int, c1: int, r2: int, c2: int)
    requires
        0 <= r1 < 16,
        0 <= c1 < 8,
        0 <= r2 < 16,
        0 <= c2 < 8,
        !(r1 == r2 && c1 == c2),
    ensures
        drw_target(op, a, r1, c1) != drw_target(op, a, r2, c2),
{
    let vx = a.v@[op_x(op) as int];
    let vy = a.v@[op_y(op) as int];
    let u1 = (vx + c1) + (vy + r1) * 64;
    let u2 = (vx + c2) + (vy + r2) * 64;
    assert(u1 != u2);
    assert(0 <= u1 && 0 <= u2);
    assert(u1 - u2 < 2048 && u2 - u1 < 2048);
    vstd::arithmetic::div_mod::lemma_fundamental_div_mod(u1, 2048);
    vstd::arithmetic::div_mod::lemma_fundamental_div_mod(u2, 2048);
    vstd::arithmetic::div_mod::lemma_mod_bound(u1, 2048);
    vstd::arithmetic::div_mod::lemma_mod_bound(u2, 2048);
    if u1 % 2048 == u2 % 2048 {
        let k1 = u1 / 2048;
        let k2 = u2 / 2048;
        assert(u1 - u2 == 2048 * (k1 - k2));
        assert(k1 != k2);
        if k1 > k2 {
            assert(2048 * (k1 - k2) >= 2048);
        } else {
            assert(2048 * (k1 - k2) <= -2048);
        }
        assert(false);
    }
}

/// Stepping the loop picture past a clear sprite bit changes nothing: the
/// bit pairs applied so far hit and collide exactly as before.
proof fn lemma_step_clear(op: u16, a: VM, row: int, col: int)
    requires
        0 <= col < 8,
        !drw_bit(op, a, row, col),
    ensures
        forall|p: int|
            #[trigger] drw_hits_upto(op, a, p, row, col + 1) == drw_hits_upto(op, a, p, row, col),
        drw_collides_upto(op, a, row, col + 1) == drw_collides_upto(op, a, row, col),
{
    assert forall|p: int|
        #[trigger] drw_hits_upto(op, a, p, row, col + 1) == drw_hits_upto(
            op,
            a,
            p,
            row,
            col,
        ) by {
        if drw_hits_upto(op, a, p, row, col + 1) {
            let (r, c) = choose|r: int, c: int|
                0 <= r && 0 <= c < 8 && (r < row || (r == row && c < col + 1)) && drw_bit(
                    op,
                    a,
                    r,
                    c,
                ) && drw_target(op, a, r, c) == p;
            assert(!(r == row && c == col));
            assert(drw_hits_upto(op, a, p, row, col));
        }
        if drw_hits_upto(op, a, p, row, col) {
            assert(drw_hits_upto(op, a, p, row, col + 1));
        }
    }
    if drw_collides_upto(op, a, row, col + 1) {
        let (r, c) = choose|r: int, c: int|
            0 <= r && 0 <= c < 8 && (r < row || (r == row && c < col + 1)) && drw_bit(op, a, r, c)
                && a.gfx@[drw_target(op, a, r, c)] == 1;
        assert(!(r == row && c == col));
        assert(drw_collides_upto(op, a, row, col));
    }
    if drw_collides_upto(op, a, row, col) {
        assert(drw_collides_upto(op, a, row, col + 1));
    }
}

/// Stepping the loop picture past a set sprite bit: its target cell was
/// never hit before (targets are distinct), that one cell is now hit, all
/// other cells are as before, and a collision is recorded exactly when
/// one was already recorded or the new cell was lit.
proof fn lemma_step_set(op: u16, a: VM, row: int, col: int)
    requires
        0 <= col < 8,
        0 <= row < 16,
        drw_bit(op, a, row, col),
    ensures
        !drw_hits_upto(op, a, drw_target(op, a, row, col), row, col),
        drw_hits_upto(op, a, drw_target(op, a, row, col), row, col + 1),
        forall|p: int|
            p != drw_target(op, a, row, col) ==> #[trigger] drw_hits_upto(op, a, p, row, col + 1)
                == drw_hits_upto(op, a, p, row, col),
        drw_collides_upto(op, a, row, col + 1) == (drw_collides_upto(op, a, row, col) || a.gfx@[
            drw_target(op, a, row, col)] == 1),
{
    let q = drw_target(op, a, row, col);
    if drw_hits_upto(op, a, q, row, col) {
        let (r, c) = choose|r: int, c: int|
            0 <= r && 0 <= c < 8 && (r < row || (r == row && c < col)) && drw_bit(op, a, r, c)
                && drw_target(op, a, r, c) == q;
        lemma_target_unique(op, a, r, c, row, col);
        assert(false);
    }
    assert(drw_hits_upto(op, a, q, row, col + 1));
    assert forall|p: int|
        p != q implies #[trigger] drw_hits_upto(op, a, p, row, col + 1) == drw_hits_upto(
        op,
        a,
        p,
        row,
        col,
    ) by {
        if drw_hits_upto(op, a, p, row, col + 1) {
            let (r, c) = choose|r: int, c: int|
                0 <= r && 0 <= c < 8 && (r < row || (r == row && c < col + 1)) && drw_bit(
                    op,
                    a,
                    r,
                    c,
                ) && drw_target(op, a, r, c) == p;
            assert(!(r == row && c == col));
            assert(drw_hits_upto(op, a, p, row, col));
        }
        if drw_hits_upto(op, a, p, row, col) {
            assert(drw_hits_upto(op, a, p, row, col + 1));
        }
    }
    if drw_collides_upto(op, a, row, col + 1) {
        let (r, c) = choose|r: int, c: int|
            0 <= r && 0 <= c < 8 && (r < row || (r == row && c < col + 1)) && drw_bit(op, a, r, c)
                && a.gfx@[drw_target(op, a, r, c)] == 1;
        if r == row && c == col {
            assert(a.gfx@[q] == 1);
        } else {
            assert(drw_collides_upto(op, a, row, col));
        }
    }
    if drw_collides_upto(op, a, row, col) {
        assert(drw_collides_upto(op, a, row, col + 1));
    }
    if a.gfx@[q] == 1 {
        assert(drw_collides_upto(op, a, row, col + 1));
    }
}

/// Two states that agree on memory, the index register, the registers and
/// the framebuffer draw the same sprite the same way: which cells are hit
/// and whether the draw collides depend on those fields alone.
proof fn lemma_drw_specs_agree(op: u16, a1: VM, a2: VM)
    requires
        a2.memory@ == a1.memory@,
        a2.i == a1.i,
        a2.v@ == a1.v@,
        a2.gfx@ == a1.gfx@,
    ensures
        forall|p: int| #[trigger] drw_hits(op, a2, p) == drw_hits(op, a1, p),
        drw_collides(op, a2) == drw_collides(op, a1),
{
    let n = op_n(op) as int;
    assert forall|p: int| #[trigger] drw_hits(op, a2, p) == drw_hits(op, a1, p) by {
        if drw_hits(op, a1, p) {
            let (r, c) = choose|r: int, c: int|
                0 <= r && 0 <= c < 8 && (r < n || (r == n && c < 0)) && drw_bit(op, a1, r, c)
                    && drw_target(op, a1, r, c) == p;
            assert(drw_bit(op, a2, r, c));
            assert(drw_hits_upto(op, a2, p, n, 0));
        }
        if drw_hits(op, a2, p) {
            let (r, c) = choose|r: int, c: int|
                0 <= r && 0 <= c < 8 && (r < n || (r == n && c < 0)) && drw_bit(op, a2, r, c)
                    && drw_target(op, a2, r, c) == p;
            assert(drw_bit(op, a1, r, c));
            assert(drw_hits_upto(op, a1, p, n, 0));
        }
    }
    if drw_collides(op, a1) {
        let (r, c) = choose|r: int, c: int|
            0 <= r && 0 <= c < 8 && (r < n || (r == n && c < 0)) && drw_bit(op, a1, r, c) && a1.gfx@[
                drw_target(op, a1, r, c)] == 1;
        assert(drw_bit(op, a2, r, c));
        assert(drw_collides_upto(op, a2, n, 0));
    }
    if drw_collides(op, a2) {
        let (r, c) = choose|r: int, c: int|
            0 <= r && 0 <= c < 8 && (r < n || (r == n && c < 0)) && drw_bit(op, a2, r, c) && a2.gfx@[
                drw_target(op, a2, r, c)] == 1;
        assert(drw_bit(op, a1, r, c));
        assert(drw_collides_upto(op, a1, n, 0));
    }
}

/// A row boundary in the loop picture: everything applied below
/// (`row`, 8) is exactly everything applied below (`row + 1`, 0).
proof fn lemma_upto_row_wrap(op: u16, a: VM, row: int)
    ensures
        forall|p: int|
            #[trigger] drw_hits_upto(op, a, p, row + 1, 0) == drw_hits_upto(op, a, p, row, 8),
        drw_collides_upto(op, a, row + 1, 0) == drw_collides_upto(op, a, row, 8),
{
    assert forall|p: int|
        #[trigger] drw_hits_upto(op, a, p, row + 1, 0) == drw_hits_upto(op, a, p, row, 8) by {
        if drw_hits_upto(op, a, p, row + 1, 0) {
            let (r, c) = choose|r: int, c: int|
                0 <= r && 0 <= c < 8 && (r < row + 1 || (r == row + 1 && c < 0)) && drw_bit(
                    op,
                    a,
                    r,
                    c,
                ) && drw_target(op, a, r, c) == p;
            assert(r < row || (r == row && c < 8));
            assert(drw_hits_upto(op, a, p, row, 8));
        }
        if drw_hits_upto(op, a, p, row, 8) {
            assert(drw_hits_upto(op, a, p, row + 1, 0));
        }
    }
    if drw_collides_upto(op, a, row + 1, 0) {
        let (r, c) = choose|r: int, c: int|
            0 <= r && 0 <= c < 8 && (r < row + 1 || (r == row + 1 && c < 0)) && drw_bit(op, a, r, c)
                && a.gfx@[drw_target(op, a, r, c)] == 1;
        assert(r < row || (r == row && c < 8));
        assert(drw_collides_upto(op, a, row, 8));
    }
    if drw_collides_upto(op, a, row, 8) {
        assert(drw_collides_upto(op, a, row + 1, 0));
    }
}

} // verus!
