//! Read-only diagnostics: formatted snapshots of memory and of the
//! registers, pinned byte by byte by their contracts. The engine computes
//! the snapshots; printing them (on a fatal fault in debug mode, or on
//! demand) is the host's concern.

use vstd::prelude::*;

use crate::vm::VM;

verus! {

/// The ASCII uppercase hex digit for a nibble.
pub open spec fn hex_digit(n: u8) -> u8 {
    if n < 10 {
        (48 + n) as u8
    } else {
        (55 + n) as u8
    }
}

/// The ASCII uppercase hex digit for a nibble.
pub fn hex_digit_ex(n: u8) -> (r: u8)
    requires
        n < 16,
    ensures
        r == hex_digit(n),
{
    if n < 10 {
        48 + n
    } else {
        55 + n
    }
}

/// Character `q` of the memory dump: 512 lines of 32 bytes, each line
/// `0x` + a four-digit hex address + `:` + eight space-separated two-digit
/// hex bytes + a newline.
pub open spec fn mem_dump_byte(mem: Seq<u8>, q: int) -> u8 {
    let l = q / 32;
    let k = q % 32;
    let addr = l * 8;
    if k == 0 {
        48u8
    } else if k == 1 {
        120u8
    } else if k == 2 {
        hex_digit(((addr / 4096) % 16) as u8)
    } else if k == 3 {
        hex_digit(((addr / 256) % 16) as u8)
    } else if k == 4 {
        hex_digit(((addr / 16) % 16) as u8)
    } else if k == 5 {
        hex_digit((addr % 16) as u8)
    } else if k == 6 {
        58u8
    } else if k == 31 {
        10u8
    } else {
        let j = (k - 7) / 3;
        let t = (k - 7) % 3;
        if t == 0 {
            32u8
        } else if t == 1 {
            hex_digit((mem[l * 8 + j] / 16) as u8)
        } else {
            hex_digit((mem[l * 8 + j] % 16) as u8)
        }
    }
}

/// Character `q` of the register dump: sixteen lines `V<r>: <hex byte>`,
/// then `I: <hex word>`, `pc: <hex word>`, and `s[sp]: <hex word>` for
/// the stack slot at the stack pointer (the top slot when all sixteen are
/// in use).
pub open spec fn reg_dump_byte(vm: VM, q: int) -> u8 {
    if q < 112 {
        let r = q / 7;
        let t = q % 7;
        if t == 0 {
            86u8
        } else if t == 1 {
            hex_digit(r as u8)
        } else if t == 2 {
            58u8
        } else if t == 3 {
            32u8
        } else if t == 4 {
            hex_digit((vm.v@[r] / 16) as u8)
        } else if t == 5 {
            hex_digit((vm.v@[r] % 16) as u8)
        } else {
            10u8
        }
    } else if q < 120 {
        let t = q - 112;
        if t == 0 {
            73u8
        } else if t == 1 {
            58u8
        } else if t == 2 {
            32u8
        } else if t == 3 {
            hex_digit(((vm.i / 4096) % 16) as u8)
        } else if t == 4 {
            hex_digit(((vm.i / 256) % 16) as u8)
        } else if t == 5 {
            hex_digit(((vm.i / 16) % 16) as u8)
        } else if t == 6 {
            hex_digit((vm.i % 16) as u8)
        } else {
            10u8
        }
    } else if q < 129 {
        let t = q - 120;
        if t == 0 {
            112u8
        } else if t == 1 {
            99u8
        } else if t == 2 {
            58u8
        } else if t == 3 {
            32u8
        } else if t == 4 {
            hex_digit(((vm.pc / 4096) % 16) as u8)
        } else if t == 5 {
            hex_digit(((vm.pc / 256) % 16) as u8)
        } else if t == 6 {
            hex_digit(((vm.pc / 16) % 16) as u8)
        } else if t == 7 {
            hex_digit((vm.pc % 16) as u8)
        } else {
            10u8
        }
    } else {
        let t = q - 129;
        let sv = vm.stack@[if vm.sp < 16 {
            vm.sp as int
        } else {
            15
        }];
        if t == 0 {
            115u8
        } else if t == 1 {
            91u8
        } else if t == 2 {
            115u8
        } else if t == 3 {
            112u8
        } else if t == 4 {
            93u8
        } else if t == 5 {
            58u8
        } else if t == 6 {
            32u8
        } else if t == 7 {
            hex_digit(((sv / 4096) % 16) as u8)
        } else if t == 8 {
            hex_digit(((sv / 256) % 16) as u8)
        } else if t == 9 {
            hex_digit(((sv / 16) % 16) as u8)
        } else if t == 10 {
            hex_digit((sv % 16) as u8)
        } else {
            10u8
        }
    }
}

impl VM {
    /// A hex snapshot of all 4096 memory cells, eight bytes per line, as
    /// ASCII text.
    pub fn debug_memory(&self) -> (out: Vec<u8>)
        requires
            self.wf(),
        ensures
            out@.len() == 512 * 32,
            forall|q: int| 0 <= q < out@.len() ==> out@[q] == mem_dump_byte(self.memory@, q),
    {
        let mut out: Vec<u8> = Vec::new();
        let mut l: usize = 0;
        while l < 512
            invariant
                self.wf(),
                l <= 512,
                out@.len() == l * 32,
                forall|q: int| 0 <= q < out@.len() ==> out@[q] == mem_dump_byte(self.memory@, q),
            decreases 512 - l,
        {
            let addr = l * 8;
            out.push(48);
            out.push(120);
            out.push(hex_digit_ex(((addr / 4096) % 16) as u8));
            out.push(hex_digit_ex(((addr / 256) % 16) as u8));
            out.push(hex_digit_ex(((addr / 16) % 16) as u8));
            out.push(hex_digit_ex((addr % 16) as u8));
            out.push(58);
            let mut j: usize = 0;
            while j < 8
                invariant
                    self.wf(),
                    l < 512,
                    j <= 8,
                    addr == l * 8,
                    out@.len() == l * 32 + 7 + 3 * j,
                    forall|q: int|
                        0 <= q < out@.len() ==> out@[q] == mem_dump_byte(self.memory@, q),
                decreases 8 - j,
            {
                let b = self.memory[addr + j];
                out.push(32);
                out.push(hex_digit_ex(b / 16));
                out.push(hex_digit_ex(b % 16));
                j += 1;
            }
            out.push(10);
            l += 1;
        }
        out
    }

    /// A snapshot of the sixteen registers, the index register, the
    /// program counter and the stack slot at the stack pointer, as ASCII
    /// text.
    #[verifier::rlimit(100)]
    pub fn debug_registers(&self) -> (out: Vec<u8>)
        requires
            self.wf(),
        ensures
            out@.len() == 141,
            forall|q: int| 0 <= q < 141 ==> out@[q] == reg_dump_byte(*self, q),
    {
        let mut out: Vec<u8> = Vec::new();
        let mut r: usize = 0;
        while r < 16
            invariant
                self.wf(),
                r <= 16,
                out@.len() == r * 7,
                forall|q: int| 0 <= q < out@.len() ==> out@[q] == reg_dump_byte(*self, q),
            decreases 16 - r,
        {
            out.push(86);
            out.push(hex_digit_ex(r as u8));
            out.push(58);
            out.push(32);
            let b = self.v[r];
            out.push(hex_digit_ex(b / 16));
            out.push(hex_digit_ex(b % 16));
            out.push(10);
            r += 1;
        }
        out.push(73);
        out.push(58);
        out.push(32);
        let ival = self.i;
        out.push(hex_digit_ex(((ival / 4096) % 16) as u8));
        out.push(hex_digit_ex(((ival / 256) % 16) as u8));
        out.push(hex_digit_ex(((ival / 16) % 16) as u8));
        out.push(hex_digit_ex((ival % 16) as u8));
        out.push(10);
        proof {
            assert(out@[112] == reg_dump_byte(*self, 112));
            assert(out@[113] == reg_dump_byte(*self, 113));
            assert(out@[114] == reg_dump_byte(*self, 114));
            assert(out@[115] == reg_dump_byte(*self, 115));
            assert(out@[116] == reg_dump_byte(*self, 116));
            assert(out@[117] == reg_dump_byte(*self, 117));
            assert(out@[118] == reg_dump_byte(*self, 118));
            assert(out@[119] == reg_dump_byte(*self, 119));
            assert(forall|q: int| 0 <= q < 120 ==> out@[q] == reg_dump_byte(*self, q));
        }
        out.push(112);
        out.push(99);
        out.push(58);
        out.push(32);
        let pc = self.pc;
        out.push(hex_digit_ex(((pc / 4096) % 16) as u8));
        out.push(hex_digit_ex(((pc / 256) % 16) as u8));
        out.push(hex_digit_ex(((pc / 16) % 16) as u8));
        out.push(hex_digit_ex((pc % 16) as u8));
        out.push(10);
        proof {
            assert(out@[120] == reg_dump_byte(*self, 120));
            assert(out@[121] == reg_dump_byte(*self, 121));
            assert(out@[122] == reg_dump_byte(*self, 122));
            assert(out@[123] == reg_dump_byte(*self, 123));
            assert(out@[124] == reg_dump_byte(*self, 124));
            assert(out@[125] == reg_dump_byte(*self, 125));
            assert(out@[126] == reg_dump_byte(*self, 126));
            assert(out@[127] == reg_dump_byte(*self, 127));
            assert(out@[128] == reg_dump_byte(*self, 128));
            assert(forall|q: int| 0 <= q < 129 ==> out@[q] == reg_dump_byte(*self, q));
        }
        out.push(115);
        out.push(91);
        out.push(115);
        out.push(112);
        out.push(93);
        out.push(58);
        out.push(32);
        let slot = if self.sp < 16 {
            self.sp as usize
        } else {
            15
        };
        let sv = self.stack[slot];
        out.push(hex_digit_ex(((sv / 4096) % 16) as u8));
        out.push(hex_digit_ex(((sv / 256) % 16) as u8));
        out.push(hex_digit_ex(((sv / 16) % 16) as u8));
        out.push(hex_digit_ex((sv % 16) as u8));
        out.push(10);
        proof {
            assert(out@[129] == reg_dump_byte(*self, 129));
            assert(out@[130] == reg_dump_byte(*self, 130));
            assert(out@[131] == reg_dump_byte(*self, 131));
            assert(out@[132] == reg_dump_byte(*self, 132));
            assert(out@[133] == reg_dump_byte(*self, 133));
            assert(out@[134] == reg_dump_byte(*self, 134));
            assert(out@[135] == reg_dump_byte(*self, 135));
            assert(out@[136] == reg_dump_byte(*self, 136));
            assert(out@[137] == reg_dump_byte(*self, 137));
            assert(out@[138] == reg_dump_byte(*self, 138));
            assert(out@[139] == reg_dump_byte(*self, 139));
            assert(out@[140] == reg_dump_byte(*self, 140));
            assert(forall|q: int| 0 <= q < 141 ==> out@[q] == reg_dump_byte(*self, q));
        }
        out
    }
}

} // verus!
