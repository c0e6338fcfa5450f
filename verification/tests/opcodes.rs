//! Per-opcode handler tests: each sets up a machine, latches an opcode,
//! runs one handler and checks the registers, memory, stack and counter it
//! leaves behind.

use emuchip8::vm::VM;

#[test]
fn ret() {
    let mut vm = VM::initialize(false);
    vm.stack[0] = 0x2E;
    vm.sp = 1;
    vm.ret();

    assert_eq!(vm.sp, 0);
    assert_eq!(vm.pc, 0x2E + 2);
}

#[test]
fn jp_addr() {
    let mut vm = VM::initialize(false);
    vm.opcode = 0x0666;
    vm.jp_addr();

    assert_eq!(vm.pc, 0x0666);
}

#[test]
fn call_addr() {
    let mut vm = VM::initialize(false);
    vm.pc = 0x444;
    vm.opcode = 0x2123;
    vm.call_addr();

    assert_eq!(vm.stack[0], 0x444);
    assert_eq!(vm.sp, 1);
    assert_eq!(vm.pc, 0x123);
}

#[test]
fn se_vx_byte_equals() {
    let mut vm = VM::initialize(false);
    vm.opcode = 0x3AFF;
    vm.v[0xA] = 0xFF;
    vm.se_vx_byte();

    assert_eq!(vm.pc, 0x204);
}

#[test]
fn se_vx_byte_not_equals() {
    let mut vm = VM::initialize(false);
    vm.opcode = 0x3AFF;
    vm.v[0xA] = 0xFA;
    vm.se_vx_byte();

    assert_eq!(vm.pc, 0x202);
}

#[test]
fn sne_vx_byte_equals() {
    let mut vm = VM::initialize(false);
    vm.opcode = 0x4BFF;
    vm.v[0xB] = 0xFF;
    vm.sne_vx_byte();

    assert_eq!(vm.pc, 0x202);
}

#[test]
fn sne_vx_byte_not_equals() {
    let mut vm = VM::initialize(false);
    vm.opcode = 0x4BFF;
    vm.v[0xB] = 0xFA;
    vm.sne_vx_byte();

    assert_eq!(vm.pc, 0x204);
}

#[test]
fn ld_vx_byte() {
    let mut vm = VM::initialize(false);
    vm.opcode = 0x6AFF;
    vm.ld_vx_byte();

    assert_eq!(vm.v[0xA], 0xFF);
    assert_eq!(vm.pc, 0x202);
}

#[test]
fn add_vx_byte() {
    let mut vm = VM::initialize(false);
    vm.opcode = 0x7A05;
    vm.v[0xA] = 0x7;
    vm.add_vx_byte();

    assert_eq!(vm.v[0xA], 0xC);
    assert_eq!(vm.pc, 0x202);
}

#[test]
fn and_vx_vy() {
    let mut vm = VM::initialize(false);
    vm.opcode = 0x8AB2;
    vm.v[0xA] = 0x2F;
    vm.v[0xB] = 0xAB;
    vm.and_vx_vy();

    assert_eq!(vm.v[0xA], 0x2B);
    assert_eq!(vm.pc, 0x202)
}

#[test]
fn ld_vx_vy() {
    let mut vm = VM::initialize(false);
    vm.opcode = 0x8070;
    vm.v[0x7] = 0xAA;
    vm.ld_vx_vy();

    assert_eq!(vm.v[0x0], 0xAA);
    assert_eq!(vm.pc, 0x202);
}

#[test]
fn add_vx_vy_zero_carry() {
    let mut vm = VM::initialize(false);
    vm.opcode = 0x8AB4;
    vm.v[0xA] = 0x2F;
    vm.v[0xB] = 0xAB;
    vm.add_vx_vy();

    assert_eq!(vm.v[0xA], 0xDA);
    assert_eq!(vm.v[0xF], 0);
    assert_eq!(vm.pc, 0x202)
}

#[test]
fn add_vx_vy_with_carry() {
    let mut vm = VM::initialize(false);
    vm.opcode = 0x8AB4;
    vm.v[0xA] = 0xFF;
    vm.v[0xB] = 0x2;
    vm.add_vx_vy();

    assert_eq!(vm.v[0xA], 0x1);
    assert_eq!(vm.v[0xF], 1);
    assert_eq!(vm.pc, 0x202)
}

#[test]
fn sub_vx_vy_no_borrow() {
    let mut vm = VM::initialize(false);
    vm.opcode = 0x8AB5;
    vm.v[0xA] = 0xFF;
    vm.v[0xB] = 0xAA;
    vm.sub_vx_vy();

    assert_eq!(vm.v[0xA], 0x55);
    assert_eq!(vm.v[0xF], 1);
    assert_eq!(vm.pc, 0x202);
}

#[test]
fn sub_vx_vy_borrow() {
    let mut vm = VM::initialize(false);
    vm.opcode = 0x8AB5;
    vm.v[0xA] = 0xAA;
    vm.v[0xB] = 0xFF;
    vm.sub_vx_vy();

    assert_eq!(vm.v[0xA], 0xAB);
    assert_eq!(vm.v[0xF], 0);
    assert_eq!(vm.pc, 0x202);
}

#[test]
fn ld_i_addr() {
    let mut vm = VM::initialize(false);
    vm.opcode = 0xA123;
    vm.ld_i_addr();

    assert_eq!(vm.i, 0x123);
    assert_eq!(vm.pc, 0x202);
}

#[test]
fn rnd_vx_byte() {
    let mut vm = VM::initialize(false);
    vm.opcode = 0xCA23;
    vm.v[0xA] = 0x0;
    // The deterministic core of the handler, with a byte the generator
    // could have produced; 0x62 & 0x23 is neither 0 nor 0x23.
    vm.rnd_vx_byte_with(0x62);

    assert_ne!(vm.v[0xA], 0x0);
    assert_ne!(vm.v[0xA], 0x23);
    assert_eq!(vm.pc, 0x202);
}

#[test]
fn drw_vx_vy_n() {
    let mut vm = VM::initialize(false);
    vm.opcode = 0xDAB3;
    vm.v[0xA] = 0x0;
    vm.v[0xB] = 0x0;
    vm.i = 0x200;
    vm.memory[0x200] = 0x3C;
    vm.memory[0x201] = 0xC3;
    vm.memory[0x202] = 0xFF;
    vm.drw_vx_vy_n();

    assert_eq!(vm.v[0xF], 0);
    assert_eq!(&vm.gfx[0..8], [0, 0, 1, 1, 1, 1, 0, 0]);
    assert_eq!(&vm.gfx[64..72], [1, 1, 0, 0, 0, 0, 1, 1]);
    assert_eq!(&vm.gfx[128..136], [1, 1, 1, 1, 1, 1, 1, 1]);
    assert_eq!(vm.pc, 0x202);
}

#[test]
fn drw_vx_vy_n_collision() {
    let mut vm = VM::initialize(false);
    vm.opcode = 0xDAB3;
    vm.v[0xA] = 0x0;
    vm.v[0xB] = 0x0;
    vm.i = 0x200;
    vm.memory[0x200] = 0x3C;
    vm.memory[0x201] = 0xC3;
    vm.memory[0x202] = 0xFF;
    vm.gfx[128] = 1;
    vm.drw_vx_vy_n();

    assert_eq!(vm.v[0xF], 1);
    assert_eq!(&vm.gfx[0..8], [0, 0, 1, 1, 1, 1, 0, 0]);
    assert_eq!(&vm.gfx[64..72], [1, 1, 0, 0, 0, 0, 1, 1]);
    assert_eq!(&vm.gfx[128..136], [0, 1, 1, 1, 1, 1, 1, 1]);
    assert_eq!(vm.pc, 0x202);
}

#[test]
fn sknp_vx_not_pressed() {
    let mut vm = VM::initialize(false);
    vm.opcode = 0xEAA1;
    vm.v[0xA] = 0xF;
    vm.key[0xF] = 0;
    vm.sknp_vx();

    assert_eq!(vm.pc, 0x204);
}

#[test]
fn sknp_vx_pressed() {
    let mut vm = VM::initialize(false);
    vm.opcode = 0xEAA1;
    vm.v[0xA] = 0xF;
    vm.key[0xF] = 1;
    vm.sknp_vx();

    assert_eq!(vm.pc, 0x202);
}

#[test]
fn ld_vx_dt() {
    let mut vm = VM::initialize(false);
    vm.opcode = 0xFA07;
    vm.delay_timer = 0x7;
    vm.ld_vx_dt();

    assert_eq!(vm.v[0xA], 0x7);
    assert_eq!(vm.pc, 0x202);
}

#[test]
fn ld_dt_vx() {
    let mut vm = VM::initialize(false);
    vm.opcode = 0xFA15;
    vm.v[0xA] = 0x7;
    vm.ld_dt_vx();

    assert_eq!(vm.delay_timer, 0x7);
    assert_eq!(vm.pc, 0x202);
}

#[test]
fn ld_st_vx() {
    let mut vm = VM::initialize(false);
    vm.opcode = 0xFA18;
    vm.v[0xA] = 0x7;
    vm.ld_st_vx();

    assert_eq!(vm.sound_timer, 0x7);
    assert_eq!(vm.pc, 0x202);
}

#[test]
fn ld_f_vx() {
    let mut vm = VM::initialize(false);
    vm.opcode = 0xFA29;
    vm.v[0xA] = 0x1;
    vm.ld_f_vx();

    assert_eq!(vm.i, 0x5);
    assert_eq!(vm.pc, 0x202);
}

#[test]
fn ld_b_vx() {
    let mut vm = VM::initialize(false);
    vm.opcode = 0xFA33;
    vm.v[0xA] = 0x7B;
    vm.i = 0x400;
    vm.ld_b_vx();

    assert_eq!(vm.memory[0x400], 0x1);
    assert_eq!(vm.memory[0x401], 0x2);
    assert_eq!(vm.memory[0x402], 0x3);
    assert_eq!(vm.pc, 0x202);
}

#[test]
fn ld_vx_i() {
    let mut vm = VM::initialize(false);
    vm.opcode = 0xF365;
    vm.memory[0x400] = 0x1;
    vm.memory[0x401] = 0x2;
    vm.memory[0x402] = 0x3;
    vm.i = 0x400;
    vm.ld_vx_i();

    assert_eq!(vm.v[0x0], 0x1);
    assert_eq!(vm.v[0x1], 0x2);
    assert_eq!(vm.v[0x2], 0x3);
    assert_eq!(vm.pc, 0x202);
}
