//! Machine-level tests: initialization, loading, whole cycles through the
//! decoder, the fault paths, the draw wraparound and involution, the
//! timers, and the diagnostic dumps.

use emuchip8::isa::Fault;
use emuchip8::vm::VM;

#[test]
fn initialize_state() {
    let vm = VM::initialize(true);
    assert_eq!(vm.pc, 0x200);
    assert_eq!(vm.opcode, 0);
    assert_eq!(vm.i, 0);
    assert_eq!(vm.sp, 0);
    assert_eq!(vm.delay_timer, 0);
    assert_eq!(vm.sound_timer, 0xFF);
    assert!(!vm.draw_flag);
    assert!(vm.debug);
    assert_eq!(vm.memory.len(), 4096);
    assert!(vm.memory.iter().all(|&b| b == 0));
    assert_eq!(vm.v.len(), 16);
    assert_eq!(vm.stack.len(), 16);
    assert_eq!(vm.key.len(), 16);
    assert_eq!(vm.gfx.len(), 64 * 32);
    assert!(vm.gfx.iter().all(|&b| b == 0));
}

#[test]
fn load_fontset_writes_table() {
    let mut vm = VM::initialize(false);
    vm.load_fontset();
    // Glyph 0 starts the table, glyph F ends it.
    assert_eq!(&vm.memory[0..5], [0xF0, 0x90, 0x90, 0x90, 0xF0]);
    assert_eq!(&vm.memory[75..80], [0xF0, 0x80, 0xF0, 0x80, 0x80]);
    // Nothing past the table is touched.
    assert!(vm.memory[80..].iter().all(|&b| b == 0));
}

#[test]
fn load_game_copies_at_0x200() {
    let mut vm = VM::initialize(false);
    let rom = vec![0xA2u8, 0xF0, 0xD0, 0x11];
    assert!(vm.load_game(&rom));
    assert_eq!(&vm.memory[0x200..0x204], [0xA2, 0xF0, 0xD0, 0x11]);
    assert_eq!(vm.memory[0x1FF], 0);
    assert_eq!(vm.memory[0x204], 0);
}

#[test]
fn load_game_accepts_largest_image() {
    let mut vm = VM::initialize(false);
    let rom = vec![0x55u8; 3584];
    assert!(vm.load_game(&rom));
    assert_eq!(vm.memory[0x200], 0x55);
    assert_eq!(vm.memory[4095], 0x55);
}

#[test]
fn load_game_refuses_oversized_image() {
    let mut vm = VM::initialize(false);
    let rom = vec![0x55u8; 3585];
    assert!(!vm.load_game(&rom));
    assert!(vm.memory.iter().all(|&b| b == 0));
}

#[test]
fn set_keys_leaves_machine_alone() {
    let mut vm = VM::initialize(false);
    vm.key[3] = 1;
    vm.set_keys();
    assert_eq!(vm.key[3], 1);
    assert_eq!(vm.pc, 0x200);
}

#[test]
fn cycle_executes_one_instruction_and_steps_timers() {
    let mut vm = VM::initialize(false);
    // 6A2A: LD VA, 0x2A.
    let rom = vec![0x6Au8, 0x2A];
    assert!(vm.load_game(&rom));
    vm.delay_timer = 5;
    vm.sound_timer = 1;
    assert_eq!(vm.emulate_cycle(), Ok(()));
    assert_eq!(vm.v[0xA], 0x2A);
    assert_eq!(vm.pc, 0x202);
    assert_eq!(vm.opcode, 0x6A2A);
    assert_eq!(vm.delay_timer, 4);
    assert_eq!(vm.sound_timer, 0);
}

#[test]
fn cycle_timer_at_zero_stays_at_zero() {
    let mut vm = VM::initialize(false);
    // 1200: JP 0x200, an idle loop.
    let rom = vec![0x12u8, 0x00];
    assert!(vm.load_game(&rom));
    vm.delay_timer = 0;
    vm.sound_timer = 0;
    for _ in 0..3 {
        assert_eq!(vm.emulate_cycle(), Ok(()));
        assert_eq!(vm.delay_timer, 0);
        assert_eq!(vm.sound_timer, 0);
    }
}

#[test]
fn cycle_halts_on_unsupported_opcode() {
    let mut vm = VM::initialize(false);
    // 8AB1 (OR) is outside the supported table.
    let rom = vec![0x8Au8, 0xB1];
    assert!(vm.load_game(&rom));
    vm.delay_timer = 5;
    assert_eq!(vm.emulate_cycle(), Err(Fault::UnsupportedOpcode(0x8AB1)));
    // The machine halted where it was: no advance, no timer step.
    assert_eq!(vm.pc, 0x200);
    assert_eq!(vm.delay_timer, 5);
    assert_eq!(vm.unsupported_opcode(), Fault::UnsupportedOpcode(0x8AB1));
}

#[test]
fn cycle_call_then_ret_round_trip() {
    let mut vm = VM::initialize(false);
    // 0x200: CALL 0x204; 0x204: RET.
    let rom = vec![0x22u8, 0x04, 0x00, 0x00, 0x00, 0xEE];
    assert!(vm.load_game(&rom));
    assert_eq!(vm.emulate_cycle(), Ok(()));
    assert_eq!(vm.pc, 0x204);
    assert_eq!(vm.sp, 1);
    assert_eq!(vm.stack[0], 0x200);
    assert_eq!(vm.emulate_cycle(), Ok(()));
    assert_eq!(vm.pc, 0x202);
    assert_eq!(vm.sp, 0);
}

#[test]
fn cycle_ret_underflow_faults() {
    let mut vm = VM::initialize(false);
    let rom = vec![0x00u8, 0xEE];
    assert!(vm.load_game(&rom));
    assert_eq!(vm.emulate_cycle(), Err(Fault::StackUnderflow));
    assert_eq!(vm.pc, 0x200);
    assert_eq!(vm.sp, 0);
}

#[test]
fn cycle_call_overflow_faults() {
    let mut vm = VM::initialize(false);
    // 0x200: CALL 0x200, sixteen times fills the stack; the next faults.
    let rom = vec![0x22u8, 0x00];
    assert!(vm.load_game(&rom));
    for depth in 1..=16u16 {
        assert_eq!(vm.emulate_cycle(), Ok(()));
        assert_eq!(vm.sp, depth);
    }
    assert_eq!(vm.emulate_cycle(), Err(Fault::StackOverflow));
    assert_eq!(vm.sp, 16);
    assert_eq!(vm.pc, 0x200);
}

#[test]
fn cycle_fetch_out_of_bounds_faults() {
    let mut vm = VM::initialize(false);
    vm.pc = 4095;
    assert_eq!(vm.emulate_cycle(), Err(Fault::FetchOutOfBounds));
    assert_eq!(vm.pc, 4095);
}

#[test]
fn cycle_bcd_address_out_of_bounds_faults() {
    let mut vm = VM::initialize(false);
    // FA33: LD B, VA with I too close to the end of memory.
    let rom = vec![0xFAu8, 0x33];
    assert!(vm.load_game(&rom));
    vm.i = 4094;
    assert_eq!(vm.emulate_cycle(), Err(Fault::AddressOutOfBounds));
    assert_eq!(vm.pc, 0x200);
}

#[test]
fn cycle_sprite_address_out_of_bounds_faults() {
    let mut vm = VM::initialize(false);
    // DAB3: a three-row sprite read from I = 4094 runs past memory.
    let rom = vec![0xDAu8, 0xB3];
    assert!(vm.load_game(&rom));
    vm.i = 4094;
    assert_eq!(vm.emulate_cycle(), Err(Fault::AddressOutOfBounds));
    assert_eq!(vm.pc, 0x200);
}

#[test]
fn cycle_key_out_of_range_faults() {
    let mut vm = VM::initialize(false);
    // EAA1: SKNP VA with VA past the sixteen keys.
    let rom = vec![0xEAu8, 0xA1];
    assert!(vm.load_game(&rom));
    vm.v[0xA] = 16;
    assert_eq!(vm.emulate_cycle(), Err(Fault::KeyOutOfRange));
    assert_eq!(vm.pc, 0x200);
}

#[test]
fn rnd_masks_drawn_byte() {
    let mut vm = VM::initialize(false);
    vm.opcode = 0xCA0F;
    vm.v[0xA] = 0xFF;
    vm.rnd_vx_byte();
    // Whatever byte came out of the generator, the high nibble is masked
    // away and the counter advanced.
    assert_eq!(vm.v[0xA] & 0xF0, 0);
    assert_eq!(vm.pc, 0x202);
}

#[test]
fn add_vx_byte_wraps() {
    let mut vm = VM::initialize(false);
    // 7A10 on VA = 0xF8 wraps to 0x08 with no carry flag.
    vm.opcode = 0x7A10;
    vm.v[0xA] = 0xF8;
    vm.v[0xF] = 0x3;
    vm.add_vx_byte();
    assert_eq!(vm.v[0xA], 0x08);
    assert_eq!(vm.v[0xF], 0x3);
    assert_eq!(vm.pc, 0x202);
}

#[test]
fn ld_f_vx_large_glyph_index() {
    let mut vm = VM::initialize(false);
    // The index register takes five times the register value even past
    // the sixteen real glyphs.
    vm.opcode = 0xFA29;
    vm.v[0xA] = 0xFF;
    vm.ld_f_vx();
    assert_eq!(vm.i, 1275);
    assert_eq!(vm.pc, 0x202);
}

#[test]
fn bcd_zero_and_largest() {
    let mut vm = VM::initialize(false);
    vm.opcode = 0xFA33;
    vm.v[0xA] = 0;
    vm.i = 0x300;
    vm.ld_b_vx();
    assert_eq!(&vm.memory[0x300..0x303], [0, 0, 0]);

    vm.opcode = 0xFB33;
    vm.v[0xB] = 255;
    vm.i = 0x310;
    vm.ld_b_vx();
    assert_eq!(&vm.memory[0x310..0x313], [2, 5, 5]);
}

#[test]
fn drw_twice_clears_and_collides() {
    let mut vm = VM::initialize(false);
    vm.opcode = 0xDAB3;
    vm.v[0xA] = 4;
    vm.v[0xB] = 2;
    vm.i = 0x200;
    vm.memory[0x200] = 0x3C;
    vm.memory[0x201] = 0xC3;
    vm.memory[0x202] = 0xFF;
    vm.drw_vx_vy_n();
    assert_eq!(vm.v[0xF], 0);
    assert!(vm.gfx.iter().any(|&b| b == 1));
    vm.drw_vx_vy_n();
    // The XOR involution: the second identical draw restores every cell
    // and reports the self-collision.
    assert_eq!(vm.v[0xF], 1);
    assert!(vm.gfx.iter().all(|&b| b == 0));
}

#[test]
fn drw_x_overrun_bleeds_into_next_row() {
    let mut vm = VM::initialize(false);
    // One row of eight set bits at x = 62, y = 0: columns 62 and 63, then
    // cells 64..70 — the start of row 1, not a wrap within row 0.
    vm.opcode = 0xDAB1;
    vm.v[0xA] = 62;
    vm.v[0xB] = 0;
    vm.i = 0x200;
    vm.memory[0x200] = 0xFF;
    vm.drw_vx_vy_n();
    assert_eq!(vm.gfx[62], 1);
    assert_eq!(vm.gfx[63], 1);
    for p in 64..70 {
        assert_eq!(vm.gfx[p], 1);
    }
    // An independent x wrap would have lit the first cells of row 0.
    assert_eq!(vm.gfx[0], 0);
    assert_eq!(vm.gfx[1], 0);
    assert!(vm.draw_flag);
}

#[test]
fn drw_y_overrun_wraps_to_top() {
    let mut vm = VM::initialize(false);
    // Two rows at y = 31: the first fills the last row, the second wraps
    // to the top of the screen.
    vm.opcode = 0xDAB2;
    vm.v[0xA] = 0;
    vm.v[0xB] = 31;
    vm.i = 0x200;
    vm.memory[0x200] = 0x80;
    vm.memory[0x201] = 0x80;
    vm.drw_vx_vy_n();
    assert_eq!(vm.gfx[31 * 64], 1);
    assert_eq!(vm.gfx[0], 1);
}

#[test]
fn draw_flag_raised_by_draw_only() {
    let mut vm = VM::initialize(false);
    let rom = vec![0x6Au8, 0x2A, 0xDA, 0xB1];
    assert!(vm.load_game(&rom));
    vm.memory[0x300] = 0xFF;
    vm.i = 0x300;
    assert_eq!(vm.emulate_cycle(), Ok(()));
    assert!(!vm.draw_flag);
    assert_eq!(vm.emulate_cycle(), Ok(()));
    assert!(vm.draw_flag);
}

#[test]
fn skip_strides_through_cycle() {
    let mut vm = VM::initialize(false);
    // 3A07: SE VA, 7 with VA = 7 skips; the skipped slot holds 4B07,
    // which would otherwise skip again.
    let rom = vec![0x3Au8, 0x07, 0x4B, 0x07, 0x3A, 0x08];
    assert!(vm.load_game(&rom));
    vm.v[0xA] = 7;
    assert_eq!(vm.emulate_cycle(), Ok(()));
    assert_eq!(vm.pc, 0x204);
    assert_eq!(vm.emulate_cycle(), Ok(()));
    assert_eq!(vm.pc, 0x206);
}

#[test]
fn debug_memory_formats_lines() {
    let mut vm = VM::initialize(false);
    vm.memory[8] = 0xAB;
    let out = vm.debug_memory();
    assert_eq!(out.len(), 512 * 32);
    let text = String::from_utf8(out).unwrap();
    let lines: Vec<&str> = text.lines().collect();
    assert_eq!(lines.len(), 512);
    assert_eq!(lines[0], "0x0000: 00 00 00 00 00 00 00 00");
    assert_eq!(lines[1], "0x0008: AB 00 00 00 00 00 00 00");
    assert_eq!(lines[511], "0x0FF8: 00 00 00 00 00 00 00 00");
}

#[test]
fn debug_registers_formats_lines() {
    let mut vm = VM::initialize(false);
    vm.v[0] = 0x07;
    vm.v[15] = 0xC4;
    vm.i = 0x123;
    let out = vm.debug_registers();
    let text = String::from_utf8(out).unwrap();
    let lines: Vec<&str> = text.lines().collect();
    assert_eq!(lines.len(), 19);
    assert_eq!(lines[0], "V0: 07");
    assert_eq!(lines[15], "VF: C4");
    assert_eq!(lines[16], "I: 0123");
    assert_eq!(lines[17], "pc: 0200");
    assert_eq!(lines[18], "s[sp]: 0000");
}
