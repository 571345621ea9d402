use chip8::isa::ISA;
use chip8::machine::Machine;
use chip8::machine::StepError;

#[test]
fn new_machine_is_zeroed() {
    let m = Machine::new();
    for k in 0..16 {
        assert_eq!(m.cpu().r[k], 0);
        assert!(!m.keys[k]);
    }
    assert_eq!(m.cpu().i, 0);
    assert_eq!(m.cpu().dt, 0);
    assert_eq!(m.cpu().st, 0);
    assert_eq!(m.cpu().pc, 0);
    assert_eq!(m.cpu().sp, 0);
    // font table present in ROM but not yet copied into RAM
    assert_eq!(m.mem().rom[0], 0xF0);
    assert_eq!(m.mem().rom[79], 0x80);
    assert_eq!(m.mem().ram[0], 0);
}

#[test]
fn reset_entry_state() {
    let mut m = Machine::new();
    m.reset();
    assert_eq!(m.cpu().pc, 0x200);
    assert_eq!(m.cpu().sp, 23);
    assert_eq!(m.mem().stack[23], 0x200);
}

#[test]
fn load_copies_font_and_program() {
    let mut m = Machine::new();
    let n = m.load(&[0x62, 0x05, 0x63, 0x03]);
    assert_eq!(n, 4);
    for k in 0..80 {
        assert_eq!(m.mem().ram[k], m.mem().rom[k]);
    }
    assert_eq!(m.mem().ram[0x200], 0x62);
    assert_eq!(m.mem().ram[0x201], 0x05);
    assert_eq!(m.mem().ram[0x202], 0x63);
    assert_eq!(m.mem().ram[0x203], 0x03);
    assert_eq!(m.cpu().pc, 0x200);
}

#[test]
fn load_truncates_at_ram_end() {
    let mut m = Machine::new();
    let big = vec![0xAAu8; 4000];
    let n = m.load(&big[..]);
    assert_eq!(n, 3584);
    assert_eq!(m.mem().ram[4095], 0xAA);
}

#[test]
fn end_to_end_load_add() {
    // LOAD r2, 5; LOAD r3, 3; ADDR r2, r3
    let mut m = Machine::new();
    m.load(&[0x62, 0x05, 0x63, 0x03, 0x82, 0x34]);
    let t1 = m.step().unwrap();
    assert_eq!(t1, (0x200, ISA::LOAD(2, 5)));
    assert_eq!(m.cpu().r[2], 5);
    let t2 = m.step().unwrap();
    assert_eq!(t2, (0x202, ISA::LOAD(3, 3)));
    assert_eq!(m.cpu().r[3], 3);
    let t3 = m.step().unwrap();
    assert_eq!(t3, (0x204, ISA::ADDR(2, 3)));
    assert_eq!(m.cpu().r[2], 8);
    assert_eq!(m.cpu().r[15], 0);
    assert_eq!(m.cpu().pc, 0x206);
}

#[test]
fn addr_carry_cases() {
    // 200 + 100 = 300: Vx = 44, VF = 1
    let mut m = Machine::new();
    m.load(&[0x61, 0xC8, 0x62, 0x64, 0x81, 0x24]);
    m.step().unwrap();
    m.step().unwrap();
    m.step().unwrap();
    assert_eq!(m.cpu().r[1], 44);
    assert_eq!(m.cpu().r[15], 1);
    // 100 + 100 = 200: no carry
    let mut m2 = Machine::new();
    m2.load(&[0x61, 0x64, 0x62, 0x64, 0x81, 0x24]);
    m2.step().unwrap();
    m2.step().unwrap();
    m2.step().unwrap();
    assert_eq!(m2.cpu().r[1], 200);
    assert_eq!(m2.cpu().r[15], 0);
}

#[test]
fn sub_borrow_cases() {
    // 7 - 9 borrows: Vx = 254, VF = 0
    let mut m = Machine::new();
    m.load(&[0x61, 0x07, 0x62, 0x09, 0x81, 0x25]);
    m.step().unwrap();
    m.step().unwrap();
    m.step().unwrap();
    assert_eq!(m.cpu().r[1], 254);
    assert_eq!(m.cpu().r[15], 0);
    // 9 - 7 does not borrow: Vx = 2, VF = 1
    let mut m2 = Machine::new();
    m2.load(&[0x61, 0x09, 0x62, 0x07, 0x81, 0x25]);
    m2.step().unwrap();
    m2.step().unwrap();
    m2.step().unwrap();
    assert_eq!(m2.cpu().r[1], 2);
    assert_eq!(m2.cpu().r[15], 1);
}

#[test]
fn subn_reverse_operands() {
    // SUBN r1, r2: r1 = r2 - r1; 9 - 7 = 2, VF = 1
    let mut m = Machine::new();
    m.load(&[0x61, 0x07, 0x62, 0x09, 0x81, 0x27]);
    m.step().unwrap();
    m.step().unwrap();
    m.step().unwrap();
    assert_eq!(m.cpu().r[1], 2);
    assert_eq!(m.cpu().r[15], 1);
}

#[test]
fn shr_ignores_y_and_reports_low_bit() {
    // SHR r10, r11 with V10 = 5, V11 = 77: V11 plays no part
    let mut m = Machine::new();
    m.load(&[0x6A, 0x05, 0x6B, 0x4D, 0x8A, 0xB6]);
    m.step().unwrap();
    m.step().unwrap();
    m.step().unwrap();
    assert_eq!(m.cpu().r[10], 2);
    assert_eq!(m.cpu().r[11], 77);
    assert_eq!(m.cpu().r[15], 1);
}

#[test]
fn shl_ignores_y_and_reports_high_bit() {
    // SHL r10, r11 with V10 = 0x81: V10 = 2, VF = 1
    let mut m = Machine::new();
    m.load(&[0x6A, 0x81, 0x6B, 0x4D, 0x8A, 0xBE]);
    m.step().unwrap();
    m.step().unwrap();
    m.step().unwrap();
    assert_eq!(m.cpu().r[10], 2);
    assert_eq!(m.cpu().r[11], 77);
    assert_eq!(m.cpu().r[15], 1);
}

#[test]
fn logic_and_move_ops() {
    // V1 = 0b1100, V2 = 0b1010: OR, AND, XOR, MOVE
    let mut m = Machine::new();
    m.load(&[0x61, 0x0C, 0x62, 0x0A, 0x81, 0x21]);
    m.step().unwrap();
    m.step().unwrap();
    m.step().unwrap();
    assert_eq!(m.cpu().r[1], 0x0E);
    let mut m2 = Machine::new();
    m2.load(&[0x61, 0x0C, 0x62, 0x0A, 0x81, 0x22]);
    m2.step().unwrap();
    m2.step().unwrap();
    m2.step().unwrap();
    assert_eq!(m2.cpu().r[1], 0x08);
    let mut m3 = Machine::new();
    m3.load(&[0x61, 0x0C, 0x62, 0x0A, 0x81, 0x23]);
    m3.step().unwrap();
    m3.step().unwrap();
    m3.step().unwrap();
    assert_eq!(m3.cpu().r[1], 0x06);
    let mut m4 = Machine::new();
    m4.load(&[0x61, 0x0C, 0x62, 0x0A, 0x81, 0x20]);
    m4.step().unwrap();
    m4.step().unwrap();
    m4.step().unwrap();
    assert_eq!(m4.cpu().r[1], 0x0A);
}

#[test]
fn add_immediate_wraps_without_flag() {
    // ADD r1, 10 onto 250 wraps to 4 and leaves VF alone
    let mut m = Machine::new();
    m.load(&[0x61, 0xFA, 0x71, 0x0A]);
    m.step().unwrap();
    m.step().unwrap();
    assert_eq!(m.cpu().r[1], 4);
    assert_eq!(m.cpu().r[15], 0);
}

#[test]
fn skip_family() {
    // SKE taken: V1 == 7 skips the next instruction
    let mut m = Machine::new();
    m.load(&[0x61, 0x07, 0x31, 0x07]);
    m.step().unwrap();
    let (pc, inst) = m.step().unwrap();
    assert_eq!((pc, inst), (0x202, ISA::SKE(1, 7)));
    assert_eq!(m.cpu().pc, 0x206);
    // SKE not taken
    let mut m2 = Machine::new();
    m2.load(&[0x61, 0x07, 0x31, 0x08]);
    m2.step().unwrap();
    m2.step().unwrap();
    assert_eq!(m2.cpu().pc, 0x204);
    // SKNE, SKRE, SKRNE
    let mut m3 = Machine::new();
    m3.load(&[0x61, 0x07, 0x41, 0x08]);
    m3.step().unwrap();
    m3.step().unwrap();
    assert_eq!(m3.cpu().pc, 0x206);
    let mut m4 = Machine::new();
    m4.load(&[0x61, 0x07, 0x62, 0x07, 0x51, 0x20]);
    m4.step().unwrap();
    m4.step().unwrap();
    m4.step().unwrap();
    assert_eq!(m4.cpu().pc, 0x208);
    let mut m5 = Machine::new();
    m5.load(&[0x61, 0x07, 0x62, 0x08, 0x91, 0x20]);
    m5.step().unwrap();
    m5.step().unwrap();
    m5.step().unwrap();
    assert_eq!(m5.cpu().pc, 0x208);
}

#[test]
fn jumps_set_pc() {
    let mut m = Machine::new();
    m.load(&[0x13, 0x00]);
    let t = m.step().unwrap();
    assert_eq!(t, (0x200, ISA::JP(0x300)));
    assert_eq!(m.cpu().pc, 0x300);
    let mut m2 = Machine::new();
    m2.load(&[0x03, 0x00]);
    let t2 = m2.step().unwrap();
    assert_eq!(t2, (0x200, ISA::SYS(0x300)));
    assert_eq!(m2.cpu().pc, 0x300);
    // JUMPI offsets by V0
    let mut m3 = Machine::new();
    m3.load(&[0x60, 0x04, 0xB3, 0x00]);
    m3.step().unwrap();
    m3.step().unwrap();
    assert_eq!(m3.cpu().pc, 0x304);
}

#[test]
fn call_ret_stack_discipline() {
    // CALL 0x210 from 0x200, then RET from 0x210
    let mut program = vec![0u8; 18];
    program[0] = 0x22;
    program[1] = 0x10;
    program[16] = 0x00;
    program[17] = 0xEE;
    let mut m = Machine::new();
    m.load(&program[..]);
    let sp0 = m.cpu().sp;
    let t1 = m.step().unwrap();
    assert_eq!(t1, (0x200, ISA::CALL(0x210)));
    assert_eq!(m.cpu().pc, 0x210);
    assert_eq!(m.cpu().sp, sp0 - 1);
    assert_eq!(m.mem().stack[m.cpu().sp], 0x202);
    let t2 = m.step().unwrap();
    assert_eq!(t2, (0x210, ISA::RET));
    assert_eq!(m.cpu().pc, 0x202);
    assert_eq!(m.cpu().sp, sp0);
}

#[test]
fn cls_zeroes_whole_framebuffer() {
    let mut m = Machine::new();
    m.load(&[0x00, 0xE0]);
    for p in 0..2048 {
        m.memory.fb[p] = (p % 251) as u8 + 1;
    }
    m.step().unwrap();
    for p in 0..2048 {
        assert_eq!(m.mem().fb[p], 0);
    }
}

#[test]
fn tick_saturates_at_zero() {
    let mut m = Machine::new();
    m.cpu.dt = 2;
    m.cpu.st = 1;
    m.tick();
    assert_eq!(m.cpu().dt, 1);
    assert_eq!(m.cpu().st, 0);
    m.tick();
    assert_eq!(m.cpu().dt, 0);
    assert_eq!(m.cpu().st, 0);
    m.tick();
    m.tick();
    assert_eq!(m.cpu().dt, 0);
    assert_eq!(m.cpu().st, 0);
}

#[test]
fn timers_load_and_read() {
    // LOADD, LOADS, MOVED
    let mut m = Machine::new();
    m.load(&[0x61, 0x2A, 0xF1, 0x15, 0xF1, 0x18, 0xF2, 0x07]);
    m.step().unwrap();
    m.step().unwrap();
    assert_eq!(m.cpu().dt, 42);
    m.step().unwrap();
    assert_eq!(m.cpu().st, 42);
    m.step().unwrap();
    assert_eq!(m.cpu().r[2], 42);
}

#[test]
fn keyd_waits_without_mutation() {
    // KEYD r2 with no key pressed: PC and registers unchanged
    let mut m = Machine::new();
    m.load(&[0xF2, 0x0A]);
    let regs_before = m.cpu().r;
    let t = m.step().unwrap();
    assert_eq!(t, (0x200, ISA::KEYD(2)));
    assert_eq!(m.cpu().pc, 0x200);
    assert_eq!(m.cpu().r, regs_before);
}

#[test]
fn keyd_takes_lowest_pressed_key() {
    let mut m = Machine::new();
    m.load(&[0xF2, 0x0A]);
    m.set_key(7, true);
    m.set_key(11, true);
    m.step().unwrap();
    assert_eq!(m.cpu().r[2], 7);
    assert!(!m.keys[7]);
    assert!(m.keys[11]);
    assert_eq!(m.cpu().pc, 0x202);
}

#[test]
fn skpr_skup_read_key_state() {
    let mut m = Machine::new();
    m.load(&[0x61, 0x05, 0xE1, 0x9E]);
    m.set_key(5, true);
    m.step().unwrap();
    m.step().unwrap();
    assert_eq!(m.cpu().pc, 0x206);
    let mut m2 = Machine::new();
    m2.load(&[0x61, 0x05, 0xE1, 0xA1]);
    m2.step().unwrap();
    m2.step().unwrap();
    assert_eq!(m2.cpu().pc, 0x206);
}

#[test]
fn draw_collision_clears_pixel_and_sets_flag() {
    // pre-light pixel (0,0); sprite byte 0x80 at I, count 1, Vx = Vy = 0
    let mut m = Machine::new();
    m.load(&[0xD0, 0x01]);
    m.memory.ram[0x300] = 0x80;
    m.cpu.i = 0x300;
    m.memory.fb[0] = 0xFF;
    m.step().unwrap();
    assert_eq!(m.mem().fb[0], 0);
    assert_eq!(m.cpu().r[15], 1);
}

#[test]
fn draw_lights_and_wraps() {
    // V0 = 63: sprite bits 0 and 1 land on x = 63 and wrap to x = 0
    let mut m = Machine::new();
    m.load(&[0x60, 0x3F, 0xD0, 0x11]);
    m.memory.ram[0x300] = 0xC0;
    m.cpu.i = 0x300;
    m.step().unwrap();
    m.step().unwrap();
    assert_eq!(m.mem().fb[63], 0xFF);
    assert_eq!(m.mem().fb[0], 0xFF);
    assert_eq!(m.cpu().r[15], 0);
    assert_eq!(m.mem().fb[1], 0);
}

#[test]
fn ldspr_selects_font_glyph() {
    // LDSPR r4 with V4 = 0xAB: low nibble 0xB selects glyph 11, offset 55
    let mut m = Machine::new();
    m.load(&[0x64, 0xAB, 0xF4, 0x29]);
    m.step().unwrap();
    m.step().unwrap();
    assert_eq!(m.cpu().i, 55);
}

#[test]
fn loadi_and_addi() {
    let mut m = Machine::new();
    m.load(&[0xA3, 0x00, 0x61, 0x05, 0xF1, 0x1E]);
    m.step().unwrap();
    assert_eq!(m.cpu().i, 0x300);
    m.step().unwrap();
    m.step().unwrap();
    assert_eq!(m.cpu().i, 0x305);
}

#[test]
fn bcd_writes_decimal_digits() {
    let mut m = Machine::new();
    m.load(&[0x63, 0xFE, 0xA4, 0x00, 0xF3, 0x33]);
    m.step().unwrap();
    m.step().unwrap();
    m.step().unwrap();
    assert_eq!(m.mem().ram[0x400], 2);
    assert_eq!(m.mem().ram[0x401], 5);
    assert_eq!(m.mem().ram[0x402], 4);
}

#[test]
fn stor_and_read_roundtrip() {
    // write V0..V2 to RAM at I, clobber them, read them back
    let mut m = Machine::new();
    m.load(&[
        0x60, 0x11, 0x61, 0x22, 0x62, 0x33, 0xA5, 0x00, 0xF2, 0x55, 0x60, 0x00, 0x61, 0x00, 0x62,
        0x00, 0xF2, 0x65,
    ]);
    for _ in 0..5 {
        m.step().unwrap();
    }
    assert_eq!(m.mem().ram[0x500], 0x11);
    assert_eq!(m.mem().ram[0x501], 0x22);
    assert_eq!(m.mem().ram[0x502], 0x33);
    for _ in 0..4 {
        m.step().unwrap();
    }
    assert_eq!(m.cpu().r[0], 0x11);
    assert_eq!(m.cpu().r[1], 0x22);
    assert_eq!(m.cpu().r[2], 0x33);
}

#[test]
fn rand_masks_result() {
    let mut m = Machine::new();
    m.load(&[0xC5, 0x0F]);
    m.step().unwrap();
    assert_eq!(m.cpu().r[5] & 0xF0, 0);
    assert_eq!(m.cpu().pc, 0x202);
}

#[test]
fn fetch_failure_at_ram_end() {
    let mut m = Machine::new();
    m.reset();
    m.cpu.pc = 4095;
    let before_sp = m.cpu().sp;
    let r = m.step();
    assert_eq!(r, Err(StepError::Fetch));
    assert_eq!(m.cpu().pc, 4095);
    assert_eq!(m.cpu().sp, before_sp);
}

#[test]
fn invalid_opcode_is_reported_not_fatal() {
    let mut m = Machine::new();
    m.load(&[0x80, 0x08]);
    let r = m.step();
    assert_eq!(r, Err(StepError::InvalidOpcode { opcode: 0x8008, addr: 0x200 }));
    // the failure corrupts nothing: PC still points at the bad opcode
    assert_eq!(m.cpu().pc, 0x200);
}

#[test]
fn set_key_reflects_in_key_state() {
    let mut m = Machine::new();
    m.set_key(3, true);
    assert!(m.keys[3]);
    m.set_key(3, false);
    assert!(!m.keys[3]);
}
