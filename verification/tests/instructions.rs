use chip8::cpu::Cpu;
use chip8::machine::Chip8Error;

#[test]
fn load_immediate_sets_register_and_advances() {
    let mut c = Cpu::new();
    assert_eq!(c.get_pc(), 0x200);
    let r = c.execute_opcode(0x6A42, 0);
    assert!(r.is_ok());
    assert_eq!(c.get_v(0xA), 0x42);
    assert_eq!(c.get_pc(), 0x202);
}

#[test]
fn add_immediate_wraps_without_fault() {
    let mut c = Cpu::new();
    c.execute_opcode(0x6AFF, 0).unwrap();
    let r = c.execute_opcode(0x7A03, 0);
    assert!(r.is_ok());
    assert_eq!(c.get_v(0xA), 2);
    // the wrap never touches the flag register
    assert_eq!(c.get_v(0xF), 0);
    assert_eq!(c.get_pc(), 0x204);
}

#[test]
fn register_copy_and_bitwise_ops() {
    let mut c = Cpu::new();
    c.execute_opcode(0x610F, 0).unwrap(); // V1 = 0x0F
    c.execute_opcode(0x6233, 0).unwrap(); // V2 = 0x33
    c.execute_opcode(0x8120, 0).unwrap(); // V1 = V2
    assert_eq!(c.get_v(1), 0x33);
    c.execute_opcode(0x610F, 0).unwrap();
    c.execute_opcode(0x8121, 0).unwrap(); // V1 |= V2
    assert_eq!(c.get_v(1), 0x3F);
    c.execute_opcode(0x610F, 0).unwrap();
    c.execute_opcode(0x8122, 0).unwrap(); // V1 &= V2
    assert_eq!(c.get_v(1), 0x03);
    c.execute_opcode(0x610F, 0).unwrap();
    c.execute_opcode(0x8123, 0).unwrap(); // V1 ^= V2
    assert_eq!(c.get_v(1), 0x3C);
}

#[test]
fn add_with_carry_flag() {
    let mut c = Cpu::new();
    c.execute_opcode(0x61C8, 0).unwrap(); // V1 = 200
    c.execute_opcode(0x6264, 0).unwrap(); // V2 = 100
    c.execute_opcode(0x8124, 0).unwrap(); // V1 += V2
    assert_eq!(c.get_v(1), 44); // 300 mod 256
    assert_eq!(c.get_v(0xF), 1);
    c.execute_opcode(0x6110, 0).unwrap();
    c.execute_opcode(0x6220, 0).unwrap();
    c.execute_opcode(0x8124, 0).unwrap();
    assert_eq!(c.get_v(1), 0x30);
    assert_eq!(c.get_v(0xF), 0);
}

#[test]
fn subtract_with_borrow_flags() {
    let mut c = Cpu::new();
    c.execute_opcode(0x6105, 0).unwrap();
    c.execute_opcode(0x6203, 0).unwrap();
    c.execute_opcode(0x8125, 0).unwrap(); // V1 -= V2
    assert_eq!(c.get_v(1), 2);
    assert_eq!(c.get_v(0xF), 1); // Vx > Vy
    c.execute_opcode(0x6103, 0).unwrap();
    c.execute_opcode(0x6205, 0).unwrap();
    c.execute_opcode(0x8125, 0).unwrap();
    assert_eq!(c.get_v(1), 254); // 3 - 5 wraps
    assert_eq!(c.get_v(0xF), 0);
    c.execute_opcode(0x6103, 0).unwrap();
    c.execute_opcode(0x6205, 0).unwrap();
    c.execute_opcode(0x8127, 0).unwrap(); // V1 = V2 - V1
    assert_eq!(c.get_v(1), 2);
    assert_eq!(c.get_v(0xF), 1); // Vy > Vx
}

#[test]
fn shifts_report_shifted_out_bit() {
    let mut c = Cpu::new();
    c.execute_opcode(0x6105, 0).unwrap(); // V1 = 0b101
    c.execute_opcode(0x8106, 0).unwrap(); // V1 >>= 1
    assert_eq!(c.get_v(1), 2);
    assert_eq!(c.get_v(0xF), 1); // old LSB
    c.execute_opcode(0x61C1, 0).unwrap(); // V1 = 0b1100_0001
    c.execute_opcode(0x810E, 0).unwrap(); // V1 <<= 1
    assert_eq!(c.get_v(1), 0x82);
    assert_eq!(c.get_v(0xF), 1); // old MSB
    c.execute_opcode(0x6141, 0).unwrap();
    c.execute_opcode(0x810E, 0).unwrap();
    assert_eq!(c.get_v(1), 0x82);
    assert_eq!(c.get_v(0xF), 0);
}

#[test]
fn skip_instructions_take_and_fall_through() {
    let mut c = Cpu::new();
    c.execute_opcode(0x6107, 0).unwrap(); // pc = 0x202
    c.execute_opcode(0x3107, 0).unwrap(); // equal: skip
    assert_eq!(c.get_pc(), 0x206);
    c.execute_opcode(0x3108, 0).unwrap(); // not equal: no skip
    assert_eq!(c.get_pc(), 0x208);
    c.execute_opcode(0x4108, 0).unwrap(); // not equal: skip
    assert_eq!(c.get_pc(), 0x20C);
    c.execute_opcode(0x6207, 0).unwrap();
    c.execute_opcode(0x5120, 0).unwrap(); // V1 == V2: skip
    assert_eq!(c.get_pc(), 0x212);
    c.execute_opcode(0x9120, 0).unwrap(); // V1 == V2: no skip
    assert_eq!(c.get_pc(), 0x214);
}

#[test]
fn jumps_and_index_register() {
    let mut c = Cpu::new();
    c.execute_opcode(0x1ABC, 0).unwrap();
    assert_eq!(c.get_pc(), 0xABC);
    c.execute_opcode(0xA123, 0).unwrap();
    assert_eq!(c.get_i(), 0x123);
    assert_eq!(c.get_pc(), 0xABE);
}

#[test]
fn jump_with_offset_masks_the_sum() {
    let mut c = Cpu::new();
    c.execute_opcode(0x6005, 0).unwrap(); // V0 = 5
    c.execute_opcode(0xBFFE, 0).unwrap();
    // (5 + 0xFFE) masked to 12 bits, not 5 + (0xFFE masked)
    assert_eq!(c.get_pc(), 0x003);
}

#[test]
fn random_byte_is_masked() {
    let mut c = Cpu::new();
    c.execute_opcode(0x6177, 0).unwrap(); // V1 = 0x77
    let r = c.execute_opcode(0xC100, 0);
    assert!(r.is_ok());
    // kk = 0: whatever byte was drawn, the AND clears every bit
    assert_eq!(c.get_v(1), 0);
    assert_eq!(c.get_pc(), 0x204);
}

#[test]
fn call_and_return_round_trip() {
    let mut c = Cpu::new();
    c.execute_opcode(0x2ABC, 0).unwrap();
    assert_eq!(c.get_pc(), 0xABC);
    c.execute_opcode(0x00EE, 0).unwrap();
    // back at the instruction after the call
    assert_eq!(c.get_pc(), 0x202);
}

#[test]
fn seventeenth_nested_call_overflows() {
    let mut c = Cpu::new();
    for _ in 0..16 {
        c.execute_opcode(0x2222, 0).unwrap();
    }
    let pc_before = c.get_pc();
    let r = c.execute_opcode(0x2222, 0);
    assert_eq!(r, Err(Chip8Error::StackOverflow));
    assert_eq!(c.get_pc(), pc_before);
    // the sixteen pending returns unwind to the very first call site
    for _ in 0..15 {
        c.execute_opcode(0x00EE, 0).unwrap();
        assert_eq!(c.get_pc(), 0x224);
    }
    c.execute_opcode(0x00EE, 0).unwrap();
    assert_eq!(c.get_pc(), 0x202);
}

#[test]
fn return_with_empty_stack_underflows() {
    let mut c = Cpu::new();
    let r = c.execute_opcode(0x00EE, 0);
    assert_eq!(r, Err(Chip8Error::StackUnderflow));
    assert_eq!(c.get_pc(), 0x200);
}

#[test]
fn unknown_opcodes_are_invalid_with_diagnostics() {
    let mut c = Cpu::new();
    let r = c.execute_opcode(0x5A21, 0);
    assert_eq!(
        r,
        Err(Chip8Error::InvalidInstruction { address: 0x200, raw: 0x5A21 })
    );
    assert_eq!(c.get_pc(), 0x200);
    let r = c.execute_opcode(0x0000, 0);
    assert_eq!(
        r,
        Err(Chip8Error::InvalidInstruction { address: 0x200, raw: 0x0000 })
    );
    let r = c.execute_opcode(0x800F, 0);
    assert_eq!(
        r,
        Err(Chip8Error::InvalidInstruction { address: 0x200, raw: 0x800F })
    );
    let r = c.execute_opcode(0xE1FF, 0);
    assert_eq!(
        r,
        Err(Chip8Error::InvalidInstruction { address: 0x200, raw: 0xE1FF })
    );
    let r = c.execute_opcode(0xF1FF, 0);
    assert_eq!(
        r,
        Err(Chip8Error::InvalidInstruction { address: 0x200, raw: 0xF1FF })
    );
    let r = c.execute_opcode(0x9121, 0);
    assert_eq!(
        r,
        Err(Chip8Error::InvalidInstruction { address: 0x200, raw: 0x9121 })
    );
}

#[test]
fn bcd_stores_three_decimal_digits() {
    let mut c = Cpu::new();
    c.execute_opcode(0x61EA, 0).unwrap(); // V1 = 234
    c.execute_opcode(0xA300, 0).unwrap(); // I = 0x300
    c.execute_opcode(0xF133, 0).unwrap();
    assert_eq!(c.ram_byte(0x300), 2);
    assert_eq!(c.ram_byte(0x301), 3);
    assert_eq!(c.ram_byte(0x302), 4);
    assert_eq!(c.get_i(), 0x300); // I itself is untouched
}

#[test]
fn bcd_near_top_of_memory_is_out_of_bounds() {
    let mut c = Cpu::new();
    c.execute_opcode(0xAFFE, 0).unwrap(); // I = 4094
    let r = c.execute_opcode(0xF133, 0);
    assert_eq!(r, Err(Chip8Error::OutOfBounds));
    assert_eq!(c.get_pc(), 0x202);
}

#[test]
fn store_and_load_registers_round_trip() {
    let mut c = Cpu::new();
    c.execute_opcode(0x600A, 0).unwrap();
    c.execute_opcode(0x6114, 0).unwrap();
    c.execute_opcode(0x621E, 0).unwrap();
    c.execute_opcode(0xA400, 0).unwrap();
    c.execute_opcode(0xF255, 0).unwrap(); // store V0..=V2 at 0x400
    assert_eq!(c.ram_byte(0x400), 0x0A);
    assert_eq!(c.ram_byte(0x401), 0x14);
    assert_eq!(c.ram_byte(0x402), 0x1E);
    assert_eq!(c.get_i(), 0x403); // I advanced by x + 1
    c.execute_opcode(0x6000, 0).unwrap();
    c.execute_opcode(0x6100, 0).unwrap();
    c.execute_opcode(0x6200, 0).unwrap();
    c.execute_opcode(0xA400, 0).unwrap();
    c.execute_opcode(0xF265, 0).unwrap(); // load them back
    assert_eq!(c.get_v(0), 0x0A);
    assert_eq!(c.get_v(1), 0x14);
    assert_eq!(c.get_v(2), 0x1E);
    assert_eq!(c.get_i(), 0x400); // load leaves I alone
}

#[test]
fn store_registers_past_memory_is_out_of_bounds() {
    let mut c = Cpu::new();
    c.execute_opcode(0xAFFE, 0).unwrap(); // I = 4094
    let r = c.execute_opcode(0xF255, 0); // needs 3 bytes
    assert_eq!(r, Err(Chip8Error::OutOfBounds));
    let r = c.execute_opcode(0xF265, 0);
    assert_eq!(r, Err(Chip8Error::OutOfBounds));
    // 2 bytes still fit
    let r = c.execute_opcode(0xF155, 0);
    assert!(r.is_ok());
    assert_eq!(c.get_i(), 4096);
}

#[test]
fn index_add_and_font_lookup() {
    let mut c = Cpu::new();
    c.execute_opcode(0x6105, 0).unwrap();
    c.execute_opcode(0xA100, 0).unwrap();
    c.execute_opcode(0xF11E, 0).unwrap(); // I += V1
    assert_eq!(c.get_i(), 0x105);
    c.execute_opcode(0x610A, 0).unwrap();
    c.execute_opcode(0xF129, 0).unwrap(); // I = font address of digit 0xA
    assert_eq!(c.get_i(), 50);
    // the font table sits at the bottom of memory
    assert_eq!(c.ram_byte(0), 0xF0);
    assert_eq!(c.ram_byte(1), 0x90);
    assert_eq!(c.ram_byte(79), 0x80);
}
