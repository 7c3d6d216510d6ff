use chip8::cpu::Cpu;
use chip8::display::Display;
use chip8::machine::Chip8Error;

/// The bits of `row`, leftmost pixel first.
fn row_bits(row: u8) -> [bool; 8] {
    let mut bits = [false; 8];
    for (c, bit) in bits.iter_mut().enumerate() {
        *bit = (row >> (7 - c)) & 1 == 1;
    }
    bits
}

#[test]
fn draw_glyph_then_redraw_restores_blank_screen() {
    let mut c = Cpu::new();
    c.execute_opcode(0xA000, 0).unwrap(); // I = font glyph for 0
    let r = c.execute_opcode(0xD005, 0); // draw 5 rows at (V0, V0) = (0, 0)
    assert!(r.is_ok());
    assert_eq!(c.get_v(0xF), 0); // clear region: no collision
    let glyph = [0xF0u8, 0x90, 0x90, 0x90, 0xF0];
    for (y, row) in glyph.iter().enumerate() {
        for (x, on) in row_bits(*row).iter().enumerate() {
            assert_eq!(c.pixel(x, y), *on);
        }
    }
    // the identical draw again: XOR is self-inverse
    c.execute_opcode(0xD005, 0).unwrap();
    assert_eq!(c.get_v(0xF), 1); // every erased pixel collided
    for x in 0..64 {
        for y in 0..32 {
            assert!(!c.pixel(x, y));
        }
    }
}

#[test]
fn overlapping_draw_collides_and_disjoint_draw_does_not() {
    let mut c = Cpu::new();
    c.execute_opcode(0xA000, 0).unwrap();
    c.execute_opcode(0xD005, 0).unwrap();
    assert_eq!(c.get_v(0xF), 0);
    // same sprite shifted one column right still overlaps
    c.execute_opcode(0x6001, 0).unwrap(); // V0 = 1
    c.execute_opcode(0x6100, 0).unwrap(); // V1 = 0
    c.execute_opcode(0xD015, 0).unwrap();
    assert_eq!(c.get_v(0xF), 1);
    // a draw far away touches only clear pixels
    c.execute_opcode(0x6020, 0).unwrap(); // V0 = 32
    c.execute_opcode(0x610A, 0).unwrap(); // V1 = 10
    c.execute_opcode(0xD015, 0).unwrap();
    assert_eq!(c.get_v(0xF), 0);
}

#[test]
fn sprite_wraps_at_right_edge() {
    let mut c = Cpu::new();
    c.execute_opcode(0xA000, 0).unwrap(); // glyph 0, first row 0xF0
    c.execute_opcode(0x603F, 0).unwrap(); // V0 = 63
    c.execute_opcode(0x6100, 0).unwrap(); // V1 = 0
    c.execute_opcode(0xD011, 0).unwrap(); // one row at (63, 0)
    // 0xF0: four set bits land at columns 63, 0, 1, 2
    assert!(c.pixel(63, 0));
    assert!(c.pixel(0, 0));
    assert!(c.pixel(1, 0));
    assert!(c.pixel(2, 0));
    assert!(!c.pixel(3, 0));
    assert!(!c.pixel(62, 0));
}

#[test]
fn sprite_wraps_at_bottom_edge() {
    let mut c = Cpu::new();
    c.execute_opcode(0xA000, 0).unwrap();
    c.execute_opcode(0x6000, 0).unwrap(); // V0 = 0
    c.execute_opcode(0x611F, 0).unwrap(); // V1 = 31
    c.execute_opcode(0xD015, 0).unwrap(); // five rows starting at row 31
    assert!(c.pixel(0, 31)); // row 0 of the glyph
    assert!(c.pixel(0, 0)); // row 1 wrapped to the top
    assert!(c.pixel(3, 2));
    assert!(!c.pixel(1, 1)); // 0x90 keeps its middle bits clear
}

#[test]
fn clear_screen_turns_every_pixel_off() {
    let mut c = Cpu::new();
    c.execute_opcode(0xA000, 0).unwrap();
    c.execute_opcode(0xD005, 0).unwrap();
    assert!(c.pixel(0, 0));
    c.execute_opcode(0x00E0, 0).unwrap();
    for x in 0..64 {
        for y in 0..32 {
            assert!(!c.pixel(x, y));
        }
    }
}

#[test]
fn display_draw_reports_exact_collision() {
    let mut d = Display::new();
    let rows = vec![0x80u8]; // single pixel at the origin column
    assert!(!d.draw(5, 5, &rows));
    assert!(d.pixel(5, 5));
    assert!(d.draw(5, 5, &rows)); // erases it again
    assert!(!d.pixel(5, 5));
    // an empty sprite draws nothing and never collides
    let empty: Vec<u8> = Vec::new();
    assert!(!d.draw(5, 5, &empty));
    d.clear();
    assert!(!d.pixel(5, 5));
}

#[test]
fn loaded_program_draws_its_own_bytes() {
    let mut c = Cpu::new();
    c.load_rom(vec![0xA2, 0x00, 0xD0, 0x05]).unwrap();
    c.emulate_cycle().unwrap(); // I = 0x200
    assert_eq!(c.get_i(), 0x200);
    c.emulate_cycle().unwrap(); // draw 5 rows from 0x200 at (0, 0)
    assert_eq!(c.get_v(0xF), 0); // first draw: no collision
    let sprite = [0xA2u8, 0x00, 0xD0, 0x05, 0x00];
    for (y, row) in sprite.iter().enumerate() {
        for (x, on) in row_bits(*row).iter().enumerate() {
            assert_eq!(c.pixel(x, y), *on);
        }
    }
}

#[test]
fn loaded_program_draws_a_font_glyph() {
    let mut c = Cpu::new();
    c.load_rom(vec![0xA0, 0x05, 0xD0, 0x05]).unwrap();
    c.emulate_cycle().unwrap(); // I = 5: the glyph for 1
    c.emulate_cycle().unwrap();
    assert_eq!(c.get_v(0xF), 0);
    let glyph = [0x20u8, 0x60, 0x20, 0x20, 0x70];
    for (y, row) in glyph.iter().enumerate() {
        for (x, on) in row_bits(*row).iter().enumerate() {
            assert_eq!(c.pixel(x, y), *on);
        }
    }
}

#[test]
fn clear_then_return_underflows_via_fetch() {
    let mut c = Cpu::new();
    c.load_rom(vec![0x00, 0xE0, 0x00, 0xEE]).unwrap();
    c.emulate_cycle().unwrap(); // 00E0: clear
    assert_eq!(c.get_pc(), 0x202);
    let r = c.emulate_cycle(); // 00EE with an empty call stack
    assert_eq!(r, Err(Chip8Error::StackUnderflow));
    assert_eq!(c.get_pc(), 0x202); // no partial execution
}

#[test]
fn fetch_past_end_of_memory_is_out_of_bounds() {
    let mut c = Cpu::new();
    c.execute_opcode(0x1FFF, 0).unwrap(); // pc = 0xFFF
    let r = c.emulate_cycle();
    assert_eq!(r, Err(Chip8Error::OutOfBounds));
    assert_eq!(c.get_pc(), 0xFFF);
}

#[test]
fn rom_loads_fill_memory_up_to_the_limit() {
    let mut c = Cpu::new();
    assert!(c.load_rom(Vec::new()).is_ok()); // an empty program is fine
    let biggest = vec![0xABu8; 3584];
    assert!(c.load_rom(biggest).is_ok());
    assert_eq!(c.ram_byte(0x200), 0xAB);
    assert_eq!(c.ram_byte(4095), 0xAB);
    assert_eq!(c.ram_byte(0x1FF), 0); // the system region is untouched
    let too_big = vec![0u8; 3585];
    assert_eq!(c.load_rom(too_big), Err(Chip8Error::ProgramTooLarge));
    assert_eq!(c.ram_byte(0x200), 0xAB); // a rejected load writes nothing
}

#[test]
fn timer_counts_down_by_one_and_stops_at_zero() {
    let mut c = Cpu::new();
    c.execute_opcode(0x6102, 0).unwrap();
    c.execute_opcode(0xF115, 0).unwrap(); // Timer = V1 = 2
    assert_eq!(c.get_delay_timer(), 2);
    c.update_timers();
    assert_eq!(c.get_delay_timer(), 1);
    c.update_timers();
    assert_eq!(c.get_delay_timer(), 0);
    c.update_timers();
    assert_eq!(c.get_delay_timer(), 0); // never below zero
    c.execute_opcode(0xF207, 0).unwrap(); // V2 = Timer
    assert_eq!(c.get_v(2), 0);
}

#[test]
fn key_skips_read_the_keypad() {
    let mut c = Cpu::new();
    let mut keys = [false; 16];
    keys[7] = true;
    c.key_input(keys);
    c.execute_opcode(0x6107, 0).unwrap(); // V1 = 7, pc = 0x202
    c.execute_opcode(0xE19E, 0).unwrap(); // key 7 down: skip
    assert_eq!(c.get_pc(), 0x206);
    c.execute_opcode(0xE1A1, 0).unwrap(); // key 7 down: no skip
    assert_eq!(c.get_pc(), 0x208);
    c.key_input([false; 16]);
    c.execute_opcode(0xE19E, 0).unwrap();
    assert_eq!(c.get_pc(), 0x20A);
    c.execute_opcode(0xE1A1, 0).unwrap();
    assert_eq!(c.get_pc(), 0x20E);
    // a register value naming no key is simply never down
    c.execute_opcode(0x61FF, 0).unwrap();
    c.execute_opcode(0xE1A1, 0).unwrap();
    assert_eq!(c.get_pc(), 0x214);
}

#[test]
fn key_wait_retries_until_a_key_is_down() {
    let mut c = Cpu::new();
    c.load_rom(vec![0xF1, 0x0A]).unwrap();
    c.emulate_cycle().unwrap();
    assert_eq!(c.get_pc(), 0x200); // nothing down: same instruction again
    c.emulate_cycle().unwrap();
    assert_eq!(c.get_pc(), 0x200);
    let mut keys = [false; 16];
    keys[9] = true;
    keys[3] = true;
    c.key_input(keys);
    c.emulate_cycle().unwrap();
    assert_eq!(c.get_v(1), 3); // the lowest-indexed key that is down
    assert_eq!(c.get_pc(), 0x202);
}

#[test]
fn tone_fires_for_one_instruction_only() {
    let mut c = Cpu::new();
    assert!(!c.tone_active());
    c.execute_opcode(0xF018, 0).unwrap();
    assert!(c.tone_active());
    c.execute_opcode(0x6000, 0).unwrap();
    assert!(!c.tone_active());
}

#[test]
fn index_add_wraps_as_sixteen_bits() {
    let mut c = Cpu::new();
    c.execute_opcode(0xAFFF, 0).unwrap(); // I = 0xFFF
    c.execute_opcode(0x61FF, 0).unwrap(); // V1 = 255
    for _ in 0..63 {
        c.execute_opcode(0xF11E, 0).unwrap(); // I += 255
    }
    assert_eq!(c.get_i(), 0xFFF + 63 * 255);
    c.execute_opcode(0x1200, 0).unwrap(); // keep the pc fetchable
    for _ in 0..194 {
        c.execute_opcode(0xF11E, 0).unwrap();
    }
    // 0xFFF + 257 * 255 = 69630 wraps modulo 65536
    assert_eq!(c.get_i(), 4094);
}
