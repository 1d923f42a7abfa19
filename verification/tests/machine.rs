use emul8::c8::{Error, C8, KEY_COUNT, MEM_SIZE, SCREEN_H, SCREEN_LEN, SCREEN_W};

fn run(program: &[u8], cycles: usize) -> C8 {
    let mut c8 = C8::default();
    c8.load(program);
    for _ in 0..cycles {
        c8.tick(0).unwrap();
    }
    c8
}

fn keys_with(pressed: &[usize]) -> [bool; 16] {
    let mut keys = [false; 16];
    for &k in pressed {
        keys[k] = true;
    }
    keys
}

#[test]
fn machine_geometry() {
    let c8 = C8::default();
    assert_eq!(SCREEN_W, 64);
    assert_eq!(SCREEN_H, 32);
    assert_eq!(SCREEN_LEN, SCREEN_W * SCREEN_H);
    assert_eq!(c8.screen().len(), SCREEN_LEN);
    assert_eq!(c8.mem().len(), MEM_SIZE);
    assert_eq!(KEY_COUNT, 16);
}

#[test]
fn fresh_machine_state() {
    let c8 = C8::default();
    assert_eq!(c8.pc(), 0x200);
    assert_eq!(c8.i(), 0);
    assert_eq!(c8.delay(), 0);
    assert_eq!(c8.sound(), 0);
    for k in 0..16 {
        assert_eq!(c8.v(k).unwrap(), 0);
    }
    assert!(c8.screen().iter().all(|p| !p));
    // The font table sits at the bottom of memory, zeroes after it.
    assert_eq!(c8.mem_at(0).unwrap(), 0b01100000);
    assert_eq!(c8.mem_at(79).unwrap(), 0b10000000);
    assert_eq!(c8.mem_at(80).unwrap(), 0);
    assert_eq!(c8.mem_at(0x1FF).unwrap(), 0);
}

#[test]
fn accessors_reject_out_of_range() {
    let c8 = C8::default();
    assert_eq!(c8.v(16), Err(Error::OutOfBounds));
    assert_eq!(c8.mem_at(4096), Err(Error::OutOfBounds));
    assert_eq!(c8.mem_at(4095), Ok(0));
}

#[test]
fn load_places_program_at_start_offset() {
    let mut c8 = C8::default();
    c8.load(&[0xAB, 0xCD]);
    assert_eq!(c8.mem_at(0x200).unwrap(), 0xAB);
    assert_eq!(c8.mem_at(0x201).unwrap(), 0xCD);
    assert_eq!(c8.mem_at(0x202).unwrap(), 0x00);
}

#[test]
fn add_without_carry() {
    // set v0 = 5, v1 = 3, v0 += v1.
    let c8 = run(&[0x60, 0x05, 0x61, 0x03, 0x80, 0x14], 3);
    assert_eq!(c8.v(0).unwrap(), 8);
    assert_eq!(c8.v(15).unwrap(), 0);
}

#[test]
fn add_with_carry_wraps() {
    // set v0 = 255, v1 = 1, v0 += v1: wraps to 0 with the carry flag set.
    let c8 = run(&[0x60, 0xFF, 0x61, 0x01, 0x80, 0x14], 3);
    assert_eq!(c8.v(0).unwrap(), 0);
    assert_eq!(c8.v(15).unwrap(), 1);
}

#[test]
fn clear_screen_blanks_every_pixel() {
    // point the index at an all-on sprite row, draw it, then clear.
    let c8 = run(&[0xA2, 0x06, 0xD0, 0x01, 0x00, 0xE0, 0xFF], 3);
    assert!(c8.screen().iter().all(|p| !p));
}

#[test]
fn draw_twice_erases_and_collides() {
    // an 8x1 all-on sprite at (0, 0), drawn twice without clearing.
    let program = [0xA2, 0x06, 0xD0, 0x01, 0xD0, 0x01, 0xFF];
    let c8 = run(&program, 2);
    for px in 0..8 {
        assert!(c8.screen()[px]);
    }
    assert_eq!(c8.v(15).unwrap(), 0);

    let c8 = run(&program, 3);
    assert!(c8.screen().iter().all(|p| !p));
    assert_eq!(c8.v(15).unwrap(), 1);
}

#[test]
fn draw_wraps_around_screen_edges() {
    // draw the 8x1 all-on sprite at (60, 31): wraps into columns 0..4 of
    // the last row and stays on that row.
    let c8 = run(&[0x60, 0x3C, 0x61, 0x1F, 0xA2, 0x08, 0xD0, 0x11, 0xFF], 4);
    let screen = c8.screen();
    for x in 60..64 {
        assert!(screen[31 * 64 + x]);
    }
    for x in 0..4 {
        assert!(screen[31 * 64 + x]);
    }
    assert!(!screen[31 * 64 + 4]);
    assert!(!screen[30 * 64 + 60]);
}

#[test]
fn key_wait_blocks_then_reads_lowest_key() {
    let mut c8 = C8::default();
    c8.load(&[0xF0, 0x0A]);
    // empty latch: the program counter must not move.
    c8.tick(0).unwrap();
    assert_eq!(c8.pc(), 0x200);
    c8.tick(0).unwrap();
    assert_eq!(c8.pc(), 0x200);
    // key 3 pressed: the wait resolves, writing 3 and advancing by 2.
    c8.set_keys(keys_with(&[3]));
    c8.tick(0).unwrap();
    assert_eq!(c8.v(0).unwrap(), 3);
    assert_eq!(c8.pc(), 0x202);
}

#[test]
fn key_wait_prefers_lowest_index() {
    let mut c8 = C8::default();
    c8.load(&[0xF5, 0x0A]);
    c8.set_keys(keys_with(&[9, 4, 12]));
    c8.tick(0).unwrap();
    assert_eq!(c8.v(5).unwrap(), 4);
}

#[test]
fn timer_decrements_at_sixty_hertz() {
    let mut c8 = C8::default();
    // set v0 = 5, delay = v0, then spin on a jump.
    c8.load(&[0x60, 0x05, 0xF0, 0x15, 0x12, 0x04]);
    c8.tick(0).unwrap();
    c8.tick(0).unwrap();
    assert_eq!(c8.delay(), 5);
    // 16_666_666 ns accumulated is still under one 60 Hz period.
    c8.tick(16_666_666).unwrap();
    assert_eq!(c8.delay(), 5);
    // one more nanosecond crosses the boundary: exactly one decrement.
    c8.tick(1).unwrap();
    assert_eq!(c8.delay(), 4);
    // the accumulator reset, so the next small step does not decrement.
    c8.tick(1).unwrap();
    assert_eq!(c8.delay(), 4);
    // a whole period in one call decrements once more.
    c8.tick(16_666_667).unwrap();
    assert_eq!(c8.delay(), 3);
}

#[test]
fn timers_saturate_at_zero() {
    let mut c8 = C8::default();
    c8.load(&[0x12, 0x00]);
    c8.tick(20_000_000).unwrap();
    assert_eq!(c8.delay(), 0);
    assert_eq!(c8.sound(), 0);
}

#[test]
fn sound_timer_set_and_ticks_down() {
    let mut c8 = C8::default();
    c8.load(&[0x60, 0x09, 0xF0, 0x18, 0x12, 0x04]);
    c8.tick(0).unwrap();
    c8.tick(0).unwrap();
    assert_eq!(c8.sound(), 9);
    c8.tick(20_000_000).unwrap();
    assert_eq!(c8.sound(), 8);
}

#[test]
fn return_with_empty_stack_fails_in_place() {
    let mut c8 = C8::default();
    c8.load(&[0x00, 0xEE]);
    assert_eq!(c8.tick(0), Err(Error::NoReturnAddr));
    assert_eq!(c8.pc(), 0x200);
}

#[test]
fn call_then_return_lands_after_call() {
    let mut c8 = C8::default();
    c8.load(&[0x22, 0x04, 0x00, 0x00, 0x00, 0xEE]);
    c8.tick(0).unwrap();
    assert_eq!(c8.pc(), 0x204);
    c8.tick(0).unwrap();
    assert_eq!(c8.pc(), 0x202);
}

#[test]
fn external_routine_call_is_rejected() {
    let mut c8 = C8::default();
    c8.load(&[0x01, 0x23]);
    assert_eq!(c8.tick(0), Err(Error::NoSuchRcaCall(0x123)));
    assert_eq!(c8.pc(), 0x200);
}

#[test]
fn unknown_opcode_reports_its_nibbles() {
    let mut c8 = C8::default();
    c8.load(&[0xFF, 0xFF]);
    assert_eq!(c8.tick(0), Err(Error::InvalidInstr(0xF, 0xF, 0xF, 0xF)));
    assert_eq!(c8.pc(), 0x200);
}

#[test]
fn fetch_past_memory_end_fails_in_place() {
    let mut c8 = C8::default();
    c8.load(&[0x1F, 0xFF]);
    c8.tick(0).unwrap();
    assert_eq!(c8.pc(), 0xFFF);
    assert_eq!(c8.tick(0), Err(Error::OutOfBounds));
    assert_eq!(c8.pc(), 0xFFF);
}

#[test]
fn key_skip_with_bad_register_value_fails() {
    let mut c8 = C8::default();
    c8.load(&[0x60, 0x10, 0xE0, 0x9E]);
    c8.tick(0).unwrap();
    assert_eq!(c8.tick(0), Err(Error::OutOfBounds));
    assert_eq!(c8.pc(), 0x202);
}

#[test]
fn skip_if_key_and_if_not_key() {
    let mut c8 = C8::default();
    c8.load(&[0x60, 0x03, 0xE0, 0x9E]);
    c8.set_keys(keys_with(&[3]));
    c8.tick(0).unwrap();
    c8.tick(0).unwrap();
    assert_eq!(c8.pc(), 0x206);

    let mut c8 = C8::default();
    c8.load(&[0x60, 0x03, 0xE0, 0xA1]);
    c8.set_keys(keys_with(&[3]));
    c8.tick(0).unwrap();
    c8.tick(0).unwrap();
    assert_eq!(c8.pc(), 0x204);
}

#[test]
fn conditional_skips_on_constants_and_registers() {
    // taken: v0 == 5.
    let c8 = run(&[0x60, 0x05, 0x30, 0x05], 2);
    assert_eq!(c8.pc(), 0x206);
    // not taken: v0 != 6 fails to hold... 4xkk skips when unequal.
    let c8 = run(&[0x60, 0x05, 0x40, 0x05], 2);
    assert_eq!(c8.pc(), 0x204);
    let c8 = run(&[0x60, 0x05, 0x61, 0x05, 0x50, 0x10], 3);
    assert_eq!(c8.pc(), 0x208);
    let c8 = run(&[0x60, 0x05, 0x61, 0x05, 0x90, 0x10], 3);
    assert_eq!(c8.pc(), 0x206);
}

#[test]
fn register_moves_and_logic() {
    let c8 = run(&[0x60, 0x0C, 0x61, 0x0A, 0x80, 0x10], 3);
    assert_eq!(c8.v(0).unwrap(), 0x0A);
    let c8 = run(&[0x60, 0x0C, 0x61, 0x0A, 0x80, 0x11], 3);
    assert_eq!(c8.v(0).unwrap(), 0x0E);
    let c8 = run(&[0x60, 0x0C, 0x61, 0x0A, 0x80, 0x12], 3);
    assert_eq!(c8.v(0).unwrap(), 0x08);
    let c8 = run(&[0x60, 0x0C, 0x61, 0x0A, 0x80, 0x13], 3);
    assert_eq!(c8.v(0).unwrap(), 0x06);
}

#[test]
fn add_const_wraps_without_flag() {
    let c8 = run(&[0x60, 0xFF, 0x70, 0x02], 2);
    assert_eq!(c8.v(0).unwrap(), 1);
    // the immediate add never touches the flag register.
    assert_eq!(c8.v(15).unwrap(), 0);
}

#[test]
fn subtract_sets_borrow_flags() {
    // 3 - 5 borrows: flag 0, value wraps.
    let c8 = run(&[0x60, 0x03, 0x61, 0x05, 0x80, 0x15], 3);
    assert_eq!(c8.v(0).unwrap(), 254);
    assert_eq!(c8.v(15).unwrap(), 0);
    // 5 - 3 does not borrow: flag 1.
    let c8 = run(&[0x60, 0x05, 0x61, 0x03, 0x80, 0x15], 3);
    assert_eq!(c8.v(0).unwrap(), 2);
    assert_eq!(c8.v(15).unwrap(), 1);
}

#[test]
fn subtract_reversed_mirrors_borrow() {
    // v0 = v1 - v0 = 5 - 3.
    let c8 = run(&[0x60, 0x03, 0x61, 0x05, 0x80, 0x17], 3);
    assert_eq!(c8.v(0).unwrap(), 2);
    assert_eq!(c8.v(15).unwrap(), 1);
    let c8 = run(&[0x60, 0x05, 0x61, 0x03, 0x80, 0x17], 3);
    assert_eq!(c8.v(0).unwrap(), 254);
    assert_eq!(c8.v(15).unwrap(), 0);
}

#[test]
fn shifts_read_second_operand() {
    // v0 = v1 >> 1 with the shifted-out bit in the flag.
    let c8 = run(&[0x60, 0x00, 0x61, 0x05, 0x80, 0x16], 3);
    assert_eq!(c8.v(0).unwrap(), 2);
    assert_eq!(c8.v(15).unwrap(), 1);
    // v0 = v1 << 1.
    let c8 = run(&[0x60, 0x00, 0x61, 0x81, 0x80, 0x1E], 3);
    assert_eq!(c8.v(0).unwrap(), 0x02);
    assert_eq!(c8.v(15).unwrap(), 1);
    // the shifted value comes from the second register, not the first.
    let c8 = run(&[0x60, 0xFF, 0x61, 0x04, 0x80, 0x16], 3);
    assert_eq!(c8.v(0).unwrap(), 2);
    assert_eq!(c8.v(15).unwrap(), 0);
}

#[test]
fn index_register_operations() {
    let c8 = run(&[0xA1, 0x23], 1);
    assert_eq!(c8.i(), 0x123);
    // font lookup: glyph k sits at 5 * k.
    let c8 = run(&[0x60, 0x03, 0xF0, 0x29], 2);
    assert_eq!(c8.i(), 15);
    // index add below the addressable range leaves the flag clear.
    let c8 = run(&[0x60, 0x10, 0xA1, 0x00, 0xF0, 0x1E], 3);
    assert_eq!(c8.i(), 0x110);
    assert_eq!(c8.v(15).unwrap(), 0);
    // index add past 0xFFF sets the flag and keeps the 16-bit sum.
    let c8 = run(&[0x60, 0xFF, 0xAF, 0xFF, 0xF0, 0x1E], 3);
    assert_eq!(c8.i(), 0x10FE);
    assert_eq!(c8.v(15).unwrap(), 1);
}

#[test]
fn jump_adds_register_zero() {
    let c8 = run(&[0x60, 0x10, 0xB2, 0x00], 2);
    assert_eq!(c8.pc(), 0x210);
}

#[test]
fn random_masked_to_zero_is_zero() {
    // whatever byte the generator returns, the zero mask clears it.
    let c8 = run(&[0x60, 0xAA, 0xC0, 0x00], 2);
    assert_eq!(c8.v(0).unwrap(), 0);
}

#[test]
fn random_respects_mask_bits() {
    let c8 = run(&[0xC0, 0x0F], 1);
    assert!(c8.v(0).unwrap() <= 0x0F);
}

#[test]
fn bcd_store_writes_digits_in_order() {
    // v0 = 234, i = 0x300: memory gets hundreds, tens, ones.
    let c8 = run(&[0x60, 0xEA, 0xA3, 0x00, 0xF0, 0x33], 3);
    assert_eq!(c8.mem_at(0x300).unwrap(), 2);
    assert_eq!(c8.mem_at(0x301).unwrap(), 3);
    assert_eq!(c8.mem_at(0x302).unwrap(), 4);
    assert_eq!(c8.i(), 0x300);
}

#[test]
fn register_block_store_and_load() {
    let mut c8 = C8::default();
    c8.load(&[
        0x60, 0x0A, // v0 = 10
        0x61, 0x0B, // v1 = 11
        0x62, 0x0C, // v2 = 12
        0xA3, 0x00, // i = 0x300
        0xF1, 0x55, // store v0..=v1
        0x60, 0x00, // v0 = 0
        0x61, 0x00, // v1 = 0
        0xF1, 0x65, // load v0..=v1
    ]);
    for _ in 0..8 {
        c8.tick(0).unwrap();
    }
    assert_eq!(c8.v(0).unwrap(), 0x0A);
    assert_eq!(c8.v(1).unwrap(), 0x0B);
    // v2 was outside the block: stored nowhere, loaded from nowhere.
    assert_eq!(c8.mem_at(0x302).unwrap(), 0);
    assert_eq!(c8.v(2).unwrap(), 0x0C);
    // the index register is not modified by block transfers.
    assert_eq!(c8.i(), 0x300);
}

#[test]
fn block_transfer_past_memory_end_fails() {
    // i = 0xFFF, store v0..=v1 would write past the end.
    let mut c8 = C8::default();
    c8.load(&[0xAF, 0xFF, 0xF1, 0x55]);
    c8.tick(0).unwrap();
    assert_eq!(c8.tick(0), Err(Error::OutOfBounds));
    assert_eq!(c8.pc(), 0x202);
}

#[test]
fn delay_timer_reads_back() {
    let c8 = run(&[0x60, 0x07, 0xF0, 0x15, 0xF1, 0x07], 3);
    assert_eq!(c8.v(1).unwrap(), 7);
}

#[test]
fn set_keys_replaces_whole_latch() {
    let mut c8 = C8::default();
    c8.load(&[0xF0, 0x0A]);
    c8.set_keys(keys_with(&[2]));
    c8.set_keys(keys_with(&[7]));
    c8.tick(0).unwrap();
    assert_eq!(c8.v(0).unwrap(), 7);
}

#[test]
fn sprite_rows_come_from_index_register() {
    // draw the font glyph for 1 (5 rows) at (0, 0).
    let c8 = run(&[0x60, 0x01, 0xF0, 0x29, 0x61, 0x00, 0xD1, 0x15], 4);
    let screen = c8.screen();
    // first font row of glyph 1 is 0b00100000: only column 2 lit.
    assert!(!screen[0]);
    assert!(!screen[1]);
    assert!(screen[2]);
    assert!(!screen[3]);
    assert_eq!(c8.v(15).unwrap(), 0);
}
