use chip8_emulator::chip8::{Chip8, Chip8Error};

/// A machine with `rom` loaded, ready to step.
fn loaded(rom: &[u8]) -> Chip8 {
    let mut chip = Chip8::new();
    chip.load(&rom.to_vec()).unwrap();
    chip
}

/// Run `n` instructions, none of which may fail; the random byte is fixed
/// at zero.
fn run(chip: &mut Chip8, n: usize) {
    for _ in 0..n {
        assert!(chip.can_step());
        chip.step(0).unwrap();
    }
}

#[test]
fn test_new_machine() {
    let chip = Chip8::new();
    assert_eq!(chip.get_pc(), 0x200);
    assert_eq!(chip.get_i(), 0);
    assert_eq!(chip.get_delay_timer(), 0);
    assert_eq!(chip.get_sound_timer(), 0);
    assert_eq!(chip.stack_depth(), 0);
    for x in 0..16 {
        assert_eq!(chip.get_vreg(x), 0);
    }
    assert!(chip.get_copy_of_memory().iter().all(|&b| b == 0));
}

#[test]
fn test_load_installs_font_and_display_sentinel() {
    let chip = loaded(&[]);
    let mem = chip.get_copy_of_memory();
    // Glyph 0 and glyph F of the font table.
    assert_eq!(&mem[0..5], &[0xF0, 0x90, 0x90, 0x90, 0xF0]);
    assert_eq!(&mem[75..80], &[0xF0, 0x80, 0xF0, 0x80, 0x80]);
    // The display region is sentinel-filled.
    assert!(chip.get_copy_of_framebuffer().iter().all(|&b| b == 0xFF));
    assert_eq!(chip.get_pc(), 0x200);
}

#[test]
fn test_load_copies_rom_at_entry_point() {
    let chip = loaded(&[0x12, 0x34, 0x56]);
    let mem = chip.get_copy_of_memory();
    assert_eq!(&mem[0x200..0x203], &[0x12, 0x34, 0x56]);
}

#[test]
fn test_load_memory_full() {
    let mut chip = Chip8::new();
    let too_big = vec![0xAB; 3233];
    assert_eq!(chip.load(&too_big), Err(Chip8Error::MemoryFull));

    let mut chip = Chip8::new();
    let just_fits = vec![0xAB; 3232];
    assert_eq!(chip.load(&just_fits), Ok(()));
}

#[test]
fn test_clear_screen() {
    let mut chip = loaded(&[0x00, 0xE0]);
    assert!(chip.get_copy_of_framebuffer().iter().all(|&b| b == 0xFF));
    run(&mut chip, 1);
    assert!(chip.get_copy_of_framebuffer().iter().all(|&b| b == 0));
}

#[test]
fn test_load_immediate_sets_only_vx() {
    let mut chip = loaded(&[0x6A, 0x42]);
    run(&mut chip, 1);
    assert_eq!(chip.get_vreg(0xA), 0x42);
    for x in 0..16 {
        if x != 0xA {
            assert_eq!(chip.get_vreg(x), 0);
        }
    }
    assert_eq!(chip.get_pc(), 0x202);
}

#[test]
fn test_add_immediate_wraps_without_carry() {
    let mut chip = loaded(&[0x60, 0xFF, 0x70, 0x01]);
    run(&mut chip, 2);
    assert_eq!(chip.get_vreg(0), 0x00);
    assert_eq!(chip.get_vreg(0xF), 0);
}

#[test]
fn test_add_registers_sets_carry() {
    let mut chip = loaded(&[0x60, 0xFF, 0x61, 0x01, 0x80, 0x14]);
    run(&mut chip, 3);
    assert_eq!(chip.get_vreg(0), 0x00);
    assert_eq!(chip.get_vreg(0xF), 1);
}

#[test]
fn test_add_registers_without_carry() {
    let mut chip = loaded(&[0x60, 0x01, 0x61, 0x02, 0x80, 0x14]);
    run(&mut chip, 3);
    assert_eq!(chip.get_vreg(0), 3);
    assert_eq!(chip.get_vreg(0xF), 0);
}

#[test]
fn test_draw_single_row() {
    // Clear the screen, point I at the first font byte (0xF0) and draw one
    // row at (0, 0).
    let mut chip = loaded(&[0x00, 0xE0, 0xA0, 0x00, 0xD0, 0x01]);
    run(&mut chip, 3);
    let fb = chip.get_copy_of_framebuffer();
    assert_eq!(fb[0], 0xF0);
    assert!(fb[1..].iter().all(|&b| b == 0));
    assert_eq!(chip.get_vreg(0xF), 0);
}

#[test]
fn test_draw_twice_erases() {
    let mut chip = loaded(&[0x00, 0xE0, 0xA0, 0x00, 0xD0, 0x01, 0xD0, 0x01]);
    run(&mut chip, 4);
    assert!(chip.get_copy_of_framebuffer().iter().all(|&b| b == 0));
    assert_eq!(chip.get_vreg(0xF), 1);
}

#[test]
fn test_draw_unaligned_straddles_two_bytes() {
    // V0 = 4 so the row splits 4 bits and 4 bits across two bytes.
    let mut chip = loaded(&[0x00, 0xE0, 0x60, 0x04, 0xA0, 0x00, 0xD0, 0x11]);
    run(&mut chip, 4);
    let fb = chip.get_copy_of_framebuffer();
    assert_eq!(fb[0], 0x0F);
    assert_eq!(fb[1], 0x00);
}

#[test]
fn test_draw_clips_bottom_edge() {
    // V1 = 31: only the first sprite row is on screen, the rest clip.
    let mut chip = loaded(&[0x00, 0xE0, 0x61, 0x1F, 0xA0, 0x00, 0xD0, 0x15]);
    run(&mut chip, 4);
    let fb = chip.get_copy_of_framebuffer();
    assert_eq!(fb[31 * 8], 0xF0);
    assert_eq!(chip.get_vreg(0xF), 0);
    let lit: usize = fb.iter().map(|&b| b.count_ones() as usize).sum();
    assert_eq!(lit, 4);
}

#[test]
fn test_call_then_return() {
    let mut chip = loaded(&[0x22, 0x04, 0x00, 0x00, 0x00, 0xEE]);
    run(&mut chip, 1);
    assert_eq!(chip.get_pc(), 0x204);
    assert_eq!(chip.stack_depth(), 1);
    run(&mut chip, 1);
    assert_eq!(chip.get_pc(), 0x202);
    assert_eq!(chip.stack_depth(), 0);
}

#[test]
fn test_delay_timer_counts_down_to_zero() {
    let mut chip = loaded(&[
        0x60, 0x05, 0xF0, 0x15, 0x00, 0x00, 0x00, 0x00, 0x00, 0x00, 0x00, 0x00, 0x00, 0x00,
        0x00, 0x00,
    ]);
    run(&mut chip, 2);
    assert_eq!(chip.get_delay_timer(), 5);
    for expected in [4, 3, 2, 1, 0] {
        run(&mut chip, 1);
        assert_eq!(chip.get_delay_timer(), expected);
    }
    // One more step leaves it at zero: the timer never wraps.
    run(&mut chip, 1);
    assert_eq!(chip.get_delay_timer(), 0);
}

#[test]
fn test_sound_timer_counts_down_to_zero() {
    let mut chip = loaded(&[0x60, 0x02, 0xF0, 0x18, 0x00, 0x00, 0x00, 0x00, 0x00, 0x00]);
    run(&mut chip, 2);
    assert_eq!(chip.get_sound_timer(), 2);
    run(&mut chip, 2);
    assert_eq!(chip.get_sound_timer(), 0);
    run(&mut chip, 1);
    assert_eq!(chip.get_sound_timer(), 0);
}

#[test]
fn test_read_delay_timer() {
    // The timer ticks before dispatch, so Fx07 sees 4, not 5.
    let mut chip = loaded(&[0x60, 0x05, 0xF0, 0x15, 0xF1, 0x07]);
    run(&mut chip, 3);
    assert_eq!(chip.get_vreg(1), 4);
}

#[test]
fn test_store_load_round_trip() {
    let mut chip = loaded(&[
        0x60, 0x11, 0x61, 0x22, 0x62, 0x33, // V0..V2
        0xA3, 0x00, // I = 0x300
        0xF2, 0x55, // store V0..V2
        0x60, 0x00, 0x61, 0x00, 0x62, 0x00, // zero them
        0xF2, 0x65, // load V0..V2 back
    ]);
    run(&mut chip, 5);
    let mem = chip.get_copy_of_memory();
    assert_eq!(&mem[0x300..0x303], &[0x11, 0x22, 0x33]);
    run(&mut chip, 3);
    assert_eq!(chip.get_vreg(0), 0);
    assert_eq!(chip.get_vreg(1), 0);
    assert_eq!(chip.get_vreg(2), 0);
    run(&mut chip, 1);
    assert_eq!(chip.get_vreg(0), 0x11);
    assert_eq!(chip.get_vreg(1), 0x22);
    assert_eq!(chip.get_vreg(2), 0x33);
}

#[test]
fn test_jump() {
    let mut chip = loaded(&[0x12, 0x08]);
    run(&mut chip, 1);
    assert_eq!(chip.get_pc(), 0x208);
}

#[test]
fn test_jump_with_offset() {
    let mut chip = loaded(&[0x60, 0x04, 0xB2, 0x00]);
    run(&mut chip, 2);
    assert_eq!(chip.get_pc(), 0x204);
}

#[test]
fn test_skip_if_equal_byte() {
    let mut chip = loaded(&[0x60, 0x07, 0x30, 0x07]);
    run(&mut chip, 2);
    assert_eq!(chip.get_pc(), 0x206);

    let mut chip = loaded(&[0x60, 0x07, 0x30, 0x08]);
    run(&mut chip, 2);
    assert_eq!(chip.get_pc(), 0x204);
}

#[test]
fn test_skip_if_not_equal_byte() {
    let mut chip = loaded(&[0x60, 0x07, 0x40, 0x08]);
    run(&mut chip, 2);
    assert_eq!(chip.get_pc(), 0x206);
}

#[test]
fn test_skip_on_register_compare() {
    let mut chip = loaded(&[0x60, 0x07, 0x61, 0x07, 0x50, 0x10]);
    run(&mut chip, 3);
    assert_eq!(chip.get_pc(), 0x208);

    let mut chip = loaded(&[0x60, 0x07, 0x61, 0x08, 0x90, 0x10]);
    run(&mut chip, 3);
    assert_eq!(chip.get_pc(), 0x208);
}

#[test]
fn test_alu_or_and_xor() {
    let mut chip = loaded(&[0x60, 0x0C, 0x61, 0x0A, 0x80, 0x11]);
    run(&mut chip, 3);
    assert_eq!(chip.get_vreg(0), 0x0E);

    let mut chip = loaded(&[0x60, 0x0C, 0x61, 0x0A, 0x80, 0x12]);
    run(&mut chip, 3);
    assert_eq!(chip.get_vreg(0), 0x08);

    let mut chip = loaded(&[0x60, 0x0C, 0x61, 0x0A, 0x80, 0x13]);
    run(&mut chip, 3);
    assert_eq!(chip.get_vreg(0), 0x06);
}

#[test]
fn test_alu_move() {
    let mut chip = loaded(&[0x61, 0x5A, 0x80, 0x10]);
    run(&mut chip, 2);
    assert_eq!(chip.get_vreg(0), 0x5A);
}

#[test]
fn test_sub_with_borrow_flag() {
    // 7 - 2: no borrow, flag 1.
    let mut chip = loaded(&[0x60, 0x07, 0x61, 0x02, 0x80, 0x15]);
    run(&mut chip, 3);
    assert_eq!(chip.get_vreg(0), 5);
    assert_eq!(chip.get_vreg(0xF), 1);

    // 2 - 7: wraps, flag 0.
    let mut chip = loaded(&[0x60, 0x02, 0x61, 0x07, 0x80, 0x15]);
    run(&mut chip, 3);
    assert_eq!(chip.get_vreg(0), 0xFB);
    assert_eq!(chip.get_vreg(0xF), 0);
}

#[test]
fn test_subn_with_borrow_flag() {
    // V1 - V0 = 7 - 2: no borrow, flag 1.
    let mut chip = loaded(&[0x60, 0x02, 0x61, 0x07, 0x80, 0x17]);
    run(&mut chip, 3);
    assert_eq!(chip.get_vreg(0), 5);
    assert_eq!(chip.get_vreg(0xF), 1);
}

#[test]
fn test_shift_right() {
    let mut chip = loaded(&[0x60, 0x07, 0x80, 0x06]);
    run(&mut chip, 2);
    assert_eq!(chip.get_vreg(0), 3);
    assert_eq!(chip.get_vreg(0xF), 1);

    let mut chip = loaded(&[0x60, 0x06, 0x80, 0x06]);
    run(&mut chip, 2);
    assert_eq!(chip.get_vreg(0), 3);
    assert_eq!(chip.get_vreg(0xF), 0);
}

#[test]
fn test_shift_left() {
    let mut chip = loaded(&[0x60, 0x81, 0x80, 0x0E]);
    run(&mut chip, 2);
    assert_eq!(chip.get_vreg(0), 0x02);
    assert_eq!(chip.get_vreg(0xF), 1);

    let mut chip = loaded(&[0x60, 0x41, 0x80, 0x0E]);
    run(&mut chip, 2);
    assert_eq!(chip.get_vreg(0), 0x82);
    assert_eq!(chip.get_vreg(0xF), 0);
}

#[test]
fn test_random_masks_injected_byte() {
    let mut chip = loaded(&[0xC0, 0x0F]);
    assert!(chip.can_step());
    chip.step(0xAB).unwrap();
    assert_eq!(chip.get_vreg(0), 0x0B);
}

#[test]
fn test_load_i() {
    let mut chip = loaded(&[0xA1, 0x23]);
    run(&mut chip, 1);
    assert_eq!(chip.get_i(), 0x123);
}

#[test]
fn test_add_to_i() {
    let mut chip = loaded(&[0x60, 0x05, 0xA0, 0x10, 0xF0, 0x1E]);
    run(&mut chip, 3);
    assert_eq!(chip.get_i(), 0x15);
}

#[test]
fn test_font_address() {
    let mut chip = loaded(&[0x60, 0x0A, 0xF0, 0x29]);
    run(&mut chip, 2);
    assert_eq!(chip.get_i(), 50);
}

#[test]
fn test_bcd() {
    let mut chip = loaded(&[0x60, 0xFE, 0xA3, 0x00, 0xF0, 0x33]);
    run(&mut chip, 3);
    let mem = chip.get_copy_of_memory();
    assert_eq!(&mem[0x300..0x303], &[2, 5, 4]);
}

#[test]
fn test_skip_if_key_pressed() {
    let mut chip = loaded(&[0x60, 0x05, 0xE0, 0x9E]);
    chip.set_key(5, true);
    run(&mut chip, 2);
    assert_eq!(chip.get_pc(), 0x206);

    let mut chip = loaded(&[0x60, 0x05, 0xE0, 0x9E]);
    run(&mut chip, 2);
    assert_eq!(chip.get_pc(), 0x204);
}

#[test]
fn test_skip_if_key_not_pressed() {
    let mut chip = loaded(&[0x60, 0x05, 0xE0, 0xA1]);
    run(&mut chip, 2);
    assert_eq!(chip.get_pc(), 0x206);

    let mut chip = loaded(&[0x60, 0x05, 0xE0, 0xA1]);
    chip.set_key(5, true);
    run(&mut chip, 2);
    assert_eq!(chip.get_pc(), 0x204);
}

#[test]
fn test_reset_keyboard() {
    let mut chip = loaded(&[0x60, 0x05, 0xE0, 0x9E]);
    chip.set_key(5, true);
    chip.reset_keyboard();
    run(&mut chip, 2);
    assert_eq!(chip.get_pc(), 0x204);
}

#[test]
fn test_set_key_ignores_out_of_range() {
    let mut chip = loaded(&[0x60, 0x05, 0xE0, 0x9E]);
    chip.set_key(99, true);
    run(&mut chip, 2);
    assert_eq!(chip.get_pc(), 0x204);
}

#[test]
fn test_sys_is_ignored() {
    let mut chip = loaded(&[0x02, 0x22]);
    run(&mut chip, 1);
    assert_eq!(chip.get_pc(), 0x202);
}

#[test]
fn test_unknown_opcode() {
    let mut chip = loaded(&[0xF0, 0xFF]);
    assert!(chip.can_step());
    assert_eq!(chip.step(0), Err(Chip8Error::UnknownOpcode(0xF0FF)));
}

#[test]
fn test_wait_for_key_is_unknown() {
    let mut chip = loaded(&[0xF0, 0x0A]);
    assert_eq!(chip.step(0), Err(Chip8Error::UnknownOpcode(0xF00A)));
}

#[test]
fn test_stack_underflow() {
    let mut chip = loaded(&[0x00, 0xEE]);
    assert_eq!(chip.step(0), Err(Chip8Error::StackUnderflow));
}

#[test]
fn test_stack_overflow() {
    // The call at 0x200 calls itself; each step pushes one return address.
    let mut chip = loaded(&[0x22, 0x00]);
    for _ in 0..48 {
        assert!(chip.can_step());
        chip.step(0).unwrap();
    }
    assert_eq!(chip.stack_depth(), 48);
    assert_eq!(chip.step(0), Err(Chip8Error::StackOverflow));
}

#[test]
fn test_undefined_hexadecimal() {
    let mut chip = loaded(&[0x60, 0x10, 0xF0, 0x29]);
    run(&mut chip, 1);
    assert_eq!(chip.step(0), Err(Chip8Error::UndefinedHexadecimal(0x10)));
}

#[test]
fn test_wrong_key() {
    let mut chip = loaded(&[0x60, 0xFF, 0xE0, 0x9E]);
    run(&mut chip, 1);
    assert_eq!(chip.step(0), Err(Chip8Error::WrongKey));
}

#[test]
fn test_error_state_still_advances_pc() {
    let mut chip = loaded(&[0xF0, 0xFF]);
    let _ = chip.step(0);
    assert_eq!(chip.get_pc(), 0x202);
}

#[test]
fn test_can_step_rejects_fetch_past_memory() {
    let mut chip = loaded(&[0x1F, 0xFF]);
    run(&mut chip, 1);
    assert_eq!(chip.get_pc(), 0xFFF);
    assert!(!chip.can_step());
}

#[test]
fn test_can_step_rejects_sprite_read_past_memory() {
    let mut chip = loaded(&[0xAF, 0xFF, 0xD0, 0x0F]);
    run(&mut chip, 1);
    assert!(!chip.can_step());
}

#[test]
fn test_can_step_rejects_block_store_past_memory() {
    let mut chip = loaded(&[0xAF, 0xF8, 0xF8, 0x55]);
    run(&mut chip, 1);
    // I = 0xFF8 and the store reaches I + 8: one byte past memory.
    assert!(!chip.can_step());

    let mut chip = loaded(&[0xAF, 0xF8, 0xF7, 0x55]);
    run(&mut chip, 1);
    // I + 7 is the last byte of memory: just fits.
    assert!(chip.can_step());
}

#[test]
fn test_can_step_rejects_bcd_past_memory() {
    let mut chip = loaded(&[0xAF, 0xFE, 0xF0, 0x33]);
    run(&mut chip, 1);
    assert!(!chip.can_step());

    let mut chip = loaded(&[0xAF, 0xFD, 0xF0, 0x33]);
    run(&mut chip, 1);
    assert!(chip.can_step());
}

#[test]
fn test_check_vregs() {
    let mut chip = loaded(&[0x63, 0x2A]);
    run(&mut chip, 1);
    let mut value: usize = 7;
    assert_eq!(chip.check_vregs(3, &mut value), Ok(()));
    assert_eq!(value, 0x2A);
    assert_eq!(chip.check_vregs(16, &mut value), Err(Chip8Error::VregsOverflow));
    assert_eq!(value, 0x2A);
}

#[test]
fn test_emulate_insn_is_step() {
    let mut chip = loaded(&[0x60, 0x42]);
    chip.emulate_insn(0).unwrap();
    assert_eq!(chip.get_vreg(0), 0x42);
}

#[test]
fn test_store_family_may_write_program_area() {
    // The store opcodes may legally write into the program area.
    let mut chip = loaded(&[0x60, 0x77, 0xA2, 0x80, 0xF0, 0x55]);
    run(&mut chip, 3);
    let mem = chip.get_copy_of_memory();
    assert_eq!(mem[0x280], 0x77);
}
