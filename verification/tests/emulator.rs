use rust8::emulator::{ChipConfig, ChipEmulator};
use rust8::error::Chip8Error;
use rust8::keypad::ChipKey;

#[test]
fn load_then_add_immediate() {
    // LD V0, 0x0A then ADD V0, 0x05: after two cycles V0 is 0x0F and the
    // program counter sits two instructions past the start.
    let mut emu = ChipEmulator::init();
    emu.load_rom(&[0x60, 0x0A, 0x70, 0x05]).unwrap();

    emu.tick().unwrap();
    emu.tick().unwrap();

    assert_eq!(emu.reg(0), 0x0F);
    assert_eq!(emu.pc(), 0x204);
}

#[test]
fn add_with_carry() {
    // V0 = 0xFF, V1 = 0x01, ADD V0, V1: result wraps to 0x00 and VF is 1.
    let mut emu = ChipEmulator::init();
    emu.load_rom(&[0x60, 0xFF, 0x61, 0x01, 0x80, 0x14]).unwrap();

    for _ in 0..3 {
        emu.tick().unwrap();
    }

    assert_eq!(emu.reg(0), 0x00);
    assert_eq!(emu.reg(0xF), 1);
}

#[test]
fn add_without_carry() {
    // V0 = 0x01, V1 = 0x01, ADD V0, V1: result 0x02, VF 0.
    let mut emu = ChipEmulator::init();
    emu.load_rom(&[0x60, 0x01, 0x61, 0x01, 0x80, 0x14]).unwrap();

    for _ in 0..3 {
        emu.tick().unwrap();
    }

    assert_eq!(emu.reg(0), 0x02);
    assert_eq!(emu.reg(0xF), 0);
}

#[test]
fn subtract_with_borrow() {
    // V0 = 0x05, V1 = 0x0A, SUB V0, V1: wrapped result, VF 0 (borrow).
    let mut emu = ChipEmulator::init();
    emu.load_rom(&[0x60, 0x05, 0x61, 0x0A, 0x80, 0x15]).unwrap();

    for _ in 0..3 {
        emu.tick().unwrap();
    }

    assert_eq!(emu.reg(0), 0xFB);
    assert_eq!(emu.reg(0xF), 0);
}

#[test]
fn subtract_without_borrow() {
    // V0 = 0x0A, V1 = 0x05, SUB V0, V1: result 0x05, VF 1 (no borrow).
    let mut emu = ChipEmulator::init();
    emu.load_rom(&[0x60, 0x0A, 0x61, 0x05, 0x80, 0x15]).unwrap();

    for _ in 0..3 {
        emu.tick().unwrap();
    }

    assert_eq!(emu.reg(0), 0x05);
    assert_eq!(emu.reg(0xF), 1);
}

#[test]
fn skip_if_pressed_without_key_never_skips() {
    let mut emu = ChipEmulator::init();
    emu.load_rom(&[0xE0, 0x9E]).unwrap();

    emu.tick().unwrap();

    assert_eq!(emu.pc(), 0x202);
}

#[test]
fn skip_if_not_pressed_without_key_always_skips() {
    let mut emu = ChipEmulator::init();
    emu.load_rom(&[0xE0, 0xA1]).unwrap();

    emu.tick().unwrap();

    assert_eq!(emu.pc(), 0x204);
}

#[test]
fn skip_if_pressed_matching_key_skips_and_consumes() {
    // V0 = 0x05, then SKP V0 with key 5 pending.
    let mut emu = ChipEmulator::init();
    emu.load_rom(&[0x60, 0x05, 0xE0, 0x9E]).unwrap();

    emu.tick().unwrap();
    emu.set_key(Some(ChipKey::Key5));
    emu.tick().unwrap();

    assert_eq!(emu.pc(), 0x206);
    assert_eq!(emu.current_key(), None);
}

#[test]
fn skip_if_not_pressed_with_other_key_skips() {
    // V0 = 0x05, then SKNP V0 with key 7 pending.
    let mut emu = ChipEmulator::init();
    emu.load_rom(&[0x60, 0x05, 0xE0, 0xA1]).unwrap();

    emu.tick().unwrap();
    emu.set_key(Some(ChipKey::Key7));
    emu.tick().unwrap();

    assert_eq!(emu.pc(), 0x206);
    assert_eq!(emu.current_key(), None);
}

#[test]
fn call_and_return_round_trip() {
    // CALL 0x300 at 0x200; RET at 0x300 comes back to 0x202.
    let mut emu = ChipEmulator::init();
    let mut rom = vec![0x23, 0x00];
    rom.resize(0x100, 0);
    rom.extend_from_slice(&[0x00, 0xEE]);
    emu.load_rom(&rom).unwrap();

    emu.tick().unwrap();
    assert_eq!(emu.pc(), 0x300);
    assert_eq!(emu.sp(), 1);

    emu.tick().unwrap();
    assert_eq!(emu.pc(), 0x202);
    assert_eq!(emu.sp(), 0);
}

#[test]
fn return_with_empty_stack_is_fatal() {
    let mut emu = ChipEmulator::init();
    emu.load_rom(&[0x00, 0xEE]).unwrap();

    assert_eq!(emu.tick().unwrap_err(), Chip8Error::StackUnderflow);
}

#[test]
fn seventeenth_nested_call_is_fatal() {
    // CALL 0x200 forever: sixteen calls fill the stack, the next one fails.
    let mut emu = ChipEmulator::init();
    emu.load_rom(&[0x22, 0x00]).unwrap();

    for _ in 0..16 {
        emu.tick().unwrap();
    }
    assert_eq!(emu.sp(), 16);
    assert_eq!(emu.tick().unwrap_err(), Chip8Error::StackOverflow);
}

#[test]
fn unknown_alu_suffix_is_fatal() {
    let mut emu = ChipEmulator::init();
    emu.load_rom(&[0x80, 0x08]).unwrap();

    assert_eq!(emu.tick().unwrap_err(), Chip8Error::InvalidOpcode(0x8008));
}

#[test]
fn bcd_past_end_of_memory_is_fatal() {
    // LD I, 0xFFF then LD B, V0: the three digit cells overrun memory.
    let mut emu = ChipEmulator::init();
    emu.load_rom(&[0xAF, 0xFF, 0xF0, 0x33]).unwrap();

    emu.tick().unwrap();
    assert_eq!(emu.tick().unwrap_err(), Chip8Error::InvalidMemoryAddress(0xFFF));
}

#[test]
fn fetch_at_last_byte_is_fatal() {
    // JP 0xFFF: the next fetch would need a byte past the end.
    let mut emu = ChipEmulator::init();
    emu.load_rom(&[0x1F, 0xFF]).unwrap();

    emu.tick().unwrap();
    assert_eq!(emu.tick().unwrap_err(), Chip8Error::InvalidMemoryAddress(0xFFF));
}

#[test]
fn random_byte_is_masked() {
    // RND V0 with mask 0x0F, stepped with a caller-supplied byte.
    let mut emu = ChipEmulator::init();
    emu.load_rom(&[0xC0, 0x0F]).unwrap();

    emu.step(0xAB).unwrap();

    assert_eq!(emu.reg(0), 0x0B);
    assert_eq!(emu.pc(), 0x202);
}

#[test]
fn wait_for_key_blocks_until_key() {
    let mut emu = ChipEmulator::init();
    emu.load_rom(&[0xF0, 0x0A]).unwrap();

    emu.tick().unwrap();
    assert_eq!(emu.pc(), 0x200);
    emu.tick().unwrap();
    assert_eq!(emu.pc(), 0x200);

    emu.set_key(Some(ChipKey::KeyA));
    emu.tick().unwrap();

    assert_eq!(emu.reg(0), 0x0A);
    assert_eq!(emu.pc(), 0x202);
    assert_eq!(emu.current_key(), None);
}

#[test]
fn draw_collision_sets_flag() {
    // LD I, 0 points at the glyph for 0; draw it twice at (0, 0).
    let mut emu = ChipEmulator::init();
    emu.load_rom(&[0xA0, 0x00, 0xD0, 0x05, 0xD0, 0x05]).unwrap();

    emu.tick().unwrap();
    emu.tick().unwrap();
    assert_eq!(emu.reg(0xF), 0);

    emu.tick().unwrap();
    assert_eq!(emu.reg(0xF), 1);
    assert!(emu.pixels().iter().all(|&p| !p));
}

#[test]
fn shift_right_modified_uses_destination() {
    // V0 = 0x08, V1 = 0x01, SHR V0 {, V1}.
    let mut emu = ChipEmulator::init();
    emu.load_rom(&[0x60, 0x08, 0x61, 0x01, 0x80, 0x16]).unwrap();

    for _ in 0..3 {
        emu.tick().unwrap();
    }

    assert_eq!(emu.reg(0), 0x04);
    assert_eq!(emu.reg(0xF), 0);
}

#[test]
fn shift_right_original_uses_source() {
    let mut emu = ChipEmulator::with_config(ChipConfig {
        modified_shift: false,
        modified_load: false,
    });
    emu.load_rom(&[0x60, 0x08, 0x61, 0x01, 0x80, 0x16]).unwrap();

    for _ in 0..3 {
        emu.tick().unwrap();
    }

    assert_eq!(emu.reg(0), 0x00);
    assert_eq!(emu.reg(0xF), 1);
}

#[test]
fn shift_left_sets_flag_from_high_bit() {
    // V0 = 0x81: shifted left it wraps to 0x02 and VF takes the high bit.
    let mut emu = ChipEmulator::init();
    emu.load_rom(&[0x60, 0x81, 0x80, 0x1E]).unwrap();

    emu.tick().unwrap();
    emu.tick().unwrap();

    assert_eq!(emu.reg(0), 0x02);
    assert_eq!(emu.reg(0xF), 1);
}

#[test]
fn bcd_stores_three_digits() {
    // V0 = 123, LD I, 0x400, LD B, V0.
    let mut emu = ChipEmulator::init();
    emu.load_rom(&[0x60, 0x7B, 0xA4, 0x00, 0xF0, 0x33]).unwrap();

    for _ in 0..3 {
        emu.tick().unwrap();
    }

    assert_eq!(emu.memory().read(0x400), 1);
    assert_eq!(emu.memory().read(0x401), 2);
    assert_eq!(emu.memory().read(0x402), 3);
}

#[test]
fn block_store_and_load_round_trip() {
    // Store V0..=V1 at I, zero them, load them back.
    let mut emu = ChipEmulator::init();
    emu.load_rom(&[
        0x60, 0x11, // LD V0, 0x11
        0x61, 0x22, // LD V1, 0x22
        0xA4, 0x00, // LD I, 0x400
        0xF1, 0x55, // LD [I], V1
        0x60, 0x00, // LD V0, 0
        0x61, 0x00, // LD V1, 0
        0xF1, 0x65, // LD V1, [I]
    ])
    .unwrap();

    for _ in 0..7 {
        emu.tick().unwrap();
    }

    assert_eq!(emu.reg(0), 0x11);
    assert_eq!(emu.reg(1), 0x22);
    assert_eq!(emu.memory().read(0x400), 0x11);
    assert_eq!(emu.memory().read(0x401), 0x22);
    assert_eq!(emu.index(), 0x400);
}

#[test]
fn block_store_modified_advances_index() {
    let mut emu = ChipEmulator::with_config(ChipConfig {
        modified_shift: true,
        modified_load: true,
    });
    emu.load_rom(&[0x60, 0x11, 0x61, 0x22, 0xA4, 0x00, 0xF1, 0x55]).unwrap();

    for _ in 0..4 {
        emu.tick().unwrap();
    }

    assert_eq!(emu.index(), 0x402);
}

#[test]
fn glyph_lookup_scales_by_five() {
    // V0 = 0x0A: the glyph for hexadecimal digit A sits at offset 50.
    let mut emu = ChipEmulator::init();
    emu.load_rom(&[0x60, 0x0A, 0xF0, 0x29]).unwrap();

    emu.tick().unwrap();
    emu.tick().unwrap();

    assert_eq!(emu.index(), 50);
}

#[test]
fn delay_timer_round_trip() {
    // LD DT, V0 with V0 = 7, then LD V1, DT straight after: the delay
    // counter may tick down at most once between the two.
    let mut emu = ChipEmulator::init();
    emu.load_rom(&[0x60, 0x07, 0xF0, 0x15, 0xF1, 0x07]).unwrap();

    for _ in 0..3 {
        emu.tick().unwrap();
    }

    assert!(emu.reg(1) == 7 || emu.reg(1) == 6);
}

#[test]
fn index_add_exceeds_twelve_bits() {
    // LD I, 0xFFF plus V0 = 0xFF twice stays within u16 wraparound rules.
    let mut emu = ChipEmulator::init();
    emu.load_rom(&[0xAF, 0xFF, 0x60, 0xFF, 0xF0, 0x1E]).unwrap();

    for _ in 0..3 {
        emu.tick().unwrap();
    }

    assert_eq!(emu.index(), 0x10FE);
}

#[test]
fn machine_code_jump_is_ignored() {
    // 0nnn other than CLS/RET advances past itself and does nothing else.
    let mut emu = ChipEmulator::init();
    emu.load_rom(&[0x01, 0x23]).unwrap();

    emu.tick().unwrap();

    assert_eq!(emu.pc(), 0x202);
}

#[test]
fn reset_restores_fresh_state() {
    let mut emu = ChipEmulator::init();
    emu.load_rom(&[0x60, 0x0A, 0x70, 0x05]).unwrap();
    emu.tick().unwrap();
    emu.set_key(Some(ChipKey::Key1));

    emu.reset();

    assert_eq!(emu.pc(), 0x200);
    assert_eq!(emu.sp(), 0);
    assert_eq!(emu.reg(0), 0);
    assert_eq!(emu.current_key(), None);
    assert!(emu.memory().prog_space().iter().all(|&x| x == 0));
    // The glyph table survives: the glyph for 0 still starts with 0xF0.
    assert_eq!(emu.memory().read(0), 0xF0);
    assert!(emu.pixels().iter().all(|&p| !p));
}

#[test]
fn conditional_skips_compare_as_documented() {
    // SE V0, 0x00 skips (V0 starts 0); then SNE V0, 0x00 does not skip.
    let mut emu = ChipEmulator::init();
    emu.load_rom(&[
        0x30, 0x00, // SE V0, 0x00: skip
        0x00, 0x00, // skipped
        0x40, 0x00, // SNE V0, 0x00: no skip
        0x50, 0x10, // SE V0, V1: skip (both zero)
        0x00, 0x00, // skipped
        0x90, 0x10, // SNE V0, V1: no skip
    ])
    .unwrap();

    emu.tick().unwrap();
    assert_eq!(emu.pc(), 0x204);
    emu.tick().unwrap();
    assert_eq!(emu.pc(), 0x206);
    emu.tick().unwrap();
    assert_eq!(emu.pc(), 0x20A);
    emu.tick().unwrap();
    assert_eq!(emu.pc(), 0x20C);
}

#[test]
fn jump_with_offset_adds_v0() {
    let mut emu = ChipEmulator::init();
    emu.load_rom(&[0x60, 0x10, 0xB3, 0x00]).unwrap();

    emu.tick().unwrap();
    emu.tick().unwrap();

    assert_eq!(emu.pc(), 0x310);
}
