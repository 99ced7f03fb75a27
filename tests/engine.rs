use chip8::instruction::{decode, Instruction};
use chip8::machine::{Chip8, Fault, FaultKind};
use chip8::program::load_program;

fn machine_with(words: &[u16]) -> Chip8 {
    let mut chip = Chip8::new();
    for (k, w) in words.iter().enumerate() {
        chip.write_cmd(0x200 + 2 * k as u16, *w);
    }
    chip
}

fn run(chip: &mut Chip8, cycles: usize) {
    for _ in 0..cycles {
        chip.step(0).expect("cycle faulted");
    }
}

#[test]
fn load_immediate_reads_back_for_every_register() {
    for x in 0..16u16 {
        let mut chip = machine_with(&[0x6000 | (x << 8) | 0x5A]);
        run(&mut chip, 1);
        assert_eq!(chip.register(x as u8), 0x5A);
        assert_eq!(chip.pc(), 0x202);
    }
}

#[test]
fn add_immediate_wraps_and_keeps_vf() {
    for (a, b) in [(0u8, 0u8), (200, 100), (255, 1), (17, 42), (255, 255)] {
        let mut chip = machine_with(&[0x6F07, 0x6300 | a as u16, 0x7300 | b as u16]);
        run(&mut chip, 3);
        assert_eq!(chip.register(3), a.wrapping_add(b));
        assert_eq!(chip.register(0xF), 0x07);
    }
}

#[test]
fn add_registers_sets_carry() {
    let mut chip = machine_with(&[0x60FF, 0x6101, 0x8014]);
    run(&mut chip, 3);
    assert_eq!(chip.register(0), 0x00);
    assert_eq!(chip.register(0xF), 1);
}

#[test]
fn add_registers_without_carry_clears_vf() {
    let mut chip = machine_with(&[0x6F09, 0x6010, 0x6120, 0x8014]);
    run(&mut chip, 4);
    assert_eq!(chip.register(0), 0x30);
    assert_eq!(chip.register(0xF), 0);
}

#[test]
fn subtract_registers_with_borrow() {
    let mut chip = machine_with(&[0x6005, 0x610A, 0x8015]);
    run(&mut chip, 3);
    assert_eq!(chip.register(0), 0xFB);
    assert_eq!(chip.register(0xF), 0);
}

#[test]
fn subtract_registers_without_borrow() {
    let mut chip = machine_with(&[0x600A, 0x6105, 0x8015]);
    run(&mut chip, 3);
    assert_eq!(chip.register(0), 0x05);
    assert_eq!(chip.register(0xF), 1);
}

#[test]
fn reverse_subtract_uses_vy_minus_vx() {
    let mut chip = machine_with(&[0x600A, 0x6105, 0x8017]);
    run(&mut chip, 3);
    assert_eq!(chip.register(0), 0xFB);
    assert_eq!(chip.register(0xF), 0);
}

#[test]
fn shift_right_flags_low_bit() {
    let mut chip = machine_with(&[0x6205, 0x8206]);
    run(&mut chip, 2);
    assert_eq!(chip.register(2), 0x02);
    assert_eq!(chip.register(0xF), 1);
}

#[test]
fn shift_left_flags_raw_high_bit() {
    let mut chip = machine_with(&[0x62C1, 0x820E]);
    run(&mut chip, 2);
    assert_eq!(chip.register(2), 0x82);
    assert_eq!(chip.register(0xF), 0x80);
}

#[test]
fn bitwise_operations() {
    let mut chip = machine_with(&[0x60F0, 0x613C, 0x6200, 0x8200, 0x8211, 0x6300, 0x8300, 0x8312, 0x6400, 0x8400, 0x8413]);
    run(&mut chip, 11);
    assert_eq!(chip.register(2), 0xFC);
    assert_eq!(chip.register(3), 0x30);
    assert_eq!(chip.register(4), 0xCC);
}

#[test]
fn call_then_return_comes_back() {
    // 0x200: call 0x300; 0x300: return
    let mut chip = machine_with(&[0x2300]);
    chip.write_cmd(0x300, 0x00EE);
    run(&mut chip, 1);
    assert_eq!(chip.pc(), 0x300);
    assert_eq!(chip.stack_pointer(), 1);
    run(&mut chip, 1);
    assert_eq!(chip.pc(), 0x202);
    assert_eq!(chip.stack_pointer(), 0);
}

#[test]
fn clear_screen_zeroes_framebuffer_and_flag_resets() {
    let mut chip = machine_with(&[0x00E0, 0x6000]);
    for a in 0xF00..=0xFFFu16 {
        chip.write(a, 0xA5);
    }
    run(&mut chip, 1);
    for a in 0xF00..=0xFFFu16 {
        assert_eq!(chip.read(a), 0);
    }
    assert!(chip.display_updated());
    run(&mut chip, 1);
    assert!(!chip.display_updated());
}

#[test]
fn drawing_twice_restores_and_reports_collision() {
    // I = glyph 0, V0 = 3, V1 = 2, draw 5 rows twice
    let mut chip = machine_with(&[0xA000, 0x6003, 0x6102, 0xD014, 0xD014]);
    run(&mut chip, 4);
    assert_eq!(chip.register(0xF), 0);
    assert!(chip.display_updated());
    // row 2, glyph row 0xF0 shifted right by 3: 0x1E in byte 0
    assert_eq!(chip.read(0xF00 + 2 * 8), 0x1E);
    run(&mut chip, 1);
    assert_eq!(chip.register(0xF), 1);
    for a in 0xF00..=0xFFFu16 {
        assert_eq!(chip.read(a), 0);
    }
}

#[test]
fn drawing_spills_into_next_byte_and_clips_at_edges() {
    // I = glyph 0 (0xF0 first row), V0 = 62 (byte 7, shift 6), V1 = 30
    let mut chip = machine_with(&[0xA000, 0x603E, 0x611E, 0xD014]);
    run(&mut chip, 4);
    // rows 30 and 31 only; byte 7 gets 0xF0 >> 6 = 0x03, nothing wraps
    assert_eq!(chip.read(0xF00 + 30 * 8 + 7), 0x03);
    assert_eq!(chip.read(0xF00 + 31 * 8 + 7), 0x02);
    assert_eq!(chip.read(0xF00 + 30 * 8), 0x00);
    // a spill inside the row: V0 = 4 puts 0xF0 over bytes 0 and 1
    let mut chip = machine_with(&[0xA000, 0x6004, 0x6100, 0xD010]);
    run(&mut chip, 4);
    assert_eq!(chip.read(0xF00), 0x0F);
    assert_eq!(chip.read(0xF01), 0x00);
    let mut chip = machine_with(&[0xA000, 0x6006, 0x6100, 0xD010]);
    run(&mut chip, 4);
    assert_eq!(chip.read(0xF00), 0x03);
    assert_eq!(chip.read(0xF01), 0xC0);
}

#[test]
fn wait_key_blocks_then_takes_lowest_key() {
    let mut chip = machine_with(&[0xF30A]);
    for _ in 0..5 {
        run(&mut chip, 1);
        assert_eq!(chip.pc(), 0x200);
    }
    chip.write_keypad(0x9, true);
    chip.write_keypad(0x4, true);
    run(&mut chip, 1);
    assert_eq!(chip.register(3), 0x4);
    assert_eq!(chip.pc(), 0x202);
}

#[test]
fn sixteen_nested_calls_then_overflow() {
    // each call targets the next instruction
    let words: Vec<u16> = (0..17u16).map(|k| 0x2000 | (0x202 + 2 * k)).collect();
    let mut chip = machine_with(&words);
    for depth in 1..=16 {
        run(&mut chip, 1);
        assert_eq!(chip.stack_pointer(), depth);
    }
    let fault = chip.step(0).unwrap_err();
    assert_eq!(fault, Fault { kind: FaultKind::StackOverflow, pc: 0x220, instruction: Some(0x2222) });
    assert!(chip.stack_pointer() <= 16);
}

#[test]
fn timers_count_down_to_zero() {
    let mut chip = machine_with(&[0x6002, 0xF015, 0xF018, 0x1206]);
    run(&mut chip, 2);
    assert_eq!(chip.delay_timer(), 1);
    assert_eq!(chip.sound_timer(), 0);
    run(&mut chip, 1);
    assert_eq!(chip.delay_timer(), 0);
    assert_eq!(chip.sound_timer(), 1);
    assert!(chip.sound_active());
    run(&mut chip, 1);
    assert_eq!(chip.delay_timer(), 0);
    assert_eq!(chip.sound_timer(), 0);
    assert!(chip.sound_active());
    run(&mut chip, 1);
    assert_eq!(chip.sound_timer(), 0);
    assert!(!chip.sound_active());
}

#[test]
fn delay_timer_reads_into_register() {
    let mut chip = machine_with(&[0x6009, 0xF015, 0xF107]);
    run(&mut chip, 3);
    assert_eq!(chip.register(1), 8);
}

#[test]
fn skips_on_register_comparisons() {
    let mut chip = machine_with(&[0x6005, 0x3005, 0x0000, 0x4006, 0x0000, 0x6105, 0x5010, 0x0000, 0x9010]);
    run(&mut chip, 5);
    assert_eq!(chip.pc(), 0x210);
    run(&mut chip, 1);
    assert_eq!(chip.pc(), 0x212);
}

#[test]
fn skips_on_keys() {
    let mut chip = machine_with(&[0x6012, 0xE09E, 0x0000, 0xE0A1]);
    chip.write_keypad(0x22, true);
    run(&mut chip, 2);
    assert_eq!(chip.pc(), 0x206);
    run(&mut chip, 1);
    assert_eq!(chip.pc(), 0x208);
}

#[test]
fn jump_and_jump_with_offset() {
    let mut chip = machine_with(&[0x1208]);
    chip.write_cmd(0x208, 0x6010);
    chip.write_cmd(0x20A, 0xB300);
    run(&mut chip, 3);
    assert_eq!(chip.pc(), 0x310);
}

#[test]
fn random_byte_is_masked() {
    let mut chip = machine_with(&[0xC50F]);
    chip.step(0xAB).unwrap();
    assert_eq!(chip.register(5), 0x0B);
    let mut chip = machine_with(&[0xC500]);
    chip.cycle().unwrap();
    assert_eq!(chip.register(5), 0);
}

#[test]
fn font_glyph_address() {
    let mut chip = machine_with(&[0x600C, 0xF029]);
    run(&mut chip, 2);
    assert_eq!(chip.index(), 60);
    assert_eq!(chip.read(60), 0xF0);
    assert_eq!(chip.read(61), 0x80);
}

#[test]
fn add_to_index() {
    let mut chip = machine_with(&[0xA123, 0x60FF, 0xF01E]);
    run(&mut chip, 3);
    assert_eq!(chip.index(), 0x222);
    assert_eq!(chip.register(0xF), 0);
}

#[test]
fn store_decimal_digits() {
    let mut chip = machine_with(&[0x60FE, 0xA300, 0xF033]);
    run(&mut chip, 3);
    assert_eq!(chip.read(0x300), 2);
    assert_eq!(chip.read(0x301), 5);
    assert_eq!(chip.read(0x302), 4);
    assert!(!chip.display_updated());
}

#[test]
fn store_and_load_registers() {
    let mut chip = machine_with(&[0x6011, 0x6122, 0x6233, 0x6344, 0xA400, 0xF255, 0x6000, 0x6100, 0x6200, 0xF265]);
    run(&mut chip, 10);
    assert_eq!(chip.read(0x400), 0x11);
    assert_eq!(chip.read(0x402), 0x33);
    assert_eq!(chip.read(0x403), 0x00);
    assert_eq!(chip.index(), 0x400);
    assert_eq!(chip.register(0), 0x11);
    assert_eq!(chip.register(1), 0x22);
    assert_eq!(chip.register(2), 0x33);
    assert_eq!(chip.register(3), 0x44);
}

#[test]
fn storing_into_framebuffer_marks_display() {
    let mut chip = machine_with(&[0x6081, 0xAF00, 0xF055]);
    run(&mut chip, 3);
    assert_eq!(chip.read(0xF00), 0x81);
    assert!(chip.display_updated());
}

#[test]
fn fault_on_return_with_empty_stack() {
    let mut chip = machine_with(&[0x00EE]);
    let fault = chip.step(0).unwrap_err();
    assert_eq!(fault, Fault { kind: FaultKind::StackUnderflow, pc: 0x200, instruction: Some(0x00EE) });
}

#[test]
fn fault_on_invalid_font_glyph() {
    let mut chip = machine_with(&[0x6010, 0xF029]);
    run(&mut chip, 1);
    assert_eq!(chip.step(0).unwrap_err().kind, FaultKind::InvalidFontGlyph);
}

#[test]
fn fault_on_memory_past_the_end() {
    let mut chip = machine_with(&[0xAFFE, 0xF033]);
    run(&mut chip, 1);
    assert_eq!(chip.step(0).unwrap_err().kind, FaultKind::MemoryOutOfBounds);
    let mut chip = machine_with(&[0xAFFF, 0xF155]);
    run(&mut chip, 1);
    assert_eq!(chip.step(0).unwrap_err().kind, FaultKind::MemoryOutOfBounds);
    let mut chip = machine_with(&[0xAFFF, 0xF165]);
    run(&mut chip, 1);
    assert_eq!(chip.step(0).unwrap_err().kind, FaultKind::MemoryOutOfBounds);
    let mut chip = machine_with(&[0xAFFF, 0xD011]);
    run(&mut chip, 1);
    assert_eq!(chip.step(0).unwrap_err().kind, FaultKind::MemoryOutOfBounds);
}

#[test]
fn fault_on_unknown_opcodes() {
    for w in [0x0123u16, 0x8008, 0xE000, 0xF000] {
        let mut chip = machine_with(&[w]);
        let fault = chip.step(0).unwrap_err();
        assert_eq!(fault, Fault { kind: FaultKind::UnknownOpcode, pc: 0x200, instruction: Some(w) });
    }
}

#[test]
fn fault_when_pc_leaves_memory() {
    let mut chip = machine_with(&[0x1FFF]);
    run(&mut chip, 1);
    let fault = chip.step(0).unwrap_err();
    assert_eq!(fault, Fault { kind: FaultKind::ProgramCounterOutOfBounds, pc: 0xFFF, instruction: None });
}

#[test]
fn decode_splits_fields() {
    assert_eq!(decode(0x00E0), Some(Instruction::ClearScreen));
    assert_eq!(decode(0x2ABC), Some(Instruction::Call { addr: 0xABC }));
    assert_eq!(decode(0x8A5E), Some(Instruction::ShiftLeft { x: 0xA }));
    assert_eq!(decode(0xD12F), Some(Instruction::Draw { x: 1, y: 2, n: 0xF }));
    assert_eq!(decode(0x5121), Some(Instruction::SkipEqReg { x: 1, y: 2 }));
    assert_eq!(decode(0xF765), Some(Instruction::LoadRegs { x: 7 }));
    assert_eq!(decode(0xE7A2), None);
}

#[test]
fn execute_applies_one_instruction() {
    let mut chip = Chip8::new();
    chip.execute(Instruction::LoadImm { x: 4, nn: 0x99 }, 0).unwrap();
    chip.execute(Instruction::AddReg { x: 4, y: 4 }, 0).unwrap();
    assert_eq!(chip.register(4), 0x32);
    assert_eq!(chip.register(0xF), 1);
    assert_eq!(chip.execute(Instruction::Return, 0), Err(FaultKind::StackUnderflow));
}

#[test]
fn new_machine_has_font_and_start_address() {
    let chip = Chip8::new();
    assert_eq!(chip.pc(), 0x200);
    assert_eq!(chip.read(0), 0xF0);
    assert_eq!(chip.read(79), 0x80);
    assert_eq!(chip.read(80), 0x00);
    assert!(!chip.display_updated());
}

#[test]
fn read_write_and_word_write() {
    let mut chip = Chip8::new();
    chip.write(0xFFF, 7);
    assert_eq!(chip.read(0xFFF), 7);
    chip.write_cmd(0x300, 0xBEEF);
    assert_eq!(chip.read(0x300), 0xBE);
    assert_eq!(chip.read(0x301), 0xEF);
}

#[test]
fn load_program_drops_odd_trailing_byte() {
    let mut chip = Chip8::new();
    load_program(&mut chip, &[0x60, 0x07, 0x12]);
    assert_eq!(chip.read(0x200), 0x60);
    assert_eq!(chip.read(0x201), 0x07);
    assert_eq!(chip.read(0x202), 0x00);
    run(&mut chip, 1);
    assert_eq!(chip.register(0), 7);
}

#[test]
fn display_text_of_blank_and_drawn_screen() {
    let off = '\u{2B1B}';
    let on = '\u{2B1C}';
    let chip = Chip8::new();
    let text = chip.display_to_string();
    let blank_line: String = std::iter::repeat(off).take(64).chain("\n\r".chars()).collect();
    assert_eq!(text, blank_line.repeat(32));

    let mut chip = machine_with(&[0xA000, 0x6000, 0x6100, 0xD010]);
    run(&mut chip, 4);
    let text = chip.display_to_string();
    let first: Vec<char> = text.chars().take(66).collect();
    assert_eq!(&first[0..5], &[on, on, on, on, off]);
    assert_eq!(first[64], '\n');
    assert_eq!(first[65], '\r');
    assert_eq!(text.chars().count(), 32 * 66);
}
