use chip8::chip::Chip8;
use chip8::fault::{Fault, FaultKind, RomTooLarge};
use chip8::font::FONT_SET;

fn boot(rom: &[u8]) -> Chip8 {
    Chip8::new(rom).unwrap()
}

/// The whole observable state, for comparing two machines.
#[derive(Debug, Clone, PartialEq)]
struct Snapshot {
    memory: Vec<u8>,
    registers: Vec<u8>,
    index: u16,
    pc: usize,
    stack: Vec<u16>,
    delay_timer: u8,
    sound_timer: u8,
    keys: Vec<bool>,
    graphics: Vec<Vec<bool>>,
}

fn snapshot(chip: &Chip8) -> Snapshot {
    Snapshot {
        memory: chip.memory().to_vec(),
        registers: chip.registers().to_vec(),
        index: chip.index(),
        pc: chip.pc(),
        stack: chip.stack()[..chip.sp()].to_vec(),
        delay_timer: chip.delay_timer(),
        sound_timer: chip.sound_timer(),
        keys: chip.keys().to_vec(),
        graphics: chip.graphics().iter().map(|column| column.to_vec()).collect(),
    }
}

fn lit_pixels(chip: &Chip8) -> Vec<(usize, usize)> {
    let mut lit = Vec::new();
    for x in 0..64 {
        for y in 0..32 {
            if chip.graphics()[x][y] {
                lit.push((x, y));
            }
        }
    }
    lit
}

#[test]
fn new_machine_starts_at_program_start_with_all_else_clear() {
    let chip = boot(&[0x12, 0x34]);
    assert_eq!(chip.pc(), 0x200);
    assert_eq!(chip.sp(), 0);
    assert_eq!(chip.index(), 0);
    assert_eq!(chip.registers(), &[0u8; 16]);
    assert_eq!(chip.keys(), &[false; 16]);
    assert_eq!(chip.delay_timer(), 0);
    assert_eq!(chip.sound_timer(), 0);
    assert!(lit_pixels(&chip).is_empty());
}

#[test]
fn new_machine_holds_font_then_zeros_then_rom_then_zeros() {
    let rom = [0xAA, 0xBB, 0xCC];
    let chip = boot(&rom);
    let memory = chip.memory();
    assert_eq!(&memory[..80], &FONT_SET[..]);
    assert!(memory[80..0x200].iter().all(|byte| *byte == 0));
    assert_eq!(&memory[0x200..0x203], &rom[..]);
    assert!(memory[0x203..].iter().all(|byte| *byte == 0));
    assert_eq!(memory.len(), 4096);
}

#[test]
fn font_glyph_for_zero_and_f() {
    let chip = boot(&[]);
    assert_eq!(&chip.memory()[0..5], &[0xF0, 0x90, 0x90, 0x90, 0xF0]);
    assert_eq!(&chip.memory()[75..80], &[0xF0, 0x80, 0xF0, 0x80, 0x80]);
}

#[test]
fn rom_of_full_capacity_is_loaded() {
    let rom = vec![0x5A; 3584];
    let chip = boot(&rom);
    assert_eq!(chip.memory()[0x200], 0x5A);
    assert_eq!(chip.memory()[4095], 0x5A);
}

#[test]
fn rom_over_capacity_is_refused() {
    let rom = vec![0u8; 3585];
    match Chip8::new(&rom) {
        Err(error) => assert_eq!(error, RomTooLarge { len: 3585 }),
        Ok(_) => panic!("a program of 3585 bytes was loaded"),
    }
}

#[test]
fn jump_sets_pc_for_lowest_and_highest_address() {
    let mut chip = boot(&[]);
    chip.decode_opcode_with(0x1000, 0).unwrap();
    assert_eq!(chip.pc(), 0x000);
    let mut chip = boot(&[]);
    chip.decode_opcode_with(0x1FFF, 0).unwrap();
    assert_eq!(chip.pc(), 0xFFF);
    let mut chip = boot(&[]);
    chip.decode_opcode_with(0x1ABC, 0).unwrap();
    assert_eq!(chip.pc(), 0xABC);
}

#[test]
fn jump_changes_nothing_but_pc() {
    let mut chip = boot(&[0x01, 0x02]);
    chip.set_register(3, 7);
    let before = snapshot(&chip);
    chip.decode_opcode_with(0x1456, 0).unwrap();
    assert_eq!(snapshot(&chip), Snapshot { pc: 0x456, ..before });
}

#[test]
fn call_pushes_next_instruction_and_return_comes_back() {
    let mut chip = boot(&[]);
    chip.decode_opcode_with(0x2300, 0).unwrap();
    assert_eq!(chip.pc(), 0x300);
    assert_eq!(chip.sp(), 1);
    assert_eq!(chip.stack()[0], 0x202);
    chip.decode_opcode_with(0x00EE, 0).unwrap();
    assert_eq!(chip.pc(), 0x202);
    assert_eq!(chip.sp(), 0);
}

#[test]
fn nested_calls_return_in_reverse_order() {
    let mut chip = boot(&[]);
    chip.decode_opcode_with(0x2300, 0).unwrap();
    chip.decode_opcode_with(0x2400, 0).unwrap();
    assert_eq!(chip.sp(), 2);
    assert_eq!(chip.stack()[1], 0x302);
    chip.decode_opcode_with(0x00EE, 0).unwrap();
    assert_eq!(chip.pc(), 0x302);
    chip.decode_opcode_with(0x00EE, 0).unwrap();
    assert_eq!(chip.pc(), 0x202);
    assert_eq!(chip.sp(), 0);
}

#[test]
fn seventeenth_call_overflows_the_stack() {
    let mut chip = boot(&[]);
    for level in 0..16 {
        chip.decode_opcode_with(0x2300, 0).unwrap();
        assert_eq!(chip.sp(), level + 1);
    }
    let before = snapshot(&chip);
    assert_eq!(
        chip.decode_opcode_with(0x2400, 0),
        Err(Fault { kind: FaultKind::StackOverflow, pc: 0x300, opcode: Some(0x2400) })
    );
    assert_eq!(snapshot(&chip), before);
}

#[test]
fn return_without_call_underflows_the_stack() {
    let mut chip = boot(&[]);
    let before = snapshot(&chip);
    assert_eq!(
        chip.decode_opcode_with(0x00EE, 0),
        Err(Fault { kind: FaultKind::StackUnderflow, pc: 0x200, opcode: Some(0x00EE) })
    );
    assert_eq!(snapshot(&chip), before);
}

#[test]
fn skips_move_pc_by_four_or_two() {
    // (opcode, V2, V3, skipped)
    let cases: [(u16, u8, u8, bool); 12] = [
        (0x3200, 0, 9, true),
        (0x32FF, 0xFF, 9, true),
        (0x32FF, 0xFE, 9, false),
        (0x4200, 0, 9, false),
        (0x42FF, 0xFE, 9, true),
        (0x5230, 7, 7, true),
        (0x5230, 7, 8, false),
        (0x523F, 7, 7, true),
        (0x9230, 7, 7, false),
        (0x9230, 7, 8, true),
        (0x9231, 0, 255, true),
        (0x5220, 1, 2, true),
    ];
    for (opcode, v2, v3, skipped) in cases {
        let mut chip = boot(&[]);
        chip.set_register(2, v2);
        chip.set_register(3, v3);
        let before = snapshot(&chip);
        chip.decode_opcode_with(opcode, 0).unwrap();
        let pc = if skipped { 0x204 } else { 0x202 };
        assert_eq!(snapshot(&chip), Snapshot { pc, ..before }, "opcode {:#06X}", opcode);
    }
}

#[test]
fn key_skips_move_pc_by_four_or_two() {
    let mut chip = boot(&[]);
    chip.set_key(0xF, true);
    chip.set_register(4, 0xF);
    chip.decode_opcode_with(0xE49E, 0).unwrap();
    assert_eq!(chip.pc(), 0x204);
    chip.decode_opcode_with(0xE4A1, 0).unwrap();
    assert_eq!(chip.pc(), 0x206);
    chip.set_register(4, 0xE);
    chip.decode_opcode_with(0xE49E, 0).unwrap();
    assert_eq!(chip.pc(), 0x208);
    chip.decode_opcode_with(0xE4A1, 0).unwrap();
    assert_eq!(chip.pc(), 0x20C);
}

#[test]
fn key_skip_on_missing_key_faults() {
    let mut chip = boot(&[]);
    chip.set_register(4, 16);
    let before = snapshot(&chip);
    assert_eq!(
        chip.decode_opcode_with(0xE49E, 0),
        Err(Fault { kind: FaultKind::KeyOutOfRange, pc: 0x200, opcode: Some(0xE49E) })
    );
    assert_eq!(
        chip.decode_opcode_with(0xE4A1, 0),
        Err(Fault { kind: FaultKind::KeyOutOfRange, pc: 0x200, opcode: Some(0xE4A1) })
    );
    assert_eq!(snapshot(&chip), before);
}

#[test]
fn add_immediate_wraps_and_leaves_flag() {
    let mut chip = boot(&[]);
    chip.set_register(0xF, 1);
    chip.set_register(2, 0xFF);
    chip.decode_opcode_with(0x7202, 0).unwrap();
    assert_eq!(chip.registers()[2], 1);
    assert_eq!(chip.registers()[0xF], 1);
    assert_eq!(chip.pc(), 0x202);
}

#[test]
fn add_with_carry_scenario() {
    let mut chip = boot(&[]);
    chip.set_register(2, 0x32);
    chip.set_register(3, 0x3C);
    chip.decode_opcode_with(0x8234, 0).unwrap();
    assert_eq!(chip.registers()[2], 110);
    assert_eq!(chip.registers()[0xF], 0);
    chip.set_register(3, 0xC8);
    chip.decode_opcode_with(0x8234, 0).unwrap();
    assert_eq!(chip.registers()[2], 54);
    assert_eq!(chip.registers()[0xF], 1);
}

#[test]
fn add_to_255_does_not_carry() {
    let mut chip = boot(&[]);
    chip.set_register(0, 200);
    chip.set_register(1, 55);
    chip.decode_opcode_with(0x8014, 0).unwrap();
    assert_eq!(chip.registers()[0], 255);
    assert_eq!(chip.registers()[0xF], 0);
    chip.set_register(1, 1);
    chip.decode_opcode_with(0x8014, 0).unwrap();
    assert_eq!(chip.registers()[0], 0);
    assert_eq!(chip.registers()[0xF], 1);
}

#[test]
fn subtract_with_borrow_scenario() {
    let mut chip = boot(&[]);
    chip.set_register(2, 3);
    chip.set_register(3, 1);
    chip.decode_opcode_with(0x8235, 0).unwrap();
    assert_eq!(chip.registers()[2], 2);
    assert_eq!(chip.registers()[0xF], 1);
    chip.set_register(2, 4);
    chip.set_register(3, 5);
    chip.decode_opcode_with(0x8235, 0).unwrap();
    assert_eq!(chip.registers()[2], 255);
    assert_eq!(chip.registers()[0xF], 0);
}

#[test]
fn subtract_equal_values_does_not_borrow() {
    let mut chip = boot(&[]);
    chip.set_register(2, 9);
    chip.set_register(3, 9);
    chip.decode_opcode_with(0x8235, 0).unwrap();
    assert_eq!(chip.registers()[2], 0);
    assert_eq!(chip.registers()[0xF], 1);
    chip.set_register(2, 9);
    chip.decode_opcode_with(0x8237, 0).unwrap();
    assert_eq!(chip.registers()[2], 0);
    assert_eq!(chip.registers()[0xF], 1);
}

#[test]
fn shift_right_scenario() {
    let mut chip = boot(&[]);
    chip.set_register(2, 3);
    chip.set_register(3, 0xF0);
    chip.decode_opcode_with(0x8236, 0).unwrap();
    assert_eq!(chip.registers()[2], 1);
    assert_eq!(chip.registers()[0xF], 1);
    assert_eq!(chip.registers()[3], 0xF0);
    chip.set_register(2, 4);
    chip.decode_opcode_with(0x8236, 0).unwrap();
    assert_eq!(chip.registers()[2], 2);
    assert_eq!(chip.registers()[0xF], 0);
}

#[test]
fn shift_left_drops_high_bit_into_flag() {
    let mut chip = boot(&[]);
    chip.set_register(2, 0x81);
    chip.decode_opcode_with(0x823E, 0).unwrap();
    assert_eq!(chip.registers()[2], 0x02);
    assert_eq!(chip.registers()[0xF], 1);
    chip.set_register(2, 0x7F);
    chip.decode_opcode_with(0x823E, 0).unwrap();
    assert_eq!(chip.registers()[2], 0xFE);
    assert_eq!(chip.registers()[0xF], 0);
}

#[test]
fn arithmetic_on_the_flag_register_keeps_the_result() {
    let mut chip = boot(&[]);
    chip.set_register(0xF, 200);
    chip.set_register(1, 100);
    chip.decode_opcode_with(0x8F14, 0).unwrap();
    assert_eq!(chip.registers()[0xF], 44);
    chip.set_register(0xF, 3);
    chip.decode_opcode_with(0x8F06, 0).unwrap();
    assert_eq!(chip.registers()[0xF], 0);
}

#[test]
fn jump_with_offset_adds_v0_into_the_low_byte() {
    let mut chip = boot(&[]);
    chip.set_register(0, 0x10);
    chip.decode_opcode_with(0xB234, 0).unwrap();
    assert_eq!(chip.pc(), 0x244);
    let mut chip = boot(&[]);
    chip.set_register(0, 0x02);
    chip.decode_opcode_with(0xB2FF, 0).unwrap();
    assert_eq!(chip.pc(), 0x201);
    let mut chip = boot(&[]);
    chip.set_register(0, 0xFF);
    chip.decode_opcode_with(0xBFFF, 0).unwrap();
    assert_eq!(chip.pc(), 0xFFE);
}

#[test]
fn random_is_the_supplied_byte_under_the_mask() {
    let mut chip = boot(&[]);
    chip.decode_opcode_with(0xC2FF, 0xAB).unwrap();
    assert_eq!(chip.registers()[2], 0xAB);
    chip.decode_opcode_with(0xC20F, 0xAB).unwrap();
    assert_eq!(chip.registers()[2], 0x0B);
    chip.decode_opcode_with(0xC200, 0xAB).unwrap();
    assert_eq!(chip.registers()[2], 0x00);
    assert_eq!(chip.pc(), 0x206);
}

#[test]
fn random_from_the_source_stays_under_the_mask() {
    let mut chip = boot(&[]);
    for _ in 0..64 {
        chip.set_register(2, 0xFF);
        chip.decode_opcode_with(0x1200, 0).unwrap();
        chip.decode_opcode(0xC20F).unwrap();
        assert_eq!(chip.registers()[2] & 0xF0, 0);
        assert_eq!(chip.pc(), 0x202);
    }
    chip.decode_opcode_with(0x1200, 0).unwrap();
    chip.set_register(2, 0xFF);
    chip.decode_opcode(0xC200).unwrap();
    assert_eq!(chip.registers()[2], 0);
}

#[test]
fn index_instructions() {
    let mut chip = boot(&[]);
    chip.decode_opcode_with(0xAFFF, 0).unwrap();
    assert_eq!(chip.index(), 0xFFF);
    chip.set_register(1, 0x01);
    chip.decode_opcode_with(0xF11E, 0).unwrap();
    assert_eq!(chip.index(), 0x1000);
    chip.set_index(0xFFFF);
    chip.set_register(1, 0x02);
    chip.decode_opcode_with(0xF11E, 0).unwrap();
    assert_eq!(chip.index(), 0x0001);
    chip.set_register(1, 0x0A);
    chip.decode_opcode_with(0xF129, 0).unwrap();
    assert_eq!(chip.index(), 50);
    chip.set_register(1, 0xFF);
    chip.decode_opcode_with(0xF129, 0).unwrap();
    assert_eq!(chip.index(), 1275);
    assert_eq!(chip.pc(), 0x20A);
}

#[test]
fn bcd_scenario() {
    let mut chip = boot(&[]);
    chip.set_register(0, 243);
    chip.set_index(0x300);
    chip.decode_opcode_with(0xF033, 0).unwrap();
    assert_eq!(&chip.memory()[0x300..0x303], &[2, 4, 3]);
    assert_eq!(chip.index(), 0x300);
    chip.set_register(0, 7);
    chip.decode_opcode_with(0xF033, 0).unwrap();
    assert_eq!(&chip.memory()[0x300..0x303], &[0, 0, 7]);
    chip.set_register(0, 255);
    chip.set_index(4093);
    chip.decode_opcode_with(0xF033, 0).unwrap();
    assert_eq!(&chip.memory()[4093..4096], &[2, 5, 5]);
}

#[test]
fn bcd_past_the_end_of_memory_faults() {
    let mut chip = boot(&[]);
    chip.set_register(0, 243);
    chip.set_index(4094);
    let before = snapshot(&chip);
    assert_eq!(
        chip.decode_opcode_with(0xF033, 0),
        Err(Fault { kind: FaultKind::IndexOutOfBounds, pc: 0x200, opcode: Some(0xF033) })
    );
    assert_eq!(snapshot(&chip), before);
}

#[test]
fn register_dump_then_load_round_trips() {
    let mut chip = boot(&[]);
    for x in 0..16 {
        chip.set_register(x, (x as u8) * 16 + 3);
    }
    let registers = *chip.registers();
    chip.set_index(0x400);
    chip.decode_opcode_with(0xF955, 0).unwrap();
    assert_eq!(chip.index(), 0x400);
    assert_eq!(&chip.memory()[0x400..0x40A], &registers[0..10]);
    assert_eq!(chip.memory()[0x40A], 0);
    for x in 0..16 {
        chip.set_register(x, 0xEE);
    }
    chip.decode_opcode_with(0xF965, 0).unwrap();
    assert_eq!(&chip.registers()[0..10], &registers[0..10]);
    assert_eq!(&chip.registers()[10..16], &[0xEE; 6]);
    assert_eq!(chip.index(), 0x400);
    assert_eq!(chip.pc(), 0x204);
}

#[test]
fn register_dump_and_load_at_the_end_of_memory() {
    let mut chip = boot(&[]);
    chip.set_index(4096 - 16);
    chip.set_register(0xF, 9);
    chip.decode_opcode_with(0xFF55, 0).unwrap();
    assert_eq!(chip.memory()[4095], 9);
    chip.set_index(4096 - 15);
    let before = snapshot(&chip);
    assert_eq!(
        chip.decode_opcode_with(0xFF55, 0),
        Err(Fault { kind: FaultKind::IndexOutOfBounds, pc: 0x202, opcode: Some(0xFF55) })
    );
    assert_eq!(
        chip.decode_opcode_with(0xFF65, 0),
        Err(Fault { kind: FaultKind::IndexOutOfBounds, pc: 0x202, opcode: Some(0xFF65) })
    );
    assert_eq!(snapshot(&chip), before);
}

#[test]
fn timers_are_moved_to_and_from_registers() {
    let mut chip = boot(&[]);
    chip.set_register(5, 33);
    chip.decode_opcode_with(0xF515, 0).unwrap();
    chip.decode_opcode_with(0xF518, 0).unwrap();
    assert_eq!(chip.delay_timer(), 33);
    assert_eq!(chip.sound_timer(), 33);
    chip.decode_opcode_with(0xF607, 0).unwrap();
    assert_eq!(chip.registers()[6], 33);
}

#[test]
fn timers_tick_down_to_zero_and_stay() {
    let mut chip = boot(&[]);
    chip.set_delay_timer(2);
    chip.set_sound_timer(1);
    chip.tick_timers();
    assert_eq!((chip.delay_timer(), chip.sound_timer()), (1, 0));
    chip.tick_timers();
    assert_eq!((chip.delay_timer(), chip.sound_timer()), (0, 0));
    chip.tick_timers();
    assert_eq!((chip.delay_timer(), chip.sound_timer()), (0, 0));
}

#[test]
fn cycle_ticks_timers_after_the_instruction() {
    // V0 = 5; delay = V0; V1 = delay.
    let mut chip = boot(&[0x60, 0x05, 0xF0, 0x15, 0xF1, 0x07]);
    chip.set_sound_timer(200);
    chip.emulate_cycle().unwrap();
    assert_eq!(chip.sound_timer(), 199);
    chip.emulate_cycle().unwrap();
    assert_eq!(chip.delay_timer(), 4);
    chip.emulate_cycle().unwrap();
    assert_eq!(chip.registers()[1], 4);
    assert_eq!(chip.delay_timer(), 3);
    assert_eq!(chip.sound_timer(), 197);
    assert_eq!(chip.pc(), 0x206);
}

#[test]
fn clear_screen_puts_every_pixel_out() {
    let mut chip = boot(&[]);
    chip.set_register(0, 5);
    chip.decode_opcode_with(0xF029, 0).unwrap();
    chip.decode_opcode_with(0xD005, 0).unwrap();
    assert!(!lit_pixels(&chip).is_empty());
    chip.decode_opcode_with(0x00E0, 0).unwrap();
    assert!(lit_pixels(&chip).is_empty());
    assert_eq!(chip.pc(), 0x206);
}

#[test]
fn draw_glyph_zero_at_origin() {
    let mut chip = boot(&[]);
    chip.set_index(0);
    chip.decode_opcode_with(0xD125, 0).unwrap();
    let expected = vec![
        (0, 0), (0, 1), (0, 2), (0, 3), (0, 4),
        (1, 0), (1, 4),
        (2, 0), (2, 4),
        (3, 0), (3, 1), (3, 2), (3, 3), (3, 4),
    ];
    assert_eq!(lit_pixels(&chip), expected);
    assert_eq!(chip.registers()[0xF], 0);
    assert_eq!(chip.pc(), 0x202);
}

#[test]
fn draw_collision_scenario() {
    let mut chip = boot(&[]);
    chip.set_index(0x300);
    chip.write_memory(0x300, 0b1010_0000);
    chip.set_register(0xF, 1);
    chip.decode_opcode_with(0xD011, 0).unwrap();
    assert_eq!(lit_pixels(&chip), vec![(0, 0), (2, 0)]);
    assert_eq!(chip.registers()[0xF], 0);
    chip.decode_opcode_with(0xD011, 0).unwrap();
    assert!(lit_pixels(&chip).is_empty());
    assert_eq!(chip.registers()[0xF], 1);
    chip.decode_opcode_with(0xD011, 0).unwrap();
    assert_eq!(chip.registers()[0xF], 0);
}

#[test]
fn draw_partial_overlap_collides_and_xors() {
    let mut chip = boot(&[]);
    chip.set_index(0x300);
    chip.write_memory(0x300, 0b1100_0000);
    chip.decode_opcode_with(0xD011, 0).unwrap();
    chip.set_register(0, 1);
    chip.decode_opcode_with(0xD011, 0).unwrap();
    assert_eq!(lit_pixels(&chip), vec![(0, 0), (2, 0)]);
    assert_eq!(chip.registers()[0xF], 1);
}

#[test]
fn draw_position_is_taken_modulo_the_screen() {
    let mut chip = boot(&[]);
    chip.set_index(0x300);
    chip.write_memory(0x300, 0b1000_0000);
    chip.set_register(0, 64 + 3);
    chip.set_register(1, 32 * 5 + 4);
    chip.decode_opcode_with(0xD011, 0).unwrap();
    assert_eq!(lit_pixels(&chip), vec![(3, 4)]);
}

#[test]
fn draw_is_clipped_at_the_right_and_bottom_edges() {
    let mut chip = boot(&[]);
    chip.set_index(0x300);
    chip.write_memory(0x300, 0xFF);
    chip.write_memory(0x301, 0xFF);
    chip.write_memory(0x302, 0xFF);
    chip.set_register(0, 62);
    chip.set_register(1, 30);
    chip.decode_opcode_with(0xD013, 0).unwrap();
    assert_eq!(lit_pixels(&chip), vec![(62, 30), (62, 31), (63, 30), (63, 31)]);
    assert_eq!(chip.registers()[0xF], 0);
}

#[test]
fn draw_of_no_rows_changes_no_pixel() {
    let mut chip = boot(&[]);
    chip.set_index(0xFFFF);
    chip.set_register(0xF, 1);
    chip.decode_opcode_with(0xD010, 0).unwrap();
    assert!(lit_pixels(&chip).is_empty());
    assert_eq!(chip.registers()[0xF], 0);
    assert_eq!(chip.pc(), 0x202);
}

#[test]
fn draw_reading_past_the_end_of_memory_faults() {
    let mut chip = boot(&[]);
    chip.set_index(4095);
    chip.decode_opcode_with(0xD011, 0).unwrap();
    let before = snapshot(&chip);
    assert_eq!(
        chip.decode_opcode_with(0xD012, 0),
        Err(Fault { kind: FaultKind::IndexOutOfBounds, pc: 0x202, opcode: Some(0xD012) })
    );
    assert_eq!(snapshot(&chip), before);
}

#[test]
fn draw_with_the_flag_register_as_coordinate() {
    let mut chip = boot(&[]);
    chip.set_index(0x300);
    chip.write_memory(0x300, 0b1000_0000);
    chip.set_register(0xF, 9);
    chip.set_register(1, 2);
    chip.decode_opcode_with(0xDF11, 0).unwrap();
    assert_eq!(lit_pixels(&chip), vec![(9, 2)]);
    assert_eq!(chip.registers()[0xF], 0);
}

#[test]
fn key_wait_holds_pc_over_cycles_until_a_key_is_down() {
    let mut chip = boot(&[0xF3, 0x0A]);
    chip.set_delay_timer(3);
    assert!(chip.awaiting_key());
    chip.emulate_cycle().unwrap();
    assert_eq!(chip.pc(), 0x200);
    chip.emulate_cycle().unwrap();
    assert_eq!(chip.pc(), 0x200);
    assert_eq!(chip.delay_timer(), 1);
    assert_eq!(chip.registers()[3], 0);
    assert!(chip.awaiting_key());
    chip.set_key(0xB, true);
    assert!(!chip.awaiting_key());
    chip.emulate_cycle().unwrap();
    assert_eq!(chip.pc(), 0x202);
    assert_eq!(chip.registers()[3], 0xB);
    assert!(!chip.awaiting_key());
}

#[test]
fn key_wait_takes_the_lowest_key_and_advances_once() {
    let mut chip = boot(&[0xF3, 0x0A]);
    let mut keys = [false; 16];
    keys[4] = true;
    keys[9] = true;
    keys[15] = true;
    chip.set_keys(keys);
    chip.emulate_cycle().unwrap();
    assert_eq!(chip.pc(), 0x202);
    assert_eq!(chip.registers()[3], 4);
}

#[test]
fn key_wait_sees_key_zero() {
    let mut chip = boot(&[]);
    chip.set_register(3, 7);
    chip.set_key(0, true);
    chip.decode_opcode_with(0xF30A, 0).unwrap();
    assert_eq!(chip.registers()[3], 0);
    assert_eq!(chip.pc(), 0x202);
}

#[test]
fn first_cycle_of_a_jump_program() {
    let mut chip = boot(&[0x12, 0x34]);
    chip.emulate_cycle().unwrap();
    assert_eq!(chip.pc(), 0x234);

    let mut rom = vec![0x12, 0x34];
    rom.extend((0..3000).map(|at| (at % 251) as u8));
    let mut chip = boot(&rom);
    chip.emulate_cycle().unwrap();
    assert_eq!(chip.pc(), 0x234);
}

#[test]
fn fetch_reads_big_endian_at_pc() {
    let mut chip = boot(&[0xAB, 0xCD, 0x01, 0x02]);
    assert_eq!(chip.fetch_opcode(), Ok(0xABCD));
    chip.decode_opcode_with(0x1202, 0).unwrap();
    assert_eq!(chip.fetch_opcode(), Ok(0x0102));
    chip.decode_opcode_with(0x1FFE, 0).unwrap();
    assert_eq!(chip.fetch_opcode(), Ok(0x0000));
}

#[test]
fn fetch_outside_program_memory_faults() {
    let mut chip = boot(&[]);
    chip.decode_opcode_with(0x1FFF, 0).unwrap();
    let fault = Fault { kind: FaultKind::ProgramCounterOutOfBounds, pc: 0xFFF, opcode: None };
    assert_eq!(chip.fetch_opcode(), Err(fault));
    let before = snapshot(&chip);
    assert_eq!(chip.emulate_cycle(), Err(fault));
    assert_eq!(snapshot(&chip), before);

    let mut chip = boot(&[]);
    chip.decode_opcode_with(0x11FF, 0).unwrap();
    assert_eq!(
        chip.emulate_cycle(),
        Err(Fault { kind: FaultKind::ProgramCounterOutOfBounds, pc: 0x1FF, opcode: None })
    );
    assert_eq!(
        chip.decode_opcode_with(0x6001, 0),
        Err(Fault { kind: FaultKind::ProgramCounterOutOfBounds, pc: 0x1FF, opcode: Some(0x6001) })
    );
    assert_eq!(chip.registers()[0], 0);
}

#[test]
fn running_off_the_end_of_memory_faults() {
    let mut chip = boot(&[]);
    chip.decode_opcode_with(0x1FFE, 0).unwrap();
    chip.emulate_cycle().unwrap_err();
    chip.decode_opcode_with(0x6001, 0).unwrap();
    assert_eq!(chip.pc(), 4096);
    assert_eq!(
        chip.emulate_cycle(),
        Err(Fault { kind: FaultKind::ProgramCounterOutOfBounds, pc: 4096, opcode: None })
    );
}

#[test]
fn undefined_instructions_fault_and_do_not_advance() {
    let undefined: [u16; 10] =
        [0x0000, 0x00E1, 0x0123, 0x8008, 0x823F, 0xE000, 0xE19F, 0xF000, 0xF0FF, 0xF166];
    for opcode in undefined {
        let mut chip = boot(&[]);
        chip.set_delay_timer(9);
        let before = snapshot(&chip);
        assert_eq!(
            chip.decode_opcode(opcode),
            Err(Fault { kind: FaultKind::UndefinedInstruction, pc: 0x200, opcode: Some(opcode) })
        );
        assert_eq!(snapshot(&chip), before);
    }
}

#[test]
fn cycle_on_an_undefined_instruction_halts_without_a_tick() {
    let mut chip = boot(&[0xFF, 0xFF]);
    chip.set_delay_timer(9);
    assert_eq!(
        chip.emulate_cycle(),
        Err(Fault { kind: FaultKind::UndefinedInstruction, pc: 0x200, opcode: Some(0xFFFF) })
    );
    assert_eq!(chip.pc(), 0x200);
    assert_eq!(chip.delay_timer(), 9);
}

#[test]
fn clear_and_return_ignore_the_second_nibble() {
    let mut chip = boot(&[]);
    chip.decode_opcode_with(0x2300, 0).unwrap();
    chip.decode_opcode_with(0x0FEE, 0).unwrap();
    assert_eq!(chip.pc(), 0x202);
    chip.decode_opcode_with(0x07E0, 0).unwrap();
    assert_eq!(chip.pc(), 0x204);
}

#[test]
fn setters_write_what_getters_read() {
    let mut chip = boot(&[]);
    chip.set_register(7, 0x77);
    chip.set_index(0xBEEF);
    chip.write_memory(4095, 0x42);
    chip.set_delay_timer(11);
    chip.set_sound_timer(22);
    chip.set_key(15, true);
    assert_eq!(chip.registers()[7], 0x77);
    assert_eq!(chip.index(), 0xBEEF);
    assert_eq!(chip.memory()[4095], 0x42);
    assert_eq!(chip.delay_timer(), 11);
    assert_eq!(chip.sound_timer(), 22);
    assert!(chip.keys()[15]);
    chip.set_keys([false; 16]);
    assert_eq!(chip.keys(), &[false; 16]);
}

#[test]
fn small_program_runs_to_its_end() {
    // V0 = 3; loop: V1 += 2; V0 += 0xFF; skip if V0 == 0; jump loop; jump self.
    let rom = [
        0x60, 0x03, 0x71, 0x02, 0x70, 0xFF, 0x30, 0x00, 0x12, 0x02, 0x12, 0x0A,
    ];
    let mut chip = boot(&rom);
    for _ in 0..40 {
        chip.emulate_cycle().unwrap();
    }
    assert_eq!(chip.registers()[0], 0);
    assert_eq!(chip.registers()[1], 6);
    assert_eq!(chip.pc(), 0x20A);
}

#[test]
fn cycle_with_a_supplied_random_byte_is_repeatable() {
    // V1 = random & 0x3C; V2 = random & 0xFF.
    let rom = [0xC1, 0x3C, 0xC2, 0xFF];
    let mut first = boot(&rom);
    let mut second = boot(&rom);
    for chip in [&mut first, &mut second] {
        chip.set_delay_timer(2);
        chip.emulate_cycle_with(0xA5).unwrap();
        chip.emulate_cycle_with(0x5A).unwrap();
    }
    assert_eq!(first.registers()[1], 0xA5 & 0x3C);
    assert_eq!(first.registers()[2], 0x5A);
    assert_eq!(first.pc(), 0x204);
    assert_eq!(first.delay_timer(), 0);
    assert_eq!(snapshot(&first), snapshot(&second));
}

#[test]
fn cycle_with_a_supplied_byte_faults_as_the_cycle_does() {
    let mut chip = boot(&[0x00, 0xEE]);
    let before = snapshot(&chip);
    assert_eq!(
        chip.emulate_cycle_with(7),
        Err(Fault { kind: FaultKind::StackUnderflow, pc: 0x200, opcode: Some(0x00EE) })
    );
    assert_eq!(snapshot(&chip), before);
}
