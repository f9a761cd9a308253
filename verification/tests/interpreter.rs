use chip8_vm::chip8::cpu::FONT;
use chip8_vm::chip8::Cpu;
use chip8_vm::chip8::Key;
use chip8_vm::chip8::NextPCValue;
use chip8_vm::config::Config;

fn machine_with(rom: &[u8], wrapping: bool) -> Cpu {
    let config = Config::new("game.ch8".to_string(), wrapping, "font.ttf".to_string());
    Cpu::new(&config, &rom.to_vec(), false, 1820000)
}

fn machine(rom: &[u8]) -> Cpu {
    machine_with(rom, false)
}

fn run(cpu: &mut Cpu, timers: &mut (u8, u8), cycles: usize) {
    for _ in 0..cycles {
        assert!(cpu.can_cycle());
        cpu.cycle(timers);
    }
}

fn lit_pixels(cpu: &Cpu) -> usize {
    let mut lit = 0;
    for y in 0..32 {
        for x in 0..64 {
            if cpu.graphics().get_pos(x, y) != 0 {
                lit += 1;
            }
        }
    }
    lit
}

#[test]
fn starts_with_font_program_and_cleared_state() {
    let cpu = machine(&[0x12, 0x34, 0x56]);
    assert_eq!(cpu.pc(), 0x200);
    assert_eq!(cpu.index(), 0);
    assert_eq!(cpu.registers(), &[0u8; 16]);
    assert!(cpu.stack().is_empty());
    assert!(cpu.instr_log().is_empty());
    assert!(!cpu.finished());
    assert_eq!(&cpu.memory()[0..80], &FONT[..]);
    assert_eq!(&cpu.memory()[0..5], &[0xF0, 0x90, 0x90, 0x90, 0xF0]);
    assert_eq!(&cpu.memory()[75..80], &[0xF0, 0x80, 0xF0, 0x80, 0x80]);
    assert!(cpu.memory()[80..0x200].iter().all(|b| *b == 0));
    assert_eq!(&cpu.memory()[0x200..0x203], &[0x12, 0x34, 0x56]);
    assert!(cpu.memory()[0x203..].iter().all(|b| *b == 0));
    assert_eq!(lit_pixels(&cpu), 0);
}

#[test]
fn program_longer_than_memory_is_cut_off() {
    let rom = vec![0xABu8; 4000];
    let cpu = machine(&rom);
    assert!(cpu.memory()[0x200..].iter().all(|b| *b == 0xAB));
    assert_eq!(cpu.memory()[0x1FF], 0);
}

#[test]
fn add_immediate_wraps_and_keeps_flag() {
    let mut cpu = machine(&[0x60, 0xFF, 0x6F, 0x07, 0x70, 0x02]);
    let mut timers = (0, 0);
    run(&mut cpu, &mut timers, 3);
    assert_eq!(cpu.registers()[0], 0x01);
    assert_eq!(cpu.registers()[0xF], 0x07);
    assert_eq!(cpu.pc(), 0x206);
}

#[test]
fn add_registers_sets_carry() {
    let mut cpu = machine(&[0x60, 0xFF, 0x61, 0x02, 0x80, 0x14]);
    let mut timers = (0, 0);
    run(&mut cpu, &mut timers, 3);
    assert_eq!(cpu.registers()[0], 0x01);
    assert_eq!(cpu.registers()[1], 0x02);
    assert_eq!(cpu.registers()[0xF], 1);
}

#[test]
fn add_registers_clears_carry() {
    let mut cpu = machine(&[0x6F, 0x01, 0x60, 0x05, 0x61, 0x0A, 0x80, 0x14]);
    let mut timers = (0, 0);
    run(&mut cpu, &mut timers, 4);
    assert_eq!(cpu.registers()[0], 15);
    assert_eq!(cpu.registers()[0xF], 0);
}

#[test]
fn subtract_with_borrow_clears_flag() {
    let mut cpu = machine(&[0x60, 0x01, 0x61, 0x02, 0x80, 0x15]);
    let mut timers = (0, 0);
    run(&mut cpu, &mut timers, 3);
    assert_eq!(cpu.registers()[0], 0xFF);
    assert_eq!(cpu.registers()[0xF], 0);
}

#[test]
fn subtract_without_borrow_sets_flag() {
    let mut cpu = machine(&[0x60, 0x09, 0x61, 0x09, 0x80, 0x15]);
    let mut timers = (0, 0);
    run(&mut cpu, &mut timers, 3);
    assert_eq!(cpu.registers()[0], 0);
    assert_eq!(cpu.registers()[0xF], 1);
}

#[test]
fn reverse_subtract_sets_and_clears_flag() {
    let mut cpu = machine(&[0x60, 0x01, 0x61, 0x03, 0x80, 0x17, 0x62, 0x05, 0x82, 0x17]);
    let mut timers = (0, 0);
    run(&mut cpu, &mut timers, 3);
    assert_eq!(cpu.registers()[0], 0x02);
    assert_eq!(cpu.registers()[0xF], 1);
    run(&mut cpu, &mut timers, 2);
    // V2 := V1 - V2 = 3 - 5
    assert_eq!(cpu.registers()[2], 0xFE);
    assert_eq!(cpu.registers()[0xF], 0);
}

#[test]
fn flag_overwrites_result_in_vf() {
    // VF := VF + V0 carries: the flag is what stays in VF.
    let mut cpu = machine(&[0x6F, 0xFF, 0x60, 0x03, 0x8F, 0x04, 0x6F, 0x03, 0x8F, 0x06]);
    let mut timers = (0, 0);
    run(&mut cpu, &mut timers, 3);
    assert_eq!(cpu.registers()[0xF], 1);
    run(&mut cpu, &mut timers, 2);
    assert_eq!(cpu.registers()[0xF], 1);
}

#[test]
fn shift_right_evicts_lowest_bit() {
    let mut cpu = machine(&[0x63, 0b0000_0011, 0x83, 0x06]);
    let mut timers = (0, 0);
    run(&mut cpu, &mut timers, 2);
    assert_eq!(cpu.registers()[3], 0b0000_0001);
    assert_eq!(cpu.registers()[0xF], 1);
}

#[test]
fn shift_left_evicts_highest_bit() {
    let mut cpu = machine(&[0x63, 0b1000_0001, 0x83, 0x4E]);
    let mut timers = (0, 0);
    run(&mut cpu, &mut timers, 2);
    assert_eq!(cpu.registers()[3], 0b0000_0010);
    assert_eq!(cpu.registers()[0xF], 1);
}

#[test]
fn shifts_clear_flag_when_bit_is_zero() {
    let mut cpu = machine(&[0x63, 0x42, 0x83, 0x06, 0x83, 0x0E]);
    let mut timers = (0, 0);
    run(&mut cpu, &mut timers, 2);
    assert_eq!(cpu.registers()[3], 0x21);
    assert_eq!(cpu.registers()[0xF], 0);
    run(&mut cpu, &mut timers, 1);
    assert_eq!(cpu.registers()[3], 0x42);
    assert_eq!(cpu.registers()[0xF], 0);
}

#[test]
fn bitwise_operations() {
    let mut cpu = machine(&[
        0x60, 0b1100, 0x61, 0b1010, 0x82, 0x00, 0x82, 0x11, 0x83, 0x00, 0x83, 0x12, 0x84, 0x00,
        0x84, 0x13, 0x85, 0x10,
    ]);
    let mut timers = (0, 0);
    run(&mut cpu, &mut timers, 9);
    assert_eq!(cpu.registers()[2], 0b1110);
    assert_eq!(cpu.registers()[3], 0b1000);
    assert_eq!(cpu.registers()[4], 0b0110);
    assert_eq!(cpu.registers()[5], 0b1010);
    assert_eq!(cpu.registers()[0xF], 0);
}

#[test]
fn same_sprite_drawn_twice_collides_and_clears() {
    // I := 0x20A (the byte 0xFF behind the program); draw 8x1 at (V0, V1) twice.
    let mut cpu = machine(&[0xA2, 0x0A, 0xD0, 0x11, 0xD0, 0x11, 0x00, 0x00, 0x00, 0x00, 0xFF]);
    let mut timers = (0, 0);
    assert!(cpu.can_cycle());
    assert!(!cpu.cycle(&mut timers));
    assert!(cpu.can_cycle());
    assert!(cpu.cycle(&mut timers));
    assert_eq!(cpu.registers()[0xF], 0);
    assert_eq!(lit_pixels(&cpu), 8);
    for x in 0..8 {
        assert_eq!(cpu.graphics().get_pos(x, 0), 1);
    }
    assert!(cpu.cycle(&mut timers));
    assert_eq!(cpu.registers()[0xF], 1);
    assert_eq!(lit_pixels(&cpu), 0);
    assert_eq!(cpu.index(), 0x20A);
    assert_eq!(cpu.pc(), 0x206);
}

#[test]
fn sprite_rows_are_drawn_top_bit_first() {
    // Glyph "1" of the font at (2, 3): rows 0x20 0x60 0x20 0x20 0x70.
    let mut cpu = machine(&[0x60, 0x01, 0xF0, 0x29, 0x61, 0x02, 0x62, 0x03, 0xD1, 0x25]);
    let mut timers = (0, 0);
    run(&mut cpu, &mut timers, 5);
    assert_eq!(cpu.index(), 5);
    let rows: [u8; 5] = [0x20, 0x60, 0x20, 0x20, 0x70];
    for (dy, row) in rows.iter().enumerate() {
        for dx in 0..8 {
            let bit = (row >> (7 - dx)) & 1;
            assert_eq!(cpu.graphics().get_pos(2 + dx, 3 + dy), bit);
        }
    }
    assert_eq!(lit_pixels(&cpu), 8);
    assert_eq!(cpu.registers()[0xF], 0);
}

#[test]
fn sprite_is_clipped_without_wrapping() {
    // 8x2 sprite of 0xFF rows at (60, 31): four columns and one row stay.
    let mut cpu = machine(&[0x60, 60, 0x61, 31, 0xA2, 0x08, 0xD0, 0x12, 0xFF, 0xFF]);
    let mut timers = (0, 0);
    run(&mut cpu, &mut timers, 4);
    assert_eq!(lit_pixels(&cpu), 4);
    for x in 60..64 {
        assert_eq!(cpu.graphics().get_pos(x, 31), 1);
    }
    assert_eq!(cpu.registers()[0xF], 0);
}

#[test]
fn sprite_wraps_with_wrapping() {
    let mut cpu = machine_with(&[0x60, 60, 0x61, 31, 0xA2, 0x08, 0xD0, 0x12, 0xFF, 0xFF], true);
    let mut timers = (0, 0);
    run(&mut cpu, &mut timers, 4);
    assert_eq!(lit_pixels(&cpu), 16);
    for x in [60, 61, 62, 63, 0, 1, 2, 3] {
        assert_eq!(cpu.graphics().get_pos(x, 31), 1);
        assert_eq!(cpu.graphics().get_pos(x, 0), 1);
    }
    assert_eq!(cpu.registers()[0xF], 0);
}

#[test]
fn sprite_position_wraps_from_large_registers() {
    // V0 = 200, V1 = 100 with wrapping: 200 % 64 = 8, 100 % 32 = 4.
    let mut cpu = machine_with(&[0x60, 200, 0x61, 100, 0xA2, 0x08, 0xD0, 0x11, 0x81], true);
    let mut timers = (0, 0);
    run(&mut cpu, &mut timers, 4);
    assert_eq!(lit_pixels(&cpu), 2);
    assert_eq!(cpu.graphics().get_pos(8, 4), 1);
    assert_eq!(cpu.graphics().get_pos(15, 4), 1);
}

#[test]
fn sprite_of_no_rows_draws_nothing() {
    let mut cpu = machine(&[0xAF, 0xFF, 0xD0, 0x10]);
    let mut timers = (0, 0);
    run(&mut cpu, &mut timers, 1);
    assert!(cpu.can_cycle());
    assert!(cpu.cycle(&mut timers));
    assert_eq!(lit_pixels(&cpu), 0);
    assert_eq!(cpu.registers()[0xF], 0);
}

#[test]
fn bcd_of_234() {
    let mut cpu = machine(&[0x60, 234, 0xA3, 0x00, 0xF0, 0x33]);
    let mut timers = (0, 0);
    run(&mut cpu, &mut timers, 3);
    assert_eq!(&cpu.memory()[0x300..0x303], &[2, 3, 4]);
    assert_eq!(cpu.index(), 0x300);
}

#[test]
fn bcd_of_7() {
    let mut cpu = machine(&[0x60, 7, 0xA3, 0x00, 0xF0, 0x33]);
    let mut timers = (0, 0);
    run(&mut cpu, &mut timers, 3);
    assert_eq!(&cpu.memory()[0x300..0x303], &[0, 0, 7]);
}

#[test]
fn call_then_return_restores_next_address() {
    // 0x200: call 0x204; 0x204: return.
    let mut cpu = machine(&[0x22, 0x04, 0x00, 0x00, 0x00, 0xEE]);
    let mut timers = (0, 0);
    run(&mut cpu, &mut timers, 1);
    assert_eq!(cpu.pc(), 0x204);
    assert_eq!(cpu.stack(), &vec![0x202usize]);
    run(&mut cpu, &mut timers, 1);
    assert_eq!(cpu.pc(), 0x202);
    assert!(cpu.stack().is_empty());
}

#[test]
fn return_without_call_cannot_cycle() {
    let cpu = machine(&[0x00, 0xEE]);
    assert!(!cpu.can_cycle());
}

#[test]
fn memory_access_beyond_end_cannot_cycle() {
    let mut timers = (0, 0);
    let mut bcd = machine(&[0xAF, 0xFE, 0xF0, 0x33]);
    run(&mut bcd, &mut timers, 1);
    assert!(!bcd.can_cycle());
    let mut store = machine(&[0xAF, 0xFE, 0xF2, 0x55]);
    run(&mut store, &mut timers, 1);
    assert!(!store.can_cycle());
    let mut load = machine(&[0xAF, 0xFF, 0xF1, 0x65]);
    run(&mut load, &mut timers, 1);
    assert!(!load.can_cycle());
    let mut draw = machine(&[0xAF, 0xFF, 0xD0, 0x02]);
    run(&mut draw, &mut timers, 1);
    assert!(!draw.can_cycle());
    let mut jump = machine(&[0x1F, 0xFF]);
    run(&mut jump, &mut timers, 1);
    assert_eq!(jump.pc(), 0xFFF);
    assert!(!jump.can_cycle());
}

#[test]
fn memory_access_up_to_end_can_cycle() {
    let mut timers = (0, 0);
    let mut bcd = machine(&[0x60, 199, 0xAF, 0xFD, 0xF0, 0x33]);
    run(&mut bcd, &mut timers, 3);
    assert_eq!(&bcd.memory()[0xFFD..], &[1, 9, 9]);
    let mut store = machine(&[0x60, 0x11, 0x61, 0x22, 0xAF, 0xFE, 0xF1, 0x55]);
    run(&mut store, &mut timers, 4);
    assert_eq!(&store.memory()[0xFFE..], &[0x11, 0x22]);
}

#[test]
fn waits_for_key_without_moving() {
    let mut cpu = machine(&[0xF3, 0x0A]);
    let mut timers = (0, 0);
    for _ in 0..5 {
        run(&mut cpu, &mut timers, 1);
        assert_eq!(cpu.pc(), 0x200);
        assert_eq!(cpu.registers()[3], 0);
    }
    assert!(!cpu.poll_keypad(false, &vec![Key::S, Key::V]));
    run(&mut cpu, &mut timers, 1);
    assert_eq!(cpu.pc(), 0x202);
    assert_eq!(cpu.registers()[3], 0x8);
}

#[test]
fn end_to_end_program() {
    let mut cpu = machine(&[0x60, 0x05, 0x61, 0x0A, 0x80, 0x14, 0x00, 0xE0]);
    let mut timers = (0, 0);
    run(&mut cpu, &mut timers, 4);
    assert_eq!(cpu.registers()[0], 15);
    assert_eq!(cpu.registers()[1], 10);
    assert_eq!(cpu.registers()[0xF], 0);
    assert_eq!(lit_pixels(&cpu), 0);
    assert_eq!(cpu.pc(), 0x208);
    assert_eq!(cpu.instr_log(), &vec![0x00E0u16, 0x8014, 0x610A, 0x6005]);
}

#[test]
fn clear_screen_after_drawing() {
    let mut cpu = machine(&[0xD0, 0x05, 0x00, 0xE0]);
    let mut timers = (0, 0);
    run(&mut cpu, &mut timers, 1);
    assert_eq!(lit_pixels(&cpu), 14);
    assert!(!{
        assert!(cpu.can_cycle());
        cpu.cycle(&mut timers)
    });
    assert_eq!(lit_pixels(&cpu), 0);
}

#[test]
fn jumps() {
    let mut cpu = machine(&[0x13, 0x45]);
    let mut timers = (0, 0);
    run(&mut cpu, &mut timers, 1);
    assert_eq!(cpu.pc(), 0x345);
    let mut cpu = machine(&[0x60, 0xFF, 0xBF, 0xFF]);
    run(&mut cpu, &mut timers, 2);
    assert_eq!(cpu.pc(), 0xFFF + 0xFF);
}

#[test]
fn skips_on_immediate() {
    let mut timers = (0, 0);
    let mut cpu = machine(&[0x60, 0x42, 0x30, 0x42]);
    run(&mut cpu, &mut timers, 2);
    assert_eq!(cpu.pc(), 0x206);
    let mut cpu = machine(&[0x60, 0x42, 0x30, 0x43]);
    run(&mut cpu, &mut timers, 2);
    assert_eq!(cpu.pc(), 0x204);
    let mut cpu = machine(&[0x60, 0x42, 0x40, 0x42]);
    run(&mut cpu, &mut timers, 2);
    assert_eq!(cpu.pc(), 0x204);
    let mut cpu = machine(&[0x60, 0x42, 0x40, 0x43]);
    run(&mut cpu, &mut timers, 2);
    assert_eq!(cpu.pc(), 0x206);
}

#[test]
fn skips_on_registers() {
    let mut timers = (0, 0);
    let mut cpu = machine(&[0x60, 0x42, 0x61, 0x42, 0x50, 0x10]);
    run(&mut cpu, &mut timers, 3);
    assert_eq!(cpu.pc(), 0x208);
    let mut cpu = machine(&[0x60, 0x42, 0x61, 0x42, 0x90, 0x10]);
    run(&mut cpu, &mut timers, 3);
    assert_eq!(cpu.pc(), 0x206);
    let mut cpu = machine(&[0x60, 0x42, 0x61, 0x43, 0x50, 0x10]);
    run(&mut cpu, &mut timers, 3);
    assert_eq!(cpu.pc(), 0x206);
    let mut cpu = machine(&[0x60, 0x42, 0x61, 0x43, 0x90, 0x10]);
    run(&mut cpu, &mut timers, 3);
    assert_eq!(cpu.pc(), 0x208);
}

#[test]
fn skips_on_keys() {
    let mut timers = (0, 0);
    // Key 0xA is Z.
    let mut cpu = machine(&[0x60, 0x0A, 0xE0, 0x9E, 0x00, 0x00, 0xE0, 0xA1]);
    cpu.poll_keypad(false, &vec![Key::Z]);
    run(&mut cpu, &mut timers, 2);
    assert_eq!(cpu.pc(), 0x206);
    run(&mut cpu, &mut timers, 1);
    assert_eq!(cpu.pc(), 0x208);
    let mut cpu = machine(&[0x60, 0x0A, 0xE0, 0x9E, 0xE0, 0xA1]);
    run(&mut cpu, &mut timers, 2);
    assert_eq!(cpu.pc(), 0x204);
    run(&mut cpu, &mut timers, 1);
    assert_eq!(cpu.pc(), 0x208);
}

#[test]
fn key_index_out_of_range_counts_as_up() {
    let mut timers = (0, 0);
    let mut cpu = machine(&[0x60, 0x1A, 0xE0, 0x9E, 0xE0, 0xA1]);
    cpu.poll_keypad(false, &vec![Key::Z]);
    run(&mut cpu, &mut timers, 2);
    assert_eq!(cpu.pc(), 0x204);
    run(&mut cpu, &mut timers, 1);
    assert_eq!(cpu.pc(), 0x208);
}

#[test]
fn unknown_opcodes_only_advance() {
    let mut cpu = machine(&[0x00, 0x00, 0x51, 0x21, 0x81, 0x2F, 0xE1, 0x00, 0xF1, 0xFF, 0x91, 0x23]);
    let mut timers = (3, 4);
    run(&mut cpu, &mut timers, 6);
    assert_eq!(cpu.pc(), 0x20C);
    assert_eq!(cpu.registers(), &[0u8; 16]);
    assert_eq!(cpu.index(), 0);
    assert_eq!(timers, (3, 4));
    assert!(cpu.stack().is_empty());
    assert_eq!(lit_pixels(&cpu), 0);
}

#[test]
fn paused_machine_does_nothing() {
    let config = Config::new("game.ch8".to_string(), false, "font.ttf".to_string());
    let mut cpu = Cpu::new(&config, &vec![0x60, 0x05], true, 1820000);
    let mut timers = (9, 9);
    assert!(cpu.can_cycle());
    assert!(!cpu.cycle(&mut timers));
    assert_eq!(cpu.pc(), 0x200);
    assert_eq!(cpu.registers()[0], 0);
    assert!(cpu.instr_log().is_empty());
    assert_eq!(timers, (9, 9));
    // The pause key lets it run again.
    cpu.poll_keypad(false, &vec![Key::Space]);
    assert!(!cpu.keypad().paused());
    run(&mut cpu, &mut timers, 1);
    assert_eq!(cpu.registers()[0], 5);
}

#[test]
fn timer_opcodes_read_and_write_one_timer() {
    let mut cpu = machine(&[0xF1, 0x07, 0x62, 0x21, 0xF2, 0x15, 0x63, 0x33, 0xF3, 0x18]);
    let mut timers = (0x44, 0x55);
    run(&mut cpu, &mut timers, 1);
    assert_eq!(cpu.registers()[1], 0x44);
    assert_eq!(timers, (0x44, 0x55));
    run(&mut cpu, &mut timers, 2);
    assert_eq!(timers, (0x21, 0x55));
    run(&mut cpu, &mut timers, 2);
    assert_eq!(timers, (0x21, 0x33));
}

#[test]
fn index_register_operations() {
    let mut cpu = machine(&[0xAF, 0xFF, 0x60, 0xFF, 0xF0, 0x1E, 0x61, 0x0B, 0xF1, 0x29]);
    let mut timers = (0, 0);
    run(&mut cpu, &mut timers, 1);
    assert_eq!(cpu.index(), 0xFFF);
    run(&mut cpu, &mut timers, 2);
    // No masking on assignment.
    assert_eq!(cpu.index(), 0xFFF + 0xFF);
    assert_eq!(cpu.registers()[0xF], 0);
    run(&mut cpu, &mut timers, 2);
    assert_eq!(cpu.index(), 55);
    assert_eq!(&cpu.memory()[55..60], &[0xE0, 0x90, 0xE0, 0x90, 0xE0]);
}

#[test]
fn store_and_load_registers() {
    let mut cpu = machine(&[
        0x60, 0x11, 0x61, 0x22, 0x62, 0x33, 0xA3, 0x00, 0xF1, 0x55, 0x60, 0x00, 0x61, 0x00, 0x62,
        0x00, 0xF2, 0x65,
    ]);
    let mut timers = (0, 0);
    run(&mut cpu, &mut timers, 5);
    assert_eq!(&cpu.memory()[0x300..0x303], &[0x11, 0x22, 0x00]);
    assert_eq!(cpu.index(), 0x300);
    run(&mut cpu, &mut timers, 4);
    assert_eq!(&cpu.registers()[0..3], &[0x11, 0x22, 0x00]);
    assert_eq!(cpu.index(), 0x300);
}

#[test]
fn random_opcode_masks_the_byte() {
    let mut cpu = machine(&[0x60, 0x00]);
    assert_eq!(cpu.op_cxnn(4, 0x0F, 0xA7), NextPCValue::Next);
    assert_eq!(cpu.registers()[4], 0x07);
    assert_eq!(cpu.op_cxnn(4, 0xF0, 0xA7), NextPCValue::Next);
    assert_eq!(cpu.registers()[4], 0xA0);
    assert_eq!(cpu.pc(), 0x200);
}

#[test]
fn random_byte_never_reaches_255() {
    // C0FF then jump back, over and over.
    let mut cpu = machine(&[0xC0, 0xFF, 0x12, 0x00]);
    let mut timers = (0, 0);
    let mut seen_nonzero = false;
    for _ in 0..4000 {
        run(&mut cpu, &mut timers, 1);
        assert!(cpu.registers()[0] < 255);
        seen_nonzero = seen_nonzero || cpu.registers()[0] != 0;
        run(&mut cpu, &mut timers, 1);
        assert_eq!(cpu.pc(), 0x200);
    }
    assert!(seen_nonzero);
}

#[test]
fn random_opcode_respects_mask() {
    let mut cpu = machine(&[0xC5, 0x0F, 0x12, 0x00]);
    let mut timers = (0, 0);
    for _ in 0..200 {
        run(&mut cpu, &mut timers, 2);
        assert_eq!(cpu.registers()[5] & 0xF0, 0);
    }
}

#[test]
fn instruction_log_keeps_twelve_newest_first() {
    let mut rom = Vec::new();
    for k in 0..14u8 {
        rom.push(0x60);
        rom.push(k);
    }
    let mut cpu = machine(&rom);
    let mut timers = (0, 0);
    run(&mut cpu, &mut timers, 14);
    let expected: Vec<u16> = (2..14u16).rev().map(|k| 0x6000 + k).collect();
    assert_eq!(cpu.instr_log(), &expected);
}

#[test]
fn only_timer_opcodes_need_the_timers() {
    let mut cpu = machine(&[0x60, 0x05, 0xF0, 0x07, 0xF0, 0x15, 0xF0, 0x18, 0xF0, 0x1E, 0xF0, 0x33]);
    let mut timers = (7, 9);
    let expected = [false, true, true, true, false, false];
    for needed in expected {
        assert_eq!(cpu.needs_timers(), needed);
        run(&mut cpu, &mut timers, 1);
    }
    assert_eq!(timers, (7, 7));
    // Neither a paused machine nor one that ran out of memory needs them.
    let config = Config::new("game.ch8".to_string(), false, "font.ttf".to_string());
    let paused = Cpu::new(&config, &vec![0xF0, 0x07], true, 1820000);
    assert!(!paused.needs_timers());
    let mut lost = machine(&[0x1F, 0xFF]);
    run(&mut lost, &mut timers, 1);
    assert!(!lost.needs_timers());
}
