use chip8_kit::cpu::{RomTooLarge, CPU};
use chip8_kit::machine::RuntimeNotice;

const FONT: [u8; 80] = [
    0xF0, 0x90, 0x90, 0x90, 0xF0, 0x20, 0x60, 0x20, 0x20, 0x70, 0xF0, 0x10, 0xF0, 0x80, 0xF0, 0xF0,
    0x10, 0xF0, 0x10, 0xF0, 0x90, 0x90, 0xF0, 0x10, 0x10, 0xF0, 0x80, 0xF0, 0x10, 0xF0, 0xF0, 0x80,
    0xF0, 0x90, 0xF0, 0xF0, 0x10, 0x20, 0x40, 0x40, 0xF0, 0x90, 0xF0, 0x90, 0xF0, 0xF0, 0x90, 0xF0,
    0x10, 0xF0, 0xF0, 0x90, 0xF0, 0x90, 0x90, 0xE0, 0x90, 0xE0, 0x90, 0xE0, 0xF0, 0x80, 0x80, 0x80,
    0xF0, 0xE0, 0x90, 0x90, 0x90, 0xE0, 0xF0, 0x80, 0xF0, 0x80, 0xF0, 0xF0, 0x80, 0xF0, 0x80, 0x80,
];

fn machine_with(rom: &[u8]) -> CPU {
    let mut cpu = CPU::new();
    cpu.load_rom(rom).unwrap();
    cpu
}

fn lit_count(cpu: &CPU) -> usize {
    cpu.display.pixels.iter().map(|row| row.iter().filter(|on| **on).count()).sum()
}

#[test]
fn new_machine_is_in_its_power_on_state() {
    let cpu = CPU::new();
    assert_eq!(cpu.registers, [0u8; 16]);
    assert_eq!(cpu.index_register, 0);
    assert_eq!(cpu.program_counter, 0x200);
    assert_eq!(cpu.stack, [0u16; 16]);
    assert_eq!(cpu.stack_pointer, 0);
    assert_eq!(cpu.delay_timer, 0);
    assert_eq!(cpu.sound_timer, 0);
    assert_eq!(cpu.waiting_for_key, None);
    assert!(cpu.running);
    assert!(cpu.display.needs_redraw);
    assert_eq!(lit_count(&cpu), 0);
    assert_eq!(&cpu.memory[0x50..0xA0], &FONT[..]);
    assert!(cpu.memory[..0x50].iter().all(|byte| *byte == 0));
    assert!(cpu.memory[0xA0..].iter().all(|byte| *byte == 0));
}

#[test]
fn glyph_of_each_digit_starts_at_five_times_the_digit() {
    let cpu = CPU::new();
    assert_eq!(&cpu.memory[0x50..0x55], &[0xF0, 0x90, 0x90, 0x90, 0xF0]);
    assert_eq!(&cpu.memory[0x50 + 5 * 7..0x50 + 5 * 8], &[0xF0, 0x10, 0x20, 0x40, 0x40]);
    assert_eq!(&cpu.memory[0x50 + 5 * 0xF..0x50 + 5 * 0x10], &[0xF0, 0x80, 0xF0, 0x80, 0x80]);
}

#[test]
fn load_rom_places_the_program_at_0x200() {
    let rom: Vec<u8> = (0..100u8).collect();
    let mut cpu = CPU::new();
    assert_eq!(cpu.load_rom(&rom), Ok(()));
    assert_eq!(&cpu.memory[0x200..0x200 + 100], &rom[..]);
    assert!(cpu.memory[0x200 + 100..].iter().all(|byte| *byte == 0));
    assert_eq!(&cpu.memory[0x50..0xA0], &FONT[..]);
    assert_eq!(cpu.program_counter, 0x200);
    assert_eq!(cpu.stack_pointer, 0);
    assert_eq!(cpu.registers, [0u8; 16]);
    assert_eq!(cpu.index_register, 0);
}

#[test]
fn load_rom_leaves_memory_behind_the_program_unchanged() {
    let mut cpu = CPU::new();
    cpu.load_rom(&[1, 2, 3, 4]).unwrap();
    cpu.load_rom(&[9, 8]).unwrap();
    assert_eq!(&cpu.memory[0x200..0x204], &[9, 8, 3, 4]);
}

#[test]
fn load_rom_accepts_a_program_that_fills_memory() {
    let rom = vec![0xAB; 3584];
    let mut cpu = CPU::new();
    assert_eq!(cpu.load_rom(&rom), Ok(()));
    assert!(cpu.memory[0x200..].iter().all(|byte| *byte == 0xAB));
    assert_eq!(cpu.memory[0x1FF], 0);
}

#[test]
fn load_rom_rejects_a_program_that_is_too_large() {
    let rom = vec![0xAB; 3585];
    let mut cpu = CPU::new();
    assert_eq!(cpu.load_rom(&rom), Err(RomTooLarge { size: 3585 }));
    assert!(cpu.memory[0x200..].iter().all(|byte| *byte == 0));
}

#[test]
fn load_rom_accepts_the_empty_program() {
    let mut cpu = CPU::new();
    assert_eq!(cpu.load_rom(&[]), Ok(()));
    assert!(cpu.memory[0x200..].iter().all(|byte| *byte == 0));
}

#[test]
fn draw_program_runs_to_the_halt() {
    let mut cpu = machine_with(&[0x6A, 0x0C, 0x6B, 0x08, 0xA2, 0x22, 0xDA, 0xB6, 0x00, 0xFD]);
    cpu.memory[0x222..0x228].copy_from_slice(&[0xFF, 0x81, 0x81, 0x81, 0x81, 0xFF]);
    cpu.display.needs_redraw = false;
    assert_eq!(cpu.cycle(), None);
    assert_eq!(cpu.registers[0xA], 0x0C);
    assert_eq!(cpu.cycle(), None);
    assert_eq!(cpu.registers[0xB], 0x08);
    assert_eq!(cpu.cycle(), None);
    assert_eq!(cpu.index_register, 0x222);
    assert_eq!(cpu.cycle(), None);
    assert!(cpu.display.needs_redraw);
    assert_eq!(cpu.registers[0xF], 0);
    for row in 0..6 {
        for bit in 0..8 {
            let expected = row == 0 || row == 5 || bit == 0 || bit == 7;
            assert_eq!(cpu.display.pixels[8 + row][12 + bit], expected);
        }
    }
    assert_eq!(lit_count(&cpu), 24);
    assert!(cpu.running);
    assert_eq!(cpu.cycle(), None);
    assert!(!cpu.running);
    assert_eq!(cpu.program_counter, 0x20A);
}

#[test]
fn halted_machine_does_not_move() {
    let mut cpu = machine_with(&[0x00, 0xFD, 0x60, 0x55]);
    cpu.cycle();
    assert!(!cpu.running);
    assert_eq!(cpu.program_counter, 0x202);
    for _ in 0..10 {
        assert_eq!(cpu.cycle(), None);
    }
    assert_eq!(cpu.program_counter, 0x202);
    assert_eq!(cpu.registers[0], 0);
}

#[test]
fn jump_to_itself_loops_forever() {
    let mut cpu = machine_with(&[0x12, 0x00]);
    cpu.cycle();
    assert_eq!(cpu.program_counter, 0x200);
    for _ in 0..1000 {
        assert_eq!(cpu.cycle(), None);
        assert_eq!(cpu.program_counter, 0x200);
    }
    assert!(cpu.running);
}

#[test]
fn call_and_return() {
    let mut cpu = machine_with(&[0x22, 0x06, 0x00, 0xFD, 0x00, 0x00, 0x60, 0x2A, 0x00, 0xEE]);
    assert_eq!(cpu.cycle(), None);
    assert_eq!(cpu.program_counter, 0x206);
    assert_eq!(cpu.stack_pointer, 1);
    assert_eq!(cpu.stack[0], 0x202);
    assert_eq!(cpu.cycle(), None);
    assert_eq!(cpu.registers[0], 0x2A);
    assert_eq!(cpu.program_counter, 0x208);
    assert_eq!(cpu.cycle(), None);
    assert_eq!(cpu.registers[0], 0x2A);
    assert_eq!(cpu.program_counter, 0x202);
    assert_eq!(cpu.stack_pointer, 0);
    assert!(cpu.running);
    assert_eq!(cpu.cycle(), None);
    assert!(!cpu.running);
}

#[test]
fn call_return_scenario_with_the_subroutine_at_0x206() {
    // 0x200: CALL 0x206; 0x202: HALT; 0x206: V0 = 0x2A; 0x208: RET
    let mut cpu = CPU::new();
    cpu.memory[0x200..0x204].copy_from_slice(&[0x22, 0x06, 0x00, 0xFD]);
    cpu.memory[0x206..0x20A].copy_from_slice(&[0x60, 0x2A, 0x00, 0xEE]);
    cpu.cycle();
    cpu.cycle();
    assert_eq!(cpu.registers[0], 0x2A);
    assert_eq!(cpu.program_counter, 0x208);
    cpu.cycle();
    assert_eq!(cpu.program_counter, 0x202);
    cpu.cycle();
    assert!(!cpu.running);
}

#[test]
fn sixteen_nested_calls_return_in_reverse_order() {
    let mut cpu = CPU::new();
    // At 0x200 + 4k: CALL 0x200 + 4(k + 1), for k in 0..16; each followed by a
    // return at 0x202 + 4k. The innermost subroutine at 0x240 returns at once.
    for k in 0..16usize {
        let at = 0x200 + 4 * k;
        let target = (at + 4) as u16;
        cpu.memory[at] = 0x20 | (target >> 8) as u8;
        cpu.memory[at + 1] = target as u8;
        cpu.memory[at + 2] = 0x00;
        cpu.memory[at + 3] = 0xEE;
    }
    cpu.memory[0x240] = 0x00;
    cpu.memory[0x241] = 0xEE;
    for k in 0..16u16 {
        assert_eq!(cpu.cycle(), None);
        assert_eq!(cpu.program_counter, 0x204 + 4 * k);
        assert_eq!(cpu.stack_pointer as u16, k + 1);
    }
    for k in (0..16u16).rev() {
        assert_eq!(cpu.cycle(), None);
        assert_eq!(cpu.program_counter, 0x202 + 4 * k);
        assert_eq!(cpu.stack_pointer as u16, k);
    }
}

#[test]
fn seventeenth_call_is_reported_and_not_taken() {
    let mut cpu = machine_with(&[0x22, 0x00]);
    for _ in 0..16 {
        assert_eq!(cpu.cycle(), None);
    }
    assert_eq!(cpu.stack_pointer, 16);
    assert_eq!(cpu.program_counter, 0x200);
    let stack = cpu.stack;
    assert_eq!(cpu.cycle(), Some(RuntimeNotice::StackOverflow));
    assert_eq!(cpu.stack_pointer, 16);
    assert_eq!(cpu.stack, stack);
    assert_eq!(cpu.program_counter, 0x202);
    assert!(cpu.running);
}

#[test]
fn return_on_an_empty_stack_is_reported_and_skipped() {
    let mut cpu = machine_with(&[0x00, 0xEE, 0x60, 0x01]);
    assert_eq!(cpu.cycle(), Some(RuntimeNotice::StackUnderflow));
    assert_eq!(cpu.stack_pointer, 0);
    assert_eq!(cpu.program_counter, 0x202);
    assert_eq!(cpu.cycle(), None);
    assert_eq!(cpu.registers[0], 1);
}

#[test]
fn unknown_opcodes_are_reported_and_skipped() {
    for opcode in [0x0000u16, 0x0123, 0x5AB1, 0x8AB8, 0x8ABF, 0x9AB1, 0xC0FF, 0xE19F, 0xE1A2, 0xF11E, 0xF1FF] {
        let mut cpu = machine_with(&[(opcode >> 8) as u8, opcode as u8, 0x61, 0x07]);
        let registers = cpu.registers;
        assert_eq!(cpu.cycle(), Some(RuntimeNotice::UnknownOpcode { opcode }), "{:04X}", opcode);
        assert_eq!(cpu.program_counter, 0x202);
        assert_eq!(cpu.registers, registers);
        assert!(cpu.running);
        assert_eq!(cpu.cycle(), None);
        assert_eq!(cpu.registers[1], 7);
    }
}

#[test]
fn clear_screen_opcode() {
    let mut cpu = machine_with(&[0x00, 0xE0]);
    cpu.display.draw_sprite(0, 0, &[0xFF]);
    cpu.display.needs_redraw = false;
    assert_eq!(cpu.cycle(), None);
    assert_eq!(lit_count(&cpu), 0);
    assert!(cpu.display.needs_redraw);
}

#[test]
fn skip_opcodes() {
    // 3xkk
    let mut cpu = machine_with(&[0x31, 0x42]);
    cpu.registers[1] = 0x42;
    cpu.cycle();
    assert_eq!(cpu.program_counter, 0x204);
    let mut cpu = machine_with(&[0x31, 0x42]);
    cpu.cycle();
    assert_eq!(cpu.program_counter, 0x202);
    // 4xkk
    let mut cpu = machine_with(&[0x41, 0x42]);
    cpu.cycle();
    assert_eq!(cpu.program_counter, 0x204);
    let mut cpu = machine_with(&[0x41, 0x42]);
    cpu.registers[1] = 0x42;
    cpu.cycle();
    assert_eq!(cpu.program_counter, 0x202);
    // 5xy0
    let mut cpu = machine_with(&[0x51, 0x20]);
    cpu.registers[1] = 9;
    cpu.registers[2] = 9;
    cpu.cycle();
    assert_eq!(cpu.program_counter, 0x204);
    let mut cpu = machine_with(&[0x51, 0x20]);
    cpu.registers[1] = 9;
    cpu.cycle();
    assert_eq!(cpu.program_counter, 0x202);
    // 9xy0
    let mut cpu = machine_with(&[0x91, 0x20]);
    cpu.registers[1] = 9;
    cpu.cycle();
    assert_eq!(cpu.program_counter, 0x204);
    let mut cpu = machine_with(&[0x91, 0x20]);
    cpu.cycle();
    assert_eq!(cpu.program_counter, 0x202);
}

#[test]
fn add_immediate_wraps_and_leaves_the_flag_alone() {
    let mut cpu = machine_with(&[0x73, 0x10]);
    cpu.registers[3] = 0xF8;
    cpu.registers[0xF] = 0x77;
    cpu.cycle();
    assert_eq!(cpu.registers[3], 0x08);
    assert_eq!(cpu.registers[0xF], 0x77);
}

#[test]
fn register_copy_and_bitwise_opcodes() {
    let mut cpu = machine_with(&[0x81, 0x20, 0x83, 0x41, 0x85, 0x62, 0x87, 0x83]);
    cpu.registers[2] = 0x5A;
    cpu.registers[3] = 0b1100_0000;
    cpu.registers[4] = 0b0000_0011;
    cpu.registers[5] = 0b1111_0000;
    cpu.registers[6] = 0b0011_1100;
    cpu.registers[7] = 0b1010_1010;
    cpu.registers[8] = 0b1111_1111;
    cpu.registers[0xF] = 0x33;
    for _ in 0..4 {
        assert_eq!(cpu.cycle(), None);
    }
    assert_eq!(cpu.registers[1], 0x5A);
    assert_eq!(cpu.registers[3], 0b1100_0011);
    assert_eq!(cpu.registers[5], 0b0011_0000);
    assert_eq!(cpu.registers[7], 0b0101_0101);
    assert_eq!(cpu.registers[0xF], 0x33);
}

#[test]
fn add_registers_sets_the_carry() {
    let mut cpu = machine_with(&[0x81, 0x24]);
    cpu.registers[1] = 200;
    cpu.registers[2] = 100;
    cpu.cycle();
    assert_eq!(cpu.registers[1], 44);
    assert_eq!(cpu.registers[0xF], 1);
    let mut cpu = machine_with(&[0x81, 0x24]);
    cpu.registers[1] = 100;
    cpu.registers[2] = 155;
    cpu.registers[0xF] = 1;
    cpu.cycle();
    assert_eq!(cpu.registers[1], 255);
    assert_eq!(cpu.registers[0xF], 0);
}

#[test]
fn flag_is_written_after_the_destination() {
    // VF = VF + V1 overflows: the sum is written first, the carry wins.
    let mut cpu = machine_with(&[0x8F, 0x14]);
    cpu.registers[0xF] = 0xFF;
    cpu.registers[1] = 0x02;
    cpu.cycle();
    assert_eq!(cpu.registers[0xF], 1);
    // VF = VF >> 1 with the low bit clear: the flag, zero, wins.
    let mut cpu = machine_with(&[0x8F, 0x06]);
    cpu.registers[0xF] = 0xFE;
    cpu.cycle();
    assert_eq!(cpu.registers[0xF], 0);
}

#[test]
fn subtract_sets_the_flag_when_there_is_no_borrow() {
    let mut cpu = machine_with(&[0x81, 0x25]);
    cpu.registers[1] = 10;
    cpu.registers[2] = 3;
    cpu.cycle();
    assert_eq!(cpu.registers[1], 7);
    assert_eq!(cpu.registers[0xF], 1);
    let mut cpu = machine_with(&[0x81, 0x25]);
    cpu.registers[1] = 3;
    cpu.registers[2] = 10;
    cpu.cycle();
    assert_eq!(cpu.registers[1], 249);
    assert_eq!(cpu.registers[0xF], 0);
    let mut cpu = machine_with(&[0x81, 0x25]);
    cpu.registers[1] = 5;
    cpu.registers[2] = 5;
    cpu.cycle();
    assert_eq!(cpu.registers[1], 0);
    assert_eq!(cpu.registers[0xF], 1);
}

#[test]
fn reverse_subtract_sets_the_flag_when_there_is_no_borrow() {
    let mut cpu = machine_with(&[0x81, 0x27]);
    cpu.registers[1] = 3;
    cpu.registers[2] = 10;
    cpu.cycle();
    assert_eq!(cpu.registers[1], 7);
    assert_eq!(cpu.registers[0xF], 1);
    let mut cpu = machine_with(&[0x81, 0x27]);
    cpu.registers[1] = 10;
    cpu.registers[2] = 3;
    cpu.cycle();
    assert_eq!(cpu.registers[1], 249);
    assert_eq!(cpu.registers[0xF], 0);
}

#[test]
fn shifts_put_the_lost_bit_in_the_flag() {
    let mut cpu = machine_with(&[0x81, 0x26]);
    cpu.registers[1] = 0b1000_0101;
    cpu.cycle();
    assert_eq!(cpu.registers[1], 0b0100_0010);
    assert_eq!(cpu.registers[0xF], 1);
    let mut cpu = machine_with(&[0x81, 0x2E]);
    cpu.registers[1] = 0b1000_0101;
    cpu.cycle();
    assert_eq!(cpu.registers[1], 0b0000_1010);
    assert_eq!(cpu.registers[0xF], 1);
    let mut cpu = machine_with(&[0x81, 0x2E]);
    cpu.registers[1] = 0b0100_0000;
    cpu.registers[0xF] = 1;
    cpu.cycle();
    assert_eq!(cpu.registers[1], 0b1000_0000);
    assert_eq!(cpu.registers[0xF], 0);
}

#[test]
fn index_and_indexed_jump_opcodes() {
    let mut cpu = machine_with(&[0xAF, 0xFF, 0xB3, 0x00]);
    cpu.registers[0] = 0x10;
    cpu.cycle();
    assert_eq!(cpu.index_register, 0xFFF);
    cpu.cycle();
    assert_eq!(cpu.program_counter, 0x310);
    let mut cpu = machine_with(&[0xBF, 0xFF]);
    cpu.registers[0] = 0xFF;
    cpu.cycle();
    assert_eq!(cpu.program_counter, 0x10FE);
}

#[test]
fn key_skip_opcodes_look_at_the_low_nibble() {
    let mut cpu = machine_with(&[0xE1, 0x9E]);
    cpu.registers[1] = 0x37;
    cpu.keyboard.set_key(7, true);
    cpu.cycle();
    assert_eq!(cpu.program_counter, 0x204);
    let mut cpu = machine_with(&[0xE1, 0x9E]);
    cpu.registers[1] = 0x37;
    cpu.cycle();
    assert_eq!(cpu.program_counter, 0x202);
    let mut cpu = machine_with(&[0xE1, 0xA1]);
    cpu.registers[1] = 0x37;
    cpu.cycle();
    assert_eq!(cpu.program_counter, 0x204);
    let mut cpu = machine_with(&[0xE1, 0xA1]);
    cpu.registers[1] = 0x37;
    cpu.keyboard.set_key(7, true);
    cpu.cycle();
    assert_eq!(cpu.program_counter, 0x202);
}

#[test]
fn timer_opcodes() {
    let mut cpu = machine_with(&[0xF1, 0x15, 0xF2, 0x18, 0xF3, 0x07]);
    cpu.registers[1] = 30;
    cpu.registers[2] = 40;
    cpu.cycle();
    assert_eq!(cpu.delay_timer, 30);
    cpu.cycle();
    assert_eq!(cpu.sound_timer, 40);
    cpu.cycle();
    assert_eq!(cpu.registers[3], 30);
}

#[test]
fn interpreter_steps_do_not_tick_the_timers() {
    let mut cpu = machine_with(&[0x12, 0x00]);
    cpu.delay_timer = 5;
    cpu.sound_timer = 5;
    for _ in 0..100 {
        cpu.cycle();
    }
    assert_eq!(cpu.delay_timer, 5);
    assert_eq!(cpu.sound_timer, 5);
}

#[test]
fn delay_timer_reaches_zero_after_as_many_ticks_as_it_holds() {
    for start in [0u8, 1, 2, 60, 255] {
        let mut cpu = CPU::new();
        cpu.delay_timer = start;
        for left in (0..start).rev() {
            cpu.update_timers();
            assert_eq!(cpu.delay_timer, left);
        }
        assert_eq!(cpu.delay_timer, 0);
        cpu.update_timers();
        assert_eq!(cpu.delay_timer, 0);
    }
}

#[test]
fn beep_sounds_once_when_the_sound_timer_reaches_zero() {
    let mut cpu = CPU::new();
    cpu.sound_timer = 3;
    assert!(!cpu.update_timers());
    assert!(!cpu.update_timers());
    assert!(cpu.update_timers());
    assert_eq!(cpu.sound_timer, 0);
    assert!(!cpu.update_timers());
    assert!(!cpu.update_timers());
}

#[test]
fn font_opcode_points_at_the_glyph_of_the_low_nibble() {
    for value in [0x00u8, 0x07, 0x0F, 0x1A, 0xFF] {
        let mut cpu = machine_with(&[0xF4, 0x29]);
        cpu.registers[4] = value;
        cpu.cycle();
        assert_eq!(cpu.index_register, 0x50 + 5 * (value & 0x0F) as u16);
    }
}

#[test]
fn bcd_opcode_writes_three_decimal_digits() {
    for value in 0..=255u8 {
        let mut cpu = machine_with(&[0xF5, 0x33]);
        cpu.registers[5] = value;
        cpu.index_register = 0x300;
        cpu.cycle();
        let digits = &cpu.memory[0x300..0x303];
        assert!(digits.iter().all(|digit| *digit <= 9));
        assert_eq!(100 * digits[0] as u32 + 10 * digits[1] as u32 + digits[2] as u32, value as u32);
    }
    let mut cpu = machine_with(&[0xF5, 0x33]);
    cpu.registers[5] = 254;
    cpu.index_register = 0x300;
    cpu.cycle();
    assert_eq!(&cpu.memory[0x300..0x303], &[2, 5, 4]);
    assert_eq!(cpu.memory[0x303], 0);
    assert_eq!(cpu.memory[0x2FF], 0);
}

#[test]
fn store_and_load_registers() {
    for x in 0..16u8 {
        let mut cpu = machine_with(&[0xF0 | x, 0x55, 0xF0 | x, 0x65]);
        for k in 0..16 {
            cpu.registers[k] = 0xA0 + k as u8;
        }
        cpu.index_register = 0x400;
        cpu.cycle();
        for k in 0..16usize {
            let expected = if k <= x as usize { 0xA0 + k as u8 } else { 0 };
            assert_eq!(cpu.memory[0x400 + k], expected);
        }
        assert_eq!(cpu.index_register, 0x400);
        cpu.registers = [0x11; 16];
        cpu.cycle();
        for k in 0..16usize {
            let expected = if k <= x as usize { 0xA0 + k as u8 } else { 0x11 };
            assert_eq!(cpu.registers[k], expected);
        }
        assert_eq!(cpu.index_register, 0x400);
    }
}

#[test]
fn wait_for_key_suspends_until_a_key_is_delivered() {
    let mut cpu = machine_with(&[0xF6, 0x0A, 0x61, 0x01]);
    assert_eq!(cpu.cycle(), None);
    assert_eq!(cpu.waiting_for_key, Some(6));
    assert_eq!(cpu.program_counter, 0x202);
    for _ in 0..5 {
        assert_eq!(cpu.cycle(), None);
    }
    assert_eq!(cpu.program_counter, 0x202);
    assert_eq!(cpu.deliver_key(), None);
    assert_eq!(cpu.waiting_for_key, Some(6));
    cpu.keyboard.set_key(0xB, true);
    cpu.keyboard.set_key(0xD, true);
    assert_eq!(cpu.deliver_key(), Some((6, 0xB)));
    assert_eq!(cpu.registers[6], 0xB);
    assert_eq!(cpu.waiting_for_key, None);
    assert_eq!(cpu.deliver_key(), None);
    cpu.cycle();
    assert_eq!(cpu.registers[1], 1);
}

#[test]
fn draw_opcode_sets_the_collision_flag() {
    let mut cpu = machine_with(&[0xA3, 0x00, 0xD0, 0x01, 0xD0, 0x01]);
    cpu.memory[0x300] = 0xFF;
    cpu.registers[0xF] = 9;
    cpu.cycle();
    cpu.cycle();
    assert_eq!(cpu.registers[0xF], 0);
    assert_eq!(lit_count(&cpu), 8);
    cpu.cycle();
    assert_eq!(cpu.registers[0xF], 1);
    assert_eq!(lit_count(&cpu), 0);
}

#[test]
fn draw_opcode_with_no_rows_draws_nothing_and_asks_for_a_redraw() {
    let mut cpu = machine_with(&[0xD0, 0x10]);
    cpu.display.needs_redraw = false;
    cpu.registers[0xF] = 1;
    cpu.cycle();
    assert_eq!(lit_count(&cpu), 0);
    assert_eq!(cpu.registers[0xF], 0);
    assert!(cpu.display.needs_redraw);
}

#[test]
fn addresses_wrap_at_the_end_of_memory() {
    // A sprite that starts at the last byte continues at address zero.
    let mut cpu = machine_with(&[0xD0, 0x02]);
    cpu.index_register = 0xFFF;
    cpu.memory[0xFFF] = 0x80;
    cpu.memory[0x000] = 0x40;
    cpu.cycle();
    assert!(cpu.display.pixels[0][0]);
    assert!(cpu.display.pixels[1][1]);
    assert_eq!(lit_count(&cpu), 2);
    // So does a register dump.
    let mut cpu = machine_with(&[0xF1, 0x55]);
    cpu.index_register = 0xFFF;
    cpu.registers[0] = 0x12;
    cpu.registers[1] = 0x34;
    cpu.cycle();
    assert_eq!(cpu.memory[0xFFF], 0x12);
    assert_eq!(cpu.memory[0x000], 0x34);
    // And the fetch: the program counter keeps all sixteen bits.
    let mut cpu = CPU::new();
    cpu.program_counter = 0x1200;
    cpu.memory[0x200] = 0x6C;
    cpu.memory[0x201] = 0x99;
    assert_eq!(cpu.cycle(), None);
    assert_eq!(cpu.registers[0xC], 0x99);
    assert_eq!(cpu.program_counter, 0x1202);
}

#[test]
fn execute_decodes_without_fetching() {
    let mut cpu = CPU::new();
    assert_eq!(cpu.execute(0x6A0C), None);
    assert_eq!(cpu.registers[0xA], 0x0C);
    assert_eq!(cpu.program_counter, 0x200);
    assert_eq!(cpu.fetch(), 0x0000);
    assert_eq!(cpu.program_counter, 0x202);
}
