use chip8_kit::cpu::CPU;
use chip8_kit::driver::{run_cycles, run_frame};
use chip8_kit::machine::RuntimeNotice;
use minifb::Key;

fn machine_with(rom: &[u8]) -> CPU {
    let mut cpu = CPU::new();
    cpu.load_rom(rom).unwrap();
    cpu
}

#[test]
fn first_frame_presents_the_blank_display() {
    let mut cpu = machine_with(&[0x12, 0x00]);
    let output = run_frame(&mut cpu, &[], 10, true);
    assert_eq!(output.frame, Some(vec![0u32; 64 * 32]));
    assert!(!output.beep);
    assert!(output.notices.is_empty());
    assert!(output.running);
    assert!(!cpu.display.needs_redraw);
    let output = run_frame(&mut cpu, &[], 10, true);
    assert_eq!(output.frame, None);
}

#[test]
fn frame_runs_the_given_number_of_steps() {
    // v0 = v0 + 1; jump back
    let mut cpu = machine_with(&[0x70, 0x01, 0x12, 0x00]);
    run_frame(&mut cpu, &[], 7, false);
    assert_eq!(cpu.registers[0], 4);
    assert_eq!(cpu.program_counter, 0x202);
    run_frame(&mut cpu, &[], 0, false);
    assert_eq!(cpu.registers[0], 4);
    run_frame(&mut cpu, &[], 1, false);
    assert_eq!(cpu.program_counter, 0x200);
}

#[test]
fn frame_presents_what_was_drawn() {
    let mut cpu = machine_with(&[0xA0, 0x50, 0xD0, 0x05, 0x12, 0x04]);
    let output = run_frame(&mut cpu, &[], 3, false);
    let buffer = output.frame.unwrap();
    // The glyph of 0: F0 90 90 90 F0 at (0, 0).
    let rows = [0xF0u8, 0x90, 0x90, 0x90, 0xF0];
    for y in 0..32 {
        for x in 0..64 {
            let on = y < 5 && x < 8 && rows[y] & (0x80 >> x) != 0;
            assert_eq!(buffer[y * 64 + x], if on { 0xFFFFFF } else { 0 });
        }
    }
    assert_eq!(run_frame(&mut cpu, &[], 3, false).frame, None);
}

#[test]
fn frame_ticks_the_timers_once_if_asked() {
    let mut cpu = machine_with(&[0x12, 0x00]);
    cpu.delay_timer = 3;
    cpu.sound_timer = 2;
    assert!(!run_frame(&mut cpu, &[], 100, false).beep);
    assert_eq!((cpu.delay_timer, cpu.sound_timer), (3, 2));
    assert!(!run_frame(&mut cpu, &[], 100, true).beep);
    assert_eq!((cpu.delay_timer, cpu.sound_timer), (2, 1));
    assert!(run_frame(&mut cpu, &[], 100, true).beep);
    assert_eq!((cpu.delay_timer, cpu.sound_timer), (1, 0));
    assert!(!run_frame(&mut cpu, &[], 100, true).beep);
    assert_eq!((cpu.delay_timer, cpu.sound_timer), (0, 0));
}

#[test]
fn sound_timer_set_in_a_frame_ticks_in_the_same_frame() {
    // v0 = 1; sound timer = v0; loop
    let mut cpu = machine_with(&[0x60, 0x01, 0xF0, 0x18, 0x12, 0x04]);
    assert!(run_frame(&mut cpu, &[], 3, true).beep);
    assert_eq!(cpu.sound_timer, 0);
}

#[test]
fn frame_sees_the_keys_of_the_host() {
    // skip if key v0 is down; v1 = 1; v2 = 2; loop
    let rom = [0xE0, 0x9E, 0x61, 0x01, 0x62, 0x02, 0x12, 0x06];
    let mut cpu = machine_with(&rom);
    cpu.registers[0] = 0x4;
    run_frame(&mut cpu, &[Key::W], 3, false);
    assert_eq!((cpu.registers[1], cpu.registers[2]), (1, 2));
    let mut cpu = machine_with(&rom);
    cpu.registers[0] = 0x4;
    run_frame(&mut cpu, &[Key::W, Key::Q], 3, false);
    assert_eq!((cpu.registers[1], cpu.registers[2]), (0, 2));
    assert!(cpu.keyboard.is_key_pressed(0x4));
    assert!(cpu.keyboard.is_key_pressed(0x5));
    run_frame(&mut cpu, &[], 0, false);
    assert!(!cpu.keyboard.is_key_pressed(0x4));
}

#[test]
fn waiting_machine_resumes_in_the_frame_after_the_key() {
    // wait for a key into v3; v1 = 9; loop
    let mut cpu = machine_with(&[0xF3, 0x0A, 0x61, 0x09, 0x12, 0x04]);
    run_frame(&mut cpu, &[], 5, false);
    assert_eq!(cpu.waiting_for_key, Some(3));
    assert_eq!(cpu.program_counter, 0x202);
    run_frame(&mut cpu, &[], 5, false);
    assert_eq!(cpu.waiting_for_key, Some(3));
    run_frame(&mut cpu, &[Key::V, Key::C], 5, false);
    assert_eq!(cpu.waiting_for_key, None);
    assert_eq!(cpu.registers[3], 0xB);
    assert_eq!(cpu.registers[1], 0);
    assert_eq!(cpu.program_counter, 0x202);
    run_frame(&mut cpu, &[], 5, false);
    assert_eq!(cpu.registers[1], 9);
}

#[test]
fn key_that_is_already_down_is_delivered_in_the_frame_of_the_wait() {
    let mut cpu = machine_with(&[0xF3, 0x0A, 0x61, 0x09, 0x12, 0x04]);
    run_frame(&mut cpu, &[Key::X], 5, false);
    assert_eq!(cpu.waiting_for_key, None);
    assert_eq!(cpu.registers[3], 0x0);
    assert_eq!(cpu.registers[1], 0);
}

#[test]
fn frame_reports_halt_and_notices() {
    let mut cpu = machine_with(&[0x00, 0xEE, 0xFF, 0xFF, 0x00, 0xFD, 0x60, 0x01]);
    let output = run_frame(&mut cpu, &[], 10, true);
    assert_eq!(
        output.notices,
        vec![RuntimeNotice::StackUnderflow, RuntimeNotice::UnknownOpcode { opcode: 0xFFFF }]
    );
    assert!(!output.running);
    assert_eq!(cpu.program_counter, 0x206);
    assert_eq!(cpu.registers[0], 0);
}

#[test]
fn run_cycles_collects_notices_in_order() {
    let mut cpu = machine_with(&[0x50, 0x01, 0x60, 0x01, 0x90, 0x0F, 0x12, 0x00]);
    let notices = run_cycles(&mut cpu, 8);
    assert_eq!(
        notices,
        vec![
            RuntimeNotice::UnknownOpcode { opcode: 0x5001 },
            RuntimeNotice::UnknownOpcode { opcode: 0x900F },
            RuntimeNotice::UnknownOpcode { opcode: 0x5001 },
            RuntimeNotice::UnknownOpcode { opcode: 0x900F },
        ]
    );
    assert_eq!(cpu.program_counter, 0x200);
}
