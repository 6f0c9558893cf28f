use chip8_kit::backends::BackendType;
use chip8_kit::output::{default_output_path, opcodes};

#[test]
fn default_output_replaces_the_source_extension() {
    assert_eq!(default_output_path("game.py", "chip8"), "game.ch8");
    assert_eq!(default_output_path("dir/game.py", "chip8"), "dir/game.ch8");
    assert_eq!(default_output_path("game", "chip8"), "game.ch8");
    assert_eq!(default_output_path("game.txt", "chip8"), "game.txt.ch8");
    assert_eq!(default_output_path("game.PY", "chip8"), "game.PY.ch8");
    assert_eq!(default_output_path("", "chip8"), ".ch8");
    assert_eq!(default_output_path(".py", "chip8"), ".ch8");
    assert_eq!(default_output_path("py", "chip8"), "py.ch8");
}

#[test]
fn default_output_drops_a_repeated_source_extension() {
    assert_eq!(default_output_path("game.py.py", "chip8"), "game.ch8");
    assert_eq!(default_output_path("game.py.py.py", "chip8"), "game.ch8");
    assert_eq!(default_output_path("game.py.x.py", "chip8"), "game.py.x.ch8");
}

#[test]
fn default_output_for_other_targets_is_a_bin_file() {
    assert_eq!(default_output_path("game.py", "z80"), "game.bin");
    assert_eq!(default_output_path("game.py", ""), "game.bin");
    assert_eq!(default_output_path("game.py", "CHIP8"), "game.bin");
}

#[test]
fn default_output_of_a_path_that_is_not_ascii() {
    assert_eq!(default_output_path("caf\u{E9}.py", "chip8"), "caf\u{E9}.ch8");
}

#[test]
fn opcodes_are_pairs_of_bytes_high_byte_first() {
    assert_eq!(opcodes(&[]), Vec::<u16>::new());
    assert_eq!(opcodes(&[0x12]), Vec::<u16>::new());
    assert_eq!(opcodes(&[0x12, 0x34]), vec![0x1234]);
    assert_eq!(opcodes(&[0x60, 0x0A, 0x00, 0xFD, 0xFF]), vec![0x600A, 0x00FD]);
    assert_eq!(opcodes(&[0xFF, 0xFF, 0x00, 0x00]), vec![0xFFFF, 0x0000]);
}

#[test]
fn targets_are_found_by_their_name() {
    assert_eq!(BackendType::from_name("chip8"), Some(BackendType::Chip8));
    assert_eq!(BackendType::from_name("Chip8"), None);
    assert_eq!(BackendType::from_name("chip"), None);
    assert_eq!(BackendType::from_name("chip80"), None);
    assert_eq!(BackendType::from_name(""), None);
    for target in BackendType::all() {
        assert_eq!(BackendType::from_name(target.name()), Some(target));
    }
}
