use chip8_kit::backends::chip8::Chip8Backend;
use chip8_kit::backends::{AnyBackend, Backend, BackendType};
use chip8_kit::cpu::CPU;
use chip8_kit::error::CompileError;
use chip8_kit::ir::ast::{BinaryOperator, Condition, Expression, Program, Statement};
use chip8_kit::machine::RuntimeNotice;
use chip8_kit::parser::parse;
use chip8_kit::span::Span;

fn compile(source: &str) -> Vec<u8> {
    let program = parse(source).unwrap();
    Chip8Backend::new().compile_program(&program).unwrap()
}

fn failure_of(source: &str) -> CompileError {
    let program = parse(source).unwrap();
    Chip8Backend::new().compile_program(&program).unwrap_err()
}

fn backend_error(source: &str) -> String {
    match failure_of(source) {
        CompileError::BackendError { message } => message,
        other => panic!("{:?}", other),
    }
}

fn unknown_register(source: &str) -> String {
    match failure_of(source) {
        CompileError::UnknownRegister { name } => name,
        other => panic!("{:?}", other),
    }
}

fn compile_statements(statements: Vec<Statement>) -> Result<Vec<u8>, CompileError> {
    Chip8Backend::new().compile_program(&Program { statements })
}

fn label(name: &str) -> Statement {
    Statement::Label { name: name.to_string() }
}

fn jump(name: &str) -> Statement {
    Statement::Jump { label: name.to_string() }
}

#[test]
fn empty_program_is_just_the_halt() {
    assert_eq!(compile(""), vec![0x00, 0xFD]);
}

#[test]
fn assignments() {
    assert_eq!(compile("v0 = 10"), vec![0x60, 0x0A, 0x00, 0xFD]);
    assert_eq!(compile("vA = 255"), vec![0x6A, 0xFF, 0x00, 0xFD]);
    assert_eq!(compile("vf = 0"), vec![0x6F, 0x00, 0x00, 0xFD]);
    assert_eq!(compile("v1 = v2"), vec![0x81, 0x20, 0x00, 0xFD]);
    assert_eq!(compile("vE = vb"), vec![0x8E, 0xB0, 0x00, 0xFD]);
}

#[test]
fn additions() {
    assert_eq!(compile("v3 = v4 + 5"), vec![0x83, 0x40, 0x73, 0x05, 0x00, 0xFD]);
    assert_eq!(compile("v3 = 5 + v4"), vec![0x63, 0x05, 0x83, 0x44, 0x00, 0xFD]);
    assert_eq!(compile("v3 = v4 + v5"), vec![0x83, 0x40, 0x83, 0x54, 0x00, 0xFD]);
    assert_eq!(compile("v0 = v0 + 1"), vec![0x80, 0x00, 0x70, 0x01, 0x00, 0xFD]);
}

#[test]
fn unsupported_expressions() {
    assert_eq!(backend_error("v0 = 1 + 2"), "Complex expressions not supported yet");
    assert_eq!(backend_error("v0 = v1 + v2 + v3"), "Complex expressions not supported yet");
    assert_eq!(backend_error("v0 = v1 - 1"), "Operator Subtract not implemented");
}

#[test]
fn operators_that_the_parser_does_not_produce_are_rejected_too() {
    for (op, name) in [
        (BinaryOperator::Multiply, "Multiply"),
        (BinaryOperator::Or, "Or"),
        (BinaryOperator::And, "And"),
        (BinaryOperator::Xor, "Xor"),
    ] {
        let statement = Statement::Assign {
            target: "v0".to_string(),
            value: Expression::BinaryOp {
                left: Box::new(Expression::Variable("v1".to_string(), Span::default())),
                op,
                right: Box::new(Expression::Number(1, Span::default())),
                span: Span::default(),
            },
            span: Span::default(),
        };
        match compile_statements(vec![statement]) {
            Err(CompileError::BackendError { message }) => {
                assert_eq!(message, format!("Operator {} not implemented", name));
            }
            other => panic!("{:?}", other),
        }
    }
}

#[test]
fn register_names() {
    for (digit, name) in "0123456789abcdef".chars().enumerate() {
        let lower = compile(&format!("v{} = 1", name));
        assert_eq!(lower, vec![0x60 | digit as u8, 0x01, 0x00, 0xFD]);
        let upper = compile(&format!("v{} = 1", name.to_ascii_uppercase()));
        assert_eq!(upper, lower);
    }
    for name in ["x", "v", "vg", "v10", "V0", "w0", "v_", "vv"] {
        assert_eq!(unknown_register(&format!("{} = 1", name)), name);
    }
    assert_eq!(unknown_register("v0 = x1"), "x1");
    assert_eq!(unknown_register("v0 = vg + 1"), "vg");
    assert_eq!(unknown_register("v0 = 1 + vg"), "vg");
    assert_eq!(unknown_register("v0 = v1 + vg"), "vg");
    assert_eq!(unknown_register("vg = vh + vi"), "vg");
    assert_eq!(unknown_register("v0 = vh + vi"), "vh");
}

#[test]
fn immediates_wider_than_a_byte_spill_into_the_opcode() {
    assert_eq!(compile("v0 = 0x1234"), vec![0x72, 0x34, 0x00, 0xFD]);
    assert_eq!(compile("v1 = 256"), vec![0x61, 0x00, 0x00, 0xFD]);
}

#[test]
fn clear_screen() {
    assert_eq!(compile("clear()"), vec![0x00, 0xE0, 0x00, 0xFD]);
}

#[test]
fn print_draws_the_glyph_of_a_hex_digit() {
    assert_eq!(compile("print(v1, v2, 'A')"), vec![0xA0, 0x82, 0xD1, 0x25, 0x00, 0xFD]);
    assert_eq!(compile("print(v1, v2, 'a')"), vec![0xA0, 0x82, 0xD1, 0x25, 0x00, 0xFD]);
    let addresses = [
        ('0', 0x50u8),
        ('1', 0x55),
        ('2', 0x5A),
        ('3', 0x5F),
        ('4', 0x64),
        ('5', 0x69),
        ('6', 0x6E),
        ('7', 0x73),
        ('8', 0x78),
        ('9', 0x7D),
        ('A', 0x82),
        ('B', 0x87),
        ('C', 0x8C),
        ('D', 0x91),
        ('E', 0x96),
        ('F', 0x9B),
        ('b', 0x87),
        ('f', 0x9B),
    ];
    for (character, address) in addresses {
        assert_eq!(
            compile(&format!("print(vC, vD, '{}')", character)),
            vec![0xA0, address, 0xDC, 0xD5, 0x00, 0xFD]
        );
    }
}

#[test]
fn print_rejects_other_characters_and_operands() {
    assert_eq!(backend_error("print(v1, v2, 'G')"), "Unsupported character: 'G'");
    assert_eq!(backend_error("print(v1, v2, ' ')"), "Unsupported character: ' '");
    assert_eq!(backend_error("print(1, v2, 'A')"), "Draw x must be a register");
    assert_eq!(backend_error("print(v1, 2, 'A')"), "Draw y must be a register");
    assert_eq!(backend_error("print(v1 + 1, v2, 'A')"), "Draw x must be a register");
    assert_eq!(unknown_register("print(x, v2, 'A')"), "x");
    assert_eq!(unknown_register("print(v1, y, 'A')"), "y");
    // The character is looked at first, then x, then y.
    assert_eq!(backend_error("print(1, 2, 'G')"), "Unsupported character: 'G'");
    assert_eq!(backend_error("print(1, y, 'A')"), "Draw x must be a register");
}

#[test]
fn endless_loop() {
    assert_eq!(compile("while True:\n  clear()\n"), vec![0x00, 0xE0, 0x12, 0x00, 0x00, 0xFD]);
    assert_eq!(
        compile("v0 = 1\nwhile True:\n  v0 = v0 + 1\n"),
        vec![0x60, 0x01, 0x80, 0x00, 0x70, 0x01, 0x12, 0x02, 0x00, 0xFD]
    );
}

#[test]
fn loop_on_equality_with_a_number() {
    assert_eq!(
        compile("while v0 == 5:\n  clear()\n"),
        vec![
            0x40, 0x05, // 0x200: skip the next instruction if v0 != 5
            0x12, 0x0C, // 0x202: the jump of the test, to the address behind the program
            0x12, 0x0A, // 0x204: the jump out of the loop
            0x00, 0xE0, // 0x206: the body
            0x12, 0x00, // 0x208: back to the test
            0x00, 0xFD, // 0x20A: halt
        ]
    );
    assert_eq!(
        compile("while v0 != 5:\n  clear()\n"),
        vec![0x30, 0x05, 0x12, 0x0C, 0x12, 0x0A, 0x00, 0xE0, 0x12, 0x00, 0x00, 0xFD]
    );
}

#[test]
fn loop_on_equality_of_two_registers() {
    assert_eq!(
        compile("while v1 == v2:\n  clear()\n"),
        vec![0x91, 0x20, 0x12, 0x0C, 0x12, 0x0A, 0x00, 0xE0, 0x12, 0x00, 0x00, 0xFD]
    );
    assert_eq!(
        compile("while v1 != v2:\n  clear()\n"),
        vec![0x51, 0x20, 0x12, 0x0C, 0x12, 0x0A, 0x00, 0xE0, 0x12, 0x00, 0x00, 0xFD]
    );
}

#[test]
fn loop_on_greater_than() {
    assert_eq!(
        compile("while v3 > 5:\n  clear()\n"),
        vec![
            0x6E, 0x05, // 0x200: VE = 5
            0x83, 0xE5, // 0x202: v3 = v3 - VE, VF = no borrow
            0x3F, 0x01, // 0x204: skip the next instruction if VF == 1
            0x12, 0x10, // 0x206: the jump of the test
            0x12, 0x0E, // 0x208: the jump out of the loop
            0x00, 0xE0, // 0x20A: the body
            0x12, 0x00, // 0x20C: back to the test
            0x00, 0xFD, // 0x20E: halt
        ]
    );
}

#[test]
fn unsupported_conditions() {
    assert_eq!(backend_error("while v0 < 5:\n  clear()\n"), "Less-than comparisons not supported yet");
    assert_eq!(
        backend_error("while 5 == v0:\n  clear()\n"),
        "Complex equality comparisons not supported yet"
    );
    assert_eq!(
        backend_error("while v0 + 1 == 5:\n  clear()\n"),
        "Complex equality comparisons not supported yet"
    );
    assert_eq!(
        backend_error("while v0 > v1:\n  clear()\n"),
        "Complex greater comparisons not supported yet"
    );
    assert_eq!(unknown_register("while x == 5:\n  clear()\n"), "x");
    assert_eq!(unknown_register("while v0 == y:\n  clear()\n"), "y");
    assert_eq!(unknown_register("while x > 5:\n  clear()\n"), "x");
}

#[test]
fn key_condition_is_rejected() {
    let statement = Statement::While {
        condition: Condition::KeyPressed(Expression::Number(1, Span::default())),
        body: Vec::new(),
        span: Span::default(),
    };
    match compile_statements(vec![statement]) {
        Err(CompileError::BackendError { message }) => {
            assert_eq!(message, "Key conditions not supported yet");
        }
        other => panic!("{:?}", other),
    }
}

#[test]
fn counting_loop_with_number_bounds() {
    assert_eq!(
        compile("for v1 in range(0, 3):\n  clear()\n"),
        vec![
            0x61, 0x00, // 0x200: v1 = 0
            0x6E, 0x03, // 0x202: VE = 3
            0x81, 0xE5, // 0x204: v1 = v1 - VE, VF = no borrow
            0x3F, 0x01, // 0x206: skip the next instruction if VF == 1
            0x12, 0x10, // 0x208: the jump out of the loop
            0x00, 0xE0, // 0x20A: the body
            0x71, 0x01, // 0x20C: v1 = v1 + 1
            0x12, 0x02, // 0x20E: back to the load of the bound
            0x00, 0xFD, // 0x210: halt
        ]
    );
    assert_eq!(compile("for v1 in range(3):\n  clear()\n"), compile("for v1 in range(0, 3):\n  clear()\n"));
}

#[test]
fn counting_loop_with_register_bounds() {
    assert_eq!(
        compile("for vA in range(v2, v3):\n  clear()\n"),
        vec![
            0x8A, 0x20, 0x8E, 0x30, 0x8A, 0xE5, 0x3F, 0x01, 0x12, 0x10, 0x00, 0xE0, 0x7A, 0x01, 0x12,
            0x02, 0x00, 0xFD,
        ]
    );
    assert_eq!(
        compile("for v0 in range(v1 + 2, 9):\n  clear()\n"),
        vec![
            0x80, 0x10, 0x70, 0x02, 0x6E, 0x09, 0x80, 0xE5, 0x3F, 0x01, 0x12, 0x12, 0x00, 0xE0, 0x70,
            0x01, 0x12, 0x04, 0x00, 0xFD,
        ]
    );
}

#[test]
fn counting_loop_errors() {
    assert_eq!(unknown_register("for i in range(3):\n  clear()\n"), "i");
    assert_eq!(unknown_register("for v0 in range(x, 3):\n  clear()\n"), "x");
    assert_eq!(unknown_register("for v0 in range(0, y):\n  clear()\n"), "y");
    assert_eq!(
        backend_error("for v0 in range(0, v1 + 1):\n  clear()\n"),
        "Complex end expressions in for loops not supported yet"
    );
    assert_eq!(backend_error("for v0 in range(1 + 2, 3):\n  clear()\n"), "Complex expressions not supported yet");
    // The counter is looked at before the bounds.
    assert_eq!(unknown_register("for i in range(x, y):\n  clear()\n"), "i");
}

#[test]
fn nested_loops_patch_their_own_exits() {
    assert_eq!(
        compile("for v1 in range(2): for v2 in range(3): clear()\n"),
        vec![
            0x61, 0x00, // 0x200
            0x6E, 0x02, // 0x202
            0x81, 0xE5, // 0x204
            0x3F, 0x01, // 0x206
            0x12, 0x1E, // 0x208: out of the outer loop
            0x62, 0x00, // 0x20A
            0x6E, 0x03, // 0x20C
            0x82, 0xE5, // 0x20E
            0x3F, 0x01, // 0x210
            0x12, 0x1A, // 0x212: out of the inner loop
            0x00, 0xE0, // 0x214
            0x72, 0x01, // 0x216
            0x12, 0x0C, // 0x218
            0x71, 0x01, // 0x21A
            0x12, 0x02, // 0x21C
            0x00, 0xFD, // 0x21E
        ]
    );
}

#[test]
fn every_test_jump_goes_behind_the_program() {
    let code = compile("while v0 == 1:\n  v0 = 2\nwhile v1 != 3:\n  v1 = 4\n");
    assert_eq!(
        code,
        vec![
            0x40, 0x01, // 0x200
            0x12, 0x16, // 0x202: first test, to 0x216
            0x12, 0x0A, // 0x204
            0x60, 0x02, // 0x206
            0x12, 0x00, // 0x208
            0x31, 0x03, // 0x20A
            0x12, 0x16, // 0x20C: second test, to 0x216
            0x12, 0x14, // 0x20E
            0x61, 0x04, // 0x210
            0x12, 0x0A, // 0x212
            0x00, 0xFD, // 0x214
        ]
    );
}

#[test]
fn labels_and_jumps() {
    // Backward: the label has been seen.
    assert_eq!(
        compile_statements(vec![label("top"), Statement::ClearScreen, jump("top")]).unwrap(),
        vec![0x00, 0xE0, 0x12, 0x00, 0x00, 0xFD]
    );
    // Forward: the placeholder is patched when the label is set.
    assert_eq!(
        compile_statements(vec![jump("end"), Statement::ClearScreen, label("end"), Statement::ClearScreen])
            .unwrap(),
        vec![0x12, 0x04, 0x00, 0xE0, 0x00, 0xE0, 0x00, 0xFD]
    );
    // Never set: the jump goes behind the program.
    assert_eq!(compile_statements(vec![jump("nowhere")]).unwrap(), vec![0x12, 0x04, 0x00, 0xFD]);
}

#[test]
fn of_two_labels_of_one_name_the_nearest_before_or_the_first_behind_counts() {
    assert_eq!(
        compile_statements(vec![
            label("a"),
            Statement::ClearScreen,
            label("a"),
            Statement::ClearScreen,
            jump("a"),
        ])
        .unwrap(),
        vec![0x00, 0xE0, 0x00, 0xE0, 0x12, 0x02, 0x00, 0xFD]
    );
    assert_eq!(
        compile_statements(vec![
            jump("a"),
            label("a"),
            Statement::ClearScreen,
            label("a"),
            Statement::ClearScreen,
        ])
        .unwrap(),
        vec![0x12, 0x02, 0x00, 0xE0, 0x00, 0xE0, 0x00, 0xFD]
    );
}

#[test]
fn several_jumps_wait_for_one_label() {
    assert_eq!(
        compile_statements(vec![jump("x"), jump("y"), jump("x"), label("x"), label("y")]).unwrap(),
        vec![0x12, 0x06, 0x12, 0x06, 0x12, 0x06, 0x00, 0xFD]
    );
    assert_eq!(
        compile_statements(vec![
            jump("x"),
            jump("y"),
            label("x"),
            Statement::ClearScreen,
            label("y"),
        ])
        .unwrap(),
        vec![0x12, 0x04, 0x12, 0x06, 0x00, 0xE0, 0x00, 0xFD]
    );
}

#[test]
fn pass_emits_nothing() {
    assert_eq!(compile_statements(vec![Statement::Pass, Statement::Pass]).unwrap(), vec![0x00, 0xFD]);
}

#[test]
fn delay_is_not_implemented() {
    let statement = Statement::Delay { frames: Expression::Number(5, Span::default()) };
    match compile_statements(vec![Statement::ClearScreen, statement]) {
        Err(CompileError::BackendError { message }) => {
            assert_eq!(
                message,
                "Not implemented: Delay { frames: Number(5, Span { line: 1, column: 1, start: 0, end: 0 }) }"
            );
        }
        other => panic!("{:?}", other),
    }
}

#[test]
fn the_first_error_stops_the_compilation() {
    assert_eq!(unknown_register("x = 1\nv0 = 1 + 2\n"), "x");
    assert_eq!(backend_error("v0 = 1 + 2\nx = 1\n"), "Complex expressions not supported yet");
    assert_eq!(unknown_register("while True:\n  clear()\n  x = 1\n"), "x");
}

#[test]
fn a_backend_keeps_what_it_has_emitted() {
    let mut backend = Chip8Backend::new();
    let first = backend.compile_program(&parse("v0 = 1").unwrap()).unwrap();
    assert_eq!(first, vec![0x60, 0x01, 0x00, 0xFD]);
    let second = backend.compile_program(&parse("v1 = 2").unwrap()).unwrap();
    assert_eq!(second, vec![0x60, 0x01, 0x00, 0xFD, 0x61, 0x02, 0x00, 0xFD]);
    assert!(backend.skipped_patches().is_empty());
}

#[test]
fn a_failed_compilation_leaves_what_was_emitted_before_the_error() {
    let mut backend = Chip8Backend::new();
    assert!(backend.compile_program(&parse("v0 = 1\nprint(1, v2, 'A')").unwrap()).is_err());
    let code = backend.compile_program(&parse("").unwrap()).unwrap();
    assert_eq!(code, vec![0x60, 0x01, 0xA0, 0x82, 0x00, 0xFD]);
}

#[test]
fn test_jumps_stay_pending_across_compilations() {
    let mut backend = Chip8Backend::new();
    let first = backend.compile_program(&parse("while v0 == 1:\n  clear()\n").unwrap()).unwrap();
    assert_eq!(first, vec![0x40, 0x01, 0x12, 0x0C, 0x12, 0x0A, 0x00, 0xE0, 0x12, 0x00, 0x00, 0xFD]);
    let second = backend.compile_program(&parse("").unwrap()).unwrap();
    assert_eq!(
        second,
        vec![0x40, 0x01, 0x12, 0x0E, 0x12, 0x0A, 0x00, 0xE0, 0x12, 0x00, 0x00, 0xFD, 0x00, 0xFD]
    );
}

#[test]
fn targets() {
    let all = BackendType::all();
    assert_eq!(all, vec![BackendType::Chip8]);
    assert_eq!(all[0].name(), "chip8");
    assert_eq!(all[0].description(), "CHIP-8 virtual machine");
}

#[test]
fn created_backend_compiles_like_a_fresh_chip8_backend() {
    let program = parse("v0 = 7\nclear()\n").unwrap();
    let mut backend: AnyBackend = BackendType::Chip8.create();
    assert_eq!(backend.compile(&program).unwrap(), vec![0x60, 0x07, 0x00, 0xE0, 0x00, 0xFD]);
    let mut direct = Chip8Backend::new();
    assert_eq!(direct.compile(&program).unwrap(), vec![0x60, 0x07, 0x00, 0xE0, 0x00, 0xFD]);
    let mut boxed: Box<dyn Backend> = Box::new(Chip8Backend::new());
    assert_eq!(boxed.compile(&program).unwrap(), vec![0x60, 0x07, 0x00, 0xE0, 0x00, 0xFD]);
}

fn run(rom: &[u8], limit: usize) -> (CPU, Vec<RuntimeNotice>, usize) {
    let mut cpu = CPU::new();
    cpu.load_rom(rom).unwrap();
    let mut notices = Vec::new();
    let mut steps = 0;
    while cpu.running && steps < limit {
        if let Some(notice) = cpu.cycle() {
            notices.push(notice);
        }
        steps += 1;
    }
    (cpu, notices, steps)
}

#[test]
fn straight_line_program_runs_to_the_halt() {
    let rom = compile("v0 = 3\nv1 = v0 + 4\nv2 = v0 + v1\nv3 = 250 + v2\nprint(v0, v1, 'F')\n");
    let (cpu, notices, steps) = run(&rom, 100);
    assert!(!cpu.running);
    assert_eq!(steps, 10);
    assert!(notices.is_empty());
    assert_eq!(&cpu.registers[0..4], &[3, 7, 10, 4]);
    assert_eq!(cpu.registers[0xF], 0);
    assert_eq!(cpu.index_register, 0x9B);
    // The glyph of F: F0 80 F0 80 80 at (3, 7).
    let rows = [0xF0u8, 0x80, 0xF0, 0x80, 0x80];
    for (row, bits) in rows.iter().enumerate() {
        for bit in 0..8 {
            assert_eq!(cpu.display.pixels[7 + row][3 + bit], bits & (0x80 >> bit) != 0);
        }
    }
}

#[test]
fn while_loop_as_it_is_lowered_leaves_through_its_test() {
    let rom = compile("v0 = 0\nwhile v0 != 5:\n    v0 = v0 + 1\n");
    assert_eq!(
        rom,
        vec![
            0x60, 0x00, // 0x200: v0 = 0
            0x30, 0x05, // 0x202: skip the next instruction if v0 == 5
            0x12, 0x10, // 0x204: the jump of the test, to the address behind the program
            0x12, 0x0E, // 0x206: the jump out of the loop
            0x80, 0x00, // 0x208: v0 = v0
            0x70, 0x01, // 0x20A: v0 = v0 + 1
            0x12, 0x02, // 0x20C: back to the test
            0x00, 0xFD, // 0x20E: halt
        ]
    );
    let mut cpu = CPU::new();
    cpu.load_rom(&rom).unwrap();
    cpu.cycle();
    cpu.cycle();
    assert_eq!(cpu.program_counter, 0x204);
    cpu.cycle();
    // The condition holds, the skip does not fire, and the jump of the test
    // leaves the program: the body is never reached.
    assert_eq!(cpu.program_counter, 0x210);
    assert_eq!(cpu.registers[0], 0);
    assert!(cpu.running);
    assert_eq!(cpu.cycle(), Some(RuntimeNotice::UnknownOpcode { opcode: 0 }));
}

#[test]
fn while_loop_whose_condition_fails_skips_to_the_halt() {
    let rom = compile("v0 = 5\nwhile v0 != 5:\n    v0 = v0 + 1\n");
    let (cpu, notices, steps) = run(&rom, 100);
    assert!(!cpu.running);
    assert_eq!(steps, 4);
    assert!(notices.is_empty());
    assert_eq!(cpu.registers[0], 5);
    assert_eq!(cpu.program_counter, 0x210);
}

#[test]
fn counting_loop_as_it_is_lowered_overwrites_its_counter() {
    let rom = compile("for v1 in range(0, 3):\n    clear()\n");
    let (cpu, notices, steps) = run(&rom, 100);
    assert!(!cpu.running);
    assert!(notices.is_empty());
    // v1 = 0; VE = 3; v1 = v1 - VE borrows, so VF = 0 and the jump out of
    // the loop is taken at once.
    assert_eq!(steps, 6);
    assert_eq!(cpu.registers[1], 253);
    assert_eq!(cpu.registers[0xE], 3);
    assert_eq!(cpu.registers[0xF], 0);
    assert_eq!(cpu.program_counter, 0x212);
}

#[test]
fn counting_loop_from_its_bound_runs_its_body_once() {
    let rom = compile("for v1 in range(3, 3):\n    v2 = v2 + 1\n");
    let (cpu, notices, steps) = run(&rom, 100);
    assert!(!cpu.running);
    assert!(notices.is_empty());
    // v1 - VE does not borrow, so the jump out of the loop is skipped and
    // the body runs; the counter, now zero, is counted up to one, and the
    // next subtraction borrows.
    assert_eq!(steps, 13);
    assert_eq!(cpu.registers[2], 1);
    assert_eq!(cpu.registers[1], 254);
}

#[test]
fn jump_targets_keep_their_low_twelve_bits() {
    let mut statements: Vec<Statement> = Vec::new();
    for _ in 0..1792 {
        statements.push(Statement::ClearScreen);
    }
    statements.push(label("far"));
    statements.push(jump("far"));
    statements.push(Statement::ClearScreen);
    statements.push(label("farther"));
    statements.push(jump("farther"));
    let code = compile_statements(statements).unwrap();
    assert_eq!(code.len(), 2 * 1796);
    // The first label stands at 0x1000, the second at 0x1004.
    assert_eq!(&code[2 * 1792..], &[0x10, 0x00, 0x00, 0xE0, 0x10, 0x04, 0x00, 0xFD]);
}

#[test]
fn patch_outside_the_code_is_skipped_and_noted() {
    // 32512 opcodes fill the address space from 0x200 up; the address of the
    // next one wraps to zero, which lies outside the code.
    let mut statements: Vec<Statement> = Vec::new();
    for _ in 0..32512 {
        statements.push(Statement::ClearScreen);
    }
    statements.push(jump("nowhere"));
    let mut backend = Chip8Backend::new();
    let code = backend.compile_program(&Program { statements }).unwrap();
    assert_eq!(code.len(), 2 * 32514);
    assert_eq!(&code[2 * 32512..], &[0x10, 0x00, 0x00, 0xFD]);
    assert_eq!(backend.skipped_patches(), &vec![0u16]);
}

#[test]
fn programs_that_fit_skip_no_patch() {
    let mut backend = Chip8Backend::new();
    let source = "while v0 == 1:\n  for v1 in range(3):\n    clear()\n";
    backend.compile_program(&parse(source).unwrap()).unwrap();
    assert!(backend.skipped_patches().is_empty());
}
