//! What the opcodes that the CHIP-8 backend emits do on the machine: the
//! point where the compiler and the interpreter meet.

use vstd::prelude::*;
use crate::backends::emitter::{
    clear_op, halt_op, jump_op, lemma_op_xkk_layout, lemma_op_xy_layout, op_xkk, op_xy, register,
    Emitter,
};
use crate::ir::ast::{ExpressionView, StatementView};
use crate::machine::{op_group, op_kk, op_n, op_nnn, op_x, op_y, Machine};
use crate::span::Span;

verus! {

/// The fields of an opcode that is put together from a group, a register
/// and a byte.
#[verifier::rlimit(30)]
pub proof fn lemma_opcode_fields(opcode: u16, group: int, x: int, kk: int)
    requires
        0 <= group < 16,
        0 <= x < 16,
        0 <= kk < 256,
        opcode == 0x1000 * group + 0x100 * x + kk,
    ensures
        op_group(opcode) == group,
        op_x(opcode) == x,
        op_y(opcode) == kk / 16,
        op_n(opcode) == kk % 16,
        op_kk(opcode) == kk,
        op_nnn(opcode) == 0x100 * x + kk,
{
}

/// `6xnn` as the backend emits it loads the byte into the register.
#[verifier::rlimit(30)]
pub proof fn lemma_emitted_load_decodes(m: Machine, x: u8, n: u16)
    requires
        x < 16,
        n < 256,
    ensures
        m.execute(op_xkk(0x6000, x, n)) == m.op_6xkk(x as int, n as u8),
{
    let op = op_xkk(0x6000, x, n);
    lemma_op_xkk_layout(0x6000, x, n);
    lemma_opcode_fields(op, 6, x as int, n as int);
    assert(m.decode(op) == Some(m.op_6xkk(x as int, n as u8)));
}

/// `7xnn` as the backend emits it adds the byte to the register.
#[verifier::rlimit(30)]
pub proof fn lemma_emitted_add_decodes(m: Machine, x: u8, n: u16)
    requires
        x < 16,
        n < 256,
    ensures
        m.execute(op_xkk(0x7000, x, n)) == m.op_7xkk(x as int, n as u8),
{
    let op = op_xkk(0x7000, x, n);
    lemma_op_xkk_layout(0x7000, x, n);
    lemma_opcode_fields(op, 7, x as int, n as int);
    assert(m.decode(op) == Some(m.op_7xkk(x as int, n as u8)));
}

/// `3xnn` and `4xnn` as the backend emits them skip on the comparison of
/// the register with the byte.
#[verifier::rlimit(30)]
pub proof fn lemma_emitted_byte_skips_decode(m: Machine, x: u8, n: u16)
    requires
        x < 16,
        n < 256,
    ensures
        m.execute(op_xkk(0x3000, x, n)) == m.op_3xkk(x as int, n as u8),
        m.execute(op_xkk(0x4000, x, n)) == m.op_4xkk(x as int, n as u8),
{
    let equal = op_xkk(0x3000, x, n);
    let differ = op_xkk(0x4000, x, n);
    lemma_op_xkk_layout(0x3000, x, n);
    lemma_op_xkk_layout(0x4000, x, n);
    lemma_opcode_fields(equal, 3, x as int, n as int);
    lemma_opcode_fields(differ, 4, x as int, n as int);
    assert(m.decode(equal) == Some(m.op_3xkk(x as int, n as u8)));
    assert(m.decode(differ) == Some(m.op_4xkk(x as int, n as u8)));
}

/// `8xy0`, `8xy4` and `8xy5` as the backend emits them copy, add with
/// carry and subtract with borrow.
#[verifier::rlimit(30)]
pub proof fn lemma_emitted_arithmetic_decodes(m: Machine, x: u8, y: u8)
    requires
        x < 16,
        y < 16,
    ensures
        m.execute(op_xy(0x8000, x, y)) == m.op_8xy0(x as int, y as int),
        m.execute(op_xy(0x8004, x, y)) == m.op_8xy4(x as int, y as int),
        m.execute(op_xy(0x8005, x, y)) == m.op_8xy5(x as int, y as int),
{
    let copy = op_xy(0x8000, x, y);
    let add = op_xy(0x8004, x, y);
    let subtract = op_xy(0x8005, x, y);
    lemma_op_xy_layout(0x8000, x, y);
    lemma_op_xy_layout(0x8004, x, y);
    lemma_op_xy_layout(0x8005, x, y);
    lemma_opcode_fields(copy, 8, x as int, 16 * y);
    lemma_opcode_fields(add, 8, x as int, 16 * y + 4);
    lemma_opcode_fields(subtract, 8, x as int, 16 * y + 5);
    assert(m.alu(x as int, y as int, 0) == Some(m.op_8xy0(x as int, y as int)));
    assert(m.alu(x as int, y as int, 4) == Some(m.op_8xy4(x as int, y as int)));
    assert(m.alu(x as int, y as int, 5) == Some(m.op_8xy5(x as int, y as int)));
    assert(m.decode(copy) == m.alu(x as int, y as int, 0));
    assert(m.decode(add) == m.alu(x as int, y as int, 4));
    assert(m.decode(subtract) == m.alu(x as int, y as int, 5));
}

/// `5xy0` and `9xy0` as the backend emits them skip on the comparison of
/// the two registers.
#[verifier::rlimit(30)]
pub proof fn lemma_emitted_register_skips_decode(m: Machine, x: u8, y: u8)
    requires
        x < 16,
        y < 16,
    ensures
        m.execute(op_xy(0x5000, x, y)) == m.op_5xy0(x as int, y as int),
        m.execute(op_xy(0x9000, x, y)) == m.op_9xy0(x as int, y as int),
{
    let equal = op_xy(0x5000, x, y);
    let differ = op_xy(0x9000, x, y);
    lemma_op_xy_layout(0x5000, x, y);
    lemma_op_xy_layout(0x9000, x, y);
    lemma_opcode_fields(equal, 5, x as int, 16 * y);
    lemma_opcode_fields(differ, 9, x as int, 16 * y);
    assert(m.decode(equal) == Some(m.op_5xy0(x as int, y as int)));
    assert(m.decode(differ) == Some(m.op_9xy0(x as int, y as int)));
}

/// `Dxy5` as the backend emits it draws a glyph of five rows.
#[verifier::rlimit(30)]
pub proof fn lemma_emitted_draw_decodes(m: Machine, x: u8, y: u8)
    requires
        x < 16,
        y < 16,
    ensures
        m.execute(op_xy(0xD005, x, y)) == m.op_dxyn(x as int, y as int, 5),
{
    let op = op_xy(0xD005, x, y);
    lemma_op_xy_layout(0xD005, x, y);
    lemma_opcode_fields(op, 0xD, x as int, 16 * y + 5);
    assert(m.decode(op) == Some(m.op_dxyn(x as int, y as int, 5)));
}

/// `1nnn` as the backend emits it jumps to the low twelve bits of the
/// target.
#[verifier::rlimit(30)]
pub proof fn lemma_emitted_jump_decodes(m: Machine, target: u16)
    ensures
        m.execute(jump_op(target)) == m.op_1nnn((target % 0x1000) as u16),
{
    let jump = jump_op(target);
    assert(op_group(jump) == 1);
    assert(op_nnn(jump) == target % 0x1000);
    assert(m.decode(jump) == Some(m.op_1nnn((target % 0x1000) as u16)));
}

/// The clear and halt opcodes as the backend emits them clear the display
/// and halt the machine.
#[verifier::rlimit(30)]
pub proof fn lemma_emitted_clear_and_halt_decode(m: Machine)
    ensures
        m.execute(clear_op()) == m.op_00e0(),
        m.execute(halt_op()) == m.op_00fd(),
{
    assert(m.decode(clear_op()) == Some(m.op_00e0()));
    assert(m.decode(halt_op()) == Some(m.op_00fd()));
}

/// The program that assigns a byte to a register.
pub open spec fn assignment_program(name: Seq<char>, n: u16, span: Span) -> Seq<StatementView> {
    seq![StatementView::Assign { target: name, value: ExpressionView::Number(n, span), span }]
}

/// The machine code of the program that assigns a byte to a register.
pub open spec fn assignment_code(x: u8, n: u16) -> Seq<u8> {
    seq![(0x60 + x) as u8, n as u8, 0x00u8, 0xFDu8]
}

/// A fresh backend lowers `vx = n` to `6xnn` and the halt.
#[verifier::rlimit(30)]
pub proof fn lemma_assignment_lowers(name: Seq<char>, n: u16, span: Span)
    requires
        register(name) is Some,
        n < 256,
    ensures
        Emitter::new().lower_program(assignment_program(name, n, span)).error is None,
        Emitter::new().lower_program(assignment_program(name, n, span)).state.code
            == assignment_code(register(name)->0, n),
{
    let x = register(name)->0;
    let program = assignment_program(name, n, span);
    let start = Emitter::new();
    lemma_op_xkk_layout(0x6000, x, n);
    assert(program.drop_last() =~= Seq::empty());
    assert(start.lower_block(program.drop_last()) == start.done());
    assert(start.lower_block(program) == start.lower_statement(program.last()));
    let assigned = start.emit(op_xkk(0x6000, x, n));
    assert(start.lower_block(program) == assigned.done());
    let halted = assigned.emit(halt_op());
    assert(halted.patches.len() == 0);
    assert(start.lower_program(program).state == halted);
    assert(halted.code =~= assignment_code(x, n));
}

/// A machine that stands before `6xnn` followed by the halt sets the
/// register in the first step and halts in the second.
#[verifier::rlimit(30)]
pub proof fn lemma_assignment_code_runs(m: Machine, x: u8, n: u16)
    requires
        m.wf(),
        m.active(),
        m.pc == 0x200,
        x < 16,
        n < 256,
        m.memory.subrange(0x200, 0x204) == assignment_code(x, n),
    ensures
        m.steps(2).v[x as int] == n,
        !m.steps(2).running,
        m.steps(2).pc == 0x204,
{
    let code = assignment_code(x, n);
    assert(m.memory[0x200] == code[0] && m.memory[0x201] == code[1]) by {
        assert(m.memory.subrange(0x200, 0x204)[0] == m.memory[0x200]);
        assert(m.memory.subrange(0x200, 0x204)[1] == m.memory[0x201]);
    }
    assert(m.memory[0x202] == code[2] && m.memory[0x203] == code[3]) by {
        assert(m.memory.subrange(0x200, 0x204)[2] == m.memory[0x202]);
        assert(m.memory.subrange(0x200, 0x204)[3] == m.memory[0x203]);
    }
    lemma_op_xkk_layout(0x6000, x, n);
    assert(m.fetch() == op_xkk(0x6000, x, n));
    lemma_emitted_load_decodes(m.skip(), x, n);
    let once = m.step();
    assert(once == m.skip().op_6xkk(x as int, n as u8));
    assert(once.pc == 0x202);
    assert(once.fetch() == halt_op());
    lemma_emitted_clear_and_halt_decode(once.skip());
    let twice = once.step();
    assert(twice == once.skip().op_00fd());
    assert(m.steps(0) == m);
    assert(m.steps(1) == once);
    assert(m.steps(2) == twice);
}

/// Compiler and interpreter agree on the smallest program: `vx = n`,
/// compiled by a fresh backend and loaded into a fresh machine, sets the
/// register to `n` in the first step and halts in the second, with the
/// program counter behind the halt.
#[verifier::rlimit(30)]
pub proof fn lemma_assignment_runs(name: Seq<char>, n: u16, span: Span)
    requires
        register(name) is Some,
        n < 256,
    ensures
        ({
            let x = register(name)->0;
            let lowered = Emitter::new().lower_program(assignment_program(name, n, span));
            let ran = Machine::fresh().load(lowered.state.code).steps(2);
            &&& lowered.error is None
            &&& ran.v[x as int] == n
            &&& !ran.running
            &&& ran.pc == 0x204
        }),
{
    let x = register(name)->0;
    lemma_assignment_lowers(name, n, span);
    let code = assignment_code(x, n);
    let loaded = Machine::fresh().load(code);
    assert(loaded.memory.subrange(0x200, 0x204) =~= code);
    lemma_assignment_code_runs(loaded, x, n);
}

} // verus!
