//! The model of the CHIP-8 code generator: the state of an emission and the
//! effect of lowering every construct of the language on it.
//!
//! A program is lowered in one pass. Each opcode is appended to the code as
//! two bytes, high byte first, while the address of the next opcode is kept
//! alongside. A jump whose target is not known yet is emitted as a
//! placeholder and patched later: the exit of a loop when the loop has been
//! lowered, the jump of a condition when the program is complete.

use vstd::prelude::*;
use crate::error::CompileErrorView;
use crate::ir::ast::{BinaryOperator, ConditionView, ExpressionView, StatementView};
use crate::text::digit_value;

verus! {

/// Where a pending jump is meant to go.
pub enum PatchTargetView {
    /// To the address just behind the program.
    EndOfProgram,
    /// To a label that had not been seen when the jump was emitted.
    Label(Seq<char>),
}

/// A placeholder that waits for its target.
pub struct PatchView {
    /// The address of the placeholder.
    pub address: u16,
    /// Where it is meant to go.
    pub target: PatchTargetView,
}

/// The state of an emission.
pub struct Emitter {
    /// The code emitted so far.
    pub code: Seq<u8>,
    /// The address of the next opcode.
    pub address: u16,
    /// The labels seen so far with their addresses, oldest first.
    pub labels: Seq<(Seq<char>, u16)>,
    /// The placeholders that wait for their target, oldest first.
    pub patches: Seq<PatchView>,
    /// The addresses of the patches that were skipped because they lie
    /// outside the code, oldest first.
    pub skipped: Seq<u16>,
}

/// An emission as far as it got, and the error that stopped it, if any.
pub struct Lowered {
    pub state: Emitter,
    pub error: Option<CompileErrorView>,
}

/// The address at which programs start.
pub open spec fn base_address() -> u16 {
    0x200
}

/// The register that is kept free for comparisons and loop bounds.
pub open spec fn scratch_register() -> u8 {
    0xE
}

/// The flag register.
pub open spec fn flag_register() -> u8 {
    0xF
}

/// The halt opcode that ends every program.
pub open spec fn halt_op() -> u16 {
    0x00FD
}

/// The opcode that clears the display.
pub open spec fn clear_op() -> u16 {
    0x00E0
}

/// The opcode of group `base` for register `x` with the immediate `n`:
/// `base | x << 8 | n`. An immediate of more than eight bits spills into
/// the nibbles above it.
pub open spec fn op_xkk(base: u16, x: u8, n: u16) -> u16 {
    base | ((x as u16) << 8) | n
}

/// The opcode of group `base` for the registers `x` and `y`:
/// `base | x << 8 | y << 4`.
pub open spec fn op_xy(base: u16, x: u8, y: u8) -> u16 {
    base | ((x as u16) << 8) | ((y as u16) << 4)
}

/// The jump to `target`, of which only the low twelve bits count.
pub open spec fn jump_op(target: u16) -> u16 {
    (0x1000 + target % 0x1000) as u16
}

/// For a register and an immediate of at most eight bits, the opcode is the
/// group with the register in the second nibble and the immediate in the
/// low byte.
pub proof fn lemma_op_xkk_layout(base: u16, x: u8, n: u16)
    requires
        base % 0x1000 == 0,
        x < 16,
        n < 256,
    ensures
        op_xkk(base, x, n) == base + 0x100 * x + n,
{
    assert(base | ((x as u16) << 8) | n == base + 0x100 * x + n) by (bit_vector)
        requires
            base % 0x1000 == 0,
            x < 16,
            n < 256,
    ;
}

/// For two registers, the opcode is the group with the registers in the
/// second and third nibble; the last nibble is that of the group.
pub proof fn lemma_op_xy_layout(base: u16, x: u8, y: u8)
    requires
        base % 0x1000 < 16,
        x < 16,
        y < 16,
    ensures
        op_xy(base, x, y) == base + 0x100 * x + 0x10 * y,
{
    assert(base | ((x as u16) << 8) | ((y as u16) << 4) == base + 0x100 * x + 0x10 * y)
        by (bit_vector)
        requires
            base % 0x1000 < 16,
            x < 16,
            y < 16,
    ;
}

/// The jump opcode is `0x1000 | (target & 0x0FFF)`.
pub proof fn lemma_jump_op_layout(target: u16)
    ensures
        jump_op(target) == 0x1000 | (target & 0x0FFF),
{
    assert((0x1000 + target % 0x1000) as u16 == 0x1000 | (target & 0x0FFF)) by (bit_vector);
}

/// The register that a name stands for: `v0` to `vF`, the digit in either case.
pub open spec fn register(name: Seq<char>) -> Option<u8> {
    if name.len() == 2 && name[0] == 'v' {
        match digit_value(name[1], 16) {
            Some(digit) => Some(digit as u8),
            None => None,
        }
    } else {
        None
    }
}

/// The address of the glyph of a hex digit, given as a character in either case.
pub open spec fn glyph_address(character: char) -> Option<u16> {
    match digit_value(character, 16) {
        Some(digit) => Some((0x50 + 5 * digit) as u16),
        None => None,
    }
}

/// The name of an operator as diagnostics show it.
pub open spec fn operator_name(op: BinaryOperator) -> Seq<char> {
    match op {
        BinaryOperator::Add => "Add"@,
        BinaryOperator::Subtract => "Subtract"@,
        BinaryOperator::Multiply => "Multiply"@,
        BinaryOperator::Or => "Or"@,
        BinaryOperator::And => "And"@,
        BinaryOperator::Xor => "Xor"@,
    }
}

/// The text that the standard `Debug` formatting gives for a statement.
pub uninterp spec fn statement_debug(statement: StatementView) -> Seq<char>;

/// The error for a variable that names no register.
pub open spec fn unknown_register(name: Seq<char>) -> CompileErrorView {
    CompileErrorView::UnknownRegister { name }
}

/// The error for a construct that the backend cannot express.
pub open spec fn unsupported(message: Seq<char>) -> CompileErrorView {
    CompileErrorView::BackendError { message }
}

impl Emitter {
    /// The state before anything has been emitted.
    pub open spec fn new() -> Emitter {
        Emitter {
            code: Seq::empty(),
            address: base_address(),
            labels: Seq::empty(),
            patches: Seq::empty(),
            skipped: Seq::empty(),
        }
    }

    /// The emission went through.
    pub open spec fn done(self) -> Lowered {
        Lowered { state: self, error: None }
    }

    /// The emission stopped with `error`.
    pub open spec fn failed(self, error: CompileErrorView) -> Lowered {
        Lowered { state: self, error: Some(error) }
    }

    /// One opcode appended, high byte first; the address moves on by two.
    pub open spec fn emit(self, op: u16) -> Emitter {
        Emitter {
            code: self.code.push((op / 256) as u8).push((op % 256) as u8),
            address: ((self.address + 2) % 0x10000) as u16,
            ..self
        }
    }

    /// A jump appended whose target is not known yet. Its address is the
    /// address of the state before.
    pub open spec fn emit_placeholder(self) -> Emitter {
        self.emit(0x1000)
    }

    /// Whether the placeholder at `at` lies within the code.
    pub open spec fn in_code(self, at: u16) -> bool {
        at >= base_address() && at - base_address() + 1 < self.code.len()
    }

    /// The placeholder at `at` rewritten to jump to `target`. A placeholder
    /// outside the code is skipped and noted.
    pub open spec fn patch(self, at: u16, target: u16) -> Emitter {
        if self.in_code(at) {
            Emitter {
                code: self.code.update(at - base_address(), (jump_op(target) / 256) as u8).update(
                    at - base_address() + 1,
                    (jump_op(target) % 256) as u8,
                ),
                ..self
            }
        } else {
            Emitter { skipped: self.skipped.push(at), ..self }
        }
    }

    /// A placeholder appended and entered in the table of pending patches.
    pub open spec fn emit_pending(self, target: PatchTargetView) -> Emitter {
        Emitter {
            patches: self.patches.push(PatchView { address: self.address, target }),
            ..self.emit_placeholder()
        }
    }

    /// The address of a label, if it has been seen; of the labels of one
    /// name the youngest counts.
    pub open spec fn label_address(self, name: Seq<char>) -> Option<u16> {
        find_label(self.labels, name)
    }

    /// The first `n` pending patches gone through for the label `name`,
    /// which stands at the current address: those that wait for it are
    /// patched and leave the table, the others stay.
    pub open spec fn resolve(self, name: Seq<char>, n: nat) -> Emitter
        decreases n,
    {
        if n == 0 || n > self.patches.len() {
            Emitter { patches: Seq::empty(), ..self }
        } else {
            let before = self.resolve(name, (n - 1) as nat);
            let patch = self.patches[n - 1];
            if patch.target == PatchTargetView::Label(name) {
                before.patch(patch.address, self.address)
            } else {
                Emitter { patches: before.patches.push(patch), ..before }
            }
        }
    }

    /// A label set at the current address: it is entered in the table of
    /// labels and the jumps that wait for it are patched.
    pub open spec fn set_label(self, name: Seq<char>) -> Emitter {
        let resolved = self.resolve(name, self.patches.len());
        Emitter { labels: resolved.labels.push((name, self.address)), ..resolved }
    }

    /// The first `n` pending patches rewritten to jump to `target`.
    pub open spec fn patch_pending(self, target: u16, n: nat) -> Emitter
        decreases n,
    {
        if n == 0 || n > self.patches.len() {
            self
        } else {
            self.patch_pending(target, (n - 1) as nat).patch(self.patches[n - 1].address, target)
        }
    }

    /// The end of a program: the halt opcode is appended, and every patch
    /// that is still pending is made to jump to the address behind it. The
    /// table of pending patches is kept as it is.
    pub open spec fn finish(self) -> Emitter {
        let halted = self.emit(halt_op());
        halted.patch_pending(halted.address, halted.patches.len())
    }

    /// `target = number`: `6xnn`.
    /// `target = variable`: `8xy0`.
    /// `target = left op right`: see `lower_binary_op`.
    pub open spec fn lower_assign(self, target: Seq<char>, value: ExpressionView) -> Lowered {
        match value {
            ExpressionView::Number(n, _) => match register(target) {
                Some(x) => self.emit(op_xkk(0x6000, x, n)).done(),
                None => self.failed(unknown_register(target)),
            },
            ExpressionView::Variable(source, _) => match register(target) {
                Some(x) => match register(source) {
                    Some(y) => self.emit(op_xy(0x8000, x, y)).done(),
                    None => self.failed(unknown_register(source)),
                },
                None => self.failed(unknown_register(target)),
            },
            ExpressionView::BinaryOp { left, op, right, .. } => self.lower_binary_op(
                target,
                *left,
                op,
                *right,
            ),
        }
    }

    /// `target = left + right`, where at most one operand is a number:
    ///
    /// - `vy + n`: `8xy0` then `7xnn`;
    /// - `n + vy`: `6xnn` then `8xy4`, which overwrites the flag register;
    /// - `vy + vz`: `8xy0` then `8xz4`.
    ///
    /// Every other operator or shape of operands is rejected.
    pub open spec fn lower_binary_op(
        self,
        target: Seq<char>,
        left: ExpressionView,
        op: BinaryOperator,
        right: ExpressionView,
    ) -> Lowered {
        match register(target) {
            None => self.failed(unknown_register(target)),
            Some(x) => if op != BinaryOperator::Add {
                self.failed(unsupported("Operator "@ + operator_name(op) + " not implemented"@))
            } else {
                match (left, right) {
                    (ExpressionView::Variable(l, _), ExpressionView::Number(n, _)) => match register(l) {
                        Some(y) => self.emit(op_xy(0x8000, x, y)).emit(op_xkk(0x7000, x, n)).done(),
                        None => self.failed(unknown_register(l)),
                    },
                    (ExpressionView::Number(n, _), ExpressionView::Variable(r, _)) => {
                        let loaded = self.emit(op_xkk(0x6000, x, n));
                        match register(r) {
                            Some(y) => loaded.emit(op_xy(0x8004, x, y)).done(),
                            None => loaded.failed(unknown_register(r)),
                        }
                    },
                    (ExpressionView::Variable(l, _), ExpressionView::Variable(r, _)) => match register(
                        l,
                    ) {
                        None => self.failed(unknown_register(l)),
                        Some(y) => match register(r) {
                            None => self.failed(unknown_register(r)),
                            Some(z) => self.emit(op_xy(0x8000, x, y)).emit(op_xy(0x8004, x, z)).done(),
                        },
                    },
                    _ => self.failed(unsupported("Complex expressions not supported yet"@)),
                }
            },
        }
    }

    /// An expression loaded into register `x`: `6xnn` for a number, `8xy0`
    /// for a variable. Anything else is rejected.
    pub open spec fn lower_to_register(self, x: u8, value: ExpressionView) -> Lowered {
        match value {
            ExpressionView::Number(n, _) => self.emit(op_xkk(0x6000, x, n)).done(),
            ExpressionView::Variable(source, _) => match register(source) {
                Some(y) => self.emit(op_xy(0x8000, x, y)).done(),
                None => self.failed(unknown_register(source)),
            },
            _ => self.failed(unsupported("Complex expressions not supported yet"@)),
        }
    }

    /// `print(x, y, 'c')`: `Annn` with the address of the glyph of `c`, then
    /// `Dxy5`. Both coordinates have to be registers.
    pub open spec fn lower_draw_char(self, x: ExpressionView, y: ExpressionView, character: char) -> Lowered {
        match glyph_address(character) {
            None => self.failed(
                unsupported("Unsupported character: '"@.push(character) + "'"@),
            ),
            Some(glyph) => {
                let pointed = self.emit(0xA000 | glyph);
                match x {
                    ExpressionView::Variable(x_name, _) => match register(x_name) {
                        None => pointed.failed(unknown_register(x_name)),
                        Some(vx) => match y {
                            ExpressionView::Variable(y_name, _) => match register(y_name) {
                                None => pointed.failed(unknown_register(y_name)),
                                Some(vy) => pointed.emit(op_xy(0xD005, vx, vy)).done(),
                            },
                            _ => pointed.failed(unsupported("Draw y must be a register"@)),
                        },
                    },
                    _ => pointed.failed(unsupported("Draw x must be a register"@)),
                }
            },
        }
    }

    /// A comparison for equality followed by a jump that is left pending
    /// until the end of the program. With `skip_on_equal` the jump is
    /// skipped when the operands are equal, otherwise when they differ:
    ///
    /// - `vx` and a number: `3xnn` or `4xnn`;
    /// - `vx` and `vy`: `5xy0` or `9xy0`.
    pub open spec fn lower_equality_check(
        self,
        left: ExpressionView,
        right: ExpressionView,
        skip_on_equal: bool,
    ) -> Lowered {
        match (left, right) {
            (ExpressionView::Variable(l, _), ExpressionView::Number(n, _)) => match register(l) {
                None => self.failed(unknown_register(l)),
                Some(x) => self.emit(
                    op_xkk(
                        if skip_on_equal {
                            0x3000u16
                        } else {
                            0x4000u16
                        },
                        x,
                        n,
                    ),
                ).emit_pending(PatchTargetView::EndOfProgram).done(),
            },
            (ExpressionView::Variable(l, _), ExpressionView::Variable(r, _)) => match register(l) {
                None => self.failed(unknown_register(l)),
                Some(x) => match register(r) {
                    None => self.failed(unknown_register(r)),
                    Some(y) => self.emit(
                        op_xy(
                            if skip_on_equal {
                                0x5000u16
                            } else {
                                0x9000u16
                            },
                            x,
                            y,
                        ),
                    ).emit_pending(PatchTargetView::EndOfProgram).done(),
                },
            },
            _ => self.failed(unsupported("Complex equality comparisons not supported yet"@)),
        }
    }

    /// A comparison of `vx` with a number followed by a jump that is left
    /// pending until the end of the program: `6Enn` loads the number into
    /// the scratch register, `8xE5` subtracts it from `vx`, which sets the
    /// flag register to one if `vx` is at least the number, and `3F01` or
    /// `3F00` skips the jump if the flag register is `skip_on_flag`.
    pub open spec fn lower_greater_check(
        self,
        left: ExpressionView,
        right: ExpressionView,
        skip_on_flag: bool,
    ) -> Lowered {
        match (left, right) {
            (ExpressionView::Variable(l, _), ExpressionView::Number(n, _)) => match register(l) {
                None => self.failed(unknown_register(l)),
                Some(x) => self.emit(op_xkk(0x6000, scratch_register(), n)).emit(
                    op_xy(0x8005, x, scratch_register()),
                ).emit(
                    op_xkk(
                        0x3000,
                        flag_register(),
                        if skip_on_flag {
                            1u16
                        } else {
                            0u16
                        },
                    ),
                ).emit_pending(PatchTargetView::EndOfProgram).done(),
            },
            _ => self.failed(unsupported("Complex greater comparisons not supported yet"@)),
        }
    }

    /// The test of a condition. The test ends in a pending jump that is
    /// skipped when the skip instruction before it fires. With
    /// `jump_on_false`, as loops ask for it:
    ///
    /// - `==` skips on difference and `!=` on equality;
    /// - `>` skips when the left operand is at least the right one;
    /// - the condition that always holds needs no test;
    /// - `<` and the test for a pressed key are rejected.
    ///
    /// Without `jump_on_false` every skip is inverted.
    pub open spec fn lower_condition(self, condition: ConditionView, jump_on_false: bool) -> Lowered {
        match condition {
            ConditionView::True => self.done(),
            ConditionView::Equal(left, right) => self.lower_equality_check(
                left,
                right,
                !jump_on_false,
            ),
            ConditionView::NotEqual(left, right) => self.lower_equality_check(
                left,
                right,
                jump_on_false,
            ),
            ConditionView::Greater(left, right) => self.lower_greater_check(
                left,
                right,
                jump_on_false,
            ),
            ConditionView::Less(_, _) => self.failed(
                unsupported("Less-than comparisons not supported yet"@),
            ),
            ConditionView::KeyPressed(_) => self.failed(
                unsupported("Key conditions not supported yet"@),
            ),
        }
    }

    /// A block: its statements in order, up to the first that fails.
    pub open spec fn lower_block(self, block: Seq<StatementView>) -> Lowered
        decreases block, 0nat,
    {
        if block.len() == 0 {
            self.done()
        } else {
            let before = self.lower_block(block.drop_last());
            if before.error is Some {
                before
            } else {
                before.state.lower_statement(block.last())
            }
        }
    }

    /// `while condition:` with its body.
    ///
    /// For the condition that always holds: the body, then a jump back to
    /// its start. Otherwise: the test of the condition, a placeholder for
    /// the jump out of the loop, the body, a jump back to the test, and the
    /// placeholder patched to the address behind that jump.
    pub open spec fn lower_while(self, condition: ConditionView, body: Seq<StatementView>) -> Lowered
        decreases body, 1nat,
    {
        if condition is True {
            let inner = self.lower_block(body);
            if inner.error is Some {
                inner
            } else {
                inner.state.emit(jump_op(self.address)).done()
            }
        } else {
            let tested = self.lower_condition(condition, true);
            if tested.error is Some {
                tested
            } else {
                let exit_jump = tested.state.address;
                let inner = tested.state.emit_placeholder().lower_block(body);
                if inner.error is Some {
                    inner
                } else {
                    let looped = inner.state.emit(jump_op(self.address));
                    looped.patch(exit_jump, looped.address).done()
                }
            }
        }
    }

    /// `for variable in range(start, end):` with its body.
    ///
    /// The counter is set to `start`. Each round loads `end` into the
    /// scratch register (`6Enn` or `8Ey0`), subtracts it from the counter
    /// (`8xE5`), skips the jump out of the loop if the flag register is one
    /// (`3F01`), runs the body, adds one to the counter (`7x01`) and jumps
    /// back to the load of `end`. The jump out of the loop is patched to the
    /// address behind the jump back.
    pub open spec fn lower_for(
        self,
        variable: Seq<char>,
        start: ExpressionView,
        end: ExpressionView,
        body: Seq<StatementView>,
    ) -> Lowered
        decreases body, 1nat,
    {
        match register(variable) {
            None => self.failed(unknown_register(variable)),
            Some(counter) => {
                let set = self.lower_assign(variable, start);
                if set.error is Some {
                    set
                } else {
                    let bound = set.state.lower_bound(end);
                    if bound.error is Some {
                        bound
                    } else {
                        let tested = bound.state.emit(op_xy(0x8005, counter, scratch_register())).emit(
                            op_xkk(0x3000, flag_register(), 1),
                        );
                        let exit_jump = tested.address;
                        let inner = tested.emit_placeholder().lower_block(body);
                        if inner.error is Some {
                            inner
                        } else {
                            let looped = inner.state.emit(op_xkk(0x7000, counter, 1)).emit(
                                jump_op(set.state.address),
                            );
                            looped.patch(exit_jump, looped.address).done()
                        }
                    }
                }
            },
        }
    }

    /// The bound of a counting loop loaded into the scratch register: `6Enn`
    /// for a number, `8Ey0` for a variable. Anything else is rejected.
    pub open spec fn lower_bound(self, end: ExpressionView) -> Lowered {
        match end {
            ExpressionView::Number(n, _) => self.emit(op_xkk(0x6000, scratch_register(), n)).done(),
            ExpressionView::Variable(name, _) => match register(name) {
                Some(y) => self.emit(op_xy(0x8000, scratch_register(), y)).done(),
                None => self.failed(unknown_register(name)),
            },
            _ => self.failed(
                unsupported("Complex end expressions in for loops not supported yet"@),
            ),
        }
    }

    /// `jump(label)`: a jump to the label if it has been seen, otherwise a
    /// placeholder that waits for it.
    pub open spec fn lower_jump(self, label: Seq<char>) -> Emitter {
        match self.label_address(label) {
            Some(address) => self.emit(jump_op(address)),
            None => self.emit_pending(PatchTargetView::Label(label)),
        }
    }

    /// One statement.
    pub open spec fn lower_statement(self, statement: StatementView) -> Lowered
        decreases statement, 2nat,
    {
        match statement {
            StatementView::Pass => self.done(),
            StatementView::Assign { target, value, .. } => self.lower_assign(target, value),
            StatementView::Print { x, y, character, .. } => self.lower_draw_char(x, y, character),
            StatementView::ClearScreen => self.emit(clear_op()).done(),
            StatementView::Label { name } => self.set_label(name).done(),
            StatementView::Jump { label } => self.lower_jump(label).done(),
            StatementView::While { condition, body, .. } => self.lower_while(condition, body),
            StatementView::For { variable, start, end, body, .. } => self.lower_for(
                variable,
                start,
                end,
                body,
            ),
            StatementView::Delay { .. } => self.failed(
                unsupported("Not implemented: "@ + statement_debug(statement)),
            ),
        }
    }

    /// A whole program: its statements, the halt opcode, and the pending
    /// patches resolved. A program that fails leaves the emission where the
    /// failure stopped it.
    pub open spec fn lower_program(self, program: Seq<StatementView>) -> Lowered {
        let lowered = self.lower_block(program);
        if lowered.error is Some {
            lowered
        } else {
            lowered.state.finish().done()
        }
    }
}

/// The address of the youngest label of the given name.
pub open spec fn find_label(labels: Seq<(Seq<char>, u16)>, name: Seq<char>) -> Option<u16>
    decreases labels.len(),
{
    if labels.len() == 0 {
        None
    } else if labels.last().0 == name {
        Some(labels.last().1)
    } else {
        find_label(labels.drop_last(), name)
    }
}

} // verus!
