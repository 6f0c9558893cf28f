//! The CHIP-8 backend: lowers a syntax tree to machine code that starts at
//! address `0x200`.

use vstd::prelude::*;
use vstd::string::{StringExecFns, StrSliceExecFns};
use crate::backends::emitter::{
    find_label, jump_op, operator_name, register, statement_debug, Emitter, Lowered,
    PatchTargetView, PatchView,
};
use crate::error::{CompileError, CompileErrorView};
use crate::ir::ast::{
    block_view, BinaryOperator, Condition, Expression, Program, Statement, StatementView,
};
use crate::text::{digit_of, push_char, push_text, same_text};

verus! {

/// Where a pending jump is meant to go.
#[derive(Debug)]
pub enum PatchTarget {
    /// To the address just behind the program.
    EndOfProgram,
    /// To a label that had not been seen when the jump was emitted.
    Label(String),
}

/// A placeholder that waits for its target.
#[derive(Debug)]
pub struct Patch {
    /// The address of the placeholder.
    pub address: u16,
    /// Where it is meant to go.
    pub target: PatchTarget,
}

impl View for PatchTarget {
    type V = PatchTargetView;

    open spec fn view(&self) -> PatchTargetView {
        match self {
            PatchTarget::EndOfProgram => PatchTargetView::EndOfProgram,
            PatchTarget::Label(name) => PatchTargetView::Label(name@),
        }
    }
}

impl Clone for PatchTarget {
    /// A copy that stands for the same target.
    fn clone(&self) -> (copy: PatchTarget)
        ensures
            copy@ == self@,
    {
        match self {
            PatchTarget::EndOfProgram => PatchTarget::EndOfProgram,
            PatchTarget::Label(name) => PatchTarget::Label(name.clone()),
        }
    }
}

impl Clone for Patch {
    /// A copy that stands for the same patch.
    fn clone(&self) -> (copy: Patch)
        ensures
            copy@ == self@,
    {
        Patch { address: self.address, target: self.target.clone() }
    }
}

impl View for Patch {
    type V = PatchView;

    open spec fn view(&self) -> PatchView {
        PatchView { address: self.address, target: self.target@ }
    }
}

/// The code generator for the CHIP-8.
pub struct Chip8Backend {
    code: Vec<u8>,
    labels: Vec<(String, u16)>,
    current_address: u16,
    patches: Vec<Patch>,
    skipped: Vec<u16>,
}

impl View for Chip8Backend {
    type V = Emitter;

    closed spec fn view(&self) -> Emitter {
        Emitter {
            code: self.code@,
            address: self.current_address,
            labels: self.labels@.map_values(|label: (String, u16)| (label.0@, label.1)),
            patches: self.patches@.map_values(|patch: Patch| patch@),
            skipped: self.skipped@,
        }
    }
}

/// Formats a statement for a diagnostic.
///
/// Wraps the standard library's `{:?}` formatting of the derived `Debug` of
/// `Statement`. The text depends on nothing but the statement; the contract
/// gives it a name and claims no more.
#[verifier::external_body]
fn debug_statement(statement: &Statement) -> (text: String)
    ensures
        text@ == statement_debug(statement@),
{
    format!("{:?}", statement)
}

/// The error for a variable that names no register.
fn unknown_register_error(name: &str) -> (error: CompileError)
    ensures
        error@ == (CompileErrorView::UnknownRegister { name: name@ }),
{
    CompileError::UnknownRegister { name: String::from_str(name) }
}

/// The error for a construct that the backend cannot express.
fn unsupported_error(message: String) -> (error: CompileError)
    ensures
        error@ == (CompileErrorView::BackendError { message: message@ }),
{
    CompileError::BackendError { message }
}

/// The name of an operator as diagnostics show it.
fn operator_text(op: &BinaryOperator) -> (name: &'static str)
    ensures
        name@ == operator_name(*op),
{
    match op {
        BinaryOperator::Add => "Add",
        BinaryOperator::Subtract => "Subtract",
        BinaryOperator::Multiply => "Multiply",
        BinaryOperator::Or => "Or",
        BinaryOperator::And => "And",
        BinaryOperator::Xor => "Xor",
    }
}

/// Whether the outcome of a lowering step is what the model gives: the
/// state of the emission, and the error or its absence.
pub open spec fn lowered_as(state: Emitter, result: Result<(), CompileError>, expected: Lowered) -> bool {
    &&& state == expected.state
    &&& match result {
        Ok(_) => expected.error is None,
        Err(error) => expected.error == Some(error@),
    }
}

impl Chip8Backend {
    /// A backend that has emitted nothing yet.
    pub fn new() -> (backend: Chip8Backend)
        ensures
            backend@ == Emitter::new(),
    {
        let backend = Chip8Backend {
            code: Vec::new(),
            labels: Vec::new(),
            current_address: 0x200,
            patches: Vec::new(),
            skipped: Vec::new(),
        };
        assert(backend@.labels =~= Seq::empty());
        assert(backend@.patches =~= Seq::empty());
        backend
    }

    /// The addresses of the patches that were skipped because they lie
    /// outside the code, oldest first.
    pub fn skipped_patches(&self) -> (skipped: &Vec<u16>)
        ensures
            skipped@ == self@.skipped,
    {
        &self.skipped
    }

    /// Lowers a whole program and returns all code emitted so far: the
    /// statements, the halt opcode, and every pending jump resolved.
    pub fn compile_program(&mut self, program: &Program) -> (result: Result<Vec<u8>, CompileError>)
        ensures
            final(self)@ == old(self)@.lower_program(program@).state,
            match result {
                Ok(code) => old(self)@.lower_program(program@).error is None
                    && code@ == final(self)@.code,
                Err(error) => old(self)@.lower_program(program@).error == Some(error@),
            },
    {
        match self.compile_block(&program.statements) {
            Ok(_) => {},
            Err(error) => {
                return Err(error);
            },
        }
        self.emit_instruction(0x00FD);
        let target = self.current_address;
        let mut k: usize = 0;
        while k < self.patches.len()
            invariant
                k <= self.patches.len(),
                target == self@.address,
                self@.patches == old(self)@.lower_block(program@).state.patches,
                self@ == old(self)@.lower_block(program@).state.emit(0x00FD).patch_pending(
                    target,
                    k as nat,
                ),
            decreases self.patches.len() - k,
        {
            let at = self.patches[k].address;
            self.patch_jump(at, target);
            k += 1;
        }
        Ok(self.code.clone())
    }

    /// Lowers the statements of a block in order.
    fn compile_block(&mut self, block: &Vec<Statement>) -> (result: Result<(), CompileError>)
        ensures
            lowered_as(final(self)@, result, old(self)@.lower_block(block_view(block@))),
        decreases block, 0nat,
    {
        let ghost views = block_view(block@);
        let mut k: usize = 0;
        assert(views.subrange(0, 0) =~= Seq::empty());
        while k < block.len()
            invariant
                k <= block.len(),
                views == block_view(block@),
                lowered_as(
                    self@,
                    Ok::<(), CompileError>(()),
                    old(self)@.lower_block(views.subrange(0, k as int)),
                ),
            decreases block.len() - k,
        {
            assert(views.subrange(0, k + 1).drop_last() =~= views.subrange(0, k as int));
            assert(views.subrange(0, k + 1).last() == block@[k as int]@);
            match self.compile_statement(&block[k]) {
                Ok(_) => {},
                Err(error) => {
                    proof {
                        lemma_block_stops(old(self)@, views, k + 1);
                    }
                    return Err(error);
                },
            }
            k += 1;
        }
        assert(views.subrange(0, block.len() as int) =~= views);
        Ok(())
    }

    /// Lowers one statement.
    fn compile_statement(&mut self, statement: &Statement) -> (result: Result<(), CompileError>)
        ensures
            lowered_as(final(self)@, result, old(self)@.lower_statement(statement@)),
        decreases statement, 2nat,
    {
        match statement {
            Statement::Assign { target, value, .. } => self.compile_assign(target.as_str(), value),
            Statement::Print { x, y, character, .. } => self.compile_draw_char(x, y, *character),
            Statement::ClearScreen => {
                self.compile_clear_screen();
                Ok(())
            },
            Statement::Label { name } => {
                self.set_label(name.as_str());
                Ok(())
            },
            Statement::Jump { label } => {
                self.compile_jump(label.as_str());
                Ok(())
            },
            Statement::While { condition, body, .. } => self.compile_while(condition, body),
            Statement::For { variable, start, end, body, .. } => self.compile_for(
                variable.as_str(),
                start,
                end,
                body,
            ),
            Statement::Pass => Ok(()),
            Statement::Delay { .. } => {
                let mut message = String::from_str("Not implemented: ");
                let shown = debug_statement(statement);
                push_text(&mut message, shown.as_str());
                Err(unsupported_error(message))
            },
        }
    }

    /// Lowers `target = value`.
    fn compile_assign(&mut self, target: &str, value: &Expression) -> (result: Result<(), CompileError>)
        ensures
            lowered_as(final(self)@, result, old(self)@.lower_assign(target@, value@)),
    {
        match value {
            Expression::Number(n, _) => {
                let reg = match self.parse_register(target) {
                    Ok(reg) => reg,
                    Err(error) => {
                        return Err(error);
                    },
                };
                self.emit_instruction(0x6000 | ((reg as u16) << 8) | *n);
                Ok(())
            },
            Expression::Variable(var, _) => {
                let reg_dest = match self.parse_register(target) {
                    Ok(reg) => reg,
                    Err(error) => {
                        return Err(error);
                    },
                };
                let reg_src = match self.parse_register(var.as_str()) {
                    Ok(reg) => reg,
                    Err(error) => {
                        return Err(error);
                    },
                };
                self.emit_instruction(0x8000 | ((reg_dest as u16) << 8) | ((reg_src as u16) << 4));
                Ok(())
            },
            Expression::BinaryOp { left, op, right, .. } => self.compile_binary_op(
                target,
                left,
                op,
                right,
            ),
        }
    }

    /// Lowers a loop.
    fn compile_while(&mut self, condition: &Condition, body: &Vec<Statement>) -> (result: Result<
        (),
        CompileError,
    >)
        ensures
            lowered_as(final(self)@, result, old(self)@.lower_while(condition@, block_view(body@))),
        decreases body, 1nat,
    {
        match condition {
            Condition::True => {
                let loop_start = self.current_address;
                match self.compile_block(body) {
                    Ok(_) => {},
                    Err(error) => {
                        return Err(error);
                    },
                }
                self.emit_jump(loop_start);
                Ok(())
            },
            _ => {
                let condition_check_addr = self.current_address;
                match self.compile_condition(condition, true) {
                    Ok(_) => {},
                    Err(error) => {
                        return Err(error);
                    },
                }
                let exit_jump_placeholder = self.emit_jump_placeholder();
                match self.compile_block(body) {
                    Ok(_) => {},
                    Err(error) => {
                        return Err(error);
                    },
                }
                self.emit_jump(condition_check_addr);
                let exit_addr = self.current_address;
                self.patch_jump(exit_jump_placeholder, exit_addr);
                Ok(())
            },
        }
    }

    /// Lowers a counting loop.
    fn compile_for(
        &mut self,
        variable: &str,
        start: &Expression,
        end: &Expression,
        body: &Vec<Statement>,
    ) -> (result: Result<(), CompileError>)
        ensures
            lowered_as(
                final(self)@,
                result,
                old(self)@.lower_for(variable@, start@, end@, block_view(body@)),
            ),
        decreases body, 1nat,
    {
        let reg_counter = match self.parse_register(variable) {
            Ok(reg) => reg,
            Err(error) => {
                return Err(error);
            },
        };
        match self.compile_assign(variable, start) {
            Ok(_) => {},
            Err(error) => {
                return Err(error);
            },
        }
        let loop_start = self.current_address;
        match self.compile_bound(end) {
            Ok(_) => {},
            Err(error) => {
                return Err(error);
            },
        }
        self.emit_instruction(0x8005 | ((reg_counter as u16) << 8) | ((0xEu8 as u16) << 4));
        self.emit_instruction(0x3000 | ((0xFu8 as u16) << 8) | 1);
        let exit_jump_placeholder = self.emit_jump_placeholder();
        match self.compile_block(body) {
            Ok(_) => {},
            Err(error) => {
                return Err(error);
            },
        }
        self.emit_instruction(0x7000 | ((reg_counter as u16) << 8) | 1);
        self.emit_jump(loop_start);
        let exit_addr = self.current_address;
        self.patch_jump(exit_jump_placeholder, exit_addr);
        Ok(())
    }

    /// Loads the bound of a counting loop into the scratch register.
    fn compile_bound(&mut self, end: &Expression) -> (result: Result<(), CompileError>)
        ensures
            lowered_as(final(self)@, result, old(self)@.lower_bound(end@)),
    {
        match end {
            Expression::Number(n, _) => {
                self.emit_instruction(0x6000 | ((0xEu8 as u16) << 8) | *n);
                Ok(())
            },
            Expression::Variable(var, _) => {
                let reg_end = match self.parse_register(var.as_str()) {
                    Ok(reg) => reg,
                    Err(error) => {
                        return Err(error);
                    },
                };
                self.emit_instruction(0x8000 | ((0xEu8 as u16) << 8) | ((reg_end as u16) << 4));
                Ok(())
            },
            _ => Err(
                unsupported_error(
                    String::from_str("Complex end expressions in for loops not supported yet"),
                ),
            ),
        }
    }

    /// Lowers the test of a condition.
    fn compile_condition(&mut self, condition: &Condition, jump_on_false: bool) -> (result: Result<
        (),
        CompileError,
    >)
        ensures
            lowered_as(final(self)@, result, old(self)@.lower_condition(condition@, jump_on_false)),
    {
        match condition {
            Condition::True => Ok(()),
            Condition::Equal(left, right) => self.compile_equality_check(left, right, !jump_on_false),
            Condition::NotEqual(left, right) => self.compile_equality_check(left, right, jump_on_false),
            Condition::Greater(left, right) => self.compile_greater_check(left, right, jump_on_false),
            Condition::Less(_, _) => Err(
                unsupported_error(String::from_str("Less-than comparisons not supported yet")),
            ),
            Condition::KeyPressed(_) => Err(
                unsupported_error(String::from_str("Key conditions not supported yet")),
            ),
        }
    }

    /// Lowers a comparison for equality and the pending jump behind it.
    fn compile_equality_check(
        &mut self,
        left: &Expression,
        right: &Expression,
        skip_on_equal: bool,
    ) -> (result: Result<(), CompileError>)
        ensures
            lowered_as(
                final(self)@,
                result,
                old(self)@.lower_equality_check(left@, right@, skip_on_equal),
            ),
    {
        match (left, right) {
            (Expression::Variable(left_var, _), Expression::Number(n, _)) => {
                let reg = match self.parse_register(left_var.as_str()) {
                    Ok(reg) => reg,
                    Err(error) => {
                        return Err(error);
                    },
                };
                let group: u16 = if skip_on_equal {
                    0x3000
                } else {
                    0x4000
                };
                self.emit_instruction(group | ((reg as u16) << 8) | *n);
                self.emit_pending_jump(PatchTarget::EndOfProgram);
                Ok(())
            },
            (Expression::Variable(left_var, _), Expression::Variable(right_var, _)) => {
                let reg_left = match self.parse_register(left_var.as_str()) {
                    Ok(reg) => reg,
                    Err(error) => {
                        return Err(error);
                    },
                };
                let reg_right = match self.parse_register(right_var.as_str()) {
                    Ok(reg) => reg,
                    Err(error) => {
                        return Err(error);
                    },
                };
                let group: u16 = if skip_on_equal {
                    0x5000
                } else {
                    0x9000
                };
                self.emit_instruction(group | ((reg_left as u16) << 8) | ((reg_right as u16) << 4));
                self.emit_pending_jump(PatchTarget::EndOfProgram);
                Ok(())
            },
            _ => Err(
                unsupported_error(String::from_str("Complex equality comparisons not supported yet")),
            ),
        }
    }

    /// Lowers a comparison with a number and the pending jump behind it.
    fn compile_greater_check(
        &mut self,
        left: &Expression,
        right: &Expression,
        skip_on_flag: bool,
    ) -> (result: Result<(), CompileError>)
        ensures
            lowered_as(
                final(self)@,
                result,
                old(self)@.lower_greater_check(left@, right@, skip_on_flag),
            ),
    {
        match (left, right) {
            (Expression::Variable(left_var, _), Expression::Number(n, _)) => {
                let reg_left = match self.parse_register(left_var.as_str()) {
                    Ok(reg) => reg,
                    Err(error) => {
                        return Err(error);
                    },
                };
                self.emit_instruction(0x6000 | ((0xEu8 as u16) << 8) | *n);
                self.emit_instruction(0x8005 | ((reg_left as u16) << 8) | ((0xEu8 as u16) << 4));
                let flag: u16 = if skip_on_flag {
                    1
                } else {
                    0
                };
                self.emit_instruction(0x3000 | ((0xFu8 as u16) << 8) | flag);
                self.emit_pending_jump(PatchTarget::EndOfProgram);
                Ok(())
            },
            _ => Err(
                unsupported_error(String::from_str("Complex greater comparisons not supported yet")),
            ),
        }
    }

    /// Lowers `target = left op right`.
    fn compile_binary_op(
        &mut self,
        target: &str,
        left: &Expression,
        op: &BinaryOperator,
        right: &Expression,
    ) -> (result: Result<(), CompileError>)
        ensures
            lowered_as(
                final(self)@,
                result,
                old(self)@.lower_binary_op(target@, left@, *op, right@),
            ),
    {
        let reg_target = match self.parse_register(target) {
            Ok(reg) => reg,
            Err(error) => {
                return Err(error);
            },
        };
        match op {
            BinaryOperator::Add => {},
            _ => {
                let mut message = String::from_str("Operator ");
                push_text(&mut message, operator_text(op));
                push_text(&mut message, " not implemented");
                return Err(unsupported_error(message));
            },
        }
        match (left, right) {
            (Expression::Variable(left_var, _), Expression::Number(n, _)) => {
                let reg_left = match self.parse_register(left_var.as_str()) {
                    Ok(reg) => reg,
                    Err(error) => {
                        return Err(error);
                    },
                };
                self.emit_instruction(0x8000 | ((reg_target as u16) << 8) | ((reg_left as u16) << 4));
                self.emit_instruction(0x7000 | ((reg_target as u16) << 8) | *n);
                Ok(())
            },
            (Expression::Number(n, _), Expression::Variable(right_var, _)) => {
                self.emit_instruction(0x6000 | ((reg_target as u16) << 8) | *n);
                let reg_right = match self.parse_register(right_var.as_str()) {
                    Ok(reg) => reg,
                    Err(error) => {
                        return Err(error);
                    },
                };
                self.emit_instruction(0x8004 | ((reg_target as u16) << 8) | ((reg_right as u16) << 4));
                Ok(())
            },
            (Expression::Variable(left_var, _), Expression::Variable(right_var, _)) => {
                let reg_left = match self.parse_register(left_var.as_str()) {
                    Ok(reg) => reg,
                    Err(error) => {
                        return Err(error);
                    },
                };
                let reg_right = match self.parse_register(right_var.as_str()) {
                    Ok(reg) => reg,
                    Err(error) => {
                        return Err(error);
                    },
                };
                self.emit_instruction(0x8000 | ((reg_target as u16) << 8) | ((reg_left as u16) << 4));
                self.emit_instruction(0x8004 | ((reg_target as u16) << 8) | ((reg_right as u16) << 4));
                Ok(())
            },
            _ => Err(unsupported_error(String::from_str("Complex expressions not supported yet"))),
        }
    }

    /// Loads an expression into a register.
    fn _compile_to_register(&mut self, reg: u8, expr: &Expression) -> (result: Result<(), CompileError>)
        ensures
            lowered_as(final(self)@, result, old(self)@.lower_to_register(reg, expr@)),
    {
        match expr {
            Expression::Number(n, _) => {
                self.emit_instruction(0x6000 | ((reg as u16) << 8) | *n);
                Ok(())
            },
            Expression::Variable(var, _) => {
                let reg_src = match self.parse_register(var.as_str()) {
                    Ok(reg) => reg,
                    Err(error) => {
                        return Err(error);
                    },
                };
                self.emit_instruction(0x8000 | ((reg as u16) << 8) | ((reg_src as u16) << 4));
                Ok(())
            },
            _ => Err(unsupported_error(String::from_str("Complex expressions not supported yet"))),
        }
    }

    /// Lowers `print(x, y, 'c')`.
    fn compile_draw_char(&mut self, x: &Expression, y: &Expression, character: char) -> (result: Result<
        (),
        CompileError,
    >)
        ensures
            lowered_as(final(self)@, result, old(self)@.lower_draw_char(x@, y@, character)),
    {
        let font_address: u16 = match digit_of(character, 16) {
            Some(digit) => 0x50 + 5 * digit as u16,
            None => {
                let mut message = String::from_str("Unsupported character: '");
                push_char(&mut message, character);
                push_text(&mut message, "'");
                return Err(unsupported_error(message));
            },
        };
        self.emit_instruction(0xA000 | font_address);
        let reg_x = match x {
            Expression::Variable(var, _) => match self.parse_register(var.as_str()) {
                Ok(reg) => reg,
                Err(error) => {
                    return Err(error);
                },
            },
            _ => {
                return Err(unsupported_error(String::from_str("Draw x must be a register")));
            },
        };
        let reg_y = match y {
            Expression::Variable(var, _) => match self.parse_register(var.as_str()) {
                Ok(reg) => reg,
                Err(error) => {
                    return Err(error);
                },
            },
            _ => {
                return Err(unsupported_error(String::from_str("Draw y must be a register")));
            },
        };
        self.emit_instruction(0xD005 | ((reg_x as u16) << 8) | ((reg_y as u16) << 4));
        Ok(())
    }

    /// Lowers `clear()`.
    fn compile_clear_screen(&mut self)
        ensures
            final(self)@ == old(self)@.emit(0x00E0),
    {
        self.emit_instruction(0x00E0);
    }

    /// Lowers a jump to a label.
    fn compile_jump(&mut self, label: &str)
        ensures
            final(self)@ == old(self)@.lower_jump(label@),
    {
        match self.find_label(label) {
            Some(address) => {
                self.emit_jump(address);
            },
            None => {
                self.emit_pending_jump(PatchTarget::Label(String::from_str(label)));
            },
        }
    }

    /// The address of the youngest label of the given name.
    fn find_label(&self, name: &str) -> (address: Option<u16>)
        ensures
            address == self@.label_address(name@),
    {
        let mut k: usize = self.labels.len();
        assert(self@.labels.subrange(0, k as int) =~= self@.labels);
        while k > 0
            invariant
                k <= self.labels.len(),
                find_label(self@.labels, name@) == find_label(self@.labels.subrange(0, k as int), name@),
            decreases k,
        {
            let ghost upto = self@.labels.subrange(0, k as int);
            assert(upto.drop_last() =~= self@.labels.subrange(0, k - 1));
            assert(upto.last() == (self.labels@[k - 1].0@, self.labels@[k - 1].1));
            k -= 1;
            if self.labels[k].0.as_str().unicode_len() == name.unicode_len() && same_text(
                self.labels[k].0.as_str(),
                name,
            ) {
                return Some(self.labels[k].1);
            }
        }
        assert(self@.labels.subrange(0, 0) =~= Seq::empty());
        None
    }

    /// Sets a label at the current address and patches the jumps that wait
    /// for it.
    fn set_label(&mut self, name: &str)
        ensures
            final(self)@ == old(self)@.set_label(name@),
    {
        let mut waiting: Vec<Patch> = Vec::new();
        let target = self.current_address;
        let mut k: usize = 0;
        let ghost start = self@;
        assert(waiting@.map_values(|patch: Patch| patch@) =~= Seq::empty());
        while k < self.patches.len()
            invariant
                k <= self.patches.len(),
                start == old(self)@,
                target == start.address,
                self@.patches == start.patches,
                (Emitter { patches: waiting@.map_values(|patch: Patch| patch@), ..self@ })
                    == start.resolve(name@, k as nat),
            decreases self.patches.len() - k,
        {
            let at = self.patches[k].address;
            let ghost kept = waiting@.map_values(|patch: Patch| patch@);
            let waits = match &self.patches[k].target {
                PatchTarget::Label(label) => same_text(label.as_str(), name),
                PatchTarget::EndOfProgram => false,
            };
            if waits {
                self.patch_jump(at, target);
            } else {
                waiting.push(self.patches[k].clone());
                assert(waiting@.map_values(|patch: Patch| patch@) =~= kept.push(
                    start.patches[k as int],
                ));
            }
            k += 1;
        }
        let ghost resolved = start.resolve(name@, start.patches.len());
        self.patches = waiting;
        assert(self@ == resolved);
        self.labels.push((String::from_str(name), target));
        assert(self@.labels =~= resolved.labels.push((name@, target)));
    }

    /// The register that a variable names.
    fn parse_register(&self, name: &str) -> (result: Result<u8, CompileError>)
        ensures
            match register(name@) {
                Some(x) => result == Ok::<u8, CompileError>(x) && x < 16,
                None => result matches Err(error) && error@ == (CompileErrorView::UnknownRegister {
                    name: name@,
                }),
            },
    {
        if name.unicode_len() == 2 && name.get_char(0) == 'v' {
            match digit_of(name.get_char(1), 16) {
                Some(digit) => {
                    return Ok(digit as u8);
                },
                None => {},
            }
        }
        Err(unknown_register_error(name))
    }

    /// Appends one opcode, high byte first.
    fn emit_instruction(&mut self, instruction: u16)
        ensures
            final(self)@ == old(self)@.emit(instruction),
    {
        self.code.push((instruction / 256) as u8);
        self.code.push((instruction % 256) as u8);
        self.current_address = self.current_address.wrapping_add(2);
    }

    /// Appends a jump to `target`.
    fn emit_jump(&mut self, target: u16)
        ensures
            final(self)@ == old(self)@.emit(jump_op(target)),
    {
        self.emit_instruction(0x1000 + target % 0x1000);
    }

    /// Appends a jump whose target is not known yet and returns its address.
    fn emit_jump_placeholder(&mut self) -> (address: u16)
        ensures
            final(self)@ == old(self)@.emit_placeholder(),
            address == old(self)@.address,
    {
        let address = self.current_address;
        self.emit_instruction(0x1000);
        address
    }

    /// Appends a placeholder and enters it in the table of pending patches.
    fn emit_pending_jump(&mut self, target: PatchTarget)
        ensures
            final(self)@ == old(self)@.emit_pending(target@),
    {
        let address = self.emit_jump_placeholder();
        let ghost before = self@.patches;
        self.patches.push(Patch { address, target });
        assert(self@.patches =~= before.push(PatchView { address, target: target@ }));
    }

    /// Rewrites the placeholder at `placeholder_address` to jump to
    /// `target_address`; a placeholder outside the code is skipped and noted.
    fn patch_jump(&mut self, placeholder_address: u16, target_address: u16)
        ensures
            final(self)@ == old(self)@.patch(placeholder_address, target_address),
    {
        if placeholder_address < 0x200 {
            self.skipped.push(placeholder_address);
            return ;
        }
        let code_index: usize = (placeholder_address - 0x200) as usize;
        if code_index + 1 >= self.code.len() {
            self.skipped.push(placeholder_address);
            return ;
        }
        let instruction: u16 = 0x1000 + target_address % 0x1000;
        self.code[code_index] = (instruction / 256) as u8;
        self.code[code_index + 1] = (instruction % 256) as u8;
    }
}

/// Once a prefix of a block has failed, the block fails in the same way.
proof fn lemma_block_stops(state: Emitter, block: Seq<StatementView>, k: int)
    requires
        0 <= k <= block.len(),
        state.lower_block(block.subrange(0, k)).error is Some,
    ensures
        state.lower_block(block) == state.lower_block(block.subrange(0, k)),
    decreases block.len() - k,
{
    if k == block.len() {
        assert(block.subrange(0, k) =~= block);
    } else {
        assert(block.subrange(0, k + 1).drop_last() =~= block.subrange(0, k));
        lemma_block_stops(state, block, k + 1);
    }
}

} // verus!
