//! The syntax tree of the source language.

use vstd::prelude::*;
use crate::span::Span;

verus! {

/// A whole program: its statements in source order.
#[derive(Debug)]
pub struct Program {
    pub statements: Vec<Statement>,
}

/// One statement.
#[derive(Debug)]
pub enum Statement {
    /// Does nothing.
    Pass,
    /// `target = value`, where `target` names a register.
    Assign { target: String, value: Expression, span: Span },
    /// `print(x, y, 'c')`: draws the glyph of a hex digit at the coordinates
    /// held in two registers.
    Print { x: Expression, y: Expression, character: char, span: Span },
    /// `while condition:` followed by a block.
    While { condition: Condition, body: Vec<Statement>, span: Span },
    /// `for variable in range(start, end):` followed by a block; the range
    /// is half-open.
    For { variable: String, start: Expression, end: Expression, body: Vec<Statement>, span: Span },
    /// An unconditional jump to a label.
    Jump { label: String },
    /// A named position in the program.
    Label { name: String },
    /// `clear()`: blanks the display.
    ClearScreen,
    /// A pause of a number of frames.
    Delay { frames: Expression },
}

/// An expression.
#[derive(Debug)]
pub enum Expression {
    /// A number literal.
    Number(u16, Span),
    /// A variable, which names a register.
    Variable(String, Span),
    /// Two expressions joined by an operator.
    BinaryOp { left: Box<Expression>, op: BinaryOperator, right: Box<Expression>, span: Span },
}

/// The condition of a loop.
#[derive(Debug)]
pub enum Condition {
    /// Always holds.
    True,
    /// `left == right`
    Equal(Expression, Expression),
    /// `left != right`
    NotEqual(Expression, Expression),
    /// `left > right`
    Greater(Expression, Expression),
    /// `left < right`
    Less(Expression, Expression),
    /// Holds while the key that the expression names is down.
    KeyPressed(Expression),
}

/// A binary operator.
#[derive(Debug, Clone, Copy, PartialEq, Eq, Structural)]
pub enum BinaryOperator {
    Add,
    Subtract,
    Multiply,
    Or,
    And,
    Xor,
}

/// What an `Expression` stands for: the same tree with names as sequences
/// of characters.
pub enum ExpressionView {
    Number(u16, Span),
    Variable(Seq<char>, Span),
    BinaryOp { left: Box<ExpressionView>, op: BinaryOperator, right: Box<ExpressionView>, span: Span },
}

/// What a `Condition` stands for.
pub enum ConditionView {
    True,
    Equal(ExpressionView, ExpressionView),
    NotEqual(ExpressionView, ExpressionView),
    Greater(ExpressionView, ExpressionView),
    Less(ExpressionView, ExpressionView),
    KeyPressed(ExpressionView),
}

/// What a `Statement` stands for.
pub enum StatementView {
    Pass,
    Assign { target: Seq<char>, value: ExpressionView, span: Span },
    Print { x: ExpressionView, y: ExpressionView, character: char, span: Span },
    While { condition: ConditionView, body: Seq<StatementView>, span: Span },
    For {
        variable: Seq<char>,
        start: ExpressionView,
        end: ExpressionView,
        body: Seq<StatementView>,
        span: Span,
    },
    Jump { label: Seq<char> },
    Label { name: Seq<char> },
    ClearScreen,
    Delay { frames: ExpressionView },
}

/// What an expression stands for.
pub open spec fn expression_view(expression: Expression) -> ExpressionView
    decreases expression,
{
    match expression {
        Expression::Number(n, span) => ExpressionView::Number(n, span),
        Expression::Variable(name, span) => ExpressionView::Variable(name@, span),
        Expression::BinaryOp { left, op, right, span } => ExpressionView::BinaryOp {
            left: Box::new(expression_view(*left)),
            op,
            right: Box::new(expression_view(*right)),
            span,
        },
    }
}

impl View for Expression {
    type V = ExpressionView;

    open spec fn view(&self) -> ExpressionView {
        expression_view(*self)
    }
}

impl Clone for Expression {
    /// A copy that stands for the same expression.
    fn clone(&self) -> (copy: Expression)
        ensures
            copy@ == self@,
        decreases self,
    {
        match self {
            Expression::Number(n, span) => Expression::Number(*n, *span),
            Expression::Variable(name, span) => Expression::Variable(name.clone(), *span),
            Expression::BinaryOp { left, op, right, span } => {
                let left_copy: Expression = (**left).clone();
                let right_copy: Expression = (**right).clone();
                Expression::BinaryOp {
                    left: Box::new(left_copy),
                    op: *op,
                    right: Box::new(right_copy),
                    span: *span,
                }
            },
        }
    }
}

impl View for Condition {
    type V = ConditionView;

    open spec fn view(&self) -> ConditionView {
        match self {
            Condition::True => ConditionView::True,
            Condition::Equal(left, right) => ConditionView::Equal(left@, right@),
            Condition::NotEqual(left, right) => ConditionView::NotEqual(left@, right@),
            Condition::Greater(left, right) => ConditionView::Greater(left@, right@),
            Condition::Less(left, right) => ConditionView::Less(left@, right@),
            Condition::KeyPressed(key) => ConditionView::KeyPressed(key@),
        }
    }
}

/// What a block of statements stands for.
pub open spec fn block_view(block: Seq<Statement>) -> Seq<StatementView>
    decreases block, 0nat,
{
    Seq::new(
        block.len(),
        |k: int|
            if 0 <= k < block.len() {
                statement_view(block[k])
            } else {
                StatementView::Pass
            },
    )
}

/// What a statement stands for.
pub open spec fn statement_view(statement: Statement) -> StatementView
    decreases statement, 1nat,
{
    match statement {
        Statement::Pass => StatementView::Pass,
        Statement::Assign { target, value, span } => StatementView::Assign {
            target: target@,
            value: value@,
            span,
        },
        Statement::Print { x, y, character, span } => StatementView::Print {
            x: x@,
            y: y@,
            character,
            span,
        },
        Statement::While { condition, body, span } => StatementView::While {
            condition: condition@,
            body: block_view(body@),
            span,
        },
        Statement::For { variable, start, end, body, span } => StatementView::For {
            variable: variable@,
            start: start@,
            end: end@,
            body: block_view(body@),
            span,
        },
        Statement::Jump { label } => StatementView::Jump { label: label@ },
        Statement::Label { name } => StatementView::Label { name: name@ },
        Statement::ClearScreen => StatementView::ClearScreen,
        Statement::Delay { frames } => StatementView::Delay { frames: frames@ },
    }
}

impl Clone for Condition {
    /// A copy that stands for the same condition.
    fn clone(&self) -> (copy: Condition)
        ensures
            copy@ == self@,
    {
        match self {
            Condition::True => Condition::True,
            Condition::Equal(left, right) => Condition::Equal(left.clone(), right.clone()),
            Condition::NotEqual(left, right) => Condition::NotEqual(left.clone(), right.clone()),
            Condition::Greater(left, right) => Condition::Greater(left.clone(), right.clone()),
            Condition::Less(left, right) => Condition::Less(left.clone(), right.clone()),
            Condition::KeyPressed(key) => Condition::KeyPressed(key.clone()),
        }
    }
}

/// A copy of a block that stands for the same statements.
pub fn clone_block(block: &Vec<Statement>) -> (copy: Vec<Statement>)
    ensures
        block_view(copy@) == block_view(block@),
    decreases block, 0nat,
{
    let mut copy: Vec<Statement> = Vec::new();
    let mut k: usize = 0;
    while k < block.len()
        invariant
            k <= block.len(),
            copy.len() == k,
            forall|j: int| 0 <= j < k ==> copy@[j]@ == block@[j]@,
        decreases block.len() - k,
    {
        let statement = clone_statement(&block[k]);
        copy.push(statement);
        k += 1;
    }
    assert(block_view(copy@) =~= block_view(block@));
    copy
}

/// A copy of a statement that stands for the same statement.
pub fn clone_statement(statement: &Statement) -> (copy: Statement)
    ensures
        copy@ == statement@,
    decreases statement, 1nat,
{
    match statement {
        Statement::Pass => Statement::Pass,
        Statement::Assign { target, value, span } => Statement::Assign {
            target: target.clone(),
            value: value.clone(),
            span: *span,
        },
        Statement::Print { x, y, character, span } => Statement::Print {
            x: x.clone(),
            y: y.clone(),
            character: *character,
            span: *span,
        },
        Statement::While { condition, body, span } => Statement::While {
            condition: condition.clone(),
            body: clone_block(body),
            span: *span,
        },
        Statement::For { variable, start, end, body, span } => Statement::For {
            variable: variable.clone(),
            start: start.clone(),
            end: end.clone(),
            body: clone_block(body),
            span: *span,
        },
        Statement::Jump { label } => Statement::Jump { label: label.clone() },
        Statement::Label { name } => Statement::Label { name: name.clone() },
        Statement::ClearScreen => Statement::ClearScreen,
        Statement::Delay { frames } => Statement::Delay { frames: frames.clone() },
    }
}

impl Clone for Statement {
    /// A copy that stands for the same statement.
    fn clone(&self) -> (copy: Statement)
        ensures
            copy@ == self@,
    {
        clone_statement(self)
    }
}

impl Clone for Program {
    /// A copy that stands for the same program.
    fn clone(&self) -> (copy: Program)
        ensures
            copy@ == self@,
    {
        Program { statements: clone_block(&self.statements) }
    }
}

impl View for Statement {
    type V = StatementView;

    open spec fn view(&self) -> StatementView {
        statement_view(*self)
    }
}

impl View for Program {
    type V = Seq<StatementView>;

    open spec fn view(&self) -> Seq<StatementView> {
        block_view(self.statements@)
    }
}

} // verus!
