//! The code generator and the address space: as long as a program fits
//! between `0x200` and the end of the sixteen-bit address space, the
//! address that the generator keeps is the address of the next byte, every
//! placeholder that it patches lies within the code, and no patch is
//! skipped.

use vstd::prelude::*;
use crate::backends::emitter::{jump_op, op_xkk, op_xy, register, Emitter, PatchTargetView};
use crate::ir::ast::{BinaryOperator, ConditionView, ExpressionView, StatementView};

verus! {

impl Emitter {
    /// Whether the code ends below the end of the address space.
    pub open spec fn fits(self) -> bool {
        self.code.len() < 0xFE00
    }

    /// Whether the state is in order: the code is a whole number of
    /// opcodes that fits the address space, the address is that of the byte
    /// behind the code, and every pending placeholder lies within the code.
    #[verifier::opaque]
    pub open spec fn tidy(self) -> bool {
        &&& self.fits()
        &&& self.code.len() % 2 == 0
        &&& self.address == 0x200 + self.code.len()
        &&& forall|i: int| 0 <= i < self.patches.len() ==> self.in_code(#[trigger] self.patches[i].address)
    }

    /// Whether `later` continues `self` in good order: the code has not
    /// shrunk, and if `self` was in order and `later` still fits the address
    /// space, then `later` is in order too and no patch has been skipped on
    /// the way.
    pub open spec fn kept(self, later: Emitter) -> bool {
        &&& self.code.len() <= later.code.len()
        &&& self.tidy() && later.fits() ==> later.tidy() && later.skipped == self.skipped
    }
}

proof fn lemma_tidy_address(s: Emitter)
    requires
        s.tidy(),
    ensures
        s.fits(),
        s.address == 0x200 + s.code.len(),
{
    reveal(Emitter::tidy);
}

proof fn lemma_emit(s: Emitter, op: u16)
    ensures
        s.kept(s.emit(op)),
        s.emit(op).code.len() == s.code.len() + 2,
        s.emit(op).patches == s.patches,
{
    reveal(Emitter::tidy);
}

proof fn lemma_emit_pending(s: Emitter, target: PatchTargetView)
    ensures
        s.kept(s.emit_pending(target)),
{
    reveal(Emitter::tidy);
    let t = s.emit_pending(target);
    if s.tidy() && t.fits() {
        assert forall|i: int| 0 <= i < t.patches.len() implies t.in_code(
            #[trigger] t.patches[i].address,
        ) by {
            if i < s.patches.len() {
                assert(s.in_code(s.patches[i].address));
            }
        }
    }
}

proof fn lemma_patch(origin: Emitter, s: Emitter, at: u16, target: u16)
    requires
        origin.kept(s),
        origin.tidy() && s.fits() ==> s.in_code(at),
    ensures
        origin.kept(s.patch(at, target)),
        s.patch(at, target).code.len() == s.code.len(),
        s.patch(at, target).patches == s.patches,
        s.patch(at, target).address == s.address,
{
    reveal(Emitter::tidy);
    let t = s.patch(at, target);
    if origin.tidy() && s.fits() {
        assert forall|i: int| 0 <= i < t.patches.len() implies t.in_code(
            #[trigger] t.patches[i].address,
        ) by {
            assert(s.in_code(s.patches[i].address));
        }
    }
}

proof fn lemma_kept_chain(a: Emitter, b: Emitter, c: Emitter)
    requires
        a.kept(b),
        b.kept(c),
    ensures
        a.kept(c),
{
}

#[verifier::rlimit(30)]
proof fn lemma_resolve(s: Emitter, name: Seq<char>, n: nat)
    requires
        n <= s.patches.len(),
    ensures
        s.resolve(name, n).code.len() == s.code.len(),
        s.resolve(name, n).address == s.address,
        s.resolve(name, n).labels == s.labels,
        s.tidy() ==> s.resolve(name, n).tidy() && s.resolve(name, n).skipped == s.skipped,
    decreases n,
{
    reveal(Emitter::tidy);
    if n > 0 {
        lemma_resolve(s, name, (n - 1) as nat);
        let before = s.resolve(name, (n - 1) as nat);
        let patch = s.patches[n - 1];
        if s.tidy() {
            assert(s.in_code(patch.address));
            if patch.target == PatchTargetView::Label(name) {
                lemma_patch(before, before, patch.address, s.address);
            } else {
                let after = Emitter { patches: before.patches.push(patch), ..before };
                assert forall|i: int| 0 <= i < after.patches.len() implies after.in_code(
                    #[trigger] after.patches[i].address,
                ) by {
                    if i < before.patches.len() {
                        assert(before.in_code(before.patches[i].address));
                    }
                }
            }
        } else if patch.target == PatchTargetView::Label(name) {
        }
    }
}

proof fn lemma_set_label(s: Emitter, name: Seq<char>)
    ensures
        s.kept(s.set_label(name)),
{
    reveal(Emitter::tidy);
    lemma_resolve(s, name, s.patches.len());
    let resolved = s.resolve(name, s.patches.len());
    let t = s.set_label(name);
    if s.tidy() {
        assert forall|i: int| 0 <= i < t.patches.len() implies t.in_code(
            #[trigger] t.patches[i].address,
        ) by {
            assert(resolved.in_code(resolved.patches[i].address));
        }
    }
}

proof fn lemma_patch_pending(s: Emitter, target: u16, n: nat)
    requires
        n <= s.patches.len(),
    ensures
        s.kept(s.patch_pending(target, n)),
        s.patch_pending(target, n).code.len() == s.code.len(),
        s.patch_pending(target, n).patches == s.patches,
        s.patch_pending(target, n).address == s.address,
    decreases n,
{
    if n > 0 {
        lemma_patch_pending(s, target, (n - 1) as nat);
        let before = s.patch_pending(target, (n - 1) as nat);
        if s.tidy() {
            assert(s.in_code(s.patches[n - 1].address)) by {
                reveal(Emitter::tidy);
            }
        }
        lemma_patch(s, before, s.patches[n - 1].address, target);
    }
}

proof fn lemma_finish(s: Emitter)
    ensures
        s.kept(s.finish()),
{
    let halted = s.emit(crate::backends::emitter::halt_op());
    lemma_emit(s, crate::backends::emitter::halt_op());
    lemma_patch_pending(halted, halted.address, halted.patches.len());
    lemma_kept_chain(s, halted, halted.patch_pending(halted.address, halted.patches.len()));
}

proof fn lemma_lower_binary_op(
    s: Emitter,
    target: Seq<char>,
    left: ExpressionView,
    op: BinaryOperator,
    right: ExpressionView,
)
    ensures
        s.kept(s.lower_binary_op(target, left, op, right).state),
{
    reveal(Emitter::tidy);
}

proof fn lemma_lower_assign(s: Emitter, target: Seq<char>, value: ExpressionView)
    ensures
        s.kept(s.lower_assign(target, value).state),
{
    match value {
        ExpressionView::BinaryOp { left, op, right, .. } => {
            lemma_lower_binary_op(s, target, *left, op, *right);
        },
        _ => {
            reveal(Emitter::tidy);
        },
    }
}

proof fn lemma_lower_draw_char(s: Emitter, x: ExpressionView, y: ExpressionView, character: char)
    ensures
        s.kept(s.lower_draw_char(x, y, character).state),
{
    reveal(Emitter::tidy);
}

proof fn lemma_lower_condition(s: Emitter, condition: ConditionView, jump_on_false: bool)
    ensures
        s.kept(s.lower_condition(condition, jump_on_false).state),
{
    match condition {
        ConditionView::Equal(left, right) => {
            lemma_lower_equality_check(s, left, right, !jump_on_false);
        },
        ConditionView::NotEqual(left, right) => {
            lemma_lower_equality_check(s, left, right, jump_on_false);
        },
        ConditionView::Greater(left, right) => {
            lemma_lower_greater_check(s, left, right, jump_on_false);
        },
        _ => {},
    }
}

proof fn lemma_lower_equality_check(
    s: Emitter,
    left: ExpressionView,
    right: ExpressionView,
    skip_on_equal: bool,
)
    ensures
        s.kept(s.lower_equality_check(left, right, skip_on_equal).state),
{
    let group: u16 = if skip_on_equal {
        0x3000
    } else {
        0x4000
    };
    let pair: u16 = if skip_on_equal {
        0x5000
    } else {
        0x9000
    };
    match (left, right) {
        (ExpressionView::Variable(l, _), ExpressionView::Number(n, _)) => {
            if register(l) is Some {
                let compared = s.emit(op_xkk(group, register(l)->0, n));
                lemma_emit(s, op_xkk(group, register(l)->0, n));
                lemma_emit_pending(compared, PatchTargetView::EndOfProgram);
            }
        },
        (ExpressionView::Variable(l, _), ExpressionView::Variable(r, _)) => {
            if register(l) is Some && register(r) is Some {
                let compared = s.emit(op_xy(pair, register(l)->0, register(r)->0));
                lemma_emit(s, op_xy(pair, register(l)->0, register(r)->0));
                lemma_emit_pending(compared, PatchTargetView::EndOfProgram);
            }
        },
        _ => {},
    }
}

proof fn lemma_lower_greater_check(
    s: Emitter,
    left: ExpressionView,
    right: ExpressionView,
    skip_on_flag: bool,
)
    ensures
        s.kept(s.lower_greater_check(left, right, skip_on_flag).state),
{
    match (left, right) {
        (ExpressionView::Variable(l, _), ExpressionView::Number(n, _)) => {
            if register(l) is Some {
                let flag: u16 = if skip_on_flag {
                    1
                } else {
                    0
                };
                let loaded = s.emit(op_xkk(0x6000, 0xE, n));
                let compared = loaded.emit(op_xy(0x8005, register(l)->0, 0xE));
                let tested = compared.emit(op_xkk(0x3000, 0xF, flag));
                lemma_emit(s, op_xkk(0x6000, 0xE, n));
                lemma_emit(loaded, op_xy(0x8005, register(l)->0, 0xE));
                lemma_emit(compared, op_xkk(0x3000, 0xF, flag));
                lemma_emit_pending(tested, PatchTargetView::EndOfProgram);
            }
        },
        _ => {},
    }
}

proof fn lemma_lower_bound(s: Emitter, end: ExpressionView)
    ensures
        s.kept(s.lower_bound(end).state),
{
    reveal(Emitter::tidy);
}

proof fn lemma_lower_jump(s: Emitter, label: Seq<char>)
    ensures
        s.kept(s.lower_jump(label)),
{
    match s.label_address(label) {
        None => {
            lemma_emit_pending(s, PatchTargetView::Label(label));
        },
        Some(address) => {
            lemma_emit(s, jump_op(address));
        },
    }
}

proof fn lemma_lower_block(s: Emitter, block: Seq<StatementView>)
    ensures
        s.kept(s.lower_block(block).state),
    decreases block, 0nat,
{
    if block.len() > 0 {
        lemma_lower_block(s, block.drop_last());
        let before = s.lower_block(block.drop_last());
        if before.error is None {
            lemma_lower_statement(before.state, block.last());
        }
    }
}

#[verifier::rlimit(30)]
proof fn lemma_lower_while(s: Emitter, condition: ConditionView, body: Seq<StatementView>)
    ensures
        s.kept(s.lower_while(condition, body).state),
    decreases body, 1nat,
{
    if condition is True {
        lemma_lower_block(s, body);
        let inner = s.lower_block(body);
        if inner.error is None {
            lemma_emit(inner.state, jump_op(s.address));
            lemma_kept_chain(s, inner.state, inner.state.emit(jump_op(s.address)));
        }
    } else {
        lemma_lower_condition(s, condition, true);
        let tested = s.lower_condition(condition, true);
        if tested.error is None {
            let opened = tested.state.emit_placeholder();
            lemma_emit(tested.state, 0x1000);
            lemma_lower_block(opened, body);
            let inner = opened.lower_block(body);
            if inner.error is None {
                let looped = inner.state.emit(jump_op(s.address));
                lemma_emit(inner.state, jump_op(s.address));
                lemma_loop_closes(s, tested.state, opened, inner.state, looped);
            }
        }
    }
}

/// The last step of a loop: the placeholder that was emitted at `opened`
/// is patched when the state is `looped`.
proof fn lemma_loop_closes(s: Emitter, before: Emitter, opened: Emitter, inner: Emitter, looped: Emitter)
    requires
        s.kept(before),
        before.kept(opened),
        opened.kept(inner),
        inner.kept(looped),
        opened.code.len() == before.code.len() + 2,
    ensures
        s.kept(looped.patch(before.address, looped.address)),
{
    lemma_kept_chain(s, before, opened);
    lemma_kept_chain(s, opened, inner);
    lemma_kept_chain(s, inner, looped);
    if s.tidy() && looped.fits() {
        lemma_tidy_address(before);
    }
    lemma_patch(s, looped, before.address, looped.address);
}

#[verifier::rlimit(30)]
proof fn lemma_lower_for(
    s: Emitter,
    variable: Seq<char>,
    start: ExpressionView,
    end: ExpressionView,
    body: Seq<StatementView>,
)
    ensures
        s.kept(s.lower_for(variable, start, end, body).state),
    decreases body, 1nat,
{
    if register(variable) is Some {
        let counter = register(variable)->0;
        lemma_lower_assign(s, variable, start);
        let set = s.lower_assign(variable, start);
        if set.error is None {
            lemma_lower_bound(set.state, end);
            let bound = set.state.lower_bound(end);
            if bound.error is None {
                let compared = bound.state.emit(op_xy(0x8005, counter, 0xE));
                let tested = compared.emit(op_xkk(0x3000, 0xF, 1));
                lemma_emit(bound.state, op_xy(0x8005, counter, 0xE));
                lemma_emit(compared, op_xkk(0x3000, 0xF, 1));
                let opened = tested.emit_placeholder();
                lemma_emit(tested, 0x1000);
                lemma_lower_block(opened, body);
                let inner = opened.lower_block(body);
                if inner.error is None {
                    let counted = inner.state.emit(op_xkk(0x7000, counter, 1));
                    let looped = counted.emit(jump_op(set.state.address));
                    lemma_emit(inner.state, op_xkk(0x7000, counter, 1));
                    lemma_emit(counted, jump_op(set.state.address));
                    lemma_kept_chain(s, set.state, bound.state);
                    lemma_kept_chain(s, bound.state, compared);
                    lemma_kept_chain(s, compared, tested);
                    lemma_kept_chain(inner.state, counted, looped);
                    lemma_loop_closes(s, tested, opened, inner.state, looped);
                }
            }
        }
    }
}

#[verifier::rlimit(30)]
proof fn lemma_lower_statement(s: Emitter, statement: StatementView)
    ensures
        s.kept(s.lower_statement(statement).state),
    decreases statement, 2nat,
{
    match statement {
        StatementView::Assign { target, value, .. } => {
            lemma_lower_assign(s, target, value);
        },
        StatementView::Print { x, y, character, .. } => {
            lemma_lower_draw_char(s, x, y, character);
        },
        StatementView::Label { name } => {
            lemma_set_label(s, name);
        },
        StatementView::Jump { label } => {
            lemma_lower_jump(s, label);
        },
        StatementView::While { condition, body, .. } => {
            lemma_lower_while(s, condition, body);
        },
        StatementView::For { variable, start, end, body, .. } => {
            lemma_lower_for(s, variable, start, end, body);
        },
        StatementView::ClearScreen => {
            lemma_emit(s, crate::backends::emitter::clear_op());
        },
        StatementView::Pass => {},
        StatementView::Delay { .. } => {},
    }
}

/// A program that fits the address space is lowered in good order: if the
/// state before was in order and the code behind the program still ends
/// below the end of the address space, the state behind it is in order and
/// no patch has been skipped. Whether or not it fits, code is never taken
/// back.
pub proof fn lemma_lowering_keeps_order(s: Emitter, program: Seq<StatementView>)
    ensures
        s.kept(s.lower_program(program).state),
{
    lemma_lower_block(s, program);
    let lowered = s.lower_block(program);
    if lowered.error is None {
        lemma_finish(lowered.state);
    }
}

/// A fresh backend is in order, so the code of a program that it lowers to
/// fewer than 65024 bytes has no patch skipped.
pub proof fn lemma_fresh_lowering_skips_nothing(program: Seq<StatementView>)
    requires
        Emitter::new().lower_program(program).state.fits(),
    ensures
        Emitter::new().lower_program(program).state.tidy(),
        Emitter::new().lower_program(program).state.skipped == Seq::<u16>::empty(),
{
    assert(Emitter::new().tidy()) by {
        reveal(Emitter::tidy);
    }
    lemma_lowering_keeps_order(Emitter::new(), program);
}

} // verus!
