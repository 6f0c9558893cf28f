//! Laws of the instruction set, proved over the model of the machine.

use vstd::prelude::*;
use crate::constants::font_set;
use crate::display::lemma_drawn_len;
use crate::machine::{cell, Machine};

verus! {

/// Drawing keeps the machine in shape.
proof fn lemma_draw_keeps_shape(m: Machine, x: int, y: int, n: int)
    requires
        m.wf(),
        0 <= x < 16,
        0 <= y < 16,
        0 <= n < 16,
    ensures
        m.op_dxyn(x, y, n).wf(),
{
    lemma_drawn_len(m.pixels, m.v[x], m.v[y], m.sprite(n));
}

/// The arithmetic group keeps the machine in shape.
proof fn lemma_alu_keeps_shape(m: Machine, x: int, y: int, n: int)
    requires
        m.wf(),
        0 <= x < 16,
        0 <= y < 16,
    ensures
        m.alu(x, y, n) matches Some(next) ==> next.wf(),
{
}

/// The group `Fxkk` keeps the machine in shape.
proof fn lemma_misc_keeps_shape(m: Machine, x: int, kk: u8)
    requires
        m.wf(),
        0 <= x < 16,
    ensures
        m.misc(x, kk) matches Some(next) ==> next.wf(),
{
}

/// Every instruction keeps the machine in shape: whatever word is executed,
/// the stack pointer stays within the stack, a pending key press names a
/// register, and memory, registers and display keep their size.
#[verifier::rlimit(50)]
pub proof fn lemma_execute_keeps_shape(m: Machine, opcode: u16)
    requires
        m.wf(),
    ensures
        m.execute(opcode).wf(),
{
    let x = crate::machine::op_x(opcode);
    let y = crate::machine::op_y(opcode);
    let n = crate::machine::op_n(opcode);
    let kk = crate::machine::op_kk(opcode);
    lemma_draw_keeps_shape(m, x, y, n);
    lemma_alu_keeps_shape(m, x, y, n);
    lemma_misc_keeps_shape(m, x, kk);
}

/// Every step keeps the machine in shape, and so does any number of steps.
pub proof fn lemma_steps_keep_shape(m: Machine, n: nat)
    requires
        m.wf(),
    ensures
        m.step().wf(),
        m.steps(n).wf(),
    decreases n,
{
    lemma_execute_keeps_shape(m.skip(), m.fetch());
    if n > 0 {
        lemma_steps_keep_shape(m, (n - 1) as nat);
        let before = m.steps((n - 1) as nat);
        lemma_execute_keeps_shape(before.skip(), before.fetch());
    }
}

/// Loading a program of at most 3584 bytes into a machine that has just been
/// switched on puts the program at `0x200`, keeps the font at `0x050`, and
/// leaves the program counter at `0x200`, the stack empty and all registers
/// zero.
pub proof fn lemma_load_into_fresh_machine(rom: Seq<u8>)
    requires
        rom.len() <= 3584,
    ensures
        ({
            let m = Machine::fresh().load(rom);
            &&& m.wf()
            &&& m.memory.subrange(0x200, 0x200 + rom.len() as int) == rom
            &&& m.memory.subrange(0x050, 0x0A0) == font_set()
            &&& m.pc == 0x200
            &&& m.sp == 0
            &&& m.i == 0
            &&& forall|k: int| 0 <= k < 16 ==> m.v[k] == 0
        }),
{
    let m = Machine::fresh().load(rom);
    assert(m.memory.subrange(0x200, 0x200 + rom.len() as int) =~= rom);
    assert(m.memory.subrange(0x050, 0x0A0) =~= font_set());
}

/// The return addresses that are on the call stack, oldest first.
pub open spec fn call_stack(m: Machine) -> Seq<u16> {
    m.stack.subrange(0, m.sp as int)
}

/// A call on a stack that is not full pushes the program counter and jumps.
pub proof fn lemma_call_pushes(m: Machine, nnn: u16)
    requires
        m.wf(),
        m.sp < 16,
    ensures
        m.op_2nnn(nnn).wf(),
        call_stack(m.op_2nnn(nnn)) == call_stack(m).push(m.pc),
        m.op_2nnn(nnn).pc == nnn,
{
    assert(call_stack(m.op_2nnn(nnn)) =~= call_stack(m).push(m.pc));
}

/// A return on a stack that is not empty pops the youngest return address
/// into the program counter.
pub proof fn lemma_return_pops(m: Machine)
    requires
        m.wf(),
        m.sp > 0,
    ensures
        m.op_00ee().wf(),
        call_stack(m.op_00ee()) == call_stack(m).drop_last(),
        m.op_00ee().pc == call_stack(m).last(),
{
    assert(call_stack(m.op_00ee()) =~= call_stack(m).drop_last());
}

/// The machine after a chain of nested calls. Call `k` is executed when the
/// program counter, already past the call instruction, is `frames[k].0`, and
/// jumps to `frames[k].1`.
pub open spec fn after_calls(m: Machine, frames: Seq<(u16, u16)>) -> Machine
    decreases frames.len(),
{
    if frames.len() == 0 {
        m
    } else {
        let before = after_calls(m, frames.drop_last());
        (Machine { pc: frames.last().0, ..before }).op_2nnn(frames.last().1)
    }
}

/// The machine after `n` returns in a row.
pub open spec fn after_returns(m: Machine, n: nat) -> Machine
    decreases n,
{
    if n == 0 {
        m
    } else {
        after_returns(m, (n - 1) as nat).op_00ee()
    }
}

proof fn lemma_after_calls(m: Machine, frames: Seq<(u16, u16)>)
    requires
        m.wf(),
        m.sp + frames.len() <= 16,
    ensures
        after_calls(m, frames).wf(),
        call_stack(after_calls(m, frames)) == call_stack(m) + frames.map_values(
            |f: (u16, u16)| f.0,
        ),
    decreases frames.len(),
{
    if frames.len() == 0 {
        assert(call_stack(m) + frames.map_values(|f: (u16, u16)| f.0) =~= call_stack(m));
    } else {
        let rest = frames.drop_last();
        lemma_after_calls(m, rest);
        let before = after_calls(m, rest);
        let at_call = Machine { pc: frames.last().0, ..before };
        assert(call_stack(at_call) == call_stack(before));
        assert(call_stack(before).len() == m.sp + rest.len());
        lemma_call_pushes(at_call, frames.last().1);
        assert(call_stack(m) + frames.map_values(|f: (u16, u16)| f.0) =~= (call_stack(m)
            + rest.map_values(|f: (u16, u16)| f.0)).push(frames.last().0));
    }
}

proof fn lemma_after_returns(m: Machine, n: nat)
    requires
        m.wf(),
        n <= m.sp,
    ensures
        after_returns(m, n).wf(),
        call_stack(after_returns(m, n)) == call_stack(m).subrange(0, m.sp - n),
        n > 0 ==> after_returns(m, n).pc == call_stack(m)[m.sp - n],
    decreases n,
{
    if n == 0 {
        assert(call_stack(m).subrange(0, m.sp as int) =~= call_stack(m));
    } else {
        lemma_after_returns(m, (n - 1) as nat);
        let before = after_returns(m, (n - 1) as nat);
        assert(call_stack(before).len() == m.sp - n + 1);
        lemma_return_pops(before);
        assert(call_stack(before).drop_last() =~= call_stack(m).subrange(0, m.sp - n));
    }
}

/// Calls and returns match like brackets: after a chain of nested calls that
/// fits on the stack, the `j`-th return in a row comes back to the
/// instruction after the `j`-th youngest call, and once every call has
/// returned the call stack is what it was before the first one.
pub proof fn lemma_returns_match_calls(m: Machine, frames: Seq<(u16, u16)>, j: nat)
    requires
        m.wf(),
        m.sp + frames.len() <= 16,
        1 <= j <= frames.len(),
    ensures
        after_returns(after_calls(m, frames), j).pc == frames[frames.len() - j].0,
        call_stack(after_returns(after_calls(m, frames), frames.len())) == call_stack(m),
{
    lemma_after_calls(m, frames);
    let called = after_calls(m, frames);
    assert(call_stack(called).len() == m.sp + frames.len());
    lemma_after_returns(called, j);
    lemma_after_returns(called, frames.len());
    assert(call_stack(called).subrange(0, m.sp as int) =~= call_stack(m));
}

/// The three bytes that the decimal-conversion instruction writes are the
/// decimal digits of the register: each is at most nine, and the hundreds,
/// tens and units add up to the register's value.
pub proof fn lemma_bcd_digits(m: Machine, x: int)
    requires
        m.wf(),
        0 <= x < 16,
    ensures
        ({
            let after = m.op_fx33(x).memory;
            let a = after[cell(m.i as int)];
            let b = after[cell(m.i + 1)];
            let c = after[cell(m.i + 2)];
            &&& a <= 9 && b <= 9 && c <= 9
            &&& 100 * a + 10 * b + c == m.v[x]
        }),
{
}

/// Storing the registers `V0` to `Vx` and loading them again from the same
/// address restores them exactly, whatever happened to the registers in
/// between.
pub proof fn lemma_store_then_load(m: Machine, x: int, clobbered: Seq<u8>)
    requires
        m.wf(),
        0 <= x < 16,
        clobbered.len() == 16,
    ensures
        ({
            let stored = m.op_fx55(x);
            let reloaded = (Machine { v: clobbered, ..stored }).op_fx65(x);
            &&& reloaded.v.subrange(0, x + 1) == m.v.subrange(0, x + 1)
            &&& reloaded.v.subrange(x + 1, 16) == clobbered.subrange(x + 1, 16)
        }),
{
    let stored = m.op_fx55(x);
    let reloaded = (Machine { v: clobbered, ..stored }).op_fx65(x);
    assert forall|k: int| 0 <= k <= x implies reloaded.v[k] == m.v[k] by {
        let a = cell(m.i + k);
        assert((a - m.i) % 4096 == k);
    }
    assert(reloaded.v.subrange(0, x + 1) =~= m.v.subrange(0, x + 1));
    assert(reloaded.v.subrange(x + 1, 16) =~= clobbered.subrange(x + 1, 16));
}

/// After `n` ticks each timer has gone down by `n`, but not below zero.
pub proof fn lemma_ticks(m: Machine, n: nat)
    ensures
        m.ticks(n).delay == (if m.delay >= n {
            m.delay - n
        } else {
            0
        }),
        m.ticks(n).sound == (if m.sound >= n {
            m.sound - n
        } else {
            0
        }),
    decreases n,
{
    if n > 0 {
        lemma_ticks(m, (n - 1) as nat);
    }
}

/// A delay timer that holds `T` is zero after exactly `T` ticks and stays
/// zero at the next one.
pub proof fn lemma_delay_timer_runs_out(m: Machine)
    ensures
        m.ticks(m.delay as nat).delay == 0,
        m.ticks((m.delay + 1) as nat).delay == 0,
        forall|n: nat| n < m.delay ==> #[trigger] m.ticks(n).delay > 0,
{
    lemma_ticks(m, m.delay as nat);
    lemma_ticks(m, (m.delay + 1) as nat);
    assert forall|n: nat| n < m.delay implies #[trigger] m.ticks(n).delay > 0 by {
        lemma_ticks(m, n);
    }
}

/// A machine whose program counter points at a jump to that same address
/// stays there: every step leaves the whole state unchanged.
pub proof fn lemma_jump_to_self_loops(m: Machine, n: nat)
    requires
        m.wf(),
        m.active(),
        m.pc < 0x1000,
        m.fetch() == 0x1000 + m.pc,
    ensures
        m.steps(n) == m,
    decreases n,
{
    if n > 0 {
        lemma_jump_to_self_loops(m, (n - 1) as nat);
        assert(m.step() =~= m);
    }
}

} // verus!
