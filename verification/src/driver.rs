//! One frame of emulation: what the interpreter does between two visits of
//! the host to its window.
//!
//! The host owns the window, the clock and the loop. Once per frame it hands
//! the keys that are down to `run_frame`, which advances the machine and
//! says what the host has to do next.

use vstd::prelude::*;
use minifb::Key;
use crate::cpu::CPU;
use crate::display::colour;
use crate::keyboard::{key_code, keypad_state};
use crate::machine::{Machine, RuntimeNotice};

verus! {

/// What the host has to do after a frame.
pub struct FrameOutput {
    /// The picture to present, if the display has changed since the last
    /// frame that was presented.
    pub frame: Option<Vec<u32>>,
    /// Whether to sound the beeper.
    pub beep: bool,
    /// The diagnostics that the frame's interpreter steps raised, in order.
    pub notices: Vec<RuntimeNotice>,
    /// Whether the machine is still running; the host stops when it is not.
    pub running: bool,
}

/// The machine as it is after the interpreter work of a frame and before the
/// picture is handed to the host: the keypad replaced by the host's
/// snapshot, `cycles` interpreter steps, one tick of the timers if `tick`
/// holds, and a key handed to a waiting interpreter.
pub open spec fn frame_work(m: Machine, keys: Seq<bool>, cycles: nat, tick: bool) -> Machine {
    let ran = (Machine { keys: keys, ..m }).steps(cycles);
    let ticked = if tick {
        ran.tick()
    } else {
        ran
    };
    ticked.deliver_key()
}

/// The machine at the end of a frame: the work of the frame is done and the
/// picture, if it had changed, has been handed over.
pub open spec fn frame_end(m: Machine, keys: Seq<bool>, cycles: nat, tick: bool) -> Machine {
    Machine { needs_redraw: false, ..frame_work(m, keys, cycles, tick) }
}

/// Whether the beeper sounds in a frame: the timers tick and the sound timer
/// reaches zero.
pub open spec fn frame_beeps(m: Machine, keys: Seq<bool>, cycles: nat, tick: bool) -> bool {
    tick && (Machine { keys: keys, ..m }).steps(cycles).beeps()
}

/// Runs `n` interpreter steps and collects what they report.
pub fn run_cycles(cpu: &mut CPU, n: usize) -> (notices: Vec<RuntimeNotice>)
    requires
        old(cpu).wf(),
    ensures
        final(cpu)@ == old(cpu)@.steps(n as nat),
        notices@ == old(cpu)@.notices(n as nat),
        final(cpu).wf(),
{
    let mut notices: Vec<RuntimeNotice> = Vec::new();
    let mut k: usize = 0;
    while k < n
        invariant
            k <= n,
            cpu.wf(),
            cpu@ == old(cpu)@.steps(k as nat),
            notices@ == old(cpu)@.notices(k as nat),
        decreases n - k,
    {
        if let Some(notice) = cpu.cycle() {
            notices.push(notice);
        }
        k += 1;
    }
    notices
}

/// Advances the machine by one frame.
///
/// `keys` are the host keys that are down, `cycles` is the number of
/// interpreter steps to run, and `tick` tells whether a sixtieth of a second
/// has passed since the timers last ticked.
pub fn run_frame(cpu: &mut CPU, keys: &[Key], cycles: usize, tick: bool) -> (output: FrameOutput)
    requires
        old(cpu).wf(),
    ensures
        final(cpu).wf(),
        ({
            let pad = keypad_state(keys@.map_values(|key: Key| key_code(key)));
            let work = frame_work(old(cpu)@, pad, cycles as nat, tick);
            &&& final(cpu)@ == frame_end(old(cpu)@, pad, cycles as nat, tick)
            &&& output.notices@ == (Machine { keys: pad, ..old(cpu)@ }).notices(cycles as nat)
            &&& output.beep == frame_beeps(old(cpu)@, pad, cycles as nat, tick)
            &&& output.running == work.running
            &&& output.frame is Some == work.needs_redraw
            &&& output.frame matches Some(buffer) ==> buffer@ == work.pixels.map_values(
                |on: bool| colour(on),
            )
        }),
{
    cpu.keyboard.update_from_minifb(keys);
    proof {
        cpu.keyboard.lemma_sixteen_keys();
    }
    let notices = run_cycles(cpu, cycles);
    let beep = if tick {
        cpu.update_timers()
    } else {
        false
    };
    let _ = cpu.deliver_key();
    let frame = if cpu.display.needs_redraw {
        let buffer = cpu.display.to_buffer();
        cpu.display.needs_redraw = false;
        Some(buffer)
    } else {
        None
    };
    FrameOutput { frame, beep, notices, running: cpu.running }
}

} // verus!
