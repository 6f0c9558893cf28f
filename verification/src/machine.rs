//! The mathematical model of the CHIP-8 machine: its state, the effect of
//! every instruction, and what one interpreter step does.
//!
//! The executable `CPU` is specified against this model; laws about the
//! instruction set are stated and proved here.

use vstd::prelude::*;
use crate::constants::font_set;
use crate::display::{collides, drawn, grid_len};
use crate::keyboard::lowest_pressed;

verus! {

/// A diagnostic that a step may raise. None of them stops the machine:
/// execution goes on from the program counter as it stands after the fetch.
#[derive(Clone, Copy, Debug, PartialEq, Eq, Structural)]
pub enum RuntimeNotice {
    /// The fetched word is not an instruction; it was skipped.
    UnknownOpcode { opcode: u16 },
    /// A return was executed with an empty call stack; nothing was popped.
    StackUnderflow,
    /// A call was executed with a full call stack; nothing was pushed and the
    /// jump was not taken.
    StackOverflow,
}

/// The complete state of the machine.
#[verifier::ext_equal]
pub struct Machine {
    /// The registers `V0` to `VF`.
    pub v: Seq<u8>,
    /// The index register `I`.
    pub i: u16,
    /// The program counter.
    pub pc: u16,
    /// The sixteen slots of the call stack.
    pub stack: Seq<u16>,
    /// The number of return addresses on the call stack; the next free slot.
    pub sp: u8,
    /// The 4096 bytes of memory.
    pub memory: Seq<u8>,
    /// The delay timer.
    pub delay: u8,
    /// The sound timer.
    pub sound: u8,
    /// The display in row-major order.
    pub pixels: Seq<bool>,
    /// Whether the display has changed since the host last presented it.
    pub needs_redraw: bool,
    /// The keypad: element `k` tells whether key `k` is down.
    pub keys: Seq<bool>,
    /// The register that waits for a key press, if the machine is suspended.
    pub waiting: Option<usize>,
    /// Cleared by the halt instruction.
    pub running: bool,
}

/// The memory cell that an address refers to: only the low twelve bits of an
/// address are significant, so addresses wrap at the end of memory.
pub open spec fn cell(address: int) -> int {
    address % 4096
}

/// A sixteen-bit value after an addition, which wraps.
pub open spec fn wrap16(value: int) -> u16 {
    (value % 0x10000) as u16
}

/// An eight-bit value after an addition or subtraction, which wraps.
pub open spec fn wrap8(value: int) -> u8 {
    (value % 0x100) as u8
}

/// `1` for `true` and `0` for `false`, as the flag register holds it.
pub open spec fn flag(b: bool) -> u8 {
    if b {
        1
    } else {
        0
    }
}

/// The leading nibble of an opcode, which selects the instruction group.
pub open spec fn op_group(opcode: u16) -> int {
    opcode as int / 0x1000
}

/// The second nibble of an opcode: the register index `x`.
pub open spec fn op_x(opcode: u16) -> int {
    (opcode as int / 0x100) % 16
}

/// The third nibble of an opcode: the register index `y`.
pub open spec fn op_y(opcode: u16) -> int {
    (opcode as int / 0x10) % 16
}

/// The last nibble of an opcode: the four-bit immediate `n`.
pub open spec fn op_n(opcode: u16) -> int {
    opcode as int % 16
}

/// The low byte of an opcode: the eight-bit immediate `kk`.
pub open spec fn op_kk(opcode: u16) -> u8 {
    (opcode as int % 0x100) as u8
}

/// The low twelve bits of an opcode: the address `nnn`.
pub open spec fn op_nnn(opcode: u16) -> u16 {
    (opcode as int % 0x1000) as u16
}

impl Machine {
    /// The shape that every machine state has.
    pub open spec fn wf(self) -> bool {
        &&& self.v.len() == 16
        &&& self.stack.len() == 16
        &&& self.memory.len() == 4096
        &&& self.pixels.len() == grid_len()
        &&& self.keys.len() == 16
        &&& self.sp <= 16
        &&& (self.waiting matches Some(x) ==> x < 16)
    }

    /// The machine as it is switched on: everything zero, the font in place,
    /// the program counter at the start of program memory.
    pub open spec fn fresh() -> Machine {
        Machine {
            v: Seq::new(16, |k: int| 0u8),
            i: 0,
            pc: 0x200,
            stack: Seq::new(16, |k: int| 0u16),
            sp: 0,
            memory: Seq::new(
                4096,
                |a: int|
                    if 0x50 <= a < 0xA0 {
                        font_set()[a - 0x50]
                    } else {
                        0u8
                    },
            ),
            delay: 0,
            sound: 0,
            pixels: Seq::new(grid_len(), |p: int| false),
            needs_redraw: true,
            keys: Seq::new(16, |k: int| false),
            waiting: None,
            running: true,
        }
    }

    /// The machine after `rom` has been copied to the start of program
    /// memory. Memory beyond the program is left as it was.
    pub open spec fn load(self, rom: Seq<u8>) -> Machine {
        Machine {
            memory: Seq::new(
                4096,
                |a: int|
                    if 0x200 <= a < 0x200 + rom.len() {
                        rom[a - 0x200]
                    } else {
                        self.memory[a]
                    },
            ),
            ..self
        }
    }

    /// The word at the program counter, high byte first.
    pub open spec fn fetch(self) -> u16 {
        (self.memory[cell(self.pc as int)] as int * 256 + self.memory[cell(self.pc + 1)] as int) as u16
    }

    /// The program counter moved past the next instruction.
    pub open spec fn skip(self) -> Machine {
        Machine { pc: wrap16(self.pc + 2), ..self }
    }

    /// The program counter moved past the next instruction if `taken` holds.
    pub open spec fn skip_if(self, taken: bool) -> Machine {
        if taken {
            self.skip()
        } else {
            self
        }
    }

    /// Register `x` set to `value`.
    pub open spec fn set_v(self, x: int, value: u8) -> Machine {
        Machine { v: self.v.update(x, value), ..self }
    }

    /// Register `x` set to `value` and then the flag register set to `vf`, in
    /// that order: where `x` is the flag register, the flag wins.
    pub open spec fn set_v_then_flag(self, x: int, value: u8, vf: u8) -> Machine {
        Machine { v: self.v.update(x, value).update(0xF, vf), ..self }
    }

    /// `00E0`: clear the display.
    pub open spec fn op_00e0(self) -> Machine {
        Machine { pixels: Seq::new(grid_len(), |p: int| false), needs_redraw: true, ..self }
    }

    /// `00EE`: return from a subroutine. With an empty stack nothing changes.
    pub open spec fn op_00ee(self) -> Machine {
        if self.sp == 0 {
            self
        } else {
            Machine { sp: (self.sp - 1) as u8, pc: self.stack[self.sp - 1], ..self }
        }
    }

    /// `00FD`: halt.
    pub open spec fn op_00fd(self) -> Machine {
        Machine { running: false, ..self }
    }

    /// `1nnn`: jump to `nnn`.
    pub open spec fn op_1nnn(self, nnn: u16) -> Machine {
        Machine { pc: nnn, ..self }
    }

    /// `2nnn`: call the subroutine at `nnn`. With a full stack nothing changes.
    pub open spec fn op_2nnn(self, nnn: u16) -> Machine {
        if self.sp >= 16 {
            self
        } else {
            Machine {
                stack: self.stack.update(self.sp as int, self.pc),
                sp: (self.sp + 1) as u8,
                pc: nnn,
                ..self
            }
        }
    }

    /// `3xkk`: skip the next instruction if `Vx == kk`.
    pub open spec fn op_3xkk(self, x: int, kk: u8) -> Machine {
        self.skip_if(self.v[x] == kk)
    }

    /// `4xkk`: skip the next instruction if `Vx != kk`.
    pub open spec fn op_4xkk(self, x: int, kk: u8) -> Machine {
        self.skip_if(self.v[x] != kk)
    }

    /// `5xy0`: skip the next instruction if `Vx == Vy`.
    pub open spec fn op_5xy0(self, x: int, y: int) -> Machine {
        self.skip_if(self.v[x] == self.v[y])
    }

    /// `6xkk`: `Vx = kk`.
    pub open spec fn op_6xkk(self, x: int, kk: u8) -> Machine {
        self.set_v(x, kk)
    }

    /// `7xkk`: `Vx = (Vx + kk) mod 256`; the flag register is left alone.
    pub open spec fn op_7xkk(self, x: int, kk: u8) -> Machine {
        self.set_v(x, wrap8(self.v[x] + kk))
    }

    /// `8xy0`: `Vx = Vy`.
    pub open spec fn op_8xy0(self, x: int, y: int) -> Machine {
        self.set_v(x, self.v[y])
    }

    /// `8xy1`: `Vx = Vx | Vy`.
    pub open spec fn op_8xy1(self, x: int, y: int) -> Machine {
        self.set_v(x, self.v[x] | self.v[y])
    }

    /// `8xy2`: `Vx = Vx & Vy`.
    pub open spec fn op_8xy2(self, x: int, y: int) -> Machine {
        self.set_v(x, self.v[x] & self.v[y])
    }

    /// `8xy3`: `Vx = Vx ^ Vy`.
    pub open spec fn op_8xy3(self, x: int, y: int) -> Machine {
        self.set_v(x, self.v[x] ^ self.v[y])
    }

    /// `8xy4`: `Vx = (Vx + Vy) mod 256`, then `VF = 1` if the sum overflowed
    /// and `0` otherwise.
    pub open spec fn op_8xy4(self, x: int, y: int) -> Machine {
        self.set_v_then_flag(x, wrap8(self.v[x] + self.v[y]), flag(self.v[x] + self.v[y] > 255))
    }

    /// `8xy5`: `Vx = (Vx - Vy) mod 256`, then `VF = 1` if there was no borrow
    /// (`Vx >= Vy`) and `0` otherwise.
    pub open spec fn op_8xy5(self, x: int, y: int) -> Machine {
        self.set_v_then_flag(x, wrap8(self.v[x] - self.v[y]), flag(self.v[x] >= self.v[y]))
    }

    /// `8xy6`: `Vx = Vx / 2`, then `VF` is the bit that was shifted out.
    pub open spec fn op_8xy6(self, x: int) -> Machine {
        self.set_v_then_flag(x, (self.v[x] / 2) as u8, (self.v[x] % 2) as u8)
    }

    /// `8xy7`: `Vx = (Vy - Vx) mod 256`, then `VF = 1` if there was no borrow
    /// (`Vy >= Vx`) and `0` otherwise.
    pub open spec fn op_8xy7(self, x: int, y: int) -> Machine {
        self.set_v_then_flag(x, wrap8(self.v[y] - self.v[x]), flag(self.v[y] >= self.v[x]))
    }

    /// `8xyE`: `Vx = (Vx * 2) mod 256`, then `VF` is the bit that was shifted out.
    pub open spec fn op_8xye(self, x: int) -> Machine {
        self.set_v_then_flag(x, wrap8(self.v[x] * 2), (self.v[x] / 128) as u8)
    }

    /// `9xy0`: skip the next instruction if `Vx != Vy`.
    pub open spec fn op_9xy0(self, x: int, y: int) -> Machine {
        self.skip_if(self.v[x] != self.v[y])
    }

    /// `Annn`: `I = nnn`.
    pub open spec fn op_annn(self, nnn: u16) -> Machine {
        Machine { i: nnn, ..self }
    }

    /// `Bnnn`: jump to `V0 + nnn`.
    pub open spec fn op_bnnn(self, nnn: u16) -> Machine {
        Machine { pc: wrap16(self.v[0] + nnn), ..self }
    }

    /// The `n` bytes of memory that start at `I`.
    pub open spec fn sprite(self, n: int) -> Seq<u8> {
        Seq::new(n as nat, |r: int| self.memory[cell(self.i + r)])
    }

    /// `Dxyn`: draw the `n`-row sprite at `I` with its corner at `(Vx, Vy)`,
    /// then set `VF` to `1` if a pixel was erased and to `0` otherwise.
    pub open spec fn op_dxyn(self, x: int, y: int, n: int) -> Machine {
        Machine {
            pixels: drawn(self.pixels, self.v[x], self.v[y], self.sprite(n)),
            needs_redraw: true,
            v: self.v.update(
                0xF,
                flag(collides(self.pixels, self.v[x], self.v[y], self.sprite(n))),
            ),
            ..self
        }
    }

    /// The key that register `x` names: its low nibble.
    pub open spec fn key_in(self, x: int) -> int {
        self.v[x] as int % 16
    }

    /// `Ex9E`: skip the next instruction if the key named by `Vx` is down.
    pub open spec fn op_ex9e(self, x: int) -> Machine {
        self.skip_if(self.keys[self.key_in(x)])
    }

    /// `ExA1`: skip the next instruction if the key named by `Vx` is up.
    pub open spec fn op_exa1(self, x: int) -> Machine {
        self.skip_if(!self.keys[self.key_in(x)])
    }

    /// `Fx07`: `Vx = delay timer`.
    pub open spec fn op_fx07(self, x: int) -> Machine {
        self.set_v(x, self.delay)
    }

    /// `Fx0A`: suspend until a key is pressed; the key will go to `Vx`.
    pub open spec fn op_fx0a(self, x: int) -> Machine {
        Machine { waiting: Some(x as usize), ..self }
    }

    /// `Fx15`: `delay timer = Vx`.
    pub open spec fn op_fx15(self, x: int) -> Machine {
        Machine { delay: self.v[x], ..self }
    }

    /// `Fx18`: `sound timer = Vx`.
    pub open spec fn op_fx18(self, x: int) -> Machine {
        Machine { sound: self.v[x], ..self }
    }

    /// `Fx29`: point `I` at the glyph for the hex digit in the low nibble of `Vx`.
    pub open spec fn op_fx29(self, x: int) -> Machine {
        Machine { i: (0x50 + (self.v[x] as int % 16) * 5) as u16, ..self }
    }

    /// `Fx33`: store the hundreds, tens and units digit of `Vx` at `I`,
    /// `I + 1` and `I + 2`.
    pub open spec fn op_fx33(self, x: int) -> Machine {
        Machine {
            memory: self.memory.update(cell(self.i as int), (self.v[x] / 100) as u8).update(
                cell(self.i + 1),
                ((self.v[x] / 10) % 10) as u8,
            ).update(cell(self.i + 2), (self.v[x] % 10) as u8),
            ..self
        }
    }

    /// `Fx55`: store `V0` to `Vx` in memory from `I` on. `I` keeps its value.
    pub open spec fn op_fx55(self, x: int) -> Machine {
        Machine {
            memory: Seq::new(
                4096,
                |a: int|
                    if (a - self.i) % 4096 <= x {
                        self.v[(a - self.i) % 4096]
                    } else {
                        self.memory[a]
                    },
            ),
            ..self
        }
    }

    /// `Fx65`: load `V0` to `Vx` from memory from `I` on. `I` keeps its value.
    pub open spec fn op_fx65(self, x: int) -> Machine {
        Machine {
            v: Seq::new(
                16,
                |k: int|
                    if k <= x {
                        self.memory[cell(self.i + k)]
                    } else {
                        self.v[k]
                    },
            ),
            ..self
        }
    }

    /// The effect of the arithmetic group `8xyN`, or `None` where `n` is not
    /// one of its nine operations.
    pub open spec fn alu(self, x: int, y: int, n: int) -> Option<Machine> {
        if n == 0x0 {
            Some(self.op_8xy0(x, y))
        } else if n == 0x1 {
            Some(self.op_8xy1(x, y))
        } else if n == 0x2 {
            Some(self.op_8xy2(x, y))
        } else if n == 0x3 {
            Some(self.op_8xy3(x, y))
        } else if n == 0x4 {
            Some(self.op_8xy4(x, y))
        } else if n == 0x5 {
            Some(self.op_8xy5(x, y))
        } else if n == 0x6 {
            Some(self.op_8xy6(x))
        } else if n == 0x7 {
            Some(self.op_8xy7(x, y))
        } else if n == 0xE {
            Some(self.op_8xye(x))
        } else {
            None
        }
    }

    /// The effect of the group `Fxkk`, or `None` where `kk` is not one of its
    /// operations.
    pub open spec fn misc(self, x: int, kk: u8) -> Option<Machine> {
        if kk == 0x07 {
            Some(self.op_fx07(x))
        } else if kk == 0x0A {
            Some(self.op_fx0a(x))
        } else if kk == 0x15 {
            Some(self.op_fx15(x))
        } else if kk == 0x18 {
            Some(self.op_fx18(x))
        } else if kk == 0x29 {
            Some(self.op_fx29(x))
        } else if kk == 0x33 {
            Some(self.op_fx33(x))
        } else if kk == 0x55 {
            Some(self.op_fx55(x))
        } else if kk == 0x65 {
            Some(self.op_fx65(x))
        } else {
            None
        }
    }

    /// The effect of `opcode` if it is an instruction, `None` if it is not.
    pub open spec fn decode(self, opcode: u16) -> Option<Machine> {
        let x = op_x(opcode);
        let y = op_y(opcode);
        let n = op_n(opcode);
        let kk = op_kk(opcode);
        let nnn = op_nnn(opcode);
        let group = op_group(opcode);
        if opcode == 0x00E0 {
            Some(self.op_00e0())
        } else if opcode == 0x00EE {
            Some(self.op_00ee())
        } else if opcode == 0x00FD {
            Some(self.op_00fd())
        } else if group == 0x1 {
            Some(self.op_1nnn(nnn))
        } else if group == 0x2 {
            Some(self.op_2nnn(nnn))
        } else if group == 0x3 {
            Some(self.op_3xkk(x, kk))
        } else if group == 0x4 {
            Some(self.op_4xkk(x, kk))
        } else if group == 0x5 && n == 0 {
            Some(self.op_5xy0(x, y))
        } else if group == 0x6 {
            Some(self.op_6xkk(x, kk))
        } else if group == 0x7 {
            Some(self.op_7xkk(x, kk))
        } else if group == 0x8 {
            self.alu(x, y, n)
        } else if group == 0x9 && n == 0 {
            Some(self.op_9xy0(x, y))
        } else if group == 0xA {
            Some(self.op_annn(nnn))
        } else if group == 0xB {
            Some(self.op_bnnn(nnn))
        } else if group == 0xD {
            Some(self.op_dxyn(x, y, n))
        } else if group == 0xE && kk == 0x9E {
            Some(self.op_ex9e(x))
        } else if group == 0xE && kk == 0xA1 {
            Some(self.op_exa1(x))
        } else if group == 0xF {
            self.misc(x, kk)
        } else {
            None
        }
    }

    /// The machine after `opcode` has been executed. A word that is not an
    /// instruction changes nothing.
    pub open spec fn execute(self, opcode: u16) -> Machine {
        match self.decode(opcode) {
            Some(next) => next,
            None => self,
        }
    }

    /// What executing `opcode` reports.
    pub open spec fn execute_notice(self, opcode: u16) -> Option<RuntimeNotice> {
        if self.decode(opcode) is None {
            Some(RuntimeNotice::UnknownOpcode { opcode })
        } else if opcode == 0x00EE && self.sp == 0 {
            Some(RuntimeNotice::StackUnderflow)
        } else if op_group(opcode) == 0x2 && self.sp >= 16 {
            Some(RuntimeNotice::StackOverflow)
        } else {
            None
        }
    }

    /// Whether a step does anything: the machine has not halted and is not
    /// waiting for a key.
    pub open spec fn active(self) -> bool {
        self.running && self.waiting is None
    }

    /// One interpreter step: fetch the word at the program counter, advance
    /// the program counter by two, execute the word. A machine that has
    /// halted or waits for a key does not move.
    pub open spec fn step(self) -> Machine {
        if self.active() {
            self.skip().execute(self.fetch())
        } else {
            self
        }
    }

    /// What one interpreter step reports.
    pub open spec fn step_notice(self) -> Option<RuntimeNotice> {
        if self.active() {
            self.skip().execute_notice(self.fetch())
        } else {
            None
        }
    }

    /// The machine after `n` interpreter steps.
    pub open spec fn steps(self, n: nat) -> Machine
        decreases n,
    {
        if n == 0 {
            self
        } else {
            self.steps((n - 1) as nat).step()
        }
    }

    /// The notices that `n` interpreter steps raise, in order.
    pub open spec fn notices(self, n: nat) -> Seq<RuntimeNotice>
        decreases n,
    {
        if n == 0 {
            Seq::empty()
        } else {
            match self.steps((n - 1) as nat).step_notice() {
                Some(notice) => self.notices((n - 1) as nat).push(notice),
                None => self.notices((n - 1) as nat),
            }
        }
    }

    /// The machine after the host has looked at the keypad on behalf of a
    /// suspended interpreter: if a register waits for a key and a key is
    /// down, the register receives the lowest such key and the interpreter
    /// resumes. Otherwise nothing changes.
    pub open spec fn deliver_key(self) -> Machine {
        match (self.waiting, lowest_pressed(self.keys)) {
            (Some(x), Some(key)) => Machine { v: self.v.update(x as int, key), waiting: None, ..self },
            _ => self,
        }
    }

    /// One tick of the 60 Hz clock: each timer that is not zero goes down by one.
    pub open spec fn tick(self) -> Machine {
        Machine {
            delay: if self.delay > 0 {
                (self.delay - 1) as u8
            } else {
                0
            },
            sound: if self.sound > 0 {
                (self.sound - 1) as u8
            } else {
                0
            },
            ..self
        }
    }

    /// Whether a tick makes the machine beep: the sound timer reaches zero.
    pub open spec fn beeps(self) -> bool {
        self.sound == 1
    }

    /// The machine after `n` ticks of the clock.
    pub open spec fn ticks(self, n: nat) -> Machine
        decreases n,
    {
        if n == 0 {
            self
        } else {
            self.ticks((n - 1) as nat).tick()
        }
    }
}

} // verus!
