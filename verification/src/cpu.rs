//! The CHIP-8 interpreter: registers, memory, call stack, timers, and the
//! fetch/decode/execute step.

use vstd::prelude::*;
use crate::constants::{font_bytes, FONT_START, MAX_ROM_SIZE, MEMORY_SIZE, PROGRAM_START};
use crate::display::Display;
use crate::keyboard::Keyboard;
use crate::machine::{cell, flag, Machine, RuntimeNotice};

verus! {

/// The interpreter and everything it owns.
pub struct CPU {
    /// The general registers `V0` to `VF`; `VF` doubles as the flag register.
    pub registers: [u8; 16],
    /// The index register `I`.
    pub index_register: u16,
    /// The address of the next instruction.
    pub program_counter: u16,
    /// The return addresses of the subroutines that are being executed.
    pub stack: [u16; 16],
    /// The number of return addresses on the stack.
    pub stack_pointer: u8,
    /// Byte-addressable memory.
    pub memory: [u8; MEMORY_SIZE],
    /// Counts down at 60 Hz while it is not zero.
    pub delay_timer: u8,
    /// Counts down at 60 Hz while it is not zero; the machine beeps when it
    /// reaches zero.
    pub sound_timer: u8,
    /// The frame buffer.
    pub display: Display,
    /// The keypad.
    pub keyboard: Keyboard,
    /// The register that receives the next key press while the interpreter
    /// is suspended by a wait-for-key instruction.
    pub waiting_for_key: Option<usize>,
    /// `false` once the halt instruction has been executed.
    pub running: bool,
}

/// The error of loading a program that does not fit into program memory.
#[derive(Clone, Copy, Debug, PartialEq, Eq, Structural)]
pub struct RomTooLarge {
    /// The length of the rejected program in bytes.
    pub size: usize,
}

impl View for CPU {
    type V = Machine;

    open spec fn view(&self) -> Machine {
        Machine {
            v: self.registers@,
            i: self.index_register,
            pc: self.program_counter,
            stack: self.stack@,
            sp: self.stack_pointer,
            memory: self.memory@,
            delay: self.delay_timer,
            sound: self.sound_timer,
            pixels: self.display@,
            needs_redraw: self.display.needs_redraw,
            keys: self.keyboard@,
            waiting: self.waiting_for_key,
            running: self.running,
        }
    }
}

impl CPU {
    /// The invariant of the interpreter: the stack pointer stays within the
    /// stack and a pending key press names a register.
    pub open spec fn wf(&self) -> bool {
        self@.wf()
    }

    /// The picture on the display, one colour per pixel in row-major order.
    pub fn display_buffer(&self) -> (buffer: Vec<u32>)
        ensures
            buffer@ == self@.pixels.map_values(|on: bool| crate::display::colour(on)),
    {
        self.display.to_buffer()
    }

    /// Whether the display has changed since it was last presented.
    pub fn needs_redraw(&self) -> (flag: bool)
        ensures
            flag == self@.needs_redraw,
    {
        self.display.needs_redraw
    }

    /// Whether the machine has not halted yet.
    pub fn is_running(&self) -> (flag: bool)
        ensures
            flag == self@.running,
    {
        self.running
    }

    /// Tests the invariant of the interpreter.
    pub fn is_well_formed(&self) -> (ok: bool)
        ensures
            ok == self.wf(),
    {
        proof {
            self.keyboard.lemma_sixteen_keys();
        }
        let waiting_ok = match self.waiting_for_key {
            Some(x) => x < 16,
            None => true,
        };
        self.stack_pointer <= 16 && waiting_ok
    }

    /// An interpreter in its power-on state, with the font in memory.
    pub fn new() -> (cpu: CPU)
        ensures
            cpu@ == Machine::fresh(),
            cpu.wf(),
    {
        let mut cpu = CPU {
            registers: [0; 16],
            index_register: 0,
            program_counter: PROGRAM_START,
            stack: [0; 16],
            stack_pointer: 0,
            memory: [0; MEMORY_SIZE],
            delay_timer: 0,
            sound_timer: 0,
            display: Display::new(),
            keyboard: Keyboard::new(),
            waiting_for_key: None,
            running: true,
        };
        cpu.load_fonts();
        proof {
            cpu.keyboard.lemma_sixteen_keys();
            assert(cpu@.v =~= Machine::fresh().v);
            assert(cpu@.stack =~= Machine::fresh().stack);
            assert(cpu@.memory =~= Machine::fresh().memory);
            assert(cpu@ =~= Machine::fresh());
        }
        cpu
    }

    /// Copies the font to its place in low memory.
    pub fn load_fonts(&mut self)
        ensures
            final(self)@ == (Machine {
                memory: Seq::new(
                    4096,
                    |a: int|
                        if 0x50 <= a < 0xA0 {
                            crate::constants::font_set()[a - 0x50]
                        } else {
                            old(self)@.memory[a]
                        },
                ),
                ..old(self)@
            }),
    {
        let font = font_bytes();
        let mut k: usize = 0;
        while k < 80
            invariant
                k <= 80,
                font@ == crate::constants::font_set(),
                self@ == (Machine {
                    memory: Seq::new(
                        4096,
                        |a: int|
                            if 0x50 <= a < 0x50 + k {
                                font@[a - 0x50]
                            } else {
                                old(self)@.memory[a]
                            },
                    ),
                    ..old(self)@
                }),
            decreases 80 - k,
        {
            self.memory[FONT_START + k] = font[k];
            k += 1;
        }
    }

    /// Copies a program to the start of program memory. A program of more
    /// than 3584 bytes is rejected and leaves the interpreter untouched.
    pub fn load_rom(&mut self, rom: &[u8]) -> (result: Result<(), RomTooLarge>)
        ensures
            rom@.len() <= 3584 ==> result is Ok && final(self)@ == old(self)@.load(rom@),
            rom@.len() > 3584 ==> result == Err::<(), RomTooLarge>(RomTooLarge { size: rom.len() })
                && final(self)@ == old(self)@,
            old(self).wf() ==> final(self).wf(),
    {
        if rom.len() > MAX_ROM_SIZE {
            return Err(RomTooLarge { size: rom.len() });
        }
        let mut k: usize = 0;
        while k < rom.len()
            invariant
                k <= rom.len() <= 3584,
                self@ == old(self)@.load(rom@.subrange(0, k as int)),
            decreases rom.len() - k,
        {
            self.memory[PROGRAM_START as usize + k] = rom[k];
            assert(self@.memory =~= old(self)@.load(rom@.subrange(0, k + 1)).memory);
            k += 1;
        }
        assert(rom@.subrange(0, rom.len() as int) =~= rom@);
        Ok(())
    }

    /// Reads the instruction at the program counter, high byte first, and
    /// moves the program counter past it.
    pub fn fetch(&mut self) -> (opcode: u16)
        ensures
            opcode == old(self)@.fetch(),
            final(self)@ == old(self)@.skip(),
    {
        let high: u16 = self.memory[self.program_counter as usize % MEMORY_SIZE] as u16;
        let low: u16 = self.memory[(self.program_counter as usize + 1) % MEMORY_SIZE] as u16;
        self.program_counter = self.program_counter.wrapping_add(2);
        high * 256 + low
    }

    /// One tick of the 60 Hz clock. Returns whether the machine beeps, which
    /// it does when the sound timer goes from one to zero.
    pub fn update_timers(&mut self) -> (beep: bool)
        ensures
            final(self)@ == old(self)@.tick(),
            beep == old(self)@.beeps(),
    {
        if self.delay_timer > 0 {
            self.delay_timer -= 1;
        }
        if self.sound_timer > 0 {
            self.sound_timer -= 1;
            self.sound_timer == 0
        } else {
            false
        }
    }

    /// Hands a key press to an interpreter that waits for one: the register
    /// named by the wait receives the lowest key that is down, and the
    /// interpreter resumes. Returns the register and the key, or `None`
    /// where the interpreter does not wait or no key is down.
    pub fn deliver_key(&mut self) -> (delivered: Option<(usize, u8)>)
        requires
            old(self).wf(),
        ensures
            final(self)@ == old(self)@.deliver_key(),
            final(self).wf(),
            delivered == (match (old(self)@.waiting, crate::keyboard::lowest_pressed(old(self)@.keys)) {
                (Some(x), Some(key)) => Some((x, key)),
                _ => None,
            }),
    {
        if let Some(x) = self.waiting_for_key {
            if let Some(key) = self.keyboard.get_pressed_key() {
                self.registers[x] = key;
                self.waiting_for_key = None;
                return Some((x, key));
            }
        }
        None
    }

    /// One interpreter step. Does nothing once the machine has halted or
    /// while it waits for a key.
    pub fn cycle(&mut self) -> (notice: Option<RuntimeNotice>)
        requires
            old(self).wf(),
        ensures
            final(self)@ == old(self)@.step(),
            notice == old(self)@.step_notice(),
            final(self).wf(),
    {
        if !self.running {
            return None;
        }
        if self.waiting_for_key.is_some() {
            return None;
        }
        let opcode = self.fetch();
        self.execute(opcode)
    }

    /// Decodes and executes one instruction. A word that is not an
    /// instruction is reported and otherwise ignored.
    #[verifier::rlimit(30)]
    pub fn execute(&mut self, opcode: u16) -> (notice: Option<RuntimeNotice>)
        requires
            old(self).wf(),
        ensures
            final(self)@ == old(self)@.execute(opcode),
            notice == old(self)@.execute_notice(opcode),
            final(self).wf(),
    {
        let group: u16 = opcode / 0x1000;
        let x: usize = ((opcode / 0x100) % 16) as usize;
        let y: usize = ((opcode / 0x10) % 16) as usize;
        let n: usize = (opcode % 16) as usize;
        let kk: u8 = (opcode % 0x100) as u8;
        let nnn: u16 = opcode % 0x1000;
        if opcode == 0x00E0 {
            self.op_00e0();
            None
        } else if opcode == 0x00EE {
            self.op_00ee()
        } else if opcode == 0x00FD {
            self.op_00fd();
            None
        } else if group == 0x1 {
            self.op_1nnn(nnn);
            None
        } else if group == 0x2 {
            self.op_2nnn(nnn)
        } else if group == 0x3 {
            self.op_3xkk(x, kk);
            None
        } else if group == 0x4 {
            self.op_4xkk(x, kk);
            None
        } else if group == 0x5 && n == 0 {
            self.op_5xy0(x, y);
            None
        } else if group == 0x6 {
            self.op_6xkk(x, kk);
            None
        } else if group == 0x7 {
            self.op_7xkk(x, kk);
            None
        } else if group == 0x8 {
            if self.execute_alu(x, y, n) {
                None
            } else {
                Some(RuntimeNotice::UnknownOpcode { opcode })
            }
        } else if group == 0x9 && n == 0 {
            self.op_9xy0(x, y);
            None
        } else if group == 0xA {
            self.op_annn(nnn);
            None
        } else if group == 0xB {
            self.op_bnnn(nnn);
            None
        } else if group == 0xD {
            self.op_dxyn(x, y, n);
            None
        } else if group == 0xE && kk == 0x9E {
            self.op_ex9e(x);
            None
        } else if group == 0xE && kk == 0xA1 {
            self.op_exa1(x);
            None
        } else if group == 0xF {
            if self.execute_misc(x, kk) {
                None
            } else {
                Some(RuntimeNotice::UnknownOpcode { opcode })
            }
        } else {
            Some(RuntimeNotice::UnknownOpcode { opcode })
        }
    }

    /// Executes the operation `n` of the arithmetic group on `Vx` and `Vy`.
    /// Returns `false`, having done nothing, where there is no such operation.
    fn execute_alu(&mut self, x: usize, y: usize, n: usize) -> (known: bool)
        requires
            old(self).wf(),
            x < 16,
            y < 16,
        ensures
            known == old(self)@.alu(x as int, y as int, n as int) is Some,
            final(self)@ == (match old(self)@.alu(x as int, y as int, n as int) {
                Some(next) => next,
                None => old(self)@,
            }),
            final(self).wf(),
    {
        if n == 0x0 {
            self.op_8xy0(x, y);
        } else if n == 0x1 {
            self.op_8xy1(x, y);
        } else if n == 0x2 {
            self.op_8xy2(x, y);
        } else if n == 0x3 {
            self.op_8xy3(x, y);
        } else if n == 0x4 {
            self.op_8xy4(x, y);
        } else if n == 0x5 {
            self.op_8xy5(x, y);
        } else if n == 0x6 {
            self.op_8xy6(x);
        } else if n == 0x7 {
            self.op_8xy7(x, y);
        } else if n == 0xE {
            self.op_8xye(x);
        } else {
            return false;
        }
        true
    }

    /// Executes the operation `kk` of the group `Fxkk` on `Vx`. Returns
    /// `false`, having done nothing, where there is no such operation.
    fn execute_misc(&mut self, x: usize, kk: u8) -> (known: bool)
        requires
            old(self).wf(),
            x < 16,
        ensures
            known == old(self)@.misc(x as int, kk) is Some,
            final(self)@ == (match old(self)@.misc(x as int, kk) {
                Some(next) => next,
                None => old(self)@,
            }),
            final(self).wf(),
    {
        if kk == 0x07 {
            self.op_fx07(x);
        } else if kk == 0x0A {
            self.op_fx0a(x);
        } else if kk == 0x15 {
            self.op_fx15(x);
        } else if kk == 0x18 {
            self.op_fx18(x);
        } else if kk == 0x29 {
            self.op_fx29(x);
        } else if kk == 0x33 {
            self.op_fx33(x);
        } else if kk == 0x55 {
            self.op_fx55(x);
        } else if kk == 0x65 {
            self.op_fx65(x);
        } else {
            return false;
        }
        true
    }

    /// `00E0`: clears the display.
    fn op_00e0(&mut self)
        ensures
            final(self)@ == old(self)@.op_00e0(),
    {
        self.display.clear();
    }

    /// `00EE`: returns from a subroutine, or reports an empty stack.
    fn op_00ee(&mut self) -> (notice: Option<RuntimeNotice>)
        requires
            old(self).wf(),
        ensures
            final(self)@ == old(self)@.op_00ee(),
            notice == (if old(self)@.sp == 0 {
                Some(RuntimeNotice::StackUnderflow)
            } else {
                None
            }),
    {
        if self.stack_pointer == 0 {
            return Some(RuntimeNotice::StackUnderflow);
        }
        self.stack_pointer -= 1;
        self.program_counter = self.stack[self.stack_pointer as usize];
        None
    }

    /// `00FD`: halts the machine.
    fn op_00fd(&mut self)
        ensures
            final(self)@ == old(self)@.op_00fd(),
    {
        self.running = false;
    }

    /// `1nnn`: jumps to `nnn`.
    fn op_1nnn(&mut self, nnn: u16)
        ensures
            final(self)@ == old(self)@.op_1nnn(nnn),
    {
        self.program_counter = nnn;
    }

    /// `2nnn`: calls the subroutine at `nnn`, or reports a full stack.
    fn op_2nnn(&mut self, nnn: u16) -> (notice: Option<RuntimeNotice>)
        requires
            old(self).wf(),
        ensures
            final(self)@ == old(self)@.op_2nnn(nnn),
            notice == (if old(self)@.sp >= 16 {
                Some(RuntimeNotice::StackOverflow)
            } else {
                None
            }),
    {
        if self.stack_pointer >= 16 {
            return Some(RuntimeNotice::StackOverflow);
        }
        self.stack[self.stack_pointer as usize] = self.program_counter;
        self.stack_pointer += 1;
        self.program_counter = nnn;
        None
    }

    /// Moves the program counter past the next instruction.
    fn skip_next(&mut self)
        ensures
            final(self)@ == old(self)@.skip(),
    {
        self.program_counter = self.program_counter.wrapping_add(2);
    }

    /// `3xkk`: skips the next instruction if `Vx == kk`.
    fn op_3xkk(&mut self, x: usize, kk: u8)
        requires
            x < 16,
        ensures
            final(self)@ == old(self)@.op_3xkk(x as int, kk),
    {
        if self.registers[x] == kk {
            self.skip_next();
        }
    }

    /// `4xkk`: skips the next instruction if `Vx != kk`.
    fn op_4xkk(&mut self, x: usize, kk: u8)
        requires
            x < 16,
        ensures
            final(self)@ == old(self)@.op_4xkk(x as int, kk),
    {
        if self.registers[x] != kk {
            self.skip_next();
        }
    }

    /// `5xy0`: skips the next instruction if `Vx == Vy`.
    fn op_5xy0(&mut self, x: usize, y: usize)
        requires
            x < 16,
            y < 16,
        ensures
            final(self)@ == old(self)@.op_5xy0(x as int, y as int),
    {
        if self.registers[x] == self.registers[y] {
            self.skip_next();
        }
    }

    /// `9xy0`: skips the next instruction if `Vx != Vy`.
    fn op_9xy0(&mut self, x: usize, y: usize)
        requires
            x < 16,
            y < 16,
        ensures
            final(self)@ == old(self)@.op_9xy0(x as int, y as int),
    {
        if self.registers[x] != self.registers[y] {
            self.skip_next();
        }
    }

    /// `6xkk`: `Vx = kk`.
    fn op_6xkk(&mut self, x: usize, kk: u8)
        requires
            x < 16,
        ensures
            final(self)@ == old(self)@.op_6xkk(x as int, kk),
    {
        self.registers[x] = kk;
    }

    /// `7xkk`: `Vx = (Vx + kk) mod 256`.
    fn op_7xkk(&mut self, x: usize, kk: u8)
        requires
            x < 16,
        ensures
            final(self)@ == old(self)@.op_7xkk(x as int, kk),
    {
        let current: u8 = self.registers[x];
        self.registers[x] = current.wrapping_add(kk);
    }

    /// Writes `value` to `Vx` and then `vf` to the flag register.
    fn set_with_flag(&mut self, x: usize, value: u8, vf: u8)
        requires
            x < 16,
        ensures
            final(self)@ == old(self)@.set_v_then_flag(x as int, value, vf),
    {
        self.registers[x] = value;
        self.registers[0xF] = vf;
    }

    /// `8xy0`: `Vx = Vy`.
    fn op_8xy0(&mut self, x: usize, y: usize)
        requires
            x < 16,
            y < 16,
        ensures
            final(self)@ == old(self)@.op_8xy0(x as int, y as int),
    {
        self.registers[x] = self.registers[y];
    }

    /// `8xy1`: `Vx = Vx | Vy`.
    fn op_8xy1(&mut self, x: usize, y: usize)
        requires
            x < 16,
            y < 16,
        ensures
            final(self)@ == old(self)@.op_8xy1(x as int, y as int),
    {
        self.registers[x] = self.registers[x] | self.registers[y];
    }

    /// `8xy2`: `Vx = Vx & Vy`.
    fn op_8xy2(&mut self, x: usize, y: usize)
        requires
            x < 16,
            y < 16,
        ensures
            final(self)@ == old(self)@.op_8xy2(x as int, y as int),
    {
        self.registers[x] = self.registers[x] & self.registers[y];
    }

    /// `8xy3`: `Vx = Vx ^ Vy`.
    fn op_8xy3(&mut self, x: usize, y: usize)
        requires
            x < 16,
            y < 16,
        ensures
            final(self)@ == old(self)@.op_8xy3(x as int, y as int),
    {
        self.registers[x] = self.registers[x] ^ self.registers[y];
    }

    /// `8xy4`: `Vx = Vx + Vy` with the carry in `VF`.
    fn op_8xy4(&mut self, x: usize, y: usize)
        requires
            x < 16,
            y < 16,
        ensures
            final(self)@ == old(self)@.op_8xy4(x as int, y as int),
    {
        let a: u8 = self.registers[x];
        let b: u8 = self.registers[y];
        let carry: u8 = if a as u16 + b as u16 > 255 { 1 } else { 0 };
        self.set_with_flag(x, a.wrapping_add(b), carry);
    }

    /// `8xy5`: `Vx = Vx - Vy` with the inverted borrow in `VF`.
    fn op_8xy5(&mut self, x: usize, y: usize)
        requires
            x < 16,
            y < 16,
        ensures
            final(self)@ == old(self)@.op_8xy5(x as int, y as int),
    {
        let a: u8 = self.registers[x];
        let b: u8 = self.registers[y];
        let no_borrow: u8 = if a >= b { 1 } else { 0 };
        self.set_with_flag(x, a.wrapping_sub(b), no_borrow);
    }

    /// `8xy6`: shifts `Vx` right by one; `VF` receives the low bit.
    fn op_8xy6(&mut self, x: usize)
        requires
            x < 16,
        ensures
            final(self)@ == old(self)@.op_8xy6(x as int),
    {
        let a: u8 = self.registers[x];
        self.set_with_flag(x, a / 2, a % 2);
    }

    /// `8xy7`: `Vx = Vy - Vx` with the inverted borrow in `VF`.
    fn op_8xy7(&mut self, x: usize, y: usize)
        requires
            x < 16,
            y < 16,
        ensures
            final(self)@ == old(self)@.op_8xy7(x as int, y as int),
    {
        let a: u8 = self.registers[x];
        let b: u8 = self.registers[y];
        let no_borrow: u8 = if b >= a { 1 } else { 0 };
        self.set_with_flag(x, b.wrapping_sub(a), no_borrow);
    }

    /// `8xyE`: shifts `Vx` left by one; `VF` receives the high bit.
    fn op_8xye(&mut self, x: usize)
        requires
            x < 16,
        ensures
            final(self)@ == old(self)@.op_8xye(x as int),
    {
        let a: u8 = self.registers[x];
        self.set_with_flag(x, a.wrapping_add(a), a / 128);
    }

    /// `Annn`: `I = nnn`.
    fn op_annn(&mut self, nnn: u16)
        ensures
            final(self)@ == old(self)@.op_annn(nnn),
    {
        self.index_register = nnn;
    }

    /// `Bnnn`: jumps to `V0 + nnn`.
    fn op_bnnn(&mut self, nnn: u16)
        ensures
            final(self)@ == old(self)@.op_bnnn(nnn),
    {
        self.program_counter = (self.registers[0] as u16).wrapping_add(nnn);
    }

    /// `Dxyn`: draws the `n`-row sprite at `I` at `(Vx, Vy)` and sets `VF`
    /// to the collision flag.
    fn op_dxyn(&mut self, x: usize, y: usize, n: usize)
        requires
            x < 16,
            y < 16,
            n < 16,
        ensures
            final(self)@ == old(self)@.op_dxyn(x as int, y as int, n as int),
    {
        let x_coord: u8 = self.registers[x];
        let y_coord: u8 = self.registers[y];
        let mut sprite: Vec<u8> = Vec::new();
        let mut row: usize = 0;
        while row < n
            invariant
                row <= n < 16,
                self@ == old(self)@,
                sprite@ == self@.sprite(row as int),
            decreases n - row,
        {
            sprite.push(self.memory[(self.index_register as usize + row) % MEMORY_SIZE]);
            assert(sprite@ =~= self@.sprite(row + 1));
            row += 1;
        }
        let collision = self.display.draw_sprite(x_coord, y_coord, sprite.as_slice());
        self.registers[0xF] = if collision { 1 } else { 0 };
    }

    /// `Ex9E`: skips the next instruction if the key named by `Vx` is down.
    fn op_ex9e(&mut self, x: usize)
        requires
            x < 16,
        ensures
            final(self)@ == old(self)@.op_ex9e(x as int),
    {
        let key: u8 = self.registers[x] % 16;
        if self.keyboard.is_key_pressed(key) {
            self.skip_next();
        }
    }

    /// `ExA1`: skips the next instruction if the key named by `Vx` is up.
    fn op_exa1(&mut self, x: usize)
        requires
            x < 16,
        ensures
            final(self)@ == old(self)@.op_exa1(x as int),
    {
        let key: u8 = self.registers[x] % 16;
        if !self.keyboard.is_key_pressed(key) {
            self.skip_next();
        }
    }

    /// `Fx07`: `Vx = delay timer`.
    fn op_fx07(&mut self, x: usize)
        requires
            x < 16,
        ensures
            final(self)@ == old(self)@.op_fx07(x as int),
    {
        self.registers[x] = self.delay_timer;
    }

    /// `Fx0A`: suspends the interpreter until a key is pressed.
    fn op_fx0a(&mut self, x: usize)
        requires
            x < 16,
        ensures
            final(self)@ == old(self)@.op_fx0a(x as int),
    {
        self.waiting_for_key = Some(x);
    }

    /// `Fx15`: `delay timer = Vx`.
    fn op_fx15(&mut self, x: usize)
        requires
            x < 16,
        ensures
            final(self)@ == old(self)@.op_fx15(x as int),
    {
        self.delay_timer = self.registers[x];
    }

    /// `Fx18`: `sound timer = Vx`.
    fn op_fx18(&mut self, x: usize)
        requires
            x < 16,
        ensures
            final(self)@ == old(self)@.op_fx18(x as int),
    {
        self.sound_timer = self.registers[x];
    }

    /// `Fx29`: points `I` at the glyph for the low nibble of `Vx`.
    fn op_fx29(&mut self, x: usize)
        requires
            x < 16,
        ensures
            final(self)@ == old(self)@.op_fx29(x as int),
    {
        let digit: u8 = self.registers[x] % 16;
        self.index_register = FONT_START as u16 + digit as u16 * 5;
    }

    /// `Fx33`: stores the three decimal digits of `Vx` at `I`, `I + 1`, `I + 2`.
    fn op_fx33(&mut self, x: usize)
        requires
            x < 16,
        ensures
            final(self)@ == old(self)@.op_fx33(x as int),
    {
        let value: u8 = self.registers[x];
        let at: usize = self.index_register as usize;
        self.memory[at % MEMORY_SIZE] = value / 100;
        self.memory[(at + 1) % MEMORY_SIZE] = (value / 10) % 10;
        self.memory[(at + 2) % MEMORY_SIZE] = value % 10;
    }

    /// `Fx55`: stores `V0` to `Vx` in memory from `I` on.
    fn op_fx55(&mut self, x: usize)
        requires
            x < 16,
        ensures
            final(self)@ == old(self)@.op_fx55(x as int),
    {
        let at: usize = self.index_register as usize;
        let mut k: usize = 0;
        while k <= x
            invariant
                k <= x + 1 <= 16,
                at == old(self)@.i,
                self@ == (Machine {
                    memory: Seq::new(
                        4096,
                        |a: int|
                            if (a - at) % 4096 < k {
                                old(self)@.v[(a - at) % 4096]
                            } else {
                                old(self)@.memory[a]
                            },
                    ),
                    ..old(self)@
                }),
            decreases x + 1 - k,
        {
            self.memory[(at + k) % MEMORY_SIZE] = self.registers[k];
            k += 1;
        }
    }

    /// `Fx65`: loads `V0` to `Vx` from memory from `I` on.
    fn op_fx65(&mut self, x: usize)
        requires
            x < 16,
        ensures
            final(self)@ == old(self)@.op_fx65(x as int),
    {
        let at: usize = self.index_register as usize;
        let mut k: usize = 0;
        while k <= x
            invariant
                k <= x + 1 <= 16,
                at == old(self)@.i,
                self@ == (Machine {
                    v: Seq::new(
                        16,
                        |j: int|
                            if j < k {
                                old(self)@.memory[cell(at + j)]
                            } else {
                                old(self)@.v[j]
                            },
                    ),
                    ..old(self)@
                }),
            decreases x + 1 - k,
        {
            self.registers[k] = self.memory[(at + k) % MEMORY_SIZE];
            k += 1;
        }
    }
}

} // verus!
