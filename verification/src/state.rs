//! The machine as a value, and what each instruction, each step and each host
//! event makes of it.

use vstd::prelude::*;
use crate::{MEM_SIZE, PROGRAM_START};
use crate::cpu::{
    lemma_add, lemma_call_then_return, lemma_sub, Registers, FLAG, REGISTER_COUNT, STACK_DEPTH,
};
use crate::display::{blit, collides, lemma_blit_twice, PIXEL_COUNT};
use crate::keypad::KEY_COUNT;
use crate::opcode::{spec_decode, Opcode, Reg};
use crate::ram::{
    has_font, lemma_font_is_reserved, overlay, reset_image, same_reserved, word_at, GLYPH_SIZE,
};
use crate::random::{byte_of, next_state};
use crate::timers::Timers;

verus! {

/// A condition that ends the run. The instruction that raises one changes
/// nothing, and after the step that met it the program counter still points at
/// that instruction.
#[derive(Debug, Clone, Copy, PartialEq, Eq, Structural)]
pub enum Fault {
    /// The word at `address` is no instruction.
    UnknownOpcode { word: u16, address: u16 },
    /// A call found the call stack full.
    StackOverflow,
    /// A return found the call stack empty.
    StackUnderflow,
    /// An instruction was to be fetched, or data read, past the end of memory, or
    /// data stored outside program memory. `address` is where the access began.
    AccessViolation { address: u16 },
}

/// What one executed instruction tells the host.
#[derive(Debug, Clone, Copy, PartialEq, Eq, Structural)]
pub struct Outcome {
    /// Where the next instruction will be fetched.
    pub next_pc: u16,
    /// The display changed and should be painted again.
    pub display_dirty: bool,
    /// The machine now waits for a key press.
    pub waiting_for_key: bool,
}

/// Whether the machine runs or waits for the host.
#[derive(Debug, Clone, Copy, PartialEq, Eq, Structural)]
pub enum RunState {
    /// Instructions execute.
    Running,
    /// A wait-for-key instruction has executed; the next fresh key press is
    /// stored in the register and ends the wait.
    WaitingForKey(Reg),
}

/// Choices that the host makes once; a reset keeps them.
#[derive(Debug, Clone, Copy, PartialEq, Eq, Structural)]
pub struct Config {
    /// Shifts take their operand from Vy, as the first interpreters did. When
    /// unset, they shift Vx in place.
    pub shift_uses_vy: bool,
    /// How many instructions `run_for` executes between two timer ticks. With 0
    /// it never ticks, and the host drives the timers.
    pub cycles_per_tick: u32,
}

/// What a run of several steps tells the host.
#[derive(Debug, Clone, Copy, PartialEq, Eq, Structural)]
pub struct RunReport {
    /// How many instructions were executed.
    pub executed: u32,
    /// Some instruction changed the display.
    pub display_dirty: bool,
    /// The run ended early because the machine waits for a key.
    pub waiting_for_key: bool,
    /// The run ended early with this fault.
    pub fault: Option<Fault>,
}

/// The whole machine as a value.
pub struct Machine {
    /// The register file.
    pub cpu: Registers,
    /// Main memory, by address.
    pub mem: Seq<u8>,
    /// The display, row by row.
    pub pixels: Seq<bool>,
    /// For each key, whether it is down.
    pub keys: Seq<bool>,
    /// The delay and sound timers.
    pub timers: Timers,
    /// Running, or waiting for a key.
    pub run_state: RunState,
    /// The state of the random generator.
    pub seed: u32,
    /// The host's choices.
    pub config: Config,
    /// Instructions that `run_for` executed since the last tick.
    pub cycles: u32,
}

/// A display with every pixel off.
pub open spec fn dark() -> Seq<bool> {
    Seq::new(PIXEL_COUNT as nat, |k: int| false)
}

/// A keypad with every key up.
pub open spec fn all_up() -> Seq<bool> {
    Seq::new(KEY_COUNT as nat, |k: int| false)
}

/// The three decimal digits of `value`: hundreds, tens, ones.
pub open spec fn decimal_digits(value: u8) -> Seq<u8> {
    seq![value / 100, (value / 10) % 10, value % 10]
}

/// The report of a run in which nothing has happened yet.
pub open spec fn empty_report() -> RunReport {
    RunReport { executed: 0, display_dirty: false, waiting_for_key: false, fault: None }
}

impl Machine {
    /// Every part has its size, and a wait names a register that exists.
    pub open spec fn wf(self) -> bool {
        &&& self.cpu.wf()
        &&& self.mem.len() == MEM_SIZE
        &&& self.pixels.len() == PIXEL_COUNT
        &&& self.keys.len() == KEY_COUNT
        &&& (self.run_state matches RunState::WaitingForKey(x) ==> x.wf())
        &&& (self.config.cycles_per_tick > 0 ==> self.cycles < self.config.cycles_per_tick)
    }

    /// The machine as it is created: everything zero, memory too.
    pub open spec fn blank(config: Config, seed: u32) -> Machine {
        Machine {
            cpu: Registers::zeroed(),
            mem: Seq::new(MEM_SIZE as nat, |k: int| 0u8),
            pixels: dark(),
            keys: all_up(),
            timers: Timers { delay: 0, sound: 0 },
            run_state: RunState::Running,
            seed,
            config,
            cycles: 0,
        }
    }

    /// The machine after a reset: registers and timers zero, the stack empty,
    /// the program counter at the origin, the display dark, every key up, memory
    /// zero but for the glyph table, and running.
    pub open spec fn power_on(config: Config, seed: u32) -> Machine {
        Machine {
            cpu: Registers::at_origin(PROGRAM_START as u16),
            mem: reset_image(),
            ..Machine::blank(config, seed)
        }
    }

    /// The value of register `x`.
    pub open spec fn v(self, x: Reg) -> u8 {
        self.cpu.v[x.index()]
    }

    /// The sprite of `n` rows that the address register points at.
    pub open spec fn sprite(self, n: u8) -> Seq<u8> {
        self.mem.subrange(self.cpu.i as int, self.cpu.i + n)
    }

    /// Whether the key named by the low hex digit of Vx is down.
    pub open spec fn key_down(self, x: Reg) -> bool {
        self.keys[(self.v(x) % 16) as int]
    }

    /// Whether `len` bytes from the address register on lie within memory.
    pub open spec fn readable(self, len: int) -> bool {
        self.cpu.i + len <= MEM_SIZE
    }

    /// Whether `len` bytes from the address register on lie within program
    /// memory, where instructions may store.
    pub open spec fn writable(self, len: int) -> bool {
        PROGRAM_START <= self.cpu.i && self.cpu.i + len <= MEM_SIZE
    }

    /// The fault that `op` raises in this state, if any. The program counter is
    /// taken to stand behind the instruction, as the fetch leaves it.
    pub open spec fn fault_of(self, op: Opcode) -> Option<Fault> {
        match op {
            Opcode::Return => if self.cpu.stack.len() == 0 {
                Some(Fault::StackUnderflow)
            } else {
                None
            },
            Opcode::Call(_) => if self.cpu.stack.len() >= STACK_DEPTH {
                Some(Fault::StackOverflow)
            } else {
                None
            },
            Opcode::Draw(_, _, n) => if self.readable(n as int) {
                None
            } else {
                Some(Fault::AccessViolation { address: self.cpu.i })
            },
            Opcode::WriteBCD(_) => if self.writable(3) {
                None
            } else {
                Some(Fault::AccessViolation { address: self.cpu.i })
            },
            Opcode::WriteRegs(x) => if self.writable(x.index() + 1) {
                None
            } else {
                Some(Fault::AccessViolation { address: self.cpu.i })
            },
            Opcode::ReadRegs(x) => if self.readable(x.index() + 1) {
                None
            } else {
                Some(Fault::AccessViolation { address: self.cpu.i })
            },
            Opcode::Unknown(word) => Some(
                Fault::UnknownOpcode { word, address: ((self.cpu.pc - 2) % 0x1_0000) as u16 },
            ),
            _ => None,
        }
    }

    /// With the register file replaced.
    pub open spec fn with_cpu(self, cpu: Registers) -> Machine {
        Machine { cpu, ..self }
    }

    /// The machine after `op`, where `op` raises no fault; where it raises one,
    /// the machine as it is. The program counter is taken to stand behind the
    /// instruction already.
    pub open spec fn after(self, op: Opcode) -> Machine {
        if self.fault_of(op) is Some {
            self
        } else {
            match op {
                Opcode::Clear => Machine { pixels: dark(), ..self },
                Opcode::Return => self.with_cpu(self.cpu.ret()),
                Opcode::SysCall(_) => self,
                Opcode::Jump(nnn) => self.with_cpu(self.cpu.with_pc(nnn)),
                Opcode::Call(nnn) => self.with_cpu(self.cpu.call(nnn)),
                Opcode::SkipEqualByte(x, kk) => self.with_cpu(self.cpu.skip_if(self.v(x) == kk)),
                Opcode::SkipNotEqualByte(x, kk) => self.with_cpu(
                    self.cpu.skip_if(self.v(x) != kk),
                ),
                Opcode::SkipEqual(x, y) => self.with_cpu(self.cpu.skip_if(self.v(x) == self.v(y))),
                Opcode::LoadByte(x, kk) => self.with_cpu(self.cpu.with_reg(x.index(), kk)),
                Opcode::AddByte(x, kk) => self.with_cpu(self.cpu.add_byte(x.index(), kk)),
                Opcode::Copy(x, y) => self.with_cpu(self.cpu.with_reg(x.index(), self.v(y))),
                Opcode::Or(x, y) => self.with_cpu(self.cpu.or(x.index(), y.index())),
                Opcode::And(x, y) => self.with_cpu(self.cpu.and(x.index(), y.index())),
                Opcode::Xor(x, y) => self.with_cpu(self.cpu.xor(x.index(), y.index())),
                Opcode::Add(x, y) => self.with_cpu(self.cpu.add(x.index(), y.index())),
                Opcode::Sub(x, y) => self.with_cpu(self.cpu.sub(x.index(), y.index())),
                Opcode::Shr(x, y) => self.with_cpu(
                    self.cpu.shr(x.index(), y.index(), self.config.shift_uses_vy),
                ),
                Opcode::Subn(x, y) => self.with_cpu(self.cpu.subn(x.index(), y.index())),
                Opcode::Shl(x, y) => self.with_cpu(
                    self.cpu.shl(x.index(), y.index(), self.config.shift_uses_vy),
                ),
                Opcode::SkipNotEqual(x, y) => self.with_cpu(
                    self.cpu.skip_if(self.v(x) != self.v(y)),
                ),
                Opcode::WriteI(nnn) => self.with_cpu(self.cpu.with_i(nnn)),
                Opcode::JumpV0(nnn) => self.with_cpu(
                    self.cpu.with_pc(((nnn + self.cpu.v[0]) % 0x1_0000) as u16),
                ),
                Opcode::Random(x, kk) => Machine {
                    cpu: self.cpu.with_reg(x.index(), byte_of(next_state(self.seed)) & kk),
                    seed: next_state(self.seed),
                    ..self
                },
                Opcode::Draw(x, y, n) => Machine {
                    cpu: self.cpu.with_flag(
                        collides(self.pixels, self.sprite(n), self.v(x) as int, self.v(y) as int),
                    ),
                    pixels: blit(self.pixels, self.sprite(n), self.v(x) as int, self.v(y) as int),
                    ..self
                },
                Opcode::SkipPressed(x) => self.with_cpu(self.cpu.skip_if(self.key_down(x))),
                Opcode::SkipNotPressed(x) => self.with_cpu(self.cpu.skip_if(!self.key_down(x))),
                Opcode::ReadDt(x) => self.with_cpu(self.cpu.with_reg(x.index(), self.timers.delay)),
                Opcode::ReadKey(x) => Machine { run_state: RunState::WaitingForKey(x), ..self },
                Opcode::WriteDt(x) => Machine {
                    timers: Timers { delay: self.v(x), ..self.timers },
                    ..self
                },
                Opcode::WriteSt(x) => Machine {
                    timers: Timers { sound: self.v(x), ..self.timers },
                    ..self
                },
                Opcode::AddI(x) => self.with_cpu(self.cpu.add_i(x.index())),
                Opcode::LoadDigit(x) => self.with_cpu(
                    self.cpu.with_i(((self.v(x) % 16) * GLYPH_SIZE) as u16),
                ),
                Opcode::WriteBCD(x) => Machine {
                    mem: overlay(self.mem, self.cpu.i as int, decimal_digits(self.v(x))),
                    ..self
                },
                Opcode::WriteRegs(x) => Machine {
                    mem: overlay(self.mem, self.cpu.i as int, self.cpu.v.take(x.index() + 1)),
                    ..self
                },
                Opcode::ReadRegs(x) => self.with_cpu(
                    self.cpu.with_regs(
                        x.index(),
                        self.mem.subrange(self.cpu.i as int, self.cpu.i + x.index() + 1),
                    ),
                ),
                Opcode::Unknown(_) => self,
            }
        }
    }

    /// What executing `op` in this state tells the host, where it raises no
    /// fault.
    pub open spec fn outcome_of(self, op: Opcode) -> Outcome {
        Outcome {
            next_pc: self.after(op).cpu.pc,
            display_dirty: op is Clear || op is Draw,
            waiting_for_key: op is ReadKey,
        }
    }

    /// What executing `op` returns: the outcome, or the fault.
    pub open spec fn result_of(self, op: Opcode) -> Result<Outcome, Fault> {
        match self.fault_of(op) {
            Some(fault) => Err(fault),
            None => Ok(self.outcome_of(op)),
        }
    }

    /// Whether a whole instruction word lies at the program counter.
    pub open spec fn can_fetch(self) -> bool {
        self.cpu.pc + 2 <= MEM_SIZE
    }

    /// The instruction at the program counter.
    pub open spec fn next_op(self) -> Opcode {
        spec_decode(word_at(self.mem, self.cpu.pc as int))
    }

    /// The machine with the program counter moved past the instruction it
    /// points at.
    pub open spec fn fetched(self) -> Machine {
        self.with_cpu(self.cpu.with_pc((self.cpu.pc + 2) as u16))
    }

    /// What a step returns. A waiting machine reports that it waits. A machine
    /// whose program counter has left memory reports an access violation at the
    /// program counter. Otherwise the instruction at the program counter is
    /// executed.
    pub open spec fn step_result(self) -> Result<Outcome, Fault> {
        if self.run_state is WaitingForKey {
            Ok(Outcome { next_pc: self.cpu.pc, display_dirty: false, waiting_for_key: true })
        } else if !self.can_fetch() {
            Err(Fault::AccessViolation { address: self.cpu.pc })
        } else {
            self.fetched().result_of(self.next_op())
        }
    }

    /// The machine after a step: unchanged while it waits and when the step
    /// faults, else as the instruction at the program counter leaves it.
    pub open spec fn after_step(self) -> Machine {
        if self.step_result() is Err || self.run_state is WaitingForKey {
            self
        } else {
            self.fetched().after(self.next_op())
        }
    }

    /// The machine after one 60 Hz tick.
    pub open spec fn after_tick(self) -> Machine {
        Machine { timers: self.timers.after_tick(), ..self }
    }

    /// The machine after `run_for` has counted one more executed instruction:
    /// when the count reaches the configured number, the timers tick and the
    /// count starts again.
    pub open spec fn after_cycle(self) -> Machine {
        if self.config.cycles_per_tick == 0 {
            self
        } else if self.cycles + 1 >= self.config.cycles_per_tick {
            Machine { cycles: 0, ..self.after_tick() }
        } else {
            Machine { cycles: (self.cycles + 1) as u32, ..self }
        }
    }

    /// Whether a run of `budget` further steps ends here: the budget is spent,
    /// the machine waits for a key, or the next step faults.
    pub open spec fn run_ends(self, budget: nat) -> bool {
        budget == 0 || self.run_state is WaitingForKey || self.step_result() is Err
    }

    /// The machine after a run of at most `budget` steps.
    pub open spec fn after_run(self, budget: nat) -> Machine
        decreases budget,
    {
        if self.run_ends(budget) {
            self
        } else {
            self.after_step().after_cycle().after_run((budget - 1) as nat)
        }
    }

    /// The report of a run of at most `budget` steps, continuing the report
    /// `so_far`.
    pub open spec fn run_report(self, budget: nat, so_far: RunReport) -> RunReport
        decreases budget,
    {
        if budget == 0 {
            so_far
        } else if self.run_state is WaitingForKey {
            RunReport { waiting_for_key: true, ..so_far }
        } else {
            match self.step_result() {
                Err(fault) => RunReport { fault: Some(fault), ..so_far },
                Ok(outcome) => self.after_step().after_cycle().run_report(
                    (budget - 1) as nat,
                    RunReport {
                        executed: (so_far.executed + 1) as u32,
                        display_dirty: so_far.display_dirty || outcome.display_dirty,
                        ..so_far
                    },
                ),
            }
        }
    }

    /// Whether the program counter and every return address on the stack are
    /// even, as they are after a reset.
    pub open spec fn aligned(self) -> bool {
        &&& self.cpu.pc % 2 == 0
        &&& forall|k: int| 0 <= k < self.cpu.stack.len() ==> self.cpu.stack[k] % 2 == 0
    }

    /// Whether `op` sends the program counter to an even address, if it sends it
    /// anywhere: only jumps and calls name an address of their own.
    pub open spec fn targets_even(self, op: Opcode) -> bool {
        match op {
            Opcode::Jump(nnn) => nnn % 2 == 0,
            Opcode::Call(nnn) => nnn % 2 == 0,
            Opcode::JumpV0(nnn) => (nnn + self.cpu.v[0]) % 2 == 0,
            _ => true,
        }
    }

    /// The machine after the host reports key `index` down or up. A fresh press,
    /// of a key that was up, ends a wait: the key goes to the awaited register
    /// and the machine runs again.
    pub open spec fn after_key(self, index: int, pressed: bool) -> Machine {
        let keys = self.keys.update(index, pressed);
        match self.run_state {
            RunState::WaitingForKey(x) if pressed && !self.keys[index] => Machine {
                keys,
                cpu: self.cpu.with_reg(x.index(), index as u8),
                run_state: RunState::Running,
                ..self
            },
            _ => Machine { keys, ..self },
        }
    }
}

/// A reset always yields the same machine: every register zero, the stack empty,
/// the program counter at the origin, the display dark, both timers zero, the
/// glyph table at its place, and no wait pending.
pub proof fn lemma_power_on(config: Config, seed: u32)
    ensures
        ({
            let m = Machine::power_on(config, seed);
            &&& m.cpu.wf()
            &&& m.mem.len() == MEM_SIZE
            &&& m.pixels.len() == PIXEL_COUNT
            &&& m.keys.len() == KEY_COUNT
            &&& forall|k: int| 0 <= k < REGISTER_COUNT ==> m.cpu.v[k] == 0
            &&& m.cpu.i == 0
            &&& m.cpu.stack.len() == 0
            &&& m.cpu.pc == PROGRAM_START
            &&& forall|k: int| 0 <= k < PIXEL_COUNT ==> !m.pixels[k]
            &&& forall|k: int| 0 <= k < KEY_COUNT ==> !m.keys[k]
            &&& m.timers.delay == 0 && m.timers.sound == 0
            &&& has_font(m.mem)
            &&& m.run_state is Running
            &&& m.cycles == 0
        }),
{
    crate::ram::lemma_reset_image();
}

/// An instruction leaves a well-formed machine well-formed.
pub proof fn lemma_after_wf(m: Machine, op: Opcode)
    requires
        m.wf(),
        op.wf(),
    ensures
        m.after(op).wf(),
{
}

/// No instruction changes the reserved region below the program origin, so the
/// glyph table, once there, stays.
pub proof fn lemma_after_keeps_reserved(m: Machine, op: Opcode)
    requires
        m.wf(),
        op.wf(),
    ensures
        same_reserved(m.mem, m.after(op).mem),
        has_font(m.mem) ==> has_font(m.after(op).mem),
{
    if has_font(m.mem) {
        lemma_font_is_reserved(m.mem, m.after(op).mem);
    }
}

/// A step leaves a well-formed machine well-formed and the reserved region as it
/// was.
pub proof fn lemma_step_keeps_reserved(m: Machine)
    requires
        m.wf(),
    ensures
        m.after_step().wf(),
        same_reserved(m.mem, m.after_step().mem),
        has_font(m.mem) ==> has_font(m.after_step().mem),
{
    if m.after_step() != m {
        crate::opcode::lemma_encode_decode(word_at(m.mem, m.cpu.pc as int));
        lemma_after_wf(m.fetched(), m.next_op());
        lemma_after_keeps_reserved(m.fetched(), m.next_op());
    }
}

/// A run of any length leaves a well-formed machine well-formed and the reserved
/// region as it was.
pub proof fn lemma_run_keeps_reserved(m: Machine, budget: nat)
    requires
        m.wf(),
    ensures
        m.after_run(budget).wf(),
        same_reserved(m.mem, m.after_run(budget).mem),
        has_font(m.mem) ==> has_font(m.after_run(budget).mem),
    decreases budget,
{
    if !m.run_ends(budget) {
        lemma_step_keeps_reserved(m);
        let next = m.after_step().after_cycle();
        lemma_run_keeps_reserved(next, (budget - 1) as nat);
    }
}

/// While the machine waits for a key, steps and runs change nothing: the
/// program counter stays, no cycle is counted and no timer ticks.
pub proof fn lemma_waiting_is_inert(m: Machine, budget: nat)
    requires
        m.run_state is WaitingForKey,
    ensures
        m.after_step() == m,
        m.step_result() == Ok::<Outcome, Fault>(
            Outcome { next_pc: m.cpu.pc, display_dirty: false, waiting_for_key: true },
        ),
        m.after_run(budget) == m,
        budget > 0 ==> m.run_report(budget, empty_report()) == (RunReport {
            waiting_for_key: true,
            ..empty_report()
        }),
{
}

/// Only the wait-for-key instruction starts a wait, and only a fresh key press
/// ends one.
pub proof fn lemma_wait_starts_and_ends(m: Machine, op: Opcode, index: int, pressed: bool)
    requires
        m.wf(),
        op.wf(),
        0 <= index < KEY_COUNT,
    ensures
        m.run_state is Running && m.after(op).run_state is WaitingForKey ==> op is ReadKey,
        m.run_state is WaitingForKey ==> (m.after_key(index, pressed).run_state is Running <==> (
            pressed && !m.keys[index])),
        m.run_state matches RunState::WaitingForKey(x) ==> (pressed && !m.keys[index]
            ==> m.after_key(index, pressed).cpu.v[x.index()] == index),
        m.run_state is Running ==> m.after_key(index, pressed).run_state is Running,
{
}

/// A word that is no instruction stops the machine where it stands: the step
/// reports the word and the address it was fetched from, and changes nothing.
pub proof fn lemma_unknown_halts(m: Machine)
    requires
        m.wf(),
        m.run_state is Running,
        m.can_fetch(),
        m.next_op() is Unknown,
    ensures
        m.step_result() == Err::<Outcome, Fault>(
            Fault::UnknownOpcode { word: word_at(m.mem, m.cpu.pc as int), address: m.cpu.pc },
        ),
        m.after_step() == m,
{
    crate::opcode::lemma_encode_decode(word_at(m.mem, m.cpu.pc as int));
}

/// A faulting step changes nothing, so stepping again faults again.
pub proof fn lemma_fault_is_final(m: Machine)
    requires
        m.step_result() is Err,
    ensures
        m.after_step() == m,
        m.after_step().step_result() == m.step_result(),
{
}

/// The add instruction, for every pair of registers and all their values: VF
/// becomes 1 if the sum exceeds 255 and 0 if not, and Vx, unless it is VF itself,
/// becomes the sum mod 256. The program counter stays behind the instruction.
pub proof fn lemma_add_instruction(m: Machine, x: Reg, y: Reg)
    requires
        m.wf(),
        x.wf(),
        y.wf(),
    ensures
        m.fault_of(Opcode::Add(x, y)) is None,
        m.after(Opcode::Add(x, y)).cpu.v[FLAG as int] == 1 <==> m.v(x) + m.v(y) > 255,
        m.after(Opcode::Add(x, y)).cpu.v[FLAG as int] == 0 <==> m.v(x) + m.v(y) <= 255,
        x.index() != FLAG ==> m.after(Opcode::Add(x, y)).v(x) == (m.v(x) + m.v(y)) % 256,
        m.after(Opcode::Add(x, y)).cpu.pc == m.cpu.pc,
{
    lemma_add(m.cpu, x.index(), y.index());
}

/// The subtract instruction, for every pair of registers and all their values:
/// VF becomes 1 if Vx was at least Vy and 0 if not, and Vx, unless it is VF
/// itself, becomes the difference mod 256.
pub proof fn lemma_sub_instruction(m: Machine, x: Reg, y: Reg)
    requires
        m.wf(),
        x.wf(),
        y.wf(),
    ensures
        m.fault_of(Opcode::Sub(x, y)) is None,
        m.after(Opcode::Sub(x, y)).cpu.v[FLAG as int] == 1 <==> m.v(x) >= m.v(y),
        m.after(Opcode::Sub(x, y)).cpu.v[FLAG as int] == 0 <==> m.v(x) < m.v(y),
        x.index() != FLAG ==> m.after(Opcode::Sub(x, y)).v(x) == (m.v(x) - m.v(y)) % 256,
        m.after(Opcode::Sub(x, y)).cpu.pc == m.cpu.pc,
{
    lemma_sub(m.cpu, x.index(), y.index());
}

/// The clear instruction turns every pixel off, whatever the display showed.
pub proof fn lemma_clear_instruction(m: Machine)
    ensures
        m.fault_of(Opcode::Clear) is None,
        m.after(Opcode::Clear).pixels.len() == PIXEL_COUNT,
        forall|k: int| 0 <= k < PIXEL_COUNT ==> !m.after(Opcode::Clear).pixels[k],
        m.outcome_of(Opcode::Clear).display_dirty,
{
}

/// Drawing the same sprite twice at the same position restores the display. The
/// position is the same when the first draw has left the two position registers
/// as they were, which it does unless one of them is VF and the flag it writes
/// differs from the value it held.
pub proof fn lemma_draw_twice(m: Machine, x: Reg, y: Reg, n: u8)
    requires
        m.wf(),
        Opcode::Draw(x, y, n).wf(),
        m.readable(n as int),
        m.after(Opcode::Draw(x, y, n)).v(x) == m.v(x),
        m.after(Opcode::Draw(x, y, n)).v(y) == m.v(y),
    ensures
        m.after(Opcode::Draw(x, y, n)).after(Opcode::Draw(x, y, n)).pixels == m.pixels,
        x.index() != FLAG && y.index() != FLAG ==> m.after(Opcode::Draw(x, y, n)).v(x) == m.v(x)
            && m.after(Opcode::Draw(x, y, n)).v(y) == m.v(y),
{
    let op = Opcode::Draw(x, y, n);
    let once = m.after(op);
    assert(once.sprite(n) == m.sprite(n));
    lemma_blit_twice(m.pixels, m.sprite(n), m.v(x) as int, m.v(y) as int);
}

/// A call followed by a return restores the machine: the program counter is
/// back behind the call and the stack is as deep as before.
pub proof fn lemma_call_return(m: Machine, addr: u16)
    requires
        m.wf(),
        m.cpu.stack.len() < STACK_DEPTH,
    ensures
        m.after(Opcode::Call(addr)).cpu.pc == addr,
        m.after(Opcode::Call(addr)).cpu.stack.len() == m.cpu.stack.len() + 1,
        m.after(Opcode::Call(addr)).after(Opcode::Return) == m,
{
    lemma_call_then_return(m.cpu, addr);
}

/// A run executes no more instructions than its budget and keeps what the
/// report held before.
pub proof fn lemma_run_report_bounds(m: Machine, budget: nat, so_far: RunReport)
    requires
        so_far.executed + budget <= u32::MAX,
    ensures
        so_far.executed <= m.run_report(budget, so_far).executed <= so_far.executed + budget,
        so_far.display_dirty ==> m.run_report(budget, so_far).display_dirty,
    decreases budget,
{
    if budget > 0 && !(m.run_state is WaitingForKey) {
        match m.step_result() {
            Err(_) => {},
            Ok(outcome) => {
                lemma_run_report_bounds(
                    m.after_step().after_cycle(),
                    (budget - 1) as nat,
                    RunReport {
                        executed: (so_far.executed + 1) as u32,
                        display_dirty: so_far.display_dirty || outcome.display_dirty,
                        ..so_far
                    },
                );
            },
        }
    }
}

/// Instructions other than calls and returns leave the call stack alone.
proof fn lemma_stack_is_kept(m: Machine, op: Opcode)
    requires
        !(op is Call),
        !(op is Return),
    ensures
        m.after(op).cpu.stack == m.cpu.stack,
{
}

/// Instructions other than jumps, calls and returns leave the program counter
/// where it is or move it on by two.
proof fn lemma_pc_moves_by_two(m: Machine, op: Opcode)
    requires
        !(op is Call),
        !(op is Return),
        !(op is Jump),
        !(op is JumpV0),
    ensures
        m.after(op).cpu.pc == m.cpu.pc || m.after(op).cpu.pc == (m.cpu.pc + 2) % 0x1_0000,
{
}

/// An instruction that names no odd address keeps the program counter and the
/// return addresses even.
pub proof fn lemma_after_keeps_alignment(m: Machine, op: Opcode)
    requires
        m.wf(),
        op.wf(),
        m.aligned(),
        m.targets_even(op),
    ensures
        m.after(op).aligned(),
{
    if m.fault_of(op) is None {
        match op {
            Opcode::Call(nnn) => {
                assert forall|k: int| 0 <= k < m.cpu.call(nnn).stack.len() implies m.cpu.call(
                    nnn,
                ).stack[k] % 2 == 0 by {
                    if k < m.cpu.stack.len() {
                        assert(m.cpu.call(nnn).stack[k] == m.cpu.stack[k]);
                    }
                }
            },
            Opcode::Return => {
                assert(m.cpu.stack[m.cpu.stack.len() - 1] % 2 == 0);
                assert forall|k: int| 0 <= k < m.cpu.ret().stack.len() implies m.cpu.ret().stack[k]
                    % 2 == 0 by {
                    assert(m.cpu.ret().stack[k] == m.cpu.stack[k]);
                }
            },
            Opcode::Jump(nnn) => {
                lemma_stack_is_kept(m, op);
            },
            Opcode::JumpV0(nnn) => {
                lemma_stack_is_kept(m, op);
            },
            _ => {
                lemma_stack_is_kept(m, op);
                lemma_pc_moves_by_two(m, op);
            },
        }
    }
}

/// The program counter stays even: fetches and skips move it by two, a return
/// takes it back to where a call left, and so it is even after every step of a
/// program that starts at an even address and never jumps to an odd one.
pub proof fn lemma_step_keeps_alignment(m: Machine)
    requires
        m.wf(),
        m.aligned(),
        m.fetched().targets_even(m.next_op()),
    ensures
        m.after_step().aligned(),
{
    if m.after_step() != m {
        crate::opcode::lemma_encode_decode(word_at(m.mem, m.cpu.pc as int));
        assert(m.fetched().aligned());
        lemma_after_keeps_alignment(m.fetched(), m.next_op());
    }
}

} // verus!
