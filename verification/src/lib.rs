//! An interpreter for the CHIP-8 virtual machine: memory, register file, timers,
//! display and keypad, and the fetch, decode and execute cycle that drives them.
//!
//! The host loads a program image, reports key presses, and calls `step` or
//! `run_for`; after a step that reports the display dirty it paints the display
//! again, and while the sound timer is not zero it sounds a tone.

use vstd::prelude::*;

pub mod cpu;
pub mod display;
pub mod keypad;
pub mod opcode;
pub mod ram;
pub mod random;
pub mod state;
pub mod timers;
pub mod utils;

use crate::cpu::Cpu;
use crate::display::Display;
use crate::keypad::{Keypad, KEY_COUNT};
use crate::opcode::{Opcode, Reg};
use crate::ram::{has_font, same_reserved, LoadError, Ram};
use crate::random::Generator;
use crate::state::{
    decimal_digits, empty_report, Config, Fault, Machine, Outcome, RunReport, RunState,
};
use crate::timers::Timers;

verus! {

/// Number of addressable bytes.
pub const MEM_SIZE: usize = 4096;

/// Address at which program images are placed and at which execution starts.
pub const PROGRAM_START: usize = 0x200;

/// Instructions between two timer ticks unless the host chooses otherwise: about
/// 500 instructions a second at 60 ticks a second.
pub const DEFAULT_CYCLES_PER_TICK: u32 = 8;

/// The seed of the random generator until the host gives one.
pub const DEFAULT_SEED: u32 = 0x2545_F491;

/// The configuration of a new machine: shifts work on Vx in place, and
/// `run_for` ticks the timers every `DEFAULT_CYCLES_PER_TICK` instructions.
pub open spec fn spec_default_config() -> Config {
    Config { shift_uses_vy: false, cycles_per_tick: DEFAULT_CYCLES_PER_TICK }
}

/// The configuration of a new machine.
pub fn default_config() -> (config: Config)
    ensures
        config == spec_default_config(),
{
    Config { shift_uses_vy: false, cycles_per_tick: DEFAULT_CYCLES_PER_TICK }
}

/// The machine.
pub struct Chip8 {
    ram: Ram,
    cpu: Cpu,
    display: Display,
    keypad: Keypad,
    timers: Timers,
    run_state: RunState,
    generator: Generator,
    config: Config,
    cycles: u32,
}

/// A machine with everything zero, memory too. `reset` makes it ready to run.
pub fn new() -> (vm: Chip8)
    ensures
        vm.wf(),
        vm@ == Machine::blank(spec_default_config(), DEFAULT_SEED),
{
    Chip8 {
        ram: ram::new(),
        cpu: cpu::new(),
        display: Display::new(),
        keypad: Keypad::new(),
        timers: Timers::new(),
        run_state: RunState::Running,
        generator: Generator::new(DEFAULT_SEED),
        config: default_config(),
        cycles: 0,
    }
}

impl Chip8 {
    /// The machine as a value.
    pub closed spec fn view(&self) -> Machine {
        Machine {
            cpu: self.cpu@,
            mem: self.ram@,
            pixels: self.display@,
            keys: self.keypad@,
            timers: self.timers,
            run_state: self.run_state,
            seed: self.generator.state,
            config: self.config,
            cycles: self.cycles,
        }
    }

    /// The parts are well-formed, a wait names a register that exists, and the
    /// cycle count is below the configured number.
    pub closed spec fn wf(&self) -> bool {
        &&& self.cpu.wf()
        &&& (self.run_state matches RunState::WaitingForKey(x) ==> x.wf())
        &&& (self.config.cycles_per_tick > 0 ==> self.cycles < self.config.cycles_per_tick)
    }

    /// The value of a well-formed machine is well-formed.
    pub proof fn lemma_view_wf(&self)
        requires
            self.wf(),
        ensures
            self@.wf(),
    {
        self.cpu.lemma_view_wf();
        self.ram.lemma_len();
        self.display.lemma_len();
        self.keypad.lemma_len();
    }

    /// Zeroes registers, stack and timers, darkens the display, releases every
    /// key, rewrites memory to zero with the glyph table at its place, puts the
    /// program counter at the program origin and ends a wait for a key. The
    /// configuration and the random generator stay as they are.
    pub fn reset(&mut self)
        ensures
            final(self).wf(),
            final(self)@ == Machine::power_on(old(self)@.config, old(self)@.seed),
            has_font(final(self)@.mem),
    {
        self.cpu.reset();
        self.ram.reset();
        self.display.clear();
        self.keypad.reset();
        self.timers.reset();
        self.run_state = RunState::Running;
        self.cycles = 0;
    }

    /// The whole of memory as big-endian 16-bit words, one for each even address.
    pub fn dump_mem(&self) -> (words: Vec<u16>)
        ensures
            words@.len() == MEM_SIZE / 2,
            forall|k: int| 0 <= k < MEM_SIZE / 2 ==> words@[k] == ram::word_at(self@.mem, 2 * k),
    {
        self.ram.dump_mem()
    }

    /// Copies a program image to the program origin. An image longer than the
    /// memory above the origin is refused, and nothing changes.
    pub fn load_rom(&mut self, image: &[u8]) -> (r: Result<(), LoadError>)
        requires
            old(self).wf(),
        ensures
            final(self).wf(),
            r is Ok <==> image@.len() <= MEM_SIZE - PROGRAM_START,
            r is Ok ==> final(self)@ == (Machine {
                mem: ram::overlay(old(self)@.mem, PROGRAM_START as int, image@),
                ..old(self)@
            }),
            r is Err ==> r == Err::<(), LoadError>(LoadError::ImageTooLarge(image@.len() as usize)),
            r is Err ==> final(self)@ == old(self)@,
            same_reserved(old(self)@.mem, final(self)@.mem),
            has_font(old(self)@.mem) ==> has_font(final(self)@.mem),
    {
        self.ram.load_rom(image)
    }

    /// Lists the instructions from the program counter on, as `Cpu::run_test`
    /// does, and leaves the program counter behind the listing.
    pub fn run_test(&mut self) -> (listing: Vec<(u16, Opcode)>)
        requires
            old(self).wf(),
        ensures
            final(self).wf(),
            listing@.len() == cpu::listing_length(old(self)@.cpu.pc),
            forall|k: int|
                0 <= k < listing@.len() ==> #[trigger] listing@[k] == (
                    (old(self)@.cpu.pc + 2 * k) as u16,
                    opcode::spec_decode(ram::word_at(old(self)@.mem, old(self)@.cpu.pc + 2 * k)),
                ),
            final(self)@ == old(self)@.with_cpu(
                old(self)@.cpu.with_pc((old(self)@.cpu.pc + 2 * listing@.len()) as u16),
            ),
    {
        self.cpu.run_test(&self.ram)
    }

    /// The register file.
    pub fn cpu(&self) -> (cpu: &Cpu)
        requires
            self.wf(),
        ensures
            cpu.wf(),
            cpu@ == self@.cpu,
    {
        &self.cpu
    }

    /// Main memory.
    pub fn ram(&self) -> (ram: &Ram)
        ensures
            ram@ == self@.mem,
    {
        &self.ram
    }

    /// The display.
    pub fn display(&self) -> (display: &Display)
        ensures
            display@ == self@.pixels,
    {
        &self.display
    }

    /// The keypad.
    pub fn keypad(&self) -> (keypad: &Keypad)
        ensures
            keypad@ == self@.keys,
    {
        &self.keypad
    }

    /// The timers.
    pub fn timers(&self) -> (timers: Timers)
        ensures
            timers == self@.timers,
    {
        self.timers
    }

    /// Whether the machine runs or waits for a key.
    pub fn run_state(&self) -> (run_state: RunState)
        ensures
            run_state == self@.run_state,
    {
        self.run_state
    }

    /// The configuration.
    pub fn config(&self) -> (config: Config)
        ensures
            config == self@.config,
    {
        self.config
    }

    /// Replaces the configuration and starts counting cycles anew.
    pub fn set_config(&mut self, config: Config)
        requires
            old(self).wf(),
        ensures
            final(self).wf(),
            final(self)@ == (Machine { config, cycles: 0, ..old(self)@ }),
    {
        self.config = config;
        self.cycles = 0;
    }

    /// Restarts the random generator from `seed`.
    pub fn seed_random(&mut self, seed: u32)
        requires
            old(self).wf(),
        ensures
            final(self).wf(),
            final(self)@ == (Machine { seed, ..old(self)@ }),
    {
        self.generator = Generator::new(seed);
    }

    /// Whether the host should sound the tone.
    pub fn sound_active(&self) -> (on: bool)
        ensures
            on == (self@.timers.sound > 0),
    {
        self.timers.sound_active()
    }

    /// One 60 Hz tick of the timers.
    pub fn tick(&mut self)
        requires
            old(self).wf(),
        ensures
            final(self).wf(),
            final(self)@ == old(self)@.after_tick(),
    {
        self.timers.tick();
    }

    /// Records that key `index` is now down or up. A fresh press, of a key that
    /// was up, ends a wait for a key: the key's index goes to the register that
    /// the waiting instruction named, and the machine runs again.
    pub fn set_key_state(&mut self, index: u8, pressed: bool)
        requires
            old(self).wf(),
            index < KEY_COUNT,
        ensures
            final(self).wf(),
            final(self)@ == old(self)@.after_key(index as int, pressed),
    {
        let fresh = self.keypad.set_key_state(index, pressed);
        if fresh {
            match self.run_state {
                RunState::WaitingForKey(x) => {
                    self.cpu.set_reg(x, index);
                    self.run_state = RunState::Running;
                },
                RunState::Running => {},
            }
        }
    }

    /// Executes one decoded instruction. The program counter is taken to stand
    /// behind the instruction already, as `Cpu::fetch` leaves it; skips, jumps,
    /// calls and returns move it on from there. An instruction that faults
    /// changes nothing.
    pub fn execute(&mut self, op: Opcode) -> (r: Result<Outcome, Fault>)
        requires
            old(self).wf(),
            op.wf(),
        ensures
            final(self).wf(),
            r == old(self)@.result_of(op),
            final(self)@ == old(self)@.after(op),
            same_reserved(old(self)@.mem, final(self)@.mem),
            has_font(old(self)@.mem) ==> has_font(final(self)@.mem),
    {
        match op {
            Opcode::Return
            | Opcode::SysCall(_)
            | Opcode::Jump(_)
            | Opcode::Call(_)
            | Opcode::SkipEqualByte(_, _)
            | Opcode::SkipNotEqualByte(_, _)
            | Opcode::SkipEqual(_, _)
            | Opcode::SkipNotEqual(_, _)
            | Opcode::JumpV0(_)
            | Opcode::Unknown(_) => self.execute_flow(op),
            Opcode::LoadByte(_, _)
            | Opcode::AddByte(_, _)
            | Opcode::Copy(_, _)
            | Opcode::Or(_, _)
            | Opcode::And(_, _)
            | Opcode::Xor(_, _)
            | Opcode::Add(_, _)
            | Opcode::Sub(_, _)
            | Opcode::Shr(_, _)
            | Opcode::Subn(_, _)
            | Opcode::Shl(_, _)
            | Opcode::Random(_, _) => self.execute_alu(op),
            Opcode::Clear
            | Opcode::Draw(_, _, _)
            | Opcode::SkipPressed(_)
            | Opcode::SkipNotPressed(_)
            | Opcode::ReadDt(_)
            | Opcode::ReadKey(_)
            | Opcode::WriteDt(_)
            | Opcode::WriteSt(_) => self.execute_io(op),
            Opcode::WriteI(_)
            | Opcode::AddI(_)
            | Opcode::LoadDigit(_)
            | Opcode::WriteBCD(_)
            | Opcode::WriteRegs(_)
            | Opcode::ReadRegs(_) => self.execute_memory(op),
        }
    }

    /// Executes an instruction that only moves the program counter: jumps, calls,
    /// returns and the skips that compare registers.
    fn execute_flow(&mut self, op: Opcode) -> (r: Result<Outcome, Fault>)
        requires
            old(self).wf(),
            op.wf(),
            op is Return || op is SysCall || op is Jump || op is Call || op is SkipEqualByte
                || op is SkipNotEqualByte || op is SkipEqual || op is SkipNotEqual || op is JumpV0
                || op is Unknown,
        ensures
            final(self).wf(),
            r == old(self)@.result_of(op),
            final(self)@ == old(self)@.after(op),
            same_reserved(old(self)@.mem, final(self)@.mem),
            has_font(old(self)@.mem) ==> has_font(final(self)@.mem),
    {
        proof {
            self.lemma_view_wf();
        }
        match op {
            Opcode::Return => {
                match self.cpu.ret() {
                    Err(fault) => {
                        return Err(fault);
                    },
                    Ok(()) => {},
                }
            },
            Opcode::SysCall(_) => {},
            Opcode::Jump(nnn) => {
                self.cpu.set_pc(nnn);
            },
            Opcode::Call(nnn) => {
                match self.cpu.call(nnn) {
                    Err(fault) => {
                        return Err(fault);
                    },
                    Ok(()) => {},
                }
            },
            Opcode::SkipEqualByte(x, kk) => {
                let cond = self.cpu.reg(x) == kk;
                self.cpu.skip_if(cond);
            },
            Opcode::SkipNotEqualByte(x, kk) => {
                let cond = self.cpu.reg(x) != kk;
                self.cpu.skip_if(cond);
            },
            Opcode::SkipEqual(x, y) => {
                let cond = self.cpu.reg(x) == self.cpu.reg(y);
                self.cpu.skip_if(cond);
            },
            Opcode::SkipNotEqual(x, y) => {
                let cond = self.cpu.reg(x) != self.cpu.reg(y);
                self.cpu.skip_if(cond);
            },
            Opcode::JumpV0(nnn) => {
                let offset = self.cpu.reg(Reg::V(0));
                let target = nnn.wrapping_add(offset as u16);
                assert(target == (nnn + offset) % 0x1_0000);
                self.cpu.set_pc(target);
            },
            Opcode::Unknown(word) => {
                let pc = self.cpu.pc();
                let address = pc.wrapping_sub(2);
                assert(address == (pc - 2) % 0x1_0000);
                return Err(Fault::UnknownOpcode { word, address });
            },
            _ => {},
        }
        Ok(Outcome { next_pc: self.cpu.pc(), display_dirty: false, waiting_for_key: false })
    }

    /// Executes an instruction that computes a register from registers, an
    /// immediate byte or the random generator.
    fn execute_alu(&mut self, op: Opcode) -> (r: Result<Outcome, Fault>)
        requires
            old(self).wf(),
            op.wf(),
            op is LoadByte || op is AddByte || op is Copy || op is Or || op is And || op is Xor
                || op is Add || op is Sub || op is Shr || op is Subn || op is Shl || op is Random,
        ensures
            final(self).wf(),
            r == old(self)@.result_of(op),
            final(self)@ == old(self)@.after(op),
            same_reserved(old(self)@.mem, final(self)@.mem),
            has_font(old(self)@.mem) ==> has_font(final(self)@.mem),
    {
        proof {
            self.lemma_view_wf();
        }
        match op {
            Opcode::LoadByte(x, kk) => {
                self.cpu.set_reg(x, kk);
            },
            Opcode::AddByte(x, kk) => {
                self.cpu.add_byte(x, kk);
            },
            Opcode::Copy(x, y) => {
                let value = self.cpu.reg(y);
                self.cpu.set_reg(x, value);
            },
            Opcode::Or(x, y) => {
                self.cpu.or(x, y);
            },
            Opcode::And(x, y) => {
                self.cpu.and(x, y);
            },
            Opcode::Xor(x, y) => {
                self.cpu.xor(x, y);
            },
            Opcode::Add(x, y) => {
                self.cpu.add(x, y);
            },
            Opcode::Sub(x, y) => {
                self.cpu.sub(x, y);
            },
            Opcode::Shr(x, y) => {
                self.cpu.shr(x, y, self.config.shift_uses_vy);
            },
            Opcode::Subn(x, y) => {
                self.cpu.subn(x, y);
            },
            Opcode::Shl(x, y) => {
                self.cpu.shl(x, y, self.config.shift_uses_vy);
            },
            Opcode::Random(x, kk) => {
                let byte = self.generator.next_byte();
                self.cpu.set_reg(x, byte & kk);
            },
            _ => {},
        }
        Ok(Outcome { next_pc: self.cpu.pc(), display_dirty: false, waiting_for_key: false })
    }

    /// Executes an instruction that touches the display, the keypad or the
    /// timers.
    fn execute_io(&mut self, op: Opcode) -> (r: Result<Outcome, Fault>)
        requires
            old(self).wf(),
            op.wf(),
            op is Clear || op is Draw || op is SkipPressed || op is SkipNotPressed || op is ReadDt
                || op is ReadKey || op is WriteDt || op is WriteSt,
        ensures
            final(self).wf(),
            r == old(self)@.result_of(op),
            final(self)@ == old(self)@.after(op),
            same_reserved(old(self)@.mem, final(self)@.mem),
            has_font(old(self)@.mem) ==> has_font(final(self)@.mem),
    {
        proof {
            self.lemma_view_wf();
        }
        let mut display_dirty = false;
        let mut waiting_for_key = false;
        match op {
            Opcode::Clear => {
                self.display.clear();
                display_dirty = true;
            },
            Opcode::Draw(x, y, n) => {
                let i = self.cpu.i();
                if i as usize + n as usize > MEM_SIZE {
                    return Err(Fault::AccessViolation { address: i });
                }
                let column = self.cpu.reg(x);
                let row = self.cpu.reg(y);
                let sprite = self.ram.bytes(i as usize, n as usize);
                let collision = self.display.draw(column, row, sprite);
                self.cpu.set_flag(collision);
                display_dirty = true;
            },
            Opcode::SkipPressed(x) => {
                let key = self.cpu.reg(x) % 16;
                let cond = self.keypad.is_pressed(key);
                self.cpu.skip_if(cond);
            },
            Opcode::SkipNotPressed(x) => {
                let key = self.cpu.reg(x) % 16;
                let cond = !self.keypad.is_pressed(key);
                self.cpu.skip_if(cond);
            },
            Opcode::ReadDt(x) => {
                self.cpu.set_reg(x, self.timers.delay);
            },
            Opcode::ReadKey(x) => {
                self.run_state = RunState::WaitingForKey(x);
                waiting_for_key = true;
            },
            Opcode::WriteDt(x) => {
                self.timers.delay = self.cpu.reg(x);
            },
            Opcode::WriteSt(x) => {
                self.timers.sound = self.cpu.reg(x);
            },
            _ => {},
        }
        Ok(Outcome { next_pc: self.cpu.pc(), display_dirty, waiting_for_key })
    }

    /// Executes an instruction that moves the address register or copies between
    /// registers and memory.
    fn execute_memory(&mut self, op: Opcode) -> (r: Result<Outcome, Fault>)
        requires
            old(self).wf(),
            op.wf(),
            op is WriteI || op is AddI || op is LoadDigit || op is WriteBCD || op is WriteRegs
                || op is ReadRegs,
        ensures
            final(self).wf(),
            r == old(self)@.result_of(op),
            final(self)@ == old(self)@.after(op),
            same_reserved(old(self)@.mem, final(self)@.mem),
            has_font(old(self)@.mem) ==> has_font(final(self)@.mem),
    {
        proof {
            self.lemma_view_wf();
        }
        match op {
            Opcode::WriteI(nnn) => {
                self.cpu.set_i(nnn);
            },
            Opcode::AddI(x) => {
                self.cpu.add_i(x);
            },
            Opcode::LoadDigit(x) => {
                let digit = self.cpu.reg(x) % 16;
                self.cpu.set_i(digit as u16 * 5);
            },
            Opcode::WriteBCD(x) => {
                let i = self.cpu.i();
                if (i as usize) < PROGRAM_START || i as usize + 3 > MEM_SIZE {
                    return Err(Fault::AccessViolation { address: i });
                }
                let value = self.cpu.reg(x);
                let digits: [u8; 3] = [value / 100, (value / 10) % 10, value % 10];
                assert(digits@ =~= decimal_digits(value));
                self.ram.store(i as usize, digits.as_slice());
            },
            Opcode::WriteRegs(x) => {
                let i = self.cpu.i();
                if (i as usize) < PROGRAM_START || i as usize + x.position() + 1 > MEM_SIZE {
                    return Err(Fault::AccessViolation { address: i });
                }
                let values = self.cpu.regs_upto(x);
                self.ram.store(i as usize, values);
            },
            Opcode::ReadRegs(x) => {
                let i = self.cpu.i();
                if i as usize + x.position() + 1 > MEM_SIZE {
                    return Err(Fault::AccessViolation { address: i });
                }
                let bytes = self.ram.bytes(i as usize, x.position() + 1);
                self.cpu.load_regs(x, bytes);
            },
            _ => {},
        }
        Ok(Outcome { next_pc: self.cpu.pc(), display_dirty: false, waiting_for_key: false })
    }

    /// One fetch, decode and execute cycle. While the machine waits for a key the
    /// step does nothing and says so. A step that faults leaves the machine as it
    /// was, the program counter still at the faulting instruction: a word that
    /// is no instruction is reported with the address it was fetched from.
    pub fn step(&mut self) -> (r: Result<Outcome, Fault>)
        requires
            old(self).wf(),
        ensures
            final(self).wf(),
            r == old(self)@.step_result(),
            final(self)@ == old(self)@.after_step(),
            same_reserved(old(self)@.mem, final(self)@.mem),
            has_font(old(self)@.mem) ==> has_font(final(self)@.mem),
            old(self)@.run_state is Running && old(self)@.can_fetch() && old(self)@.next_op()
                is Unknown ==> r == Err::<Outcome, Fault>(
                Fault::UnknownOpcode {
                    word: ram::word_at(old(self)@.mem, old(self)@.cpu.pc as int),
                    address: old(self)@.cpu.pc,
                },
            ),
    {
        proof {
            self.lemma_view_wf();
        }
        let address = self.cpu.pc();
        match self.run_state {
            RunState::WaitingForKey(_) => {
                return Ok(
                    Outcome { next_pc: address, display_dirty: false, waiting_for_key: true },
                );
            },
            RunState::Running => {},
        }
        if address as usize + 2 > MEM_SIZE {
            return Err(Fault::AccessViolation { address });
        }
        let word = self.cpu.fetch(&self.ram);
        let op = self.cpu.decode(word);
        match self.execute(op) {
            Ok(outcome) => Ok(outcome),
            Err(fault) => {
                self.cpu.set_pc(address);
                Err(fault)
            },
        }
    }

    /// Counts one executed instruction towards the next timer tick, and ticks
    /// when the configured number is reached.
    fn count_cycle(&mut self)
        requires
            old(self).wf(),
        ensures
            final(self).wf(),
            final(self)@ == old(self)@.after_cycle(),
    {
        if self.config.cycles_per_tick > 0 {
            if self.cycles + 1 >= self.config.cycles_per_tick {
                self.timers.tick();
                self.cycles = 0;
            } else {
                self.cycles += 1;
            }
        }
    }

    /// Executes up to `cycles` instructions, ticking the timers after every
    /// `cycles_per_tick` of them. The run ends early, with the machine as the
    /// last completed instruction left it, when the machine waits for a key or an
    /// instruction faults.
    pub fn run_for(&mut self, cycles: u32) -> (report: RunReport)
        requires
            old(self).wf(),
        ensures
            final(self).wf(),
            final(self)@ == old(self)@.after_run(cycles as nat),
            report == old(self)@.run_report(cycles as nat, empty_report()),
            report.executed <= cycles,
            same_reserved(old(self)@.mem, final(self)@.mem),
            has_font(old(self)@.mem) ==> has_font(final(self)@.mem),
    {
        let mut report = RunReport {
            executed: 0,
            display_dirty: false,
            waiting_for_key: false,
            fault: None,
        };
        let mut remaining = cycles;
        proof {
            self.lemma_view_wf();
        }
        while remaining > 0
            invariant
                self.wf(),
                report.executed + remaining <= cycles,
                report.fault is None,
                !report.waiting_for_key,
                old(self)@.after_run(cycles as nat) == self@.after_run(remaining as nat),
                old(self)@.run_report(cycles as nat, empty_report()) == self@.run_report(
                    remaining as nat,
                    report,
                ),
                same_reserved(old(self)@.mem, self@.mem),
            decreases remaining,
        {
            match self.run_state {
                RunState::WaitingForKey(_) => {
                    report.waiting_for_key = true;
                    return report;
                },
                RunState::Running => {},
            }
            match self.step() {
                Err(fault) => {
                    report.fault = Some(fault);
                    return report;
                },
                Ok(outcome) => {
                    report.executed += 1;
                    report.display_dirty = report.display_dirty || outcome.display_dirty;
                    self.count_cycle();
                },
            }
            remaining -= 1;
        }
        report
    }
}

} // verus!
