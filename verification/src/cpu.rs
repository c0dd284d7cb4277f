//! The register file: sixteen byte registers, the address register, the program
//! counter and the call stack, with the arithmetic and control transfers that
//! instructions perform on them.

use vstd::prelude::*;
use crate::MEM_SIZE;
use crate::opcode::{decode, spec_decode, Opcode, Reg};
use crate::ram::{word_at, Ram};
use crate::state::Fault;

verus! {

/// Number of general-purpose registers.
pub const REGISTER_COUNT: usize = 16;

/// Number of return addresses the call stack holds.
pub const STACK_DEPTH: usize = 16;

/// Index of VF, the register that receives carry, borrow and collision flags.
pub const FLAG: usize = 15;

/// Number of instructions that `run_test` lists at most.
pub const LISTING_LENGTH: usize = 1024;

/// The register file as a value.
pub struct Registers {
    /// V0 to VF.
    pub v: Seq<u8>,
    /// The address register I.
    pub i: u16,
    /// The program counter.
    pub pc: u16,
    /// The return addresses on the call stack, the oldest first.
    pub stack: Seq<u16>,
}

/// A flag as a register value.
pub open spec fn flag_value(flag: bool) -> u8 {
    if flag {
        1
    } else {
        0
    }
}

impl Registers {
    /// Sixteen registers, and no more return addresses than the stack holds.
    pub open spec fn wf(self) -> bool {
        self.v.len() == REGISTER_COUNT && self.stack.len() <= STACK_DEPTH
    }

    /// Everything zero and the stack empty.
    pub open spec fn zeroed() -> Registers {
        Registers {
            v: Seq::new(REGISTER_COUNT as nat, |k: int| 0u8),
            i: 0,
            pc: 0,
            stack: Seq::empty(),
        }
    }

    /// The register file after a reset: zeroed, the program counter at `origin`.
    pub open spec fn at_origin(origin: u16) -> Registers {
        Registers::zeroed().with_pc(origin)
    }

    /// With register `x` set to `value`.
    pub open spec fn with_reg(self, x: int, value: u8) -> Registers {
        Registers { v: self.v.update(x, value), ..self }
    }

    /// With VF set to 1 or 0.
    pub open spec fn with_flag(self, flag: bool) -> Registers {
        self.with_reg(FLAG as int, flag_value(flag))
    }

    /// With the program counter at `pc`.
    pub open spec fn with_pc(self, pc: u16) -> Registers {
        Registers { pc, ..self }
    }

    /// With the address register at `i`.
    pub open spec fn with_i(self, i: u16) -> Registers {
        Registers { i, ..self }
    }

    /// With the program counter moved past one more instruction if `cond` holds.
    /// The counter has sixteen bits and wraps.
    pub open spec fn skip_if(self, cond: bool) -> Registers {
        if cond {
            self.with_pc(((self.pc + 2) % 0x1_0000) as u16)
        } else {
            self
        }
    }

    /// After a call to `addr`: the program counter is saved on the stack.
    pub open spec fn call(self, addr: u16) -> Registers {
        Registers { pc: addr, stack: self.stack.push(self.pc), ..self }
    }

    /// After a return: the program counter is taken back from the stack.
    pub open spec fn ret(self) -> Registers {
        Registers { pc: self.stack.last(), stack: self.stack.drop_last(), ..self }
    }

    /// Vx becomes (Vx + `kk`) mod 256; VF keeps its value.
    pub open spec fn add_byte(self, x: int, kk: u8) -> Registers {
        self.with_reg(x, ((self.v[x] + kk) % 256) as u8)
    }

    /// Vx becomes Vx OR Vy.
    pub open spec fn or(self, x: int, y: int) -> Registers {
        self.with_reg(x, self.v[x] | self.v[y])
    }

    /// Vx becomes Vx AND Vy.
    pub open spec fn and(self, x: int, y: int) -> Registers {
        self.with_reg(x, self.v[x] & self.v[y])
    }

    /// Vx becomes Vx XOR Vy.
    pub open spec fn xor(self, x: int, y: int) -> Registers {
        self.with_reg(x, self.v[x] ^ self.v[y])
    }

    /// Vx becomes (Vx + Vy) mod 256, then VF becomes the carry.
    pub open spec fn add(self, x: int, y: int) -> Registers {
        let sum = self.v[x] + self.v[y];
        self.with_reg(x, (sum % 256) as u8).with_flag(sum > 255)
    }

    /// Vx becomes (Vx - Vy) mod 256, then VF becomes 1 if nothing was borrowed.
    pub open spec fn sub(self, x: int, y: int) -> Registers {
        let difference = self.v[x] - self.v[y];
        self.with_reg(x, (difference % 256) as u8).with_flag(self.v[x] >= self.v[y])
    }

    /// Vx becomes (Vy - Vx) mod 256, then VF becomes 1 if nothing was borrowed.
    pub open spec fn subn(self, x: int, y: int) -> Registers {
        let difference = self.v[y] - self.v[x];
        self.with_reg(x, (difference % 256) as u8).with_flag(self.v[y] >= self.v[x])
    }

    /// The value that a shift works on: Vy where `from_y` is chosen, else Vx.
    pub open spec fn shift_source(self, x: int, y: int, from_y: bool) -> u8 {
        if from_y {
            self.v[y]
        } else {
            self.v[x]
        }
    }

    /// Vx becomes the source halved, then VF becomes the source's lowest bit.
    pub open spec fn shr(self, x: int, y: int, from_y: bool) -> Registers {
        let source = self.shift_source(x, y, from_y);
        self.with_reg(x, source / 2).with_flag(source % 2 == 1)
    }

    /// Vx becomes the source doubled mod 256, then VF becomes the source's
    /// highest bit.
    pub open spec fn shl(self, x: int, y: int, from_y: bool) -> Registers {
        let source = self.shift_source(x, y, from_y);
        self.with_reg(x, ((source * 2) % 256) as u8).with_flag(source >= 128)
    }

    /// I becomes (I + Vx) mod 65536.
    pub open spec fn add_i(self, x: int) -> Registers {
        self.with_i(((self.i + self.v[x]) % 0x1_0000) as u16)
    }

    /// V0 to V`last` become the bytes of `bytes`, in order.
    pub open spec fn with_regs(self, last: int, bytes: Seq<u8>) -> Registers {
        Registers {
            v: Seq::new(
                self.v.len(),
                |k: int|
                    if k <= last {
                        bytes[k]
                    } else {
                        self.v[k]
                    },
            ),
            ..self
        }
    }
}

/// For every pair of registers and all their values: after an add, VF is 1 if
/// the sum exceeds 255 and 0 if not, and Vx, unless it is VF itself, is the sum
/// mod 256. No other register changes.
pub proof fn lemma_add(r: Registers, x: int, y: int)
    requires
        r.wf(),
        0 <= x < REGISTER_COUNT,
        0 <= y < REGISTER_COUNT,
    ensures
        r.add(x, y).v[FLAG as int] == 1 <==> r.v[x] + r.v[y] > 255,
        r.add(x, y).v[FLAG as int] == 0 <==> r.v[x] + r.v[y] <= 255,
        x != FLAG ==> r.add(x, y).v[x] == (r.v[x] + r.v[y]) % 256,
        forall|k: int| 0 <= k < FLAG && k != x ==> r.add(x, y).v[k] == r.v[k],
        r.add(x, y).wf(),
        r.add(x, y).pc == r.pc && r.add(x, y).i == r.i && r.add(x, y).stack == r.stack,
{
}

/// For every pair of registers and all their values: after a subtract, VF is 1
/// if Vx was at least Vy and 0 if not, and Vx, unless it is VF itself, is the
/// difference mod 256. No other register changes.
pub proof fn lemma_sub(r: Registers, x: int, y: int)
    requires
        r.wf(),
        0 <= x < REGISTER_COUNT,
        0 <= y < REGISTER_COUNT,
    ensures
        r.sub(x, y).v[FLAG as int] == 1 <==> r.v[x] >= r.v[y],
        r.sub(x, y).v[FLAG as int] == 0 <==> r.v[x] < r.v[y],
        x != FLAG ==> r.sub(x, y).v[x] == (r.v[x] - r.v[y]) % 256,
        forall|k: int| 0 <= k < FLAG && k != x ==> r.sub(x, y).v[k] == r.v[k],
        r.sub(x, y).wf(),
        r.sub(x, y).pc == r.pc && r.sub(x, y).i == r.i && r.sub(x, y).stack == r.stack,
{
}

/// The same for the reversed subtract: VF is 1 exactly if Vy was at least Vx,
/// and Vx, unless it is VF itself, is Vy minus Vx mod 256.
pub proof fn lemma_subn(r: Registers, x: int, y: int)
    requires
        r.wf(),
        0 <= x < REGISTER_COUNT,
        0 <= y < REGISTER_COUNT,
    ensures
        r.subn(x, y).v[FLAG as int] == 1 <==> r.v[y] >= r.v[x],
        r.subn(x, y).v[FLAG as int] == 0 <==> r.v[y] < r.v[x],
        x != FLAG ==> r.subn(x, y).v[x] == (r.v[y] - r.v[x]) % 256,
        forall|k: int| 0 <= k < FLAG && k != x ==> r.subn(x, y).v[k] == r.v[k],
{
}

/// A shift puts the bit that leaves the byte in VF: the lowest bit of the source
/// for a shift right, the highest for a shift left. Vx, unless it is VF itself,
/// holds the other seven bits, moved by one place.
pub proof fn lemma_shifts(r: Registers, x: int, y: int, from_y: bool)
    requires
        r.wf(),
        0 <= x < REGISTER_COUNT,
        0 <= y < REGISTER_COUNT,
    ensures
        r.shr(x, y, from_y).v[FLAG as int] == r.shift_source(x, y, from_y) % 2,
        r.shl(x, y, from_y).v[FLAG as int] == r.shift_source(x, y, from_y) / 128,
        x != FLAG ==> r.shr(x, y, from_y).v[x] == r.shift_source(x, y, from_y) / 2,
        x != FLAG ==> r.shl(x, y, from_y).v[x] == (r.shift_source(x, y, from_y) * 2) % 256,
        x != FLAG ==> r.shr(x, y, from_y).v[x] * 2 + r.shr(x, y, from_y).v[FLAG as int]
            == r.shift_source(x, y, from_y),
        x != FLAG ==> r.shl(x, y, from_y).v[x] + 256 * r.shl(x, y, from_y).v[FLAG as int] == 2
            * r.shift_source(x, y, from_y),
{
}

/// A call followed by a return comes back to the instruction after the call and
/// leaves the stack, and everything else, as it was.
pub proof fn lemma_call_then_return(r: Registers, addr: u16)
    requires
        r.wf(),
        r.stack.len() < STACK_DEPTH,
    ensures
        r.call(addr).pc == addr,
        r.call(addr).stack.len() == r.stack.len() + 1,
        r.call(addr).ret() == r,
{
    assert(r.stack.push(r.pc).drop_last() =~= r.stack);
}

/// How many instructions a listing from `pc` holds: as many whole words as memory
/// has from `pc` on, and `LISTING_LENGTH` at most.
pub open spec fn listing_length(pc: u16) -> nat {
    let words = if pc + 2 <= MEM_SIZE {
        (MEM_SIZE - pc) / 2
    } else {
        0
    };
    if words < LISTING_LENGTH {
        words as nat
    } else {
        LISTING_LENGTH as nat
    }
}

/// The register file.
#[derive(Debug)]
pub struct Cpu {
    regs: [u8; REGISTER_COUNT],
    stack: [u16; STACK_DEPTH],
    pc: u16,
    sp: u8,
    i: u16,
}

/// A register file with everything zero, the program counter too: `reset` puts
/// it at the program origin.
pub fn new() -> (cpu: Cpu)
    ensures
        cpu.wf(),
        cpu@ == Registers::zeroed(),
{
    let cpu = Cpu { regs: [0;REGISTER_COUNT], stack: [0;STACK_DEPTH], i: 0, pc: 0, sp: 0 };
    assert(cpu.regs@ =~= Seq::new(REGISTER_COUNT as nat, |k: int| 0u8));
    assert(cpu.stack@.take(0) =~= Seq::<u16>::empty());
    cpu
}

impl Cpu {
    /// The stack pointer stays within the stack.
    pub closed spec fn wf(&self) -> bool {
        self.sp <= STACK_DEPTH
    }

    /// The register file as a value. Of the stack it shows the entries below the
    /// stack pointer.
    pub closed spec fn view(&self) -> Registers {
        Registers {
            v: self.regs@,
            i: self.i,
            pc: self.pc,
            stack: self.stack@.take(self.sp as int),
        }
    }

    /// The value of a well-formed register file is well-formed.
    pub proof fn lemma_view_wf(&self)
        requires
            self.wf(),
        ensures
            self@.wf(),
    {
    }

    /// Zeroes the registers and the stack and puts the program counter at the
    /// program origin.
    pub fn reset(&mut self)
        ensures
            final(self).wf(),
            final(self)@ == Registers::at_origin(crate::PROGRAM_START as u16),
    {
        let mut k: usize = 0;
        while k < REGISTER_COUNT
            invariant
                k <= REGISTER_COUNT,
                forall|j: int| 0 <= j < k ==> self.regs@[j] == 0,
            decreases REGISTER_COUNT - k,
        {
            self.regs[k] = 0;
            k += 1;
        }
        let mut k: usize = 0;
        while k < STACK_DEPTH
            invariant
                k <= STACK_DEPTH,
                forall|j: int| 0 <= j < REGISTER_COUNT ==> self.regs@[j] == 0,
            decreases STACK_DEPTH - k,
        {
            self.stack[k] = 0;
            k += 1;
        }
        self.pc = crate::PROGRAM_START as u16;
        self.sp = 0;
        self.i = 0;
        assert(self.regs@ =~= Seq::new(REGISTER_COUNT as nat, |k: int| 0u8));
        assert(self.stack@.take(0) =~= Seq::<u16>::empty());
    }

    /// Lists the instructions from the program counter on: for each the address
    /// it was fetched from and what it decodes to. The listing ends after
    /// `LISTING_LENGTH` instructions or with the last whole word of memory,
    /// whichever comes first, and the program counter ends behind it.
    pub fn run_test(&mut self, mem: &Ram) -> (listing: Vec<(u16, Opcode)>)
        requires
            old(self).wf(),
        ensures
            final(self).wf(),
            listing@.len() == listing_length(old(self)@.pc),
            forall|k: int|
                0 <= k < listing@.len() ==> #[trigger] listing@[k] == (
                    (old(self)@.pc + 2 * k) as u16,
                    spec_decode(word_at(mem@, old(self)@.pc + 2 * k)),
                ),
            final(self)@ == old(self)@.with_pc((old(self)@.pc + 2 * listing@.len()) as u16),
    {
        let ghost start = self.pc;
        let mut ops: Vec<(u16, Opcode)> = Vec::new();
        let mut n: usize = 0;
        while n < LISTING_LENGTH && (self.pc as usize) + 2 <= MEM_SIZE
            invariant
                self.wf(),
                n <= LISTING_LENGTH,
                ops@.len() == n,
                n <= listing_length(start),
                self.pc == start + 2 * n,
                n < LISTING_LENGTH && self.pc + 2 <= MEM_SIZE ==> n < listing_length(start),
                !(n < LISTING_LENGTH && self.pc + 2 <= MEM_SIZE) ==> n == listing_length(start),
                self@ == old(self)@.with_pc(self.pc),
                forall|k: int|
                    0 <= k < n ==> #[trigger] ops@[k] == (
                        (start + 2 * k) as u16,
                        spec_decode(word_at(mem@, start + 2 * k)),
                    ),
            decreases LISTING_LENGTH - n,
        {
            let prev_pc = self.pc;
            let fetched = self.fetch(mem);
            let decoded = self.decode(fetched);
            ops.push((prev_pc, decoded));
            n += 1;
        }
        ops
    }

    /// Reads the instruction word at the program counter and moves the program
    /// counter past it.
    pub fn fetch(&mut self, mem: &Ram) -> (inst: u16)
        requires
            old(self).wf(),
            old(self)@.pc + 1 < MEM_SIZE,
        ensures
            final(self).wf(),
            inst == word_at(mem@, old(self)@.pc as int),
            final(self)@ == old(self)@.with_pc((old(self)@.pc + 2) as u16),
    {
        let inst: u16 = mem.read_mem(self.pc as usize);
        self.pc += 2;
        inst
    }

    /// Decodes an instruction word.
    pub fn decode(&self, inst: u16) -> (op: Opcode)
        ensures
            op == spec_decode(inst),
            op.wf(),
            op.spec_encode() == inst,
    {
        decode(inst)
    }

    /// The value of register `x`.
    pub fn reg(&self, x: Reg) -> (value: u8)
        requires
            x.wf(),
        ensures
            value == self@.v[x.index()],
    {
        self.regs[x.position()]
    }

    /// The address register.
    pub fn i(&self) -> (i: u16)
        ensures
            i == self@.i,
    {
        self.i
    }

    /// The program counter.
    pub fn pc(&self) -> (pc: u16)
        ensures
            pc == self@.pc,
    {
        self.pc
    }

    /// The number of return addresses on the call stack.
    pub fn sp(&self) -> (sp: u8)
        requires
            self.wf(),
        ensures
            sp == self@.stack.len(),
    {
        self.sp
    }

    /// The values of V0 up to and including `last`.
    pub fn regs_upto(&self, last: Reg) -> (values: &[u8])
        requires
            last.wf(),
        ensures
            values@ == self@.v.take(last.index() + 1),
    {
        &self.regs[0..last.position() + 1]
    }

    /// Whether the call stack is full.
    pub fn stack_is_full(&self) -> (full: bool)
        requires
            self.wf(),
        ensures
            full == (self@.stack.len() == STACK_DEPTH),
    {
        self.sp as usize == STACK_DEPTH
    }

    /// Sets register `x`.
    pub fn set_reg(&mut self, x: Reg, value: u8)
        requires
            old(self).wf(),
            x.wf(),
        ensures
            final(self).wf(),
            final(self)@ == old(self)@.with_reg(x.index(), value),
    {
        self.regs[x.position()] = value;
    }

    /// Sets VF to 1 or 0.
    pub fn set_flag(&mut self, flag: bool)
        requires
            old(self).wf(),
        ensures
            final(self).wf(),
            final(self)@ == old(self)@.with_flag(flag),
    {
        self.regs[FLAG] = if flag {
            1
        } else {
            0
        };
    }

    /// Sets the address register.
    pub fn set_i(&mut self, i: u16)
        requires
            old(self).wf(),
        ensures
            final(self).wf(),
            final(self)@ == old(self)@.with_i(i),
    {
        self.i = i;
    }

    /// Sets the program counter.
    pub fn set_pc(&mut self, pc: u16)
        requires
            old(self).wf(),
        ensures
            final(self).wf(),
            final(self)@ == old(self)@.with_pc(pc),
    {
        self.pc = pc;
    }

    /// Moves the program counter past one more instruction if `cond` holds.
    pub fn skip_if(&mut self, cond: bool)
        requires
            old(self).wf(),
        ensures
            final(self).wf(),
            final(self)@ == old(self)@.skip_if(cond),
    {
        if cond {
            self.pc = self.pc.wrapping_add(2);
        }
    }

    /// Calls the subroutine at `addr`: saves the program counter on the stack and
    /// continues at `addr`. With the stack full nothing changes and the call is
    /// refused.
    pub fn call(&mut self, addr: u16) -> (r: Result<(), Fault>)
        requires
            old(self).wf(),
        ensures
            final(self).wf(),
            r is Ok <==> old(self)@.stack.len() < STACK_DEPTH,
            r is Ok ==> final(self)@ == old(self)@.call(addr),
            r is Err ==> r == Err::<(), Fault>(Fault::StackOverflow) && final(self)@ == old(self)@,
    {
        if self.sp as usize >= STACK_DEPTH {
            return Err(Fault::StackOverflow);
        }
        let ghost before = self.stack@.take(self.sp as int);
        self.stack[self.sp as usize] = self.pc;
        self.sp += 1;
        assert(self.stack@.take(self.sp as int) =~= before.push(self.pc));
        self.pc = addr;
        Ok(())
    }

    /// Returns from a subroutine: takes the program counter back from the stack.
    /// With the stack empty nothing changes and the return is refused.
    pub fn ret(&mut self) -> (r: Result<(), Fault>)
        requires
            old(self).wf(),
        ensures
            final(self).wf(),
            r is Ok <==> old(self)@.stack.len() > 0,
            r is Ok ==> final(self)@ == old(self)@.ret(),
            r is Err ==> r == Err::<(), Fault>(Fault::StackUnderflow) && final(self)@ == old(self)@,
    {
        if self.sp == 0 {
            return Err(Fault::StackUnderflow);
        }
        let ghost before = self.stack@.take(self.sp as int);
        self.sp -= 1;
        self.pc = self.stack[self.sp as usize];
        assert(self.stack@.take(self.sp as int) =~= before.drop_last());
        Ok(())
    }

    /// Adds `kk` to Vx, wrapping at 256, without touching VF.
    pub fn add_byte(&mut self, x: Reg, kk: u8)
        requires
            old(self).wf(),
            x.wf(),
        ensures
            final(self).wf(),
            final(self)@ == old(self)@.add_byte(x.index(), kk),
    {
        let a = self.regs[x.position()];
        self.regs[x.position()] = a.wrapping_add(kk);
    }

    /// Sets Vx to Vx OR Vy.
    pub fn or(&mut self, x: Reg, y: Reg)
        requires
            old(self).wf(),
            x.wf(),
            y.wf(),
        ensures
            final(self).wf(),
            final(self)@ == old(self)@.or(x.index(), y.index()),
    {
        let a = self.regs[x.position()];
        let b = self.regs[y.position()];
        self.regs[x.position()] = a | b;
    }

    /// Sets Vx to Vx AND Vy.
    pub fn and(&mut self, x: Reg, y: Reg)
        requires
            old(self).wf(),
            x.wf(),
            y.wf(),
        ensures
            final(self).wf(),
            final(self)@ == old(self)@.and(x.index(), y.index()),
    {
        let a = self.regs[x.position()];
        let b = self.regs[y.position()];
        self.regs[x.position()] = a & b;
    }

    /// Sets Vx to Vx XOR Vy.
    pub fn xor(&mut self, x: Reg, y: Reg)
        requires
            old(self).wf(),
            x.wf(),
            y.wf(),
        ensures
            final(self).wf(),
            final(self)@ == old(self)@.xor(x.index(), y.index()),
    {
        let a = self.regs[x.position()];
        let b = self.regs[y.position()];
        self.regs[x.position()] = a ^ b;
    }

    /// Adds Vy to Vx, wrapping at 256, then sets VF to the carry: 1 if the sum
    /// exceeds 255, else 0.
    pub fn add(&mut self, x: Reg, y: Reg)
        requires
            old(self).wf(),
            x.wf(),
            y.wf(),
        ensures
            final(self).wf(),
            final(self)@ == old(self)@.add(x.index(), y.index()),
            final(self)@.v[FLAG as int] == flag_value(
                old(self)@.v[x.index()] + old(self)@.v[y.index()] > 255,
            ),
            x.index() != FLAG ==> final(self)@.v[x.index()] == (old(self)@.v[x.index()]
                + old(self)@.v[y.index()]) % 256,
    {
        let a = self.regs[x.position()];
        let b = self.regs[y.position()];
        self.regs[x.position()] = a.wrapping_add(b);
        self.regs[FLAG] = if a as u16 + b as u16 > 255 {
            1
        } else {
            0
        };
    }

    /// Subtracts Vy from Vx, wrapping at 256, then sets VF to 1 if Vx was at
    /// least Vy, so that nothing was borrowed, else to 0.
    pub fn sub(&mut self, x: Reg, y: Reg)
        requires
            old(self).wf(),
            x.wf(),
            y.wf(),
        ensures
            final(self).wf(),
            final(self)@ == old(self)@.sub(x.index(), y.index()),
            final(self)@.v[FLAG as int] == flag_value(
                old(self)@.v[x.index()] >= old(self)@.v[y.index()],
            ),
            x.index() != FLAG ==> final(self)@.v[x.index()] == (old(self)@.v[x.index()]
                - old(self)@.v[y.index()]) % 256,
    {
        let a = self.regs[x.position()];
        let b = self.regs[y.position()];
        self.regs[x.position()] = a.wrapping_sub(b);
        self.regs[FLAG] = if a >= b {
            1
        } else {
            0
        };
    }

    /// Sets Vx to Vy minus Vx, wrapping at 256, then sets VF to 1 if Vy was at
    /// least Vx, else to 0.
    pub fn subn(&mut self, x: Reg, y: Reg)
        requires
            old(self).wf(),
            x.wf(),
            y.wf(),
        ensures
            final(self).wf(),
            final(self)@ == old(self)@.subn(x.index(), y.index()),
            final(self)@.v[FLAG as int] == flag_value(
                old(self)@.v[y.index()] >= old(self)@.v[x.index()],
            ),
    {
        let a = self.regs[x.position()];
        let b = self.regs[y.position()];
        self.regs[x.position()] = b.wrapping_sub(a);
        self.regs[FLAG] = if b >= a {
            1
        } else {
            0
        };
    }

    /// Shifts right by one bit into Vx, then sets VF to the bit shifted out. The
    /// value shifted is Vy where `from_y` is chosen, else Vx.
    pub fn shr(&mut self, x: Reg, y: Reg, from_y: bool)
        requires
            old(self).wf(),
            x.wf(),
            y.wf(),
        ensures
            final(self).wf(),
            final(self)@ == old(self)@.shr(x.index(), y.index(), from_y),
    {
        let source = if from_y {
            self.regs[y.position()]
        } else {
            self.regs[x.position()]
        };
        assert(source >> 1 == source / 2) by (bit_vector);
        assert((source & 1 == 1) == (source % 2 == 1)) by (bit_vector);
        self.regs[x.position()] = source >> 1;
        self.regs[FLAG] = if source & 1 == 1 {
            1
        } else {
            0
        };
    }

    /// Shifts left by one bit into Vx, then sets VF to the bit shifted out. The
    /// value shifted is Vy where `from_y` is chosen, else Vx.
    pub fn shl(&mut self, x: Reg, y: Reg, from_y: bool)
        requires
            old(self).wf(),
            x.wf(),
            y.wf(),
        ensures
            final(self).wf(),
            final(self)@ == old(self)@.shl(x.index(), y.index(), from_y),
    {
        let source = if from_y {
            self.regs[y.position()]
        } else {
            self.regs[x.position()]
        };
        assert(source << 1 == (source * 2) % 256) by (bit_vector);
        assert((source & 0x80 != 0) == (source >= 128)) by (bit_vector);
        self.regs[x.position()] = source << 1;
        self.regs[FLAG] = if source & 0x80 != 0 {
            1
        } else {
            0
        };
    }

    /// Adds Vx to the address register, wrapping at 65536.
    pub fn add_i(&mut self, x: Reg)
        requires
            old(self).wf(),
            x.wf(),
        ensures
            final(self).wf(),
            final(self)@ == old(self)@.add_i(x.index()),
    {
        self.i = self.i.wrapping_add(self.regs[x.position()] as u16);
    }

    /// Loads V0 up to and including `last` from the bytes given, in order.
    pub fn load_regs(&mut self, last: Reg, bytes: &[u8])
        requires
            old(self).wf(),
            last.wf(),
            bytes@.len() == last.index() + 1,
        ensures
            final(self).wf(),
            final(self)@ == old(self)@.with_regs(last.index(), bytes@),
    {
        let ghost before = self.regs@;
        let count = last.position() + 1;
        let mut k: usize = 0;
        while k < count
            invariant
                self.wf(),
                k <= count,
                count == last.index() + 1,
                count <= REGISTER_COUNT,
                bytes@.len() == count,
                self.i == old(self).i,
                self.pc == old(self).pc,
                self.sp == old(self).sp,
                self.stack == old(self).stack,
                forall|j: int| 0 <= j < k ==> self.regs@[j] == bytes@[j],
                forall|j: int| k <= j < REGISTER_COUNT ==> self.regs@[j] == before[j],
            decreases count - k,
        {
            self.regs[k] = bytes[k];
            k += 1;
        }
        assert(self.regs@ =~= old(self)@.with_regs(last.index(), bytes@).v);
    }
}

} // verus!
