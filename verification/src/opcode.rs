//! The instruction set: one variant per instruction shape, the decoder from
//! instruction words and the encoder back to them.

use vstd::prelude::*;
use crate::utils::{nibbles_to_u16, nibbles_to_u8, u16_to_nibbles};

verus! {

/// A general-purpose register, named by its index: `V(0)` is V0, `V(15)` is VF.
#[derive(Debug, Clone, Copy, PartialEq, Eq, Structural)]
pub enum Reg {
    V(u8),
}

impl Reg {
    /// The register's position in the register file.
    pub open spec fn index(self) -> int {
        self->0 as int
    }

    /// Sixteen registers exist.
    pub open spec fn wf(self) -> bool {
        self->0 < 16
    }

    /// The register's position in the register file.
    pub fn position(&self) -> (k: usize)
        ensures
            k == self.index(),
    {
        match self {
            Reg::V(x) => *x as usize,
        }
    }
}

/// A decoded instruction with its operands.
#[derive(Debug, Clone, Copy, PartialEq, Eq, Structural)]
pub enum Opcode {
    /// `00E0`: clear the display.
    Clear,
    /// `00EE`: return from a subroutine.
    Return,
    /// `0nnn`: call a machine-code routine of the host; has no effect here.
    SysCall(u16),
    /// `1nnn`: jump to `nnn`.
    Jump(u16),
    /// `2nnn`: call the subroutine at `nnn`.
    Call(u16),
    /// `3xkk`: skip the next instruction if Vx equals `kk`.
    SkipEqualByte(Reg, u8),
    /// `4xkk`: skip the next instruction if Vx differs from `kk`.
    SkipNotEqualByte(Reg, u8),
    /// `5xy0`: skip the next instruction if Vx equals Vy.
    SkipEqual(Reg, Reg),
    /// `6xkk`: set Vx to `kk`.
    LoadByte(Reg, u8),
    /// `7xkk`: add `kk` to Vx, without touching VF.
    AddByte(Reg, u8),
    /// `8xy0`: set Vx to Vy.
    Copy(Reg, Reg),
    /// `8xy1`: set Vx to Vx OR Vy.
    Or(Reg, Reg),
    /// `8xy2`: set Vx to Vx AND Vy.
    And(Reg, Reg),
    /// `8xy3`: set Vx to Vx XOR Vy.
    Xor(Reg, Reg),
    /// `8xy4`: add Vy to Vx; VF receives the carry.
    Add(Reg, Reg),
    /// `8xy5`: subtract Vy from Vx; VF is 1 when nothing was borrowed.
    Sub(Reg, Reg),
    /// `8xy6`: shift right by one; VF receives the bit shifted out.
    Shr(Reg, Reg),
    /// `8xy7`: set Vx to Vy minus Vx; VF is 1 when nothing was borrowed.
    Subn(Reg, Reg),
    /// `8xyE`: shift left by one; VF receives the bit shifted out.
    Shl(Reg, Reg),
    /// `9xy0`: skip the next instruction if Vx differs from Vy.
    SkipNotEqual(Reg, Reg),
    /// `Annn`: set I to `nnn`.
    WriteI(u16),
    /// `Bnnn`: jump to `nnn` plus V0.
    JumpV0(u16),
    /// `Cxkk`: set Vx to a random byte masked with `kk`.
    Random(Reg, u8),
    /// `Dxyn`: draw the `n`-row sprite at I at position (Vx, Vy).
    Draw(Reg, Reg, u8),
    /// `Ex9E`: skip the next instruction if the key named by Vx is down.
    SkipPressed(Reg),
    /// `ExA1`: skip the next instruction if the key named by Vx is up.
    SkipNotPressed(Reg),
    /// `Fx07`: set Vx to the delay timer.
    ReadDt(Reg),
    /// `Fx0A`: wait for a key press and store the key in Vx.
    ReadKey(Reg),
    /// `Fx15`: set the delay timer to Vx.
    WriteDt(Reg),
    /// `Fx18`: set the sound timer to Vx.
    WriteSt(Reg),
    /// `Fx1E`: add Vx to I.
    AddI(Reg),
    /// `Fx29`: point I at the glyph for the low hex digit of Vx.
    LoadDigit(Reg),
    /// `Fx33`: store the three decimal digits of Vx at I, I+1, I+2.
    WriteBCD(Reg),
    /// `Fx55`: store V0..=Vx at I onwards.
    WriteRegs(Reg),
    /// `Fx65`: load V0..=Vx from I onwards.
    ReadRegs(Reg),
    /// A word that is no instruction, kept as it was read.
    Unknown(u16),
}

/// The register named by the second hex digit of `word`.
pub open spec fn reg_x(word: u16) -> Reg {
    Reg::V(((word / 256) % 16) as u8)
}

/// The register named by the third hex digit of `word`.
pub open spec fn reg_y(word: u16) -> Reg {
    Reg::V(((word / 16) % 16) as u8)
}

/// The low byte of `word`.
pub open spec fn low_byte(word: u16) -> u8 {
    (word % 256) as u8
}

/// The low twelve bits of `word`.
pub open spec fn address(word: u16) -> u16 {
    word % 4096
}

/// The instruction that `word` encodes: the family is chosen by the leading hex
/// digit, the member by the last digit or the low byte, and every word that fits
/// no member is `Unknown`.
pub open spec fn spec_decode(word: u16) -> Opcode {
    let family = word / 4096;
    let x = reg_x(word);
    let y = reg_y(word);
    let kk = low_byte(word);
    let nnn = address(word);
    let last = word % 16;
    if family == 0x0 {
        if word == 0x00E0 {
            Opcode::Clear
        } else if word == 0x00EE {
            Opcode::Return
        } else {
            Opcode::SysCall(nnn)
        }
    } else if family == 0x1 {
        Opcode::Jump(nnn)
    } else if family == 0x2 {
        Opcode::Call(nnn)
    } else if family == 0x3 {
        Opcode::SkipEqualByte(x, kk)
    } else if family == 0x4 {
        Opcode::SkipNotEqualByte(x, kk)
    } else if family == 0x5 {
        if last == 0 {
            Opcode::SkipEqual(x, y)
        } else {
            Opcode::Unknown(word)
        }
    } else if family == 0x6 {
        Opcode::LoadByte(x, kk)
    } else if family == 0x7 {
        Opcode::AddByte(x, kk)
    } else if family == 0x8 {
        if last == 0x0 {
            Opcode::Copy(x, y)
        } else if last == 0x1 {
            Opcode::Or(x, y)
        } else if last == 0x2 {
            Opcode::And(x, y)
        } else if last == 0x3 {
            Opcode::Xor(x, y)
        } else if last == 0x4 {
            Opcode::Add(x, y)
        } else if last == 0x5 {
            Opcode::Sub(x, y)
        } else if last == 0x6 {
            Opcode::Shr(x, y)
        } else if last == 0x7 {
            Opcode::Subn(x, y)
        } else if last == 0xE {
            Opcode::Shl(x, y)
        } else {
            Opcode::Unknown(word)
        }
    } else if family == 0x9 {
        if last == 0 {
            Opcode::SkipNotEqual(x, y)
        } else {
            Opcode::Unknown(word)
        }
    } else if family == 0xA {
        Opcode::WriteI(nnn)
    } else if family == 0xB {
        Opcode::JumpV0(nnn)
    } else if family == 0xC {
        Opcode::Random(x, kk)
    } else if family == 0xD {
        Opcode::Draw(x, y, last as u8)
    } else if family == 0xE {
        if kk == 0x9E {
            Opcode::SkipPressed(x)
        } else if kk == 0xA1 {
            Opcode::SkipNotPressed(x)
        } else {
            Opcode::Unknown(word)
        }
    } else {
        if kk == 0x07 {
            Opcode::ReadDt(x)
        } else if kk == 0x0A {
            Opcode::ReadKey(x)
        } else if kk == 0x15 {
            Opcode::WriteDt(x)
        } else if kk == 0x18 {
            Opcode::WriteSt(x)
        } else if kk == 0x1E {
            Opcode::AddI(x)
        } else if kk == 0x29 {
            Opcode::LoadDigit(x)
        } else if kk == 0x33 {
            Opcode::WriteBCD(x)
        } else if kk == 0x55 {
            Opcode::WriteRegs(x)
        } else if kk == 0x65 {
            Opcode::ReadRegs(x)
        } else {
            Opcode::Unknown(word)
        }
    }
}

/// The word made of a leading hex digit, a register and a byte.
pub open spec fn word_xkk(family: int, x: Reg, kk: u8) -> u16 {
    (family * 4096 + x.index() * 256 + kk) as u16
}

/// The word made of a leading hex digit, two registers and a last hex digit.
pub open spec fn word_xyn(family: int, x: Reg, y: Reg, n: int) -> u16 {
    (family * 4096 + x.index() * 256 + y.index() * 16 + n) as u16
}

/// The word made of a leading hex digit and a twelve-bit address.
pub open spec fn word_nnn(family: int, nnn: u16) -> u16 {
    (family * 4096 + nnn) as u16
}

impl Opcode {
    /// Every operand fits its field of the instruction word, and the variant is the
    /// one the decoder would choose for that word: a `SysCall` does not name the
    /// address of `Clear` or `Return`, and an `Unknown` holds no instruction.
    pub open spec fn wf(self) -> bool {
        match self {
            Opcode::Clear => true,
            Opcode::Return => true,
            Opcode::SysCall(nnn) => nnn < 4096 && nnn != 0x0E0 && nnn != 0x0EE,
            Opcode::Jump(nnn) => nnn < 4096,
            Opcode::Call(nnn) => nnn < 4096,
            Opcode::SkipEqualByte(x, _) => x.wf(),
            Opcode::SkipNotEqualByte(x, _) => x.wf(),
            Opcode::SkipEqual(x, y) => x.wf() && y.wf(),
            Opcode::LoadByte(x, _) => x.wf(),
            Opcode::AddByte(x, _) => x.wf(),
            Opcode::Copy(x, y) => x.wf() && y.wf(),
            Opcode::Or(x, y) => x.wf() && y.wf(),
            Opcode::And(x, y) => x.wf() && y.wf(),
            Opcode::Xor(x, y) => x.wf() && y.wf(),
            Opcode::Add(x, y) => x.wf() && y.wf(),
            Opcode::Sub(x, y) => x.wf() && y.wf(),
            Opcode::Shr(x, y) => x.wf() && y.wf(),
            Opcode::Subn(x, y) => x.wf() && y.wf(),
            Opcode::Shl(x, y) => x.wf() && y.wf(),
            Opcode::SkipNotEqual(x, y) => x.wf() && y.wf(),
            Opcode::WriteI(nnn) => nnn < 4096,
            Opcode::JumpV0(nnn) => nnn < 4096,
            Opcode::Random(x, _) => x.wf(),
            Opcode::Draw(x, y, n) => x.wf() && y.wf() && n < 16,
            Opcode::SkipPressed(x) => x.wf(),
            Opcode::SkipNotPressed(x) => x.wf(),
            Opcode::ReadDt(x) => x.wf(),
            Opcode::ReadKey(x) => x.wf(),
            Opcode::WriteDt(x) => x.wf(),
            Opcode::WriteSt(x) => x.wf(),
            Opcode::AddI(x) => x.wf(),
            Opcode::LoadDigit(x) => x.wf(),
            Opcode::WriteBCD(x) => x.wf(),
            Opcode::WriteRegs(x) => x.wf(),
            Opcode::ReadRegs(x) => x.wf(),
            Opcode::Unknown(word) => spec_decode(word) is Unknown,
        }
    }

    /// The instruction word for this instruction.
    pub open spec fn spec_encode(self) -> u16 {
        match self {
            Opcode::Clear => 0x00E0,
            Opcode::Return => 0x00EE,
            Opcode::SysCall(nnn) => word_nnn(0x0, nnn),
            Opcode::Jump(nnn) => word_nnn(0x1, nnn),
            Opcode::Call(nnn) => word_nnn(0x2, nnn),
            Opcode::SkipEqualByte(x, kk) => word_xkk(0x3, x, kk),
            Opcode::SkipNotEqualByte(x, kk) => word_xkk(0x4, x, kk),
            Opcode::SkipEqual(x, y) => word_xyn(0x5, x, y, 0x0),
            Opcode::LoadByte(x, kk) => word_xkk(0x6, x, kk),
            Opcode::AddByte(x, kk) => word_xkk(0x7, x, kk),
            Opcode::Copy(x, y) => word_xyn(0x8, x, y, 0x0),
            Opcode::Or(x, y) => word_xyn(0x8, x, y, 0x1),
            Opcode::And(x, y) => word_xyn(0x8, x, y, 0x2),
            Opcode::Xor(x, y) => word_xyn(0x8, x, y, 0x3),
            Opcode::Add(x, y) => word_xyn(0x8, x, y, 0x4),
            Opcode::Sub(x, y) => word_xyn(0x8, x, y, 0x5),
            Opcode::Shr(x, y) => word_xyn(0x8, x, y, 0x6),
            Opcode::Subn(x, y) => word_xyn(0x8, x, y, 0x7),
            Opcode::Shl(x, y) => word_xyn(0x8, x, y, 0xE),
            Opcode::SkipNotEqual(x, y) => word_xyn(0x9, x, y, 0x0),
            Opcode::WriteI(nnn) => word_nnn(0xA, nnn),
            Opcode::JumpV0(nnn) => word_nnn(0xB, nnn),
            Opcode::Random(x, kk) => word_xkk(0xC, x, kk),
            Opcode::Draw(x, y, n) => word_xyn(0xD, x, y, n as int),
            Opcode::SkipPressed(x) => word_xkk(0xE, x, 0x9E),
            Opcode::SkipNotPressed(x) => word_xkk(0xE, x, 0xA1),
            Opcode::ReadDt(x) => word_xkk(0xF, x, 0x07),
            Opcode::ReadKey(x) => word_xkk(0xF, x, 0x0A),
            Opcode::WriteDt(x) => word_xkk(0xF, x, 0x15),
            Opcode::WriteSt(x) => word_xkk(0xF, x, 0x18),
            Opcode::AddI(x) => word_xkk(0xF, x, 0x1E),
            Opcode::LoadDigit(x) => word_xkk(0xF, x, 0x29),
            Opcode::WriteBCD(x) => word_xkk(0xF, x, 0x33),
            Opcode::WriteRegs(x) => word_xkk(0xF, x, 0x55),
            Opcode::ReadRegs(x) => word_xkk(0xF, x, 0x65),
            Opcode::Unknown(word) => word,
        }
    }
}

/// A word is its leading hex digit followed by its low twelve bits, which are the
/// second digit followed by the low byte, which is the third digit followed by the
/// last.
pub proof fn lemma_word_fields(word: u16)
    ensures
        word / 4096 < 16,
        word == (word / 4096) * 4096 + address(word),
        address(word) == reg_x(word).index() * 256 + low_byte(word),
        low_byte(word) == reg_y(word).index() * 16 + word % 16,
        reg_x(word).wf(),
        reg_y(word).wf(),
{
    assert(word / 4096 < 16) by (bit_vector);
    assert(word == (word / 4096) * 4096 + word % 4096) by (bit_vector);
    assert(word % 4096 == ((word / 256) % 16) * 256 + word % 256) by (bit_vector);
    assert(word % 256 == ((word / 16) % 16) * 16 + word % 16) by (bit_vector);
}

/// The fields of a word put together from a leading digit, a register and a byte.
pub proof fn lemma_fields_of_xkk(family: int, x: Reg, kk: u8)
    requires
        0 <= family < 16,
        x.wf(),
    ensures
        word_xkk(family, x, kk) / 4096 == family,
        reg_x(word_xkk(family, x, kk)) == x,
        low_byte(word_xkk(family, x, kk)) == kk,
{
    let f = family as u16;
    let xi = x->0 as u16;
    let k = kk as u16;
    let w = word_xkk(family, x, kk);
    assert(w == f * 4096 + xi * 256 + k);
    assert(w / 4096 == f && (w / 256) % 16 == xi && w % 256 == k) by (bit_vector)
        requires
            f < 16,
            xi < 16,
            k < 256,
            w == f * 4096 + xi * 256 + k,
    ;
}

/// The fields of a word put together from a leading digit, two registers and a
/// last digit.
pub proof fn lemma_fields_of_xyn(family: int, x: Reg, y: Reg, n: int)
    requires
        0 <= family < 16,
        x.wf(),
        y.wf(),
        0 <= n < 16,
    ensures
        word_xyn(family, x, y, n) / 4096 == family,
        reg_x(word_xyn(family, x, y, n)) == x,
        reg_y(word_xyn(family, x, y, n)) == y,
        word_xyn(family, x, y, n) % 16 == n,
        low_byte(word_xyn(family, x, y, n)) == y.index() * 16 + n,
{
    let f = family as u16;
    let xi = x->0 as u16;
    let yi = y->0 as u16;
    let d = n as u16;
    let w = word_xyn(family, x, y, n);
    assert(w == f * 4096 + xi * 256 + yi * 16 + d);
    assert(w / 4096 == f && (w / 256) % 16 == xi && (w / 16) % 16 == yi && w % 16 == d && w % 256
        == yi * 16 + d) by (bit_vector)
        requires
            f < 16,
            xi < 16,
            yi < 16,
            d < 16,
            w == f * 4096 + xi * 256 + yi * 16 + d,
    ;
}

/// The fields of a word put together from a leading digit and an address.
pub proof fn lemma_fields_of_nnn(family: int, nnn: u16)
    requires
        0 <= family < 16,
        nnn < 4096,
    ensures
        word_nnn(family, nnn) / 4096 == family,
        address(word_nnn(family, nnn)) == nnn,
{
    let f = family as u16;
    let w = word_nnn(family, nnn);
    assert(w == f * 4096 + nnn);
    assert(w / 4096 == f && w % 4096 == nnn) by (bit_vector)
        requires
            f < 16,
            nnn < 4096,
            w == f * 4096 + nnn,
    ;
}

/// Decoding then encoding gives the word back, whatever the word: an instruction
/// is rebuilt from its operands, and a word that is none is carried unchanged.
pub proof fn lemma_encode_decode(word: u16)
    ensures
        spec_decode(word).wf(),
        spec_decode(word).spec_encode() == word,
{
    lemma_word_fields(word);
}

/// Encoding then decoding gives the instruction back.
pub proof fn lemma_decode_encode(op: Opcode)
    requires
        op.wf(),
    ensures
        spec_decode(op.spec_encode()) == op,
{
    match op {
        Opcode::Clear => {},
        Opcode::Return => {},
        Opcode::SysCall(nnn) => lemma_fields_of_nnn(0x0, nnn),
        Opcode::Jump(nnn) => lemma_fields_of_nnn(0x1, nnn),
        Opcode::Call(nnn) => lemma_fields_of_nnn(0x2, nnn),
        Opcode::SkipEqualByte(x, kk) => lemma_fields_of_xkk(0x3, x, kk),
        Opcode::SkipNotEqualByte(x, kk) => lemma_fields_of_xkk(0x4, x, kk),
        Opcode::SkipEqual(x, y) => lemma_fields_of_xyn(0x5, x, y, 0x0),
        Opcode::LoadByte(x, kk) => lemma_fields_of_xkk(0x6, x, kk),
        Opcode::AddByte(x, kk) => lemma_fields_of_xkk(0x7, x, kk),
        Opcode::Copy(x, y) => lemma_fields_of_xyn(0x8, x, y, 0x0),
        Opcode::Or(x, y) => lemma_fields_of_xyn(0x8, x, y, 0x1),
        Opcode::And(x, y) => lemma_fields_of_xyn(0x8, x, y, 0x2),
        Opcode::Xor(x, y) => lemma_fields_of_xyn(0x8, x, y, 0x3),
        Opcode::Add(x, y) => lemma_fields_of_xyn(0x8, x, y, 0x4),
        Opcode::Sub(x, y) => lemma_fields_of_xyn(0x8, x, y, 0x5),
        Opcode::Shr(x, y) => lemma_fields_of_xyn(0x8, x, y, 0x6),
        Opcode::Subn(x, y) => lemma_fields_of_xyn(0x8, x, y, 0x7),
        Opcode::Shl(x, y) => lemma_fields_of_xyn(0x8, x, y, 0xE),
        Opcode::SkipNotEqual(x, y) => lemma_fields_of_xyn(0x9, x, y, 0x0),
        Opcode::WriteI(nnn) => lemma_fields_of_nnn(0xA, nnn),
        Opcode::JumpV0(nnn) => lemma_fields_of_nnn(0xB, nnn),
        Opcode::Random(x, kk) => lemma_fields_of_xkk(0xC, x, kk),
        Opcode::Draw(x, y, n) => lemma_fields_of_xyn(0xD, x, y, n as int),
        Opcode::SkipPressed(x) => lemma_fields_of_xkk(0xE, x, 0x9E),
        Opcode::SkipNotPressed(x) => lemma_fields_of_xkk(0xE, x, 0xA1),
        Opcode::ReadDt(x) => lemma_fields_of_xkk(0xF, x, 0x07),
        Opcode::ReadKey(x) => lemma_fields_of_xkk(0xF, x, 0x0A),
        Opcode::WriteDt(x) => lemma_fields_of_xkk(0xF, x, 0x15),
        Opcode::WriteSt(x) => lemma_fields_of_xkk(0xF, x, 0x18),
        Opcode::AddI(x) => lemma_fields_of_xkk(0xF, x, 0x1E),
        Opcode::LoadDigit(x) => lemma_fields_of_xkk(0xF, x, 0x29),
        Opcode::WriteBCD(x) => lemma_fields_of_xkk(0xF, x, 0x33),
        Opcode::WriteRegs(x) => lemma_fields_of_xkk(0xF, x, 0x55),
        Opcode::ReadRegs(x) => lemma_fields_of_xkk(0xF, x, 0x65),
        Opcode::Unknown(word) => {},
    }
}

/// Two well-formed instructions with the same word are the same instruction.
pub proof fn lemma_encode_injective(a: Opcode, b: Opcode)
    requires
        a.wf(),
        b.wf(),
        a.spec_encode() == b.spec_encode(),
    ensures
        a == b,
{
    lemma_decode_encode(a);
    lemma_decode_encode(b);
}

/// Decodes an instruction word. Every word decodes: one that fits no instruction
/// becomes `Unknown` and carries the word along.
pub fn decode(word: u16) -> (op: Opcode)
    ensures
        op == spec_decode(word),
        op.wf(),
        op.spec_encode() == word,
{
    proof {
        lemma_word_fields(word);
        lemma_encode_decode(word);
    }
    match u16_to_nibbles(word) {
        (0x0, 0x0, 0xE, 0x0) => Opcode::Clear,
        (0x0, 0x0, 0xE, 0xE) => Opcode::Return,
        (0x0, n1, n2, n3) => Opcode::SysCall(nibbles_to_u16(0, n1, n2, n3)),
        (0x1, n1, n2, n3) => Opcode::Jump(nibbles_to_u16(0, n1, n2, n3)),
        (0x2, n1, n2, n3) => Opcode::Call(nibbles_to_u16(0, n1, n2, n3)),
        (0x3, x, n1, n2) => Opcode::SkipEqualByte(Reg::V(x), nibbles_to_u8(n1, n2)),
        (0x4, x, n1, n2) => Opcode::SkipNotEqualByte(Reg::V(x), nibbles_to_u8(n1, n2)),
        (0x5, x, y, 0x0) => Opcode::SkipEqual(Reg::V(x), Reg::V(y)),
        (0x6, x, n1, n2) => Opcode::LoadByte(Reg::V(x), nibbles_to_u8(n1, n2)),
        (0x7, x, n1, n2) => Opcode::AddByte(Reg::V(x), nibbles_to_u8(n1, n2)),
        (0x8, x, y, 0x0) => Opcode::Copy(Reg::V(x), Reg::V(y)),
        (0x8, x, y, 0x1) => Opcode::Or(Reg::V(x), Reg::V(y)),
        (0x8, x, y, 0x2) => Opcode::And(Reg::V(x), Reg::V(y)),
        (0x8, x, y, 0x3) => Opcode::Xor(Reg::V(x), Reg::V(y)),
        (0x8, x, y, 0x4) => Opcode::Add(Reg::V(x), Reg::V(y)),
        (0x8, x, y, 0x5) => Opcode::Sub(Reg::V(x), Reg::V(y)),
        (0x8, x, y, 0x6) => Opcode::Shr(Reg::V(x), Reg::V(y)),
        (0x8, x, y, 0x7) => Opcode::Subn(Reg::V(x), Reg::V(y)),
        (0x8, x, y, 0xE) => Opcode::Shl(Reg::V(x), Reg::V(y)),
        (0x9, x, y, 0x0) => Opcode::SkipNotEqual(Reg::V(x), Reg::V(y)),
        (0xA, n1, n2, n3) => Opcode::WriteI(nibbles_to_u16(0, n1, n2, n3)),
        (0xB, n1, n2, n3) => Opcode::JumpV0(nibbles_to_u16(0, n1, n2, n3)),
        (0xC, x, n1, n2) => Opcode::Random(Reg::V(x), nibbles_to_u8(n1, n2)),
        (0xD, x, y, n1) => Opcode::Draw(Reg::V(x), Reg::V(y), n1),
        (0xE, x, 0x9, 0xE) => Opcode::SkipPressed(Reg::V(x)),
        (0xE, x, 0xA, 0x1) => Opcode::SkipNotPressed(Reg::V(x)),
        (0xF, x, 0x0, 0x7) => Opcode::ReadDt(Reg::V(x)),
        (0xF, x, 0x0, 0xA) => Opcode::ReadKey(Reg::V(x)),
        (0xF, x, 0x1, 0x5) => Opcode::WriteDt(Reg::V(x)),
        (0xF, x, 0x1, 0x8) => Opcode::WriteSt(Reg::V(x)),
        (0xF, x, 0x1, 0xE) => Opcode::AddI(Reg::V(x)),
        (0xF, x, 0x2, 0x9) => Opcode::LoadDigit(Reg::V(x)),
        (0xF, x, 0x3, 0x3) => Opcode::WriteBCD(Reg::V(x)),
        (0xF, x, 0x5, 0x5) => Opcode::WriteRegs(Reg::V(x)),
        (0xF, x, 0x6, 0x5) => Opcode::ReadRegs(Reg::V(x)),
        (_, _, _, _) => Opcode::Unknown(word),
    }
}

/// The word of a leading hex digit, a register and a byte.
fn pack_xkk(family: u16, x: Reg, kk: u8) -> (word: u16)
    requires
        family < 16,
        x.wf(),
    ensures
        word == word_xkk(family as int, x, kk),
{
    family * 4096 + (x.position() as u16) * 256 + kk as u16
}

/// The word of a leading hex digit, two registers and a last hex digit.
fn pack_xyn(family: u16, x: Reg, y: Reg, n: u8) -> (word: u16)
    requires
        family < 16,
        x.wf(),
        y.wf(),
        n < 16,
    ensures
        word == word_xyn(family as int, x, y, n as int),
{
    family * 4096 + (x.position() as u16) * 256 + (y.position() as u16) * 16 + n as u16
}

/// The word of a leading hex digit and a twelve-bit address.
fn pack_nnn(family: u16, nnn: u16) -> (word: u16)
    requires
        family < 16,
        nnn < 4096,
    ensures
        word == word_nnn(family as int, nnn),
{
    family * 4096 + nnn
}

impl Opcode {
    /// Whether the operands fit their fields and the variant is the decoder's
    /// choice for the word they make.
    pub fn is_valid(&self) -> (ok: bool)
        ensures
            ok == self.wf(),
    {
        match *self {
            Opcode::Clear | Opcode::Return => true,
            Opcode::SysCall(nnn) => nnn < 4096 && nnn != 0x0E0 && nnn != 0x0EE,
            Opcode::Jump(nnn) | Opcode::Call(nnn) | Opcode::WriteI(nnn) | Opcode::JumpV0(nnn) => nnn
                < 4096,
            Opcode::SkipEqualByte(Reg::V(x), _)
            | Opcode::SkipNotEqualByte(Reg::V(x), _)
            | Opcode::LoadByte(Reg::V(x), _)
            | Opcode::AddByte(Reg::V(x), _)
            | Opcode::Random(Reg::V(x), _) => x < 16,
            Opcode::SkipEqual(Reg::V(x), Reg::V(y))
            | Opcode::Copy(Reg::V(x), Reg::V(y))
            | Opcode::Or(Reg::V(x), Reg::V(y))
            | Opcode::And(Reg::V(x), Reg::V(y))
            | Opcode::Xor(Reg::V(x), Reg::V(y))
            | Opcode::Add(Reg::V(x), Reg::V(y))
            | Opcode::Sub(Reg::V(x), Reg::V(y))
            | Opcode::Shr(Reg::V(x), Reg::V(y))
            | Opcode::Subn(Reg::V(x), Reg::V(y))
            | Opcode::Shl(Reg::V(x), Reg::V(y))
            | Opcode::SkipNotEqual(Reg::V(x), Reg::V(y)) => x < 16 && y < 16,
            Opcode::Draw(Reg::V(x), Reg::V(y), n) => x < 16 && y < 16 && n < 16,
            Opcode::SkipPressed(Reg::V(x))
            | Opcode::SkipNotPressed(Reg::V(x))
            | Opcode::ReadDt(Reg::V(x))
            | Opcode::ReadKey(Reg::V(x))
            | Opcode::WriteDt(Reg::V(x))
            | Opcode::WriteSt(Reg::V(x))
            | Opcode::AddI(Reg::V(x))
            | Opcode::LoadDigit(Reg::V(x))
            | Opcode::WriteBCD(Reg::V(x))
            | Opcode::WriteRegs(Reg::V(x))
            | Opcode::ReadRegs(Reg::V(x)) => x < 16,
            Opcode::Unknown(word) => match decode(word) {
                Opcode::Unknown(_) => true,
                _ => false,
            },
        }
    }

    /// The instruction word that decodes to this instruction.
    pub fn encode(&self) -> (word: u16)
        requires
            self.wf(),
        ensures
            word == self.spec_encode(),
            spec_decode(word) == *self,
    {
        proof {
            lemma_decode_encode(*self);
        }
        match *self {
            Opcode::Clear => 0x00E0,
            Opcode::Return => 0x00EE,
            Opcode::SysCall(nnn) => pack_nnn(0x0, nnn),
            Opcode::Jump(nnn) => pack_nnn(0x1, nnn),
            Opcode::Call(nnn) => pack_nnn(0x2, nnn),
            Opcode::SkipEqualByte(x, kk) => pack_xkk(0x3, x, kk),
            Opcode::SkipNotEqualByte(x, kk) => pack_xkk(0x4, x, kk),
            Opcode::SkipEqual(x, y) => pack_xyn(0x5, x, y, 0x0),
            Opcode::LoadByte(x, kk) => pack_xkk(0x6, x, kk),
            Opcode::AddByte(x, kk) => pack_xkk(0x7, x, kk),
            Opcode::Copy(x, y) => pack_xyn(0x8, x, y, 0x0),
            Opcode::Or(x, y) => pack_xyn(0x8, x, y, 0x1),
            Opcode::And(x, y) => pack_xyn(0x8, x, y, 0x2),
            Opcode::Xor(x, y) => pack_xyn(0x8, x, y, 0x3),
            Opcode::Add(x, y) => pack_xyn(0x8, x, y, 0x4),
            Opcode::Sub(x, y) => pack_xyn(0x8, x, y, 0x5),
            Opcode::Shr(x, y) => pack_xyn(0x8, x, y, 0x6),
            Opcode::Subn(x, y) => pack_xyn(0x8, x, y, 0x7),
            Opcode::Shl(x, y) => pack_xyn(0x8, x, y, 0xE),
            Opcode::SkipNotEqual(x, y) => pack_xyn(0x9, x, y, 0x0),
            Opcode::WriteI(nnn) => pack_nnn(0xA, nnn),
            Opcode::JumpV0(nnn) => pack_nnn(0xB, nnn),
            Opcode::Random(x, kk) => pack_xkk(0xC, x, kk),
            Opcode::Draw(x, y, n) => pack_xyn(0xD, x, y, n),
            Opcode::SkipPressed(x) => pack_xkk(0xE, x, 0x9E),
            Opcode::SkipNotPressed(x) => pack_xkk(0xE, x, 0xA1),
            Opcode::ReadDt(x) => pack_xkk(0xF, x, 0x07),
            Opcode::ReadKey(x) => pack_xkk(0xF, x, 0x0A),
            Opcode::WriteDt(x) => pack_xkk(0xF, x, 0x15),
            Opcode::WriteSt(x) => pack_xkk(0xF, x, 0x18),
            Opcode::AddI(x) => pack_xkk(0xF, x, 0x1E),
            Opcode::LoadDigit(x) => pack_xkk(0xF, x, 0x29),
            Opcode::WriteBCD(x) => pack_xkk(0xF, x, 0x33),
            Opcode::WriteRegs(x) => pack_xkk(0xF, x, 0x55),
            Opcode::ReadRegs(x) => pack_xkk(0xF, x, 0x65),
            Opcode::Unknown(word) => word,
        }
    }
}

} // verus!
