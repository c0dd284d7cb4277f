//! Main memory: 4096 bytes, of which the low 512 are reserved for the machine and
//! hold the built-in hex-digit glyphs, and the rest belongs to the program.

use vstd::prelude::*;
use crate::{MEM_SIZE, PROGRAM_START};

verus! {

/// Number of bytes in one glyph.
pub const GLYPH_SIZE: usize = 5;

/// Number of bytes in the glyph table.
pub const FONT_SIZE: usize = 80;

/// The glyphs of the hex digits 0 to F, five rows each, drawn in the high four
/// bits of every row. They sit at address 0.
pub const FONT_SPRITES: [u8; 80] = [
    0xF0, 0x90, 0x90, 0x90, 0xF0,
    0x20, 0x60, 0x20, 0x20, 0x70,
    0xF0, 0x10, 0xF0, 0x80, 0xF0,
    0xF0, 0x10, 0xF0, 0x10, 0xF0,
    0x90, 0x90, 0xF0, 0x10, 0x10,
    0xF0, 0x80, 0xF0, 0x10, 0xF0,
    0xF0, 0x80, 0xF0, 0x90, 0xF0,
    0xF0, 0x10, 0x20, 0x40, 0x40,
    0xF0, 0x90, 0xF0, 0x90, 0xF0,
    0xF0, 0x90, 0xF0, 0x10, 0xF0,
    0xF0, 0x90, 0xF0, 0x90, 0x90,
    0xE0, 0x90, 0xE0, 0x90, 0xE0,
    0xF0, 0x80, 0x80, 0x80, 0xF0,
    0xE0, 0x90, 0x90, 0x90, 0xE0,
    0xF0, 0x80, 0xF0, 0x80, 0xF0,
    0xF0, 0x80, 0xF0, 0x80, 0x80,
];

/// Why a program image was refused.
#[derive(Debug, Clone, Copy, PartialEq, Eq, Structural)]
pub enum LoadError {
    /// The image, of the given length, does not fit between the program origin
    /// and the end of memory.
    ImageTooLarge(usize),
}

/// `mem` with `bytes` laid over it from address `at` on.
pub open spec fn overlay(mem: Seq<u8>, at: int, bytes: Seq<u8>) -> Seq<u8> {
    Seq::new(
        mem.len(),
        |k: int|
            if at <= k < at + bytes.len() {
                bytes[k - at]
            } else {
                mem[k]
            },
    )
}

/// The big-endian 16-bit word at address `at`.
pub open spec fn word_at(mem: Seq<u8>, at: int) -> u16 {
    (mem[at] * 256 + mem[at + 1]) as u16
}

/// Memory as it is after a reset: the glyph table at address 0, zero elsewhere.
pub open spec fn reset_image() -> Seq<u8> {
    overlay(Seq::new(MEM_SIZE as nat, |k: int| 0u8), 0, FONT_SPRITES@)
}

/// Whether the glyph table stands at its place in `mem`.
pub open spec fn has_font(mem: Seq<u8>) -> bool {
    mem.len() == MEM_SIZE && forall|k: int| 0 <= k < FONT_SIZE ==> mem[k] == FONT_SPRITES@[k]
}

/// Whether `a` and `b` agree on the reserved region below the program origin.
pub open spec fn same_reserved(a: Seq<u8>, b: Seq<u8>) -> bool {
    a.len() == b.len() && forall|k: int| 0 <= k < PROGRAM_START && k < a.len() ==> a[k] == b[k]
}

/// Memory that agrees with one holding the glyph table on the reserved region
/// holds the table too.
pub proof fn lemma_font_is_reserved(a: Seq<u8>, b: Seq<u8>)
    requires
        has_font(a),
        same_reserved(a, b),
    ensures
        has_font(b),
{
}

/// After a reset the glyph table is in place and everything else is zero.
pub proof fn lemma_reset_image()
    ensures
        has_font(reset_image()),
        forall|k: int| FONT_SIZE <= k < MEM_SIZE ==> reset_image()[k] == 0,
{
}

/// The 4096 bytes of main memory.
pub struct Ram {
    mem: [u8; MEM_SIZE],
}

/// Memory with every byte zero. The glyph table arrives with the first `reset`.
pub fn new() -> (ram: Ram)
    ensures
        ram@ == Seq::new(MEM_SIZE as nat, |k: int| 0u8),
{
    let ram = Ram { mem: [0;MEM_SIZE] };
    assert(ram.mem@ =~= Seq::new(MEM_SIZE as nat, |k: int| 0u8));
    ram
}

impl Ram {
    /// The bytes, by address.
    pub closed spec fn view(&self) -> Seq<u8> {
        self.mem@
    }

    /// Memory always has `MEM_SIZE` bytes.
    pub proof fn lemma_len(&self)
        ensures
            self@.len() == MEM_SIZE,
    {
    }

    /// Zeroes memory and puts the glyph table back.
    pub fn reset(&mut self)
        ensures
            final(self)@ == reset_image(),
            has_font(final(self)@),
    {
        let mut k: usize = 0;
        while k < MEM_SIZE
            invariant
                k <= MEM_SIZE,
                forall|j: int| 0 <= j < k ==> self.mem@[j] == 0,
            decreases MEM_SIZE - k,
        {
            self.mem[k] = 0;
            k += 1;
        }
        assert(self.mem@ =~= Seq::new(MEM_SIZE as nat, |k: int| 0u8));
        self.init_char_sprites();
        proof {
            lemma_reset_image();
        }
    }

    /// Writes the glyph table at address 0 and leaves the rest as it is.
    pub fn init_char_sprites(&mut self)
        ensures
            final(self)@ == overlay(old(self)@, 0, FONT_SPRITES@),
    {
        let ghost before = self.mem@;
        let mut k: usize = 0;
        while k < FONT_SIZE
            invariant
                k <= FONT_SIZE,
                forall|j: int| 0 <= j < k ==> self.mem@[j] == FONT_SPRITES@[j],
                forall|j: int| k <= j < MEM_SIZE ==> self.mem@[j] == before[j],
            decreases FONT_SIZE - k,
        {
            self.mem[k] = FONT_SPRITES[k];
            k += 1;
        }
        assert(self.mem@ =~= overlay(before, 0, FONT_SPRITES@));
    }

    /// Copies a program image to the program origin. An image that does not fit in
    /// the memory above the origin is refused and memory stays as it was.
    pub fn load_rom(&mut self, image: &[u8]) -> (r: Result<(), LoadError>)
        ensures
            r is Ok <==> image@.len() <= MEM_SIZE - PROGRAM_START,
            r is Ok ==> final(self)@ == overlay(old(self)@, PROGRAM_START as int, image@),
            r is Err ==> r == Err::<(), LoadError>(LoadError::ImageTooLarge(image@.len() as usize)),
            r is Err ==> final(self)@ == old(self)@,
            same_reserved(old(self)@, final(self)@),
    {
        let n = image.len();
        if n > MEM_SIZE - PROGRAM_START {
            return Err(LoadError::ImageTooLarge(n));
        }
        self.store(PROGRAM_START, image);
        Ok(())
    }

    /// Stores `bytes` from `at` on, within program memory.
    pub fn store(&mut self, at: usize, bytes: &[u8])
        requires
            PROGRAM_START <= at,
            at + bytes@.len() <= MEM_SIZE,
        ensures
            final(self)@ == overlay(old(self)@, at as int, bytes@),
            same_reserved(old(self)@, final(self)@),
    {
        let ghost before = self.mem@;
        let n = bytes.len();
        let mut k: usize = 0;
        while k < n
            invariant
                k <= n,
                n == bytes@.len(),
                PROGRAM_START <= at,
                at + n <= MEM_SIZE,
                forall|j: int| 0 <= j < k ==> self.mem@[at + j] == bytes@[j],
                forall|j: int|
                    0 <= j < MEM_SIZE && !(at <= j < at + k) ==> self.mem@[j] == before[j],
            decreases n - k,
        {
            self.mem[at + k] = bytes[k];
            k += 1;
        }
        assert(self.mem@ =~= overlay(before, at as int, bytes@));
    }

    /// The big-endian 16-bit word at address `i`.
    pub fn read_mem(&self, i: usize) -> (word: u16)
        requires
            i + 1 < MEM_SIZE,
        ensures
            word == word_at(self@, i as int),
            word == self@[i as int] * 256 + self@[i + 1],
    {
        let hi = self.mem[i];
        let lo = self.mem[i + 1];
        assert((hi as u16) << 8 | lo as u16 == hi * 256 + lo) by (bit_vector);
        (hi as u16) << 8 | lo as u16
    }

    /// The whole of memory as big-endian 16-bit words, one for each even address.
    pub fn dump_mem(&self) -> (words: Vec<u16>)
        ensures
            words@.len() == MEM_SIZE / 2,
            forall|k: int| 0 <= k < MEM_SIZE / 2 ==> words@[k] == word_at(self@, 2 * k),
    {
        let mut words: Vec<u16> = Vec::new();
        let mut k: usize = 0;
        while k < MEM_SIZE / 2
            invariant
                k <= MEM_SIZE / 2,
                words@.len() == k,
                forall|j: int| 0 <= j < k ==> words@[j] == word_at(self@, 2 * j),
            decreases MEM_SIZE / 2 - k,
        {
            let word = self.read_mem(2 * k);
            words.push(word);
            k += 1;
        }
        words
    }

    /// The byte at `addr`.
    pub fn read_byte(&self, addr: usize) -> (byte: u8)
        requires
            addr < MEM_SIZE,
        ensures
            byte == self@[addr as int],
    {
        self.mem[addr]
    }

    /// The `len` bytes from `start` on.
    pub fn bytes(&self, start: usize, len: usize) -> (out: &[u8])
        requires
            start + len <= MEM_SIZE,
        ensures
            out@ == self@.subrange(start as int, start + len),
    {
        &self.mem[start..start + len]
    }

    /// Stores `byte` at `addr`, which lies in program memory: nothing is ever
    /// stored below the program origin.
    pub fn write_byte(&mut self, addr: usize, byte: u8)
        requires
            PROGRAM_START <= addr < MEM_SIZE,
        ensures
            final(self)@ == old(self)@.update(addr as int, byte),
            same_reserved(old(self)@, final(self)@),
    {
        self.mem[addr] = byte;
    }
}

} // verus!
