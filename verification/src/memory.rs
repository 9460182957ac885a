//! Addressable memory and the structural opcode decoder.
//!
//! Memory is a flat 4096-byte space. The first 80 bytes hold the built-in
//! glyph sprites for the hexadecimal digits; the region from `0x200` up holds
//! the loaded program image. Loading a ROM overlays bytes onto the program
//! region without zeroing it first; only an explicit [`ChipMemory::clear`]
//! zeroes the program region (and leaves the glyphs alone).

use vstd::prelude::*;
use vstd::slice::slice_subrange;

use crate::error::Chip8Error;

verus! {

/// Total number of addressable bytes.
pub const MEMORY_SIZE: usize = 4096;

/// First address of the program region.
pub const PROGRAM_SPACE_START: usize = 0x200;

/// Largest ROM the program region accepts.
pub const MAX_PROGRAM_SIZE: usize = 0xFFF - 0x200;

/// Sixteen 5-byte glyph sprites, one for each hexadecimal digit.
pub const BUILTIN_SPRITES: [u8; 80] = [
    0xf0, 0x90, 0x90, 0x90, 0xf0, // 0
    0x20, 0x60, 0x20, 0x20, 0x70, // 1
    0xf0, 0x10, 0xf0, 0x80, 0xf0, // 2
    0xf0, 0x10, 0xf0, 0x10, 0xf0, // 3
    0x90, 0x90, 0xf0, 0x10, 0x10, // 4
    0xf0, 0x80, 0xf0, 0x10, 0xf0, // 5
    0xf0, 0x80, 0xf0, 0x90, 0xf0, // 6
    0xf0, 0x10, 0x20, 0x40, 0x40, // 7
    0xf0, 0x90, 0xf0, 0x90, 0xf0, // 8
    0xf0, 0x90, 0xf0, 0x10, 0xf0, // 9
    0xf0, 0x90, 0xf0, 0x90, 0x90, // A
    0xe0, 0x90, 0xe0, 0x90, 0xe0, // B
    0xf0, 0x80, 0x80, 0x80, 0xf0, // C
    0xe0, 0x90, 0x90, 0x90, 0xe0, // D
    0xf0, 0x80, 0xf0, 0x80, 0xf0, // E
    0xf0, 0x80, 0xf0, 0x80, 0x80, // F
];

/// The glyph table as a sequence.
pub open spec fn glyph_seq() -> Seq<u8> {
    BUILTIN_SPRITES@
}

/// Memory right after initialization: the glyph table followed by zeroes.
pub open spec fn spec_init_mem() -> Seq<u8> {
    glyph_seq() + Seq::new((MEMORY_SIZE - 80) as nat, |i: int| 0u8)
}

/// What loading `rom` does to memory `mem`: too long is rejected with the
/// offered length, otherwise the bytes overlay the start of the program
/// region and everything else stays.
pub open spec fn spec_load(mem: Seq<u8>, rom: Seq<u8>) -> Result<Seq<u8>, Chip8Error> {
    if rom.len() > MAX_PROGRAM_SIZE {
        Err(Chip8Error::InvalidProgramSize(rom.len() as usize))
    } else {
        Ok(mem.take(PROGRAM_SPACE_START as int) + rom + mem.skip(PROGRAM_SPACE_START + rom.len()))
    }
}

/// What clearing does to memory `mem`: the program region is zeroed, the
/// reserved region below `0x200` (the glyph table included) stays.
pub open spec fn spec_clear(mem: Seq<u8>) -> Seq<u8> {
    mem.take(PROGRAM_SPACE_START as int)
        + Seq::new((MEMORY_SIZE - PROGRAM_SPACE_START) as nat, |i: int| 0u8)
}

/// What fetching at `pc` returns: the two bytes at `pc` big-endian, or an
/// address error when `pc + 1` falls outside memory.
pub open spec fn spec_fetch(mem: Seq<u8>, pc: u16) -> Result<u16, Chip8Error> {
    if pc + 1 < MEMORY_SIZE {
        Ok((mem[pc as int] * 256 + mem[pc as int + 1]) as u16)
    } else {
        Err(Chip8Error::InvalidMemoryAddress(pc))
    }
}

/// The 12-bit address field of an instruction word.
pub open spec fn nnn_of(w: u16) -> u16 {
    w & 0x0FFF
}

/// The low nibble of an instruction word.
pub open spec fn n_of(w: u16) -> u8 {
    (w & 0x000F) as u8
}

/// The first register selector of an instruction word.
pub open spec fn x_of(w: u16) -> u8 {
    ((w & 0x0F00) >> 8) as u8
}

/// The second register selector of an instruction word.
pub open spec fn y_of(w: u16) -> u8 {
    ((w & 0x00F0) >> 4) as u8
}

/// The immediate byte of an instruction word.
pub open spec fn kk_of(w: u16) -> u8 {
    (w & 0x00FF) as u8
}

/// The high byte of an instruction word; its top nibble is the class.
pub open spec fn upper_of(w: u16) -> u8 {
    (w >> 8) as u8
}

/// The low byte of an instruction word, the sub-opcode discriminant.
pub open spec fn lower_of(w: u16) -> u8 {
    w as u8
}

/// The decoder's fields stay inside their widths.
pub proof fn lemma_field_bounds(w: u16)
    by (bit_vector)
    ensures
        nnn_of(w) < 0x1000,
        n_of(w) < 0x10,
        x_of(w) < 0x10,
        y_of(w) < 0x10,
{
}

/// One fetched 16-bit instruction word, decoded structurally: every one of
/// the 65536 values yields fields; semantic validity is the execute stage's
/// concern.
#[derive(Debug, Clone, Copy, Default, PartialEq, Eq, Structural)]
pub struct ChipOpcode(pub u16);

impl ChipOpcode {
    /// The 12-bit address field.
    pub fn nnn(&self) -> (r: u16)
        ensures
            r == nnn_of(self.0),
            r < 0x1000,
    {
        proof {
            lemma_field_bounds(self.0);
        }
        self.0 & 0x0FFF
    }

    /// The low nibble.
    pub fn n(&self) -> (r: u8)
        ensures
            r == n_of(self.0),
            r < 0x10,
    {
        proof {
            lemma_field_bounds(self.0);
        }
        (self.0 & 0x000F) as u8
    }

    /// The first register selector.
    pub fn x(&self) -> (r: u8)
        ensures
            r == x_of(self.0),
            r < 0x10,
    {
        proof {
            lemma_field_bounds(self.0);
        }
        ((self.0 & 0x0F00) >> 8) as u8
    }

    /// The second register selector.
    pub fn y(&self) -> (r: u8)
        ensures
            r == y_of(self.0),
            r < 0x10,
    {
        proof {
            lemma_field_bounds(self.0);
        }
        ((self.0 & 0x00F0) >> 4) as u8
    }

    /// The immediate byte.
    pub fn kk(&self) -> (r: u8)
        ensures
            r == kk_of(self.0),
    {
        (self.0 & 0x00FF) as u8
    }

    /// The high byte; its top nibble is the instruction class.
    pub fn upper(&self) -> (r: u8)
        ensures
            r == upper_of(self.0),
    {
        (self.0 >> 8) as u8
    }

    /// The low byte, the sub-opcode discriminant.
    pub fn lower(&self) -> (r: u8)
        ensures
            r == lower_of(self.0),
    {
        self.0 as u8
    }
}

/// The 4096-byte address space.
#[derive(Debug, Clone)]
pub struct ChipMemory {
    bytes: Vec<u8>,
}

impl View for ChipMemory {
    type V = Seq<u8>;

    closed spec fn view(&self) -> Seq<u8> {
        self.bytes@
    }
}

impl Default for ChipMemory {
    /// The same memory `init` builds.
    fn default() -> (r: Self)
        ensures
            r.wf(),
            r@ == spec_init_mem(),
    {
        Self::init()
    }
}

impl ChipMemory {
    /// The one shape memory ever has: exactly `MEMORY_SIZE` bytes.
    pub open spec fn wf(&self) -> bool {
        self@.len() == MEMORY_SIZE
    }

    /// Fresh memory: the glyph table at address 0, zeroes everywhere else.
    pub fn init() -> (r: Self)
        ensures
            r.wf(),
            r@ == spec_init_mem(),
    {
        let mut bytes: Vec<u8> = Vec::new();
        let mut j: usize = 0;
        while j < 80
            invariant
                j <= 80,
                bytes@.len() == j,
                forall|k: int| 0 <= k < j ==> bytes@[k] == glyph_seq()[k],
            decreases 80 - j,
        {
            bytes.push(BUILTIN_SPRITES[j]);
            j += 1;
        }
        while j < MEMORY_SIZE
            invariant
                80 <= j <= MEMORY_SIZE,
                bytes@.len() == j,
                forall|k: int| 0 <= k < 80 ==> bytes@[k] == glyph_seq()[k],
                forall|k: int| 80 <= k < j ==> bytes@[k] == 0u8,
            decreases MEMORY_SIZE - j,
        {
            bytes.push(0u8);
            j += 1;
        }
        let r = ChipMemory { bytes };
        proof {
            assert(r@ =~= spec_init_mem());
        }
        r
    }

    /// Fresh memory with `rom` already loaded, or the load's error.
    pub fn init_with(rom: &[u8]) -> (r: Result<Self, Chip8Error>)
        ensures
            match spec_load(spec_init_mem(), rom@) {
                Ok(m) => r matches Ok(c) && c.wf() && c@ == m,
                Err(e) => r matches Err(e2) && e2 == e,
            },
    {
        let mut mem = Self::init();
        match mem.load_rom(rom) {
            Ok(()) => Ok(mem),
            Err(e) => Err(e),
        }
    }

    /// Copies `rom` into the program region starting at `0x200`, leaving the
    /// rest of memory (a prior image included) as it was; rejects a ROM
    /// longer than the region and then changes nothing.
    pub fn load_rom(&mut self, rom: &[u8]) -> (r: Result<(), Chip8Error>)
        requires
            old(self).wf(),
        ensures
            final(self).wf(),
            match spec_load(old(self)@, rom@) {
                Ok(m) => r is Ok && final(self)@ == m,
                Err(e) => r == Err::<(), Chip8Error>(e) && final(self)@ == old(self)@,
            },
    {
        if rom.len() > MAX_PROGRAM_SIZE {
            return Err(Chip8Error::InvalidProgramSize(rom.len()));
        }
        let n = rom.len();
        let mut j: usize = 0;
        while j < n
            invariant
                old(self).wf(),
                self.wf(),
                j <= n == rom@.len() <= MAX_PROGRAM_SIZE,
                forall|k: int|
                    0 <= k < MEMORY_SIZE && !(PROGRAM_SPACE_START <= k < PROGRAM_SPACE_START + j)
                        ==> self@[k] == old(self)@[k],
                forall|k: int| 0 <= k < j ==> self@[PROGRAM_SPACE_START + k] == rom@[k],
            decreases n - j,
        {
            self.bytes.set(PROGRAM_SPACE_START + j, rom[j]);
            j += 1;
        }
        proof {
            assert(self@ =~= old(self)@.take(PROGRAM_SPACE_START as int) + rom@ + old(
                self,
            )@.skip(PROGRAM_SPACE_START + rom@.len()));
        }
        Ok(())
    }

    /// Zeroes the program region only; the glyph table and the rest of the
    /// reserved region stay untouched.
    pub fn clear(&mut self)
        requires
            old(self).wf(),
        ensures
            final(self).wf(),
            final(self)@ == spec_clear(old(self)@),
    {
        let mut j: usize = PROGRAM_SPACE_START;
        while j < MEMORY_SIZE
            invariant
                old(self).wf(),
                self.wf(),
                PROGRAM_SPACE_START <= j <= MEMORY_SIZE,
                forall|k: int| 0 <= k < PROGRAM_SPACE_START ==> self@[k] == old(self)@[k],
                forall|k: int| PROGRAM_SPACE_START <= k < j ==> self@[k] == 0u8,
                forall|k: int| j <= k < MEMORY_SIZE ==> self@[k] == old(self)@[k],
            decreases MEMORY_SIZE - j,
        {
            self.bytes.set(j, 0u8);
            j += 1;
        }
        proof {
            assert(self@ =~= spec_clear(old(self)@));
        }
    }

    /// Reads the two bytes at `pc` as one big-endian instruction word; an
    /// address whose second byte would fall outside memory is an error.
    pub fn fetch_opcode(&self, pc: u16) -> (r: Result<ChipOpcode, Chip8Error>)
        requires
            self.wf(),
        ensures
            match spec_fetch(self@, pc) {
                Ok(w) => r matches Ok(op) && op.0 == w,
                Err(e) => r matches Err(e2) && e2 == e,
            },
    {
        if pc as usize + 1 >= MEMORY_SIZE {
            return Err(Chip8Error::InvalidMemoryAddress(pc));
        }
        let hi = self.read(pc as usize);
        let lo = self.read(pc as usize + 1);
        let w = ((hi as u16) << 8) | (lo as u16);
        proof {
            assert(((hi as u16) << 8) | (lo as u16) == hi * 256 + lo) by (bit_vector);
        }
        Ok(ChipOpcode(w))
    }

    /// The byte at `addr`.
    pub fn read(&self, addr: usize) -> (r: u8)
        requires
            self.wf(),
            addr < MEMORY_SIZE,
        ensures
            r == self@[addr as int],
    {
        self.bytes[addr]
    }

    /// Replaces the byte at `addr`.
    pub fn write(&mut self, addr: usize, b: u8)
        requires
            old(self).wf(),
            addr < MEMORY_SIZE,
        ensures
            final(self).wf(),
            final(self)@ == old(self)@.update(addr as int, b),
    {
        self.bytes.set(addr, b);
    }

    /// How many bytes memory holds, always `MEMORY_SIZE`.
    pub fn len(&self) -> (r: usize)
        ensures
            r == self@.len(),
    {
        self.bytes.len()
    }

    /// The program region, from `0x200` to the end.
    pub fn prog_space(&self) -> (r: &[u8])
        requires
            self.wf(),
        ensures
            r@ == self@.skip(PROGRAM_SPACE_START as int),
    {
        slice_subrange(self.bytes.as_slice(), PROGRAM_SPACE_START, MEMORY_SIZE)
    }
}

/// A ROM that fits loads successfully, and fetching at the program start
/// returns its first two bytes as one big-endian word.
pub proof fn lemma_load_then_fetch(mem: Seq<u8>, rom: Seq<u8>)
    requires
        mem.len() == MEMORY_SIZE,
        2 <= rom.len() <= MAX_PROGRAM_SIZE,
    ensures
        spec_load(mem, rom) matches Ok(m) && spec_fetch(m, 0x200) == Ok::<u16, Chip8Error>(
            (rom[0] * 256 + rom[1]) as u16,
        ),
{
    let m = spec_load(mem, rom)->Ok_0;
    assert(m[0x200] == rom[0]);
    assert(m[0x201] == rom[1]);
}

/// Clearing — on its own or as part of the interpreter's reset, which clears
/// memory the same way — zeroes the program region and leaves the glyph
/// table bit-identical to its initialization value, provided the glyphs are
/// intact beforehand (nothing in this core writes them after `init` unless a
/// program stores below `0x200` on purpose).
pub proof fn lemma_clear_restores_glyphs(mem: Seq<u8>)
    requires
        mem.len() == MEMORY_SIZE,
        mem.take(80) == glyph_seq(),
    ensures
        spec_clear(mem).take(80) == glyph_seq(),
        forall|k: int| PROGRAM_SPACE_START <= k < MEMORY_SIZE ==> spec_clear(mem)[k] == 0u8,
        spec_clear(mem).skip(PROGRAM_SPACE_START as int) == spec_init_mem().skip(
            PROGRAM_SPACE_START as int,
        ),
{
    assert(spec_clear(mem).take(80) =~= mem.take(80));
    assert(spec_clear(mem).skip(PROGRAM_SPACE_START as int) =~= spec_init_mem().skip(
        PROGRAM_SPACE_START as int,
    ));
}

} // verus!
