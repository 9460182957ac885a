//! The interpreter core: fetch, decode, execute.
//!
//! One [`ChipEmulator::tick`] is one emulated cycle: the timers get their
//! gated decrement, one instruction word is fetched at the program counter,
//! and its effect is applied. Every effect is pinned down by [`spec_step`],
//! a mathematical step function over [`EmuState`]; the two inputs the machine
//! cannot choose — the clock reading and the random byte — enter it as plain
//! parameters, and [`ChipEmulator::step`] is verified against it for every
//! value of them. Only drawing the random byte and reading the clock are
//! trusted.

use vstd::prelude::*;

use crate::display::{spec_draw, ChipDisplay, DISPLAY_BITS};
use crate::error::Chip8Error;
use crate::keypad::{key_code, ChipKey};
use crate::memory::{
    kk_of, lower_of, n_of, nnn_of, spec_clear, spec_fetch, spec_init_mem, spec_load, upper_of,
    x_of, y_of, ChipMemory, ChipOpcode, MEMORY_SIZE, PROGRAM_SPACE_START,
};
use crate::registers::ChipRegisters;
use crate::timers::{spec_tick_at, ChipTimers, TimersModel};

verus! {

#[verifier::external_type_specification]
#[verifier::external_body]
pub struct ExRng(fastrand::Rng);

/// Relies on fastrand::Rng::new: a fresh generator seeded from the
/// environment; nothing is promised of it.
#[verifier::external_body]
fn rng_new() -> fastrand::Rng {
    fastrand::Rng::new()
}

/// Relies on fastrand::Rng::u8 over the full byte range, which never panics
/// there: some byte comes back, and nothing is promised of which.
#[verifier::external_body]
fn random_byte(rng: &mut fastrand::Rng) -> u8 {
    rng.u8(0..=255)
}

/// The two behavioral switches for the historically divergent instruction
/// families, chosen at construction and immutable afterwards.
#[derive(Debug, Clone, Copy, PartialEq, Eq, Structural)]
pub struct ChipConfig {
    /// Shift instructions shift the destination register itself rather than
    /// the second selected register.
    pub modified_shift: bool,
    /// Block store/load advances the index register past the moved run.
    pub modified_load: bool,
}

impl Default for ChipConfig {
    /// The common choice: modern shifts, index register left in place.
    fn default() -> (r: Self)
        ensures
            r == (ChipConfig { modified_shift: true, modified_load: false }),
    {
        ChipConfig { modified_shift: true, modified_load: false }
    }
}

/// The whole machine as the contracts see it.
pub ghost struct EmuState {
    /// The 4096 memory bytes.
    pub mem: Seq<u8>,
    /// The 2048 pixels, row-major.
    pub disp: Seq<bool>,
    /// Both timers and their decrement reference.
    pub timers: TimersModel,
    /// The sixteen general-purpose registers.
    pub vx: Seq<u8>,
    /// The 16-bit index register.
    pub i: u16,
    /// The program counter.
    pub pc: u16,
    /// How many stack slots are in use.
    pub sp: u8,
    /// The sixteen return-address slots.
    pub stack: Seq<u16>,
    /// The pending key, if the host reported one not yet consumed.
    pub pressed: Option<ChipKey>,
    /// The behavioral switches.
    pub config: ChipConfig,
}

/// The shapes every reachable machine state has.
pub open spec fn wf_state(s: EmuState) -> bool {
    &&& s.mem.len() == MEMORY_SIZE
    &&& s.disp.len() == DISPLAY_BITS
    &&& s.vx.len() == 16
    &&& s.stack.len() == 16
    &&& s.sp <= 16
}

/// The machine right after construction with switches `config`.
pub open spec fn spec_init_state(config: ChipConfig) -> EmuState {
    EmuState {
        mem: spec_init_mem(),
        disp: Seq::new(DISPLAY_BITS as nat, |i: int| false),
        timers: TimersModel { delay: 0u8, sound: 0u8, previous_tick: None },
        vx: Seq::new(16, |i: int| 0u8),
        i: 0,
        pc: PROGRAM_SPACE_START as u16,
        stack: Seq::new(16, |i: int| 0u16),
        sp: 0,
        pressed: None,
        config,
    }
}

/// 8-bit addition with wraparound.
pub open spec fn wrap_add8(a: u8, b: u8) -> u8 {
    if a + b > 255 {
        (a + b - 256) as u8
    } else {
        (a + b) as u8
    }
}

/// 8-bit subtraction with wraparound.
pub open spec fn wrap_sub8(a: u8, b: u8) -> u8 {
    if a - b < 0 {
        (a - b + 256) as u8
    } else {
        (a - b) as u8
    }
}

/// 16-bit addition with wraparound.
pub open spec fn wrap_add16(a: u16, b: u16) -> u16 {
    if a + b > 0xFFFF {
        (a + b - 0x10000) as u16
    } else {
        (a + b) as u16
    }
}

/// Effects of instruction class 0: clear the screen, return from a
/// subroutine (underflow is fatal), and ignored machine-code jumps.
pub open spec fn spec_exec_zero(s: EmuState, w: u16, next: u16) -> Result<EmuState, Chip8Error> {
    let lo = lower_of(w);
    if lo == 0xE0 {
        Ok(EmuState { disp: Seq::new(DISPLAY_BITS as nat, |i: int| false), pc: next, ..s })
    } else if lo == 0xEE {
        if s.sp == 0 {
            Err(Chip8Error::StackUnderflow)
        } else {
            Ok(EmuState { sp: (s.sp - 1) as u8, pc: s.stack[s.sp - 1], ..s })
        }
    } else {
        Ok(EmuState { pc: next, ..s })
    }
}

/// Effects of instruction class 8, the register-to-register family: moves,
/// bitwise operations, add with carry, both subtractions with inverted
/// borrow, and the two shifts whose operand the configuration selects. The
/// flag write lands last, so selecting `VF` as destination leaves the flag.
pub open spec fn spec_exec_alu(s: EmuState, w: u16, next: u16) -> Result<EmuState, Chip8Error> {
    let x = x_of(w) as int;
    let y = y_of(w) as int;
    let vx = s.vx[x];
    let vy = s.vx[y];
    let sub = lower_of(w) & 0x0F;
    let rhs = if s.config.modified_shift {
        vx
    } else {
        vy
    };
    if sub == 0x00 {
        Ok(EmuState { vx: s.vx.update(x, vy), pc: next, ..s })
    } else if sub == 0x01 {
        Ok(EmuState { vx: s.vx.update(x, vx | vy), pc: next, ..s })
    } else if sub == 0x02 {
        Ok(EmuState { vx: s.vx.update(x, vx & vy), pc: next, ..s })
    } else if sub == 0x03 {
        Ok(EmuState { vx: s.vx.update(x, vx ^ vy), pc: next, ..s })
    } else if sub == 0x04 {
        let flag: u8 = if vx + vy > 255 {
            1
        } else {
            0
        };
        Ok(EmuState { vx: s.vx.update(x, wrap_add8(vx, vy)).update(15, flag), pc: next, ..s })
    } else if sub == 0x05 {
        let flag: u8 = if vx >= vy {
            1
        } else {
            0
        };
        Ok(EmuState { vx: s.vx.update(x, wrap_sub8(vx, vy)).update(15, flag), pc: next, ..s })
    } else if sub == 0x06 {
        Ok(
            EmuState {
                vx: s.vx.update(x, rhs >> 1u8).update(15, rhs & 1),
                pc: next,
                ..s
            },
        )
    } else if sub == 0x07 {
        let flag: u8 = if vy >= vx {
            1
        } else {
            0
        };
        Ok(EmuState { vx: s.vx.update(x, wrap_sub8(vy, vx)).update(15, flag), pc: next, ..s })
    } else if sub == 0x0E {
        Ok(
            EmuState {
                vx: s.vx.update(x, rhs << 1u8).update(15, rhs >> 7u8),
                pc: next,
                ..s
            },
        )
    } else {
        Err(Chip8Error::InvalidOpcode(w))
    }
}

/// Effect of instruction class D: blit `n` sprite rows taken from memory at
/// the index register to the coordinates in the two selected registers, and
/// set the flag register to the collision result.
pub open spec fn spec_exec_draw(s: EmuState, w: u16, next: u16) -> Result<EmuState, Chip8Error> {
    let x = x_of(w) as int;
    let y = y_of(w) as int;
    let n = n_of(w) as int;
    if s.i + n > MEMORY_SIZE {
        Err(Chip8Error::InvalidMemoryAddress(s.i))
    } else {
        let sprite = s.mem.subrange(s.i as int, s.i + n);
        let dr = spec_draw(s.disp, s.vx[x] as int, s.vx[y] as int, sprite);
        let flag: u8 = if dr.1 {
            1
        } else {
            0
        };
        Ok(EmuState { disp: dr.0, vx: s.vx.update(15, flag), pc: next, ..s })
    }
}

/// Whether the pending key `pressed` is exactly the key whose value is `vx`.
pub open spec fn key_matches(pressed: Option<ChipKey>, vx: u8) -> bool {
    pressed matches Some(k) && key_code(k) == vx
}

/// Effects of instruction class E, the key skips. Both forms consume the
/// pending key. Skip-if-pressed skips only on a present and equal key;
/// skip-if-not-pressed skips both when no key is pending and when the
/// pending key differs.
pub open spec fn spec_exec_keys(s: EmuState, w: u16, next: u16) -> Result<EmuState, Chip8Error> {
    let lo = lower_of(w);
    let x = x_of(w) as int;
    if lo == 0x9E {
        let skip = key_matches(s.pressed, s.vx[x]);
        Ok(
            EmuState {
                pressed: None,
                pc: if skip {
                    (next + 2) as u16
                } else {
                    next
                },
                ..s
            },
        )
    } else if lo == 0xA1 {
        let skip = !key_matches(s.pressed, s.vx[x]);
        Ok(
            EmuState {
                pressed: None,
                pc: if skip {
                    (next + 2) as u16
                } else {
                    next
                },
                ..s
            },
        )
    } else {
        Err(Chip8Error::InvalidOpcode(w))
    }
}

/// Effects of instruction class F: timer transfers, the blocking key wait
/// (realized as a step that leaves the machine unchanged until a key is
/// pending), index-register arithmetic, the glyph lookup, the decimal-digit
/// store, and the block store/load whose index-register aftermath the
/// configuration selects.
pub open spec fn spec_exec_misc(s: EmuState, w: u16, next: u16) -> Result<EmuState, Chip8Error> {
    let lo = lower_of(w);
    let x = x_of(w) as int;
    let vx = s.vx[x];
    if lo == 0x07 {
        Ok(EmuState { vx: s.vx.update(x, s.timers.delay), pc: next, ..s })
    } else if lo == 0x0A {
        match s.pressed {
            Some(k) => Ok(EmuState { vx: s.vx.update(x, key_code(k)), pressed: None, pc: next, ..s }),
            None => Ok(s),
        }
    } else if lo == 0x15 {
        Ok(EmuState { timers: TimersModel { delay: vx, ..s.timers }, pc: next, ..s })
    } else if lo == 0x18 {
        Ok(EmuState { timers: TimersModel { sound: vx, ..s.timers }, pc: next, ..s })
    } else if lo == 0x1E {
        Ok(EmuState { i: wrap_add16(s.i, vx as u16), pc: next, ..s })
    } else if lo == 0x29 {
        Ok(EmuState { i: (vx * 5) as u16, pc: next, ..s })
    } else if lo == 0x33 {
        if s.i + 2 < MEMORY_SIZE {
            let m = s.mem.update(s.i as int, vx / 100).update(s.i + 1, (vx / 10) % 10).update(
                s.i + 2,
                vx % 10,
            );
            Ok(EmuState { mem: m, pc: next, ..s })
        } else {
            Err(Chip8Error::InvalidMemoryAddress(s.i))
        }
    } else if lo == 0x55 {
        if s.i + x < MEMORY_SIZE {
            let m = Seq::new(
                MEMORY_SIZE as nat,
                |j: int|
                    if s.i <= j <= s.i + x {
                        s.vx[j - s.i]
                    } else {
                        s.mem[j]
                    },
            );
            Ok(EmuState { mem: m, i: spec_block_index(s, x), pc: next, ..s })
        } else {
            Err(Chip8Error::InvalidMemoryAddress(s.i))
        }
    } else if lo == 0x65 {
        if s.i + x < MEMORY_SIZE {
            let v = Seq::new(
                16,
                |k: int|
                    if 0 <= k <= x {
                        s.mem[s.i + k]
                    } else {
                        s.vx[k]
                    },
            );
            Ok(EmuState { vx: v, i: spec_block_index(s, x), pc: next, ..s })
        } else {
            Err(Chip8Error::InvalidMemoryAddress(s.i))
        }
    } else {
        Err(Chip8Error::InvalidOpcode(w))
    }
}

/// Where the index register stands after a block store/load over registers
/// `0..=x`: advanced past the run, or left alone, per the configuration.
pub open spec fn spec_block_index(s: EmuState, x: int) -> u16 {
    if s.config.modified_load {
        (s.i + x + 1) as u16
    } else {
        s.i
    }
}

/// The effect of the already-fetched instruction word `w` on machine state
/// `s`; `rand` is the byte the random source supplied for this cycle, and
/// `next` is pinned to the word after `w`. Classes 0, 8, E and F dispatch
/// further on the low byte; in those families an unlisted low byte is the
/// fatal invalid-opcode condition, never a silent no-op.
pub open spec fn spec_exec(s: EmuState, w: u16, rand: u8) -> Result<EmuState, Chip8Error> {
    let next = (s.pc + 2) as u16;
    let cls = upper_of(w) & 0xF0;
    let x = x_of(w) as int;
    let y = y_of(w) as int;
    let kk = kk_of(w);
    let nnn = nnn_of(w);
    if cls == 0x00 {
        spec_exec_zero(s, w, next)
    } else if cls == 0x10 {
        Ok(EmuState { pc: nnn, ..s })
    } else if cls == 0x20 {
        if s.sp == 16 {
            Err(Chip8Error::StackOverflow)
        } else {
            Ok(EmuState { stack: s.stack.update(s.sp as int, next), sp: (s.sp + 1) as u8, pc: nnn, ..s })
        }
    } else if cls == 0x30 {
        Ok(
            EmuState {
                pc: if s.vx[x] == kk {
                    (next + 2) as u16
                } else {
                    next
                },
                ..s
            },
        )
    } else if cls == 0x40 {
        Ok(
            EmuState {
                pc: if s.vx[x] != kk {
                    (next + 2) as u16
                } else {
                    next
                },
                ..s
            },
        )
    } else if cls == 0x50 {
        Ok(
            EmuState {
                pc: if s.vx[x] == s.vx[y] {
                    (next + 2) as u16
                } else {
                    next
                },
                ..s
            },
        )
    } else if cls == 0x60 {
        Ok(EmuState { vx: s.vx.update(x, kk), pc: next, ..s })
    } else if cls == 0x70 {
        Ok(EmuState { vx: s.vx.update(x, wrap_add8(s.vx[x], kk)), pc: next, ..s })
    } else if cls == 0x80 {
        spec_exec_alu(s, w, next)
    } else if cls == 0x90 {
        Ok(
            EmuState {
                pc: if s.vx[x] != s.vx[y] {
                    (next + 2) as u16
                } else {
                    next
                },
                ..s
            },
        )
    } else if cls == 0xA0 {
        Ok(EmuState { i: nnn, pc: next, ..s })
    } else if cls == 0xB0 {
        Ok(EmuState { pc: (nnn + s.vx[0]) as u16, ..s })
    } else if cls == 0xC0 {
        Ok(EmuState { vx: s.vx.update(x, rand & kk), pc: next, ..s })
    } else if cls == 0xD0 {
        spec_exec_draw(s, w, next)
    } else if cls == 0xE0 {
        spec_exec_keys(s, w, next)
    } else {
        spec_exec_misc(s, w, next)
    }
}

/// One fetch-decode-execute step on machine state `s` with random byte
/// `rand`: the instruction at the program counter is fetched big-endian and
/// applied. Timers are not part of a step; they tick once per cycle before
/// it.
pub open spec fn spec_step(s: EmuState, rand: u8) -> Result<EmuState, Chip8Error> {
    match spec_fetch(s.mem, s.pc) {
        Ok(w) => spec_exec(s, w, rand),
        Err(e) => Err(e),
    }
}

/// What one whole cycle may do: for the clock reading `now` and random byte
/// `rand`, the timers tick first, then one step runs; a failing step reports
/// its error and leaves everything but the ticked timers unchanged.
pub open spec fn spec_cycle(
    pre: EmuState,
    now: u64,
    rand: u8,
    post: EmuState,
    r: Result<(), Chip8Error>,
) -> bool {
    let mid = EmuState { timers: spec_tick_at(pre.timers, now), ..pre };
    match spec_step(mid, rand) {
        Ok(s2) => r is Ok && post == s2,
        Err(e) => r == Err::<(), Chip8Error>(e) && post == mid,
    }
}

/// The interpreter: all machine state plus its random source.
pub struct ChipEmulator {
    memory: ChipMemory,
    display: ChipDisplay,
    timers: ChipTimers,
    vx: ChipRegisters,
    i: u16,
    pc: u16,
    sp: u8,
    stack: Vec<u16>,
    pressed: Option<ChipKey>,
    config: ChipConfig,
    rng: fastrand::Rng,
}

impl View for ChipEmulator {
    type V = EmuState;

    closed spec fn view(&self) -> EmuState {
        EmuState {
            mem: self.memory@,
            disp: self.display@,
            timers: self.timers@,
            vx: self.vx@,
            i: self.i,
            pc: self.pc,
            sp: self.sp,
            stack: self.stack@,
            pressed: self.pressed,
            config: self.config,
        }
    }
}

impl ChipEmulator {
    /// The shape invariant every method keeps.
    pub open spec fn wf(&self) -> bool {
        wf_state(self@)
    }

    /// A fresh machine with the default switches: glyphs in memory, screen
    /// dark, counters zero, program counter at the program start.
    pub fn init() -> (r: Self)
        ensures
            r.wf(),
            r@ == spec_init_state(ChipConfig { modified_shift: true, modified_load: false }),
    {
        let mut stack: Vec<u16> = Vec::new();
        let mut j: usize = 0;
        while j < 16
            invariant
                j <= 16,
                stack@.len() == j,
                forall|k: int| 0 <= k < j ==> stack@[k] == 0u16,
            decreases 16 - j,
        {
            stack.push(0u16);
            j += 1;
        }
        let r = ChipEmulator {
            memory: ChipMemory::init(),
            display: ChipDisplay::new(),
            timers: ChipTimers::new(),
            vx: ChipRegisters::new(),
            i: 0,
            pc: PROGRAM_SPACE_START as u16,
            sp: 0,
            stack,
            pressed: None,
            config: ChipConfig { modified_shift: true, modified_load: false },
            rng: rng_new(),
        };
        proof {
            assert(r@.stack =~= Seq::new(16, |k: int| 0u16));
            assert(r@ == spec_init_state(
                ChipConfig { modified_shift: true, modified_load: false },
            ));
        }
        r
    }

    /// A fresh machine with the given switches.
    pub fn with_config(config: ChipConfig) -> (r: Self)
        ensures
            r.wf(),
            r@ == spec_init_state(config),
    {
        let mut emu = Self::init();
        emu.set_config(config);
        emu
    }

    /// Replaces the behavioral switches.
    pub fn set_config(&mut self, config: ChipConfig)
        ensures
            final(self)@ == (EmuState { config, ..old(self)@ }),
    {
        self.config = config;
    }

    /// Loads `rom` into the program region; a ROM that does not fit is
    /// rejected with its length and the machine is left unchanged.
    pub fn load_rom(&mut self, rom: &[u8]) -> (r: Result<(), Chip8Error>)
        requires
            old(self).wf(),
        ensures
            final(self).wf(),
            match spec_load(old(self)@.mem, rom@) {
                Ok(m) => r is Ok && final(self)@ == (EmuState { mem: m, ..old(self)@ }),
                Err(e) => r == Err::<(), Chip8Error>(e) && final(self)@ == old(self)@,
            },
    {
        match self.memory.load_rom(rom) {
            Ok(()) => Ok(()),
            Err(e) => Err(e),
        }
    }

    /// Sets or clears the pending key; a second report replaces the first,
    /// nothing queues.
    pub fn set_key(&mut self, key: Option<ChipKey>)
        ensures
            final(self)@ == (EmuState { pressed: key, ..old(self)@ }),
    {
        self.pressed = key;
    }

    /// The pending key, if one is latched.
    pub fn current_key(&self) -> (r: Option<ChipKey>)
        ensures
            r == self@.pressed,
    {
        self.pressed
    }

    /// Returns the machine to its post-initialization state: program region
    /// zeroed (glyphs stay), screen dark, timers, registers, stack and the
    /// pending key cleared. The switches survive a reset.
    pub fn reset(&mut self)
        requires
            old(self).wf(),
        ensures
            final(self).wf(),
            final(self)@ == (EmuState {
                mem: spec_clear(old(self)@.mem),
                ..spec_init_state(old(self)@.config)
            }),
    {
        self.memory.clear();
        self.display.clear();
        self.timers.reset();
        self.vx.clear();
        self.i = 0;
        self.pc = PROGRAM_SPACE_START as u16;
        self.sp = 0;
        self.pressed = None;
        let ghost target = EmuState {
            mem: spec_clear(old(self)@.mem),
            ..spec_init_state(old(self)@.config)
        };
        let mut j: usize = 0;
        while j < 16
            invariant
                self@ == (EmuState { stack: self@.stack, ..target }),
                self.stack@.len() == 16,
                j <= 16,
                forall|k: int| 0 <= k < j ==> self.stack@[k] == 0u16,
            decreases 16 - j,
        {
            self.stack.set(j, 0u16);
            j += 1;
        }
        proof {
            assert(self@.stack =~= Seq::new(16, |k: int| 0u16));
            assert(self@ == (EmuState { stack: self@.stack, ..target }));
        }
    }

    /// The framebuffer, for the host to render.
    pub fn display(&self) -> (r: &ChipDisplay)
        ensures
            r@ == self@.disp,
    {
        &self.display
    }

    /// Every pixel's state, row-major.
    pub fn pixels(&self) -> (r: Vec<bool>)
        requires
            self.wf(),
        ensures
            r@ == self@.disp,
    {
        self.display.pixels()
    }

    /// The value of general-purpose register `i`.
    pub fn reg(&self, i: u8) -> (r: u8)
        requires
            self.wf(),
            i < 16,
        ensures
            r == self@.vx[i as int],
    {
        self.vx.get(i)
    }

    /// The program counter.
    pub fn pc(&self) -> (r: u16)
        ensures
            r == self@.pc,
    {
        self.pc
    }

    /// The index register.
    pub fn index(&self) -> (r: u16)
        ensures
            r == self@.i,
    {
        self.i
    }

    /// How many stack slots are in use.
    pub fn sp(&self) -> (r: u8)
        ensures
            r == self@.sp,
    {
        self.sp
    }

    /// The memory, for the host or a test to inspect.
    pub fn memory(&self) -> (r: &ChipMemory)
        ensures
            r@ == self@.mem,
    {
        &self.memory
    }

    /// The timers, for the host or a test to inspect.
    pub fn timers(&self) -> (r: &ChipTimers)
        ensures
            r@ == self@.timers,
    {
        &self.timers
    }

    /// One emulated cycle against the wall clock and the machine's own
    /// random source: there exist a clock reading and a random byte under
    /// which this cycle is exactly [`spec_cycle`].
    pub fn tick(&mut self) -> (r: Result<(), Chip8Error>)
        requires
            old(self).wf(),
        ensures
            final(self).wf(),
            exists|now: u64, rand: u8| spec_cycle(old(self)@, now, rand, final(self)@, r),
    {
        self.timers.tick();
        let ghost mid = self@;
        let ghost now: u64 = choose|now: u64| self.timers@ == spec_tick_at(old(self)@.timers, now);
        let rand = random_byte(&mut self.rng);
        let r = self.step(rand);
        proof {
            assert(mid == EmuState { timers: spec_tick_at(old(self)@.timers, now), ..old(self)@ });
            assert(spec_cycle(old(self)@, now, rand, self@, r));
        }
        r
    }

    /// One fetch-decode-execute step with the random byte supplied by the
    /// caller: exactly [`spec_step`]. A failing step reports its error and
    /// changes nothing.
    pub fn step(&mut self, rand: u8) -> (r: Result<(), Chip8Error>)
        requires
            old(self).wf(),
        ensures
            final(self).wf(),
            match spec_step(old(self)@, rand) {
                Ok(s2) => r is Ok && final(self)@ == s2,
                Err(e) => r == Err::<(), Chip8Error>(e) && final(self)@ == old(self)@,
            },
    {
        let op = match self.memory.fetch_opcode(self.pc) {
            Ok(op) => op,
            Err(e) => {
                return Err(e);
            },
        };
        let next = self.pc + 2;
        let cls = op.upper() & 0xF0;
        let x = op.x();
        let y = op.y();
        let kk = op.kk();
        let nnn = op.nnn();
        match cls {
            0x00 => self.exec_zero(op, next),
            0x10 => {
                self.pc = nnn;
                Ok(())
            },
            0x20 => {
                if self.sp == 16 {
                    return Err(Chip8Error::StackOverflow);
                }
                self.stack.set(self.sp as usize, next);
                self.sp = self.sp + 1;
                self.pc = nnn;
                Ok(())
            },
            0x30 => {
                self.pc = if self.vx.get(x) == kk {
                    next + 2
                } else {
                    next
                };
                Ok(())
            },
            0x40 => {
                self.pc = if self.vx.get(x) != kk {
                    next + 2
                } else {
                    next
                };
                Ok(())
            },
            0x50 => {
                self.pc = if self.vx.get(x) == self.vx.get(y) {
                    next + 2
                } else {
                    next
                };
                Ok(())
            },
            0x60 => {
                self.vx.set(x, kk);
                self.pc = next;
                Ok(())
            },
            0x70 => {
                self.vx.set(x, self.vx.get(x).wrapping_add(kk));
                self.pc = next;
                Ok(())
            },
            0x80 => self.exec_alu(op, next),
            0x90 => {
                self.pc = if self.vx.get(x) != self.vx.get(y) {
                    next + 2
                } else {
                    next
                };
                Ok(())
            },
            0xA0 => {
                self.i = nnn;
                self.pc = next;
                Ok(())
            },
            0xB0 => {
                self.pc = nnn + self.vx.get(0) as u16;
                Ok(())
            },
            0xC0 => {
                self.vx.set(x, rand & kk);
                self.pc = next;
                Ok(())
            },
            0xD0 => self.exec_draw(op, next),
            0xE0 => self.exec_keys(op, next),
            _ => self.exec_misc(op, next),
        }
    }

    /// Instruction class 0: clear, return, ignored machine-code jumps.
    fn exec_zero(&mut self, op: ChipOpcode, next: u16) -> (r: Result<(), Chip8Error>)
        requires
            old(self).wf(),
        ensures
            final(self).wf(),
            match spec_exec_zero(old(self)@, op.0, next) {
                Ok(s2) => r is Ok && final(self)@ == s2,
                Err(e) => r == Err::<(), Chip8Error>(e) && final(self)@ == old(self)@,
            },
    {
        let lo = op.lower();
        if lo == 0xE0 {
            self.display.clear();
            self.pc = next;
            Ok(())
        } else if lo == 0xEE {
            if self.sp == 0 {
                return Err(Chip8Error::StackUnderflow);
            }
            self.sp = self.sp - 1;
            self.pc = self.stack[self.sp as usize];
            Ok(())
        } else {
            self.pc = next;
            Ok(())
        }
    }

    /// Instruction class 8, the register-to-register family.
    fn exec_alu(&mut self, op: ChipOpcode, next: u16) -> (r: Result<(), Chip8Error>)
        requires
            old(self).wf(),
        ensures
            final(self).wf(),
            match spec_exec_alu(old(self)@, op.0, next) {
                Ok(s2) => r is Ok && final(self)@ == s2,
                Err(e) => r == Err::<(), Chip8Error>(e) && final(self)@ == old(self)@,
            },
    {
        let x = op.x();
        let y = op.y();
        let vx = self.vx.get(x);
        let vy = self.vx.get(y);
        let rhs = if self.config.modified_shift {
            vx
        } else {
            vy
        };
        let sub = op.lower() & 0x0F;
        match sub {
            0x00 => {
                self.vx.set(x, vy);
            },
            0x01 => {
                self.vx.set(x, vx | vy);
            },
            0x02 => {
                self.vx.set(x, vx & vy);
            },
            0x03 => {
                self.vx.set(x, vx ^ vy);
            },
            0x04 => {
                let flag: u8 = if vx > 255 - vy {
                    1
                } else {
                    0
                };
                self.vx.set(x, vx.wrapping_add(vy));
                self.vx.set(15, flag);
            },
            0x05 => {
                let flag: u8 = if vx >= vy {
                    1
                } else {
                    0
                };
                self.vx.set(x, vx.wrapping_sub(vy));
                self.vx.set(15, flag);
            },
            0x06 => {
                self.vx.set(x, rhs >> 1u8);
                self.vx.set(15, rhs & 1);
            },
            0x07 => {
                let flag: u8 = if vy >= vx {
                    1
                } else {
                    0
                };
                self.vx.set(x, vy.wrapping_sub(vx));
                self.vx.set(15, flag);
            },
            0x0E => {
                self.vx.set(x, rhs << 1u8);
                self.vx.set(15, rhs >> 7u8);
            },
            _ => {
                return Err(Chip8Error::InvalidOpcode(op.0));
            },
        }
        self.pc = next;
        Ok(())
    }

    /// Instruction class D, the sprite blit.
    fn exec_draw(&mut self, op: ChipOpcode, next: u16) -> (r: Result<(), Chip8Error>)
        requires
            old(self).wf(),
        ensures
            final(self).wf(),
            match spec_exec_draw(old(self)@, op.0, next) {
                Ok(s2) => r is Ok && final(self)@ == s2,
                Err(e) => r == Err::<(), Chip8Error>(e) && final(self)@ == old(self)@,
            },
    {
        let x = op.x();
        let y = op.y();
        let n = op.n() as usize;
        let base = self.i as usize;
        if base + n > MEMORY_SIZE {
            return Err(Chip8Error::InvalidMemoryAddress(self.i));
        }
        let mut sprite: Vec<u8> = Vec::new();
        let mut k: usize = 0;
        while k < n
            invariant
                old(self).wf(),
                self == old(self),
                k <= n,
                base == old(self)@.i,
                base + n <= MEMORY_SIZE,
                sprite@.len() == k,
                forall|j: int| 0 <= j < k ==> sprite@[j] == self@.mem[base + j],
            decreases n - k,
        {
            sprite.push(self.memory.read(base + k));
            k += 1;
        }
        proof {
            assert(sprite@ =~= old(self)@.mem.subrange(base as int, base + n));
        }
        let collision = self.display.draw_sprite((self.vx.get(x), self.vx.get(y)), sprite.as_slice());
        let flag: u8 = if collision {
            1
        } else {
            0
        };
        self.vx.set(15, flag);
        self.pc = next;
        Ok(())
    }

    /// Instruction class E, the key skips.
    fn exec_keys(&mut self, op: ChipOpcode, next: u16) -> (r: Result<(), Chip8Error>)
        requires
            old(self).wf(),
            next <= 0xFFFD,
        ensures
            final(self).wf(),
            match spec_exec_keys(old(self)@, op.0, next) {
                Ok(s2) => r is Ok && final(self)@ == s2,
                Err(e) => r == Err::<(), Chip8Error>(e) && final(self)@ == old(self)@,
            },
    {
        let lo = op.lower();
        let x = op.x();
        if lo == 0x9E {
            let pressed = self.pressed;
            self.pressed = None;
            let skip = match pressed {
                Some(key) => key.as_byte() == self.vx.get(x),
                None => false,
            };
            self.pc = if skip {
                next + 2
            } else {
                next
            };
            Ok(())
        } else if lo == 0xA1 {
            let pressed = self.pressed;
            self.pressed = None;
            let skip = match pressed {
                Some(key) => key.as_byte() != self.vx.get(x),
                None => true,
            };
            self.pc = if skip {
                next + 2
            } else {
                next
            };
            Ok(())
        } else {
            Err(Chip8Error::InvalidOpcode(op.0))
        }
    }

    /// Instruction class F: timers, key wait, index arithmetic, glyph
    /// lookup, decimal digits, block store/load.
    fn exec_misc(&mut self, op: ChipOpcode, next: u16) -> (r: Result<(), Chip8Error>)
        requires
            old(self).wf(),
        ensures
            final(self).wf(),
            match spec_exec_misc(old(self)@, op.0, next) {
                Ok(s2) => r is Ok && final(self)@ == s2,
                Err(e) => r == Err::<(), Chip8Error>(e) && final(self)@ == old(self)@,
            },
    {
        let lo = op.lower();
        let x = op.x();
        if lo == 0x07 {
            let d = self.timers.delay();
            self.vx.set(x, d);
            self.pc = next;
            Ok(())
        } else if lo == 0x0A {
            match self.pressed {
                Some(key) => {
                    self.vx.set(x, key.as_byte());
                    self.pressed = None;
                    self.pc = next;
                    Ok(())
                },
                None => Ok(()),
            }
        } else if lo == 0x15 {
            let v = self.vx.get(x);
            self.timers.set_delay(v);
            self.pc = next;
            Ok(())
        } else if lo == 0x18 {
            let v = self.vx.get(x);
            self.timers.set_sound(v);
            self.pc = next;
            Ok(())
        } else if lo == 0x1E {
            self.i = self.i.wrapping_add(self.vx.get(x) as u16);
            self.pc = next;
            Ok(())
        } else if lo == 0x29 {
            self.i = self.vx.get(x) as u16 * 5;
            self.pc = next;
            Ok(())
        } else if lo == 0x33 {
            let base = self.i as usize;
            if base + 2 >= MEMORY_SIZE {
                return Err(Chip8Error::InvalidMemoryAddress(self.i));
            }
            let vx = self.vx.get(x);
            self.memory.write(base, vx / 100);
            self.memory.write(base + 1, (vx / 10) % 10);
            self.memory.write(base + 2, vx % 10);
            self.pc = next;
            Ok(())
        } else if lo == 0x55 {
            let base = self.i as usize;
            if base + x as usize >= MEMORY_SIZE {
                return Err(Chip8Error::InvalidMemoryAddress(self.i));
            }
            let mut k: usize = 0;
            while k <= x as usize
                invariant
                    old(self).wf(),
                    self.wf(),
                    x < 16,
                    k <= x + 1,
                    base == old(self)@.i,
                    base + x < MEMORY_SIZE,
                    self@ == (EmuState { mem: self@.mem, ..old(self)@ }),
                    forall|j: int|
                        0 <= j < MEMORY_SIZE && !(base <= j < base + k) ==> self@.mem[j] == old(
                            self,
                        )@.mem[j],
                    forall|j: int| 0 <= j < k ==> self@.mem[base + j] == old(self)@.vx[j],
                decreases x + 1 - k,
            {
                let v = self.vx.get(k as u8);
                self.memory.write(base + k, v);
                k += 1;
            }
            proof {
                let s = old(self)@;
                let gx = x as int;
                assert(self@.mem =~= Seq::new(
                    MEMORY_SIZE as nat,
                    |j: int|
                        if s.i <= j <= s.i + gx {
                            s.vx[j - s.i]
                        } else {
                            s.mem[j]
                        },
                ));
            }
            if self.config.modified_load {
                self.i = self.i + x as u16 + 1;
            }
            self.pc = next;
            Ok(())
        } else if lo == 0x65 {
            let base = self.i as usize;
            if base + x as usize >= MEMORY_SIZE {
                return Err(Chip8Error::InvalidMemoryAddress(self.i));
            }
            let mut k: usize = 0;
            while k <= x as usize
                invariant
                    old(self).wf(),
                    self.wf(),
                    x < 16,
                    k <= x + 1,
                    base == old(self)@.i,
                    base + x < MEMORY_SIZE,
                    self@ == (EmuState { vx: self@.vx, ..old(self)@ }),
                    forall|j: int| k <= j < 16 ==> self@.vx[j] == old(self)@.vx[j],
                    forall|j: int| 0 <= j < k ==> self@.vx[j] == old(self)@.mem[base + j],
                decreases x + 1 - k,
            {
                let b = self.memory.read(base + k);
                self.vx.set(k as u8, b);
                k += 1;
            }
            proof {
                let s = old(self)@;
                let gx = x as int;
                assert(self@.vx =~= Seq::new(
                    16,
                    |j: int|
                        if 0 <= j <= gx {
                            s.mem[s.i + j]
                        } else {
                            s.vx[j]
                        },
                ));
            }
            if self.config.modified_load {
                self.i = self.i + x as u16 + 1;
            }
            self.pc = next;
            Ok(())
        } else {
            Err(Chip8Error::InvalidOpcode(op.0))
        }
    }
}

/// With no key pending, skip-if-key-pressed never skips — the program
/// counter moves to the next instruction — while skip-if-key-not-pressed
/// always skips over it. Both consume nothing, since nothing is latched.
pub proof fn lemma_key_skip_no_pending(s: EmuState, w: u16, rand: u8)
    requires
        wf_state(s),
        s.pressed is None,
        upper_of(w) & 0xF0 == 0xE0,
        s.pc <= 0xFFFB,
    ensures
        lower_of(w) == 0x9E ==> (spec_exec(s, w, rand) matches Ok(s2) && s2.pc == s.pc + 2),
        lower_of(w) == 0xA1 ==> (spec_exec(s, w, rand) matches Ok(s2) && s2.pc == s.pc + 4),
{
}

/// A subroutine call stores the instruction after itself in the next stack
/// slot and deepens the stack by one; a later return through that untouched
/// slot restores the program counter to exactly that instruction and the
/// stack to its pre-call depth.
pub proof fn lemma_call_return_round_trip(
    s: EmuState,
    w: u16,
    rand: u8,
    t: EmuState,
    w2: u16,
    rand2: u8,
)
    requires
        wf_state(s),
        upper_of(w) & 0xF0 == 0x20,
        s.sp < 16,
        s.pc <= 0xFFFD,
        wf_state(t),
        t.sp == s.sp + 1,
        t.stack[s.sp as int] == s.pc + 2,
        upper_of(w2) & 0xF0 == 0x00,
        lower_of(w2) == 0xEE,
    ensures
        spec_exec(s, w, rand) matches Ok(s1) && s1.pc == nnn_of(w) && s1.sp == s.sp + 1
            && s1.stack[s.sp as int] == s.pc + 2,
        spec_exec(t, w2, rand2) matches Ok(t2) && t2.pc == s.pc + 2 && t2.sp == s.sp,
{
}

} // verus!
