//! The machine: its state, construction, program loading and the cycle.
use vstd::prelude::*;

use crate::font::{FONTSET, FONTSET_SIZE};
use crate::model::{
    Chip8Error, FONTSET_START_ADDRESS, MEMORY_SIZE, MachineView, START_ADDRESS, VIDEO_HEIGHT,
    VIDEO_SIZE, VIDEO_WIDTH, can_fetch, cycle_result, family_of, fault, fetch, fetched,
};

verus! {

/// The complete state of one interpreter.
pub struct Chip8 {
    /// General-purpose registers V0 to VF; VF doubles as the flag output.
    pub registers: [u8; 16],
    /// The address space.
    pub memory: [u8; 4096],
    /// The address register I.
    pub index: u16,
    /// Address of the next instruction to fetch.
    pub pc: u16,
    /// Return addresses of the calls in progress.
    pub stack: [u16; 16],
    /// Index of the next free stack slot.
    pub sp: u8,
    pub delay_timer: u8,
    pub sound_timer: u8,
    /// Key state per key 0x0 to 0xF; nonzero means down.
    pub keypad: [u8; 16],
    /// Framebuffer, row-major, each cell 0 (off) or `PIXEL_ON`.
    pub video: [u32; 2048],
    /// The instruction word being executed.
    pub opcode: u16,
}

/// Whether the sound should be playing.
#[derive(Clone, Copy, Debug, PartialEq, Eq, Structural)]
pub enum SoundState {
    On,
    Off,
}

/// Relies on `rand::random::<u8>`: a byte drawn from the thread-local
/// generator, every value equally likely. Nothing is known of which byte comes.
#[verifier::external_body]
fn random_byte() -> u8 {
    rand::random::<u8>()
}

impl View for Chip8 {
    type V = MachineView;

    open spec fn view(&self) -> MachineView {
        MachineView {
            registers: self.registers@,
            memory: self.memory@,
            index: self.index,
            pc: self.pc,
            stack: self.stack@,
            sp: self.sp,
            delay_timer: self.delay_timer,
            sound_timer: self.sound_timer,
            keypad: self.keypad@,
            video: self.video@,
            opcode: self.opcode,
        }
    }
}

/// Character that shows a lit cell in a text frame.
pub const PIXEL_ON_CHAR: char = '\u{25A0}';

/// Character that shows a dark cell in a text frame.
pub const PIXEL_OFF_CHAR: char = ' ';

/// Memory of a fresh machine: the glyph table at its address, zero elsewhere.
pub open spec fn initial_memory(a: int) -> u8 {
    if FONTSET_START_ADDRESS <= a < FONTSET_START_ADDRESS + FONTSET_SIZE {
        FONTSET@[a - FONTSET_START_ADDRESS]
    } else {
        0
    }
}

/// Memory after copying `rom` to the load address.
pub open spec fn loaded_memory(memory: Seq<u8>, rom: Seq<u8>) -> Seq<u8> {
    Seq::new(
        MEMORY_SIZE as nat,
        |a: int|
            if START_ADDRESS <= a < START_ADDRESS + rom.len() {
                rom[a - START_ADDRESS]
            } else {
                memory[a]
            },
    )
}

impl Chip8 {
    /// A machine with zeroed state, the glyphs loaded, and `pc` at the load address.
    pub fn new() -> (r: Self)
        ensures
            r@.registers == Seq::new(16, |i: int| 0u8),
            r@.memory == Seq::new(MEMORY_SIZE as nat, |a: int| initial_memory(a)),
            r.index == 0,
            r.pc == START_ADDRESS,
            r@.stack == Seq::new(16, |i: int| 0u16),
            r.sp == 0,
            r.delay_timer == 0,
            r.sound_timer == 0,
            r@.keypad == Seq::new(16, |i: int| 0u8),
            r@.video == Seq::new(VIDEO_SIZE as nat, |i: int| 0u32),
            r.opcode == 0,
    {
        let mut memory = [0u8; 4096];
        let start = FONTSET_START_ADDRESS as usize;
        let mut i: usize = 0;
        while i < FONTSET_SIZE
            invariant
                i <= FONTSET_SIZE,
                start == FONTSET_START_ADDRESS,
                forall|a: int|
                    0 <= a < MEMORY_SIZE ==> memory@[a] == (if start <= a < start + i {
                        FONTSET@[a - start]
                    } else {
                        0u8
                    }),
            decreases FONTSET_SIZE - i,
        {
            memory[start + i] = FONTSET[i];
            i += 1;
        }
        let r = Chip8 {
            registers: [0u8; 16],
            memory,
            index: 0,
            pc: START_ADDRESS,
            stack: [0u16; 16],
            sp: 0,
            delay_timer: 0,
            sound_timer: 0,
            keypad: [0u8; 16],
            video: [0u32; 2048],
            opcode: 0,
        };
        assert(r@.registers =~= Seq::new(16, |i: int| 0u8));
        assert(r@.memory =~= Seq::new(MEMORY_SIZE as nat, |a: int| initial_memory(a)));
        assert(r@.stack =~= Seq::new(16, |i: int| 0u16));
        assert(r@.keypad =~= Seq::new(16, |i: int| 0u8));
        assert(r@.video =~= Seq::new(VIDEO_SIZE as nat, |i: int| 0u32));
        r
    }

    /// A uniformly distributed random byte; the machine is left as it is.
    pub fn rand_byte(&mut self) -> (r: u8)
        ensures
            *final(self) == *old(self),
    {
        random_byte()
    }

    /// Copies `rom` into memory from the load address on; a program that does
    /// not fit is refused and memory is left as it is.
    pub fn load_rom(&mut self, rom: &[u8]) -> (r: Result<(), Chip8Error>)
        ensures
            r is Ok <==> rom@.len() <= MEMORY_SIZE - START_ADDRESS,
            r is Ok ==> final(self)@ == (MachineView {
                memory: loaded_memory(old(self)@.memory, rom@),
                ..old(self)@
            }),
            r is Err ==> r == Err::<(), Chip8Error>(Chip8Error::RomTooLarge) && *final(self)
                == *old(self),
    {
        let start = START_ADDRESS as usize;
        if rom.len() > MEMORY_SIZE - start {
            return Err(Chip8Error::RomTooLarge);
        }
        let ghost m = self@;
        let mut i: usize = 0;
        while i < rom.len()
            invariant
                start == START_ADDRESS,
                rom@.len() <= MEMORY_SIZE - start,
                i <= rom@.len(),
                self@ == (MachineView { memory: self@.memory, ..m }),
                forall|a: int|
                    0 <= a < MEMORY_SIZE ==> #[trigger] self.memory@[a] == if start <= a < start
                        + i {
                        rom@[a - start]
                    } else {
                        m.memory[a]
                    },
            decreases rom@.len() - i,
        {
            self.memory[start + i] = rom[i];
            i += 1;
        }
        assert(self@.memory =~= loaded_memory(m.memory, rom@));
        Ok(())
    }

    /// The instruction word at `pc`, if both of its bytes lie inside memory.
    pub fn fetch_opcode(&self) -> (r: Option<u16>)
        ensures
            r == (if can_fetch(self@) {
                Some(fetch(self@))
            } else {
                None::<u16>
            }),
    {
        let pc = self.pc as usize;
        if pc + 1 >= MEMORY_SIZE {
            return None;
        }
        let hi = self.memory[pc];
        let lo = self.memory[pc + 1];
        assert((((hi as u16) << 8u16) | (lo as u16)) == hi as u16 * 256 + lo as u16)
            by (bit_vector);
        Some(((hi as u16) << 8u16) | (lo as u16))
    }

    /// The fault that executing `opcode` on this machine would raise.
    fn fault_of(&self, opcode: u16) -> (r: Option<Chip8Error>)
        ensures
            r == fault(MachineView { opcode, ..self@ }),
    {
        assert((opcode >> 12u16) == opcode / 0x1000u16) by (bit_vector);
        assert((opcode & 0x000Fu16) == opcode % 0x10u16) by (bit_vector);
        assert((opcode & 0x00FFu16) == opcode % 0x100u16) by (bit_vector);
        assert(((opcode & 0x0F00u16) >> 8u16) == (opcode / 0x100u16) % 0x10u16) by (bit_vector);
        let family = opcode >> 12u16;
        let n = (opcode & 0x000Fu16) as usize;
        let nn = opcode & 0x00FFu16;
        let x = ((opcode & 0x0F00u16) >> 8u16) as usize;
        let index = self.index as usize;
        if family == 0x0 && n == 0xE && self.sp == 0 {
            Some(Chip8Error::StackUnderflow)
        } else if family == 0x0 && n == 0xE && self.sp > 16 {
            Some(Chip8Error::StackOverflow)
        } else if family == 0x2 && self.sp >= 16 {
            Some(Chip8Error::StackOverflow)
        } else if family == 0xD && n > 0 && index + n > MEMORY_SIZE {
            Some(Chip8Error::AddressOutOfRange)
        } else if family == 0xE && (nn == 0x9E || nn == 0xA1) && self.registers[x] >= 16 {
            Some(Chip8Error::KeyOutOfRange)
        } else if family == 0xF && nn == 0x33 && index + 2 >= MEMORY_SIZE {
            Some(Chip8Error::AddressOutOfRange)
        } else if family == 0xF && (nn == 0x55 || nn == 0x65) && index + x >= MEMORY_SIZE {
            Some(Chip8Error::AddressOutOfRange)
        } else {
            None
        }
    }

    /// One cycle with the random byte given: fetch the instruction at `pc`,
    /// advance `pc` by two, execute, then count each nonzero timer down by one.
    /// A cycle that would fault returns the fault and changes nothing.
    pub fn step(&mut self, random: u8) -> (r: Result<(), Chip8Error>)
        ensures
            (r, final(self)@) == cycle_result(old(self)@, random),
    {
        let opcode = match self.fetch_opcode() {
            Some(op) => op,
            None => return Err(Chip8Error::AddressOutOfRange),
        };
        match self.fault_of(opcode) {
            Some(e) => return Err(e),
            None => {},
        }
        self.opcode = opcode;
        self.pc += 2;
        assert(self@ == fetched(old(self)@));
        self.execute(random);
        if self.delay_timer > 0 {
            self.delay_timer -= 1;
        }
        if self.sound_timer > 0 {
            self.sound_timer -= 1;
        }
        Ok(())
    }

    /// One cycle, drawing a random byte when the instruction is Cxkk.
    pub fn cycle(&mut self) -> (r: Result<(), Chip8Error>)
        ensures
            exists|random: u8| (r, final(self)@) == cycle_result(old(self)@, random),
            !(can_fetch(old(self)@) && family_of(fetch(old(self)@)) == 0xC) ==> (r, final(self)@)
                == cycle_result(old(self)@, 0),
    {
        let random = match self.fetch_opcode() {
            Some(op) => {
                assert((op >> 12u16) == op / 0x1000u16) by (bit_vector);
                if op >> 12u16 == 0xC {
                    self.rand_byte()
                } else {
                    0
                }
            },
            None => 0,
        };
        self.step(random)
    }

    /// Whether the sound should be playing: while the sound timer is nonzero.
    pub fn sound_state(&self) -> (r: SoundState)
        ensures
            r == (if self.sound_timer > 0 {
                SoundState::On
            } else {
                SoundState::Off
            }),
    {
        if self.sound_timer > 0 {
            SoundState::On
        } else {
            SoundState::Off
        }
    }

    /// The framebuffer as text: per row, one character per cell (a filled
    /// square for a lit cell, a space otherwise) and then a line break.
    pub fn frame_chars(&self) -> (r: Vec<char>)
        ensures
            r@.len() == VIDEO_HEIGHT * (VIDEO_WIDTH + 1),
            forall|y: int, x: int|
                0 <= y < VIDEO_HEIGHT && 0 <= x < VIDEO_WIDTH ==> #[trigger] r@[y * 65 + x] == if self.video@[y * 64 + x]
                    != 0 {
                    PIXEL_ON_CHAR
                } else {
                    PIXEL_OFF_CHAR
                },
            forall|y: int| 0 <= y < VIDEO_HEIGHT ==> #[trigger] r@[y * 65 + 64] == '\n',
    {
        let mut out: Vec<char> = Vec::new();
        let mut y: usize = 0;
        while y < VIDEO_HEIGHT
            invariant
                y <= VIDEO_HEIGHT,
                out@.len() == y * 65,
                forall|yy: int, x: int|
                    0 <= yy < y && 0 <= x < VIDEO_WIDTH ==> #[trigger] out@[yy * 65 + x] == if self.video@[yy * 64 + x]
                        != 0 {
                        PIXEL_ON_CHAR
                    } else {
                        PIXEL_OFF_CHAR
                    },
                forall|yy: int| 0 <= yy < y ==> #[trigger] out@[yy * 65 + 64] == '\n',
            decreases VIDEO_HEIGHT - y,
        {
            let mut x: usize = 0;
            while x < VIDEO_WIDTH
                invariant
                    y < VIDEO_HEIGHT,
                    x <= VIDEO_WIDTH,
                    out@.len() == y * 65 + x,
                    forall|yy: int, xx: int|
                        (0 <= yy < y && 0 <= xx < VIDEO_WIDTH) || (yy == y && 0 <= xx < x) ==> #[trigger] out@[yy * 65 + xx] == if self.video@[yy * 64 + xx]
                            != 0 {
                            PIXEL_ON_CHAR
                        } else {
                            PIXEL_OFF_CHAR
                        },
                    forall|yy: int| 0 <= yy < y ==> #[trigger] out@[yy * 65 + 64] == '\n',
                decreases VIDEO_WIDTH - x,
            {
                let c = if self.video[y * VIDEO_WIDTH + x] != 0 {
                    PIXEL_ON_CHAR
                } else {
                    PIXEL_OFF_CHAR
                };
                out.push(c);
                x += 1;
            }
            out.push('\n');
            y += 1;
        }
        out
    }
}

} // verus!
