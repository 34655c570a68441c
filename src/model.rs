//! The mathematical model of the interpreter: a machine as plain sequences and
//! integers, the decoding of an instruction word, the meaning of every
//! instruction, the faults an instruction can raise, and one whole cycle.
use vstd::prelude::*;

verus! {

/// Width of the framebuffer in cells.
pub const VIDEO_WIDTH: usize = 64;

/// Height of the framebuffer in cells.
pub const VIDEO_HEIGHT: usize = 32;

/// Number of framebuffer cells, row-major.
pub const VIDEO_SIZE: usize = 2048;

/// Size of the address space in bytes.
pub const MEMORY_SIZE: usize = 4096;

/// Address at which programs are loaded and execution starts.
pub const START_ADDRESS: u16 = 0x200;

/// Address of the first hex-digit glyph.
pub const FONTSET_START_ADDRESS: u16 = 0x50;

/// Value of a framebuffer cell that is on; a cell that is off holds 0.
pub const PIXEL_ON: u32 = 0xFFFF_FFFF;

/// Index of the flag register VF.
pub const FLAG_REGISTER: usize = 15;

/// A faulting instruction or program, one kind per cause.
#[derive(Clone, Copy, Debug, PartialEq, Eq, Structural)]
pub enum Chip8Error {
    /// A call with all sixteen stack slots in use, or a return with the stack
    /// pointer beyond the stack.
    StackOverflow,
    /// A return with an empty stack.
    StackUnderflow,
    /// A fetch, sprite read, or register store or load past the end of memory.
    AddressOutOfRange,
    /// A key test on a register that names no key of the pad.
    KeyOutOfRange,
    /// A program that does not fit between the load address and the end of memory.
    RomTooLarge,
}

/// The whole state of a machine, as mathematical values.
pub struct MachineView {
    pub registers: Seq<u8>,
    pub memory: Seq<u8>,
    pub index: u16,
    pub pc: u16,
    pub stack: Seq<u16>,
    pub sp: u8,
    pub delay_timer: u8,
    pub sound_timer: u8,
    pub keypad: Seq<u8>,
    pub video: Seq<u32>,
    pub opcode: u16,
}

impl MachineView {
    /// Every sequence has the length of the array it stands for.
    pub open spec fn wf(self) -> bool {
        &&& self.registers.len() == 16
        &&& self.memory.len() == MEMORY_SIZE
        &&& self.stack.len() == 16
        &&& self.keypad.len() == 16
        &&& self.video.len() == VIDEO_SIZE
    }
}

// Decoding of an instruction word.

/// Bits 12-15: the instruction family.
pub open spec fn family_of(op: u16) -> int {
    op as int / 0x1000
}

/// Bits 8-11: the register operand Vx.
pub open spec fn x_of(op: u16) -> int {
    (op as int / 0x100) % 0x10
}

/// Bits 4-7: the register operand Vy.
pub open spec fn y_of(op: u16) -> int {
    (op as int / 0x10) % 0x10
}

/// Bits 0-3: the lowest nibble N.
pub open spec fn n_of(op: u16) -> int {
    op as int % 0x10
}

/// Bits 0-7: the byte operand NN.
pub open spec fn nn_of(op: u16) -> u8 {
    (op as int % 0x100) as u8
}

/// Bits 0-11: the address operand NNN.
pub open spec fn nnn_of(op: u16) -> u16 {
    (op as int % 0x1000) as u16
}

/// The instruction word stored big-endian at `pc` and `pc + 1`.
pub open spec fn fetch(m: MachineView) -> u16 {
    (m.memory[m.pc as int] as int * 0x100 + m.memory[m.pc + 1] as int) as u16
}

// Helpers that change one part of a machine.

pub open spec fn with_registers(m: MachineView, r: Seq<u8>) -> MachineView {
    MachineView { registers: r, ..m }
}

pub open spec fn with_register(m: MachineView, x: int, v: u8) -> MachineView {
    with_registers(m, m.registers.update(x, v))
}

pub open spec fn with_pc(m: MachineView, pc: u16) -> MachineView {
    MachineView { pc, ..m }
}

/// `a - b` modulo 256.
pub open spec fn wrap_sub(a: u8, b: u8) -> u8 {
    ((a as int - b as int) % 256) as u8
}

/// 1 when `c` holds, else 0.
pub open spec fn flag(c: bool) -> u8 {
    if c {
        1
    } else {
        0
    }
}

// The instructions.

/// 00E0: every cell off.
pub open spec fn clear_screen(m: MachineView) -> MachineView {
    MachineView { video: Seq::new(VIDEO_SIZE as nat, |i: int| 0u32), ..m }
}

/// 00EE: pop the return address.
pub open spec fn return_from(m: MachineView) -> MachineView {
    MachineView { sp: (m.sp - 1) as u8, pc: m.stack[m.sp - 1], ..m }
}

/// 1nnn: absolute jump.
pub open spec fn jump(m: MachineView, a: u16) -> MachineView {
    with_pc(m, a)
}

/// 2nnn: push the program counter, then jump.
pub open spec fn call(m: MachineView, a: u16) -> MachineView {
    MachineView { stack: m.stack.update(m.sp as int, m.pc), sp: (m.sp + 1) as u8, pc: a, ..m }
}

/// The conditional skips: two more bytes when `c` holds.
pub open spec fn skip_if(m: MachineView, c: bool) -> MachineView {
    if c {
        with_pc(m, (m.pc + 2) as u16)
    } else {
        m
    }
}

/// 7xnn: add a byte, wrapping, flag untouched.
pub open spec fn add_byte(m: MachineView, x: int, nn: u8) -> MachineView {
    with_register(m, x, ((m.registers[x] + nn) % 256) as u8)
}

/// 8xy4: VF := carry out of Vx + Vy, then Vx := the low byte of the sum.
pub open spec fn add_carry(m: MachineView, x: int, y: int) -> MachineView {
    let sum = m.registers[x] + m.registers[y];
    let r = m.registers.update(FLAG_REGISTER as int, flag(sum > 255));
    with_registers(m, r.update(x, (sum % 256) as u8))
}

/// 8xy5: VF := (Vx > Vy), then Vx := Vx - Vy, wrapping.
pub open spec fn sub_borrow(m: MachineView, x: int, y: int) -> MachineView {
    let r = m.registers.update(FLAG_REGISTER as int, flag(m.registers[x] > m.registers[y]));
    with_registers(m, r.update(x, wrap_sub(r[x], r[y])))
}

/// 8xy6: VF := the lowest bit of Vx, then Vx := Vx / 2.
pub open spec fn shift_right(m: MachineView, x: int) -> MachineView {
    let r = m.registers.update(FLAG_REGISTER as int, m.registers[x] % 2);
    with_registers(m, r.update(x, r[x] / 2))
}

/// 8xy7: VF := (Vy > Vx), then Vx := Vy - Vx, wrapping.
pub open spec fn sub_reverse(m: MachineView, x: int, y: int) -> MachineView {
    let r = m.registers.update(FLAG_REGISTER as int, flag(m.registers[y] > m.registers[x]));
    with_registers(m, r.update(x, wrap_sub(r[y], r[x])))
}

/// 8xyE: VF := the highest bit of Vx, then Vx := 2 * Vx, wrapping.
pub open spec fn shift_left(m: MachineView, x: int) -> MachineView {
    let r = m.registers.update(FLAG_REGISTER as int, m.registers[x] / 128);
    with_registers(m, r.update(x, ((r[x] * 2) % 256) as u8))
}

/// Bnnn: jump to V0 + NNN.
pub open spec fn jump_offset(m: MachineView, a: u16) -> MachineView {
    with_pc(m, (m.registers[0] + a) as u16)
}

/// Row of the sprite that lands on cell `i` when its top edge is at `vy`.
pub open spec fn cover_row(vy: u8, i: int) -> int {
    (i / VIDEO_WIDTH as int - vy) % VIDEO_HEIGHT as int
}

/// Column of the sprite that lands on cell `i` when its left edge is at `vx`.
pub open spec fn cover_col(vx: u8, i: int) -> int {
    (i % VIDEO_WIDTH as int - vx) % VIDEO_WIDTH as int
}

/// Bit `col` of a sprite row, counted from the most significant bit.
pub open spec fn sprite_bit(row: u8, col: int) -> bool {
    (row >> ((7 - col) as u8)) & 1u8 == 1u8
}

/// A sprite of `n` rows at `memory[index..]`, placed at (vx, vy) with wraparound,
/// has a set bit on cell `i`.
pub open spec fn draws_on(m: MachineView, vx: u8, vy: u8, n: int, i: int) -> bool {
    &&& cover_row(vy, i) < n
    &&& cover_col(vx, i) < 8
    &&& sprite_bit(m.memory[m.index + cover_row(vy, i)], cover_col(vx, i))
}

/// A cell's state flipped.
pub open spec fn toggle(p: u32) -> u32 {
    p ^ PIXEL_ON
}

/// The framebuffer after XOR-blitting the sprite.
pub open spec fn drawn_video(m: MachineView, vx: u8, vy: u8, n: int) -> Seq<u32> {
    Seq::new(
        VIDEO_SIZE as nat,
        |i: int|
            if draws_on(m, vx, vy, n, i) {
                toggle(m.video[i])
            } else {
                m.video[i]
            },
    )
}

/// Some set bit of the sprite lands on a cell that is on.
pub open spec fn draw_collides(m: MachineView, vx: u8, vy: u8, n: int) -> bool {
    exists|i: int| 0 <= i < VIDEO_SIZE && draws_on(m, vx, vy, n, i) && m.video[i] != 0
}

/// Dxyn: draw `n` rows at (Vx, Vy); VF := whether a lit cell was hit.
pub open spec fn draw_sprite(m: MachineView, x: int, y: int, n: int) -> MachineView {
    let vx = m.registers[x];
    let vy = m.registers[y];
    MachineView {
        video: drawn_video(m, vx, vy, n),
        registers: m.registers.update(
            FLAG_REGISTER as int,
            flag(draw_collides(m, vx, vy, n)),
        ),
        ..m
    }
}

/// Key `k` is down.
pub open spec fn key_down(m: MachineView, k: int) -> bool {
    m.keypad[k] != 0
}

/// `k` is the lowest-numbered key that is down.
pub open spec fn is_lowest_pressed(keys: Seq<u8>, k: int) -> bool {
    &&& 0 <= k < 16
    &&& keys[k] > 0
    &&& forall|j: int| 0 <= j < k ==> keys[j] == 0
}

/// Some key is down.
pub open spec fn any_pressed(keys: Seq<u8>) -> bool {
    exists|k: int| is_lowest_pressed(keys, k)
}

/// The lowest-numbered key that is down, where one is.
pub open spec fn lowest_pressed(keys: Seq<u8>) -> int {
    choose|k: int| is_lowest_pressed(keys, k)
}

/// Fx0A: store the lowest pressed key, or step back onto this instruction.
pub open spec fn wait_key(m: MachineView, x: int) -> MachineView {
    if any_pressed(m.keypad) {
        with_register(m, x, lowest_pressed(m.keypad) as u8)
    } else {
        with_pc(m, (m.pc - 2) as u16)
    }
}

/// Fx1E: index := index + Vx, wrapping at 16 bits.
pub open spec fn add_index(m: MachineView, x: int) -> MachineView {
    MachineView { index: ((m.index + m.registers[x]) % 0x10000) as u16, ..m }
}

/// Fx29: index := address of the glyph of digit Vx.
pub open spec fn glyph_index(m: MachineView, x: int) -> MachineView {
    MachineView { index: (FONTSET_START_ADDRESS + 5 * m.registers[x]) as u16, ..m }
}

/// Fx33: hundreds, tens and ones of Vx at index, index + 1, index + 2.
pub open spec fn store_bcd(m: MachineView, x: int) -> MachineView {
    let v = m.registers[x];
    let i = m.index as int;
    MachineView {
        memory: m.memory.update(i, v / 100).update(i + 1, (v / 10) % 10).update(i + 2, v % 10),
        ..m
    }
}

/// Fx55: memory[index + r] := Vr for every r in 0..=x.
pub open spec fn store_registers(m: MachineView, x: int) -> MachineView {
    MachineView {
        memory: Seq::new(
            MEMORY_SIZE as nat,
            |a: int|
                if m.index <= a <= m.index + x {
                    m.registers[a - m.index]
                } else {
                    m.memory[a]
                },
        ),
        ..m
    }
}

/// Fx65: Vr := memory[index + r] for every r in 0..=x.
pub open spec fn load_registers(m: MachineView, x: int) -> MachineView {
    with_registers(
        m,
        Seq::new(
            16,
            |r: int|
                if r <= x {
                    m.memory[m.index + r]
                } else {
                    m.registers[r]
                },
        ),
    )
}

/// Executes the instruction held in `m.opcode`; `random` is the byte that Cxkk draws.
pub open spec fn execute(m: MachineView, random: u8) -> MachineView {
    let op = m.opcode;
    let x = x_of(op);
    let y = y_of(op);
    let n = n_of(op);
    let nn = nn_of(op);
    let nnn = nnn_of(op);
    let vx = m.registers[x];
    let vy = m.registers[y];
    let f = family_of(op);
    if f == 0x0 {
        if n == 0x0 {
            clear_screen(m)
        } else if n == 0xE {
            return_from(m)
        } else {
            m
        }
    } else if f == 0x1 {
        jump(m, nnn)
    } else if f == 0x2 {
        call(m, nnn)
    } else if f == 0x3 {
        skip_if(m, vx == nn)
    } else if f == 0x4 {
        skip_if(m, vx != nn)
    } else if f == 0x5 {
        skip_if(m, vx == vy)
    } else if f == 0x6 {
        with_register(m, x, nn)
    } else if f == 0x7 {
        add_byte(m, x, nn)
    } else if f == 0x8 {
        if n == 0x0 {
            with_register(m, x, vy)
        } else if n == 0x1 {
            with_register(m, x, vx | vy)
        } else if n == 0x2 {
            with_register(m, x, vx & vy)
        } else if n == 0x3 {
            with_register(m, x, vx ^ vy)
        } else if n == 0x4 {
            add_carry(m, x, y)
        } else if n == 0x5 {
            sub_borrow(m, x, y)
        } else if n == 0x6 {
            shift_right(m, x)
        } else if n == 0x7 {
            sub_reverse(m, x, y)
        } else if n == 0xE {
            shift_left(m, x)
        } else {
            m
        }
    } else if f == 0x9 {
        skip_if(m, vx != vy)
    } else if f == 0xA {
        MachineView { index: nnn, ..m }
    } else if f == 0xB {
        jump_offset(m, nnn)
    } else if f == 0xC {
        with_register(m, x, random & nn)
    } else if f == 0xD {
        draw_sprite(m, x, y, n)
    } else if f == 0xE {
        if nn == 0x9E {
            skip_if(m, key_down(m, vx as int))
        } else if nn == 0xA1 {
            skip_if(m, !key_down(m, vx as int))
        } else {
            m
        }
    } else {
        if nn == 0x07 {
            with_register(m, x, m.delay_timer)
        } else if nn == 0x0A {
            wait_key(m, x)
        } else if nn == 0x15 {
            MachineView { delay_timer: vx, ..m }
        } else if nn == 0x18 {
            MachineView { sound_timer: vx, ..m }
        } else if nn == 0x1E {
            add_index(m, x)
        } else if nn == 0x29 {
            glyph_index(m, x)
        } else if nn == 0x33 {
            store_bcd(m, x)
        } else if nn == 0x55 {
            store_registers(m, x)
        } else if nn == 0x65 {
            load_registers(m, x)
        } else {
            m
        }
    }
}

/// The instruction in `m.opcode` can move `pc` as it must: a skip has room to
/// add two, and a key wait with no key down has room to step back.
pub open spec fn pc_room(m: MachineView) -> bool {
    let op = m.opcode;
    let f = family_of(op);
    let nn = nn_of(op);
    &&& (f == 0x3 || f == 0x4 || f == 0x5 || f == 0x9 || (f == 0xE && (nn == 0x9E || nn
        == 0xA1))) ==> m.pc <= 0xFFFD
    &&& (f == 0xF && nn == 0x0A && !any_pressed(m.keypad)) ==> m.pc >= 2
}

/// The fault that executing `m.opcode` raises, if any.
pub open spec fn fault(m: MachineView) -> Option<Chip8Error> {
    let op = m.opcode;
    let x = x_of(op);
    let f = family_of(op);
    let nn = nn_of(op);
    if f == 0x0 && n_of(op) == 0xE && m.sp == 0 {
        Some(Chip8Error::StackUnderflow)
    } else if f == 0x0 && n_of(op) == 0xE && m.sp > 16 {
        Some(Chip8Error::StackOverflow)
    } else if f == 0x2 && m.sp >= 16 {
        Some(Chip8Error::StackOverflow)
    } else if f == 0xD && n_of(op) > 0 && m.index + n_of(op) > MEMORY_SIZE {
        Some(Chip8Error::AddressOutOfRange)
    } else if f == 0xE && (nn == 0x9E || nn == 0xA1) && m.registers[x] >= 16 {
        Some(Chip8Error::KeyOutOfRange)
    } else if f == 0xF && nn == 0x33 && m.index + 2 >= MEMORY_SIZE {
        Some(Chip8Error::AddressOutOfRange)
    } else if f == 0xF && (nn == 0x55 || nn == 0x65) && m.index + x >= MEMORY_SIZE {
        Some(Chip8Error::AddressOutOfRange)
    } else {
        None
    }
}

/// One counter step of a timer: down by one, never below zero.
pub open spec fn tick(t: u8) -> u8 {
    if t > 0 {
        (t - 1) as u8
    } else {
        0
    }
}

/// The machine after fetching and advancing past the instruction at `pc`.
pub open spec fn fetched(m: MachineView) -> MachineView {
    MachineView { opcode: fetch(m), pc: (m.pc + 2) as u16, ..m }
}

/// The fetch at `pc` stays inside memory.
pub open spec fn can_fetch(m: MachineView) -> bool {
    m.pc + 1 < MEMORY_SIZE
}

/// The fault that one cycle from `m` raises, if any.
pub open spec fn cycle_fault(m: MachineView) -> Option<Chip8Error> {
    if !can_fetch(m) {
        Some(Chip8Error::AddressOutOfRange)
    } else {
        fault(fetched(m))
    }
}

/// One full cycle from `m` that raises no fault: fetch, advance, execute, timers.
pub open spec fn cycle_step(m: MachineView, random: u8) -> MachineView {
    let e = execute(fetched(m), random);
    MachineView { delay_timer: tick(e.delay_timer), sound_timer: tick(e.sound_timer), ..e }
}

/// What one cycle from `m` returns, and the machine it leaves: a faulting
/// cycle changes nothing.
pub open spec fn cycle_result(m: MachineView, random: u8) -> (Result<(), Chip8Error>, MachineView) {
    match cycle_fault(m) {
        Some(e) => (Err(e), m),
        None => (Ok(()), cycle_step(m, random)),
    }
}

} // verus!
