//! The instruction handlers and the dispatch over them.
//!
//! Every handler reads its operands from `opcode` and is proved to change the
//! machine exactly as the model's instruction of the same name does.
use vstd::prelude::*;

use vstd::arithmetic::div_mod::{lemma_fundamental_div_mod, lemma_fundamental_div_mod_converse};

use crate::machine::Chip8;
use crate::model::{
    FLAG_REGISTER, FONTSET_START_ADDRESS, MEMORY_SIZE, PIXEL_ON, VIDEO_HEIGHT, VIDEO_SIZE, VIDEO_WIDTH,
    MachineView, add_byte, add_carry, add_index, any_pressed, call, clear_screen, cover_col,
    cover_row, draw_collides, draw_sprite, draws_on, drawn_video, flag, glyph_index,
    is_lowest_pressed, jump, jump_offset, key_down, load_registers, lowest_pressed, n_of, nn_of,
    nnn_of, pc_room, return_from, execute, fault, family_of, shift_left, shift_right, skip_if, sprite_bit, store_bcd,
    store_registers, sub_borrow, sub_reverse, toggle, wait_key, with_pc, with_register, x_of,
    y_of,
};

verus! {

/// Cell `i` was visited by a sprite walk that has finished rows before `row`
/// and, in row `row`, the columns before `col`.
pub open spec fn visited(vx: u8, vy: u8, row: int, col: int, i: int) -> bool {
    cover_row(vy, i) < row || (cover_row(vy, i) == row && cover_col(vx, i) < col)
}

/// On residues modulo `m`: `a` lies `r` steps past `v` exactly when `a` is
/// the residue of `v + r`.
proof fn lemma_offset_residue(a: int, v: int, r: int, m: int)
    requires
        0 < m,
        0 <= a < m,
        0 <= r < m,
    ensures
        ((a - v) % m == r) <==> (a == (v + r) % m),
{
    lemma_fundamental_div_mod(a - v, m);
    lemma_fundamental_div_mod(v + r, m);
    if (a - v) % m == r {
        let t = (a - v) / m;
        assert(v + r == (-t) * m + a) by (nonlinear_arith)
            requires
                a - v == m * t + r,
        ;
        lemma_fundamental_div_mod_converse(v + r, m, -t, a);
    }
    if a == (v + r) % m {
        let s = (v + r) / m;
        assert(a - v == (-s) * m + r) by (nonlinear_arith)
            requires
                v + r == m * s + a,
        ;
        lemma_fundamental_div_mod_converse(a - v, m, -s, r);
    }
}

/// A cell index is its row times the width plus its column.
proof fn lemma_cell_split(i: int)
    requires
        0 <= i < VIDEO_SIZE,
    ensures
        i == (i / 64) * 64 + i % 64,
        0 <= i / 64 < 32,
        0 <= i % 64 < 64,
{
    lemma_fundamental_div_mod(i, 64);
}

/// The framebuffer cell on which sprite row `r`, column `c` lands is the one
/// cell whose cover row and column are `r` and `c`.
proof fn lemma_cell_of(vx: u8, vy: u8, r: int, c: int)
    requires
        0 <= r < VIDEO_HEIGHT,
        0 <= c < VIDEO_WIDTH,
    ensures
        ({
            let j = ((vy + r) % 32) * 64 + (vx + c) % 64;
            &&& 0 <= j < VIDEO_SIZE
            &&& cover_row(vy, j) == r
            &&& cover_col(vx, j) == c
            &&& forall|i: int|
                0 <= i < VIDEO_SIZE && #[trigger] cover_row(vy, i) == r && #[trigger] cover_col(
                    vx,
                    i,
                ) == c ==> i == j
        }),
{
    let py = (vy + r) % 32;
    let px = (vx + c) % 64;
    let j = py * 64 + px;
    lemma_fundamental_div_mod_converse(j, 64, py, px);
    lemma_offset_residue(py, vy as int, r, 32);
    lemma_offset_residue(px, vx as int, c, 64);
    assert forall|i: int|
        0 <= i < VIDEO_SIZE && #[trigger] cover_row(vy, i) == r && #[trigger] cover_col(vx, i)
            == c implies i == j by {
        lemma_cell_split(i);
        lemma_offset_residue(i / 64, vy as int, r, 32);
        lemma_offset_residue(i % 64, vx as int, c, 64);
    }
}

impl Chip8 {
    /// The register operand Vx: bits 8-11 of the instruction word.
    pub fn vx(&self) -> (r: usize)
        ensures
            r == x_of(self.opcode),
            r < 16,
    {
        let op = self.opcode;
        assert(((op & 0x0F00u16) >> 8u16) == (op / 0x100u16) % 0x10u16) by (bit_vector);
        ((op & 0x0F00u16) >> 8u16) as usize
    }

    /// The register operand Vy: bits 4-7 of the instruction word.
    pub fn vy(&self) -> (r: usize)
        ensures
            r == y_of(self.opcode),
            r < 16,
    {
        let op = self.opcode;
        assert(((op & 0x00F0u16) >> 4u16) == (op / 0x10u16) % 0x10u16) by (bit_vector);
        ((op & 0x00F0u16) >> 4u16) as usize
    }

    /// The byte operand NN: bits 0-7 of the instruction word.
    pub fn last_byte(&self) -> (r: u8)
        ensures
            r == nn_of(self.opcode),
    {
        let op = self.opcode;
        assert((op & 0x00FFu16) == op % 0x100u16) by (bit_vector);
        (op & 0x00FFu16) as u8
    }

    /// Dxyn: draws the `n`-row sprite at `memory[index..]` at (Vx, Vy) with
    /// wraparound, flipping the cells under its set bits; VF := 1 if a set bit
    /// landed on a lit cell, else 0.
    pub fn op_dxyn(&mut self)
        requires
            n_of(old(self).opcode) > 0 ==> old(self).index + n_of(old(self).opcode) <= MEMORY_SIZE,
        ensures
            final(self)@ == draw_sprite(
                old(self)@,
                x_of(old(self).opcode),
                y_of(old(self).opcode),
                n_of(old(self).opcode),
            ),
    {
        let ghost m = self@;
        let vx = self.vx();
        let vy = self.vy();
        let op = self.opcode;
        assert((op & 0x000Fu16) == op % 0x10u16) by (bit_vector);
        let height = op & 0x000Fu16;
        let x_pos = self.registers[vx];
        let y_pos = self.registers[vy];
        let ghost n = height as int;
        let mut collision = false;
        let mut row: u16 = 0;
        while row < height
            invariant
                n == n_of(m.opcode),
                height == n,
                row <= height,
                x_pos == m.registers[x_of(m.opcode)],
                y_pos == m.registers[y_of(m.opcode)],
                n > 0 ==> m.index + n <= MEMORY_SIZE,
                self@ == (MachineView { video: self@.video, ..m }),
                forall|i: int|
                    0 <= i < VIDEO_SIZE ==> #[trigger] self.video@[i] == if visited(x_pos, y_pos, row as int, 0, i)
                        && draws_on(m, x_pos, y_pos, n, i) {
                        toggle(m.video[i])
                    } else {
                        m.video[i]
                    },
                collision == exists|i: int|
                    0 <= i < VIDEO_SIZE && visited(x_pos, y_pos, row as int, 0, i) && draws_on(
                        m,
                        x_pos,
                        y_pos,
                        n,
                        i,
                    ) && #[trigger] m.video[i] != 0,
            decreases height - row,
        {
            let sprite_byte = self.memory[(self.index + row) as usize];
            let mut col: u8 = 0;
            while col < 8
                invariant
                    n == n_of(m.opcode),
                    height == n,
                    row < height,
                    col <= 8,
                    x_pos == m.registers[x_of(m.opcode)],
                    y_pos == m.registers[y_of(m.opcode)],
                    m.index + n <= MEMORY_SIZE,
                    sprite_byte == m.memory[m.index + row],
                    self@ == (MachineView { video: self@.video, ..m }),
                    forall|i: int|
                        0 <= i < VIDEO_SIZE ==> #[trigger] self.video@[i] == if visited(x_pos, y_pos, row as int, col as int, i)
                            && draws_on(m, x_pos, y_pos, n, i) {
                            toggle(m.video[i])
                        } else {
                            m.video[i]
                        },
                    collision == exists|i: int|
                        0 <= i < VIDEO_SIZE && visited(x_pos, y_pos, row as int, col as int, i)
                            && draws_on(m, x_pos, y_pos, n, i) && #[trigger] m.video[i] != 0,
                decreases 8 - col,
            {
                let px = (x_pos as u16 + col as u16) % (VIDEO_WIDTH as u16);
                let py = (y_pos as u16 + row) % (VIDEO_HEIGHT as u16);
                let cell = (py * (VIDEO_WIDTH as u16) + px) as usize;
                let ghost j = cell as int;
                proof {
                    lemma_cell_of(x_pos, y_pos, row as int, col as int);
                    assert((sprite_byte & (0x80u8 >> col)) != 0 <==> (sprite_byte >> ((7
                        - col) as u8)) & 1u8 == 1u8) by (bit_vector)
                        requires
                            col < 8,
                    ;
                    assert(draws_on(m, x_pos, y_pos, n, j) <==> sprite_bit(sprite_byte, col as int));
                }
                let ghost before = self.video@;
                let ghost was = collision;
                if sprite_byte & (0x80u8 >> col) != 0 {
                    if self.video[cell] != 0 {
                        collision = true;
                    }
                    self.video[cell] = self.video[cell] ^ PIXEL_ON;
                }
                proof {
                    assert forall|i: int|
                        0 <= i < VIDEO_SIZE implies visited(x_pos, y_pos, row as int, col + 1, i)
                        == (visited(x_pos, y_pos, row as int, col as int, i) || i == j) by {}
                    if collision && !was {
                        assert(visited(x_pos, y_pos, row as int, col + 1, j));
                        assert(m.video[j] != 0);
                    }
                }
                col += 1;
            }
            proof {
                assert forall|i: int|
                    0 <= i < VIDEO_SIZE implies (visited(x_pos, y_pos, row as int, 8, i)
                    && draws_on(m, x_pos, y_pos, n, i)) == (visited(x_pos, y_pos, row + 1, 0, i)
                    && draws_on(m, x_pos, y_pos, n, i)) by {}
            }
            row += 1;
        }
        self.registers[FLAG_REGISTER] = if collision {
            1
        } else {
            0
        };
        proof {
            assert forall|i: int|
                0 <= i < VIDEO_SIZE implies (visited(x_pos, y_pos, n, 0, i) && draws_on(
                m,
                x_pos,
                y_pos,
                n,
                i,
            )) == draws_on(m, x_pos, y_pos, n, i) by {}
            assert(self@.video =~= drawn_video(m, x_pos, y_pos, n));
            assert(collision == draw_collides(m, x_pos, y_pos, n));
            assert(self@.registers =~= m.registers.update(15, flag(collision)));
        }
    }
    /// Address operand NNN: bits 0-11 of the instruction word.
    fn address(&self) -> (r: u16)
        ensures
            r == nnn_of(self.opcode),
    {
        let op = self.opcode;
        assert((op & 0x0FFFu16) == op % 0x1000u16) by (bit_vector);
        op & 0x0FFFu16
    }

    /// Moves past the next instruction.
    pub fn skip_next_inst(&mut self)
        requires
            old(self).pc <= 0xFFFD,
        ensures
            final(self)@ == with_pc(old(self)@, (old(self).pc + 2) as u16),
    {
        self.pc += 2;
    }

    /// Steps back onto the instruction just fetched.
    pub fn repeat_last_inst(&mut self)
        requires
            old(self).pc >= 2,
        ensures
            final(self)@ == with_pc(old(self)@, (old(self).pc - 2) as u16),
    {
        self.pc -= 2;
    }

    /// 00E0: turns every cell off.
    pub fn op_00e0(&mut self)
        ensures
            final(self)@ == clear_screen(old(self)@),
    {
        self.video = [0u32; 2048];
        assert(self@.video =~= clear_screen(old(self)@).video);
    }

    /// 00EE: returns from a subroutine.
    pub fn op_00ee(&mut self)
        requires
            0 < old(self).sp <= 16,
        ensures
            final(self)@ == return_from(old(self)@),
    {
        self.sp -= 1;
        self.pc = self.stack[self.sp as usize];
    }

    /// 1nnn: jumps to NNN.
    pub fn op_1nnn(&mut self)
        ensures
            final(self)@ == jump(old(self)@, nnn_of(old(self).opcode)),
    {
        self.pc = self.address();
    }

    /// 2nnn: calls the subroutine at NNN.
    pub fn op_2nnn(&mut self)
        requires
            old(self).sp < 16,
        ensures
            final(self)@ == call(old(self)@, nnn_of(old(self).opcode)),
    {
        let address = self.address();
        self.stack[self.sp as usize] = self.pc;
        self.sp += 1;
        self.pc = address;
    }

    /// 3xnn: skips the next instruction if Vx == NN.
    pub fn op_3xnn(&mut self)
        requires
            old(self).pc <= 0xFFFD,
        ensures
            final(self)@ == skip_if(
                old(self)@,
                old(self).registers[x_of(old(self).opcode)] == nn_of(old(self).opcode),
            ),
    {
        if self.registers[self.vx()] == self.last_byte() {
            self.skip_next_inst()
        }
    }

    /// 4xnn: skips the next instruction if Vx != NN.
    pub fn op_4xnn(&mut self)
        requires
            old(self).pc <= 0xFFFD,
        ensures
            final(self)@ == skip_if(
                old(self)@,
                old(self).registers[x_of(old(self).opcode)] != nn_of(old(self).opcode),
            ),
    {
        if self.registers[self.vx()] != self.last_byte() {
            self.skip_next_inst()
        }
    }

    /// 5xy0: skips the next instruction if Vx == Vy.
    pub fn op_5xy0(&mut self)
        requires
            old(self).pc <= 0xFFFD,
        ensures
            final(self)@ == skip_if(
                old(self)@,
                old(self).registers[x_of(old(self).opcode)] == old(self).registers[y_of(
                    old(self).opcode,
                )],
            ),
    {
        if self.registers[self.vx()] == self.registers[self.vy()] {
            self.skip_next_inst();
        }
    }

    /// 6xnn: Vx := NN.
    pub fn op_6xnn(&mut self)
        ensures
            final(self)@ == with_register(old(self)@, x_of(old(self).opcode), nn_of(old(self).opcode)),
    {
        let val = self.last_byte();
        let vx = self.vx();
        self.registers[vx] = val;
    }

    /// 7xnn: Vx := Vx + NN, wrapping; VF untouched.
    pub fn op_7xnn(&mut self)
        ensures
            final(self)@ == add_byte(old(self)@, x_of(old(self).opcode), nn_of(old(self).opcode)),
    {
        let val = self.last_byte();
        let vx = self.vx();
        self.registers[vx] = self.registers[vx].wrapping_add(val);
    }

    /// 8xy0: Vx := Vy.
    pub fn op_8xy0(&mut self)
        ensures
            final(self)@ == with_register(
                old(self)@,
                x_of(old(self).opcode),
                old(self).registers[y_of(old(self).opcode)],
            ),
    {
        let vx = self.vx();
        self.registers[vx] = self.registers[self.vy()];
    }

    /// 8xy1: Vx := Vx | Vy.
    pub fn op_8xy1(&mut self)
        ensures
            final(self)@ == with_register(
                old(self)@,
                x_of(old(self).opcode),
                old(self).registers[x_of(old(self).opcode)] | old(self).registers[y_of(
                    old(self).opcode,
                )],
            ),
    {
        let vx = self.vx();
        self.registers[vx] = self.registers[vx] | self.registers[self.vy()];
    }

    /// 8xy2: Vx := Vx & Vy.
    pub fn op_8xy2(&mut self)
        ensures
            final(self)@ == with_register(
                old(self)@,
                x_of(old(self).opcode),
                old(self).registers[x_of(old(self).opcode)] & old(self).registers[y_of(
                    old(self).opcode,
                )],
            ),
    {
        let vx = self.vx();
        self.registers[vx] = self.registers[vx] & self.registers[self.vy()];
    }

    /// 8xy3: Vx := Vx ^ Vy.
    pub fn op_8xy3(&mut self)
        ensures
            final(self)@ == with_register(
                old(self)@,
                x_of(old(self).opcode),
                old(self).registers[x_of(old(self).opcode)] ^ old(self).registers[y_of(
                    old(self).opcode,
                )],
            ),
    {
        let vx = self.vx();
        self.registers[vx] = self.registers[vx] ^ self.registers[self.vy()];
    }

    /// 8xy4: VF := carry of Vx + Vy, then Vx := the low byte of the sum.
    pub fn op_8xy4(&mut self)
        ensures
            final(self)@ == add_carry(old(self)@, x_of(old(self).opcode), y_of(old(self).opcode)),
    {
        let vx = self.vx();
        let vy = self.vy();
        let sum = self.registers[vx] as u16 + self.registers[vy] as u16;
        self.registers[FLAG_REGISTER] = if sum > 255u16 {
            1
        } else {
            0
        };
        assert((sum & 0x00FFu16) == sum % 256) by (bit_vector);
        self.registers[vx] = (sum & 0x00FFu16) as u8;
    }

    /// 8xy5: VF := (Vx > Vy), then Vx := Vx - Vy, wrapping.
    pub fn op_8xy5(&mut self)
        ensures
            final(self)@ == sub_borrow(old(self)@, x_of(old(self).opcode), y_of(old(self).opcode)),
    {
        let vx = self.vx();
        let vy = self.vy();
        self.registers[FLAG_REGISTER] = if self.registers[vx] > self.registers[vy] {
            1
        } else {
            0
        };
        self.registers[vx] = self.registers[vx].wrapping_sub(self.registers[vy]);
    }

    /// 8xy6: VF := the lowest bit of Vx, then Vx := Vx >> 1.
    pub fn op_8xy6(&mut self)
        ensures
            final(self)@ == shift_right(old(self)@, x_of(old(self).opcode)),
    {
        let vx = self.vx();
        let v = self.registers[vx];
        assert((v & 0x1u8) == v % 2) by (bit_vector);
        self.registers[FLAG_REGISTER] = v & 0x1u8;
        let w = self.registers[vx];
        assert((w >> 1u8) == w / 2) by (bit_vector);
        self.registers[vx] = w >> 1u8;
    }

    /// 8xy7: VF := (Vy > Vx), then Vx := Vy - Vx, wrapping.
    pub fn op_8xy7(&mut self)
        ensures
            final(self)@ == sub_reverse(old(self)@, x_of(old(self).opcode), y_of(old(self).opcode)),
    {
        let vx = self.vx();
        let vy = self.vy();
        self.registers[FLAG_REGISTER] = if self.registers[vy] > self.registers[vx] {
            1
        } else {
            0
        };
        self.registers[vx] = self.registers[vy].wrapping_sub(self.registers[vx]);
    }

    /// 8xyE: VF := the highest bit of Vx, then Vx := Vx << 1, wrapping.
    pub fn op_8xye(&mut self)
        ensures
            final(self)@ == shift_left(old(self)@, x_of(old(self).opcode)),
    {
        let vx = self.vx();
        let v = self.registers[vx];
        assert(((v & 0x80u8) >> 7u8) == v / 128) by (bit_vector);
        self.registers[FLAG_REGISTER] = (v & 0x80u8) >> 7u8;
        let w = self.registers[vx];
        assert((w << 1u8) == ((w as int * 2) % 256) as u8) by (bit_vector);
        self.registers[vx] = w << 1u8;
    }

    /// 9xy0: skips the next instruction if Vx != Vy.
    pub fn op_9xy0(&mut self)
        requires
            old(self).pc <= 0xFFFD,
        ensures
            final(self)@ == skip_if(
                old(self)@,
                old(self).registers[x_of(old(self).opcode)] != old(self).registers[y_of(
                    old(self).opcode,
                )],
            ),
    {
        if self.registers[self.vx()] != self.registers[self.vy()] {
            self.skip_next_inst();
        }
    }

    /// Annn: index := NNN.
    pub fn op_annn(&mut self)
        ensures
            final(self)@ == (MachineView { index: nnn_of(old(self).opcode), ..old(self)@ }),
    {
        self.index = self.address();
    }

    /// Bnnn: jumps to V0 + NNN.
    pub fn op_bnnn(&mut self)
        ensures
            final(self)@ == jump_offset(old(self)@, nnn_of(old(self).opcode)),
    {
        let address = self.address();
        self.pc = self.registers[0] as u16 + address;
    }

    /// Cxkk with the random byte given: Vx := random & NN.
    pub fn op_cxkk_with(&mut self, random: u8)
        ensures
            final(self)@ == with_register(
                old(self)@,
                x_of(old(self).opcode),
                random & nn_of(old(self).opcode),
            ),
    {
        let vx = self.vx();
        self.registers[vx] = random & self.last_byte();
    }

    /// Cxkk: Vx := a random byte & NN.
    pub fn op_cxkk(&mut self)
        ensures
            exists|random: u8|
                final(self)@ == with_register(
                    old(self)@,
                    x_of(old(self).opcode),
                    random & nn_of(old(self).opcode),
                ),
    {
        let random = self.rand_byte();
        self.op_cxkk_with(random);
    }

    /// Ex9E: skips the next instruction if key Vx is down.
    pub fn op_ex9e(&mut self)
        requires
            old(self).registers[x_of(old(self).opcode)] < 16,
            old(self).pc <= 0xFFFD,
        ensures
            final(self)@ == skip_if(
                old(self)@,
                key_down(old(self)@, old(self).registers[x_of(old(self).opcode)] as int),
            ),
    {
        let key = self.registers[self.vx()] as usize;
        if self.keypad[key] != 0 {
            self.skip_next_inst();
        }
    }

    /// ExA1: skips the next instruction if key Vx is up.
    pub fn op_exa1(&mut self)
        requires
            old(self).registers[x_of(old(self).opcode)] < 16,
            old(self).pc <= 0xFFFD,
        ensures
            final(self)@ == skip_if(
                old(self)@,
                !key_down(old(self)@, old(self).registers[x_of(old(self).opcode)] as int),
            ),
    {
        let key = self.registers[self.vx()] as usize;
        if self.keypad[key] == 0 {
            self.skip_next_inst();
        }
    }

    /// Fx07: Vx := delay timer.
    pub fn op_fx07(&mut self)
        ensures
            final(self)@ == with_register(old(self)@, x_of(old(self).opcode), old(self).delay_timer),
    {
        let vx = self.vx();
        self.registers[vx] = self.delay_timer;
    }

    /// Fx0A: Vx := the lowest key that is down; with none down, steps back so
    /// that this instruction runs again.
    pub fn op_fx0a(&mut self)
        requires
            !any_pressed(old(self).keypad@) ==> old(self).pc >= 2,
        ensures
            final(self)@ == wait_key(old(self)@, x_of(old(self).opcode)),
    {
        let mut i: usize = 0;
        while i < 16 && self.keypad[i] == 0
            invariant
                i <= 16,
                forall|j: int| 0 <= j < i ==> self.keypad@[j] == 0,
            decreases 16 - i,
        {
            i += 1;
        }
        let ghost keys = self.keypad@;
        if i < 16 {
            proof {
                assert(is_lowest_pressed(keys, i as int));
                let k = lowest_pressed(keys);
                assert(is_lowest_pressed(keys, k));
                assert(k == i) by {
                    if k < i {
                        assert(keys[k] == 0);
                    } else if k > i {
                        assert(keys[i as int] == 0);
                    }
                }
            }
            let vx = self.vx();
            self.registers[vx] = i as u8;
        } else {
            assert(!any_pressed(keys));
            self.repeat_last_inst();
        }
    }

    /// Fx15: delay timer := Vx.
    pub fn op_fx15(&mut self)
        ensures
            final(self)@ == (MachineView {
                delay_timer: old(self).registers[x_of(old(self).opcode)],
                ..old(self)@
            }),
    {
        self.delay_timer = self.registers[self.vx()];
    }

    /// Fx18: sound timer := Vx.
    pub fn op_fx18(&mut self)
        ensures
            final(self)@ == (MachineView {
                sound_timer: old(self).registers[x_of(old(self).opcode)],
                ..old(self)@
            }),
    {
        self.sound_timer = self.registers[self.vx()];
    }

    /// Fx1E: index := index + Vx, wrapping at 16 bits.
    pub fn op_fx1e(&mut self)
        ensures
            final(self)@ == add_index(old(self)@, x_of(old(self).opcode)),
    {
        self.index = self.index.wrapping_add(self.registers[self.vx()] as u16);
    }

    /// Fx29: index := address of the glyph for digit Vx.
    pub fn op_fx29(&mut self)
        ensures
            final(self)@ == glyph_index(old(self)@, x_of(old(self).opcode)),
    {
        self.index = FONTSET_START_ADDRESS + 5 * (self.registers[self.vx()] as u16);
    }

    /// Fx33: stores the hundreds, tens and ones digits of Vx at index,
    /// index + 1 and index + 2.
    pub fn op_fx33(&mut self)
        requires
            old(self).index + 2 < MEMORY_SIZE,
        ensures
            final(self)@ == store_bcd(old(self)@, x_of(old(self).opcode)),
    {
        let vx = self.vx();
        let mut value = self.registers[vx];
        let i = self.index as usize;

        self.memory[i + 2] = value % 10;
        value /= 10;

        self.memory[i + 1] = value % 10;
        value /= 10;

        self.memory[i] = value % 10;
        let ghost m = old(self)@;
        let ghost v = m.registers[x_of(m.opcode)];
        assert(v / 10 / 10 % 10 == v / 100);
        assert(self@.memory =~= store_bcd(m, x_of(m.opcode)).memory);
    }

    /// Fx55: stores V0..=Vx at memory[index..=index + x].
    pub fn op_fx55(&mut self)
        requires
            old(self).index + x_of(old(self).opcode) < MEMORY_SIZE,
        ensures
            final(self)@ == store_registers(old(self)@, x_of(old(self).opcode)),
    {
        let ghost m = self@;
        let vx = self.vx();
        let s = self.index as usize;
        let mut r: usize = 0;
        while r <= vx
            invariant
                vx == x_of(m.opcode),
                s == m.index,
                s + vx < MEMORY_SIZE,
                r <= vx + 1,
                self@ == (MachineView { memory: self@.memory, ..m }),
                forall|a: int|
                    0 <= a < MEMORY_SIZE ==> #[trigger] self.memory@[a] == if s <= a < s + r {
                        m.registers[a - s]
                    } else {
                        m.memory[a]
                    },
            decreases vx + 1 - r,
        {
            self.memory[s + r] = self.registers[r];
            r += 1;
        }
        assert(self@.memory =~= store_registers(m, vx as int).memory);
    }

    /// Fx65: loads V0..=Vx from memory[index..=index + x].
    pub fn op_fx65(&mut self)
        requires
            old(self).index + x_of(old(self).opcode) < MEMORY_SIZE,
        ensures
            final(self)@ == load_registers(old(self)@, x_of(old(self).opcode)),
    {
        let ghost m = self@;
        let vx = self.vx();
        let s = self.index as usize;
        let mut r: usize = 0;
        while r <= vx
            invariant
                vx == x_of(m.opcode),
                vx < 16,
                s == m.index,
                s + vx < MEMORY_SIZE,
                r <= vx + 1,
                self@ == (MachineView { registers: self@.registers, ..m }),
                forall|k: int|
                    0 <= k < 16 ==> #[trigger] self.registers@[k] == if k < r {
                        m.memory[s + k]
                    } else {
                        m.registers[k]
                    },
            decreases vx + 1 - r,
        {
            self.registers[r] = self.memory[s + r];
            r += 1;
        }
        assert(self@.registers =~= load_registers(m, vx as int).registers);
    }
    /// Executes the instruction in `opcode`; `random` is the byte that Cxkk uses.
    /// Unknown instruction words change nothing.
    pub fn execute(&mut self, random: u8)
        requires
            fault(old(self)@) is None,
            pc_room(old(self)@),
        ensures
            final(self)@ == execute(old(self)@, random),
    {
        let op = self.opcode;
        assert((op >> 12u16) == op / 0x1000u16) by (bit_vector);
        assert((op & 0x000Fu16) == op % 0x10u16) by (bit_vector);
        assert((op & 0x00FFu16) == op % 0x100u16) by (bit_vector);
        let n1 = op >> 12u16;
        let n34 = op & 0x00FFu16;
        let n4 = op & 0x000Fu16;
        match n1 {
            0x0 => match n4 {
                0x0 => self.op_00e0(),
                0xE => self.op_00ee(),
                _ => {},
            },
            0x1 => self.op_1nnn(),
            0x2 => self.op_2nnn(),
            0x3 => self.op_3xnn(),
            0x4 => self.op_4xnn(),
            0x5 => self.op_5xy0(),
            0x6 => self.op_6xnn(),
            0x7 => self.op_7xnn(),
            0x8 => match n4 {
                0x0 => self.op_8xy0(),
                0x1 => self.op_8xy1(),
                0x2 => self.op_8xy2(),
                0x3 => self.op_8xy3(),
                0x4 => self.op_8xy4(),
                0x5 => self.op_8xy5(),
                0x6 => self.op_8xy6(),
                0x7 => self.op_8xy7(),
                0xE => self.op_8xye(),
                _ => {},
            },
            0x9 => self.op_9xy0(),
            0xA => self.op_annn(),
            0xB => self.op_bnnn(),
            0xC => self.op_cxkk_with(random),
            0xD => self.op_dxyn(),
            0xE => match n34 {
                0x9E => self.op_ex9e(),
                0xA1 => self.op_exa1(),
                _ => {},
            },
            _ => match n34 {
                0x07 => self.op_fx07(),
                0x0A => self.op_fx0a(),
                0x15 => self.op_fx15(),
                0x18 => self.op_fx18(),
                0x1E => self.op_fx1e(),
                0x29 => self.op_fx29(),
                0x33 => self.op_fx33(),
                0x55 => self.op_fx55(),
                0x65 => self.op_fx65(),
                _ => {},
            },
        }
    }

    /// Executes the instruction in `opcode`, drawing a random byte for Cxkk.
    pub fn call_op(&mut self)
        requires
            fault(old(self)@) is None,
            pc_room(old(self)@),
        ensures
            exists|random: u8| final(self)@ == execute(old(self)@, random),
            family_of(old(self).opcode) != 0xC ==> final(self)@ == execute(old(self)@, 0),
    {
        let op = self.opcode;
        assert((op >> 12u16) == op / 0x1000u16) by (bit_vector);
        if op >> 12u16 == 0xC {
            let random = self.rand_byte();
            self.execute(random);
        } else {
            self.execute(0);
        }
    }
}

} // verus!
