//! Laws of the machine that relate several instructions or cycles, proved
//! over the model that every handler is verified against.
use vstd::prelude::*;

use crate::model::{
    FLAG_REGISTER, MEMORY_SIZE, VIDEO_SIZE, MachineView, any_pressed, can_fetch, clear_screen,
    cycle_fault, cycle_step, draw_sprite, draws_on, family_of, fetch, fetched, key_down,
    load_registers, lowest_pressed, nn_of, nnn_of, store_registers, tick, toggle, x_of,
    y_of,
};

verus! {

/// The instruction word is one of the conditional skips.
pub open spec fn is_skip(op: u16) -> bool {
    let f = family_of(op);
    ||| f == 0x3 || f == 0x4 || f == 0x5 || f == 0x9
    ||| f == 0xE && (nn_of(op) == 0x9E || nn_of(op) == 0xA1)
}

/// The condition under which the skip in `m.opcode` skips.
pub open spec fn skip_taken(m: MachineView) -> bool {
    let op = m.opcode;
    let vx = m.registers[x_of(op)];
    let vy = m.registers[y_of(op)];
    let f = family_of(op);
    if f == 0x3 {
        vx == nn_of(op)
    } else if f == 0x4 {
        vx != nn_of(op)
    } else if f == 0x5 {
        vx == vy
    } else if f == 0x9 {
        vx != vy
    } else if nn_of(op) == 0x9E {
        key_down(m, vx as int)
    } else {
        !key_down(m, vx as int)
    }
}

/// A cycle that executes a conditional skip moves the program counter on from
/// the skip's own address by four bytes when the condition holds and by two
/// when it does not.
pub proof fn lemma_skip_advance(m: MachineView, random: u8)
    requires
        m.wf(),
        cycle_fault(m) is None,
        is_skip(fetch(m)),
    ensures
        cycle_step(m, random).pc == m.pc + if skip_taken(fetched(m)) {
            4int
        } else {
            2int
        },
{
}

/// Clearing the screen leaves every cell off, and clearing it again after any
/// sprite was drawn leaves every cell off again.
pub proof fn lemma_clear_after_draw(m: MachineView, x: int, y: int, n: int)
    requires
        m.wf(),
        0 <= x < 16,
        0 <= y < 16,
    ensures
        forall|i: int| 0 <= i < VIDEO_SIZE ==> #[trigger] clear_screen(m).video[i] == 0,
        clear_screen(draw_sprite(clear_screen(m), x, y, n)).video == clear_screen(m).video,
{
}

/// Drawing the same sprite twice at the same place, with neither coordinate
/// held in VF, restores the framebuffer. Onto a region where every cell the
/// sprite covers is off, the first draw reports no collision, and the second
/// reports one when the sprite has a set bit.
pub proof fn lemma_draw_twice(m: MachineView, x: int, y: int, n: int)
    requires
        m.wf(),
        0 <= x < FLAG_REGISTER,
        0 <= y < FLAG_REGISTER,
    ensures
        draw_sprite(draw_sprite(m, x, y, n), x, y, n).video == m.video,
        (forall|i: int|
            0 <= i < VIDEO_SIZE && draws_on(m, m.registers[x], m.registers[y], n, i) ==> m.video[i]
                == 0) ==> draw_sprite(m, x, y, n).registers[FLAG_REGISTER as int] == 0,
        (forall|i: int|
            0 <= i < VIDEO_SIZE && draws_on(m, m.registers[x], m.registers[y], n, i) ==> m.video[i]
                == 0) && (exists|i: int|
            0 <= i < VIDEO_SIZE && draws_on(m, m.registers[x], m.registers[y], n, i))
            ==> draw_sprite(draw_sprite(m, x, y, n), x, y, n).registers[FLAG_REGISTER as int] == 1,
{
    let vx = m.registers[x];
    let vy = m.registers[y];
    let m1 = draw_sprite(m, x, y, n);
    let m2 = draw_sprite(m1, x, y, n);
    assert(m1.registers[x] == vx && m1.registers[y] == vy);
    assert forall|i: int| 0 <= i < VIDEO_SIZE implies #[trigger] m2.video[i] == m.video[i] by {
        let v = m.video[i];
        assert(v ^ 0xFFFF_FFFFu32 ^ 0xFFFF_FFFFu32 == v) by (bit_vector);
        assert(draws_on(m1, vx, vy, n, i) == draws_on(m, vx, vy, n, i));
    }
    assert(m2.video =~= m.video);
    if (forall|i: int|
        0 <= i < VIDEO_SIZE && draws_on(m, vx, vy, n, i) ==> m.video[i] == 0) && (exists|i: int|
        0 <= i < VIDEO_SIZE && draws_on(m, vx, vy, n, i)) {
        let i = choose|i: int| 0 <= i < VIDEO_SIZE && draws_on(m, vx, vy, n, i);
        assert(m.video[i] == 0);
        assert(toggle(0) != 0) by (bit_vector);
        assert(draws_on(m1, vx, vy, n, i) && m1.video[i] != 0);
    }
}

/// A call followed by a return, the return being the instruction at the call's
/// target, resumes right after the call with the stack pointer as before.
pub proof fn lemma_call_return(m: MachineView, r1: u8, r2: u8)
    requires
        m.wf(),
        can_fetch(m),
        family_of(fetch(m)) == 0x2,
        m.sp < 16,
        nnn_of(fetch(m)) + 1 < MEMORY_SIZE,
        m.memory[nnn_of(fetch(m)) as int] == 0x00,
        m.memory[nnn_of(fetch(m)) + 1] == 0xEE,
    ensures
        cycle_fault(m) is None,
        cycle_fault(cycle_step(m, r1)) is None,
        cycle_step(cycle_step(m, r1), r2).pc == m.pc + 2,
        cycle_step(cycle_step(m, r1), r2).sp == m.sp,
{
    let m1 = cycle_step(m, r1);
    assert(fetch(m1) == 0x00EE);
}

/// A key wait with no key down leaves the program counter on the wait itself,
/// so the next cycle fetches the same instruction, and changes nothing but the
/// timers; with a key down, Vx receives the lowest key that is down and
/// execution moves on.
pub proof fn lemma_key_wait(m: MachineView, random: u8)
    requires
        m.wf(),
        can_fetch(m),
        family_of(fetch(m)) == 0xF,
        nn_of(fetch(m)) == 0x0A,
    ensures
        cycle_fault(m) is None,
        !any_pressed(m.keypad) ==> cycle_step(m, random) == (MachineView {
            opcode: fetch(m),
            delay_timer: tick(m.delay_timer),
            sound_timer: tick(m.sound_timer),
            ..m
        }),
        !any_pressed(m.keypad) ==> fetch(cycle_step(m, random)) == fetch(m),
        any_pressed(m.keypad) ==> cycle_step(m, random).pc == m.pc + 2,
        any_pressed(m.keypad) ==> cycle_step(m, random).registers == m.registers.update(
            x_of(fetch(m)),
            lowest_pressed(m.keypad) as u8,
        ),
{
}

/// Storing V0..=Vx at `index` and loading V0..=Vx back from `index` gives the
/// registers their values again.
pub proof fn lemma_store_load_round_trip(m: MachineView, x: int)
    requires
        m.wf(),
        0 <= x < 16,
        m.index + x < MEMORY_SIZE,
    ensures
        load_registers(store_registers(m, x), x).registers == m.registers,
{
    assert(load_registers(store_registers(m, x), x).registers =~= m.registers);
}

} // verus!
