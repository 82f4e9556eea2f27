//! Laws of the interpreter: properties that relate several instructions
//! or hold of every machine state, proved against the transition
//! function.

use vstd::prelude::*;

verus! {

use crate::cycle::{fetch_word, lowest_pressed, spec_exec, spec_step};
use crate::decode::{Instruction, spec_decode};
use crate::draw::{draw_target, covers_upto, collided_upto, sprite_row_bit, in_prefix};
use crate::machine::{CycleStatus, MachineView, spec_tick, wf};
use vstd::arithmetic::div_mod::lemma_mod_bound;

/// Law: add-with-carry leaves `Vx = (a + b) mod 256` (when `Vx` is not
/// the flag register itself) and `VF = 1` exactly when `a + b > 255`,
/// where `a` and `b` are the values of `Vx` and `Vy` beforehand.
pub proof fn lemma_add_with_carry(v: MachineView, rnd: u8, x: u8, y: u8)
    requires
        wf(v),
        x < 16,
        y < 16,
    ensures
        spec_exec(v, (Instruction::AddCarry { x, y }), rnd).0.registers[15] == (
        if v.registers[x as int] + v.registers[y as int] > 255 {
            1u8
        } else {
            0u8
        }),
        x != 15 ==> spec_exec(v, (Instruction::AddCarry { x, y }), rnd).0.registers[x as int] == ((
        v.registers[x as int] + v.registers[y as int]) % 256) as u8,
        spec_exec(v, (Instruction::AddCarry { x, y }), rnd).1 == CycleStatus::Executed,
{
}

/// Law: subtract-with-borrow leaves `Vx = (a - b) mod 256` (when `Vx` is
/// not the flag register itself) and `VF = 1` exactly when `a >= b`, that
/// is, when no borrow occurred.
pub proof fn lemma_sub_with_borrow(v: MachineView, rnd: u8, x: u8, y: u8)
    requires
        wf(v),
        x < 16,
        y < 16,
    ensures
        spec_exec(v, (Instruction::SubBorrow { x, y }), rnd).0.registers[15] == (
        if v.registers[x as int] >= v.registers[y as int] {
            1u8
        } else {
            0u8
        }),
        x != 15 ==> spec_exec(v, (Instruction::SubBorrow { x, y }), rnd).0.registers[x as int] == ((
        v.registers[x as int] - v.registers[y as int]) % 256) as u8,
        spec_exec(v, (Instruction::SubBorrow { x, y }), rnd).1 == CycleStatus::Executed,
{
}

/// Law: drawing an all-set one-row sprite twice at the same coordinates,
/// onto pixels that start out off, turns every touched pixel on and then
/// off again, and the second draw reports the collision in VF.
///
/// The coordinate registers must not be VF itself: the first draw writes
/// its collision flag there, which would move the second sprite.
pub proof fn lemma_draw_twice_clears(v: MachineView, rnd1: u8, rnd2: u8, x: u8, y: u8)
    requires
        wf(v),
        x < 16,
        y < 16,
        x != 15,
        y != 15,
        v.index_register + 1 <= 4096,
        v.memory[v.index_register as int] == 0xFF,
        forall|c: int|
            0 <= c < 8 ==> !v.framebuffer[#[trigger] draw_target(
                (v.registers[x as int] as int) % 64,
                (v.registers[y as int] as int) % 32,
                0,
                c,
            )],
    ensures
        spec_exec(v, (Instruction::Draw { x, y, n: 1 }), rnd1).0.registers[15] == 0,
        forall|c: int|
            0 <= c < 8 ==> spec_exec(v, (Instruction::Draw { x, y, n: 1 }), rnd1).0.framebuffer[
                #[trigger] draw_target(
                    (v.registers[x as int] as int) % 64,
                    (v.registers[y as int] as int) % 32,
                    0,
                    c,
                )],
        spec_exec(
            spec_exec(v, (Instruction::Draw { x, y, n: 1 }), rnd1).0,
            (Instruction::Draw { x, y, n: 1 }),
            rnd2,
        ).0.registers[15] == 1,
        forall|c: int|
            0 <= c < 8 ==> !spec_exec(
                spec_exec(v, (Instruction::Draw { x, y, n: 1 }), rnd1).0,
                (Instruction::Draw { x, y, n: 1 }),
                rnd2,
            ).0.framebuffer[#[trigger] draw_target(
                (v.registers[x as int] as int) % 64,
                (v.registers[y as int] as int) % 32,
                0,
                c,
            )],
{
    let i = v.index_register as int;
    let sx = (v.registers[x as int] as int) % 64;
    let sy = (v.registers[y as int] as int) % 32;
    lemma_mod_bound(v.registers[x as int] as int, 64);
    lemma_mod_bound(v.registers[y as int] as int, 32);
    assert forall|c: int| 0 <= c < 8 implies sprite_row_bit(v.memory[i], c) by {
        let s = (7 - c) as u8;
        assert(((0xFFu8 >> s) & 1) == 1) by (bit_vector)
            requires
                s < 8,
        ;
    }
    assert forall|c: int| 0 <= c < 8 implies 0 <= #[trigger] draw_target(sx, sy, 0, c) < 2048 by {
        lemma_mod_bound(sy + 0, 32);
        lemma_mod_bound(sx + c, 64);
    }
    let w1 = spec_exec(v, (Instruction::Draw { x, y, n: 1 }), rnd1).0;
    assert forall|c: int| 0 <= c < 8 implies covers_upto(
        v.memory,
        i,
        sx,
        sy,
        1,
        0,
        draw_target(sx, sy, 0, c),
    ) by {
        assert(in_prefix(0, c, 1, 0));
    }
    assert forall|c: int| 0 <= c < 8 implies w1.framebuffer[#[trigger] draw_target(
        sx,
        sy,
        0,
        c,
    )] by {}
    if collided_upto(v.framebuffer, v.memory, i, sx, sy, 1, 0) {
        let (r, c) = choose|r: int, c: int|
            in_prefix(r, c, 1, 0) && sprite_row_bit(v.memory[i + r], c)
                && v.framebuffer[#[trigger] draw_target(sx, sy, r, c)];
        assert(r == 0);
        assert(!v.framebuffer[draw_target(sx, sy, 0, c)]);
        assert(false);
    }
    assert(w1.registers[15] == 0);
    assert(w1.registers[x as int] == v.registers[x as int]);
    assert(w1.registers[y as int] == v.registers[y as int]);
    assert(w1.memory == v.memory);
    assert(w1.index_register == v.index_register);
    let w2 = spec_exec(w1, (Instruction::Draw { x, y, n: 1 }), rnd2).0;
    assert(collided_upto(w1.framebuffer, v.memory, i, sx, sy, 1, 0)) by {
        assert(in_prefix(0, 0, 1, 0));
        assert(sprite_row_bit(v.memory[i], 0));
        assert(w1.framebuffer[draw_target(sx, sy, 0, 0)]);
    }
    assert(w2.registers[15] == 1);
    assert forall|c: int| 0 <= c < 8 implies !w2.framebuffer[#[trigger] draw_target(
        sx,
        sy,
        0,
        c,
    )] by {
        assert(covers_upto(v.memory, i, sx, sy, 1, 0, draw_target(sx, sy, 0, c)));
    }
}

/// Law: after a clear-screen, a draw that stays in bounds finds nothing
/// to collide with, so it reports `VF = 0`.
pub proof fn lemma_draw_after_clear(v: MachineView, rnd1: u8, rnd2: u8, x: u8, y: u8, n: u8)
    requires
        wf(v),
        x < 16,
        y < 16,
        n < 16,
        v.index_register + n <= 4096,
    ensures
        spec_exec(
            spec_exec(v, Instruction::ClearScreen, rnd1).0,
            (Instruction::Draw { x, y, n }),
            rnd2,
        ).0.registers[15] == 0,
        spec_exec(
            spec_exec(v, Instruction::ClearScreen, rnd1).0,
            (Instruction::Draw { x, y, n }),
            rnd2,
        ).1 == CycleStatus::Executed,
{
    let w1 = spec_exec(v, Instruction::ClearScreen, rnd1).0;
    let i = v.index_register as int;
    let sx = (v.registers[x as int] as int) % 64;
    let sy = (v.registers[y as int] as int) % 32;
    lemma_mod_bound(v.registers[x as int] as int, 64);
    lemma_mod_bound(v.registers[y as int] as int, 32);
    if collided_upto(w1.framebuffer, w1.memory, i, sx, sy, n as int, 0) {
        let (r, c) = choose|r: int, c: int|
            in_prefix(r, c, n as int, 0) && sprite_row_bit(w1.memory[i + r], c)
                && w1.framebuffer[#[trigger] draw_target(sx, sy, r, c)];
        lemma_mod_bound(sy + r, 32);
        lemma_mod_bound(sx + c, 64);
        assert(!w1.framebuffer[draw_target(sx, sy, r, c)]);
        assert(false);
    }
}

/// Law: a call pushes the return address and jumps, and an immediately
/// following return restores the program counter to the instruction
/// after the call and the stack to its pre-call state.
pub proof fn lemma_call_return_round_trip(v: MachineView, rnd1: u8, rnd2: u8, nnn: u16)
    requires
        wf(v),
        nnn < 0x1000,
        v.stack.len() < 16,
    ensures
        spec_exec(v, (Instruction::Call { nnn }), rnd1).0.program_counter == nnn,
        spec_exec(v, (Instruction::Call { nnn }), rnd1).1 == CycleStatus::Executed,
        spec_exec(
            spec_exec(v, (Instruction::Call { nnn }), rnd1).0,
            Instruction::Return,
            rnd2,
        ).0.program_counter == v.program_counter,
        spec_exec(
            spec_exec(v, (Instruction::Call { nnn }), rnd1).0,
            Instruction::Return,
            rnd2,
        ).0.stack == v.stack,
        spec_exec(
            spec_exec(v, (Instruction::Call { nnn }), rnd1).0,
            Instruction::Return,
            rnd2,
        ).1 == CycleStatus::Executed,
{
    let w1 = spec_exec(v, (Instruction::Call { nnn }), rnd1).0;
    assert(w1.stack == v.stack.push(v.program_counter));
    assert(w1.stack.len() == v.stack.len() + 1);
    assert(w1.stack.last() == v.program_counter);
    assert(w1.stack.drop_last() =~= v.stack);
}

/// Law: a skip-if-equal-immediate instruction moves the program counter
/// four bytes past its own address when the register matches the
/// immediate, and two bytes (the plain fetch advance) when it does not.
pub proof fn lemma_skip_eq_imm(v: MachineView, rnd: u8, x: u8, nn: u8)
    requires
        wf(v),
        x < 16,
        v.fault is None,
        v.awaiting_key is None,
        v.program_counter <= 0xFFE,
        spec_decode(fetch_word(v)) == Some((Instruction::SkipEqImm { x, nn })),
    ensures
        spec_step(v, rnd).0.program_counter == (if v.registers[x as int] == nn {
            (v.program_counter + 4) as u16
        } else {
            (v.program_counter + 2) as u16
        }),
        spec_step(v, rnd).1 == CycleStatus::Executed,
{
}

/// Timers applied `n` times: what [`spec_tick`] does after `n` 60Hz
/// ticks.
pub open spec fn spec_tick_n(t: u8, n: nat) -> u8
    decreases n,
{
    if n == 0 {
        t
    } else {
        spec_tick(spec_tick_n(t, (n - 1) as nat))
    }
}

/// A timer that starts at `t` reads `t - n` after `n` ticks until it
/// reaches zero, and zero from then on.
pub proof fn lemma_tick_n_value(t: u8, n: nat)
    ensures
        spec_tick_n(t, n) == (if n >= t {
            0u8
        } else {
            (t - n) as u8
        }),
    decreases n,
{
    if n > 0 {
        lemma_tick_n_value(t, (n - 1) as nat);
    }
}

/// Law: a delay timer that starts at `d` reaches zero after `d` ticks,
/// and any number of further ticks leaves it at zero: it never wraps
/// below zero.
pub proof fn lemma_timer_decay(d: u8, extra: nat)
    ensures
        spec_tick_n(d, d as nat) == 0,
        spec_tick_n(d, d as nat + extra) == 0,
{
    lemma_tick_n_value(d, d as nat);
    lemma_tick_n_value(d, d as nat + extra);
}

/// Law: a machine that is waiting for a key does not move while no key
/// is pressed, and a halted machine never moves again.
pub proof fn lemma_suspension(v: MachineView, rnd: u8)
    requires
        wf(v),
    ensures
        v.fault is Some ==> spec_step(v, rnd).0 == v && spec_step(v, rnd).1 == CycleStatus::Faulted(
            v.fault.unwrap(),
        ),
        v.fault is None && v.awaiting_key is Some && lowest_pressed(v.keypad, 0) is None
            ==> spec_step(v, rnd).0 == v && spec_step(v, rnd).1 == CycleStatus::AwaitingKey,
{
}

} // verus!
