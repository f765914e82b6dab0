//! Properties of the machine that span several instructions or steps,
//! stated over the model that `Emulator::execute_with` is specified by.
use vstd::prelude::*;

use crate::machine::{
    any_held, blank_screen, corner_x, corner_y, covers, dispatch, draw, fetched,
    instruction, lowest_held, step, tick, tick_due, Machine, Step, SCREEN_HEIGHT,
    SCREEN_WIDTH,
};
use crate::opcode::decoded;

verus! {

/// Setting register x to v and then adding 0 to it leaves v in register x
/// and changes nothing else.
pub proof fn law_set_then_add_zero(m: Machine, set: u16, add: u16, random: u8)
    requires
        m.wf(),
        decoded(set).category == 6,
        decoded(add).category == 7,
        decoded(add).x == decoded(set).x,
        decoded(add).nn == 0,
    ensures
        ({
            let m1 = dispatch(m, decoded(set), random).0;
            let m2 = dispatch(m1, decoded(add), random).0;
            &&& m1.regs[decoded(set).x as int] == decoded(set).nn
            &&& m2 == m1
        }),
{
    let x = decoded(set).x as int;
    let m1 = dispatch(m, decoded(set), random).0;
    assert(m1.regs.update(x, m1.regs[x]) =~= m1.regs);
}

/// Adding an immediate wraps modulo 256 and leaves every other register,
/// the flag register among them, as it was.
pub proof fn law_add_immediate_wraps(m: Machine, add: u16, random: u8)
    requires
        m.wf(),
        decoded(add).category == 7,
    ensures
        ({
            let x = decoded(add).x as int;
            let m1 = dispatch(m, decoded(add), random).0;
            &&& m1.regs[x] == (m.regs[x] + decoded(add).nn) % 256
            &&& forall|r: int| 0 <= r < 16 && r != x ==> m1.regs[r] == m.regs[r]
            &&& m.regs[x] + decoded(add).nn > 255 ==> m1.regs[x] == m.regs[x] + decoded(add).nn - 256
        }),
{
}

/// Drawing a sprite twice at the same place restores the framebuffer, as
/// long as neither coordinate register is the flag register, which the
/// first draw overwrites. On a blank screen the first draw reports no
/// collision and the second reports one exactly when the sprite lights a
/// visible pixel.
pub proof fn law_draw_twice(m: Machine, x: int, y: int, n: int)
    requires
        m.wf(),
        0 <= x < 15,
        0 <= y < 15,
        0 <= n < 16,
    ensures
        draw(draw(m, x, y, n), x, y, n).screen == m.screen,
        m.screen == blank_screen() ==> draw(m, x, y, n).regs[15] == 0,
        m.screen == blank_screen() ==> draw(draw(m, x, y, n), x, y, n).regs[15] == if exists|r: int, c: int|
            0 <= r < SCREEN_HEIGHT && 0 <= c < SCREEN_WIDTH && #[trigger] covers(
                m,
                corner_x(m, x),
                corner_y(m, y),
                n,
                r,
                c,
            ) {
            1u8
        } else {
            0u8
        },
{
    let m1 = draw(m, x, y, n);
    let m2 = draw(m1, x, y, n);
    assert(m1.regs[x] == m.regs[x]);
    assert(m1.regs[y] == m.regs[y]);
    assert forall|r: int, c: int|
        covers(m1, corner_x(m1, x), corner_y(m1, y), n, r, c) == covers(
            m,
            corner_x(m, x),
            corner_y(m, y),
            n,
            r,
            c,
        ) by {}
    assert(m2.screen =~~= m.screen);
    if m.screen == blank_screen() {
        if exists|r: int, c: int|
            0 <= r < SCREEN_HEIGHT && 0 <= c < SCREEN_WIDTH && #[trigger] covers(
                m,
                corner_x(m, x),
                corner_y(m, y),
                n,
                r,
                c,
            ) {
            let (r, c) = choose|r: int, c: int|
                0 <= r < SCREEN_HEIGHT && 0 <= c < SCREEN_WIDTH && #[trigger] covers(
                    m,
                    corner_x(m, x),
                    corner_y(m, y),
                    n,
                    r,
                    c,
                );
            assert(m1.screen[r][c]);
            assert(covers(m1, corner_x(m1, x), corner_y(m1, y), n, r, c));
        }
    }
}

/// A subroutine call followed by a return resumes right after the call:
/// the program counter is the one the call instruction's fetch left, and the
/// stack is as before the call.
pub proof fn law_call_then_return(m: Machine, now1: u64, now2: u64, random1: u8, random2: u8)
    requires
        m.wf(),
        decoded(instruction(m)).category == 2,
        instruction(step(m, now1, random1).0) == 0x00EE,
    ensures
        ({
            let (m1, r1) = step(m, now1, random1);
            let (m2, r2) = step(m1, now2, random2);
            &&& r1 == Ok::<Step, crate::machine::Fault>(Step::Done)
            &&& m1.pc == decoded(instruction(m)).nnn
            &&& r2 == Ok::<Step, crate::machine::Fault>(Step::Done)
            &&& m2.pc == fetched(m).pc
            &&& m2.stack == m.stack
        }),
{
    let m1 = step(m, now1, random1).0;
    assert(decoded(0x00EE) == decoded(instruction(m1)));
    assert(m1.stack.drop_last() =~= m.stack);
}

/// With no key held, the wait-for-key instruction leaves the machine as it
/// was but for the timers, so running it again and again stalls at the same
/// program counter. (An address past the end of memory is first brought
/// back into range, so it is left out.)
pub proof fn law_wait_for_key_stalls(m: Machine, now: u64, random: u8)
    requires
        m.wf(),
        m.pc < 4096,
        decoded(instruction(m)).category == 0xF,
        decoded(instruction(m)).nn == 0x0A,
        !any_held(m.keys),
    ensures
        step(m, now, random) == (tick(m, now), Ok::<Step, crate::machine::Fault>(Step::Done)),
{
}

/// With key `k` the lowest one held, the wait-for-key instruction stores `k`
/// in its register and moves on to the next instruction.
pub proof fn law_wait_for_key_takes_key(m: Machine, now: u64, random: u8, k: int)
    requires
        m.wf(),
        decoded(instruction(m)).category == 0xF,
        decoded(instruction(m)).nn == 0x0A,
        lowest_held(m.keys, k),
    ensures
        ({
            let m1 = step(m, now, random).0;
            &&& m1.pc == (m.pc + 2) % 4096
            &&& m1.regs == m.regs.update(decoded(instruction(m)).x as int, k as u8)
        }),
{
    let c = choose|c: int| lowest_held(m.keys, c);
    assert(c == k);
}

/// Runs one step at each clock reading of `times`, in order.
pub open spec fn run(m: Machine, times: Seq<u64>, random: u8) -> Machine
    decreases times.len(),
{
    if times.len() == 0 {
        m
    } else {
        step(run(m, times.drop_last(), random), times.last(), random).0
    }
}

/// Each reading of `times` comes at least 1/60 second after the one before,
/// the first after `last`.
pub open spec fn spaced(last: u64, times: Seq<u64>) -> bool {
    forall|i: int|
        0 <= i < times.len() ==> tick_due(if i == 0 { last } else { times[i - 1] }, #[trigger] times[i])
}

/// The instruction that `m` is about to run does not write the delay timer.
pub open spec fn keeps_delay(m: Machine) -> bool {
    !(decoded(instruction(m)).category == 0xF && decoded(instruction(m)).nn == 0x15)
}

/// The delay timer after `k` ticks from `d`: `d - k`, never below zero.
pub open spec fn decayed(d: u8, k: nat) -> u8 {
    if k >= d { 0 } else { (d - k) as u8 }
}

/// A step keeps the clock reading of the last tick, or moves it to `now`
/// when a tick is due, and it changes the delay timer only by that tick,
/// unless its instruction writes the timer.
pub proof fn law_step_ticks(m: Machine, now: u64, random: u8)
    requires
        m.wf(),
        keeps_delay(m),
    ensures
        step(m, now, random).0.delay == tick(m, now).delay,
        step(m, now, random).0.last_tick == tick(m, now).last_tick,
        step(m, now, random).0.wf(),
{
}

/// Steps taken at least 1/60 second apart bring the delay timer down by
/// one each, to zero and never below, as long as no instruction run writes
/// the timer.
pub proof fn law_timer_decay(m: Machine, times: Seq<u64>, random: u8)
    requires
        m.wf(),
        spaced(m.last_tick, times),
        forall|i: int| 0 <= i < times.len() ==> keeps_delay(#[trigger] run(m, times.take(i), random)),
    ensures
        run(m, times, random).delay == decayed(m.delay, times.len()),
        run(m, times, random).wf(),
    decreases times.len(),
{
    if times.len() > 0 {
        let k = times.len() - 1;
        let prefix = times.drop_last();
        assert(prefix =~= times.take(k));
        assert forall|i: int| 0 <= i < prefix.len() implies keeps_delay(#[trigger] run(m, prefix.take(i), random)) by {
            assert(prefix.take(i) =~= times.take(i));
            assert(keeps_delay(run(m, times.take(i), random)));
        }
        assert forall|i: int| 0 <= i < prefix.len() implies tick_due(
            if i == 0 { m.last_tick } else { prefix[i - 1] },
            #[trigger] prefix[i],
        ) by {
            assert(tick_due(if i == 0 { m.last_tick } else { times[i - 1] }, times[i]));
        }
        law_timer_decay(m, prefix, random);
        lemma_last_tick(m, prefix, random);
        let before = run(m, prefix, random);
        assert(keeps_delay(run(m, times.take(k), random)));
        assert(tick_due(if k == 0 { m.last_tick } else { times[k - 1] }, times[k]));
        law_step_ticks(before, times.last(), random);
    }
}

/// After steps at spaced readings, the last tick is at the last reading.
proof fn lemma_last_tick(m: Machine, times: Seq<u64>, random: u8)
    requires
        m.wf(),
        spaced(m.last_tick, times),
        forall|i: int| 0 <= i < times.len() ==> keeps_delay(#[trigger] run(m, times.take(i), random)),
    ensures
        run(m, times, random).last_tick == if times.len() == 0 { m.last_tick } else { times.last() },
        run(m, times, random).wf(),
    decreases times.len(),
{
    if times.len() > 0 {
        let k = times.len() - 1;
        let prefix = times.drop_last();
        assert(prefix =~= times.take(k));
        assert forall|i: int| 0 <= i < prefix.len() implies keeps_delay(#[trigger] run(m, prefix.take(i), random)) by {
            assert(prefix.take(i) =~= times.take(i));
            assert(keeps_delay(run(m, times.take(i), random)));
        }
        assert forall|i: int| 0 <= i < prefix.len() implies tick_due(
            if i == 0 { m.last_tick } else { prefix[i - 1] },
            #[trigger] prefix[i],
        ) by {
            assert(tick_due(if i == 0 { m.last_tick } else { times[i - 1] }, times[i]));
        }
        lemma_last_tick(m, prefix, random);
        assert(keeps_delay(run(m, times.take(k), random)));
        assert(tick_due(if k == 0 { m.last_tick } else { times[k - 1] }, times[k]));
        law_step_ticks(run(m, prefix, random), times.last(), random);
    }
}

} // verus!
