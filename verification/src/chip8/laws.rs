use crate::chip8::cpu::bcd_stored;
use crate::chip8::cpu::collides;
use crate::chip8::cpu::sprite_at;
use crate::chip8::cpu::touches_timers;
use crate::chip8::cpu::goes_off;
use crate::chip8::graphics::blank_screen;
use crate::chip8::cpu::cycled;
use crate::chip8::cpu::drawn_screen;
use crate::chip8::cpu::effect;
use crate::chip8::cpu::with_flag;
use crate::chip8::cpu::with_reg;
use crate::chip8::cpu::executed;
use crate::chip8::cpu::fatal;
use crate::chip8::cpu::fetch;
use crate::chip8::cpu::first_pressed;
use crate::chip8::cpu::is_first_pressed;
use crate::chip8::cpu::is_known;
use crate::chip8::cpu::logged;
use crate::chip8::cpu::op_class;
use crate::chip8::cpu::op_n;
use crate::chip8::cpu::op_nn;
use crate::chip8::cpu::op_nnn;
use crate::chip8::cpu::op_x;
use crate::chip8::cpu::op_y;
use crate::chip8::cpu::CpuState;
use vstd::prelude::*;

verus! {

/// Adding an immediate (7xkk) leaves the sum modulo 256 in Vx and touches
/// no other register, the flag included, unless Vx is the flag itself.
pub proof fn lemma_add_immediate_wraps(s: CpuState, t: (u8, u8), instr: u16, rnd: u8)
    requires
        s.well_formed(),
        op_class(instr) == 0x7,
    ensures
        ({
            let after = executed(s, t, instr, rnd).0;
            let x = op_x(instr);
            &&& after.v[x] == (s.v[x] + op_nn(instr)) % 256
            &&& forall|k: int| 0 <= k < 16 && k != x ==> after.v[k] == s.v[k]
            &&& after.pc == (s.pc + 2) as usize
        }),
{
    let x = op_x(instr);
    assert(effect(s, t, instr, rnd).state == with_reg(
        s,
        x,
        ((s.v[x] + op_nn(instr)) % 256) as u8,
    ));
}

/// Adding registers (8xy4) leaves the sum modulo 256 in Vx and 1 in VF
/// exactly if the sum did not fit in a byte.
pub proof fn lemma_add_sets_carry(s: CpuState, t: (u8, u8), instr: u16, rnd: u8)
    requires
        s.well_formed(),
        op_class(instr) == 0x8,
        op_n(instr) == 0x4,
    ensures
        ({
            let after = executed(s, t, instr, rnd).0;
            let x = op_x(instr);
            let sum = s.v[x] + s.v[op_y(instr)];
            &&& x != 15 ==> after.v[x] == sum % 256
            &&& after.v[15] == (if sum >= 256 { 1int } else { 0int })
            &&& forall|k: int| 0 <= k < 15 && k != x ==> after.v[k] == s.v[k]
        }),
{
    let x = op_x(instr);
    let sum = s.v[x] + s.v[op_y(instr)];
    assert(effect(s, t, instr, rnd).state == with_flag(
        s,
        x,
        (sum % 256) as u8,
        if sum > 255 { 1u8 } else { 0u8 },
    ));
}

/// Subtracting registers (8xy5) leaves Vx - Vy modulo 256 in Vx and 1 in
/// VF exactly if nothing was borrowed.
pub proof fn lemma_subtract_clears_flag_on_borrow(s: CpuState, t: (u8, u8), instr: u16, rnd: u8)
    requires
        s.well_formed(),
        op_class(instr) == 0x8,
        op_n(instr) == 0x5,
    ensures
        ({
            let after = executed(s, t, instr, rnd).0;
            let x = op_x(instr);
            let vx = s.v[x];
            let vy = s.v[op_y(instr)];
            &&& x != 15 ==> after.v[x] == (if vx >= vy { vx - vy } else { vx - vy + 256 })
            &&& after.v[15] == (if vx < vy { 0int } else { 1int })
            &&& forall|k: int| 0 <= k < 15 && k != x ==> after.v[k] == s.v[k]
        }),
{
    let x = op_x(instr);
    let vx = s.v[x];
    let vy = s.v[op_y(instr)];
    assert(effect(s, t, instr, rnd).state == with_flag(
        s,
        x,
        ((vx - vy) % 256) as u8,
        if vx >= vy { 1u8 } else { 0u8 },
    ));
}

/// Subtracting the other way round (8xy7) leaves Vy - Vx modulo 256 in Vx
/// and 1 in VF exactly if nothing was borrowed.
pub proof fn lemma_reverse_subtract_clears_flag_on_borrow(
    s: CpuState,
    t: (u8, u8),
    instr: u16,
    rnd: u8,
)
    requires
        s.well_formed(),
        op_class(instr) == 0x8,
        op_n(instr) == 0x7,
    ensures
        ({
            let after = executed(s, t, instr, rnd).0;
            let x = op_x(instr);
            let vx = s.v[x];
            let vy = s.v[op_y(instr)];
            &&& x != 15 ==> after.v[x] == (if vy >= vx { vy - vx } else { vy - vx + 256 })
            &&& after.v[15] == (if vy < vx { 0int } else { 1int })
            &&& forall|k: int| 0 <= k < 15 && k != x ==> after.v[k] == s.v[k]
        }),
{
    let x = op_x(instr);
    let vx = s.v[x];
    let vy = s.v[op_y(instr)];
    assert(effect(s, t, instr, rnd).state == with_flag(
        s,
        x,
        ((vy - vx) % 256) as u8,
        if vy >= vx { 1u8 } else { 0u8 },
    ));
}

/// The shift to the right (8xy6) loses no bit: the lowest bit of Vx goes
/// to VF and the rest moves down.
pub proof fn lemma_shift_right_keeps_evicted_bit(s: CpuState, t: (u8, u8), instr: u16, rnd: u8)
    requires
        s.well_formed(),
        op_class(instr) == 0x8,
        op_n(instr) == 0x6,
        op_x(instr) != 15,
    ensures
        ({
            let after = executed(s, t, instr, rnd).0;
            &&& after.v[15] <= 1
            &&& 2 * after.v[op_x(instr)] + after.v[15] == s.v[op_x(instr)]
        }),
{
    let x = op_x(instr);
    let vx = s.v[x];
    assert(effect(s, t, instr, rnd).state == with_flag(s, x, (vx / 2) as u8, (vx % 2) as u8));
}

/// The shift to the left (8xyE) loses no bit: the highest bit of Vx goes to
/// VF and the rest moves up.
pub proof fn lemma_shift_left_keeps_evicted_bit(s: CpuState, t: (u8, u8), instr: u16, rnd: u8)
    requires
        s.well_formed(),
        op_class(instr) == 0x8,
        op_n(instr) == 0xe,
        op_x(instr) != 15,
    ensures
        ({
            let after = executed(s, t, instr, rnd).0;
            &&& after.v[15] <= 1
            &&& 256 * after.v[15] + after.v[op_x(instr)] == 2 * s.v[op_x(instr)]
        }),
{
    let x = op_x(instr);
    let vx = s.v[x];
    assert(effect(s, t, instr, rnd).state == with_flag(
        s,
        x,
        ((vx * 2) % 256) as u8,
        (vx / 128) as u8,
    ));
}

/// The three bytes that the decimal conversion (Fx33) stores are the
/// decimal digits of the value, hundreds first, and nothing else in memory
/// changes.
pub proof fn lemma_bcd_digits(memory: Seq<u8>, i: int, val: u8)
    requires
        0 <= i,
        i + 2 < memory.len(),
    ensures
        ({
            let stored = bcd_stored(memory, i, val);
            &&& stored.len() == memory.len()
            &&& stored[i] <= 9 && stored[i + 1] <= 9 && stored[i + 2] <= 9
            &&& 100 * stored[i] + 10 * stored[i + 1] + stored[i + 2] == val
            &&& forall|a: int| 0 <= a < memory.len() && !(i <= a <= i + 2) ==> stored[a] == memory[a]
        }),
{
}

/// A call (2nnn) followed by a return (00EE) comes back to the instruction
/// after the call, with the stack as it was.
pub proof fn lemma_call_then_return(s: CpuState, t: (u8, u8), call: u16, rnd: u8)
    requires
        s.well_formed(),
        op_class(call) == 0x2,
        s.pc + 2 <= usize::MAX,
    ensures
        ({
            let (called, timers) = executed(s, t, call, rnd);
            let (returned, timers_after) = executed(called, timers, 0x00EE, rnd);
            &&& called.pc == op_nnn(call)
            &&& !fatal(called, 0x00EE)
            &&& returned == (CpuState { pc: (s.pc + 2) as usize, ..s })
            &&& timers_after == t
        }),
{
    let (called, timers) = executed(s, t, call, rnd);
    let (returned, timers_after) = executed(called, timers, 0x00EE, rnd);
    assert(called.stack == s.stack.push((s.pc + 2) as usize));
    assert(called.stack.drop_last() =~= s.stack);
}

/// With no key down, the wait for a key (Fx0A) changes nothing, the program
/// counter included.
pub proof fn lemma_wait_without_key(s: CpuState, t: (u8, u8), instr: u16, rnd: u8)
    requires
        s.well_formed(),
        op_class(instr) == 0xf,
        op_y(instr) == 0x0,
        op_n(instr) == 0xa,
        forall|k: int| 0 <= k < 16 ==> !s.keypad.keys[k],
    ensures
        executed(s, t, instr, rnd) == (s, t),
{
    assert(first_pressed(s.keypad.keys) == None::<int>) by {
        if exists|k: int| is_first_pressed(s.keypad.keys, k) {
            let k = choose|k: int| is_first_pressed(s.keypad.keys, k);
            assert(!s.keypad.keys[k]);
        }
    }
}

/// With a key down, the wait for a key (Fx0A) puts the lowest such key's
/// index in Vx and moves on by one instruction.
pub proof fn lemma_wait_with_key(s: CpuState, t: (u8, u8), instr: u16, rnd: u8, key: int)
    requires
        s.well_formed(),
        op_class(instr) == 0xf,
        op_y(instr) == 0x0,
        op_n(instr) == 0xa,
        is_first_pressed(s.keypad.keys, key),
    ensures
        executed(s, t, instr, rnd) == (
            CpuState { v: s.v.update(op_x(instr), key as u8), pc: (s.pc + 2) as usize, ..s },
            t,
        ),
{
    let chosen = choose|k: int| is_first_pressed(s.keypad.keys, k);
    assert(chosen == key) by {
        if chosen < key {
            assert(!s.keypad.keys[chosen]);
        }
        if key < chosen {
            assert(!s.keypad.keys[key]);
        }
    }
}

/// A cycle that finds the wait for a key (Fx0A) with no key down leaves the
/// machine where it was, but for the log: so the next cycle finds the same
/// instruction again.
pub proof fn lemma_cycle_waits_for_key(s: CpuState, t: (u8, u8), rnd: u8)
    requires
        s.well_formed(),
        !s.keypad.pause,
        op_class(fetch(s)) == 0xf,
        op_y(fetch(s)) == 0x0,
        op_n(fetch(s)) == 0xa,
        forall|k: int| 0 <= k < 16 ==> !s.keypad.keys[k],
    ensures
        cycled(s, t, rnd) == (CpuState { instr_log: logged(s.instr_log, fetch(s)), ..s }, t),
        fetch(cycled(s, t, rnd).0) == fetch(s),
{
    let logged_state = CpuState { instr_log: logged(s.instr_log, fetch(s)), ..s };
    lemma_wait_without_key(logged_state, t, fetch(s), rnd);
}

/// A cycle that finds the wait for a key (Fx0A) with a key down puts the
/// lowest such key's index in Vx and moves on by one instruction.
pub proof fn lemma_cycle_takes_key(s: CpuState, t: (u8, u8), rnd: u8, key: int)
    requires
        s.well_formed(),
        !s.keypad.pause,
        op_class(fetch(s)) == 0xf,
        op_y(fetch(s)) == 0x0,
        op_n(fetch(s)) == 0xa,
        is_first_pressed(s.keypad.keys, key),
    ensures
        cycled(s, t, rnd) == (
            CpuState {
                v: s.v.update(op_x(fetch(s)), key as u8),
                pc: (s.pc + 2) as usize,
                instr_log: logged(s.instr_log, fetch(s)),
                ..s
            },
            t,
        ),
{
    let logged_state = CpuState { instr_log: logged(s.instr_log, fetch(s)), ..s };
    lemma_wait_with_key(logged_state, t, fetch(s), rnd, key);
}

/// A paused machine does not change in a cycle.
pub proof fn lemma_paused_cycle_is_idle(s: CpuState, t: (u8, u8), rnd: u8)
    requires
        s.keypad.pause,
    ensures
        cycled(s, t, rnd) == (s, t),
{
}

/// Only the three timer opcodes (Fx07, Fx15, Fx18) have to do with the
/// timers: every other opcode leaves them as they are and does the same to
/// the machine whatever they hold.
pub proof fn lemma_timers_matter_to_timer_opcodes_only(
    s: CpuState,
    t: (u8, u8),
    other: (u8, u8),
    instr: u16,
    rnd: u8,
)
    requires
        !touches_timers(instr),
    ensures
        executed(s, t, instr, rnd).1 == t,
        executed(s, t, instr, rnd).0 == executed(s, other, instr, rnd).0,
{
}

/// The timer opcodes change one timer as a unit with the other: setting the
/// delay timer (Fx15) keeps the sound timer, setting the sound timer (Fx18)
/// keeps the delay timer, and reading the delay timer (Fx07) keeps both.
pub proof fn lemma_timer_opcodes_keep_other_timer(s: CpuState, t: (u8, u8), instr: u16, rnd: u8)
    requires
        touches_timers(instr),
    ensures
        ({
            let after = executed(s, t, instr, rnd);
            let vx = s.v[op_x(instr)];
            &&& op_n(instr) == 0x7 ==> after.1 == t && after.0.v == s.v.update(op_x(instr), t.0)
            &&& op_n(instr) == 0x5 ==> after.1 == (vx, t.1) && after.0.v == s.v
            &&& op_n(instr) == 0x8 ==> after.1 == (t.0, vx) && after.0.v == s.v
        }),
{
}

/// Only the random-number opcode (Cxkk) depends on the random byte.
pub proof fn lemma_random_byte_matters_to_cxkk_only(
    s: CpuState,
    t: (u8, u8),
    instr: u16,
    rnd: u8,
    other: u8,
)
    requires
        op_class(instr) != 0xc,
    ensures
        executed(s, t, instr, rnd) == executed(s, t, instr, other),
{
}

/// An opcode that matches no row of the instruction table is never fatal
/// and does nothing but move the program counter on by one instruction.
pub proof fn lemma_unknown_opcode_only_advances(s: CpuState, t: (u8, u8), instr: u16, rnd: u8)
    requires
        !is_known(instr),
    ensures
        !fatal(s, instr),
        executed(s, t, instr, rnd) == (CpuState { pc: (s.pc + 2) as usize, ..s }, t),
{
}

/// The log never holds more than twelve opcodes, and the opcode fetched
/// last comes first.
pub proof fn lemma_log_is_bounded(log: Seq<u16>, instr: u16)
    ensures
        logged(log, instr).len() <= 12,
        logged(log, instr).len() == (if log.len() >= 12 { 12 } else { log.len() + 1 }),
        logged(log, instr)[0] == instr,
        forall|k: int| 1 <= k < logged(log, instr).len() ==> logged(log, instr)[k] == log[k - 1],
{
}

/// Drawing the same sprite twice at the same place gives back the
/// framebuffer as it was.
pub proof fn lemma_draw_twice_restores_screen(s: CpuState, vx: int, vy: int, n: int)
    requires
        s.well_formed(),
    ensures
        drawn_screen(CpuState { screen: drawn_screen(s, vx, vy, n), ..s }, vx, vy, n) == s.screen,
{
    let once = CpuState { screen: drawn_screen(s, vx, vy, n), ..s };
    let twice = drawn_screen(once, vx, vy, n);
    assert forall|px: int, py: int| 0 <= px < 64 && 0 <= py < 32 implies #[trigger] twice[py][px]
        == s.screen[py][px] by {
        let a = s.screen[py][px];
        assert forall|b: u8| #[trigger] ((a ^ b) ^ b) == a by {
            assert(((a ^ b) ^ b) == a) by (bit_vector);
        }
    }
    assert(twice =~~= s.screen);
}

/// On a blank screen no sprite turns a pixel off.
pub proof fn lemma_draw_on_blank_screen_is_free(s: CpuState, vx: int, vy: int, n: int)
    requires
        s.screen == blank_screen(),
    ensures
        !collides(s, vx, vy, n),
{
    assert forall|px: int, py: int| !goes_off(s, vx, vy, n, px, py) by {
        if 0 <= px < 64 && 0 <= py < 32 {
            assert(s.screen[py][px] == 0u8);
            assert forall|b: u8| #[trigger] (0u8 & b) == 0u8 by {
                assert((0u8 & b) == 0u8) by (bit_vector);
            }
        }
    }
}

/// A sprite that lights a pixel of a blank screen turns that pixel off when
/// it is drawn there a second time.
pub proof fn lemma_redraw_collides(s: CpuState, vx: int, vy: int, n: int, px: int, py: int)
    requires
        s.well_formed(),
        s.screen == blank_screen(),
        0 <= n < 16,
        0 <= px < 64,
        0 <= py < 32,
        sprite_at(s, vx, vy, n, px, py) != 0,
    ensures
        drawn_screen(s, vx, vy, n)[py][px] != 0,
        collides(CpuState { screen: drawn_screen(s, vx, vy, n), ..s }, vx, vy, n),
{
    let once = CpuState { screen: drawn_screen(s, vx, vy, n), ..s };
    let bit = sprite_at(s, vx, vy, n, px, py);
    assert(s.screen[py][px] == 0u8);
    assert((0u8 ^ bit) == bit) by (bit_vector);
    assert((bit & bit) == bit) by (bit_vector);
    assert(once.screen[py][px] == bit);
    assert(goes_off(once, vx, vy, n, px, py));
}

} // verus!
