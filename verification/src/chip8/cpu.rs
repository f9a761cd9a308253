use crate::chip8::graphics::blank_screen;
use crate::chip8::graphics::is_screen;
use crate::chip8::graphics::plot_changed;
use crate::chip8::graphics::plot_target;
use crate::chip8::graphics::plotted;
use crate::chip8::graphics::Graphics;
use crate::chip8::keypad::Key;
use crate::chip8::keypad::Keypad;
use crate::chip8::keypad::KeypadView;
use crate::chip8::keypad::freq_after;
use crate::chip8::keypad::pause_after;
use crate::chip8::keypad::pressed_by;
use crate::chip8::keypad::quit_by;
use crate::config::Config;
use rand::Rng;
use vstd::prelude::*;

verus! {

/// Bytes of addressable memory.
pub const MEMORY_SIZE: usize = 4096;

/// Address at which a program is loaded and starts to run.
pub const PROGRAM_START: usize = 0x200;

/// The built-in hexadecimal font, glyph by glyph, one byte per row with the
/// leftmost pixel in the top bit.
pub const FONT: [u8; 80] = [
    0xF0, 0x90, 0x90, 0x90, 0xF0,
    0x20, 0x60, 0x20, 0x20, 0x70,
    0xF0, 0x10, 0xF0, 0x80, 0xF0,
    0xF0, 0x10, 0xF0, 0x10, 0xF0,
    0x90, 0x90, 0xF0, 0x10, 0x10,
    0xF0, 0x80, 0xF0, 0x10, 0xF0,
    0xF0, 0x80, 0xF0, 0x90, 0xF0,
    0xF0, 0x10, 0x20, 0x40, 0x40,
    0xF0, 0x90, 0xF0, 0x90, 0xF0,
    0xF0, 0x90, 0xF0, 0x10, 0xF0,
    0xF0, 0x90, 0xF0, 0x90, 0x90,
    0xE0, 0x90, 0xE0, 0x90, 0xE0,
    0xF0, 0x80, 0x80, 0x80, 0xF0,
    0xE0, 0x90, 0x90, 0x90, 0xE0,
    0xF0, 0x80, 0xF0, 0x80, 0xF0,
    0xF0, 0x80, 0xF0, 0x80, 0x80,
];

/// How the program counter moves after an instruction.
#[derive(Clone, Copy, Debug, PartialEq, Eq, Structural)]
pub enum NextPCValue {
    /// On to the following instruction.
    Next,
    /// Over the following instruction.
    Skip,
    /// To the given address.
    Jump(usize),
}

/// The machine as a mathematical value.
pub struct CpuState {
    /// The 4096 bytes of memory.
    pub memory: Seq<u8>,
    /// The registers V0 to VF.
    pub v: Seq<u8>,
    /// The index register I.
    pub i: usize,
    /// The program counter.
    pub pc: usize,
    /// The return addresses, the most recent call last.
    pub stack: Seq<usize>,
    /// The framebuffer: `screen[y][x]`.
    pub screen: Seq<Seq<u8>>,
    /// Whether sprites wrap around the borders.
    pub wrapping: bool,
    /// The keypad, the pause flag and the cycle period.
    pub keypad: KeypadView,
    /// Whether the machine asks to be shut down.
    pub wants_to_quit: bool,
    /// The opcodes fetched last, the most recent first.
    pub instr_log: Seq<u16>,
}

/// What an instruction does before the program counter moves.
pub struct Effect {
    /// The machine after the instruction, its program counter untouched.
    pub state: CpuState,
    /// The (delay, sound) timers after the instruction.
    pub timers: (u8, u8),
    /// How the program counter moves.
    pub next: NextPCValue,
}

/// The first nibble of an opcode: its class.
pub open spec fn op_class(instr: u16) -> int {
    instr as int / 4096
}

/// The second nibble: mostly the register operand `x`.
pub open spec fn op_x(instr: u16) -> int {
    (instr as int / 256) % 16
}

/// The third nibble: mostly the register operand `y`.
pub open spec fn op_y(instr: u16) -> int {
    (instr as int / 16) % 16
}

/// The last nibble: a four-bit immediate, or the selector within a class.
pub open spec fn op_n(instr: u16) -> int {
    instr as int % 16
}

/// The low byte: an eight-bit immediate.
pub open spec fn op_nn(instr: u16) -> u8 {
    (instr as int % 256) as u8
}

/// The low twelve bits: an address.
pub open spec fn op_nnn(instr: u16) -> usize {
    (instr as int % 4096) as usize
}

/// The big-endian opcode at the program counter.
pub open spec fn fetch(s: CpuState) -> u16 {
    (s.memory[s.pc as int] as int * 256 + s.memory[s.pc as int + 1] as int) as u16
}

/// The log after `instr` was fetched: newest first, twelve entries at most.
pub open spec fn logged(log: Seq<u16>, instr: u16) -> Seq<u16> {
    let grown = log.insert(0, instr);
    if grown.len() > 12 {
        grown.subrange(0, 12)
    } else {
        grown
    }
}

/// Memory at start-up: the font from address 0, the program from 0x200, as
/// much of it as fits, and zero elsewhere.
pub open spec fn initial_memory(rom: Seq<u8>) -> Seq<u8> {
    Seq::new(
        4096,
        |a: int|
            if a < 80 {
                FONT@[a]
            } else if 0x200 <= a < 0x200 + rom.len() {
                rom[a - 0x200]
            } else {
                0u8
            },
    )
}

/// The machine at start-up.
pub open spec fn initial_state(wrapping: bool, rom: Seq<u8>, pause: bool, freq_period: u64) -> CpuState {
    CpuState {
        memory: initial_memory(rom),
        v: Seq::new(16, |k: int| 0u8),
        i: 0,
        pc: 0x200,
        stack: Seq::empty(),
        screen: blank_screen(),
        wrapping: wrapping,
        keypad: KeypadView { keys: Seq::new(16, |k: int| false), pause: pause, freq_period: freq_period },
        wants_to_quit: false,
        instr_log: Seq::empty(),
    }
}

/// `s` with register `x` set to `val`.
pub open spec fn with_reg(s: CpuState, x: int, val: u8) -> CpuState {
    CpuState { v: s.v.update(x, val), ..s }
}

/// `s` with register `x` set to `val` and then VF set to `flag`: where `x`
/// is VF itself, the flag is what stays.
pub open spec fn with_flag(s: CpuState, x: int, val: u8, flag: u8) -> CpuState {
    CpuState { v: s.v.update(x, val).update(15, flag), ..s }
}

/// Skip when `cond` holds, else go on.
pub open spec fn skip_if(cond: bool) -> NextPCValue {
    if cond {
        NextPCValue::Skip
    } else {
        NextPCValue::Next
    }
}

/// Whether key `key` is down; an index that names no key counts as up.
pub open spec fn key_down(s: CpuState, key: int) -> bool {
    0 <= key < 16 && s.keypad.keys[key]
}

/// Whether `k` is the lowest key that is down.
pub open spec fn is_first_pressed(keys: Seq<bool>, k: int) -> bool {
    &&& 0 <= k < keys.len()
    &&& keys[k]
    &&& forall|j: int| 0 <= j < k ==> !keys[j]
}

/// The lowest key that is down, if any is.
pub open spec fn first_pressed(keys: Seq<bool>) -> Option<int> {
    if exists|k: int| is_first_pressed(keys, k) {
        Some(choose|k: int| is_first_pressed(keys, k))
    } else {
        None
    }
}

/// The pixel in column `dx` of a sprite row, column 0 being the top bit.
pub open spec fn sprite_bit(row: u8, dx: int) -> u8 {
    (row >> ((7 - dx) as u8)) & 1u8
}

/// The sprite pixel, as (column, row) within the sprite, that a sprite of
/// `n` rows placed at `(vx, vy)` puts on screen pixel `(px, py)`; none where
/// the sprite does not reach. With wrapping the sprite continues at the
/// opposite border, without it what lies outside the screen is dropped.
pub open spec fn covering(wrapping: bool, vx: int, vy: int, n: int, px: int, py: int) -> Option<
    (int, int),
> {
    let dx = if wrapping { (px - vx) % 64 } else { px - vx };
    let dy = if wrapping { (py - vy) % 32 } else { py - vy };
    if 0 <= dx < 8 && 0 <= dy < n {
        Some((dx, dy))
    } else {
        None
    }
}

/// The value the sprite at `memory[i..i+n]` XORs into pixel `(px, py)`; zero
/// where the sprite does not reach.
pub open spec fn sprite_at(s: CpuState, vx: int, vy: int, n: int, px: int, py: int) -> u8 {
    match covering(s.wrapping, vx, vy, n, px, py) {
        Some((dx, dy)) => sprite_bit(s.memory[s.i + dy], dx),
        None => 0u8,
    }
}

/// Pixel `(px, py)` after the sprite was drawn.
pub open spec fn drawn_pixel(s: CpuState, vx: int, vy: int, n: int, px: int, py: int) -> u8 {
    match covering(s.wrapping, vx, vy, n, px, py) {
        Some((dx, dy)) => s.screen[py][px] ^ sprite_bit(s.memory[s.i + dy], dx),
        None => s.screen[py][px],
    }
}

/// The framebuffer after the sprite was drawn.
pub open spec fn drawn_screen(s: CpuState, vx: int, vy: int, n: int) -> Seq<Seq<u8>> {
    Seq::new(32, |py: int| Seq::new(64, |px: int| drawn_pixel(s, vx, vy, n, px, py)))
}

/// Whether the sprite turns pixel `(px, py)` off: it puts a lit pixel on a
/// pixel that is lit.
pub open spec fn goes_off(s: CpuState, vx: int, vy: int, n: int, px: int, py: int) -> bool {
    &&& 0 <= px < 64
    &&& 0 <= py < 32
    &&& match covering(s.wrapping, vx, vy, n, px, py) {
        Some((dx, dy)) => (s.screen[py][px] & sprite_bit(s.memory[s.i + dy], dx)) != 0,
        None => false,
    }
}

/// Whether drawing the sprite turns any pixel off.
pub open spec fn collides(s: CpuState, vx: int, vy: int, n: int) -> bool {
    exists|px: int, py: int| goes_off(s, vx, vy, n, px, py)
}

/// Whether one of the first `done` sprite pixels, counted row by row, turns
/// pixel `(px, py)` off.
spec fn turns_off(s: CpuState, vx: int, vy: int, n: int, done: int, px: int, py: int) -> bool {
    &&& goes_off(s, vx, vy, n, px, py)
    &&& match covering(s.wrapping, vx, vy, n, px, py) {
        Some((dx, dy)) => dy * 8 + dx < done,
        None => false,
    }
}

/// Whether one of the first `done` sprite pixels turns a pixel off.
spec fn collides_within(s: CpuState, vx: int, vy: int, n: int, done: int) -> bool {
    exists|px: int, py: int| turns_off(s, vx, vy, n, done, px, py)
}

/// Once every sprite pixel is counted, a pixel went off so far exactly if
/// the sprite collides.
proof fn lemma_collides_in_full(s: CpuState, vx: int, vy: int, n: int)
    requires
        0 <= n,
    ensures
        collides_within(s, vx, vy, n, n * 8) == collides(s, vx, vy, n),
{
    let done = n * 8;
    if collides_within(s, vx, vy, n, done) {
        let (px, py) = choose|px: int, py: int| turns_off(s, vx, vy, n, done, px, py);
        assert(goes_off(s, vx, vy, n, px, py));
    }
    if collides(s, vx, vy, n) {
        let (px, py) = choose|px: int, py: int| goes_off(s, vx, vy, n, px, py);
        assert(turns_off(s, vx, vy, n, done, px, py));
    }
}

/// Pixel `(px, py)` once the first `done` sprite pixels, counted row by
/// row, have been plotted.
spec fn pixel_after(s: CpuState, vx: int, vy: int, n: int, done: int, px: int, py: int) -> u8 {
    match covering(s.wrapping, vx, vy, n, px, py) {
        Some((dx, dy)) => if dy * 8 + dx < done {
            s.screen[py][px] ^ sprite_bit(s.memory[s.i + dy], dx)
        } else {
            s.screen[py][px]
        },
        None => s.screen[py][px],
    }
}

/// The framebuffer `screen` holds the first `done` sprite pixels and is
/// otherwise as in `s`.
spec fn partly_drawn(
    s: CpuState,
    screen: Seq<Seq<u8>>,
    vx: int,
    vy: int,
    n: int,
    done: int,
) -> bool {
    &&& is_screen(screen)
    &&& forall|px: int, py: int|
        0 <= px < 64 && 0 <= py < 32 ==> #[trigger] screen[py][px] == pixel_after(
            s,
            vx,
            vy,
            n,
            done,
            px,
            py,
        )
}

/// The coordinate that the sprite pixel at offset `d` from `v` is plotted
/// at, on an axis of `size` pixels.
spec fn sprite_coord(wrapping: bool, v: int, d: int, size: int) -> int {
    if wrapping {
        (v + d) % size
    } else {
        v + d
    }
}

/// On a wrapping axis of 64 pixels, `p` lies `d` past `v` exactly if `v + d`
/// wraps to `p`.
proof fn lemma_wrap_columns(v: int, d: int, p: int)
    requires
        0 <= v < 256,
        0 <= d < 64,
        0 <= p < 64,
    ensures
        ((p - v) % 64 == d) == ((v + d) % 64 == p),
{
}

/// On a wrapping axis of 32 pixels, `p` lies `d` past `v` exactly if `v + d`
/// wraps to `p`.
proof fn lemma_wrap_rows(v: int, d: int, p: int)
    requires
        0 <= v < 256,
        0 <= d < 32,
        0 <= p < 32,
    ensures
        ((p - v) % 32 == d) == ((v + d) % 32 == p),
{
}

/// Sprite pixel `(w, h)` covers the screen pixel it is plotted on and no
/// other.
proof fn lemma_cover_unique(wrapping: bool, vx: int, vy: int, n: int, w: int, h: int, px: int, py: int)
    requires
        0 <= vx < 256,
        0 <= vy < 256,
        0 <= n < 16,
        0 <= w < 8,
        0 <= h < n,
        0 <= px < 64,
        0 <= py < 32,
    ensures
        (covering(wrapping, vx, vy, n, px, py) == Some((w, h))) == (plot_target(
            wrapping,
            sprite_coord(wrapping, vx, w, 64),
            sprite_coord(wrapping, vy, h, 32),
        ) == Some((px, py))),
{
    if wrapping {
        lemma_wrap_columns(vx, w, px);
        lemma_wrap_rows(vy, h, py);
    }
}

/// One more sprite pixel, `(w, h)`, changes the pixel it covers and no
/// other.
proof fn lemma_pixel_step(s: CpuState, vx: int, vy: int, n: int, w: int, h: int, px: int, py: int)
    requires
        0 <= n < 16,
        0 <= w < 8,
        0 <= h < n,
    ensures
        pixel_after(s, vx, vy, n, h * 8 + w + 1, px, py) == (if covering(
            s.wrapping,
            vx,
            vy,
            n,
            px,
            py,
        ) == Some((w, h)) {
            s.screen[py][px] ^ sprite_bit(s.memory[s.i + h], w)
        } else {
            pixel_after(s, vx, vy, n, h * 8 + w, px, py)
        }),
        covering(s.wrapping, vx, vy, n, px, py) == Some((w, h)) ==> pixel_after(
            s,
            vx,
            vy,
            n,
            h * 8 + w,
            px,
            py,
        ) == s.screen[py][px],
{
}

/// What plotting sprite pixel `(w, h)` makes of screen pixel `(px, py)`.
proof fn lemma_plot_pixel(
    s: CpuState,
    before: Seq<Seq<u8>>,
    vx: int,
    vy: int,
    n: int,
    w: int,
    h: int,
    px: int,
    py: int,
)
    requires
        is_screen(before),
        0 <= vx < 256,
        0 <= vy < 256,
        0 <= n < 16,
        0 <= w < 8,
        0 <= h < n,
        0 <= px < 64,
        0 <= py < 32,
        before[py][px] == pixel_after(s, vx, vy, n, h * 8 + w, px, py),
    ensures
        plotted(
            before,
            s.wrapping,
            sprite_coord(s.wrapping, vx, w, 64),
            sprite_coord(s.wrapping, vy, h, 32),
            sprite_bit(s.memory[s.i + h], w),
        )[py][px] == pixel_after(s, vx, vy, n, h * 8 + w + 1, px, py),
{
    lemma_cover_unique(s.wrapping, vx, vy, n, w, h, px, py);
    lemma_pixel_step(s, vx, vy, n, w, h, px, py);
}

/// A pixel went off among the sprite pixels up to `(w, h)` exactly if one
/// went off before, or `(w, h)` lands on a pixel and turns it off.
proof fn lemma_collision_step(s: CpuState, vx: int, vy: int, n: int, w: int, h: int)
    requires
        0 <= vx < 256,
        0 <= vy < 256,
        0 <= n < 16,
        0 <= w < 8,
        0 <= h < n,
    ensures
        collides_within(s, vx, vy, n, h * 8 + w + 1) == (collides_within(s, vx, vy, n, h * 8 + w)
            || plot_changed(
            s.screen,
            s.wrapping,
            sprite_coord(s.wrapping, vx, w, 64),
            sprite_coord(s.wrapping, vy, h, 32),
            sprite_bit(s.memory[s.i + h], w),
        ) != 0),
{
    let xc = sprite_coord(s.wrapping, vx, w, 64);
    let yc = sprite_coord(s.wrapping, vy, h, 32);
    let bit = sprite_bit(s.memory[s.i + h], w);
    let done = h * 8 + w;
    let next = done + 1;
    let target = plot_target(s.wrapping, xc, yc);
    let hit = plot_changed(s.screen, s.wrapping, xc, yc, bit) != 0;
    if collides_within(s, vx, vy, n, done) {
        let (px, py) = choose|px: int, py: int| turns_off(s, vx, vy, n, done, px, py);
        assert(turns_off(s, vx, vy, n, next, px, py));
    }
    if hit {
        let (tx, ty) = target.unwrap();
        lemma_cover_unique(s.wrapping, vx, vy, n, w, h, tx, ty);
        assert(turns_off(s, vx, vy, n, next, tx, ty));
    }
    if collides_within(s, vx, vy, n, next) {
        let (px, py) = choose|px: int, py: int| turns_off(s, vx, vy, n, next, px, py);
        if !turns_off(s, vx, vy, n, done, px, py) {
            lemma_cover_unique(s.wrapping, vx, vy, n, w, h, px, py);
            assert(covering(s.wrapping, vx, vy, n, px, py) == Some((w, h)));
            assert(hit);
        }
    }
}

/// Plotting sprite pixel `(w, h)` takes a framebuffer that holds the sprite
/// pixels before it to one that holds that pixel too, and a pixel went off
/// so far exactly if one had gone off before or this plot reports one.
proof fn lemma_plot_step(
    s: CpuState,
    before: Seq<Seq<u8>>,
    vx: int,
    vy: int,
    n: int,
    w: int,
    h: int,
)
    requires
        s.well_formed(),
        0 <= vx < 256,
        0 <= vy < 256,
        0 <= n < 16,
        0 <= w < 8,
        0 <= h < n,
        partly_drawn(s, before, vx, vy, n, h * 8 + w),
    ensures
        ({
            let xc = sprite_coord(s.wrapping, vx, w, 64);
            let yc = sprite_coord(s.wrapping, vy, h, 32);
            let bit = sprite_bit(s.memory[s.i + h], w);
            let after = plotted(before, s.wrapping, xc, yc, bit);
            &&& partly_drawn(s, after, vx, vy, n, h * 8 + w + 1)
            &&& collides_within(s, vx, vy, n, h * 8 + w + 1) == (collides_within(
                s,
                vx,
                vy,
                n,
                h * 8 + w,
            ) || plot_changed(before, s.wrapping, xc, yc, bit) != 0)
        }),
{
    let xc = sprite_coord(s.wrapping, vx, w, 64);
    let yc = sprite_coord(s.wrapping, vy, h, 32);
    let bit = sprite_bit(s.memory[s.i + h], w);
    let after = plotted(before, s.wrapping, xc, yc, bit);
    assert(is_screen(after));
    assert forall|px: int, py: int| 0 <= px < 64 && 0 <= py < 32 implies #[trigger] after[py][px]
        == pixel_after(s, vx, vy, n, h * 8 + w + 1, px, py) by {
        lemma_plot_pixel(s, before, vx, vy, n, w, h, px, py);
    }
    lemma_collision_step(s, vx, vy, n, w, h);
    match plot_target(s.wrapping, xc, yc) {
        Some((tx, ty)) => {
            lemma_cover_unique(s.wrapping, vx, vy, n, w, h, tx, ty);
            lemma_pixel_step(s, vx, vy, n, w, h, tx, ty);
            assert(before[ty][tx] == s.screen[ty][tx]);
        },
        None => {},
    }
}

/// The machine after a sprite of `n` rows was drawn at `(Vx, Vy)`: the
/// sprite is XOR'd into the framebuffer and VF tells whether a pixel went
/// off.
pub open spec fn drawn(s: CpuState, x: int, y: int, n: int) -> CpuState {
    let vx = s.v[x] as int;
    let vy = s.v[y] as int;
    CpuState {
        screen: drawn_screen(s, vx, vy, n),
        v: s.v.update(15, if collides(s, vx, vy, n) { 1u8 } else { 0u8 }),
        ..s
    }
}

/// Memory after the three decimal digits of `val` were stored from `i`.
pub open spec fn bcd_stored(memory: Seq<u8>, i: int, val: u8) -> Seq<u8> {
    memory.update(i, (val / 100) as u8).update(i + 1, ((val / 10) % 10) as u8).update(
        i + 2,
        (val % 10) as u8,
    )
}

/// Memory after V0 to Vx were stored from `i`.
pub open spec fn regs_stored(memory: Seq<u8>, v: Seq<u8>, i: int, x: int) -> Seq<u8> {
    Seq::new(memory.len(), |a: int| if i <= a <= i + x { v[a - i] } else { memory[a] })
}

/// The registers after V0 to Vx were loaded from `i`.
pub open spec fn regs_loaded(memory: Seq<u8>, v: Seq<u8>, i: int, x: int) -> Seq<u8> {
    Seq::new(v.len(), |k: int| if k <= x { memory[i + k] } else { v[k] })
}

/// The instruction table: what `instr` does to the machine `s` and the
/// timers `t`, `rnd` being the random byte that the random-number opcode
/// draws. An opcode that matches no row does nothing.
pub open spec fn effect(s: CpuState, t: (u8, u8), instr: u16, rnd: u8) -> Effect {
    let c = op_class(instr);
    let x = op_x(instr);
    let y = op_y(instr);
    let n = op_n(instr);
    let nn = op_nn(instr);
    let nnn = op_nnn(instr);
    let vx = s.v[x];
    let vy = s.v[y];
    let idle = Effect { state: s, timers: t, next: NextPCValue::Next };
    if c == 0x0 && x == 0x0 && y == 0xe && n == 0x0 {
        Effect { state: CpuState { screen: blank_screen(), ..s }, ..idle }
    } else if c == 0x0 && x == 0x0 && y == 0xe && n == 0xe {
        Effect {
            state: CpuState { stack: s.stack.drop_last(), ..s },
            timers: t,
            next: NextPCValue::Jump(s.stack.last()),
        }
    } else if c == 0x1 {
        Effect { next: NextPCValue::Jump(nnn), ..idle }
    } else if c == 0x2 {
        Effect {
            state: CpuState { stack: s.stack.push((s.pc + 2) as usize), ..s },
            timers: t,
            next: NextPCValue::Jump(nnn),
        }
    } else if c == 0x3 {
        Effect { next: skip_if(vx == nn), ..idle }
    } else if c == 0x4 {
        Effect { next: skip_if(vx != nn), ..idle }
    } else if c == 0x5 && n == 0x0 {
        Effect { next: skip_if(vx == vy), ..idle }
    } else if c == 0x6 {
        Effect { state: with_reg(s, x, nn), ..idle }
    } else if c == 0x7 {
        Effect { state: with_reg(s, x, ((vx + nn) % 256) as u8), ..idle }
    } else if c == 0x8 && n == 0x0 {
        Effect { state: with_reg(s, x, vy), ..idle }
    } else if c == 0x8 && n == 0x1 {
        Effect { state: with_reg(s, x, vx | vy), ..idle }
    } else if c == 0x8 && n == 0x2 {
        Effect { state: with_reg(s, x, vx & vy), ..idle }
    } else if c == 0x8 && n == 0x3 {
        Effect { state: with_reg(s, x, vx ^ vy), ..idle }
    } else if c == 0x8 && n == 0x4 {
        Effect {
            state: with_flag(s, x, ((vx + vy) % 256) as u8, if vx + vy > 255 { 1u8 } else { 0u8 }),
            ..idle
        }
    } else if c == 0x8 && n == 0x5 {
        Effect {
            state: with_flag(s, x, ((vx - vy) % 256) as u8, if vx >= vy { 1u8 } else { 0u8 }),
            ..idle
        }
    } else if c == 0x8 && n == 0x6 {
        Effect { state: with_flag(s, x, (vx / 2) as u8, (vx % 2) as u8), ..idle }
    } else if c == 0x8 && n == 0x7 {
        Effect {
            state: with_flag(s, x, ((vy - vx) % 256) as u8, if vy >= vx { 1u8 } else { 0u8 }),
            ..idle
        }
    } else if c == 0x8 && n == 0xe {
        Effect { state: with_flag(s, x, ((vx * 2) % 256) as u8, (vx / 128) as u8), ..idle }
    } else if c == 0x9 && n == 0x0 {
        Effect { next: skip_if(vx != vy), ..idle }
    } else if c == 0xa {
        Effect { state: CpuState { i: nnn, ..s }, ..idle }
    } else if c == 0xb {
        Effect { next: NextPCValue::Jump((s.v[0] + nnn) as usize), ..idle }
    } else if c == 0xc {
        Effect { state: with_reg(s, x, rnd & nn), ..idle }
    } else if c == 0xd {
        Effect { state: drawn(s, x, y, n), ..idle }
    } else if c == 0xe && y == 0x9 && n == 0xe {
        Effect { next: skip_if(key_down(s, vx as int)), ..idle }
    } else if c == 0xe && y == 0xa && n == 0x1 {
        Effect { next: skip_if(!key_down(s, vx as int)), ..idle }
    } else if c == 0xf && y == 0x0 && n == 0x7 {
        Effect { state: with_reg(s, x, t.0), ..idle }
    } else if c == 0xf && y == 0x0 && n == 0xa {
        match first_pressed(s.keypad.keys) {
            Some(k) => Effect { state: with_reg(s, x, k as u8), ..idle },
            None => Effect { next: NextPCValue::Jump(s.pc), ..idle },
        }
    } else if c == 0xf && y == 0x1 && n == 0x5 {
        Effect { timers: (vx, t.1), ..idle }
    } else if c == 0xf && y == 0x1 && n == 0x8 {
        Effect { timers: (t.0, vx), ..idle }
    } else if c == 0xf && y == 0x1 && n == 0xe {
        Effect { state: CpuState { i: (s.i + vx) as usize, ..s }, ..idle }
    } else if c == 0xf && y == 0x2 && n == 0x9 {
        Effect { state: CpuState { i: (vx * 5) as usize, ..s }, ..idle }
    } else if c == 0xf && y == 0x3 && n == 0x3 {
        Effect { state: CpuState { memory: bcd_stored(s.memory, s.i as int, vx), ..s }, ..idle }
    } else if c == 0xf && y == 0x5 && n == 0x5 {
        Effect {
            state: CpuState { memory: regs_stored(s.memory, s.v, s.i as int, x), ..s },
            ..idle
        }
    } else if c == 0xf && y == 0x6 && n == 0x5 {
        Effect { state: CpuState { v: regs_loaded(s.memory, s.v, s.i as int, x), ..s }, ..idle }
    } else {
        idle
    }
}

/// The inputs on which `instr` cannot be carried out: a return with no call
/// to return from, an access beyond the end of memory, an index register
/// pushed beyond the machine word.
pub open spec fn fatal(s: CpuState, instr: u16) -> bool {
    let c = op_class(instr);
    let x = op_x(instr);
    let y = op_y(instr);
    let n = op_n(instr);
    ||| c == 0x0 && x == 0x0 && y == 0xe && n == 0xe && s.stack.len() == 0
    ||| c == 0xd && n > 0 && s.i + n > 4096
    ||| c == 0xf && y == 0x1 && n == 0xe && s.i + s.v[x] > usize::MAX
    ||| c == 0xf && y == 0x3 && n == 0x3 && s.i + 2 >= 4096
    ||| c == 0xf && y == 0x5 && n == 0x5 && s.i + x >= 4096
    ||| c == 0xf && y == 0x6 && n == 0x5 && s.i + x >= 4096
}

/// Whether `instr` matches a row of the instruction table.
pub open spec fn is_known(instr: u16) -> bool {
    let c = op_class(instr);
    let x = op_x(instr);
    let y = op_y(instr);
    let n = op_n(instr);
    ||| c == 0x0 && x == 0x0 && y == 0xe && (n == 0x0 || n == 0xe)
    ||| c == 0x1 || c == 0x2 || c == 0x3 || c == 0x4 || c == 0x6 || c == 0x7
    ||| (c == 0x5 || c == 0x9) && n == 0x0
    ||| c == 0x8 && (n <= 0x7 || n == 0xe)
    ||| c == 0xa || c == 0xb || c == 0xc || c == 0xd
    ||| c == 0xe && ((y == 0x9 && n == 0xe) || (y == 0xa && n == 0x1))
    ||| c == 0xf && y == 0x0 && (n == 0x7 || n == 0xa)
    ||| c == 0xf && y == 0x1 && (n == 0x5 || n == 0x8 || n == 0xe)
    ||| c == 0xf && ((y == 0x2 && n == 0x9) || (y == 0x3 && n == 0x3))
    ||| c == 0xf && (y == 0x5 || y == 0x6) && n == 0x5
}

/// Whether `instr` reads or writes a timer.
pub open spec fn touches_timers(instr: u16) -> bool {
    let y = op_y(instr);
    let n = op_n(instr);
    op_class(instr) == 0xf && ((y == 0x0 && n == 0x7) || (y == 0x1 && n == 0x5) || (y == 0x1 && n
        == 0x8))
}

/// `s` with its program counter moved as `next` says.
pub open spec fn advanced(s: CpuState, next: NextPCValue) -> CpuState {
    CpuState {
        pc: match next {
            NextPCValue::Next => (s.pc + 2) as usize,
            NextPCValue::Skip => (s.pc + 4) as usize,
            NextPCValue::Jump(target) => target,
        },
        ..s
    }
}

/// The machine and the timers after `instr` was executed in full.
pub open spec fn executed(s: CpuState, t: (u8, u8), instr: u16, rnd: u8) -> (CpuState, (u8, u8)) {
    let e = effect(s, t, instr, rnd);
    (advanced(e.state, e.next), e.timers)
}

/// The machine and the timers after one cycle: nothing changes while the
/// machine is paused; otherwise the opcode at the program counter is
/// fetched, logged and executed.
pub open spec fn cycled(s: CpuState, t: (u8, u8), rnd: u8) -> (CpuState, (u8, u8)) {
    if s.keypad.pause {
        (s, t)
    } else {
        executed(CpuState { instr_log: logged(s.instr_log, fetch(s)), ..s }, t, fetch(s), rnd)
    }
}

impl CpuState {
    /// The shape every machine has: 4096 bytes of memory, sixteen registers,
    /// sixteen keys and a 64x32 screen.
    pub open spec fn well_formed(self) -> bool {
        &&& self.memory.len() == 4096
        &&& self.v.len() == 16
        &&& self.keypad.keys.len() == 16
        &&& is_screen(self.screen)
    }

    /// Whether a cycle can be carried out: the machine is paused, or the
    /// opcode lies within memory and is not fatal.
    pub open spec fn can_cycle(self) -> bool {
        self.keypad.pause || (self.pc + 1 < 4096 && !fatal(self, fetch(self)))
    }

    /// Whether a cycle reads or writes a timer, so that the caller has to
    /// hand over the shared timers and not a stand-in.
    pub open spec fn needs_timers(self) -> bool {
        !self.keypad.pause && self.pc + 1 < 4096 && touches_timers(fetch(self))
    }

    /// Whether a cycle draws a sprite, after which the screen is to be shown.
    pub open spec fn redraws(self) -> bool {
        !self.keypad.pause && op_class(fetch(self)) == 0xd
    }
}


/// Draws a byte with `rand::Rng::gen_range`, on the thread's generator from
/// `rand::thread_rng`, over the half-open range `low..high`. The call panics
/// on an empty range, which `requires` leaves out; of the byte drawn only its
/// range is claimed. That the operating system can seed the generator is
/// taken for granted.
#[verifier::external_body]
fn random_in(low: u8, high: u8) -> (r: u8)
    requires
        low < high,
    ensures
        low <= r < high,
{
    rand::thread_rng().gen_range(low..high)
}

/// The interpreter: memory, registers, call stack and program counter, with
/// the framebuffer and the keypad it works on.
pub struct Cpu {
    memory: [u8; 4096],
    v: [u8; 16],
    i: usize,
    pc: usize,
    stack: Vec<usize>,
    graphics_subsystem: Graphics,
    keypad_subsystem: Keypad,
    wants_to_quit: bool,
    instr_log: Vec<u16>,
}

impl View for Cpu {
    type V = CpuState;

    closed spec fn view(&self) -> CpuState {
        CpuState {
            memory: self.memory@,
            v: self.v@,
            i: self.i,
            pc: self.pc,
            stack: self.stack@,
            screen: self.graphics_subsystem@,
            wrapping: self.graphics_subsystem.wrapping(),
            keypad: self.keypad_subsystem@,
            wants_to_quit: self.wants_to_quit,
            instr_log: self.instr_log@,
        }
    }
}

impl Cpu {
    /// Every machine has the shape that `well_formed` describes.
    pub proof fn lemma_well_formed(&self)
        ensures
            self@.well_formed(),
    {
        self.graphics_subsystem.lemma_dimensions();
        self.keypad_subsystem.lemma_sixteen_keys();
    }

    /// A machine at start-up: the font and the program `rom` in memory, the
    /// program counter at 0x200, everything else zero or empty.
    pub fn new(config: &Config, rom: &Vec<u8>, pause: bool, freq_period: u64) -> (cpu: Cpu)
        ensures
            cpu@ == initial_state(config@.wrapping_enabled, rom@, pause, freq_period),
    {
        let mut temp_memory: [u8; 4096] = [0; 4096];

        Cpu::load_fonts(&mut temp_memory);
        Cpu::load_rom(rom, &mut temp_memory);

        let cpu = Cpu {
            memory: temp_memory,
            v: [0; 16],
            i: 0,
            pc: PROGRAM_START,
            stack: Vec::new(),
            graphics_subsystem: Graphics::new(config),
            keypad_subsystem: Keypad::new(pause, freq_period),
            wants_to_quit: false,
            instr_log: Vec::new(),
        };
        proof {
            let init = initial_state(config@.wrapping_enabled, rom@, pause, freq_period);
            assert(cpu@.memory =~= init.memory);
            assert(cpu@.v =~= init.v);
            assert(cpu@.keypad.keys =~= init.keypad.keys);
        }
        cpu
    }

    /// Executes a cycle: while the machine is not paused, fetches the opcode
    /// at the program counter, logs it and executes it against the timers
    /// `timers`. The result says whether a sprite was drawn, so that the
    /// screen is to be shown.
    pub fn cycle(&mut self, timers: &mut (u8, u8)) -> (redraw: bool)
        requires
            old(self)@.can_cycle(),
        ensures
            exists|rnd: u8|
                rnd < 255 && #[trigger] cycled(old(self)@, *old(timers), rnd) == (
                    final(self)@,
                    *final(timers),
                ),
            old(self)@.keypad.pause || op_class(fetch(old(self)@)) != 0xc ==> cycled(
                old(self)@,
                *old(timers),
                0,
            ) == (final(self)@, *final(timers)),
            redraw == old(self)@.redraws(),
    {
        if !self.keypad_subsystem.paused() {
            let instr: u16 = self.fetch();

            self.instr_log.insert(0, instr);
            self.instr_log.truncate(12);

            let ghost logged_state = self@;
            self.execute_instr(timers, instr);
            proof {
                assert(logged_state.instr_log =~= logged(old(self)@.instr_log, instr));
                assert(logged_state == (CpuState {
                    instr_log: logged(old(self)@.instr_log, instr),
                    ..old(self)@
                }));
                let rnd = choose|rnd: u8|
                    rnd < 255 && #[trigger] executed(logged_state, *old(timers), instr, rnd) == (
                        self@,
                        *timers,
                    );
                assert(cycled(old(self)@, *old(timers), rnd) == (self@, *timers));
            }
            let (class, _, _, _) = Cpu::nibbles(instr);
            class == 0xd
        } else {
            assert(cycled(old(self)@, *old(timers), 0) == (self@, *timers));
            false
        }
    }

    /// Whether `cycle` can be carried out on the machine as it stands.
    pub fn can_cycle(&self) -> (ok: bool)
        ensures
            ok == self@.can_cycle(),
    {
        if self.keypad_subsystem.paused() {
            return true;
        }
        if self.pc >= 4095 {
            return false;
        }
        let instr: u16 = self.fetch();
        let (class, x, y, n) = Cpu::nibbles(instr);
        let x: usize = x as usize;
        let n: usize = n as usize;
        if class == 0x0 && x == 0x0 && y == 0xe && n == 0xe {
            self.stack.len() > 0
        } else if class == 0xd {
            n == 0 || (self.i <= 4096 && self.i + n <= 4096)
        } else if class == 0xf && y == 0x1 && n == 0xe {
            self.i <= usize::MAX - (self.v[x] as usize)
        } else if class == 0xf && y == 0x3 && n == 0x3 {
            self.i < 4094
        } else if class == 0xf && ((y == 0x5 && n == 0x5) || (y == 0x6 && n == 0x5)) {
            self.i < 4096 && self.i + x < 4096
        } else {
            true
        }
    }

    /// Whether `cycle` would read or write a timer on the machine as it
    /// stands. Where it would not, the timers it is handed stay as they are
    /// and have no part in what it does.
    pub fn needs_timers(&self) -> (needed: bool)
        ensures
            needed == self@.needs_timers(),
    {
        if self.keypad_subsystem.paused() || self.pc >= 4095 {
            return false;
        }
        let instr: u16 = self.fetch();
        let (class, _, y, n) = Cpu::nibbles(instr);
        class == 0xf && ((y == 0x0 && n == 0x7) || (y == 0x1 && n == 0x5) || (y == 0x1 && n == 0x8))
    }

    /// Takes in one snapshot of the host keyboard and says whether the user
    /// wants to quit.
    pub fn poll_keypad(&mut self, quit_requested: bool, keys: &Vec<Key>) -> (wants_to_quit: bool)
        ensures
            wants_to_quit == (quit_requested || quit_by(keys@)),
            final(self)@ == (CpuState { keypad: final(self)@.keypad, ..old(self)@ }),
            final(self)@.keypad.keys.len() == 16,
            forall|i: int| 0 <= i < 16 ==> final(self)@.keypad.keys[i] == pressed_by(keys@, i),
            final(self)@.keypad.pause == pause_after(old(self)@.keypad.pause, keys@),
            final(self)@.keypad.freq_period == freq_after(old(self)@.keypad.freq_period, keys@),
    {
        self.keypad_subsystem.poll_keyboard(quit_requested, keys)
    }

    /// Whether the machine asks to be shut down.
    pub fn finished(&self) -> (done: bool)
        ensures
            done == self@.wants_to_quit,
    {
        self.wants_to_quit
    }

    /// The registers V0 to VF.
    pub fn registers(&self) -> (v: &[u8; 16])
        ensures
            v@ == self@.v,
    {
        &self.v
    }

    /// The index register I.
    pub fn index(&self) -> (i: usize)
        ensures
            i == self@.i,
    {
        self.i
    }

    /// The program counter.
    pub fn pc(&self) -> (pc: usize)
        ensures
            pc == self@.pc,
    {
        self.pc
    }

    /// The 4096 bytes of memory.
    pub fn memory(&self) -> (memory: &[u8; 4096])
        ensures
            memory@ == self@.memory,
    {
        &self.memory
    }

    /// The return addresses, the most recent call last.
    pub fn stack(&self) -> (stack: &Vec<usize>)
        ensures
            stack@ == self@.stack,
    {
        &self.stack
    }

    /// The opcodes fetched last, the most recent first.
    pub fn instr_log(&self) -> (log: &Vec<u16>)
        ensures
            log@ == self@.instr_log,
    {
        &self.instr_log
    }

    /// The framebuffer.
    pub fn graphics(&self) -> (graphics: &Graphics)
        ensures
            graphics@ == self@.screen,
            graphics.wrapping() == self@.wrapping,
    {
        &self.graphics_subsystem
    }

    /// The keypad.
    pub fn keypad(&self) -> (keypad: &Keypad)
        ensures
            keypad@ == self@.keypad,
    {
        &self.keypad_subsystem
    }

    /// The big-endian opcode at the program counter.
    fn fetch(&self) -> (instr: u16)
        requires
            self@.pc + 1 < 4096,
        ensures
            instr == fetch(self@),
    {
        let hi: u8 = self.memory[self.pc];
        let lo: u8 = self.memory[self.pc + 1];
        assert(((hi as u16) << 8 | (lo as u16)) == (hi as u16) * 256 + (lo as u16)) by (bit_vector);
        (hi as u16) << 8 | (lo as u16)
    }

    /// The four nibbles of an opcode, the first one first.
    fn nibbles(instr: u16) -> (parts: (u16, u16, u16, u16))
        ensures
            parts.0 == op_class(instr),
            parts.1 == op_x(instr),
            parts.2 == op_y(instr),
            parts.3 == op_n(instr),
    {
        assert((instr & 0xF000) >> 12 == instr / 4096) by (bit_vector);
        assert((instr & 0x0F00) >> 8 == (instr / 256) % 16) by (bit_vector);
        assert((instr & 0x00F0) >> 4 == (instr / 16) % 16) by (bit_vector);
        assert((instr & 0x000F) == instr % 16) by (bit_vector);
        ((instr & 0xF000) >> 12, (instr & 0x0F00) >> 8, (instr & 0x00F0) >> 4, instr & 0x000F)
    }

    /// Decodes and executes one opcode, then moves the program counter.
    fn execute_instr(&mut self, timers: &mut (u8, u8), instr: u16)
        requires
            old(self)@.pc < 4096,
            !fatal(old(self)@, instr),
        ensures
            exists|rnd: u8|
                rnd < 255 && #[trigger] executed(old(self)@, *old(timers), instr, rnd) == (
                    final(self)@,
                    *final(timers),
                ),
            op_class(instr) != 0xc ==> executed(old(self)@, *old(timers), instr, 0) == (
                final(self)@,
                *final(timers),
            ),
    {
        let instr_nibbles = Cpu::nibbles(instr);

        assert(instr & 0x0FFF == instr % 4096) by (bit_vector);
        assert(instr & 0x00FF == instr % 256) by (bit_vector);
        // Address part of the instr
        let nnn: usize = (instr & 0x0FFF) as usize;
        // 8-bit constant
        let nn: u8 = (instr & 0x00FF) as u8;
        // 4-bit constant
        let n: usize = instr_nibbles.3 as usize;
        // 4-bit register indices
        let x: usize = instr_nibbles.1 as usize;
        let y: usize = instr_nibbles.2 as usize;
        let ghost mut rnd: u8 = 0;

        let pc_change = match instr_nibbles {
            (0x00, 0x00, 0x0e, 0x00) => self.op_00e0(),
            (0x00, 0x00, 0x0e, 0x0e) => self.op_00ee(),
            (0x01, _, _, _) => self.op_1nnn(nnn),
            (0x02, _, _, _) => self.op_2nnn(nnn),
            (0x03, _, _, _) => self.op_3xkk(x, nn),
            (0x04, _, _, _) => self.op_4xkk(x, nn),
            (0x05, _, _, 0x00) => self.op_5xy0(x, y),
            (0x06, _, _, _) => self.op_6xnn(x, nn),
            (0x07, _, _, _) => self.op_7xnn(x, nn),
            (0x08, _, _, 0x00) => self.op_8xy0(x, y),
            (0x08, _, _, 0x01) => self.op_8xy1(x, y),
            (0x08, _, _, 0x02) => self.op_8xy2(x, y),
            (0x08, _, _, 0x03) => self.op_8xy3(x, y),
            (0x08, _, _, 0x04) => self.op_8xy4(x, y),
            (0x08, _, _, 0x05) => self.op_8xy5(x, y),
            (0x08, _, _, 0x06) => self.op_8x06(x),
            (0x08, _, _, 0x07) => self.op_8xy7(x, y),
            (0x08, _, _, 0x0e) => self.op_8xye(x),
            (0x09, _, _, 0x00) => self.op_9xy0(x, y),
            (0x0a, _, _, _) => self.op_annn(nnn),
            (0x0b, _, _, _) => self.op_bnnn(nnn),
            (0x0c, _, _, _) => {
                let byte: u8 = random_in(0, 255);
                proof {
                    rnd = byte;
                }
                self.op_cxnn(x, nn, byte)
            },
            (0x0d, _, _, _) => self.op_dxyn(x, y, n),
            (0x0e, _, 0x09, 0x0e) => self.op_ex9e(x),
            (0x0e, _, 0x0a, 0x01) => self.op_exa1(x),
            (0x0f, _, 0x00, 0x07) => self.op_fx07(timers, x),
            (0x0f, _, 0x00, 0x0a) => self.op_fx0a(x),
            (0x0f, _, 0x01, 0x05) => self.op_fx15(timers, x),
            (0x0f, _, 0x01, 0x08) => self.op_fx18(timers, x),
            (0x0f, _, 0x01, 0x0e) => self.op_fx1e(x),
            (0x0f, _, 0x02, 0x09) => self.op_fx29(x),
            (0x0f, _, 0x03, 0x03) => self.op_fx33(x),
            (0x0f, _, 0x05, 0x05) => self.op_fx55(x),
            (0x0f, _, 0x06, 0x05) => self.op_fx65(x),
            _ => NextPCValue::Next,
        };

        assert(effect(old(self)@, *old(timers), instr, rnd) == (Effect {
            state: self@,
            timers: *timers,
            next: pc_change,
        }));

        match pc_change {
            NextPCValue::Next => self.pc += 2,
            NextPCValue::Skip => self.pc += 4,
            NextPCValue::Jump(new) => self.pc = new,
        }

        assert(executed(old(self)@, *old(timers), instr, rnd) == (self@, *timers));
    }

    /// Clears the screen.
    fn op_00e0(&mut self) -> (next: NextPCValue)
        ensures
            final(self)@ == (CpuState { screen: blank_screen(), ..old(self)@ }),
            next == NextPCValue::Next,
    {
        self.graphics_subsystem.clear_screen();

        NextPCValue::Next
    }

    /// Returns from a subroutine.
    fn op_00ee(&mut self) -> (next: NextPCValue)
        requires
            old(self)@.stack.len() > 0,
        ensures
            final(self)@ == (CpuState { stack: old(self)@.stack.drop_last(), ..old(self)@ }),
            next == NextPCValue::Jump(old(self)@.stack.last()),
    {
        match self.stack.pop() {
            Some(target) => NextPCValue::Jump(target),
            None => NextPCValue::Next,
        }
    }

    /// Jumps to address NNN.
    fn op_1nnn(&mut self, nnn: usize) -> (next: NextPCValue)
        ensures
            final(self)@ == old(self)@,
            next == NextPCValue::Jump(nnn),
    {
        NextPCValue::Jump(nnn)
    }

    /// Calls subroutine at NNN. The call stack has no fixed depth: a call
    /// always succeeds.
    fn op_2nnn(&mut self, nnn: usize) -> (next: NextPCValue)
        requires
            old(self)@.pc < 4096,
        ensures
            final(self)@ == (CpuState {
                stack: old(self)@.stack.push((old(self)@.pc + 2) as usize),
                ..old(self)@
            }),
            next == NextPCValue::Jump(nnn),
    {
        self.stack.push(self.pc + 2);

        NextPCValue::Jump(nnn)
    }

    /// Skips the next instruction if VX equals NN.
    fn op_3xkk(&mut self, x: usize, nn: u8) -> (next: NextPCValue)
        requires
            x < 16,
        ensures
            final(self)@ == old(self)@,
            next == skip_if(old(self)@.v[x as int] == nn),
    {
        if self.v[x] == nn {
            return NextPCValue::Skip;
        }
        NextPCValue::Next
    }

    /// Skips the next instruction if VX does not equal NN.
    fn op_4xkk(&mut self, x: usize, nn: u8) -> (next: NextPCValue)
        requires
            x < 16,
        ensures
            final(self)@ == old(self)@,
            next == skip_if(old(self)@.v[x as int] != nn),
    {
        if self.v[x] != nn {
            return NextPCValue::Skip;
        }
        NextPCValue::Next
    }

    /// Skips the next instruction if VX equals VY.
    fn op_5xy0(&mut self, x: usize, y: usize) -> (next: NextPCValue)
        requires
            x < 16,
            y < 16,
        ensures
            final(self)@ == old(self)@,
            next == skip_if(old(self)@.v[x as int] == old(self)@.v[y as int]),
    {
        if self.v[x] == self.v[y] {
            return NextPCValue::Skip;
        }
        NextPCValue::Next
    }

    /// Sets VX to NN.
    fn op_6xnn(&mut self, x: usize, nn: u8) -> (next: NextPCValue)
        requires
            x < 16,
        ensures
            final(self)@ == with_reg(old(self)@, x as int, nn),
            next == NextPCValue::Next,
    {
        self.v[x] = nn;

        NextPCValue::Next
    }

    /// Adds NN to VX. (Carry flag (VF) is not changed)
    fn op_7xnn(&mut self, x: usize, nn: u8) -> (next: NextPCValue)
        requires
            x < 16,
        ensures
            final(self)@ == with_reg(
                old(self)@,
                x as int,
                ((old(self)@.v[x as int] + nn) % 256) as u8,
            ),
            next == NextPCValue::Next,
    {
        self.v[x] = self.v[x].wrapping_add(nn);

        NextPCValue::Next
    }

    /// Sets VX to the value of VY.
    fn op_8xy0(&mut self, x: usize, y: usize) -> (next: NextPCValue)
        requires
            x < 16,
            y < 16,
        ensures
            final(self)@ == with_reg(old(self)@, x as int, old(self)@.v[y as int]),
            next == NextPCValue::Next,
    {
        self.v[x] = self.v[y];

        NextPCValue::Next
    }

    /// Sets VX to (VX or VY).
    fn op_8xy1(&mut self, x: usize, y: usize) -> (next: NextPCValue)
        requires
            x < 16,
            y < 16,
        ensures
            final(self)@ == with_reg(
                old(self)@,
                x as int,
                old(self)@.v[x as int] | old(self)@.v[y as int],
            ),
            next == NextPCValue::Next,
    {
        self.v[x] = self.v[x] | self.v[y];

        NextPCValue::Next
    }

    /// Sets VX to (VX and VY).
    fn op_8xy2(&mut self, x: usize, y: usize) -> (next: NextPCValue)
        requires
            x < 16,
            y < 16,
        ensures
            final(self)@ == with_reg(
                old(self)@,
                x as int,
                old(self)@.v[x as int] & old(self)@.v[y as int],
            ),
            next == NextPCValue::Next,
    {
        self.v[x] = self.v[x] & self.v[y];

        NextPCValue::Next
    }

    /// Sets VX to (VX xor VY).
    fn op_8xy3(&mut self, x: usize, y: usize) -> (next: NextPCValue)
        requires
            x < 16,
            y < 16,
        ensures
            final(self)@ == with_reg(
                old(self)@,
                x as int,
                old(self)@.v[x as int] ^ old(self)@.v[y as int],
            ),
            next == NextPCValue::Next,
    {
        self.v[x] = self.v[x] ^ self.v[y];

        NextPCValue::Next
    }

    /// Adds VY to VX. VF is set to 1 when there's a carry, and to 0 when
    /// there is not.
    fn op_8xy4(&mut self, x: usize, y: usize) -> (next: NextPCValue)
        requires
            x < 16,
            y < 16,
        ensures
            final(self)@ == with_flag(
                old(self)@,
                x as int,
                ((old(self)@.v[x as int] + old(self)@.v[y as int]) % 256) as u8,
                if old(self)@.v[x as int] + old(self)@.v[y as int] > 255 {
                    1u8
                } else {
                    0u8
                },
            ),
            next == NextPCValue::Next,
    {
        let sum: u16 = self.v[x] as u16 + self.v[y] as u16;

        self.v[x] = (sum % 256) as u8;
        self.v[0x0f] = if sum > 255 { 1 } else { 0 };

        NextPCValue::Next
    }

    /// VY is subtracted from VX. VF is set to 0 when there's a borrow, and 1
    /// when there is not.
    fn op_8xy5(&mut self, x: usize, y: usize) -> (next: NextPCValue)
        requires
            x < 16,
            y < 16,
        ensures
            final(self)@ == with_flag(
                old(self)@,
                x as int,
                ((old(self)@.v[x as int] - old(self)@.v[y as int]) % 256) as u8,
                if old(self)@.v[x as int] >= old(self)@.v[y as int] {
                    1u8
                } else {
                    0u8
                },
            ),
            next == NextPCValue::Next,
    {
        let minuend: u8 = self.v[x];
        let subtrahend: u8 = self.v[y];

        self.v[x] = minuend.wrapping_sub(subtrahend);
        self.v[0x0f] = if minuend < subtrahend { 0 } else { 1 };

        NextPCValue::Next
    }

    /// Stores the least significant bit of VX in VF and shifts VX to the
    /// right by 1.
    fn op_8x06(&mut self, x: usize) -> (next: NextPCValue)
        requires
            x < 16,
        ensures
            final(self)@ == with_flag(
                old(self)@,
                x as int,
                (old(self)@.v[x as int] / 2) as u8,
                (old(self)@.v[x as int] % 2) as u8,
            ),
            next == NextPCValue::Next,
    {
        let value: u8 = self.v[x];
        assert(value & 0b00000001 == value % 2) by (bit_vector);
        assert(value >> 1 == value / 2) by (bit_vector);

        self.v[x] = value >> 1;
        self.v[0x0f] = value & 0b00000001;

        NextPCValue::Next
    }

    /// Sets VX to VY minus VX. VF is set to 0 when there's a borrow, and 1
    /// when there is not.
    fn op_8xy7(&mut self, x: usize, y: usize) -> (next: NextPCValue)
        requires
            x < 16,
            y < 16,
        ensures
            final(self)@ == with_flag(
                old(self)@,
                x as int,
                ((old(self)@.v[y as int] - old(self)@.v[x as int]) % 256) as u8,
                if old(self)@.v[y as int] >= old(self)@.v[x as int] {
                    1u8
                } else {
                    0u8
                },
            ),
            next == NextPCValue::Next,
    {
        let minuend: u8 = self.v[y];
        let subtrahend: u8 = self.v[x];

        self.v[x] = minuend.wrapping_sub(subtrahend);
        self.v[0x0f] = if minuend < subtrahend { 0 } else { 1 };

        NextPCValue::Next
    }

    /// Stores the most significant bit of VX in VF and shifts VX to the left
    /// by 1.
    fn op_8xye(&mut self, x: usize) -> (next: NextPCValue)
        requires
            x < 16,
        ensures
            final(self)@ == with_flag(
                old(self)@,
                x as int,
                ((old(self)@.v[x as int] * 2) % 256) as u8,
                (old(self)@.v[x as int] / 128) as u8,
            ),
            next == NextPCValue::Next,
    {
        let value: u8 = self.v[x];
        assert((value & 0b10000000) >> 7 == value / 128) by (bit_vector);
        assert(value << 1 == ((value as u16) * 2) % 256) by (bit_vector);

        self.v[x] = value << 1;
        self.v[0x0f] = (value & 0b10000000) >> 7;

        NextPCValue::Next
    }

    /// Skips the next instruction if VX does not equal VY.
    fn op_9xy0(&mut self, x: usize, y: usize) -> (next: NextPCValue)
        requires
            x < 16,
            y < 16,
        ensures
            final(self)@ == old(self)@,
            next == skip_if(old(self)@.v[x as int] != old(self)@.v[y as int]),
    {
        if self.v[x] != self.v[y] {
            return NextPCValue::Skip;
        }
        NextPCValue::Next
    }

    /// Sets I to the address NNN.
    fn op_annn(&mut self, nnn: usize) -> (next: NextPCValue)
        ensures
            final(self)@ == (CpuState { i: nnn, ..old(self)@ }),
            next == NextPCValue::Next,
    {
        self.i = nnn;

        NextPCValue::Next
    }

    /// Jumps to the address NNN plus V0.
    fn op_bnnn(&mut self, nnn: usize) -> (next: NextPCValue)
        requires
            nnn < 4096,
        ensures
            final(self)@ == old(self)@,
            next == NextPCValue::Jump((old(self)@.v[0] + nnn) as usize),
    {
        NextPCValue::Jump((self.v[0] as usize) + nnn)
    }

    /// Sets VX to the random byte `rnd` masked with NN. The interpreter
    /// draws `rnd` from 0 to 254: 255 is never drawn.
    pub fn op_cxnn(&mut self, x: usize, nn: u8, rnd: u8) -> (next: NextPCValue)
        requires
            x < 16,
        ensures
            final(self)@ == with_reg(old(self)@, x as int, rnd & nn),
            next == NextPCValue::Next,
    {
        self.v[x] = rnd & nn;

        NextPCValue::Next
    }

    /// Draws a sprite at coordinate (VX, VY) that has a width of 8 pixels
    /// and a height of N pixels, each row read from memory starting at I.
    /// VF is set to 1 if any pixel is flipped from set to unset, and to 0 if
    /// that does not happen.
    fn op_dxyn(&mut self, x: usize, y: usize, n: usize) -> (next: NextPCValue)
        requires
            x < 16,
            y < 16,
            n < 16,
            n > 0 ==> old(self)@.i + n <= 4096,
        ensures
            final(self)@ == drawn(old(self)@, x as int, y as int, n as int),
            next == NextPCValue::Next,
    {
        let vx: usize = self.v[x] as usize;
        let vy: usize = self.v[y] as usize;
        let wrapping: bool = self.graphics_subsystem.wrapping_enabled();
        let mut collision: u8 = 0;
        let ghost s = self@;
        proof {
            self.lemma_well_formed();
            assert(!collides_within(s, vx as int, vy as int, n as int, 0));
        }

        let mut height: usize = 0;
        while height < n
            invariant
                height <= n,
                n < 16,
                vx < 256,
                vy < 256,
                n > 0 ==> s.i + n <= 4096,
                s.well_formed(),
                wrapping == s.wrapping,
                self@ == (CpuState { screen: self@.screen, ..s }),
                partly_drawn(s, self@.screen, vx as int, vy as int, n as int, height * 8),
                collision == (if collides_within(s, vx as int, vy as int, n as int, height * 8) {
                    1u8
                } else {
                    0u8
                }),
            decreases n - height,
        {
            let y_coord: usize = if !wrapping {
                vy + height
            } else {
                (vy + height) % 32
            };

            let mut width: usize = 0;
            while width < 8
                invariant
                    width <= 8,
                    height < n,
                    n < 16,
                    vx < 256,
                    vy < 256,
                    s.i + n <= 4096,
                    s.well_formed(),
                    wrapping == s.wrapping,
                    y_coord == sprite_coord(wrapping, vy as int, height as int, 32),
                    self@ == (CpuState { screen: self@.screen, ..s }),
                    partly_drawn(
                        s,
                        self@.screen,
                        vx as int,
                        vy as int,
                        n as int,
                        height * 8 + width,
                    ),
                    collision == (if collides_within(
                        s,
                        vx as int,
                        vy as int,
                        n as int,
                        height * 8 + width,
                    ) {
                        1u8
                    } else {
                        0u8
                    }),
                decreases 8 - width,
            {
                let x_coord: usize = if !wrapping {
                    vx + width
                } else {
                    (vx + width) % 64
                };

                // the column's bit of the row, counted from the top bit
                let color: u8 = (self.memory[self.i + height] >> (7 - width as u8)) & 0b00000001;
                proof {
                    lemma_plot_step(
                        s,
                        self@.screen,
                        vx as int,
                        vy as int,
                        n as int,
                        width as int,
                        height as int,
                    );
                }

                let changed: u8 = self.graphics_subsystem.set_pos(x_coord, y_coord, color);
                if changed != 0 {
                    collision = 1;
                }
                width += 1;
            }
            height += 1;
        }

        self.v[0x0f] = collision;
        proof {
            lemma_collides_in_full(s, vx as int, vy as int, n as int);
            let target = drawn(old(self)@, x as int, y as int, n as int);
            assert(self@.screen =~~= target.screen);
        }

        NextPCValue::Next
    }

    /// Skips the next instruction if the key stored in VX is pressed.
    fn op_ex9e(&mut self, x: usize) -> (next: NextPCValue)
        requires
            x < 16,
        ensures
            final(self)@ == old(self)@,
            next == skip_if(key_down(old(self)@, old(self)@.v[x as int] as int)),
    {
        if self.keypad_subsystem.is_pressed(self.v[x] as usize) {
            return NextPCValue::Skip;
        }
        NextPCValue::Next
    }

    /// Skips the next instruction if the key stored in VX is not pressed.
    fn op_exa1(&mut self, x: usize) -> (next: NextPCValue)
        requires
            x < 16,
        ensures
            final(self)@ == old(self)@,
            next == skip_if(!key_down(old(self)@, old(self)@.v[x as int] as int)),
    {
        if !self.keypad_subsystem.is_pressed(self.v[x] as usize) {
            return NextPCValue::Skip;
        }
        NextPCValue::Next
    }

    /// Sets VX to the value of the delay timer.
    fn op_fx07(&mut self, timers: &mut (u8, u8), x: usize) -> (next: NextPCValue)
        requires
            x < 16,
        ensures
            final(self)@ == with_reg(old(self)@, x as int, old(timers).0),
            *final(timers) == *old(timers),
            next == NextPCValue::Next,
    {
        let (delay_timer, _) = *timers;

        self.v[x] = delay_timer;

        NextPCValue::Next
    }

    /// A key press is awaited, and then stored in VX: while no key is down
    /// the instruction is issued again.
    fn op_fx0a(&mut self, x: usize) -> (next: NextPCValue)
        requires
            x < 16,
        ensures
            match first_pressed(old(self)@.keypad.keys) {
                Some(k) => final(self)@ == with_reg(old(self)@, x as int, k as u8) && next
                    == NextPCValue::Next,
                None => final(self)@ == old(self)@ && next == NextPCValue::Jump(old(self)@.pc),
            },
    {
        let keys = self.keypad_subsystem.iter();
        let mut found: Option<u8> = None;
        let mut k: u8 = 0;
        while k < 16 && found.is_none()
            invariant
                k <= 16,
                keys@ == self@.keypad.keys,
                keys@.len() == 16,
                match found {
                    Some(key) => is_first_pressed(keys@, key as int),
                    None => forall|j: int| 0 <= j < k ==> !keys@[j],
                },
            decreases 16 - k + (if found.is_none() { 1int } else { 0int }),
        {
            if keys[k as usize] {
                found = Some(k);
            } else {
                k += 1;
            }
        }

        match found {
            Some(key) => {
                proof {
                    let chosen = choose|c: int| is_first_pressed(keys@, c);
                    assert(chosen == key);
                }
                self.v[x] = key;
                NextPCValue::Next
            },
            None => NextPCValue::Jump(self.pc),
        }
    }

    /// Sets the delay timer to VX.
    fn op_fx15(&mut self, timers: &mut (u8, u8), x: usize) -> (next: NextPCValue)
        requires
            x < 16,
        ensures
            final(self)@ == old(self)@,
            *final(timers) == (old(self)@.v[x as int], old(timers).1),
            next == NextPCValue::Next,
    {
        let (_, sound_timer) = *timers;

        *timers = (self.v[x], sound_timer);

        NextPCValue::Next
    }

    /// Sets the sound timer to VX.
    fn op_fx18(&mut self, timers: &mut (u8, u8), x: usize) -> (next: NextPCValue)
        requires
            x < 16,
        ensures
            final(self)@ == old(self)@,
            *final(timers) == (old(timers).0, old(self)@.v[x as int]),
            next == NextPCValue::Next,
    {
        let (delay_timer, _) = *timers;

        *timers = (delay_timer, self.v[x]);

        NextPCValue::Next
    }

    /// Adds VX to I. VF is not affected.
    fn op_fx1e(&mut self, x: usize) -> (next: NextPCValue)
        requires
            x < 16,
            old(self)@.i + old(self)@.v[x as int] <= usize::MAX,
        ensures
            final(self)@ == (CpuState {
                i: (old(self)@.i + old(self)@.v[x as int]) as usize,
                ..old(self)@
            }),
            next == NextPCValue::Next,
    {
        self.i += self.v[x] as usize;

        NextPCValue::Next
    }

    /// Sets I to the location of the glyph for the character in VX.
    fn op_fx29(&mut self, x: usize) -> (next: NextPCValue)
        requires
            x < 16,
        ensures
            final(self)@ == (CpuState { i: (old(self)@.v[x as int] * 5) as usize, ..old(self)@ }),
            next == NextPCValue::Next,
    {
        self.i = (self.v[x] as usize) * 5;

        NextPCValue::Next
    }

    /// Stores the decimal digits of VX at I, I+1 and I+2, hundreds first.
    fn op_fx33(&mut self, x: usize) -> (next: NextPCValue)
        requires
            x < 16,
            old(self)@.i + 2 < 4096,
        ensures
            final(self)@ == (CpuState {
                memory: bcd_stored(old(self)@.memory, old(self)@.i as int, old(self)@.v[x as int]),
                ..old(self)@
            }),
            next == NextPCValue::Next,
    {
        let value: u8 = self.v[x];
        self.memory[self.i] = value / 100;

        self.memory[self.i + 1] = (value % 100) / 10;

        self.memory[self.i + 2] = value % 10;

        NextPCValue::Next
    }

    /// Stores V0 to VX (including VX) in memory starting at address I.
    fn op_fx55(&mut self, x: usize) -> (next: NextPCValue)
        requires
            x < 16,
            old(self)@.i + x < 4096,
        ensures
            final(self)@ == (CpuState {
                memory: regs_stored(
                    old(self)@.memory,
                    old(self)@.v,
                    old(self)@.i as int,
                    x as int,
                ),
                ..old(self)@
            }),
            next == NextPCValue::Next,
    {
        let mut k: usize = 0;
        while k <= x
            invariant
                x < 16,
                k <= x + 1,
                self@.i + x < 4096,
                self@ == (CpuState { memory: self@.memory, ..old(self)@ }),
                self@.memory.len() == 4096,
                forall|a: int|
                    0 <= a < 4096 ==> self@.memory[a] == (if self@.i <= a < self@.i + k {
                        self@.v[a - self@.i]
                    } else {
                        old(self)@.memory[a]
                    }),
            decreases x + 1 - k,
        {
            self.memory[self.i + k] = self.v[k];
            k += 1;
        }
        assert(self@.memory =~= regs_stored(
            old(self)@.memory,
            old(self)@.v,
            old(self)@.i as int,
            x as int,
        ));

        NextPCValue::Next
    }

    /// Fills V0 to VX (including VX) with values from memory starting at
    /// address I.
    fn op_fx65(&mut self, x: usize) -> (next: NextPCValue)
        requires
            x < 16,
            old(self)@.i + x < 4096,
        ensures
            final(self)@ == (CpuState {
                v: regs_loaded(old(self)@.memory, old(self)@.v, old(self)@.i as int, x as int),
                ..old(self)@
            }),
            next == NextPCValue::Next,
    {
        let mut k: usize = 0;
        while k <= x
            invariant
                x < 16,
                k <= x + 1,
                self@.i + x < 4096,
                self@ == (CpuState { v: self@.v, ..old(self)@ }),
                self@.v.len() == 16,
                forall|j: int|
                    0 <= j < 16 ==> self@.v[j] == (if j < k {
                        self@.memory[self@.i + j]
                    } else {
                        old(self)@.v[j]
                    }),
            decreases x + 1 - k,
        {
            self.v[k] = self.memory[self.i + k];
            k += 1;
        }
        assert(self@.v =~= regs_loaded(
            old(self)@.memory,
            old(self)@.v,
            old(self)@.i as int,
            x as int,
        ));

        NextPCValue::Next
    }

    /// Puts the built-in font at the start of memory.
    fn load_fonts(memory: &mut [u8; 4096])
        ensures
            forall|a: int| 0 <= a < 80 ==> final(memory)@[a] == FONT@[a],
            forall|a: int| 80 <= a < 4096 ==> final(memory)@[a] == old(memory)@[a],
    {
        let mut k: usize = 0;
        while k < 80
            invariant
                k <= 80,
                forall|a: int| 0 <= a < k ==> memory@[a] == FONT@[a],
                forall|a: int| 80 <= a < 4096 ==> memory@[a] == old(memory)@[a],
            decreases 80 - k,
        {
            memory[k] = FONT[k];
            k += 1;
        }
    }

    /// Copies the program into memory from address 0x200, as much of it as
    /// fits.
    fn load_rom(rom: &Vec<u8>, memory: &mut [u8; 4096])
        ensures
            forall|a: int|
                0 <= a < 4096 ==> final(memory)@[a] == (if 0x200 <= a < 0x200 + rom@.len() {
                    rom@[a - 0x200]
                } else {
                    old(memory)@[a]
                }),
    {
        let mut k: usize = 0;
        while k < rom.len() && k < MEMORY_SIZE - PROGRAM_START
            invariant
                k <= 4096 - 0x200,
                k <= rom@.len(),
                forall|a: int|
                    0 <= a < 4096 ==> memory@[a] == (if 0x200 <= a < 0x200 + k {
                        rom@[a - 0x200]
                    } else {
                        old(memory)@[a]
                    }),
            decreases rom@.len() - k,
        {
            memory[PROGRAM_START + k] = rom[k];
            k += 1;
        }
    }
}

} // verus!
