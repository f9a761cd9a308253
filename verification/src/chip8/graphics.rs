use crate::config::Config;
use vstd::prelude::*;

verus! {

/// Columns of the screen.
pub const SCREEN_WIDTH: usize = 64;

/// Rows of the screen.
pub const SCREEN_HEIGHT: usize = 32;

/// Entries of the diagnostic panels (return addresses, recent opcodes).
pub const PANEL_ENTRIES: usize = 12;

/// A grid is a sequence of rows; `grid[y][x]` is the pixel in column `x` of
/// row `y`. This says that it has the screen's dimensions.
pub open spec fn is_screen(grid: Seq<Seq<u8>>) -> bool {
    &&& grid.len() == 32
    &&& forall|y: int| 0 <= y < 32 ==> (#[trigger] grid[y]).len() == 64
}

/// The screen with every pixel off.
pub open spec fn blank_screen() -> Seq<Seq<u8>> {
    Seq::new(32, |y: int| Seq::new(64, |x: int| 0u8))
}

/// The pixel a plot at `(x, y)` lands on: with wrapping the coordinates are
/// taken modulo the screen's size, without it a plot outside the screen
/// lands nowhere.
pub open spec fn plot_target(wrapping: bool, x: int, y: int) -> Option<(int, int)> {
    if wrapping {
        Some((x % 64, y % 32))
    } else if 0 <= x < 64 && 0 <= y < 32 {
        Some((x, y))
    } else {
        None
    }
}

/// The grid after `val` is XOR'd into the pixel that `(x, y)` lands on.
pub open spec fn plotted(grid: Seq<Seq<u8>>, wrapping: bool, x: int, y: int, val: u8) -> Seq<
    Seq<u8>,
> {
    match plot_target(wrapping, x, y) {
        Some((tx, ty)) => grid.update(ty, grid[ty].update(tx, grid[ty][tx] ^ val)),
        None => grid,
    }
}

/// What a plot reports: the bits that were set in the pixel and are set in
/// `val`, which the plot therefore turned off; zero for a plot that lands
/// nowhere.
pub open spec fn plot_changed(grid: Seq<Seq<u8>>, wrapping: bool, x: int, y: int, val: u8) -> u8 {
    match plot_target(wrapping, x, y) {
        Some((tx, ty)) => grid[ty][tx] & val,
        None => 0u8,
    }
}

/// The 64x32 monochrome framebuffer and its sprite-wrap policy.
pub struct Graphics {
    screen: [[u8; 64]; 32],
    wrapping: bool,
}

impl View for Graphics {
    type V = Seq<Seq<u8>>;

    closed spec fn view(&self) -> Seq<Seq<u8>> {
        Seq::new(32, |y: int| self.screen@[y]@)
    }
}

impl Graphics {
    /// Whether plots wrap around the borders.
    pub closed spec fn wrapping(&self) -> bool {
        self.wrapping
    }

    /// The view of a framebuffer always has the screen's dimensions.
    pub proof fn lemma_dimensions(&self)
        ensures
            is_screen(self@),
    {
    }

    /// A blank framebuffer with the wrap policy of `config`.
    pub fn new(config: &Config) -> (graphics: Graphics)
        ensures
            graphics@ == blank_screen(),
            graphics.wrapping() == config@.wrapping_enabled,
    {
        let graphics = Graphics { screen: [[0; 64]; 32], wrapping: config.wrapping_enabled() };
        assert(graphics@ =~~= blank_screen());
        graphics
    }

    /// Turns every pixel off.
    pub fn clear_screen(&mut self)
        ensures
            final(self)@ == blank_screen(),
            final(self).wrapping() == old(self).wrapping(),
    {
        self.screen = [[0; 64]; 32];
        assert(self@ =~~= blank_screen());
    }

    /// XORs `val` into the pixel that `(x, y)` lands on and reports what was
    /// turned off there: for a one-bit `val`, 1 exactly when a lit pixel went
    /// dark.
    pub fn set_pos(&mut self, x: usize, y: usize, val: u8) -> (changed: u8)
        ensures
            final(self).wrapping() == old(self).wrapping(),
            final(self)@ == plotted(old(self)@, old(self).wrapping(), x as int, y as int, val),
            changed == plot_changed(old(self)@, old(self).wrapping(), x as int, y as int, val),
    {
        let mut changed: u8 = 0;

        if !self.wrapping {
            if x < 64 && y < 32 {
                changed = self.screen[y][x];
                self.screen[y][x] ^= val;
                changed &= val;
                assert(self@ =~~= plotted(old(self)@, false, x as int, y as int, val));
            }
        } else {
            changed = self.screen[y % 32][x % 64];
            self.screen[y % 32][x % 64] ^= val;
            changed &= val;
            assert(self@ =~~= plotted(old(self)@, true, x as int, y as int, val));
        }

        changed
    }

    /// The pixel in column `x` of row `y`.
    pub fn get_pos(&self, x: usize, y: usize) -> (val: u8)
        requires
            x < 64,
            y < 32,
        ensures
            val == self@[y as int][x as int],
    {
        self.screen[y][x]
    }

    /// Whether plots wrap around the borders.
    pub fn wrapping_enabled(&self) -> (enabled: bool)
        ensures
            enabled == self.wrapping(),
    {
        self.wrapping
    }

    /// The return addresses for the diagnostic panel: the most recent call
    /// first, zero where the stack has no entry.
    pub fn stack_panel(stack: &Vec<usize>) -> (panel: [usize; 12])
        requires
            stack@.len() <= 12,
        ensures
            forall|k: int|
                0 <= k < 12 ==> panel@[k] == (if k < stack@.len() {
                    stack@[stack@.len() - 1 - k]
                } else {
                    0usize
                }),
    {
        let mut panel: [usize; 12] = [0; 12];
        let len: usize = stack.len();
        let mut i: usize = 0;
        while i < len
            invariant
                len == stack@.len(),
                len <= 12,
                i <= len,
                forall|k: int|
                    0 <= k < 12 ==> panel@[k] == (if k < i {
                        stack@[len - 1 - k]
                    } else {
                        0usize
                    }),
            decreases len - i,
        {
            panel[i] = stack[len - 1 - i];
            i += 1;
        }
        panel
    }

    /// The opcodes for the diagnostic panel, in the log's order, zero where
    /// the log has no entry.
    pub fn instr_panel(instr_log: &Vec<u16>) -> (panel: [u16; 12])
        requires
            instr_log@.len() <= 12,
        ensures
            forall|k: int|
                0 <= k < 12 ==> panel@[k] == (if k < instr_log@.len() {
                    instr_log@[k]
                } else {
                    0u16
                }),
    {
        let mut panel: [u16; 12] = [0; 12];
        let len: usize = instr_log.len();
        let mut i: usize = 0;
        while i < len
            invariant
                len == instr_log@.len(),
                len <= 12,
                i <= len,
                forall|k: int|
                    0 <= k < 12 ==> panel@[k] == (if k < i {
                        instr_log@[k]
                    } else {
                        0u16
                    }),
            decreases len - i,
        {
            panel[i] = instr_log[i];
            i += 1;
        }
        panel
    }
}

} // verus!
