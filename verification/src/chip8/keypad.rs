use vstd::prelude::*;

verus! {

/// The value the exit key maps to.
pub const EXIT_KEY_VALUE: usize = 0xffa;

/// The value the pause key maps to.
pub const PAUSE_KEY_VALUE: usize = 0xffb;

/// The value the slow-down key maps to.
pub const FREQ_DOWN_KEY_VALUE: usize = 0xffc;

/// The value the speed-up key maps to.
pub const FREQ_UP_KEY_VALUE: usize = 0xffd;

/// Nanoseconds by which one press changes the cycle period.
pub const FREQ_STEP: u64 = 1000;

/// A key of the host keyboard, as far as the machine tells keys apart.
#[derive(Clone, Copy, Debug, PartialEq, Eq, Structural)]
pub enum Key {
    Num1,
    Num2,
    Num3,
    Num4,
    Q,
    W,
    E,
    R,
    A,
    S,
    D,
    F,
    Z,
    X,
    C,
    V,
    Escape,
    Space,
    Down,
    Up,
    Other,
}

/// The keypad index, or control value, that a host key stands for.
pub open spec fn spec_key_value(key: Key) -> Option<usize> {
    match key {
        Key::Num1 => Some(0x1usize),
        Key::Num2 => Some(0x2usize),
        Key::Num3 => Some(0x3usize),
        Key::Num4 => Some(0xcusize),
        Key::Q => Some(0x4usize),
        Key::W => Some(0x5usize),
        Key::E => Some(0x6usize),
        Key::R => Some(0xdusize),
        Key::A => Some(0x7usize),
        Key::S => Some(0x8usize),
        Key::D => Some(0x9usize),
        Key::F => Some(0xeusize),
        Key::Z => Some(0xausize),
        Key::X => Some(0x0usize),
        Key::C => Some(0xbusize),
        Key::V => Some(0xfusize),
        Key::Escape => Some(EXIT_KEY_VALUE),
        Key::Space => Some(PAUSE_KEY_VALUE),
        Key::Down => Some(FREQ_DOWN_KEY_VALUE),
        Key::Up => Some(FREQ_UP_KEY_VALUE),
        Key::Other => None,
    }
}

/// Whether keypad key `index` is down when exactly the host keys `keys` are.
pub open spec fn pressed_by(keys: Seq<Key>, index: int) -> bool {
    exists|k: int| 0 <= k < keys.len() && #[trigger] spec_key_value(keys[k]) == Some(index as usize)
}

/// Whether one of `keys` is the exit key.
pub open spec fn quit_by(keys: Seq<Key>) -> bool {
    exists|k: int| 0 <= k < keys.len() && #[trigger] keys[k] == Key::Escape
}

/// The pause flag after each pause key among `keys` has toggled it.
pub open spec fn pause_after(pause: bool, keys: Seq<Key>) -> bool
    decreases keys.len(),
{
    if keys.len() == 0 {
        pause
    } else {
        let before = pause_after(pause, keys.drop_last());
        if keys.last() == Key::Space {
            !before
        } else {
            before
        }
    }
}

/// The cycle period after the speed keys among `keys` have acted on it, in
/// order: each slow-down adds a step, each speed-up takes one off, and the
/// period stays within `u64`.
pub open spec fn freq_after(freq: u64, keys: Seq<Key>) -> u64
    decreases keys.len(),
{
    if keys.len() == 0 {
        freq
    } else {
        let before = freq_after(freq, keys.drop_last());
        if keys.last() == Key::Down {
            if before + FREQ_STEP > u64::MAX {
                u64::MAX
            } else {
                (before + FREQ_STEP) as u64
            }
        } else if keys.last() == Key::Up {
            if before < FREQ_STEP {
                0u64
            } else {
                (before - FREQ_STEP) as u64
            }
        } else {
            before
        }
    }
}

/// The mathematical content of a [`Keypad`].
pub struct KeypadView {
    /// Which of the sixteen keys are down.
    pub keys: Seq<bool>,
    /// The pause flag.
    pub pause: bool,
    /// The cycle period in nanoseconds.
    pub freq_period: u64,
}

/// The sixteen-key pad, with the pause flag and the cycle period that the
/// control keys act on.
pub struct Keypad {
    keypad: [bool; 16],
    pause: bool,
    freq_period: u64,
}

impl View for Keypad {
    type V = KeypadView;

    closed spec fn view(&self) -> KeypadView {
        KeypadView { keys: self.keypad@, pause: self.pause, freq_period: self.freq_period }
    }
}

impl Keypad {
    /// A keypad always has sixteen keys.
    pub proof fn lemma_sixteen_keys(&self)
        ensures
            self@.keys.len() == 16,
    {
    }

    /// A keypad with no key down.
    pub fn new(pause: bool, freq_period: u64) -> (keypad: Keypad)
        ensures
            keypad@.keys == Seq::new(16, |i: int| false),
            keypad@.pause == pause,
            keypad@.freq_period == freq_period,
    {
        let keypad = Keypad { keypad: [false; 16], pause: pause, freq_period: freq_period };
        assert(keypad@.keys =~= Seq::new(16, |i: int| false));
        keypad
    }

    /// The sixteen key states, by key index.
    pub fn iter(&self) -> (keys: &[bool; 16])
        ensures
            keys@ == self@.keys,
    {
        &self.keypad
    }

    /// Whether key `key` is down. An index that names no key counts as up.
    pub fn is_pressed(&mut self, key: usize) -> (pressed: bool)
        ensures
            final(self)@ == old(self)@,
            pressed == (key <= 0xF && old(self)@.keys[key as int]),
    {
        if key <= 0xF {
            return self.keypad[key];
        }
        false
    }

    /// The pause flag.
    pub fn paused(&self) -> (pause: bool)
        ensures
            pause == self@.pause,
    {
        self.pause
    }

    /// The cycle period in nanoseconds.
    pub fn freq_period(&self) -> (period: u64)
        ensures
            period == self@.freq_period,
    {
        self.freq_period
    }

    /// The keypad index, or control value, that a host key stands for.
    pub fn key_value(key: Key) -> (value: Option<usize>)
        ensures
            value == spec_key_value(key),
    {
        match key {
            Key::Num1 => Some(0x1),
            Key::Num2 => Some(0x2),
            Key::Num3 => Some(0x3),
            Key::Num4 => Some(0xc),
            Key::Q => Some(0x4),
            Key::W => Some(0x5),
            Key::E => Some(0x6),
            Key::R => Some(0xd),
            Key::A => Some(0x7),
            Key::S => Some(0x8),
            Key::D => Some(0x9),
            Key::F => Some(0xe),
            Key::Z => Some(0xa),
            Key::X => Some(0x0),
            Key::C => Some(0xb),
            Key::V => Some(0xf),
            Key::Escape => Some(EXIT_KEY_VALUE),
            Key::Space => Some(PAUSE_KEY_VALUE),
            Key::Down => Some(FREQ_DOWN_KEY_VALUE),
            Key::Up => Some(FREQ_UP_KEY_VALUE),
            Key::Other => None,
        }
    }

    /// Takes in one snapshot of the host keyboard: `keys` are the host keys
    /// that are down, `quit_requested` says whether the window was asked to
    /// close. The pad then shows exactly the keys of the snapshot, the
    /// control keys have acted on the pause flag and the cycle period, and
    /// the result says whether the user wants to quit.
    pub fn poll_keyboard(&mut self, quit_requested: bool, keys: &Vec<Key>) -> (wants_to_quit: bool)
        ensures
            wants_to_quit == (quit_requested || quit_by(keys@)),
            final(self)@.keys.len() == 16,
            forall|i: int| 0 <= i < 16 ==> final(self)@.keys[i] == pressed_by(keys@, i),
            final(self)@.pause == pause_after(old(self)@.pause, keys@),
            final(self)@.freq_period == freq_after(old(self)@.freq_period, keys@),
    {
        let mut wants_to_quit = quit_requested;

        self.clear_keypad();

        let mut k: usize = 0;
        while k < keys.len()
            invariant
                k <= keys@.len(),
                wants_to_quit == (quit_requested || quit_by(keys@.take(k as int))),
                self@.keys.len() == 16,
                forall|i: int| 0 <= i < 16 ==> self@.keys[i] == pressed_by(keys@.take(k as int), i),
                self@.pause == pause_after(old(self)@.pause, keys@.take(k as int)),
                self@.freq_period == freq_after(old(self)@.freq_period, keys@.take(k as int)),
            decreases keys@.len() - k,
        {
            let ghost before = keys@.take(k as int);
            let ghost after = keys@.take(k as int + 1);
            let key = keys[k];
            proof {
                assert(after.drop_last() =~= before);
                assert(after.last() == key);
                assert forall|i: int| 0 <= i < 16 implies pressed_by(after, i) == (pressed_by(
                    before,
                    i,
                ) || spec_key_value(key) == Some(i as usize)) by {
                    if pressed_by(before, i) {
                        let w = choose|w: int|
                            0 <= w < before.len() && #[trigger] spec_key_value(before[w]) == Some(
                                i as usize,
                            );
                        assert(spec_key_value(after[w]) == Some(i as usize));
                    }
                    if spec_key_value(key) == Some(i as usize) {
                        assert(spec_key_value(after[k as int]) == Some(i as usize));
                    }
                    if pressed_by(after, i) {
                        let w = choose|w: int|
                            0 <= w < after.len() && #[trigger] spec_key_value(after[w]) == Some(
                                i as usize,
                            );
                        if w < k {
                            assert(spec_key_value(before[w]) == Some(i as usize));
                        }
                    }
                }
                assert(quit_by(after) == (quit_by(before) || key == Key::Escape)) by {
                    if quit_by(before) {
                        let w = choose|w: int| 0 <= w < before.len() && #[trigger] before[w] == Key::Escape;
                        assert(after[w] == Key::Escape);
                    }
                    if key == Key::Escape {
                        assert(after[k as int] == Key::Escape);
                    }
                    if quit_by(after) {
                        let w = choose|w: int| 0 <= w < after.len() && #[trigger] after[w] == Key::Escape;
                        if w < k {
                            assert(before[w] == Key::Escape);
                        }
                    }
                }
            }
            match Keypad::key_value(key) {
                Some(i) => {
                    if i == EXIT_KEY_VALUE {
                        wants_to_quit = true;
                    } else if i == PAUSE_KEY_VALUE {
                        self.pause = !self.pause;
                    } else if i == FREQ_DOWN_KEY_VALUE {
                        self.freq_period = self.freq_period.saturating_add(FREQ_STEP);
                    } else if i == FREQ_UP_KEY_VALUE {
                        self.freq_period = self.freq_period.saturating_sub(FREQ_STEP);
                    } else {
                        self.keypad[i] = true;
                    }
                },
                None => {},
            }
            k += 1;
        }
        proof {
            assert(keys@.take(k as int) =~= keys@);
        }

        wants_to_quit
    }

    /// Releases every key.
    fn clear_keypad(&mut self)
        ensures
            final(self)@.keys == Seq::new(16, |i: int| false),
            final(self)@.pause == old(self)@.pause,
            final(self)@.freq_period == old(self)@.freq_period,
    {
        let mut i: usize = 0;
        while i < 16
            invariant
                i <= 16,
                self@.pause == old(self)@.pause,
                self@.freq_period == old(self)@.freq_period,
                forall|j: int| 0 <= j < i ==> !(#[trigger] self.keypad@[j]),
            decreases 16 - i,
        {
            self.keypad[i] = false;
            i += 1;
        }
        assert(self@.keys =~= Seq::new(16, |i: int| false));
    }
}

} // verus!
