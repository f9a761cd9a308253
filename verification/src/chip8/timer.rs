use vstd::prelude::*;

verus! {

/// Nanoseconds between two ticks of the timers: roughly 60 ticks a second.
pub const TICK_PERIOD_NANOS: u64 = 16666667;

/// The delay and sound timers after one tick: each counts down by one and
/// stays at zero once it got there.
pub open spec fn tick_pair(timers: (u8, u8)) -> (u8, u8) {
    (
        if timers.0 > 0 { (timers.0 - 1) as u8 } else { 0u8 },
        if timers.1 > 0 { (timers.1 - 1) as u8 } else { 0u8 },
    )
}

/// The audio signal after one tick that started with the sound timer at
/// `sound`: cleared when the timer reaches zero on this tick, raised while it
/// is still running, and left alone when it was already at zero.
pub open spec fn tick_beep(sound: u8, must_beep: bool) -> bool {
    if sound == 0 {
        must_beep
    } else {
        sound != 1
    }
}

/// The timers after `n` ticks.
pub open spec fn ticked(timers: (u8, u8), n: nat) -> (u8, u8)
    decreases n,
{
    if n == 0 {
        timers
    } else {
        tick_pair(ticked(timers, (n - 1) as nat))
    }
}

/// What the ticker found when it looked for the request to stop.
#[derive(Clone, Copy, Debug, PartialEq, Eq, Structural)]
pub enum StopSignal {
    /// The request to stop has arrived.
    Received,
    /// The sender is gone, so no request can arrive any more.
    Disconnected,
    /// Nothing has arrived yet.
    Empty,
}

/// What the caller of [`Timer::step`] has to do next.
#[derive(Clone, Copy, Debug, PartialEq, Eq, Structural)]
pub enum TimerAction {
    /// Leave the loop: the ticker is done.
    Terminate,
    /// Sleep for this many nanoseconds, then step again.
    Sleep(u64),
}

/// The 60Hz ticker's state: the (delay, sound) timer pair and the audio
/// signal derived from the sound timer.
pub struct Timer {
    timers: (u8, u8),
    must_beep: bool,
}

impl Timer {
    /// The (delay, sound) pair.
    pub closed spec fn spec_timers(&self) -> (u8, u8) {
        self.timers
    }

    /// The audio signal.
    pub closed spec fn spec_must_beep(&self) -> bool {
        self.must_beep
    }

    /// A ticker over the given timer pair and audio signal.
    pub fn new(timers: (u8, u8), must_beep: bool) -> (timer: Timer)
        ensures
            timer.spec_timers() == timers,
            timer.spec_must_beep() == must_beep,
    {
        Timer { timers: timers, must_beep: must_beep }
    }

    /// The current (delay, sound) pair.
    pub fn timers(&self) -> (timers: (u8, u8))
        ensures
            timers == self.spec_timers(),
    {
        self.timers
    }

    /// Whether audio should be playing.
    pub fn must_beep(&self) -> (beep: bool)
        ensures
            beep == self.spec_must_beep(),
    {
        self.must_beep
    }

    /// One 60Hz tick: both timers count down towards zero as a unit and the
    /// audio signal follows the sound timer.
    pub fn tick(&mut self)
        ensures
            final(self).spec_timers() == tick_pair(old(self).spec_timers()),
            final(self).spec_must_beep() == tick_beep(
                old(self).spec_timers().1,
                old(self).spec_must_beep(),
            ),
    {
        let (mut delay_timer, mut sound_timer) = self.timers;

        if delay_timer > 0 {
            delay_timer -= 1;
        }
        if sound_timer > 0 {
            sound_timer -= 1;
            if sound_timer != 0 {
                self.must_beep = true;
            } else {
                self.must_beep = false;
            }
        }
        self.timers = (delay_timer, sound_timer);
    }

    /// One pass of the ticker's loop. A stop request, or a vanished sender,
    /// ends the run and leaves the state alone; otherwise the timers tick and
    /// the caller is told to sleep for one period.
    pub fn step(&mut self, signal: StopSignal) -> (action: TimerAction)
        ensures
            signal != StopSignal::Empty ==> action == TimerAction::Terminate
                && final(self).spec_timers() == old(self).spec_timers()
                && final(self).spec_must_beep() == old(self).spec_must_beep(),
            signal == StopSignal::Empty ==> action == TimerAction::Sleep(TICK_PERIOD_NANOS)
                && final(self).spec_timers() == tick_pair(old(self).spec_timers())
                && final(self).spec_must_beep() == tick_beep(
                old(self).spec_timers().1,
                old(self).spec_must_beep(),
            ),
    {
        match signal {
            StopSignal::Received | StopSignal::Disconnected => TimerAction::Terminate,
            StopSignal::Empty => {
                self.tick();
                TimerAction::Sleep(TICK_PERIOD_NANOS)
            },
        }
    }
}

/// Each timer after `n` ticks is its start value less `n`, or zero once
/// `n` has reached the start value.
pub proof fn lemma_ticked_saturates(timers: (u8, u8), n: nat)
    ensures
        ticked(timers, n).0 == (if n >= timers.0 { 0int } else { timers.0 - n }),
        ticked(timers, n).1 == (if n >= timers.1 { 0int } else { timers.1 - n }),
    decreases n,
{
    if n > 0 {
        lemma_ticked_saturates(timers, (n - 1) as nat);
    }
}

/// Timers at (0, 0) stay at (0, 0) however often they tick.
pub proof fn lemma_zero_timers_stay_zero(n: nat)
    ensures
        ticked((0u8, 0u8), n) == (0u8, 0u8),
{
    lemma_ticked_saturates((0u8, 0u8), n);
}

/// The audio signal is up after a tick exactly when the sound timer is
/// still running, provided it was running before the tick.
pub proof fn lemma_beep_follows_sound(timers: (u8, u8), must_beep: bool)
    requires
        timers.1 > 0,
    ensures
        tick_beep(timers.1, must_beep) == (tick_pair(timers).1 > 0),
{
}

} // verus!
