use chip8_vm::chip8::graphics::PANEL_ENTRIES;
use chip8_vm::chip8::graphics::SCREEN_HEIGHT;
use chip8_vm::chip8::graphics::SCREEN_WIDTH;
use chip8_vm::chip8::keypad::EXIT_KEY_VALUE;
use chip8_vm::chip8::keypad::FREQ_DOWN_KEY_VALUE;
use chip8_vm::chip8::keypad::FREQ_UP_KEY_VALUE;
use chip8_vm::chip8::keypad::PAUSE_KEY_VALUE;
use chip8_vm::chip8::timer::TICK_PERIOD_NANOS;
use chip8_vm::chip8::Graphics;
use chip8_vm::chip8::Key;
use chip8_vm::chip8::Keypad;
use chip8_vm::chip8::StopSignal;
use chip8_vm::chip8::Timer;
use chip8_vm::chip8::TimerAction;
use chip8_vm::config::Config;

fn screen(wrapping: bool) -> Graphics {
    Graphics::new(&Config::new("game.ch8".to_string(), wrapping, "font.ttf".to_string()))
}

fn lit(graphics: &Graphics) -> Vec<(usize, usize)> {
    let mut found = Vec::new();
    for y in 0..SCREEN_HEIGHT {
        for x in 0..SCREEN_WIDTH {
            if graphics.get_pos(x, y) != 0 {
                found.push((x, y));
            }
        }
    }
    found
}

#[test]
fn config_hands_back_its_options() {
    let config = Config::new("roms/pong.ch8".to_string(), true, "font.ttf".to_string());
    assert_eq!(config.rom_path(), "roms/pong.ch8");
    assert!(config.wrapping_enabled());
    assert_eq!(config.font_path(), "font.ttf");
    let other = Config::new(String::new(), false, "other.ttf".to_string());
    assert_eq!(other.rom_path(), "");
    assert!(!other.wrapping_enabled());
    assert_eq!(other.font_path(), "other.ttf");
}

#[test]
fn new_screen_is_blank() {
    let graphics = screen(false);
    assert!(lit(&graphics).is_empty());
    assert!(!graphics.wrapping_enabled());
    assert!(screen(true).wrapping_enabled());
    assert_eq!((SCREEN_WIDTH, SCREEN_HEIGHT, PANEL_ENTRIES), (64, 32, 12));
}

#[test]
fn plot_outside_is_dropped_without_wrapping() {
    let mut graphics = screen(false);
    assert_eq!(graphics.set_pos(64, 0, 1), 0);
    assert_eq!(graphics.set_pos(0, 32, 1), 0);
    assert_eq!(graphics.set_pos(1000, 1000, 1), 0);
    assert!(lit(&graphics).is_empty());
}

#[test]
fn plot_outside_wraps_with_wrapping() {
    let mut graphics = screen(true);
    assert_eq!(graphics.set_pos(64, 0, 1), 0);
    assert_eq!(lit(&graphics), vec![(0, 0)]);
    assert_eq!(graphics.set_pos(65, 33, 1), 0);
    assert_eq!(lit(&graphics), vec![(0, 0), (1, 1)]);
    // The same pixel again, from the other side of the border.
    assert_eq!(graphics.set_pos(128, 64, 1), 1);
    assert_eq!(lit(&graphics), vec![(1, 1)]);
}

#[test]
fn plot_reports_only_set_to_clear() {
    let mut graphics = screen(false);
    // clear pixel, bit 0: nothing happens
    assert_eq!(graphics.set_pos(3, 4, 0), 0);
    assert_eq!(graphics.get_pos(3, 4), 0);
    // clear pixel, bit 1: turns on, not reported
    assert_eq!(graphics.set_pos(3, 4, 1), 0);
    assert_eq!(graphics.get_pos(3, 4), 1);
    // set pixel, bit 0: stays on, not reported
    assert_eq!(graphics.set_pos(3, 4, 0), 0);
    assert_eq!(graphics.get_pos(3, 4), 1);
    // set pixel, bit 1: turns off, reported
    assert_eq!(graphics.set_pos(3, 4, 1), 1);
    assert_eq!(graphics.get_pos(3, 4), 0);
    assert!(lit(&graphics).is_empty());
}

#[test]
fn plot_touches_one_pixel() {
    let mut graphics = screen(false);
    graphics.set_pos(63, 31, 1);
    graphics.set_pos(0, 31, 1);
    graphics.set_pos(63, 0, 1);
    assert_eq!(lit(&graphics), vec![(63, 0), (0, 31), (63, 31)]);
}

#[test]
fn clear_screen_turns_everything_off() {
    let mut graphics = screen(true);
    for k in 0..40 {
        graphics.set_pos(k * 3, k, 1);
    }
    assert!(!lit(&graphics).is_empty());
    graphics.clear_screen();
    assert!(lit(&graphics).is_empty());
    assert!(graphics.wrapping_enabled());
}

#[test]
fn stack_panel_shows_latest_call_first() {
    assert_eq!(Graphics::stack_panel(&vec![]), [0usize; 12]);
    assert_eq!(
        Graphics::stack_panel(&vec![0x202, 0x300, 0x456]),
        [0x456, 0x300, 0x202, 0, 0, 0, 0, 0, 0, 0, 0, 0]
    );
    let full: Vec<usize> = (1..=12).collect();
    assert_eq!(Graphics::stack_panel(&full), [12, 11, 10, 9, 8, 7, 6, 5, 4, 3, 2, 1]);
}

#[test]
fn instr_panel_keeps_log_order() {
    assert_eq!(Graphics::instr_panel(&vec![]), [0u16; 12]);
    assert_eq!(
        Graphics::instr_panel(&vec![0x00E0, 0x8014]),
        [0x00E0, 0x8014, 0, 0, 0, 0, 0, 0, 0, 0, 0, 0]
    );
}

#[test]
fn new_keypad_has_no_key_down() {
    let mut keypad = Keypad::new(true, 42);
    assert_eq!(keypad.iter(), &[false; 16]);
    assert!(keypad.paused());
    assert_eq!(keypad.freq_period(), 42);
    for key in 0..16 {
        assert!(!keypad.is_pressed(key));
    }
}

#[test]
fn host_keys_map_to_the_hex_pad() {
    let expected = [
        (Key::Num1, 0x1),
        (Key::Num2, 0x2),
        (Key::Num3, 0x3),
        (Key::Num4, 0xC),
        (Key::Q, 0x4),
        (Key::W, 0x5),
        (Key::E, 0x6),
        (Key::R, 0xD),
        (Key::A, 0x7),
        (Key::S, 0x8),
        (Key::D, 0x9),
        (Key::F, 0xE),
        (Key::Z, 0xA),
        (Key::X, 0x0),
        (Key::C, 0xB),
        (Key::V, 0xF),
        (Key::Escape, EXIT_KEY_VALUE),
        (Key::Space, PAUSE_KEY_VALUE),
        (Key::Down, FREQ_DOWN_KEY_VALUE),
        (Key::Up, FREQ_UP_KEY_VALUE),
    ];
    for (key, value) in expected {
        assert_eq!(Keypad::key_value(key), Some(value));
    }
    assert_eq!(Keypad::key_value(Key::Other), None);
    assert_eq!(
        (EXIT_KEY_VALUE, PAUSE_KEY_VALUE, FREQ_DOWN_KEY_VALUE, FREQ_UP_KEY_VALUE),
        (0xffa, 0xffb, 0xffc, 0xffd)
    );
}

#[test]
fn poll_shows_exactly_the_snapshot() {
    let mut keypad = Keypad::new(false, 1000);
    assert!(!keypad.poll_keyboard(false, &vec![Key::X, Key::V, Key::Other, Key::X]));
    let mut expected = [false; 16];
    expected[0x0] = true;
    expected[0xF] = true;
    assert_eq!(keypad.iter(), &expected);
    assert!(keypad.is_pressed(0));
    assert!(keypad.is_pressed(15));
    assert!(!keypad.is_pressed(1));
    // The next snapshot replaces the last one.
    assert!(!keypad.poll_keyboard(false, &vec![Key::Q]));
    let mut expected = [false; 16];
    expected[0x4] = true;
    assert_eq!(keypad.iter(), &expected);
    assert!(!keypad.poll_keyboard(false, &vec![]));
    assert_eq!(keypad.iter(), &[false; 16]);
}

#[test]
fn is_pressed_out_of_range_is_false() {
    let mut keypad = Keypad::new(false, 1000);
    keypad.poll_keyboard(false, &vec![Key::X, Key::V]);
    assert!(!keypad.is_pressed(16));
    assert!(!keypad.is_pressed(0xffa));
    assert!(!keypad.is_pressed(usize::MAX));
}

#[test]
fn poll_reports_quit() {
    let mut keypad = Keypad::new(false, 1000);
    assert!(keypad.poll_keyboard(true, &vec![]));
    assert!(keypad.poll_keyboard(false, &vec![Key::A, Key::Escape]));
    assert!(keypad.poll_keyboard(true, &vec![Key::Escape]));
    assert!(!keypad.poll_keyboard(false, &vec![Key::A, Key::Space, Key::Up]));
    // The control keys press no pad key.
    assert!(keypad.is_pressed(7));
    assert_eq!(keypad.iter().iter().filter(|down| **down).count(), 1);
}

#[test]
fn pause_key_toggles() {
    let mut keypad = Keypad::new(false, 1000);
    keypad.poll_keyboard(false, &vec![Key::Space]);
    assert!(keypad.paused());
    keypad.poll_keyboard(false, &vec![Key::A]);
    assert!(keypad.paused());
    keypad.poll_keyboard(false, &vec![Key::Space]);
    assert!(!keypad.paused());
    keypad.poll_keyboard(false, &vec![Key::Space, Key::Z, Key::Space]);
    assert!(!keypad.paused());
}

#[test]
fn speed_keys_change_period_and_saturate() {
    let mut keypad = Keypad::new(false, 1820000);
    keypad.poll_keyboard(false, &vec![Key::Down]);
    assert_eq!(keypad.freq_period(), 1821000);
    keypad.poll_keyboard(false, &vec![Key::Up, Key::Up]);
    assert_eq!(keypad.freq_period(), 1819000);

    let mut fast = Keypad::new(false, 1500);
    fast.poll_keyboard(false, &vec![Key::Up]);
    assert_eq!(fast.freq_period(), 500);
    fast.poll_keyboard(false, &vec![Key::Up]);
    assert_eq!(fast.freq_period(), 0);
    // In order: down from 0 to 1000, then up to 0.
    fast.poll_keyboard(false, &vec![Key::Up, Key::Down, Key::Up]);
    assert_eq!(fast.freq_period(), 0);
    fast.poll_keyboard(false, &vec![Key::Up, Key::Up, Key::Down]);
    assert_eq!(fast.freq_period(), 1000);

    let mut slow = Keypad::new(false, u64::MAX - 500);
    slow.poll_keyboard(false, &vec![Key::Down]);
    assert_eq!(slow.freq_period(), u64::MAX);
}

#[test]
fn timers_count_down_to_zero() {
    let mut timer = Timer::new((3, 1), false);
    assert_eq!(timer.timers(), (3, 1));
    assert!(!timer.must_beep());
    timer.tick();
    assert_eq!(timer.timers(), (2, 0));
    timer.tick();
    assert_eq!(timer.timers(), (1, 0));
    timer.tick();
    assert_eq!(timer.timers(), (0, 0));
    timer.tick();
    assert_eq!(timer.timers(), (0, 0));
}

#[test]
fn zero_timers_stay_zero() {
    let mut timer = Timer::new((0, 0), false);
    for _ in 0..1000 {
        timer.tick();
        assert_eq!(timer.timers(), (0, 0));
        assert!(!timer.must_beep());
    }
}

#[test]
fn full_timers_take_255_ticks() {
    let mut timer = Timer::new((255, 255), false);
    for _ in 0..254 {
        timer.tick();
    }
    assert_eq!(timer.timers(), (1, 1));
    assert!(timer.must_beep());
    timer.tick();
    assert_eq!(timer.timers(), (0, 0));
    assert!(!timer.must_beep());
}

#[test]
fn audio_signal_follows_sound_timer() {
    let mut timer = Timer::new((0, 3), false);
    timer.tick();
    assert!(timer.must_beep());
    timer.tick();
    assert!(timer.must_beep());
    timer.tick();
    assert_eq!(timer.timers(), (0, 0));
    assert!(!timer.must_beep());
    // A signal that is up while the sound timer rests is left alone.
    let mut resting = Timer::new((5, 0), true);
    resting.tick();
    assert_eq!(resting.timers(), (4, 0));
    assert!(resting.must_beep());
}

#[test]
fn step_ticks_until_told_to_stop() {
    let mut timer = Timer::new((2, 2), false);
    assert_eq!(timer.step(StopSignal::Empty), TimerAction::Sleep(16666667));
    assert_eq!(TICK_PERIOD_NANOS, 16666667);
    assert_eq!(timer.timers(), (1, 1));
    assert!(timer.must_beep());
    assert_eq!(timer.step(StopSignal::Received), TimerAction::Terminate);
    assert_eq!(timer.timers(), (1, 1));
    assert!(timer.must_beep());
    assert_eq!(timer.step(StopSignal::Disconnected), TimerAction::Terminate);
    assert_eq!(timer.timers(), (1, 1));
}
