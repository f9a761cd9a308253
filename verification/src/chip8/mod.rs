pub mod cpu;
pub mod graphics;
pub mod keypad;
pub mod laws;
pub mod timer;

pub use cpu::Cpu;
pub use cpu::CpuState;
pub use cpu::NextPCValue;
pub use graphics::Graphics;
pub use keypad::Key;
pub use keypad::Keypad;
pub use timer::StopSignal;
pub use timer::Timer;
pub use timer::TimerAction;
