//! Verified core of an 8-bit virtual machine: memory, registers, timers,
//! keypad, display compositor and the fetch/decode/execute engine.

pub mod error;
pub mod laws;
pub mod state;
pub mod step;
pub mod compositor;
pub mod rng;
pub mod cpu;

pub use cpu::Emu;
pub use error::EmuError;
pub use state::SCREEN_HEIGHT;
pub use state::SCREEN_WIDTH;
