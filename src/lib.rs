//! A CHIP-8 interpreter: machine state, the fetch-decode-execute cycle and the
//! semantics of every instruction, with each operation proved against a
//! mathematical model of the machine.
pub mod font;
pub mod keymap;
pub mod laws;
pub mod machine;
pub mod model;
pub mod ops;

pub use font::{FONTSET, FONTSET_SIZE};
pub use machine::{Chip8, SoundState};
pub use model::{
    Chip8Error, FONTSET_START_ADDRESS, MEMORY_SIZE, START_ADDRESS, VIDEO_HEIGHT, VIDEO_SIZE,
    VIDEO_WIDTH,
};
