//! A CHIP-8 virtual machine: a verified fetch-decode-execute engine over a
//! 4 KiB memory with a memory-mapped monochrome framebuffer.
pub mod display;
pub mod font;
pub mod instruction;
pub mod laws;
pub mod machine;
pub mod program;
mod rng;
pub mod sprite;
