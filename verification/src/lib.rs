//! Shared code of the Scry SDK's `cargo scry` wrapper and its board downloader: board profiles,
//! turning an ELF into the image a board loads, and the board loader's serial protocol.

use vstd::prelude::*;

pub mod text;

pub mod board;
pub mod loader;
pub mod image;
pub mod elf;
pub mod cli;
pub mod load;
pub mod scry_core;
pub mod programs;
pub mod builtins;
pub mod order;
pub mod manifest;
