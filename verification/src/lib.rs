//! A hobby x86 kernel's logic: VGA text output, keyboard state and event
//! routing, line editing and command dispatch for the shell, timer
//! arithmetic, and the palette and input handling that run DOOM.
use vstd::prelude::*;

pub mod vga;
pub mod timer;
pub mod doom;
pub mod queue;
pub mod keyboard;
pub mod line;
pub mod shell;
