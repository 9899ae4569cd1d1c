//! Verified core of a small x86_64 hobby kernel: descriptor tables, page-table
//! walking decisions, the boot console and draw queue, and the window compositor.

pub mod arch;
pub mod grid;
pub mod dwm;
pub mod vga;
pub mod text;
pub mod draw;
pub mod memory;
pub mod pci;
pub mod xhci;
