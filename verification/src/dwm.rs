//! The desktop window manager: windows with their own pixel buffers, glyph
//! bitmaps, and the compositor that stacks windows onto the screen.

pub mod font;
pub mod manager;
pub mod window;
