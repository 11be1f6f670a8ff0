//! MeowOS: the screen, widget, window and shell logic of a small UEFI kernel,
//! with its contracts proved by Verus.
//!
//! The frame buffer is modelled as an owned byte buffer laid out exactly as the
//! GOP video memory is (`stride` pixels per scan line, four bytes per pixel);
//! the firmware calls themselves live in the application around this library.
pub mod framebuffer;
pub mod gui;
pub mod window_manager;
pub mod mouse;
pub mod screenshot;
pub mod text_shell;
pub mod text;
pub mod shell;
