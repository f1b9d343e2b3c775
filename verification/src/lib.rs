//! Control logic of a keyboard-driven remote control: keystrokes become
//! movement commands, commands become single-byte datagrams, and the
//! current command is drawn back to the operator.
//!
//! The crate holds the decisions only. Reading the keyboard, owning the
//! sockets and writing to the terminal are left to the program around it,
//! which feeds bytes in and carries datagrams and frames out.

pub mod control;
pub mod decoder;
pub mod direction;
pub mod keys;
pub mod link;
pub mod receiver;
pub mod screen;
mod text;

pub use crate::direction::MoveDirection;
pub use crate::keys::{Command, KeyEvent};
