//! Core logic of a small desktop tray application: the data carried to and
//! from the system clipboard, and the static content of its about dialog.
//!
//! The native clipboard stores Unicode text as nul-terminated UTF-16 code
//! units and addresses every payload by a numeric format identifier.  This
//! crate holds the verified part of that exchange: the UTF-16 codec, the
//! format-identifier table, and the planning of a write or read as plain
//! data.  The operating-system calls themselves are performed by the
//! surrounding application.

pub mod about;
pub mod clipboard;
pub mod format;
pub mod utf16;
