//! Runtime function interception for a loaded process image.
//!
//! The crate locates code inside a module image by wildcarded byte
//! signatures, turns the hits into addresses, and keeps the books for the
//! detours installed at them. Everything here works on plain values: the
//! caller reads process memory, freezes threads and writes patches, and
//! hands this crate the bytes and takes back what is to be done.

pub mod binder;
pub mod cache;
pub mod console;
pub mod detour;
pub mod discovery;
pub mod game;
pub mod hook_library;
pub mod lookup;
pub mod module;
pub mod pattern;
pub mod scanner;
pub mod threads;
pub mod win32;
