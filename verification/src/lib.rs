//! CapsLock as a function layer: the verified core of a keyboard remapper.
//!
//! Everything that reads keys, waits, or talks to the operating system lives outside this
//! library. What is here decides: which key events are swallowed, what is typed in their
//! place, when the keyboard hook is considered dead, how an update replaces a running copy.

pub mod engine;
pub mod engine_laws;
pub mod injection;
pub mod injection_laws;
pub mod input;
pub mod input_laws;
pub mod install;
pub mod launch;
pub mod logging;
pub mod runtime;
pub mod text;
pub mod tray;
pub mod update;
pub mod worker;
