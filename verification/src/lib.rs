//! The core of an interactive shell: splitting a line into arguments,
//! classifying the command it names, and deciding what each command does.
//!
//! The library computes on plain values. Reading lines, probing the file
//! system, changing the working directory and running programs are left to
//! the caller, which reports what it found and is told what to do next.
pub mod command;
pub mod text;
pub mod util;
