//! What differs from one operating system to another.
pub mod android;
pub mod apple;
pub mod command_line;
pub mod linux;
pub mod macos;
pub mod reply;
pub mod windows;

use vstd::prelude::*;

verus! {

/// The operating systems that are told apart.
#[derive(Debug, Clone, Copy, PartialEq, Eq, Structural)]
pub enum Platform {
    Linux,
    MacOs,
    Windows,
    Android,
    Ios,
}

} // verus!
