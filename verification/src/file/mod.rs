//! Ferrying files over the stream: what is sent ahead of and after each file,
//! how a received file is accounted for, and when the sending side renews its
//! connection.

pub mod protocol;
pub mod receive;
pub mod send;

use vstd::prelude::*;

verus! {

/// What both file tools are set up with.
pub struct Config {
    /// TCP address of the diode: where one side connects, where the other
    /// listens.
    pub diode: String,
    /// Size of the buffer that file contents go through.
    pub buffer_size: usize,
    /// Whether a hash of the contents is checked.
    pub hash: bool,
}

/// Why a file was not received.
#[derive(Clone, Copy, Debug, PartialEq, Eq, Structural)]
pub enum FileError {
    /// The stream ended before the file did: the length announced, and the
    /// length received.
    InvalidFileSize(usize, usize),
    /// The contents do not hash to what the sender announced: the hash
    /// computed, and the hash announced.
    InvalidHash(u128, u128),
    /// What stands ahead of a file could not be read.
    InvalidHeader,
    /// What stands after a file could not be read.
    InvalidFooter,
}

} // verus!
