//! Userspace-side message values: what a process holds of a message it is
//! about to send or has just received.  The register transport that moves a
//! message lives outside the library.

use vstd::prelude::*;

verus! {

/// A message as userspace sees it: the kernel-assigned identifier (zero for
/// one not yet sent), the peer process, and a borrowed payload living for
/// the program's whole run.
#[derive(Debug, Clone, Copy)]
pub struct Message {
    pub id: u64,
    pub pid: u64,
    pub data: &'static [u8],
}

impl Message {
    /// Builds a message value field by field.
    pub fn new(id: u64, pid: u64, data: &'static [u8]) -> (r: Message)
        ensures
            r.id == id,
            r.pid == pid,
            r.data@ == data@,
    {
        Message { id, pid, data }
    }
}

/// A message the kernel itself sends a driver process.
#[derive(Debug, Clone, Copy, PartialEq, Eq, Structural)]
pub enum KernelMessage {
    IRQFired(u8),
}

} // verus!
