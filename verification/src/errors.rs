//! Error kinds shared by the indexing and search subsystems.

use vstd::prelude::*;

verus! {

/// An error raised by the core. Each variant carries a contextual message;
/// `PermissionDenied` additionally records the drive it concerns through
/// its message.
#[derive(Debug)]
pub enum NexusError {
    /// A low-level read or write failed.
    Io(String),
    /// The persistent search index could not be created, opened or written.
    Index(String),
    /// A query could not be compiled or executed.
    Search(String),
    /// A platform volume call failed.
    Windows(String),
    /// A volume or file could not be opened for lack of rights.
    PermissionDenied(String),
    /// A caller-supplied path does not exist or cannot be used.
    InvalidPath(String),
}

impl NexusError {
    /// The contextual message carried by this error.
    pub fn message(&self) -> (m: &String)
        ensures
            m@ == self.message_spec(),
    {
        match self {
            NexusError::Io(s) => s,
            NexusError::Index(s) => s,
            NexusError::Search(s) => s,
            NexusError::Windows(s) => s,
            NexusError::PermissionDenied(s) => s,
            NexusError::InvalidPath(s) => s,
        }
    }

    /// The message of any variant, as a sequence of characters.
    pub open spec fn message_spec(&self) -> Seq<char> {
        match self {
            NexusError::Io(s) => s@,
            NexusError::Index(s) => s@,
            NexusError::Search(s) => s@,
            NexusError::Windows(s) => s@,
            NexusError::PermissionDenied(s) => s@,
            NexusError::InvalidPath(s) => s@,
        }
    }
}

} // verus!
