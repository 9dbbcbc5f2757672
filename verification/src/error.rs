//! The failures a node can report.

use vstd::prelude::*;
use vstd::string::*;

verus! {

/// Everything that can go wrong while building, relaying or delivering a packet,
/// or while talking to the directory.
#[derive(Clone, Copy, Debug, PartialEq, Eq, Structural)]
pub enum Error {
    /// A packet is shorter than its header, or its header cannot be split.
    MalformedPacket,
    /// The header did not open under the node's key, or the body failed
    /// authentication.
    DecryptError,
    /// Encrypting a layer failed.
    CryptoError,
    /// The directory holds too few usable relays for the requested path.
    InsufficientNodes,
    /// No directory entry has the requested address.
    UnknownNode,
    /// A directory entry whose fields cannot be decoded.
    BadDirectoryEntry,
    /// A socket could not be opened, read or written.
    TransportError,
    /// The directory could not be reached or answered nonsense.
    DirectoryError,
}

impl Error {
    /// The text shown to the operator for this failure.
    pub open spec fn message_text(self) -> Seq<char> {
        match self {
            Error::MalformedPacket => "malformed packet"@,
            Error::DecryptError => "decryption failed"@,
            Error::CryptoError => "encryption failed"@,
            Error::InsufficientNodes => "not enough nodes"@,
            Error::UnknownNode => "unknown node"@,
            Error::BadDirectoryEntry => "bad directory entry"@,
            Error::TransportError => "transport error"@,
            Error::DirectoryError => "directory error"@,
        }
    }

    /// Renders the failure for the operator.
    pub fn message(&self) -> (text: String)
        ensures
            text@ == self.message_text(),
    {
        match self {
            Error::MalformedPacket => String::from_str("malformed packet"),
            Error::DecryptError => String::from_str("decryption failed"),
            Error::CryptoError => String::from_str("encryption failed"),
            Error::InsufficientNodes => String::from_str("not enough nodes"),
            Error::UnknownNode => String::from_str("unknown node"),
            Error::BadDirectoryEntry => String::from_str("bad directory entry"),
            Error::TransportError => String::from_str("transport error"),
            Error::DirectoryError => String::from_str("directory error"),
        }
    }
}

} // verus!
