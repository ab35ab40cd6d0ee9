use vstd::prelude::*;

verus! {

/// Everything that can go wrong in a handshake or on a packet.
///
/// Every operation of this crate either succeeds or returns exactly one of
/// these; none of them is ever retried or replaced by a default value.
#[derive(Clone, Copy, Debug, PartialEq, Eq, Structural)]
pub enum StcpError {
    /// The transport failed, closed early, or delivered more than was asked for.
    Io,
    /// No usable RSA key pair could be generated.
    KeyGen,
    /// Received bytes are not a public key of the agreed size.
    Decode,
    /// A value could not be brought into its wire form.
    Encode,
    /// Bytes do not frame exactly one packet.
    MalformedPacket,
    /// A cryptographic primitive refused to encrypt.
    Encrypt,
    /// The wrapped session key could not be recovered.
    Decrypt,
    /// The authentication tag of a packet does not match.
    Authentication,
}

} // verus!
