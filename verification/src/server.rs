use crate::cipher::{random_session_key, CipherContext, KEY_LEN};
use crate::error::StcpError;
use crate::frame::{
    key_bits_supported, lemma_public_key_len, modulus_bits, public_exponent, public_key_len,
    spec_modulus_bits, spec_public_exponent, spec_public_key_len, spec_wrapped_key_len,
    wrapped_key_len, MAX_KEY_BITS, MIN_KEY_BITS,
};
use crate::rsa_calls::{
    generate_private_key, public_key_of, rsa_generated_key, rsa_pkcs1v15_unwrap,
    rsa_public_key_of, rsa_unwrap, rsa_wrap, wipe, wraps,
};
use vstd::prelude::*;

verus! {

/// Bytes in the serialized private key of a `bits`-bit modulus whose private
/// exponent and primes have their full size: the public key, the exponent
/// behind its word count, and the two primes, each behind its word count,
/// behind their own count.
pub open spec fn spec_private_key_len(bits: nat) -> nat {
    let low = bits / 2;
    let high = (bits - low) as nat;
    spec_public_key_len(bits) + 8 + 4 * ((bits + 31) / 32) + 8 + 8 + 4 * ((low + 31) / 32) + 8 + 4
        * ((high + 31) / 32)
}

/// A 32-bit word count for `bits` bits.
fn words(bits: usize) -> (n: usize)
    ensures
        n == (bits + 31) / 32,
{
    if bits % 32 == 0 {
        bits / 32
    } else {
        bits / 32 + 1
    }
}

/// Bytes in the serialized private key of a `bits`-bit modulus; 1588 for
/// 4096 bits.
pub fn private_key_len(bits: usize) -> (len: usize)
    ensures
        len == spec_private_key_len(bits as nat),
{
    let low = bits / 2;
    let high = bits - low;
    public_key_len(bits) + 8 + 4 * words(bits) + 8 + 8 + 4 * words(low) + 8 + 4 * words(high)
}

/// The lengths that frame the handshake of a 4096-bit key.
pub proof fn lemma_lengths_of_4096_bits()
    ensures
        spec_public_key_len(4096) == 532,
        spec_wrapped_key_len(4096) == 512,
        spec_private_key_len(4096) == 1588,
{
}

/// Whether `public_key` is the serialized public key of a modulus of exactly
/// `bits` bits, and `bits` a size that the key exchange works with.
pub open spec fn is_public_key(bits: nat, public_key: Seq<u8>) -> bool {
    key_bits_supported(bits) && spec_modulus_bits(public_key) == Some(bits)
}

/// Whether a session key can be wrapped for `public_key`: it is a public key
/// of exactly `bits` bits, and its exponent is at least 2, the least that
/// RSA takes.
pub open spec fn is_usable_public_key(bits: nat, public_key: Seq<u8>) -> bool {
    is_public_key(bits, public_key) && spec_public_exponent(public_key) >= 2
}

/// Whether `private_key` is a serialized private key that a listening
/// endpoint of `bits` bits can work with: it has the full length, and its
/// public half is a public key of that size for which a session key can be
/// wrapped.
pub open spec fn is_private_key(bits: nat, private_key: Seq<u8>) -> bool {
    &&& private_key.len() == spec_private_key_len(bits)
    &&& rsa_public_key_of(private_key) matches Some(public_key)
    &&& is_usable_public_key(bits, public_key)
}

/// What the responder makes of the bytes that came in answer to its public
/// key: the session key, `Io` where they are not as many as a wrapped key
/// has, `Decrypt` where no 32-byte key comes out of them.
pub open spec fn unwrapped(bits: nat, private_key: Seq<u8>, wrapped: Seq<u8>) -> Result<
    Seq<u8>,
    StcpError,
> {
    if wrapped.len() != spec_wrapped_key_len(bits) {
        Err(StcpError::Io)
    } else {
        match rsa_pkcs1v15_unwrap(private_key, wrapped) {
            Some(key) if key.len() == KEY_LEN => Ok(key),
            _ => Err(StcpError::Decrypt),
        }
    }
}

/// A context's result, the context taken as its session key.
pub open spec fn key_of(r: Result<CipherContext, StcpError>) -> Result<Seq<u8>, StcpError> {
    match r {
        Ok(ctx) => Ok(ctx@),
        Err(e) => Err(e),
    }
}

/// Whether an exponent was read and is at least 2.
fn at_least_two(exponent: Option<u32>) -> (yes: bool)
    ensures
        yes <==> (exponent matches Some(e) && e >= 2),
{
    match exponent {
        Some(e) => e >= 2,
        None => false,
    }
}

/// The public side of a listening endpoint: the size of its RSA key and the
/// serialized public key that it publishes to every peer.
///
/// The private key is not kept here. `bind` hands it out once, serialized,
/// for the caller to guard; the one step that needs it takes it as an
/// argument.
pub struct StcpServer {
    bits: usize,
    public_key: Vec<u8>,
}

impl StcpServer {
    #[verifier::type_invariant]
    spec fn well_formed(&self) -> bool {
        is_usable_public_key(self.bits as nat, self.public_key@)
    }

    /// The size of the endpoint's modulus, in bits.
    pub closed spec fn spec_bits(&self) -> nat {
        self.bits as nat
    }

    /// The endpoint's serialized public key.
    pub closed spec fn spec_public_key(&self) -> Seq<u8> {
        self.public_key@
    }

    /// The endpoint for a serialized private key: its public half, checked.
    ///
    /// Fails, with `KeyGen`, exactly where `private_key` is not a private
    /// key of full length whose modulus has `bits` bits and whose public
    /// exponent is at least 2, or `bits` is no size that the key exchange
    /// works with.
    pub fn from_private_key(bits: usize, private_key: &[u8]) -> (res: Result<
        StcpServer,
        StcpError,
    >)
        ensures
            res is Ok <==> is_private_key(bits as nat, private_key@),
            res matches Err(e) ==> e == StcpError::KeyGen,
            res matches Ok(server) ==> {
                &&& server.spec_bits() == bits
                &&& rsa_public_key_of(private_key@) == Some(server.spec_public_key())
            },
    {
        if bits < MIN_KEY_BITS || bits > MAX_KEY_BITS || private_key.len() != private_key_len(
            bits,
        ) {
            return Err(StcpError::KeyGen);
        }
        match public_key_of(private_key) {
            Some(public_key) => {
                if modulus_bits(public_key.as_slice()) == Some(bits) && at_least_two(
                    public_exponent(public_key.as_slice()),
                ) {
                    Ok(StcpServer { bits, public_key })
                } else {
                    Err(StcpError::KeyGen)
                }
            },
            None => Err(StcpError::KeyGen),
        }
    }

    /// A listening endpoint with a fresh RSA key of `bits` bits, and its
    /// serialized private key, which the caller is to guard and to hand back
    /// for every key exchange.
    ///
    /// Fails, with `KeyGen`, on a size that the key exchange does not work
    /// with, where no key could be generated, and where the generated key is
    /// not one that `from_private_key` accepts; a key that is given up is
    /// wiped first.
    pub fn bind(bits: usize) -> (res: Result<(StcpServer, Vec<u8>), StcpError>)
        ensures
            !key_bits_supported(bits as nat) ==> res is Err,
            res matches Err(e) ==> e == StcpError::KeyGen,
            res matches Ok((server, private_key)) ==> {
                &&& server.spec_bits() == bits
                &&& rsa_generated_key(private_key@)
                &&& is_private_key(bits as nat, private_key@)
                &&& rsa_public_key_of(private_key@) == Some(server.spec_public_key())
            },
    {
        if bits < MIN_KEY_BITS || bits > MAX_KEY_BITS {
            return Err(StcpError::KeyGen);
        }
        match generate_private_key(bits) {
            Some(private_key) => {
                let mut private_key = private_key;
                match StcpServer::from_private_key(bits, private_key.as_slice()) {
                    Ok(server) => Ok((server, private_key)),
                    Err(e) => {
                        wipe(&mut private_key);
                        Err(e)
                    },
                }
            },
            None => Err(StcpError::KeyGen),
        }
    }

    /// The size of the endpoint's modulus, in bits.
    pub fn bits(&self) -> (bits: usize)
        ensures
            bits == self.spec_bits(),
            key_bits_supported(bits as nat),
    {
        proof {
            use_type_invariant(self);
        }
        self.bits
    }

    /// The serialized public key, as the endpoint sends it to every peer: a
    /// public key of exactly the endpoint's size, and so of the one length
    /// that this size has on the wire, for which every initiator can wrap a
    /// session key.
    pub fn public_key(&self) -> (public_key: &Vec<u8>)
        ensures
            public_key@ == self.spec_public_key(),
            is_usable_public_key(self.spec_bits(), public_key@),
            public_key@.len() == spec_public_key_len(self.spec_bits()),
    {
        proof {
            use_type_invariant(self);
            lemma_public_key_len(self.public_key@);
        }
        &self.public_key
    }

    /// The responder's half of the key exchange, on what the stream
    /// delivered in answer to the public key: unwraps the session key with
    /// the private key and establishes the connection's cipher context.
    ///
    /// Fails with `Io` on bytes that are not as many as a wrapped key has,
    /// and with `Decrypt` wherever they do not unwrap to a 32-byte key.
    pub fn kex_with_stream(&self, private_key: &[u8], wrapped: &[u8]) -> (res: Result<
        CipherContext,
        StcpError,
    >)
        ensures
            key_of(res) == unwrapped(self.spec_bits(), private_key@, wrapped@),
    {
        unwrap_session_key(self.bits, private_key, wrapped)
    }
}

/// Unwraps a session key that was wrapped for a modulus of `bits` bits and
/// establishes the cipher context for it.
///
/// Fails with `Io` on bytes that are not as many as a wrapped key has, and
/// with `Decrypt` wherever they do not unwrap to a 32-byte key. The plain
/// copy of the key that the RSA library returns is wiped before it is given
/// up.
pub fn unwrap_session_key(bits: usize, private_key: &[u8], wrapped: &[u8]) -> (res: Result<
    CipherContext,
    StcpError,
>)
    ensures
        key_of(res) == unwrapped(bits as nat, private_key@, wrapped@),
{
    if wrapped.len() != wrapped_key_len(bits) {
        return Err(StcpError::Io);
    }
    match rsa_unwrap(private_key, wrapped) {
        Some(key) => {
            let mut key = key;
            if key.len() != KEY_LEN {
                wipe(&mut key);
                return Err(StcpError::Decrypt);
            }
            let mut session_key = [0u8; 32];
            let mut i: usize = 0;
            while i < KEY_LEN
                invariant
                    i <= KEY_LEN,
                    key@.len() == KEY_LEN,
                    forall|j: int| 0 <= j < i ==> session_key@[j] == key@[j],
                decreases KEY_LEN - i,
            {
                session_key[i] = key[i];
                i += 1;
            }
            assert(session_key@ =~= key@);
            wipe(&mut key);
            Ok(CipherContext::new(session_key))
        },
        None => Err(StcpError::Decrypt),
    }
}

/// A wrapped key of the wrong length is never unwrapped: the responder
/// answers it with `Io`, whatever the private key.
pub proof fn lemma_truncated_key_rejected(bits: nat, private_key: Seq<u8>, wrapped: Seq<u8>)
    requires
        wrapped.len() != spec_wrapped_key_len(bits),
    ensures
        unwrapped(bits, private_key, wrapped) == Err::<Seq<u8>, StcpError>(StcpError::Io),
{
}

/// Whatever bytes reach the unwrap step, it ends in a 32-byte session key or
/// in one of the errors `Io` and `Decrypt`.
pub proof fn lemma_unwrap_outcomes(bits: nat, private_key: Seq<u8>, wrapped: Seq<u8>)
    ensures
        match unwrapped(bits, private_key, wrapped) {
            Ok(key) => key.len() == KEY_LEN && wrapped.len() == spec_wrapped_key_len(bits),
            Err(e) => e == StcpError::Io || e == StcpError::Decrypt,
        },
{
}

/// The initiator's half of the key exchange with a given session key, on the
/// public key that the stream delivered: checks the key, wraps the session
/// key for it, and establishes the connection's cipher context.
///
/// Succeeds exactly on a public key of exactly `bits` bits whose exponent is
/// at least 2. Fails with `Decode` on what is no public key of that size,
/// and with `Encrypt` on one whose exponent RSA refuses. The bytes to send
/// back are a wrap of the session key for that public key, of the one length
/// that wrapped keys of this size have.
pub fn client_kex_with(bits: usize, public_key: &[u8], session_key: [u8; 32]) -> (res: Result<
    (Vec<u8>, CipherContext),
    StcpError,
>)
    ensures
        res is Ok <==> is_usable_public_key(bits as nat, public_key@),
        res matches Err(e) ==> e == if is_public_key(bits as nat, public_key@) {
            StcpError::Encrypt
        } else {
            StcpError::Decode
        },
        res matches Ok((wrapped, ctx)) ==> {
            &&& ctx@ == session_key@
            &&& wrapped@.len() == spec_wrapped_key_len(bits as nat)
            &&& wraps(public_key@, session_key@, wrapped@)
        },
{
    if bits < MIN_KEY_BITS || bits > MAX_KEY_BITS || modulus_bits(public_key) != Some(bits) {
        return Err(StcpError::Decode);
    }
    match rsa_wrap(public_key, &session_key) {
        Some(wrapped) => Ok((wrapped, CipherContext::new(session_key))),
        None => Err(StcpError::Encrypt),
    }
}

/// The initiator's half of the key exchange, on the public key that the
/// stream delivered: draws a fresh session key and goes on as
/// `client_kex_with` does.
///
/// Succeeds exactly on a public key of exactly `bits` bits whose exponent is
/// at least 2. Fails with `Decode` on what is no public key of that size,
/// and with `Encrypt` on one whose exponent RSA refuses. The bytes to send
/// back are a wrap of the context's session key for that public key, of the
/// one length that wrapped keys of this size have.
pub fn client_kex(bits: usize, public_key: &[u8]) -> (res: Result<
    (Vec<u8>, CipherContext),
    StcpError,
>)
    ensures
        res is Ok <==> is_usable_public_key(bits as nat, public_key@),
        res matches Err(e) ==> e == if is_public_key(bits as nat, public_key@) {
            StcpError::Encrypt
        } else {
            StcpError::Decode
        },
        res matches Ok((wrapped, ctx)) ==> {
            &&& ctx@.len() == KEY_LEN
            &&& wrapped@.len() == spec_wrapped_key_len(bits as nat)
            &&& wraps(public_key@, ctx@, wrapped@)
        },
{
    client_kex_with(bits, public_key, random_session_key())
}

/// Mutual usability: what an initiator sends for a generated key pair's
/// public half, the responder that holds the pair unwraps to the initiator's
/// own session key.
pub proof fn lemma_wrapped_key_unwraps(
    bits: nat,
    private_key: Seq<u8>,
    public_key: Seq<u8>,
    session_key: Seq<u8>,
    wrapped: Seq<u8>,
)
    requires
        rsa_generated_key(private_key),
        rsa_public_key_of(private_key) == Some(public_key),
        wraps(public_key, session_key, wrapped),
        wrapped.len() == spec_wrapped_key_len(bits),
        session_key.len() == KEY_LEN,
    ensures
        unwrapped(bits, private_key, wrapped) == Ok::<Seq<u8>, StcpError>(session_key),
{
}

} // verus!
