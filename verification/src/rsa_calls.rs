use crate::frame::{
    spec_modulus_bits, spec_public_exponent, spec_wrapped_key_len, MAX_KEY_BITS, MIN_KEY_BITS,
};
use rsa::pkcs8::der::zeroize::Zeroize;
use rsa::{PaddingScheme, PublicKey, RsaPrivateKey, RsaPublicKey};
use vstd::prelude::*;

verus! {

/// The serialized public half of a serialized private key, or `None` where
/// the bytes are no private key.
pub uninterp spec fn rsa_public_key_of(private_key: Seq<u8>) -> Option<Seq<u8>>;

/// The message that RSA with PKCS#1 v1.5 padding recovers from `wrapped`
/// under a serialized private key, or `None` where the key or the padding is
/// not in order.
pub uninterp spec fn rsa_pkcs1v15_unwrap(private_key: Seq<u8>, wrapped: Seq<u8>) -> Option<
    Seq<u8>,
>;

/// Whether `private_key` is the serialization of a key pair as the RSA
/// library's generator makes them.
pub uninterp spec fn rsa_generated_key(private_key: Seq<u8>) -> bool;

/// Whether `wrapped` is a wrap of `message` for `public_key`: every
/// generated key pair with this public half unwraps it to `message`.
pub open spec fn wraps(public_key: Seq<u8>, message: Seq<u8>, wrapped: Seq<u8>) -> bool {
    forall|private_key: Seq<u8>|
        #![trigger rsa_pkcs1v15_unwrap(private_key, wrapped)]
        rsa_generated_key(private_key) && rsa_public_key_of(private_key) == Some(public_key)
            ==> rsa_pkcs1v15_unwrap(private_key, wrapped) == Some(message)
}

/// Optional bytes, taken as a sequence.
pub open spec fn seq_of(bytes: Option<Vec<u8>>) -> Option<Seq<u8>> {
    match bytes {
        Some(v) => Some(v@),
        None => None,
    }
}

/// `RsaPrivateKey::new` on the thread's generator, the key then serialized
/// by `bincode::serialize`.
///
/// Trusted: what comes back is a generated key pair. Nothing else is claimed
/// of the bytes; `None` stands for a failure of either call.
#[verifier::external_body]
pub(crate) fn generate_private_key(bits: usize) -> (out: Option<Vec<u8>>)
    requires
        MIN_KEY_BITS <= bits <= MAX_KEY_BITS,
    ensures
        out matches Some(private_key) ==> rsa_generated_key(private_key@),
{
    let key = RsaPrivateKey::new(&mut rand::thread_rng(), bits).ok()?;
    bincode::serialize(&key).ok()
}

/// `RsaPrivateKey::to_public_key` between `bincode::deserialize` and
/// `bincode::serialize`.
///
/// Trusted: the result is the named one, a function of the bytes alone.
#[verifier::external_body]
pub(crate) fn public_key_of(private_key: &[u8]) -> (out: Option<Vec<u8>>)
    ensures
        seq_of(out) == rsa_public_key_of(private_key@),
{
    let key: RsaPrivateKey = bincode::deserialize(private_key).ok()?;
    bincode::serialize(&key.to_public_key()).ok()
}

/// `PublicKey::encrypt` of `RsaPublicKey` with PKCS#1 v1.5 padding from the
/// thread's generator, on the key that `bincode::deserialize` reads.
///
/// Trusted: on a key framed as the precondition asks, reading cannot fail,
/// and the modulus leaves room for the message and its padding; so the call
/// fails exactly on an exponent below 2, which the RSA library refuses. A
/// ciphertext has as many bytes as the modulus, and is a wrap of the
/// message: the RSA library documents that the private half of a generated
/// pair decrypts what its public half encrypted.
#[verifier::external_body]
pub(crate) fn rsa_wrap(public_key: &[u8], message: &[u8; 32]) -> (out: Option<Vec<u8>>)
    requires
        spec_modulus_bits(public_key@) matches Some(bits) && MIN_KEY_BITS <= bits,
    ensures
        out is Some <==> spec_public_exponent(public_key@) >= 2,
        out matches Some(wrapped) ==> {
            &&& wrapped@.len() == spec_wrapped_key_len(spec_modulus_bits(public_key@)->0)
            &&& wraps(public_key@, message@, wrapped@)
        },
{
    let key: RsaPublicKey = bincode::deserialize(public_key).ok()?;
    key.encrypt(&mut rand::thread_rng(), PaddingScheme::new_pkcs1v15_encrypt(), message).ok()
}

/// `RsaPrivateKey::decrypt` with PKCS#1 v1.5 padding, on the key that
/// `bincode::deserialize` reads.
///
/// Trusted: the result is the named one, a function of the two byte strings
/// alone; `None` stands for a failure of either call.
#[verifier::external_body]
pub(crate) fn rsa_unwrap(private_key: &[u8], wrapped: &[u8]) -> (out: Option<Vec<u8>>)
    ensures
        seq_of(out) == rsa_pkcs1v15_unwrap(private_key@, wrapped@),
{
    let key: RsaPrivateKey = bincode::deserialize(private_key).ok()?;
    key.decrypt(PaddingScheme::new_pkcs1v15_encrypt(), wrapped).ok()
}

/// `Zeroize::zeroize` of a byte vector: overwrites the bytes with zeros in a
/// way the compiler keeps, and leaves the vector empty.
#[verifier::external_body]
pub(crate) fn wipe(bytes: &mut Vec<u8>)
    ensures
        final(bytes)@.len() == 0,
{
    bytes.zeroize();
}

} // verus!
