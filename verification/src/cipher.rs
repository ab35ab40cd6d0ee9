use aes_gcm::aead::{Aead, KeyInit, OsRng};
use aes_gcm::{Aes256Gcm, Key, Nonce};
use vstd::prelude::*;

verus! {

/// Bytes in a session key.
pub const KEY_LEN: usize = 32;

/// Bytes in a packet nonce.
pub const NONCE_LEN: usize = 12;

/// Bytes that the authentication tag adds to a plaintext.
pub const TAG_LEN: usize = 16;

/// The longest plaintext that AES-GCM accepts, in bytes.
pub const MAX_PLAINTEXT_LEN: u64 = 0x10_0000_0000;

/// The ciphertext, tag at its end, that AES-256-GCM gives for a plaintext
/// under a key and a nonce and with no associated data.
pub uninterp spec fn aes256_gcm_seal(key: Seq<u8>, nonce: Seq<u8>, plaintext: Seq<u8>) -> Seq<u8>;

/// The plaintext that AES-256-GCM recovers from a ciphertext under a key and a
/// nonce, or `None` where the tag does not verify.
pub uninterp spec fn aes256_gcm_open(key: Seq<u8>, nonce: Seq<u8>, ciphertext: Seq<u8>) -> Option<
    Seq<u8>,
>;

/// Whether a plaintext of `len` bytes can be sealed: it must not exceed the
/// cipher's limit, and its ciphertext must still fit a buffer.
pub open spec fn sealable(len: nat) -> bool {
    len <= MAX_PLAINTEXT_LEN && len + TAG_LEN <= usize::MAX
}

/// Whether two ciphertexts of one length are the same up to their tags and
/// differ in them.
pub open spec fn differ_in_tag(a: Seq<u8>, b: Seq<u8>) -> bool {
    &&& a.len() == b.len()
    &&& a.len() >= TAG_LEN
    &&& a.subrange(0, a.len() - TAG_LEN) == b.subrange(0, b.len() - TAG_LEN)
    &&& a != b
}

/// Whether the tag of `ciphertext` is the only one that its body opens
/// with under `key` and `nonce`: every ciphertext that differs from it in
/// the tag alone is refused.
pub open spec fn tag_is_checked(key: Seq<u8>, nonce: Seq<u8>, ciphertext: Seq<u8>) -> bool {
    forall|other: Seq<u8>|
        #![trigger aes256_gcm_open(key, nonce, other)]
        differ_in_tag(ciphertext, other) ==> aes256_gcm_open(key, nonce, other) is None
}

/// Every plaintext of up to 65536 bytes can be sealed.
pub proof fn lemma_short_plaintext_sealable(len: nat)
    requires
        len <= 65536,
    ensures
        sealable(len),
{
}

/// `Aead::encrypt` of `Aes256Gcm`, on a cipher freshly keyed with `key`.
///
/// Trusted: the call succeeds exactly when the plaintext is within the
/// cipher's limit; what it returns is the named ciphertext, sixteen bytes
/// longer than the plaintext, and decrypting it under the same key and nonce
/// gives the plaintext back; decryption compares the whole tag with the one
/// that it computes from key, nonce and body, so no other tag opens. The
/// call allocates the ciphertext before it looks at the length, so the
/// precondition keeps that size in range.
#[verifier::external_body]
pub(crate) fn gcm_encrypt(key: &[u8; 32], nonce: &[u8; 12], plaintext: &[u8]) -> (out: Option<
    Vec<u8>,
>)
    requires
        plaintext@.len() + TAG_LEN <= usize::MAX,
    ensures
        out is Some <==> plaintext@.len() <= MAX_PLAINTEXT_LEN,
        out matches Some(c) ==> {
            &&& c@ == aes256_gcm_seal(key@, nonce@, plaintext@)
            &&& c@.len() == plaintext@.len() + TAG_LEN
            &&& aes256_gcm_open(key@, nonce@, c@) == Some(plaintext@)
            &&& tag_is_checked(key@, nonce@, c@)
        },
{
    let cipher = Aes256Gcm::new(Key::<Aes256Gcm>::from_slice(key));
    cipher.encrypt(Nonce::from_slice(nonce), plaintext).ok()
}

/// `Aead::decrypt` of `Aes256Gcm`, on a cipher freshly keyed with `key`.
///
/// Trusted: the result is the named one; a plaintext comes back only from a
/// ciphertext that holds a tag, and is sixteen bytes shorter than it. The
/// whole tag is compared with the one that the call computes from key, nonce
/// and body, so where it opens, no other tag does.
#[verifier::external_body]
pub(crate) fn gcm_decrypt(key: &[u8; 32], nonce: &[u8; 12], ciphertext: &[u8]) -> (out: Option<
    Vec<u8>,
>)
    ensures
        out matches Some(p) ==> {
            &&& aes256_gcm_open(key@, nonce@, ciphertext@) == Some(p@)
            &&& p@.len() + TAG_LEN == ciphertext@.len()
            &&& tag_is_checked(key@, nonce@, ciphertext@)
        },
        out is None ==> aes256_gcm_open(key@, nonce@, ciphertext@) is None,
{
    let cipher = Aes256Gcm::new(Key::<Aes256Gcm>::from_slice(key));
    cipher.decrypt(Nonce::from_slice(nonce), ciphertext).ok()
}

/// `rand::random` for twelve bytes: a fresh nonce from the thread's generator.
///
/// Nothing is claimed of the bytes.
#[verifier::external_body]
pub(crate) fn random_nonce() -> (nonce: [u8; 12]) {
    rand::random::<[u8; 12]>()
}

/// `KeyInit::generate_key` of `Aes256Gcm` on the operating system's
/// generator: a fresh session key.
///
/// Nothing is claimed of the bytes.
#[verifier::external_body]
pub(crate) fn random_session_key() -> (key: [u8; 32]) {
    Aes256Gcm::generate_key(&mut OsRng).into()
}

/// The symmetric state of one connection: its 256-bit session key.
///
/// A context is made by a finished handshake and serves every packet of that
/// connection, in both directions.
pub struct CipherContext {
    key: [u8; 32],
}

impl View for CipherContext {
    type V = Seq<u8>;

    /// The session key.
    closed spec fn view(&self) -> Seq<u8> {
        self.key@
    }
}

impl CipherContext {
    /// A context for the given session key.
    pub fn new(key: [u8; 32]) -> (ctx: CipherContext)
        ensures
            ctx@ == key@,
    {
        CipherContext { key }
    }

    /// A context for a session key of 32 bytes drawn from the operating
    /// system's generator. Which bytes they are is left to the generator.
    pub fn generate() -> (ctx: CipherContext)
        ensures
            ctx@.len() == KEY_LEN,
    {
        CipherContext::new(random_session_key())
    }

    /// The session key.
    pub fn key(&self) -> (key: &[u8; 32])
        ensures
            key@ == self@,
    {
        &self.key
    }

    /// Every context holds exactly 32 key bytes.
    pub proof fn lemma_key_len(&self)
        ensures
            self@.len() == KEY_LEN,
    {
    }
}

} // verus!
