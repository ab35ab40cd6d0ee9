use crate::cipher::{
    aes256_gcm_open, aes256_gcm_seal, differ_in_tag, gcm_decrypt, gcm_encrypt, random_nonce,
    sealable, CipherContext, NONCE_LEN, TAG_LEN,
};
use crate::error::StcpError;
use vstd::bytes::{
    lemma_auto_spec_u64_to_from_le_bytes, spec_u64_from_le_bytes, spec_u64_to_le_bytes,
    u64_from_le_bytes, u64_to_le_bytes,
};
use vstd::prelude::*;
use vstd::slice::{slice_subrange, slice_to_vec};

verus! {

/// Bytes of an encoded packet that come before its ciphertext: the nonce and
/// the eight bytes of the ciphertext's length.
pub const HEADER_LEN: usize = 20;

/// What a packet is: a nonce and the ciphertext sealed under it.
pub ghost struct PacketView {
    pub nonce: Seq<u8>,
    pub ciphertext: Seq<u8>,
}

/// One authenticated record: a nonce and the ciphertext sealed under it, the
/// tag at the ciphertext's end.
pub struct AesPacket {
    nonce: [u8; 12],
    ciphertext: Vec<u8>,
}

impl View for AesPacket {
    type V = PacketView;

    closed spec fn view(&self) -> PacketView {
        PacketView { nonce: self.nonce@, ciphertext: self.ciphertext@ }
    }
}

/// The wire form of a packet: the nonce, the length of the ciphertext as
/// eight bytes, least significant first, then the ciphertext.
pub open spec fn encoding(p: PacketView) -> Seq<u8> {
    p.nonce + spec_u64_to_le_bytes(p.ciphertext.len() as u64) + p.ciphertext
}

/// Whether a packet has a wire form at all: a twelve-byte nonce, and a
/// ciphertext short enough for the whole to fit a buffer.
pub open spec fn encodable(p: PacketView) -> bool {
    p.nonce.len() == NONCE_LEN && HEADER_LEN + p.ciphertext.len() <= usize::MAX
}

/// The packet that `bytes` frame, if they frame exactly one: a header whose
/// length field counts exactly the bytes that follow it.
pub open spec fn decoding(bytes: Seq<u8>) -> Option<PacketView> {
    if bytes.len() >= HEADER_LEN && spec_u64_from_le_bytes(
        bytes.subrange(NONCE_LEN as int, HEADER_LEN as int),
    ) == bytes.len() - HEADER_LEN {
        Some(
            PacketView {
                nonce: bytes.subrange(0, NONCE_LEN as int),
                ciphertext: bytes.subrange(HEADER_LEN as int, bytes.len() as int),
            },
        )
    } else {
        None
    }
}

/// Decoding undoes encoding: the wire form of a packet frames that packet.
pub proof fn lemma_decoding_of_encoding(p: PacketView)
    requires
        encodable(p),
    ensures
        decoding(encoding(p)) == Some(p),
{
    lemma_auto_spec_u64_to_from_le_bytes();
    let len = spec_u64_to_le_bytes(p.ciphertext.len() as u64);
    let bytes = encoding(p);
    assert(bytes.subrange(NONCE_LEN as int, HEADER_LEN as int) =~= len);
    assert(bytes.subrange(0, NONCE_LEN as int) =~= p.nonce);
    assert(bytes.subrange(HEADER_LEN as int, bytes.len() as int) =~= p.ciphertext);
}

/// Encoding undoes decoding: bytes that frame a packet are its wire form, so
/// no two byte strings frame the same packet.
pub proof fn lemma_encoding_of_decoding(bytes: Seq<u8>)
    requires
        decoding(bytes) is Some,
    ensures
        encoding(decoding(bytes)->0) == bytes,
{
    lemma_auto_spec_u64_to_from_le_bytes();
    let p = decoding(bytes)->0;
    let field = bytes.subrange(NONCE_LEN as int, HEADER_LEN as int);
    assert(spec_u64_to_le_bytes(spec_u64_from_le_bytes(field)) == field);
    assert(encoding(p) =~= bytes);
}

/// The packet that sealing `plaintext` under `key` and `nonce` gives.
pub open spec fn sealed(key: Seq<u8>, nonce: Seq<u8>, plaintext: Seq<u8>) -> PacketView {
    PacketView { nonce, ciphertext: aes256_gcm_seal(key, nonce, plaintext) }
}

/// What opening a packet under `key` gives: the plaintext, or an
/// authentication failure where the tag does not verify.
pub open spec fn opened(key: Seq<u8>, p: PacketView) -> Result<Seq<u8>, StcpError> {
    match aes256_gcm_open(key, p.nonce, p.ciphertext) {
        Some(plaintext) => Ok(plaintext),
        None => Err(StcpError::Authentication),
    }
}

/// Tamper detection on the tag: whether every packet that differs from `p`
/// in the bytes of its tag alone fails to authenticate under `key`.
pub open spec fn tag_guards(key: Seq<u8>, p: PacketView) -> bool {
    forall|q: PacketView|
        #![trigger opened(key, q)]
        q.nonce == p.nonce && differ_in_tag(p.ciphertext, q.ciphertext) ==> opened(key, q) == Err::<
            Seq<u8>,
            StcpError,
        >(StcpError::Authentication)
}

/// A result of bytes, the bytes taken as a sequence.
pub open spec fn bytes_of(r: Result<Vec<u8>, StcpError>) -> Result<Seq<u8>, StcpError> {
    match r {
        Ok(v) => Ok(v@),
        Err(e) => Err(e),
    }
}

impl AesPacket {
    /// The packet of a nonce and a ciphertext.
    pub fn from_parts(nonce: [u8; 12], ciphertext: Vec<u8>) -> (p: AesPacket)
        ensures
            p@ == (PacketView { nonce: nonce@, ciphertext: ciphertext@ }),
    {
        AesPacket { nonce, ciphertext }
    }

    /// The packet's nonce.
    pub fn nonce(&self) -> (nonce: &[u8; 12])
        ensures
            nonce@ == self@.nonce,
    {
        &self.nonce
    }

    /// The packet's ciphertext, the tag at its end.
    pub fn ciphertext(&self) -> (ciphertext: &Vec<u8>)
        ensures
            ciphertext@ == self@.ciphertext,
    {
        &self.ciphertext
    }

    /// Seals `data` under the context's key and the given nonce.
    ///
    /// Fails, with `Encrypt`, exactly on data that is too long to seal.
    /// The packet that comes back opens, under the same context, to `data`.
    pub fn encrypt_with_nonce(cipher: &CipherContext, nonce: [u8; 12], data: Vec<u8>) -> (res:
        Result<AesPacket, StcpError>)
        ensures
            res is Ok <==> sealable(data@.len()),
            res matches Err(e) ==> e == StcpError::Encrypt,
            res matches Ok(p) ==> {
                &&& p@ == sealed(cipher@, nonce@, data@)
                &&& p@.ciphertext.len() == data@.len() + TAG_LEN
                &&& opened(cipher@, p@) == Ok::<Seq<u8>, StcpError>(data@)
                &&& tag_guards(cipher@, p@)
            },
    {
        if data.len() > usize::MAX - TAG_LEN {
            return Err(StcpError::Encrypt);
        }
        match gcm_encrypt(cipher.key(), &nonce, data.as_slice()) {
            Some(ciphertext) => Ok(AesPacket { nonce, ciphertext }),
            None => Err(StcpError::Encrypt),
        }
    }

    /// Seals `data` under the context's key and a nonce drawn afresh for this
    /// packet.
    ///
    /// Fails, with `Encrypt`, exactly on data that is too long to seal.
    /// The packet that comes back opens, under the same context, to `data`.
    pub fn encrypt(cipher: &CipherContext, data: Vec<u8>) -> (res: Result<AesPacket, StcpError>)
        ensures
            res is Ok <==> sealable(data@.len()),
            res matches Err(e) ==> e == StcpError::Encrypt,
            res matches Ok(p) ==> {
                &&& p@ == sealed(cipher@, p@.nonce, data@)
                &&& p@.nonce.len() == NONCE_LEN
                &&& p@.ciphertext.len() == data@.len() + TAG_LEN
                &&& opened(cipher@, p@) == Ok::<Seq<u8>, StcpError>(data@)
                &&& tag_guards(cipher@, p@)
            },
    {
        AesPacket::encrypt_with_nonce(cipher, random_nonce(), data)
    }

    /// Opens the packet under the context's key.
    ///
    /// Gives the plaintext where the tag verifies, and `Authentication`
    /// wherever it does not. Where the packet opens, none that differs from
    /// it in the tag alone does.
    pub fn decrypt(&self, cipher: &CipherContext) -> (res: Result<Vec<u8>, StcpError>)
        ensures
            bytes_of(res) == opened(cipher@, self@),
            res matches Ok(plaintext) ==> plaintext@.len() + TAG_LEN == self@.ciphertext.len(),
            res is Ok ==> tag_guards(cipher@, self@),
    {
        match gcm_decrypt(cipher.key(), &self.nonce, self.ciphertext.as_slice()) {
            Some(plaintext) => Ok(plaintext),
            None => Err(StcpError::Authentication),
        }
    }

    /// The wire form of the packet.
    ///
    /// Fails, with `Encode`, exactly where the wire form would not fit a
    /// buffer.
    pub fn encode(&self) -> (res: Result<Vec<u8>, StcpError>)
        ensures
            res is Ok <==> encodable(self@),
            res matches Ok(bytes) ==> bytes@ == encoding(self@),
            res matches Err(e) ==> e == StcpError::Encode,
    {
        if self.ciphertext.len() > usize::MAX - HEADER_LEN {
            return Err(StcpError::Encode);
        }
        let mut out = slice_to_vec(self.nonce.as_slice());
        let mut len = u64_to_le_bytes(self.ciphertext.len() as u64);
        let mut body = slice_to_vec(self.ciphertext.as_slice());
        out.append(&mut len);
        out.append(&mut body);
        Ok(out)
    }

    /// Seals `data` as `encrypt` does and gives the packet's wire form.
    ///
    /// Fails with `Encrypt` on data too long to seal, and with `Encode` on
    /// data whose packet would not fit a buffer. The bytes that come back
    /// frame a packet that opens, under the same context, to `data`.
    pub fn encrypt_to_bytes(cipher: &CipherContext, data: Vec<u8>) -> (res: Result<
        Vec<u8>,
        StcpError,
    >)
        ensures
            res is Ok <==> sealable(data@.len()) && HEADER_LEN + TAG_LEN + data@.len()
                <= usize::MAX,
            res matches Err(e) ==> e == if sealable(data@.len()) {
                StcpError::Encode
            } else {
                StcpError::Encrypt
            },
            res matches Ok(bytes) ==> {
                &&& bytes@.len() == HEADER_LEN + TAG_LEN + data@.len()
                &&& decoding(bytes@) matches Some(p)
                &&& p == sealed(cipher@, p.nonce, data@)
                &&& opened(cipher@, p) == Ok::<Seq<u8>, StcpError>(data@)
            },
    {
        let packet = AesPacket::encrypt(cipher, data)?;
        proof {
            lemma_auto_spec_u64_to_from_le_bytes();
            if encodable(packet@) {
                lemma_decoding_of_encoding(packet@);
            }
        }
        packet.encode()
    }

    /// Decodes `bytes` as `decode` does and opens the packet.
    ///
    /// Fails with `MalformedPacket` on bytes that frame no packet, and with
    /// `Authentication` on a packet whose tag does not verify.
    pub fn decrypt_from_bytes(cipher: &CipherContext, bytes: &[u8]) -> (res: Result<
        Vec<u8>,
        StcpError,
    >)
        ensures
            bytes_of(res) == match decoding(bytes@) {
                Some(p) => opened(cipher@, p),
                None => Err(StcpError::MalformedPacket),
            },
    {
        let packet = AesPacket::decode(bytes)?;
        packet.decrypt(cipher)
    }

    /// The packet that `bytes` frame.
    ///
    /// Fails, with `MalformedPacket`, on anything but the exact wire form of
    /// one packet: too few bytes for a header, or a length field that does
    /// not count exactly the bytes after it.
    pub fn decode(bytes: &[u8]) -> (res: Result<AesPacket, StcpError>)
        ensures
            match decoding(bytes@) {
                Some(p) => res is Ok && res->Ok_0@ == p,
                None => res == Err::<AesPacket, StcpError>(StcpError::MalformedPacket),
            },
    {
        if bytes.len() < HEADER_LEN {
            return Err(StcpError::MalformedPacket);
        }
        let declared = u64_from_le_bytes(slice_subrange(bytes, NONCE_LEN, HEADER_LEN));
        if declared != (bytes.len() - HEADER_LEN) as u64 {
            return Err(StcpError::MalformedPacket);
        }
        let mut nonce = [0u8; 12];
        let mut i: usize = 0;
        while i < NONCE_LEN
            invariant
                i <= NONCE_LEN,
                bytes@.len() >= HEADER_LEN,
                forall|j: int| 0 <= j < i ==> nonce@[j] == bytes@[j],
            decreases NONCE_LEN - i,
        {
            nonce[i] = bytes[i];
            i += 1;
        }
        let ciphertext = slice_to_vec(slice_subrange(bytes, HEADER_LEN, bytes.len()));
        assert(nonce@ =~= bytes@.subrange(0, NONCE_LEN as int));
        Ok(AesPacket { nonce, ciphertext })
    }
}


} // verus!
