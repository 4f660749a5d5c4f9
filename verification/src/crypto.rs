//! The RSA steps of the login handshake. The client encrypts a fresh shared
//! secret and the server's verify token under the server's public key; the
//! server decrypts both with its private key.
//!
//! RSA itself is OpenSSL's, and nothing is proved of how it computes. What a
//! decryption gives has a name, `rsa_decrypted`. Encryption pads at random, so
//! of a ciphertext it is only said that it is one of the plaintext under the
//! key, `rsa_encrypted`, and of a key that it was read from its bytes,
//! `public_key_read`. The contracts here say over these names what is done
//! with the backend's answers.

use crate::error::Error;
use crate::packets::{
    EncryptionResponse, EncryptionResponseView, ServerboundPacket, ServerboundPacketView,
};
use openssl::error::ErrorStack;
use openssl::pkey::{Private, Public};
use openssl::rsa::{Padding, Rsa};
use vstd::prelude::*;

verus! {

/// The length of the shared secret, which becomes the key of the stream
/// cipher.
pub const SECRET_LENGTH: usize = 16;

/// The longest input that OpenSSL's RSA functions take.
pub const MAX_RSA_INPUT: usize = 0x7fff_ffff;

/// OpenSSL's `ErrorStack`, the errors that a failed call left behind. It is
/// carried through unread.
#[verifier::external_type_specification]
#[verifier::external_body]
pub struct ExErrorStack(ErrorStack);

/// OpenSSL's marker for a key that has its private components.
#[verifier::external_type_specification]
#[verifier::external_body]
pub struct ExPrivate(Private);

/// OpenSSL's marker for a key that has only its public components.
#[verifier::external_type_specification]
#[verifier::external_body]
pub struct ExPublic(Public);

/// OpenSSL's `Rsa`, an RSA key. It is carried through unread.
#[verifier::external_type_specification]
#[verifier::external_body]
#[verifier::reject_recursive_types(T)]
pub struct ExRsa<T>(Rsa<T>);

/// What RSA decryption with PKCS#1 v1.5 padding makes of `data` under the
/// private key `key`: the plaintext, or nothing where the backend refuses the
/// ciphertext. The plaintext is determined by the key and the ciphertext; how
/// it is computed is the backend's business.
pub uninterp spec fn rsa_decrypted(key: Rsa<Private>, data: Seq<u8>) -> Option<Seq<u8>>;

/// That `cipher` is a ciphertext which RSA encryption with PKCS#1 v1.5 padding
/// has made of `plain` under the public key `key`. The padding is random, so
/// one plaintext has many ciphertexts: this is a relation, and it says of no
/// ciphertext that it must come.
pub uninterp spec fn rsa_encrypted(key: Rsa<Public>, plain: Seq<u8>, cipher: Seq<u8>) -> bool;

/// That `key` is a key which the backend has read from `der`, a DER-encoded
/// SubjectPublicKeyInfo structure.
pub uninterp spec fn public_key_read(der: Seq<u8>, key: Rsa<Public>) -> bool;

/// Whether `der` holds a public key: whether the backend reads one from it.
pub open spec fn is_public_key(der: Seq<u8>) -> bool {
    exists|key: Rsa<Public>| public_key_read(der, key)
}

/// That `cipher` is a ciphertext of `plain` under the public key that `der`
/// holds.
pub open spec fn encrypts(der: Seq<u8>, plain: Seq<u8>, cipher: Seq<u8>) -> bool {
    exists|key: Rsa<Public>| public_key_read(der, key) && rsa_encrypted(key, plain, cipher)
}

/// That `private` is the private key to the public key that `der` holds:
/// whatever was encrypted under the one is decrypted by the other.
pub open spec fn is_key_pair(der: Seq<u8>, private: Rsa<Private>) -> bool {
    forall|plain: Seq<u8>, cipher: Seq<u8>| #[trigger]
        encrypts(der, plain, cipher) ==> rsa_decrypted(private, cipher) == Some(plain)
}

/// The first `count` bytes of `buffer`, or all of it where it has fewer.
pub open spec fn cut(buffer: Seq<u8>, count: nat) -> Seq<u8> {
    if count <= buffer.len() {
        buffer.take(count as int)
    } else {
        buffer
    }
}

/// Calls `RsaRef::private_decrypt` with PKCS#1 v1.5 padding on a buffer of
/// `RsaRef::size` bytes, which is the size that it asks for, and hands back
/// the buffer and the count that it returned. It panics on an input longer
/// than `MAX_RSA_INPUT`. The count says how many bytes of the buffer are the
/// plaintext: the buffer cut to it is what `rsa_decrypted` names, and a
/// refusal is when `rsa_decrypted` has nothing.
#[verifier::external_body]
fn private_decrypt(key: &Rsa<Private>, from: &[u8]) -> (res: Result<(Vec<u8>, usize), ErrorStack>)
    requires
        from@.len() <= MAX_RSA_INPUT,
    ensures
        match res {
            Ok((to, count)) => rsa_decrypted(*key, from@) == Some(cut(to@, count as nat)),
            Err(_) => rsa_decrypted(*key, from@) is None,
        },
{
    let mut to = vec![0u8; key.size() as usize];
    let count = key.private_decrypt(from, &mut to, Padding::PKCS1)?;
    Ok((to, count))
}

/// Calls `RsaRef::public_encrypt` with PKCS#1 v1.5 padding on a buffer of
/// `RsaRef::size` bytes, which is the size that it asks for, and hands back
/// the buffer and the count that it returned. It panics on an input longer
/// than `MAX_RSA_INPUT`. The count says how many bytes of the buffer are the
/// ciphertext: on success the buffer cut to it is a ciphertext of the input
/// under the key, which is what `rsa_encrypted` says. Nothing is claimed of
/// when it succeeds, nor of which ciphertext comes.
#[verifier::external_body]
fn public_encrypt(key: &Rsa<Public>, from: &[u8]) -> (res: Result<(Vec<u8>, usize), ErrorStack>)
    requires
        from@.len() <= MAX_RSA_INPUT,
    ensures
        res matches Ok((to, count)) ==> rsa_encrypted(*key, from@, cut(to@, count as nat)),
{
    let mut to = vec![0u8; key.size() as usize];
    let count = key.public_encrypt(from, &mut to, Padding::PKCS1)?;
    Ok((to, count))
}

/// Calls `Rsa::public_key_from_der`, which reads a DER-encoded
/// SubjectPublicKeyInfo structure. Whether it gives a key depends on the bytes
/// alone: a key that comes was read from them, which is what `public_key_read`
/// says, and where none comes, none is ever read from them. Nothing else is
/// claimed of the key.
#[verifier::external_body]
fn public_key_from_der(der: &[u8]) -> (res: Result<Rsa<Public>, ErrorStack>)
    ensures
        match res {
            Ok(key) => public_key_read(der@, key),
            Err(_) => !is_public_key(der@),
        },
{
    Rsa::public_key_from_der(der)
}

/// Makes the library's result of the backend's answer: the buffer cut to the
/// count that the backend reported, or the backend's error, wrapped and
/// otherwise unchanged.
pub fn from_backend(answer: Result<(Vec<u8>, usize), ErrorStack>) -> (res: Result<Vec<u8>, Error>)
    ensures
        match answer {
            Ok((buffer, count)) => res matches Ok(bytes) && bytes@ == cut(buffer@, count as nat),
            Err(stack) => res matches Err(Error::CryptoError(s)) && s == stack,
        },
{
    match answer {
        Ok((mut buffer, count)) => {
            buffer.truncate(count);
            Ok(buffer)
        },
        Err(stack) => Err(Error::CryptoError(stack)),
    }
}

/// Decrypts `data` with the private key: the plaintext where there is one,
/// and the backend's error where there is none.
pub fn rsa_decrypt(key: &Rsa<Private>, data: &[u8]) -> (res: Result<Vec<u8>, Error>)
    requires
        data@.len() <= MAX_RSA_INPUT,
    ensures
        match rsa_decrypted(*key, data@) {
            Some(plain) => res matches Ok(found) && found@ == plain,
            None => res matches Err(Error::CryptoError(_)),
        },
{
    from_backend(private_decrypt(key, data))
}

/// Encrypts `data` under the public key that `key` holds in DER form. Bytes
/// that hold no such key are refused with the backend's error. Under a key
/// the backend decides: what comes back is a ciphertext that it made of
/// `data`, or its error.
pub fn rsa_encrypt(key: &[u8], data: &[u8]) -> (res: Result<Vec<u8>, Error>)
    requires
        data@.len() <= MAX_RSA_INPUT,
    ensures
        match res {
            Ok(cipher) => encrypts(key@, data@, cipher@),
            Err(e) => e is CryptoError,
        },
        !is_public_key(key@) ==> res is Err,
{
    match public_key_from_der(key) {
        Ok(key) => from_backend(public_encrypt(&key, data)),
        Err(stack) => Err(Error::CryptoError(stack)),
    }
}

/// The answer to an encryption request once both encryptions were tried: the
/// packet that holds the encrypted shared secret and the encrypted verify
/// token, each in its own field, or the error of the second encryption and no
/// packet.
pub fn response_from(shared_secret: Vec<u8>, verify_token: Result<Vec<u8>, Error>) -> (res: Result<
    ServerboundPacket,
    Error,
>)
    ensures
        match verify_token {
            Ok(token) => res matches Ok(packet) && packet@
                == ServerboundPacketView::EncryptionResponse(
                (EncryptionResponseView { shared_secret: shared_secret@, verify_token: token@ }),
            ),
            Err(e) => res matches Err(f) && f == e,
        },
{
    match verify_token {
        Ok(token) => Ok(EncryptionResponse::new(shared_secret, token)),
        Err(e) => Err(e),
    }
}

/// A decrypted shared secret is accepted only if it is exactly 16 bytes long,
/// and is then kept byte for byte.
pub fn shared_secret_from(plain: &[u8]) -> (res: Result<[u8; 16], Error>)
    ensures
        match res {
            Ok(secret) => plain@.len() == SECRET_LENGTH && secret@ == plain@,
            Err(e) => plain@.len() != SECRET_LENGTH && e == Error::InvalidSecretLength,
        },
{
    if plain.len() != SECRET_LENGTH {
        return Err(Error::InvalidSecretLength);
    }
    let mut ret = [0u8; 16];
    let mut i: usize = 0;
    while i < SECRET_LENGTH
        invariant
            i <= SECRET_LENGTH,
            plain@.len() == SECRET_LENGTH,
            ret@.len() == SECRET_LENGTH,
            forall|j: int| 0 <= j < i ==> ret@[j] == plain@[j],
        decreases SECRET_LENGTH - i,
    {
        ret[i] = plain[i];
        i = i + 1;
    }
    assert(ret@ =~= plain@);
    Ok(ret)
}

impl EncryptionResponse {
    /// The shared secret that this packet carries, decrypted with the
    /// server's private key. A plaintext of exactly 16 bytes is the secret,
    /// byte for byte; one of any other length is refused; where there is no
    /// plaintext, the backend's error comes back.
    pub fn get_decrypted_shared_secret(&self, key: &Rsa<Private>) -> (res: Result<[u8; 16], Error>)
        requires
            self.shared_secret@.len() <= MAX_RSA_INPUT,
        ensures
            match rsa_decrypted(*key, self.shared_secret@) {
                Some(plain) => if plain.len() == SECRET_LENGTH {
                    res matches Ok(secret) && secret@ == plain
                } else {
                    res matches Err(Error::InvalidSecretLength)
                },
                None => res matches Err(Error::CryptoError(_)),
            },
    {
        let plain = match rsa_decrypt(key, self.shared_secret.as_slice()) {
            Ok(plain) => plain,
            Err(e) => {
                return Err(e);
            },
        };
        shared_secret_from(plain.as_slice())
    }

    /// The verify token that this packet carries, decrypted with the server's
    /// private key: the plaintext as it is, of any length, or the backend's
    /// error where there is none.
    pub fn get_decrypted_verify_token(&self, key: &Rsa<Private>) -> (res: Result<Vec<u8>, Error>)
        requires
            self.verify_token@.len() <= MAX_RSA_INPUT,
        ensures
            match rsa_decrypted(*key, self.verify_token@) {
                Some(plain) => res matches Ok(token) && token@ == plain,
                None => res matches Err(Error::CryptoError(_)),
            },
    {
        rsa_decrypt(key, self.verify_token.as_slice())
    }

    /// The packet that answers an encryption request: the shared secret and
    /// the verify token, each encrypted on its own under the server's public
    /// key, which is given in DER form, and each ciphertext in its own field.
    /// Bytes that hold no such key are refused; every failure is the backend's
    /// error, and then there is no packet.
    pub fn new_unencrypted(key: &[u8], shared_secret: &[u8], verify_token: &[u8]) -> (res: Result<
        ServerboundPacket,
        Error,
    >)
        requires
            shared_secret@.len() <= MAX_RSA_INPUT,
            verify_token@.len() <= MAX_RSA_INPUT,
        ensures
            match res {
                Ok(packet) => packet@ matches ServerboundPacketView::EncryptionResponse(fields)
                    && encrypts(key@, shared_secret@, fields.shared_secret) && encrypts(
                    key@,
                    verify_token@,
                    fields.verify_token,
                ),
                Err(e) => e is CryptoError,
            },
            !is_public_key(key@) ==> res is Err,
    {
        let ss_encrypted = match rsa_encrypt(key, shared_secret) {
            Ok(cipher) => cipher,
            Err(e) => {
                return Err(e);
            },
        };
        let verify_encrypted = rsa_encrypt(key, verify_token);
        let ghost first = ss_encrypted@;
        let ghost second = verify_encrypted;
        let res = response_from(ss_encrypted, verify_encrypted);
        proof {
            if let Ok(token) = second {
                let got = res->Ok_0@->EncryptionResponse_0;
                assert(got.shared_secret == first && got.verify_token == token@);
            }
        }
        res
    }
}

/// What was packaged comes back: a plaintext that was encrypted under the
/// public key in `der` is what decryption with the private key of the pair
/// gives for the ciphertext. So the shared secret that
/// `EncryptionResponse::new_unencrypted` put into a packet is the one that
/// `EncryptionResponse::get_decrypted_shared_secret` finds there, and not the
/// verify token.
pub proof fn lemma_packaged_comes_back(
    der: Seq<u8>,
    private: Rsa<Private>,
    plain: Seq<u8>,
    cipher: Seq<u8>,
)
    requires
        is_key_pair(der, private),
        encrypts(der, plain, cipher),
    ensures
        rsa_decrypted(private, cipher) == Some(plain),
{
}

} // verus!
