//! Ed25519 keys, signatures and their verification.

use crate::error::{AuthenticityFault, Error, Failure};
use vstd::prelude::*;
use vstd::slice::slice_to_vec;

verus! {

/// Whether `signature` is an Ed25519 signature of `message` that verifies under
/// `public_key`.
pub uninterp spec fn signature_valid(
    public_key: Seq<u8>,
    message: Seq<u8>,
    signature: Seq<u8>,
) -> bool;

/// The public key of the Ed25519 key pair that `document` holds, where
/// `document` is a PKCS#8 document that is accepted as such a pair.
pub uninterp spec fn pkcs8_public_key(document: Seq<u8>) -> Option<Seq<u8>>;

/// `ring::signature::Ed25519KeyPair`, carried through unread.
#[verifier::external_type_specification]
#[verifier::external_body]
pub struct ExEd25519KeyPair(ring::signature::Ed25519KeyPair);

/// `ring::error::Unspecified`, told apart from success only.
#[verifier::external_type_specification]
#[verifier::external_body]
pub struct ExUnspecified(ring::error::Unspecified);

/// `ring::error::KeyRejected`, told apart from success only.
#[verifier::external_type_specification]
#[verifier::external_body]
pub struct ExKeyRejected(ring::error::KeyRejected);

/// An Ed25519 key pair, with the bytes of its public key beside it. A pair is
/// only ever made from a PKCS#8 document, which keeps the two together.
pub struct KeyPair {
    public: Vec<u8>,
    pair: ring::signature::Ed25519KeyPair,
}

/// The bytes of an Ed25519 public key, not yet checked in any way.
#[derive(Clone, Debug)]
pub struct PublicKey {
    pub bytes: Vec<u8>,
}

impl View for PublicKey {
    type V = Seq<u8>;

    open spec fn view(&self) -> Seq<u8> {
        self.bytes@
    }
}

/// `Ed25519KeyPair::generate_pkcs8` with the system's random source: a fresh
/// key pair as a PKCS#8 document. Nothing is claimed of the bytes.
#[verifier::external_body]
fn ring_generate_pkcs8() -> Result<Vec<u8>, ring::error::Unspecified> {
    let rng = ring::rand::SystemRandom::new();
    match ring::signature::Ed25519KeyPair::generate_pkcs8(&rng) {
        Ok(document) => Ok(document.as_ref().to_vec()),
        Err(e) => Err(e),
    }
}

/// `Ed25519KeyPair::from_pkcs8`: the key pair that a PKCS#8 document holds,
/// together with a copy of the bytes of its public key, of which there are 32.
/// Which documents are accepted, and with which key, depends on the document
/// alone.
#[verifier::external_body]
fn ring_from_pkcs8(document: &[u8]) -> (parsed: Result<KeyPair, ring::error::KeyRejected>)
    ensures
        match parsed {
            Ok(keypair) => {
                &&& pkcs8_public_key(document@) == Some(keypair.public@)
                &&& keypair.public@.len() == 32
            },
            Err(_) => pkcs8_public_key(document@) is None,
        },
{
    match ring::signature::Ed25519KeyPair::from_pkcs8(document) {
        Ok(pair) => Ok(
            KeyPair { public: ring::signature::KeyPair::public_key(&pair).as_ref().to_vec(), pair },
        ),
        Err(e) => Err(e),
    }
}

/// `Ed25519KeyPair::sign`: the signature that the pair makes of `message`
/// verifies under the pair's own public key.
#[verifier::external_body]
fn ring_sign(keypair: &KeyPair, message: &[u8]) -> (signature: Vec<u8>)
    ensures
        signature_valid(keypair.public@, message@, signature@),
{
    keypair.pair.sign(message).as_ref().to_vec()
}

/// `UnparsedPublicKey::verify` for Ed25519: parses the key and checks the
/// signature, and so decides [`signature_valid`].
#[verifier::external_body]
fn ring_verify(public_key: &[u8], message: &[u8], signature: &[u8]) -> (checked: Result<
    (),
    ring::error::Unspecified,
>)
    ensures
        checked is Ok <==> signature_valid(public_key@, message@, signature@),
{
    ring::signature::UnparsedPublicKey::new(&ring::signature::ED25519, public_key).verify(
        message,
        signature,
    )
}

impl KeyPair {
    /// The bytes of the public key of this pair.
    pub closed spec fn public_key(&self) -> Seq<u8> {
        self.public@
    }

    /// Reads a key pair from a PKCS#8 document; [`Error::Crypto`] where the
    /// document is refused.
    pub fn from_pkcs8(document: &[u8]) -> (parsed: Result<KeyPair, Error>)
        ensures
            match parsed {
                Ok(keypair) => {
                    &&& pkcs8_public_key(document@) == Some(keypair.public_key())
                    &&& keypair.public_key().len() == 32
                },
                Err(e) => pkcs8_public_key(document@) is None && e@ == Failure::Crypto,
            },
    {
        match ring_from_pkcs8(document) {
            Ok(keypair) => Ok(keypair),
            Err(_) => Err(Error::Crypto),
        }
    }

    /// The key pair in what the generator gave: the pair that the document
    /// holds where there is a document and it is accepted, and
    /// [`Error::Crypto`] where the generator failed or its document is
    /// refused.
    pub fn from_generated(outcome: Result<Vec<u8>, ring::error::Unspecified>) -> (made: Result<
        KeyPair,
        Error,
    >)
        ensures
            match made {
                Ok(keypair) => {
                    &&& outcome matches Ok(document)
                    &&& pkcs8_public_key(document@) == Some(keypair.public_key())
                    &&& keypair.public_key().len() == 32
                },
                Err(e) => {
                    &&& e@ == Failure::Crypto
                    &&& outcome matches Ok(document) ==> pkcs8_public_key(document@) is None
                },
            },
    {
        match outcome {
            Ok(document) => KeyPair::from_pkcs8(document.as_slice()),
            Err(_) => Err(Error::Crypto),
        }
    }

    /// Signs `message`. The signature verifies under the public key of this
    /// pair.
    pub fn sign(&self, message: &[u8]) -> (signature: Vec<u8>)
        ensures
            signature_valid(self.public_key(), message@, signature@),
    {
        ring_sign(self, message)
    }
}

impl PublicKey {
    /// Checks that `signature` is a signature of `message` under this key.
    /// Whatever is wrong, a malformed key or signature included, the answer
    /// is the same [`Error::Authenticity`].
    pub fn verify(&self, message: &[u8], signature: &[u8]) -> (checked: Result<(), Error>)
        ensures
            checked is Ok <==> signature_valid(self@, message@, signature@),
            checked matches Err(e) ==> e@ == Failure::Authenticity(AuthenticityFault::Invalid),
    {
        match ring_verify(self.bytes.as_slice(), message, signature) {
            Ok(()) => Ok(()),
            Err(_) => Err(Error::Authenticity(AuthenticityFault::Invalid)),
        }
    }
}

/// A fresh key pair from the system's random source: the pair held by the
/// PKCS#8 document that the source gave, with a public key of 32 bytes.
/// [`Error::Crypto`] where the source fails or its document is refused; which
/// of these happens is for the source to decide.
pub fn generate_keypair() -> (generated: Result<KeyPair, Error>)
    ensures
        match generated {
            Ok(keypair) => {
                &&& keypair.public_key().len() == 32
                &&& exists|document: Seq<u8>| #[trigger]
                    pkcs8_public_key(document) == Some(keypair.public_key())
            },
            Err(e) => e@ == Failure::Crypto,
        },
{
    KeyPair::from_generated(ring_generate_pkcs8())
}

/// The bytes of the public key of `keypair`.
pub fn get_public_key(keypair: &KeyPair) -> (bytes: Result<Vec<u8>, Error>)
    ensures
        bytes matches Ok(key) && key@ == keypair.public_key(),
{
    Ok(slice_to_vec(keypair.public.as_slice()))
}

/// A public key from its bytes. Nothing is checked until a signature is
/// verified with it.
pub fn parse_public_key(data: &[u8]) -> (key: PublicKey)
    ensures
        key@ == data@,
{
    PublicKey { bytes: slice_to_vec(data) }
}

/// Signs `data` with `keypair`.
pub fn sign(keypair: &KeyPair, data: &[u8]) -> (signature: Vec<u8>)
    ensures
        signature_valid(keypair.public_key(), data@, signature@),
{
    keypair.sign(data)
}

/// Checks that `signature` is a signature of `data` under `public_key`.
pub fn verify(public_key: &PublicKey, data: &[u8], signature: &[u8]) -> (checked: Result<
    (),
    Error,
>)
    ensures
        checked is Ok <==> signature_valid(public_key@, data@, signature@),
        checked matches Err(e) ==> e@ == Failure::Authenticity(AuthenticityFault::Invalid),
{
    public_key.verify(data, signature)
}

} // verus!
