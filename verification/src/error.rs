//! The failures that operations of this crate report.

use vstd::prelude::*;

verus! {

/// Why a manifest could not be authenticated.
#[derive(Clone, Copy, Debug, PartialEq, Eq, Structural)]
pub enum AuthenticityFault {
    /// The manifest carries no signature.
    NoSignature,
    /// The signature is malformed or does not verify under the given key.
    Invalid,
}

/// The failure of an operation.
#[derive(Clone, Debug)]
pub enum Error {
    /// A parameter given at construction is not acceptable.
    Config,
    /// The bytes of the block with this hash are required and absent.
    NotFound { hash: String },
    /// A stored hash is not 64 hexadecimal digits.
    Parse,
    /// Bytes do not match the length or digest recorded for them.
    Integrity,
    /// The manifest is unsigned, or its signature does not verify.
    Authenticity(AuthenticityFault),
    /// A key could not be generated or parsed.
    Crypto,
    /// The backing store or the transport failed.
    Io { cause: String },
}

/// An [`Error`] as specifications see it: text is a sequence of characters.
pub ghost enum Failure {
    Config,
    NotFound { hash: Seq<char> },
    Parse,
    Integrity,
    Authenticity(AuthenticityFault),
    Crypto,
    Io { cause: Seq<char> },
}

impl View for Error {
    type V = Failure;

    open spec fn view(&self) -> Failure {
        match self {
            Error::Config => Failure::Config,
            Error::NotFound { hash } => Failure::NotFound { hash: hash@ },
            Error::Parse => Failure::Parse,
            Error::Integrity => Failure::Integrity,
            Error::Authenticity(fault) => Failure::Authenticity(*fault),
            Error::Crypto => Failure::Crypto,
            Error::Io { cause } => Failure::Io { cause: cause@ },
        }
    }
}

} // verus!
