use vstd::prelude::*;

verus! {

/// The standard I/O error, carried through unchanged.
#[verifier::external_type_specification]
#[verifier::external_body]
pub struct ExIoError(std::io::Error);

/// Errors raised anywhere in the library.
#[derive(Debug)]
pub enum Error {
    Io(std::io::Error),
    Protocol(String),
    Crypto(String),
    Transport(String),
    Session(String),
    Nat(String),
    Transfer(String),
    Config(String),
    ConnectionClosed,
    Timeout,
    PeerNotFound(String),
    InvalidData(String),
}

pub type Result<T> = std::result::Result<T, Error>;

/// Builds a protocol error carrying `msg`.
pub fn protocol_error(msg: &str) -> (e: Error)
    ensures
        e is Protocol,
        e->Protocol_0@ == msg@,
{
    Error::Protocol(msg.to_string())
}

/// Builds a crypto error carrying `msg`.
pub fn crypto_error(msg: &str) -> (e: Error)
    ensures
        e is Crypto,
        e->Crypto_0@ == msg@,
{
    Error::Crypto(msg.to_string())
}

} // verus!
