use vstd::prelude::*;

verus! {

/// The reply code of a successful CONNECT.
pub const REPLY_SUCCEEDED: u8 = 0x00;

/// General SOCKS server failure.
pub const REPLY_GENERAL_FAILURE: u8 = 0x01;

/// Connection not allowed by ruleset.
pub const REPLY_NOT_ALLOWED: u8 = 0x02;

/// Network unreachable.
pub const REPLY_NETWORK_UNREACHABLE: u8 = 0x03;

/// Host unreachable.
pub const REPLY_HOST_UNREACHABLE: u8 = 0x04;

/// Connection refused.
pub const REPLY_CONNECTION_REFUSED: u8 = 0x05;

/// TTL expired.
pub const REPLY_TTL_EXPIRED: u8 = 0x06;

/// Command not supported.
pub const REPLY_COMMAND_NOT_SUPPORTED: u8 = 0x07;

/// Address type not supported.
pub const REPLY_ADDRESS_NOT_SUPPORTED: u8 = 0x08;

/// The classes of transport failure that the engine tells apart.
#[derive(Clone, Copy, Debug, PartialEq, Eq, Structural)]
pub enum IoErrorKind {
    ConnectionRefused,
    NetworkUnreachable,
    HostUnreachable,
    UnexpectedEof,
    Other,
}

/// Everything that can end a connection before or instead of a relay.
#[derive(Clone, Copy, Debug, PartialEq, Eq, Structural)]
pub enum Error {
    /// A greeting, sub-negotiation or request carried a wrong version byte.
    InvalidVersion,
    /// The client offered no method the server accepts.
    NoAcceptableMethod,
    /// The request's address type is not IPv4, domain or IPv6, or a domain
    /// resolved to no address.
    AddrUnsupported,
    /// The request's command is not CONNECT.
    CommandUnsupported,
    /// The username is not in the user table.
    UsernameNotFound,
    /// The stored hash is malformed or the password does not match it.
    Password,
    /// A username, password or domain is not valid UTF-8.
    Utf8,
    /// A read, write, resolution or dial failed.
    Io(IoErrorKind),
}

/// The reply byte that a failed request reports for `e`.
pub open spec fn reply_code_of(e: Error) -> u8 {
    match e {
        Error::CommandUnsupported => REPLY_COMMAND_NOT_SUPPORTED,
        Error::AddrUnsupported => REPLY_ADDRESS_NOT_SUPPORTED,
        Error::Utf8 => REPLY_ADDRESS_NOT_SUPPORTED,
        Error::Io(IoErrorKind::NetworkUnreachable) => REPLY_NETWORK_UNREACHABLE,
        Error::Io(IoErrorKind::HostUnreachable) => REPLY_HOST_UNREACHABLE,
        Error::Io(IoErrorKind::ConnectionRefused) => REPLY_CONNECTION_REFUSED,
        _ => REPLY_GENERAL_FAILURE,
    }
}

impl Error {
    /// The reply byte that a failed request reports for this error.
    pub fn reply_code(&self) -> (r: u8)
        ensures
            r == reply_code_of(*self),
    {
        match self {
            Error::CommandUnsupported => REPLY_COMMAND_NOT_SUPPORTED,
            Error::AddrUnsupported => REPLY_ADDRESS_NOT_SUPPORTED,
            Error::Utf8 => REPLY_ADDRESS_NOT_SUPPORTED,
            Error::Io(IoErrorKind::NetworkUnreachable) => REPLY_NETWORK_UNREACHABLE,
            Error::Io(IoErrorKind::HostUnreachable) => REPLY_HOST_UNREACHABLE,
            Error::Io(IoErrorKind::ConnectionRefused) => REPLY_CONNECTION_REFUSED,
            _ => REPLY_GENERAL_FAILURE,
        }
    }
}

} // verus!
