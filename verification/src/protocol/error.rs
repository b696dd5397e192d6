use vstd::prelude::*;

verus! {

/// Every way a step of the protocol can fail.
#[derive(Debug, Clone, Copy, PartialEq, Eq, Structural)]
pub enum ProtocolError {
    /// A packet ended before a field it must hold.
    UnexpectedEnd,
    /// The authorization method byte names no method.
    InvalidAuthMethod,
    /// The authorization status byte names no status.
    InvalidAuthStatus,
    /// The client command byte names no command.
    InvalidClientCommand,
    /// The command status byte names no status.
    InvalidCommandStatus,
    /// A username length outside 1..=64.
    IncorrectUsernameLength,
    /// A password length outside 1..=64.
    IncorrectPasswordLength,
    /// A frame announced more than the largest payload.
    PayloadTooLarge,
    /// Encryption or decryption before a shared secret was set up.
    SessionNotInitialized,
    /// The cipher refused to encrypt.
    EncryptionFailed,
    /// Less than a nonce of data was handed to decryption.
    InsufficientData,
    /// The cipher refused to decrypt (wrong key or tampered data).
    DecryptionFailed,
    /// The client met a server that speaks another version.
    IncompatibleServerVersion,
    /// The server met a client that speaks another version.
    IncompatibleClientVersion,
    /// The server asks for credentials and the client has none.
    AuthorizationRequired,
    /// The server refused the client's authorization.
    AuthorizationFailed,
    /// A proxy target longer than 255 bytes.
    HostTooLong,
    /// The server could not carry out the command.
    CommandFailed,
    /// The server does not support the command.
    CommandUnsupported,
    /// The client skipped authorization on a server that has credentials.
    UnexpectedAuthMethod,
    /// The client's username or password differ from the server's.
    WrongCredentials,
    /// The client chose basic authorization but sent no credentials.
    MissingCredentials,
    /// A proxy command without a target host.
    TargetHostMissing,
    /// A command the server's mode does not allow.
    UnsupportedCommand,
}

/// A result with its success value taken by its view.
pub open spec fn result_view<T: View>(r: Result<T, ProtocolError>) -> Result<T::V, ProtocolError> {
    match r {
        Ok(v) => Ok(v@),
        Err(e) => Err(e),
    }
}

} // verus!
