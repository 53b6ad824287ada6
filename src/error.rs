use vstd::prelude::*;

verus! {

/// Errors reported by the library.
#[derive(Debug)]
pub enum TONAPIError {
    /// The directory of liteservers could not be fetched or decoded.
    GlobalConfigError(String),
    /// The directory of liteservers holds no entry.
    LiteServerRotationError(String),
    /// A transport connection could not be opened, read or written.
    TCPError(String),
    /// Fewer bytes are available than the frame announces.
    FrameTruncated,
    /// The size field of a frame is smaller than its fixed parts.
    FrameSizeInvalid,
    /// The checksum of a frame does not match its nonce and payload.
    IntegrityMismatch,
    /// The server public key has the wrong length or is not a curve point.
    InvalidServerKey,
    /// The server closed the connection or sent a wrong confirmation.
    HandshakeRejected,
    /// No confirmation arrived within the allowed time.
    HandshakeTimeout,
}

pub type TONAPIResult<R> = Result<R, TONAPIError>;

} // verus!
