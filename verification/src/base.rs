use vstd::prelude::*;

verus! {

/// The version string that the `get_version` administrative command reports.
pub open spec fn spec_version() -> Seq<char> {
    "1.0.0"@
}

/// The version string serialized as a JSON string value.
pub open spec fn spec_version_json() -> Seq<char> {
    "\"1.0.0\""@
}

/// Executable copy of [`spec_version`].
pub fn version() -> (s: String)
    ensures
        s@ == spec_version(),
{
    String::from_str("1.0.0")
}

/// Executable copy of [`spec_version_json`].
pub fn version_json() -> (s: String)
    ensures
        s@ == spec_version_json(),
{
    String::from_str("\"1.0.0\"")
}

/// Every way an operation of this layer can fail. The variants are distinct
/// on purpose: a timed-out call, a disposed connection and a remote error
/// must be distinguishable at the call site.
#[derive(Debug)]
pub enum AppError {
    /// An inbound frame could not be decoded as an envelope.
    Protocol,
    /// An outbound call was not answered before its deadline.
    Timeout,
    /// The connection was disposed while the call was still pending.
    ConnectionLost,
    /// No connection is currently installed.
    NotConnected,
    /// A connection is already installed and was not disposed.
    AlreadyConnected,
    /// The remote peer answered the call with this error description.
    Remote(String),
}

/// What `message` returns for each variant.
pub open spec fn spec_message(e: AppError) -> Seq<char> {
    match e {
        AppError::Protocol => "protocol error: malformed frame"@,
        AppError::Timeout => "call timed out"@,
        AppError::ConnectionLost => "connection lost"@,
        AppError::NotConnected => "no active connection"@,
        AppError::AlreadyConnected => "a connection is already active"@,
        AppError::Remote(s) => "remote error: "@ + s@,
    }
}

impl AppError {
    /// A human-readable description of the error.
    pub fn message(&self) -> (s: String)
        ensures
            s@ == spec_message(*self),
    {
        match self {
            AppError::Protocol => String::from_str("protocol error: malformed frame"),
            AppError::Timeout => String::from_str("call timed out"),
            AppError::ConnectionLost => String::from_str("connection lost"),
            AppError::NotConnected => String::from_str("no active connection"),
            AppError::AlreadyConnected => String::from_str("a connection is already active"),
            AppError::Remote(s) => String::from_str("remote error: ").concat(s.as_str()),
        }
    }
}

} // verus!
