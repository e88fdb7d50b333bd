//! The error kinds of the library, each with the text it reports.

use crate::text::concat2;
use vstd::prelude::*;

verus! {

/// What can go wrong while a session serves the daemon.
#[derive(Debug, Clone, PartialEq, Eq)]
pub enum Error {
    /// The daemon could not be reached.
    Connection { endpoint: String, reason: String },
    /// The daemon's address is not a valid endpoint.
    InvalidEndpoint(String),
    /// An outer call to the daemon failed.
    Grpc(String),
    /// The session itself failed.
    Session(String),
    /// A message was sent before the session was started.
    SessionNotStarted,
    /// The file system refused an operation.
    Io(String),
    /// A directory of the context could not be read.
    Walk { path: String, cause: String },
    /// A path that was asked for does not exist.
    PathNotFound(String),
    /// A path that should be a directory is none.
    NotADirectory(String),
    /// A path leaves the context root.
    PathOutsideRoot { path: String },
    /// A path could not be made absolute.
    PathResolution { path: String, reason: String },
    /// The build failed.
    Build(String),
    /// The build configuration is not usable.
    InvalidConfig(String),
    /// A platform string is malformed.
    InvalidPlatform(String),
    /// Progress reporting failed.
    Progress(String),
    /// A frame or packet broke the wire protocol.
    Protocol(String),
    /// The tunnelled connection could not be set up.
    Http2Handshake { reason: String },
    /// A tunnelled stream failed.
    Http2Stream { reason: String },
    /// A message could not be sent.
    SendFailed { message_type: String, reason: String },
    /// Bytes did not decode as the named message.
    Decode { message_type: String },
    /// A value could not be encoded as the named message.
    Encode { message_type: String },
    /// The secrets service failed.
    Secrets(String),
    /// No secret is stored under the identifier.
    SecretNotFound(String),
    /// No secret table is configured.
    SecretsNotConfigured,
    /// The inbound channel closed before the daemon finished the call.
    UnexpectedClose,
    /// Anything else.
    Other(String),
}

/// Status of a call that succeeded.
pub const STATUS_OK: u32 = 0;

/// Status of a call that failed for a reason without a status of its own.
pub const STATUS_UNKNOWN: u32 = 2;

/// Status of a call that asked for what does not exist.
pub const STATUS_NOT_FOUND: u32 = 5;

/// Status of a call that this side does not serve.
pub const STATUS_UNIMPLEMENTED: u32 = 12;

/// The result type of the library.
pub type Result<T> = core::result::Result<T, Error>;

impl Error {
    /// The text an error reports.
    pub open spec fn message_text(self) -> Seq<char> {
        match self {
            Error::Connection { endpoint, reason } => "Failed to connect to BuildKit at "@
                + endpoint@ + ": "@ + reason@,
            Error::InvalidEndpoint(s) => "Invalid BuildKit endpoint URL: "@ + s@,
            Error::Grpc(s) => "gRPC communication failed: "@ + s@,
            Error::Session(s) => "Session error: "@ + s@,
            Error::SessionNotStarted => "Session has not been started"@,
            Error::Io(s) => "File system error: "@ + s@,
            Error::Walk { path, cause } => "Failed to read directory "@ + path@ + ": "@ + cause@,
            Error::PathNotFound(s) => "Path does not exist: "@ + s@,
            Error::NotADirectory(s) => "Path is not a directory: "@ + s@,
            Error::PathOutsideRoot { path } => "Path "@ + path@ + " is outside root directory"@,
            Error::PathResolution { path, reason } => "Failed to resolve absolute path for "@
                + path@ + ": "@ + reason@,
            Error::Build(s) => "Build execution failed: "@ + s@,
            Error::InvalidConfig(s) => "Invalid build configuration: "@ + s@,
            Error::InvalidPlatform(s) => "Invalid platform format: "@ + s@,
            Error::Progress(s) => "Progress monitoring failed: "@ + s@,
            Error::Protocol(s) => "Protocol error: "@ + s@,
            Error::Http2Handshake { reason } => "HTTP/2 handshake failed: "@ + reason@,
            Error::Http2Stream { reason } => "HTTP/2 stream error: "@ + reason@,
            Error::SendFailed { message_type, reason } => "Failed to send "@ + message_type@
                + ": "@ + reason@,
            Error::Decode { message_type } => "Failed to decode "@ + message_type@,
            Error::Encode { message_type } => "Failed to encode "@ + message_type@,
            Error::Secrets(s) => "Secrets error: "@ + s@,
            Error::SecretNotFound(s) => "Secret not found: "@ + s@,
            Error::SecretsNotConfigured => "Secrets service is not configured"@,
            Error::UnexpectedClose => "Session stream closed before the transfer was finished"@,
            Error::Other(s) => s@,
        }
    }

    /// The status with which a call that failed with this error is closed:
    /// not found for a missing secret or path, unimplemented where no secret
    /// table is configured, unknown for every other error.
    pub open spec fn status_code(self) -> u32 {
        match self {
            Error::SecretNotFound(_) => STATUS_NOT_FOUND,
            Error::PathNotFound(_) => STATUS_NOT_FOUND,
            Error::SecretsNotConfigured => STATUS_UNIMPLEMENTED,
            _ => STATUS_UNKNOWN,
        }
    }

    /// The status with which a call that failed with this error is closed.
    pub fn grpc_status(&self) -> (r: u32)
        ensures
            r == self.status_code(),
            r != STATUS_OK,
    {
        match self {
            Error::SecretNotFound(_) => STATUS_NOT_FOUND,
            Error::PathNotFound(_) => STATUS_NOT_FOUND,
            Error::SecretsNotConfigured => STATUS_UNIMPLEMENTED,
            _ => STATUS_UNKNOWN,
        }
    }

    /// A session error with the given text.
    pub fn session(msg: &str) -> (r: Self)
        ensures
            r matches Error::Session(s) && s@ == msg@,
    {
        Error::Session(String::from_str(msg))
    }

    /// A build error with the given text.
    pub fn build(msg: &str) -> (r: Self)
        ensures
            r matches Error::Build(s) && s@ == msg@,
    {
        Error::Build(String::from_str(msg))
    }

    /// A protocol error with the given text.
    pub fn protocol(msg: &str) -> (r: Self)
        ensures
            r matches Error::Protocol(s) && s@ == msg@,
    {
        Error::Protocol(String::from_str(msg))
    }

    /// A progress error with the given text.
    pub fn progress(msg: &str) -> (r: Self)
        ensures
            r matches Error::Progress(s) && s@ == msg@,
    {
        Error::Progress(String::from_str(msg))
    }

    /// A secrets error with the given text.
    pub fn secrets(msg: &str) -> (r: Self)
        ensures
            r matches Error::Secrets(s) && s@ == msg@,
    {
        Error::Secrets(String::from_str(msg))
    }

    /// A failure to send a message of the named type.
    pub fn send_failed(message_type: &str, reason: &str) -> (r: Self)
        ensures
            r matches Error::SendFailed { message_type: m, reason: t } && m@ == message_type@
                && t@ == reason@,
    {
        Error::SendFailed {
            message_type: String::from_str(message_type),
            reason: String::from_str(reason),
        }
    }

    /// A failure to decode a message of the named type.
    pub fn decode(message_type: &str) -> (r: Self)
        ensures
            r matches Error::Decode { message_type: m } && m@ == message_type@,
    {
        Error::Decode { message_type: String::from_str(message_type) }
    }

    /// A failure to encode a message of the named type.
    pub fn encode(message_type: &str) -> (r: Self)
        ensures
            r matches Error::Encode { message_type: m } && m@ == message_type@,
    {
        Error::Encode { message_type: String::from_str(message_type) }
    }

    /// An error outside the other kinds.
    pub fn other(msg: &str) -> (r: Self)
        ensures
            r matches Error::Other(s) && s@ == msg@,
    {
        Error::Other(String::from_str(msg))
    }

    /// The text of the error.
    pub fn message(&self) -> (r: String)
        ensures
            r@ == self.message_text(),
    {
        match self {
            Error::Connection { endpoint, reason } => {
                let mut out = concat2("Failed to connect to BuildKit at ", endpoint.as_str());
                out.append(": ");
                out.append(reason.as_str());
                out
            },
            Error::InvalidEndpoint(s) => concat2("Invalid BuildKit endpoint URL: ", s.as_str()),
            Error::Grpc(s) => concat2("gRPC communication failed: ", s.as_str()),
            Error::Session(s) => concat2("Session error: ", s.as_str()),
            Error::SessionNotStarted => String::from_str("Session has not been started"),
            Error::Io(s) => concat2("File system error: ", s.as_str()),
            Error::Walk { path, cause } => {
                let mut out = concat2("Failed to read directory ", path.as_str());
                out.append(": ");
                out.append(cause.as_str());
                out
            },
            Error::PathNotFound(s) => concat2("Path does not exist: ", s.as_str()),
            Error::NotADirectory(s) => concat2("Path is not a directory: ", s.as_str()),
            Error::PathOutsideRoot { path } => {
                let mut out = concat2("Path ", path.as_str());
                out.append(" is outside root directory");
                out
            },
            Error::PathResolution { path, reason } => {
                let mut out = concat2("Failed to resolve absolute path for ", path.as_str());
                out.append(": ");
                out.append(reason.as_str());
                out
            },
            Error::Build(s) => concat2("Build execution failed: ", s.as_str()),
            Error::InvalidConfig(s) => concat2("Invalid build configuration: ", s.as_str()),
            Error::InvalidPlatform(s) => concat2("Invalid platform format: ", s.as_str()),
            Error::Progress(s) => concat2("Progress monitoring failed: ", s.as_str()),
            Error::Protocol(s) => concat2("Protocol error: ", s.as_str()),
            Error::Http2Handshake { reason } => concat2(
                "HTTP/2 handshake failed: ",
                reason.as_str(),
            ),
            Error::Http2Stream { reason } => concat2("HTTP/2 stream error: ", reason.as_str()),
            Error::SendFailed { message_type, reason } => {
                let mut out = concat2("Failed to send ", message_type.as_str());
                out.append(": ");
                out.append(reason.as_str());
                out
            },
            Error::Decode { message_type } => concat2("Failed to decode ", message_type.as_str()),
            Error::Encode { message_type } => concat2("Failed to encode ", message_type.as_str()),
            Error::Secrets(s) => concat2("Secrets error: ", s.as_str()),
            Error::SecretNotFound(s) => concat2("Secret not found: ", s.as_str()),
            Error::SecretsNotConfigured => String::from_str("Secrets service is not configured"),
            Error::UnexpectedClose => String::from_str(
                "Session stream closed before the transfer was finished",
            ),
            Error::Other(s) => s.clone(),
        }
    }
}

} // verus!
