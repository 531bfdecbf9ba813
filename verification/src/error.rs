//! The failures that the library reports.

use vstd::prelude::*;

verus! {

/// Errors that can occur in the tunnel.
#[derive(Clone, Copy, Debug, PartialEq, Eq, Structural)]
pub enum Error {
    /// Incomplete data
    Incomplete,
    /// Connection reset by peer
    ConnectionResetByPeer,
    /// No valid data directory could be found
    DataDir,
    /// No valid config directory could be found
    ConfigDir,
    /// Unable to build a valid configuration
    ConfigBuild,
    /// Unable to load a valid configuration
    ConfigLoad,
    /// Unable to deserialize configuration
    ConfigDeserialize,
    /// Unable to initialize tracing
    TracingInit,
    /// An invalid IP address was provided
    InvalidIpAddress,
    /// An invalid server address was provided
    InvalidServerAddress,
    /// A frame arrived out of the expected order
    InvalidFrame,
    /// A key has not been established
    KeyNotEstablished,
    /// Decryption or verification failed
    DecryptionFailed,
    /// The bytes of a complete frame do not hold a frame
    Malformed,
    /// A frame could not be put into bytes
    Encode,
    /// A cryptographic operation failed without a stated reason
    Unspecified,
}

impl Error {
    /// The text that names this error to a person.
    pub fn message(&self) -> (text: &'static str)
        ensures
            text@ == self.message_text(),
    {
        match self {
            Error::Incomplete => "incomplete data",
            Error::ConnectionResetByPeer => "connection reset by peer",
            Error::DataDir => "There is no valid data directory",
            Error::ConfigDir => "There is no valid config directory",
            Error::ConfigBuild => "Unable to build a valid configuration",
            Error::ConfigLoad => "Unable to load a valid configuration",
            Error::ConfigDeserialize => "Unable to deserialize config",
            Error::TracingInit => "Unable to initialize tracing",
            Error::InvalidIpAddress => "An invalid IP address was provided",
            Error::InvalidServerAddress => "An invalid server address was provided",
            Error::InvalidFrame => "An invalid frame was received",
            Error::KeyNotEstablished => "A key has not been established",
            Error::DecryptionFailed => "Decryption failed",
            Error::Malformed => "A malformed frame was received",
            Error::Encode => "A frame could not be encoded",
            Error::Unspecified => "Unspecified",
        }
    }

    /// The text of `message`, as a sequence of characters.
    pub open spec fn message_text(&self) -> Seq<char> {
        match self {
            Error::Incomplete => "incomplete data"@,
            Error::ConnectionResetByPeer => "connection reset by peer"@,
            Error::DataDir => "There is no valid data directory"@,
            Error::ConfigDir => "There is no valid config directory"@,
            Error::ConfigBuild => "Unable to build a valid configuration"@,
            Error::ConfigLoad => "Unable to load a valid configuration"@,
            Error::ConfigDeserialize => "Unable to deserialize config"@,
            Error::TracingInit => "Unable to initialize tracing"@,
            Error::InvalidIpAddress => "An invalid IP address was provided"@,
            Error::InvalidServerAddress => "An invalid server address was provided"@,
            Error::InvalidFrame => "An invalid frame was received"@,
            Error::KeyNotEstablished => "A key has not been established"@,
            Error::DecryptionFailed => "Decryption failed"@,
            Error::Malformed => "A malformed frame was received"@,
            Error::Encode => "A frame could not be encoded"@,
            Error::Unspecified => "Unspecified"@,
        }
    }
}

/// How a run ended short of its work, as far as the exit code depends on it.
#[derive(Clone, Copy, Debug, PartialEq, Eq, Structural)]
pub enum Ending {
    /// The command line asked for the help text.
    Help,
    /// The command line asked for the version.
    Version,
    /// The command line could not be understood.
    Usage,
    /// The command line parser reported a kind of error that is not known.
    UnknownKind,
    /// Anything else went wrong.
    Failure,
}

/// Where the report of an ending is printed.
#[derive(Clone, Copy, Debug, PartialEq, Eq, Structural)]
pub enum Stream {
    /// Standard output.
    Stdout,
    /// Standard error.
    Stderr,
}

/// The exit code for an ending, and where its report goes: help and version
/// are no failures and go to standard output with code 0; everything else
/// goes to standard error with code 1.
pub fn exit_report(ending: Ending) -> (r: (i32, Stream))
    ensures
        r == match ending {
            Ending::Help | Ending::Version => (0i32, Stream::Stdout),
            _ => (1i32, Stream::Stderr),
        },
{
    match ending {
        Ending::Help => (0, Stream::Stdout),
        Ending::Version => (0, Stream::Stdout),
        Ending::Usage => (1, Stream::Stderr),
        Ending::UnknownKind => (1, Stream::Stderr),
        Ending::Failure => (1, Stream::Stderr),
    }
}

/// Exit code of a run that ended well.
pub fn success(_unit: ()) -> (code: i32)
    ensures
        code == 0,
{
    0
}

} // verus!
