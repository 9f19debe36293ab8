use vstd::prelude::*;

verus! {

/// The ways a synthesis request can fail.
#[derive(Debug)]
pub enum TtsError {
    /// A filesystem operation failed, or a subprocess could not be started.
    Io(String),
    /// The credential helper could not be started.
    Auth(String),
    /// The credential helper exited unsuccessfully; carries its stderr.
    AuthRejected(Vec<u8>),
    /// The remote service rejected the request or answered without audio.
    Api(String),
    /// A local engine exited unsuccessfully; carries what it wrote to stderr.
    Engine { engine: String, stderr: Vec<u8> },
    /// The requested provider name is not in the catalog.
    UnknownProvider(String),
    /// Every candidate provider was unavailable or failed.
    AllProvidersFailed,
}

} // verus!
