//! Error types of the stream-encoding boundary around the scanner.
//!
//! The scanner itself never fails; only the surrounding read-then-write
//! step can, and it reports its failures through [`MpegError`].

use vstd::prelude::*;

verus! {

/// Declares `std::io::Error` so that [`MpegError`] can carry the
/// underlying I/O failure for diagnostic chaining. The value is opaque
/// here: nothing in the library reads it, it is only stored and handed
/// back to the caller.
#[verifier::external_type_specification]
#[verifier::external_body]
pub struct ExIoError(std::io::Error);

/// A variant of a [`MpegError`].
#[derive(Clone, Copy, Debug, PartialEq, Eq, Hash, Structural)]
#[non_exhaustive]
pub enum MpegErrorKind {
    /// Failed to write the leading metadata header due to an underlying
    /// I/O error. Constructing that header is a collaborator's job; the
    /// kind is shared so that callers see one error surface.
    CreateHeader,
    /// Failed to encode the entire stream via copying from reader to writer.
    EncodeStream,
}

/// See [`MpegErrorKind`] for the different kinds of errors that can occur.
#[derive(Debug)]
pub struct MpegError {
    kind: MpegErrorKind,
    source: std::io::Error,
}

impl MpegError {
    /// The kind this error was built with.
    pub closed spec fn spec_kind(&self) -> MpegErrorKind {
        self.kind
    }

    /// Wraps an underlying I/O failure under the given kind.
    pub fn from_io(kind: MpegErrorKind, source: std::io::Error) -> (r: Self)
        ensures
            r.spec_kind() == kind,
    {
        MpegError { kind, source }
    }

    /// Returns the [`MpegErrorKind`] associated with this error.
    pub fn kind(&self) -> (r: MpegErrorKind)
        ensures
            r == self.spec_kind(),
    {
        self.kind
    }

    /// The underlying I/O failure, for diagnostic chaining.
    pub fn source(&self) -> &std::io::Error {
        &self.source
    }
}

} // verus!
