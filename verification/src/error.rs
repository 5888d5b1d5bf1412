//! The failures of the store and the classes into which they fall.

use vstd::prelude::*;

verus! {

/// The broad classes into which the failures of the store fall.
#[derive(Debug, Clone, Copy, PartialEq, Eq, Structural)]
pub enum ErrorKind {
    /// The store was set up with a value that it cannot work with.
    Configuration,
    /// A value does not have the shape that its codec takes.
    Type,
    /// Stored data cannot be turned back into a value.
    Decode,
    /// Stored data was written by a codec that this store may not run.
    DecodeDisallowed,
    /// The compression library failed.
    Encoding,
    /// The backing store failed.
    Storage,
    /// A key that had to exist does not.
    NotFound,
    /// A key that had to be free is taken.
    Conflict,
    /// The store was closed before the operation began.
    Closed,
}

/// Every failure that an operation of the store can report.
#[derive(Debug, Clone, PartialEq, Eq)]
pub enum TalsiError {
    /// The compression selector is none of `snappy`, `zstd` and `zstd:<level>`
    /// with a level from 1 to 22.
    InvalidCompression,
    /// The backing store binds too few parameters per statement for the
    /// operation to be put into statements at all.
    BindLimitTooSmall,
    /// The value is not of the shape that the codec with this mnemonic encodes.
    WrongValueType(u8),
    /// No compression codec has this mnemonic.
    UnknownDataMnemonic(u8),
    /// No representation codec has this mnemonic.
    UnknownPyMnemonic(u8),
    /// A stored codec chain is empty.
    NoCodecMnemonic,
    /// A namespace or key given as bytes is not UTF-8 text.
    InvalidUtf8,
    /// The record holds a pickled object and the store was opened without
    /// leave to unpickle.
    PickleNotAllowed,
    /// The compression library reported this failure.
    Encoding(String),
    /// The backing store reported this failure.
    Storage(String),
    /// A rename that demands its keys found this one absent.
    KeyNotFound(String),
    /// A rename that may not overwrite found this target key present.
    KeyConflict(String),
    /// The backing store answered a statement with something that the
    /// statement does not ask for.
    UnexpectedReply,
    /// The store was closed.
    ConnectionClosed,
}

impl TalsiError {
    /// The class of a failure.
    pub open spec fn spec_kind(&self) -> ErrorKind {
        match *self {
            TalsiError::InvalidCompression => ErrorKind::Configuration,
            TalsiError::BindLimitTooSmall => ErrorKind::Configuration,
            TalsiError::WrongValueType(_) => ErrorKind::Type,
            TalsiError::UnknownDataMnemonic(_) => ErrorKind::Decode,
            TalsiError::UnknownPyMnemonic(_) => ErrorKind::Decode,
            TalsiError::NoCodecMnemonic => ErrorKind::Decode,
            TalsiError::InvalidUtf8 => ErrorKind::Decode,
            TalsiError::PickleNotAllowed => ErrorKind::DecodeDisallowed,
            TalsiError::Encoding(_) => ErrorKind::Encoding,
            TalsiError::Storage(_) => ErrorKind::Storage,
            TalsiError::KeyNotFound(_) => ErrorKind::NotFound,
            TalsiError::KeyConflict(_) => ErrorKind::Conflict,
            TalsiError::UnexpectedReply => ErrorKind::Storage,
            TalsiError::ConnectionClosed => ErrorKind::Closed,
        }
    }

    /// The class of this failure.
    #[verifier::when_used_as_spec(spec_kind)]
    pub fn kind(&self) -> (k: ErrorKind)
        ensures
            k == self.spec_kind(),
    {
        match self {
            TalsiError::InvalidCompression => ErrorKind::Configuration,
            TalsiError::BindLimitTooSmall => ErrorKind::Configuration,
            TalsiError::WrongValueType(_) => ErrorKind::Type,
            TalsiError::UnknownDataMnemonic(_) => ErrorKind::Decode,
            TalsiError::UnknownPyMnemonic(_) => ErrorKind::Decode,
            TalsiError::NoCodecMnemonic => ErrorKind::Decode,
            TalsiError::InvalidUtf8 => ErrorKind::Decode,
            TalsiError::PickleNotAllowed => ErrorKind::DecodeDisallowed,
            TalsiError::Encoding(_) => ErrorKind::Encoding,
            TalsiError::Storage(_) => ErrorKind::Storage,
            TalsiError::KeyNotFound(_) => ErrorKind::NotFound,
            TalsiError::KeyConflict(_) => ErrorKind::Conflict,
            TalsiError::UnexpectedReply => ErrorKind::Storage,
            TalsiError::ConnectionClosed => ErrorKind::Closed,
        }
    }
}

/// Whether a result is the failure `e`.
pub open spec fn fails_with<T>(r: Result<T, TalsiError>, e: TalsiError) -> bool {
    r matches Err(x) && x == e
}

} // verus!
