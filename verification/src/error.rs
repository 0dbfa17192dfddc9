//! The error kinds of the codec and of column provisioning.

use vstd::prelude::*;

verus! {

/// What can go wrong while decoding a buffer or sizing a column.
#[derive(Clone, Copy, Debug, PartialEq, Eq, Structural)]
pub enum ErrorKind {
    /// A decoder demanded more bytes, or more records, than remained.
    DecodeEof,
    /// A string record was not valid UTF-8.
    DecodeUtf8,
    /// A top-level decode left bytes unconsumed beyond one trailing separator.
    DecodeTrailing,
    /// The JSON reader rejected a map record.
    DecodeNestedJson,
    /// A target outside the supported set was requested.
    DecodeUnsupported,
    /// An element after the first was not preceded by the separator.
    DecodeSeparator,
    /// Cache sizing arithmetic overflowed.
    ConfigOverflow,
    /// The storage engine rejected an options string.
    EngineOptions,
}

impl ErrorKind {
    /// A short name for the kind, for messages.
    pub fn name(&self) -> (r: &'static str)
        ensures
            r@ == match *self {
                ErrorKind::DecodeEof => "DecodeEOF"@,
                ErrorKind::DecodeUtf8 => "DecodeUtf8"@,
                ErrorKind::DecodeTrailing => "DecodeTrailing"@,
                ErrorKind::DecodeNestedJson => "DecodeNestedJson"@,
                ErrorKind::DecodeUnsupported => "DecodeUnsupported"@,
                ErrorKind::DecodeSeparator => "DecodeSeparator"@,
                ErrorKind::ConfigOverflow => "ConfigOverflow"@,
                ErrorKind::EngineOptions => "EngineOptions"@,
            },
    {
        match self {
            ErrorKind::DecodeEof => "DecodeEOF",
            ErrorKind::DecodeUtf8 => "DecodeUtf8",
            ErrorKind::DecodeTrailing => "DecodeTrailing",
            ErrorKind::DecodeNestedJson => "DecodeNestedJson",
            ErrorKind::DecodeUnsupported => "DecodeUnsupported",
            ErrorKind::DecodeSeparator => "DecodeSeparator",
            ErrorKind::ConfigOverflow => "ConfigOverflow",
            ErrorKind::EngineOptions => "EngineOptions",
        }
    }
}

} // verus!
