//! What can go wrong while a file is demuxed.

use vstd::prelude::*;

use crate::element_id::ElementId;

verus! {

/// Why a [`Source`](crate::source::Source) could not serve a request.
#[derive(Clone, Copy, Debug, PartialEq, Eq, Structural)]
pub enum IoFailure {
    /// The file ends before the last requested octet.
    UnexpectedEof,
    /// The device or the operating system refused the request.
    Refused,
}

/// The error type of the demuxer.
#[derive(Clone, Copy, Debug, PartialEq, Eq, Structural)]
pub enum DemuxError {
    /// The source of the file failed.
    IoError(IoFailure),
    /// A number does not fit into the integer type that it is meant for.
    TryFromIntError,
    /// A string is not valid UTF-8.
    FromUtf8Error,
    /// An element ID is longer than four octets.
    InvalidEbmlElementId,
    /// An element size is longer than eight octets, or does not fit the type of the element.
    InvalidEbmlDataSize,
    /// A mandatory element is missing.
    ElementNotFound(ElementId),
    /// One element was expected and another one was found.
    UnexpectedElement {
        /// The element that was expected.
        expected: ElementId,
        /// The element that was found.
        found: ElementId,
    },
    /// The data of an element is not of the type that was asked for.
    UnexpectedDataType,
    /// A value that must not be zero is zero.
    NonZeroValueIsZero(ElementId),
    /// A value that must not be negative is negative.
    PositiveValueIsNotPositive,
    /// No cluster could be found.
    CantFindCluster,
    /// A position in the file does not fit into 64 bits.
    OffsetOverflow,
}

} // verus!
