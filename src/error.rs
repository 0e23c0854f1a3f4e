//! Failures of the codec operations.
use vstd::prelude::*;

verus! {

/// Why an encode or scan operation did not complete.
#[derive(Clone, Copy, PartialEq, Eq, Debug, Structural)]
pub enum CodecError {
    /// No frame geometry has been negotiated yet.
    NotConfigured,
    /// The frame buffer cannot be written as a frame of the negotiated geometry.
    BufferNotWritable,
    /// The frame buffer cannot be read as a frame of the negotiated geometry.
    BufferNotReadable,
    /// The configured scan region does not fit inside the frame.
    RegionOutsideFrame,
    /// The frame counter cannot advance any further.
    CounterExhausted,
    /// The identifier text cannot be rendered as a QR symbol.
    SymbolEncodeFailed,
    /// The QR decoder could not be set up for the scanned region.
    DecoderUnavailable,
    /// A decoded payload is not valid UTF-8 text.
    InvalidPayload,
}

} // verus!
