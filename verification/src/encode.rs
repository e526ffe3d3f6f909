use vstd::prelude::*;

verus! {

/// Framing scheme used to delimit messages within the continuous byte
/// stream coming from the device. Selected once at startup and immutable
/// for the pipeline's lifetime.
#[derive(Clone, Copy, Debug, PartialEq, Eq, Structural)]
pub enum EncodeType {
    /// No framing: every successful read from the device is passed through
    /// verbatim as exactly one frame.
    Raw,
    /// Zero-byte-stuffed framing: a zero byte terminates an encoded frame,
    /// and the accumulated span is run through the stuffing decoder.
    COBS,
    /// Line-terminated framing: a line feed terminates a frame, which is
    /// emitted verbatim, terminator included.
    CRLF,
}

} // verus!
