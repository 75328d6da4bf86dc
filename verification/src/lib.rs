use vstd::prelude::*;

pub mod codec;
pub mod stats;

verus! {

/// Failures of the codec: the byte-stream compressor failed, the compressed
/// stream is malformed, or the decompressed stream ends in a partial record.
#[derive(Clone, Copy, Debug, PartialEq, Eq, Structural)]
pub enum CodecError {
    CompressionError,
    DecompressionError,
    TruncatedRecordError,
}

/// Failures of the windowed statistics: a window of zero or larger than the
/// input, a smoothing factor outside the unit interval, or an empty input
/// where the recurrence needs a first value.
#[derive(Clone, Copy, Debug, PartialEq, Eq, Structural)]
pub enum StatsError {
    InvalidWindow,
    InvalidAlpha,
    EmptyInput,
}

/// One observation in a time series: a timestamp in microseconds since the
/// epoch, and the observed value carried as the bit pattern of an IEEE-754
/// double. The kernel never does arithmetic on the value during coding, so
/// holding the raw bits keeps the round trip exact, bit for bit.
#[derive(Clone, Copy, Debug, PartialEq, Eq, Structural)]
pub struct TimePoint {
    pub timestamp: i64,
    pub value_bits: u64,
}

impl TimePoint {
    pub fn new(timestamp: i64, value_bits: u64) -> (r: TimePoint)
        ensures
            r.timestamp == timestamp,
            r.value_bits == value_bits,
    {
        TimePoint { timestamp, value_bits }
    }
}

} // verus!
