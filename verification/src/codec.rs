//! Serialization of time-series samples as fixed-width byte records.
//!
//! Each sample occupies exactly 16 bytes: the timestamp as a little-endian
//! signed 64-bit integer, then the value's IEEE-754 bit pattern as a
//! little-endian unsigned 64-bit integer. Records are concatenated in input
//! order with no header or length prefix.

use vstd::bytes::*;
use vstd::prelude::*;

use crate::CodecError;
use crate::TimePoint;

verus! {

/// The 16-byte wire record of one sample: 8 little-endian bytes of the
/// timestamp (in two's complement), then 8 little-endian bytes of the value
/// bits.
pub open spec fn spec_point_bytes(p: TimePoint) -> Seq<u8> {
    spec_u64_to_le_bytes(p.timestamp as u64) + spec_u64_to_le_bytes(p.value_bits)
}

/// The whole encoded stream: the records of the samples, concatenated in
/// order.
pub open spec fn spec_encode(points: Seq<TimePoint>) -> Seq<u8>
    decreases points.len(),
{
    if points.len() == 0 {
        Seq::empty()
    } else {
        spec_point_bytes(points[0]) + spec_encode(points.drop_first())
    }
}

/// The sample read back from one 16-byte record.
pub open spec fn spec_point_of_bytes(b: Seq<u8>) -> TimePoint
    recommends
        b.len() == 16,
{
    TimePoint {
        timestamp: spec_u64_from_le_bytes(b.subrange(0, 8)) as i64,
        value_bits: spec_u64_from_le_bytes(b.subrange(8, 16)),
    }
}

/// The samples read back from a stream of whole 16-byte records.
pub open spec fn spec_decode(bytes: Seq<u8>) -> Seq<TimePoint>
    recommends
        bytes.len() % 16 == 0,
{
    Seq::new((bytes.len() / 16) as nat, |i: int| spec_point_of_bytes(bytes.subrange(16 * i, 16 * i + 16)))
}

/// A record is 16 bytes long.
pub proof fn lemma_point_bytes_len(p: TimePoint)
    ensures
        spec_point_bytes(p).len() == 16,
{
    lemma_auto_spec_u64_to_from_le_bytes();
}

/// The encoded stream of `n` samples is exactly `16 * n` bytes.
pub proof fn lemma_encode_len(points: Seq<TimePoint>)
    ensures
        spec_encode(points).len() == 16 * points.len(),
    decreases points.len(),
{
    if points.len() > 0 {
        lemma_point_bytes_len(points[0]);
        lemma_encode_len(points.drop_first());
    }
}

/// Appending one sample appends its record.
proof fn lemma_encode_push(points: Seq<TimePoint>, p: TimePoint)
    ensures
        spec_encode(points.push(p)) == spec_encode(points) + spec_point_bytes(p),
    decreases points.len(),
{
    if points.len() == 0 {
        let s = points.push(p);
        assert(s[0] == p);
        assert(s.drop_first() =~= Seq::<TimePoint>::empty());
        assert(spec_encode(s.drop_first()) =~= Seq::<u8>::empty());
        assert(spec_encode(s) == spec_point_bytes(p) + spec_encode(s.drop_first()));
        assert(spec_encode(s) =~= spec_encode(points) + spec_point_bytes(p));
    } else {
        assert(points.push(p).drop_first() =~= points.drop_first().push(p));
        lemma_encode_push(points.drop_first(), p);
        assert(spec_encode(points.push(p)) =~= spec_encode(points) + spec_point_bytes(p));
    }
}

/// The bytes of the `i`-th sample stand at offset `16 * i` of the stream.
proof fn lemma_encode_index(points: Seq<TimePoint>, i: int)
    requires
        0 <= i < points.len(),
    ensures
        spec_encode(points).subrange(16 * i, 16 * i + 16) == spec_point_bytes(points[i]),
    decreases i,
{
    lemma_encode_len(points);
    lemma_encode_len(points.drop_first());
    lemma_point_bytes_len(points[0]);
    if i == 0 {
        assert(spec_encode(points).subrange(0, 16) =~= spec_point_bytes(points[0]));
    } else {
        lemma_encode_index(points.drop_first(), i - 1);
        assert(spec_encode(points).subrange(16 * i, 16 * i + 16) =~= spec_encode(
            points.drop_first(),
        ).subrange(16 * (i - 1), 16 * (i - 1) + 16));
    }
}

/// Reading a record back yields the sample it was written from.
proof fn lemma_point_round_trip(p: TimePoint)
    ensures
        spec_point_of_bytes(spec_point_bytes(p)) == p,
{
    lemma_auto_spec_u64_to_from_le_bytes();
    let b = spec_point_bytes(p);
    assert(b.subrange(0, 8) =~= spec_u64_to_le_bytes(p.timestamp as u64));
    assert(b.subrange(8, 16) =~= spec_u64_to_le_bytes(p.value_bits));
    let t = p.timestamp;
    assert(((t as u64) as i64) == t) by (bit_vector);
}

/// Round trip at the byte level: decoding an encoded sample sequence yields
/// the original samples, timestamp and value bits alike, for every sequence,
/// the empty one included.
pub proof fn lemma_codec_round_trip(points: Seq<TimePoint>)
    ensures
        spec_encode(points).len() % 16 == 0,
        spec_decode(spec_encode(points)) == points,
{
    lemma_encode_len(points);
    let enc = spec_encode(points);
    assert forall|i: int| 0 <= i < points.len() implies spec_point_of_bytes(
        enc.subrange(16 * i, 16 * i + 16),
    ) == points[i] by {
        lemma_encode_index(points, i);
        lemma_point_round_trip(points[i]);
    }
    assert(spec_decode(enc) =~= points);
}

/// Serialize the samples as consecutive 16-byte little-endian records, in
/// input order.
pub fn encode_samples(points: &Vec<TimePoint>) -> (r: Vec<u8>)
    ensures
        r@ == spec_encode(points@),
{
    let mut out: Vec<u8> = Vec::new();
    let mut i: usize = 0;
    while i < points.len()
        invariant
            i <= points@.len(),
            out@ == spec_encode(points@.take(i as int)),
        decreases points@.len() - i,
    {
        let p = points[i];
        let mut ts_bytes = u64_to_le_bytes(#[verifier::truncate] (p.timestamp as u64));
        let mut value_bytes = u64_to_le_bytes(p.value_bits);
        out.append(&mut ts_bytes);
        out.append(&mut value_bytes);
        proof {
            lemma_encode_push(points@.take(i as int), points@[i as int]);
            assert(points@.take(i as int).push(points@[i as int]) =~= points@.take(i + 1));
        }
        i = i + 1;
    }
    proof {
        assert(points@.take(points@.len() as int) =~= points@);
    }
    out
}

/// Reconstruct the samples from a stream of 16-byte little-endian records.
/// A stream whose length is not a multiple of 16 ends in a partial record and
/// is refused whole: no truncated prefix is returned.
pub fn decode_samples(bytes: &Vec<u8>) -> (r: Result<Vec<TimePoint>, CodecError>)
    ensures
        match r {
            Ok(points) => bytes@.len() % 16 == 0 && points@ == spec_decode(bytes@),
            Err(e) => e == CodecError::TruncatedRecordError && bytes@.len() % 16 != 0,
        },
{
    if bytes.len() % 16 != 0 {
        return Err(CodecError::TruncatedRecordError);
    }
    let n: usize = bytes.len() / 16;
    proof {
        vstd::arithmetic::div_mod::lemma_fundamental_div_mod(bytes@.len() as int, 16);
    }
    let mut points: Vec<TimePoint> = Vec::new();
    let mut i: usize = 0;
    while i < n
        invariant
            bytes@.len() == 16 * n,
            16 * n <= usize::MAX,
            i <= n,
            points@.len() == i,
            forall|j: int|
                0 <= j < i ==> points@[j] == spec_point_of_bytes(
                    bytes@.subrange(16 * j, 16 * j + 16),
                ),
        decreases n - i,
    {
        let ts_slice = vstd::slice::slice_subrange(bytes.as_slice(), 16 * i, 16 * i + 8);
        let value_slice = vstd::slice::slice_subrange(bytes.as_slice(), 16 * i + 8, 16 * i + 16);
        let ts_word = u64_from_le_bytes(ts_slice);
        let value_word = u64_from_le_bytes(value_slice);
        let p = TimePoint {
            timestamp: #[verifier::truncate] (ts_word as i64),
            value_bits: value_word,
        };
        proof {
            let rec = bytes@.subrange(16 * i, 16 * i + 16);
            assert(rec.subrange(0, 8) =~= bytes@.subrange(16 * i, 16 * i + 8));
            assert(rec.subrange(8, 16) =~= bytes@.subrange(16 * i + 8, 16 * i + 16));
        }
        points.push(p);
        i = i + 1;
    }
    proof {
        assert(points@ =~= spec_decode(bytes@));
    }
    Ok(points)
}

/// What the byte-stream compressor makes of a payload: the compressed frame
/// for it, at the fixed moderate level this codec uses. The frame is a
/// function of the payload alone; nothing further is assumed of its shape.
pub uninterp spec fn zstd_frame(payload: Seq<u8>) -> Seq<u8>;

/// Relies on zstd::stream::encode_all: it deterministically compresses the
/// payload into a zstd frame at the given compression level (here the fixed
/// moderate level 3), and reports any failure of the compressor as an error.
#[verifier::external_body]
fn zstd_compress(payload: &Vec<u8>) -> (r: Result<Vec<u8>, CodecError>)
    ensures
        r matches Ok(frame) ==> frame@ == zstd_frame(payload@),
        r matches Err(e) ==> e == CodecError::CompressionError,
{
    match zstd::stream::encode_all(payload.as_slice(), 3) {
        Ok(frame) => Ok(frame),
        Err(_) => Err(CodecError::CompressionError),
    }
}

/// Relies on zstd::stream::decode_all: decompression losslessly inverts
/// encode_all, so on any frame that encode_all produced it returns exactly
/// the payload that was compressed; a malformed stream is reported as an
/// error.
#[verifier::external_body]
fn zstd_decompress(data: &Vec<u8>) -> (r: Result<Vec<u8>, CodecError>)
    ensures
        r matches Ok(d) ==> forall|payload: Seq<u8>| data@ == zstd_frame(payload) ==> d@
            == payload,
        r matches Err(e) ==> e == CodecError::DecompressionError && (forall|payload: Seq<u8>|
            data@ != zstd_frame(payload)),
{
    match zstd::stream::decode_all(data.as_slice()) {
        Ok(d) => Ok(d),
        Err(_) => Err(CodecError::DecompressionError),
    }
}

/// Serialize the samples as 16-byte little-endian records and compress the
/// stream. On success the buffer is exactly the compressed frame of the
/// encoded records; the only failure is the compressor's own.
pub fn compress_time_series(points: &Vec<TimePoint>) -> (r: Result<Vec<u8>, CodecError>)
    ensures
        r matches Ok(buf) ==> buf@ == zstd_frame(spec_encode(points@)),
        r matches Err(e) ==> e == CodecError::CompressionError,
{
    let encoded = encode_samples(points);
    zstd_compress(&encoded)
}

/// Decompress a buffer and reconstruct the samples. Any buffer that
/// `compress_time_series` produced comes back as exactly the samples it was
/// made from, in order, timestamp and value bits untouched. Other buffers
/// fail: `DecompressionError` where the compressed stream is malformed, and
/// `TruncatedRecordError` where the decompressed stream ends in a partial
/// 16-byte record.
pub fn decompress_time_series(data: &Vec<u8>) -> (r: Result<Vec<TimePoint>, CodecError>)
    ensures
        forall|points: Seq<TimePoint>|
            data@ == zstd_frame(spec_encode(points)) ==> (r matches Ok(out) && out@ == points),
        r matches Err(e) ==> e == CodecError::DecompressionError || e
            == CodecError::TruncatedRecordError,
{
    let decompressed = zstd_decompress(data);
    match decompressed {
        Ok(payload) => {
            let decoded = decode_samples(&payload);
            match decoded {
                Ok(points) => {
                    proof {
                        assert forall|s: Seq<TimePoint>|
                            data@ == zstd_frame(spec_encode(s)) implies points@ == s by {
                            lemma_codec_round_trip(s);
                        }
                    }
                    Ok(points)
                },
                Err(e) => {
                    proof {
                        assert forall|s: Seq<TimePoint>|
                            data@ != zstd_frame(spec_encode(s)) by {
                            if data@ == zstd_frame(spec_encode(s)) {
                                lemma_encode_len(s);
                                assert((16 * s.len()) % 16 == 0) by (nonlinear_arith);
                            }
                        }
                    }
                    Err(e)
                },
            }
        },
        Err(e) => Err(e),
    }
}

} // verus!
