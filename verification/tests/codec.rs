use timeseries_kernel::codec::{
    compress_time_series, decode_samples, decompress_time_series, encode_samples,
};
use timeseries_kernel::{CodecError, TimePoint};

fn point(timestamp: i64, value: f64) -> TimePoint {
    TimePoint::new(timestamp, value.to_bits())
}

#[test]
fn round_trip_empty() {
    let samples: Vec<TimePoint> = Vec::new();
    let compressed = compress_time_series(&samples).unwrap();
    let restored = decompress_time_series(&compressed).unwrap();
    assert_eq!(restored.len(), 0);
}

#[test]
fn empty_sequence_encodes_to_no_bytes() {
    let samples: Vec<TimePoint> = Vec::new();
    assert_eq!(encode_samples(&samples), Vec::<u8>::new());
    let decoded = decode_samples(&Vec::new()).unwrap();
    assert_eq!(decoded.len(), 0);
}

#[test]
fn round_trip_three_samples() {
    let samples = vec![point(0, 1.0), point(1000000, 2.0), point(2000000, 3.0)];
    let compressed = compress_time_series(&samples).unwrap();
    let restored = decompress_time_series(&compressed).unwrap();
    assert_eq!(restored.len(), 3);
    for i in 0..3 {
        assert_eq!(restored[i].timestamp, samples[i].timestamp);
        assert_eq!(restored[i].value_bits, samples[i].value_bits);
    }
    assert_eq!(f64::from_bits(restored[0].value_bits), 1.0);
    assert_eq!(f64::from_bits(restored[1].value_bits), 2.0);
    assert_eq!(f64::from_bits(restored[2].value_bits), 3.0);
}

#[test]
fn round_trip_extreme_values() {
    let samples = vec![
        point(i64::MIN, f64::MIN),
        point(i64::MAX, f64::MAX),
        point(-1, -0.0),
        point(0, f64::NAN),
        point(42, f64::INFINITY),
    ];
    let compressed = compress_time_series(&samples).unwrap();
    let restored = decompress_time_series(&compressed).unwrap();
    assert_eq!(restored.len(), samples.len());
    for i in 0..samples.len() {
        assert_eq!(restored[i].timestamp, samples[i].timestamp);
        // bit-for-bit, so even the NaN payload survives
        assert_eq!(restored[i].value_bits, samples[i].value_bits);
    }
}

#[test]
fn encode_layout_is_little_endian_records() {
    let samples = vec![point(1, 2.0), point(-1, 0.5)];
    let encoded = encode_samples(&samples);
    assert_eq!(encoded.len(), 32);
    let mut expected: Vec<u8> = Vec::new();
    expected.extend_from_slice(&1i64.to_le_bytes());
    expected.extend_from_slice(&2.0f64.to_le_bytes());
    expected.extend_from_slice(&(-1i64).to_le_bytes());
    expected.extend_from_slice(&0.5f64.to_le_bytes());
    assert_eq!(encoded, expected);
}

#[test]
fn decode_rejects_partial_record() {
    let bytes: Vec<u8> = vec![0u8; 15];
    let r = decode_samples(&bytes);
    assert_eq!(r.unwrap_err(), CodecError::TruncatedRecordError);
}

#[test]
fn decode_accepts_whole_records() {
    let samples = vec![point(7, 1.25)];
    let encoded = encode_samples(&samples);
    let decoded = decode_samples(&encoded).unwrap();
    assert_eq!(decoded.len(), 1);
    assert_eq!(decoded[0], samples[0]);
}

#[test]
fn decompress_rejects_malformed_stream() {
    let garbage: Vec<u8> = vec![0u8; 16];
    let r = decompress_time_series(&garbage);
    assert_eq!(r.unwrap_err(), CodecError::DecompressionError);
}

#[test]
fn decompress_rejects_truncated_payload() {
    // a well-formed compressed stream whose payload is not whole records
    let payload: Vec<u8> = vec![1u8; 24];
    let frame = zstd::encode_all(&payload[..], 3).unwrap();
    let r = decompress_time_series(&frame);
    assert_eq!(r.unwrap_err(), CodecError::TruncatedRecordError);
}

#[test]
fn compression_shrinks_repetitive_input() {
    let samples: Vec<TimePoint> = (0..1000).map(|_| point(5, 1.0)).collect();
    let compressed = compress_time_series(&samples).unwrap();
    assert!(compressed.len() < 16 * samples.len());
    let restored = decompress_time_series(&compressed).unwrap();
    assert_eq!(restored, samples);
}
