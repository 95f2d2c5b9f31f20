use tuff_core::errors::TuffError;
use tuff_core::schemas::{
    build_index_chunk_at, build_minimal_index_chunk, parse_index_chunk, validate_index_chunk,
};

/// Assemble a chunk buffer by hand, mirroring the layout: generation,
/// committed flag, 64-bit little-endian timestamp, redundancy, optional
/// volume name, optional previous-chunk hash, entry count, entries.
fn raw_chunk(
    generation: u8,
    flag: u8,
    timestamp: u64,
    redundancy: u8,
    volume_name: Option<&[u8]>,
    prev_hash: Option<&[u8]>,
    entries: &[&[u8]],
) -> Vec<u8> {
    let mut v = Vec::new();
    v.push(generation);
    v.push(flag);
    v.extend_from_slice(&timestamp.to_le_bytes());
    v.push(redundancy);
    match volume_name {
        None => v.push(0),
        Some(name) => {
            v.push(1);
            v.extend_from_slice(&(name.len() as u16).to_le_bytes());
            v.extend_from_slice(name);
        }
    }
    match prev_hash {
        None => v.push(0),
        Some(h) => {
            v.push(1);
            v.extend_from_slice(&(h.len() as u16).to_le_bytes());
            v.extend_from_slice(h);
        }
    }
    v.extend_from_slice(&(entries.len() as u16).to_le_bytes());
    for e in entries {
        v.extend_from_slice(&(e.len() as u16).to_le_bytes());
        v.extend_from_slice(e);
    }
    v
}

#[test]
fn placeholder_builds_and_validates() {
    let buf = build_index_chunk_at(b"tuff-volume", 1, 1_700_000_000).unwrap();
    assert_eq!(validate_index_chunk(&buf), Ok(()));
}

#[test]
fn placeholder_round_trip_recovers_fields() {
    let buf = build_index_chunk_at(b"tuff-volume", 3, 1_700_000_000).unwrap();
    let chunk = parse_index_chunk(&buf).unwrap();
    assert_eq!(chunk.header.generation, 1);
    assert!(chunk.header.wrote_flag);
    assert_eq!(chunk.header.timestamp, 1_700_000_000);
    assert_eq!(chunk.header.volume_name.as_deref(), Some(b"tuff-volume".as_slice()));
    assert_eq!(chunk.header.default_redundancy, 3);
    assert!(chunk.header.prev_chunk_hash.is_none());
    assert!(chunk.entries.is_empty());
}

#[test]
fn builder_rejects_bad_arguments() {
    assert_eq!(build_index_chunk_at(b"", 1, 1).unwrap_err(), TuffError::InvalidArgument);
    assert_eq!(build_index_chunk_at(b"v", 0, 1).unwrap_err(), TuffError::InvalidArgument);
    assert_eq!(build_minimal_index_chunk(b"", 1).unwrap_err(), TuffError::InvalidArgument);
    assert_eq!(build_minimal_index_chunk(b"v", 0).unwrap_err(), TuffError::InvalidArgument);
}

#[test]
fn builder_rejects_clock_at_epoch() {
    assert_eq!(build_index_chunk_at(b"v", 1, 0).unwrap_err(), TuffError::ClockSkew);
}

#[test]
fn builder_with_live_clock_validates() {
    let buf = build_minimal_index_chunk(b"tuff-volume", 1).unwrap();
    assert_eq!(validate_index_chunk(&buf), Ok(()));
}

#[test]
fn generation_boundaries() {
    let ok1 = raw_chunk(1, 1, 10, 1, Some(b"vol"), None, &[]);
    assert_eq!(validate_index_chunk(&ok1), Ok(()));
    let ok254 = raw_chunk(254, 1, 10, 1, Some(b"vol"), None, &[]);
    assert_eq!(validate_index_chunk(&ok254), Ok(()));
    let bad0 = raw_chunk(0, 1, 10, 1, Some(b"vol"), None, &[]);
    assert_eq!(validate_index_chunk(&bad0), Err(TuffError::BadGeneration));
    let bad255 = raw_chunk(255, 1, 10, 1, Some(b"vol"), None, &[]);
    assert_eq!(validate_index_chunk(&bad255), Err(TuffError::BadGeneration));
}

#[test]
fn validation_reports_each_violation() {
    let uncommitted = raw_chunk(1, 0, 10, 1, Some(b"vol"), None, &[]);
    assert_eq!(validate_index_chunk(&uncommitted), Err(TuffError::Uncommitted));
    let bad_ts = raw_chunk(1, 1, 0, 1, Some(b"vol"), None, &[]);
    assert_eq!(validate_index_chunk(&bad_ts), Err(TuffError::BadTimestamp));
    let missing_name = raw_chunk(1, 1, 10, 1, None, None, &[]);
    assert_eq!(validate_index_chunk(&missing_name), Err(TuffError::MissingVolumeName));
    let empty_name = raw_chunk(1, 1, 10, 1, Some(b""), None, &[]);
    assert_eq!(validate_index_chunk(&empty_name), Err(TuffError::EmptyVolumeName));
    let bad_red = raw_chunk(1, 1, 10, 0, Some(b"vol"), None, &[]);
    assert_eq!(validate_index_chunk(&bad_red), Err(TuffError::BadRedundancy));
}

#[test]
fn malformed_buffers_are_rejected() {
    assert_eq!(parse_index_chunk(&[]).unwrap_err(), TuffError::Malformed);
    assert_eq!(parse_index_chunk(&[1, 1, 2, 3]).unwrap_err(), TuffError::Malformed);
    // a bad committed-flag byte
    let bad_flag = raw_chunk(1, 7, 10, 1, Some(b"vol"), None, &[]);
    assert_eq!(parse_index_chunk(&bad_flag).unwrap_err(), TuffError::Malformed);
    // a truncated buffer
    let mut truncated = raw_chunk(1, 1, 10, 1, Some(b"vol"), None, &[]);
    truncated.pop();
    assert_eq!(parse_index_chunk(&truncated).unwrap_err(), TuffError::Malformed);
    // trailing garbage after a complete chunk
    let mut trailing = raw_chunk(1, 1, 10, 1, Some(b"vol"), None, &[]);
    trailing.push(0);
    assert_eq!(parse_index_chunk(&trailing).unwrap_err(), TuffError::Malformed);
    assert_eq!(validate_index_chunk(&trailing), Err(TuffError::Malformed));
}

#[test]
fn entries_and_hash_round_trip() {
    let buf = raw_chunk(
        7,
        1,
        123_456,
        2,
        Some(b"data-volume"),
        Some(&[0xAA, 0xBB, 0xCC]),
        &[b"first entry", b"", b"third"],
    );
    let chunk = parse_index_chunk(&buf).unwrap();
    assert_eq!(chunk.header.generation, 7);
    assert_eq!(chunk.header.timestamp, 123_456);
    assert_eq!(chunk.header.prev_chunk_hash.as_deref(), Some([0xAA, 0xBB, 0xCC].as_slice()));
    assert_eq!(chunk.entries.len(), 3);
    assert_eq!(chunk.entries[0].as_slice(), b"first entry".as_slice());
    assert_eq!(chunk.entries[1].as_slice(), b"".as_slice());
    assert_eq!(chunk.entries[2].as_slice(), b"third".as_slice());
    assert_eq!(validate_index_chunk(&buf), Ok(()));
}

#[test]
fn violations_are_reported_in_checking_order() {
    // generation is checked first, then the committed flag, then the
    // timestamp, then the volume name, then the redundancy
    let all_bad = raw_chunk(0, 0, 0, 0, None, None, &[]);
    assert_eq!(validate_index_chunk(&all_bad), Err(TuffError::BadGeneration));
    let rest_bad = raw_chunk(1, 0, 0, 0, None, None, &[]);
    assert_eq!(validate_index_chunk(&rest_bad), Err(TuffError::Uncommitted));
    let ts_on = raw_chunk(1, 1, 0, 0, None, None, &[]);
    assert_eq!(validate_index_chunk(&ts_on), Err(TuffError::BadTimestamp));
    let name_on = raw_chunk(1, 1, 5, 0, None, None, &[]);
    assert_eq!(validate_index_chunk(&name_on), Err(TuffError::MissingVolumeName));
}

#[test]
fn timestamp_boundaries_of_the_signed_range() {
    let max_ok = build_index_chunk_at(b"v", 1, i64::MAX as u64).unwrap();
    assert_eq!(validate_index_chunk(&max_ok), Ok(()));
    assert_eq!(
        build_index_chunk_at(b"v", 1, i64::MAX as u64 + 1).unwrap_err(),
        TuffError::ClockSkew
    );
}

#[test]
fn timestamp_beyond_signed_range_is_malformed() {
    let buf = raw_chunk(1, 1, u64::MAX, 1, Some(b"vol"), None, &[]);
    assert_eq!(parse_index_chunk(&buf).unwrap_err(), TuffError::Malformed);
}

#[test]
fn error_descriptions_are_nonempty() {
    let errors = [
        TuffError::InvalidArgument,
        TuffError::Malformed,
        TuffError::IoError,
        TuffError::MountFailure,
        TuffError::SecurityViolation,
        TuffError::ClockSkew,
        TuffError::BadGeneration,
        TuffError::Uncommitted,
        TuffError::BadTimestamp,
        TuffError::MissingVolumeName,
        TuffError::EmptyVolumeName,
        TuffError::BadRedundancy,
    ];
    for e in errors {
        assert!(!e.describe().is_empty());
    }
}
