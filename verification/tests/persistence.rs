use koharu::persistence::{
    decode_log_frame, decode_snapshot, encode_body, encode_log_frame, encode_snapshot,
    finish_log_frame, finish_snapshot, header, versioned_payload, DecodeError, Format, ParsedOp,
    ParsedScene, RecordKind, Schema, LOG_FRAME_MAGIC, SNAPSHOT_MAGIC,
};
use koharu::legacy::{LegacyOpV0, LegacyProjectMetaV0, LegacyProjectStyleV0, LegacySceneV0};
use koharu::scene::{Op, Timestamp};
use koharu::session::{blank_metadata, new_scene};

fn v1_record(magic: &[u8], epoch: u64, payload: &[u8]) -> Vec<u8> {
    let mut out = magic.to_vec();
    out.extend_from_slice(&1u16.to_le_bytes());
    out.extend(postcard::to_allocvec(&epoch).unwrap());
    out.extend_from_slice(payload);
    out
}

#[test]
fn magics_spell_their_names() {
    assert_eq!(&SNAPSHOT_MAGIC, b"KHRSCN\0");
    assert_eq!(&LOG_FRAME_MAGIC, b"KHRLOG\0");
}

#[test]
fn header_is_magic_and_current_format() {
    assert_eq!(header(&SNAPSHOT_MAGIC), b"KHRSCN\0\x02\0".to_vec());
    assert_eq!(header(b""), vec![2, 0]);
}

#[test]
fn snapshot_reads_back() {
    for epoch in [0u64, 1, 127, 128, 300, 16_383, 16_384, u32::MAX as u64, u64::MAX] {
        for payload in [&b""[..], &b"scene"[..], &[0x80; 20][..]] {
            let bytes = encode_snapshot(epoch, payload);
            assert!(bytes.starts_with(b"KHRSCN\0"));
            assert_eq!(u16::from_le_bytes([bytes[7], bytes[8]]), 2);
            let record = decode_snapshot(&bytes).unwrap();
            assert_eq!(record.format, Format::V2);
            assert_eq!(record.epoch, epoch);
            assert_eq!(record.payload, payload);
        }
    }
}

#[test]
fn log_frame_reads_back() {
    let bytes = encode_log_frame(8, b"op");
    assert_eq!(bytes, b"KHRLOG\0\x02\0\x08op".to_vec());
    let record = decode_log_frame(&bytes).unwrap();
    assert_eq!((record.format, record.epoch, record.payload), (Format::V2, 8, &b"op"[..]));
}

#[test]
fn record_is_what_postcard_makes_of_the_pair() {
    let scene = ("name", vec![1u32, 700]);
    let payload = postcard::to_allocvec(&scene).unwrap();
    let whole = postcard::to_allocvec(&(900u64, scene)).unwrap();
    assert_eq!(encode_body(900, &payload), whole);
    assert_eq!(encode_snapshot(900, &payload)[9..], whole[..]);
}

#[test]
fn v1_record_reads_in_the_frozen_schema() {
    let bytes = v1_record(b"KHRSCN\0", 11, b"old");
    let record = decode_snapshot(&bytes).unwrap();
    assert_eq!((record.format, record.epoch, record.payload), (Format::V1, 11, &b"old"[..]));
    assert_eq!(record.format.schema(), Schema::Frozen);
    let frame = v1_record(b"KHRLOG\0", 12, b"op");
    assert_eq!(decode_log_frame(&frame).unwrap().format, Format::V1);
}

#[test]
fn bare_record_reads_as_legacy() {
    let bytes = postcard::to_allocvec(&(7u64, "legacy")).unwrap();
    let record = decode_snapshot(&bytes).unwrap();
    assert_eq!((record.format, record.epoch), (Format::LegacyV0, 7));
    let name: String = postcard::from_bytes(record.payload).unwrap();
    assert_eq!(name, "legacy");
    assert_eq!(record.format.schema(), Schema::Frozen);
    assert_eq!(Format::V2.schema(), Schema::Live);
}

#[test]
fn truncated_header_is_refused() {
    for kept in [7, 8] {
        let bytes = &encode_snapshot(1, b"x")[..kept];
        let error = decode_snapshot(bytes).unwrap_err();
        assert_eq!(error, DecodeError::TruncatedHeader);
        assert_eq!(error.message(), "truncated versioned persistence header");
    }
}

#[test]
fn unknown_version_is_refused() {
    for version in [0u16, 3, 256, 65_535] {
        let mut bytes = b"KHRLOG\0".to_vec();
        bytes.extend_from_slice(&version.to_le_bytes());
        let error = decode_log_frame(&bytes).unwrap_err();
        assert_eq!(error, DecodeError::UnsupportedVersion { version });
        assert_eq!(error.message(), format!("unsupported persistence format version {version}"));
    }
}

#[test]
fn body_without_an_epoch_is_refused() {
    let cases = [
        (Format::LegacyV0, "decode legacy v0 snapshot", "decode legacy v0 history frame"),
        (Format::V1, "decode v1 snapshot", "decode v1 history frame"),
        (Format::V2, "decode v2 snapshot", "decode v2 history frame"),
    ];
    for (format, snapshot_message, frame_message) in cases {
        let head = |magic: &[u8]| match format {
            Format::LegacyV0 => Vec::new(),
            Format::V1 => [magic, &[1, 0]].concat(),
            Format::V2 => [magic, &[2, 0]].concat(),
        };
        for tail in [&[][..], &[0x80][..], &[0xFF; 11][..]] {
            let mut snapshot = head(b"KHRSCN\0");
            snapshot.extend_from_slice(tail);
            let error = decode_snapshot(&snapshot).unwrap_err();
            assert_eq!(error, DecodeError::Body { kind: RecordKind::Snapshot, format });
            assert_eq!(error.message(), snapshot_message);
            let mut frame = head(b"KHRLOG\0");
            frame.extend_from_slice(tail);
            let error = decode_log_frame(&frame).unwrap_err();
            assert_eq!(error, DecodeError::Body { kind: RecordKind::LogFrame, format });
            assert_eq!(error.message(), frame_message);
        }
    }
}

#[test]
fn epoch_is_read_as_postcard_reads_it() {
    let mut largest = vec![0xFF; 9];
    largest.push(0x01);
    assert_eq!(decode_snapshot(&largest).unwrap().epoch, u64::MAX);
    let mut over = vec![0xFF; 9];
    over.push(0x02);
    assert!(decode_snapshot(&over).is_err());
    let padded = [0x85, 0x00, 0x07];
    let record = decode_snapshot(&padded).unwrap();
    assert_eq!((record.epoch, record.payload), (5, &[7][..]));
}

#[test]
fn kinds_do_not_mix() {
    let snapshot = encode_snapshot(3, b"scene");
    assert_eq!(decode_log_frame(&snapshot).unwrap().format, Format::LegacyV0);
    let frame = encode_log_frame(3, b"op");
    assert_eq!(decode_snapshot(&frame).unwrap().format, Format::LegacyV0);
}

#[test]
fn versioned_payload_splits_the_header_off() {
    assert_eq!(versioned_payload(b"xy\x05\x01rest", b"xy").unwrap(), Some((261, &b"rest"[..])));
    assert_eq!(versioned_payload(b"x", b"xy").unwrap(), None);
    assert_eq!(versioned_payload(b"xz\x05\x01", b"xy").unwrap(), None);
    assert_eq!(versioned_payload(b"xy\x05", b"xy"), Err(DecodeError::TruncatedHeader));
}

#[test]
fn saving_an_old_record_upgrades_it() {
    let old = v1_record(b"KHRSCN\0", 11, b"frozen");
    let loaded = decode_snapshot(&old).unwrap();
    let saved = encode_snapshot(loaded.epoch, b"live");
    let again = decode_snapshot(&saved).unwrap();
    assert_eq!((again.format, again.epoch, again.payload), (Format::V2, 11, &b"live"[..]));
}

fn stamp(secs: i64) -> Timestamp {
    Timestamp { secs, nanos: 5 }
}

#[test]
fn finished_snapshot_is_migrated_or_live() {
    let frozen = LegacySceneV0 {
        project: LegacyProjectMetaV0 {
            name: "v1-project".to_string(),
            created_at: stamp(1),
            updated_at: stamp(2),
            style: LegacyProjectStyleV0 { default_font: Some("Arial".to_string()) },
        },
        pages: Default::default(),
    };
    let (scene, epoch, format) = finish_snapshot(Format::V1, 11, ParsedScene::Frozen(frozen));
    assert_eq!((epoch, format), (11, Format::V1));
    assert_eq!(scene.project.name, "v1-project");
    assert_eq!(scene.project.created_at, stamp(1));
    assert_eq!(scene.project.updated_at, stamp(2));
    assert_eq!(scene.project.style.default_font.as_deref(), Some("Arial"));
    let live = new_scene(blank_metadata(stamp(3), stamp(4))).0;
    let (scene, epoch, format) = finish_snapshot(Format::V2, 12, ParsedScene::Live(live));
    assert_eq!((epoch, format), (12, Format::V2));
    assert_eq!(scene.project.created_at, stamp(3));
}

#[test]
fn finished_frame_is_migrated_or_live() {
    let frozen = LegacyOpV0::ReorderPages { order: vec![2, 1], prev_order: vec![1, 2] };
    let (epoch, op, format) = finish_log_frame(Format::LegacyV0, 5, ParsedOp::Frozen(frozen));
    assert_eq!((epoch, format), (5, Format::LegacyV0));
    assert!(matches!(op, Op::ReorderPages { order, prev_order }
        if order == vec![2, 1] && prev_order == vec![1, 2]));
    let live = Op::Batch { ops: vec![], label: "none".to_string() };
    let (_, op, _) = finish_log_frame(Format::V2, 6, ParsedOp::Live(live));
    assert!(matches!(op, Op::Batch { label, .. } if label == "none"));
}
