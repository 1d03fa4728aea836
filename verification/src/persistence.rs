//! The on-disk records: scene snapshots and history frames.
//!
//! A record that this version writes is a seven-byte magic, the format's number
//! in two little-endian bytes, and a body: the epoch, then the scene (in a
//! snapshot) or the operation (in a history frame), each as postcard encodes
//! it. The first format had no magic and no number, so bytes that do not start
//! with the magic are a bare body.
//!
//! Here a record is taken apart and put together as bytes. What the encoded
//! scene or operation holds is for its schema: the frozen one of
//! [`crate::legacy`] for the first two formats, the live one of
//! [`crate::scene`] for the current format.

use vstd::prelude::*;

use crate::legacy::{LegacyOpV0, LegacySceneV0};
use crate::scene::{Op, Scene};
use crate::text;
use crate::wire;

verus! {

/// `KHRSCN` and a zero byte.
pub const SNAPSHOT_MAGIC: [u8; 7] = [0x4B, 0x48, 0x52, 0x53, 0x43, 0x4E, 0x00];

/// `KHRLOG` and a zero byte.
pub const LOG_FRAME_MAGIC: [u8; 7] = [0x4B, 0x48, 0x52, 0x4C, 0x4F, 0x47, 0x00];

pub const FORMAT_V1: u16 = 1;

pub const FORMAT_V2: u16 = 2;

/// The format of every record that is written.
pub const CURRENT_FORMAT: u16 = FORMAT_V2;

/// The format that a record was read in.
#[derive(Clone, Copy, Debug, PartialEq, Eq, Structural)]
pub enum Format {
    LegacyV0,
    V1,
    V2,
}

/// The schema of an encoded scene or operation.
#[derive(Clone, Copy, Debug, PartialEq, Eq, Structural)]
pub enum Schema {
    /// The types of [`crate::legacy`].
    Frozen,
    /// The types of [`crate::scene`].
    Live,
}

/// The two kinds of record.
#[derive(Clone, Copy, Debug, PartialEq, Eq, Structural)]
pub enum RecordKind {
    Snapshot,
    LogFrame,
}

/// Why a record could not be read.
#[derive(Clone, Copy, Debug, PartialEq, Eq, Structural)]
pub enum DecodeError {
    /// The magic is there, but not all of the format's number.
    TruncatedHeader,
    /// The format's number is not one that was ever written.
    UnsupportedVersion { version: u16 },
    /// The body does not hold a record of that kind in that format.
    Body { kind: RecordKind, format: Format },
}

/// A record taken apart: its format, its epoch, and the encoded scene or
/// operation.
#[derive(Clone, Copy, Debug)]
pub struct Record<'a> {
    pub format: Format,
    pub epoch: u64,
    pub payload: &'a [u8],
}

/// A decoded scene, by the schema that it was decoded with.
#[derive(Debug)]
pub enum ParsedScene {
    Frozen(LegacySceneV0),
    Live(Scene),
}

/// A decoded operation, by the schema that it was decoded with.
#[derive(Debug)]
pub enum ParsedOp {
    Frozen(LegacyOpV0),
    Live(Op),
}

/// `version` in two little-endian bytes.
pub open spec fn version_bytes(version: u16) -> Seq<u8> {
    seq![(version % 256) as u8, (version / 256) as u8]
}

/// The header of a record in format `version`.
pub open spec fn header_bytes(magic: Seq<u8>, version: u16) -> Seq<u8> {
    magic + version_bytes(version)
}

/// What a header says of `bytes`: nothing if they do not start with `magic`,
/// else the format's number and the body behind it.
pub open spec fn header_of(bytes: Seq<u8>, magic: Seq<u8>) -> Result<
    Option<(u16, Seq<u8>)>,
    DecodeError,
> {
    let m = magic.len() as int;
    if !magic.is_prefix_of(bytes) {
        Ok(None)
    } else if bytes.len() < m + 2 {
        Err(DecodeError::TruncatedHeader)
    } else {
        Ok(Some(((bytes[m] + 256 * bytes[m + 1]) as u16, bytes.skip(m + 2))))
    }
}

/// A body: the epoch, then the payload.
pub open spec fn body_bytes(epoch: u64, payload: Seq<u8>) -> Seq<u8> {
    wire::varint(epoch as nat) + payload
}

/// A record in the current format.
pub open spec fn record_bytes(kind: RecordKind, epoch: u64, payload: Seq<u8>) -> Seq<u8> {
    header_bytes(kind.magic(), CURRENT_FORMAT) + body_bytes(epoch, payload)
}

/// The parts of a body of the given kind and format.
pub open spec fn body_parts(kind: RecordKind, format: Format, body: Seq<u8>) -> Result<
    (Format, u64, Seq<u8>),
    DecodeError,
> {
    match wire::u64_at_front(body) {
        Some((epoch, payload)) => Ok((format, epoch, payload)),
        None => Err(DecodeError::Body { kind, format }),
    }
}

/// The parts of a record of the given kind: its format, epoch and payload.
pub open spec fn record_parts(kind: RecordKind, bytes: Seq<u8>) -> Result<
    (Format, u64, Seq<u8>),
    DecodeError,
> {
    match header_of(bytes, kind.magic()) {
        Err(error) => Err(error),
        Ok(None) => body_parts(kind, Format::LegacyV0, bytes),
        Ok(Some((version, body))) => if version == FORMAT_V1 {
            body_parts(kind, Format::V1, body)
        } else if version == FORMAT_V2 {
            body_parts(kind, Format::V2, body)
        } else {
            Err(DecodeError::UnsupportedVersion { version })
        },
    }
}

impl RecordKind {
    /// The magic that a record of this kind starts with.
    pub open spec fn magic(self) -> Seq<u8> {
        match self {
            RecordKind::Snapshot => SNAPSHOT_MAGIC@,
            RecordKind::LogFrame => LOG_FRAME_MAGIC@,
        }
    }
}

impl<'a> Record<'a> {
    /// The record's parts, as [`record_parts`] gives them.
    pub open spec fn parts(self) -> (Format, u64, Seq<u8>) {
        (self.format, self.epoch, self.payload@)
    }
}

impl Format {
    /// The schema of a format's payloads: frozen for every format but the
    /// current one.
    pub open spec fn spec_schema(self) -> Schema {
        if self == Format::V2 {
            Schema::Live
        } else {
            Schema::Frozen
        }
    }

    /// The schema of this format's payloads.
    pub fn schema(self) -> (schema: Schema)
        ensures
            schema == self.spec_schema(),
    {
        match self {
            Format::LegacyV0 | Format::V1 => Schema::Frozen,
            Format::V2 => Schema::Live,
        }
    }
}

impl ParsedScene {
    /// The schema that the scene was decoded with.
    pub open spec fn schema(self) -> Schema {
        match self {
            ParsedScene::Frozen(_) => Schema::Frozen,
            ParsedScene::Live(_) => Schema::Live,
        }
    }
}

impl ParsedOp {
    /// The schema that the operation was decoded with.
    pub open spec fn schema(self) -> Schema {
        match self {
            ParsedOp::Frozen(_) => Schema::Frozen,
            ParsedOp::Live(_) => Schema::Live,
        }
    }
}

fn starts_with(bytes: &[u8], prefix: &[u8]) -> (yes: bool)
    ensures
        yes == prefix@.is_prefix_of(bytes@),
{
    if bytes.len() < prefix.len() {
        return false;
    }
    let mut i: usize = 0;
    while i < prefix.len()
        invariant
            i <= prefix@.len() <= bytes@.len(),
            forall|j: int| 0 <= j < i ==> prefix@[j] == bytes@[j],
        decreases prefix@.len() - i,
    {
        if bytes[i] != prefix[i] {
            assert(prefix@[i as int] != bytes@.subrange(0, prefix@.len() as int)[i as int]);
            return false;
        }
        i += 1;
    }
    true
}

/// The header of a record in the current format.
pub fn header(magic: &[u8]) -> (out: Vec<u8>)
    ensures
        out@ == header_bytes(magic@, CURRENT_FORMAT),
{
    let mut out: Vec<u8> = Vec::new();
    out.extend_from_slice(magic);
    out.push((CURRENT_FORMAT % 256) as u8);
    out.push((CURRENT_FORMAT / 256) as u8);
    assert(out@ =~= header_bytes(magic@, CURRENT_FORMAT));
    out
}

/// Reads the header off `bytes`: the format's number and the body, or `None`
/// where `bytes` do not start with `magic`.
pub fn versioned_payload<'a>(bytes: &'a [u8], magic: &[u8]) -> (result: Result<
    Option<(u16, &'a [u8])>,
    DecodeError,
>)
    ensures
        match result {
            Ok(Some((version, body))) => header_of(bytes@, magic@) == Ok::<
                Option<(u16, Seq<u8>)>,
                DecodeError,
            >(Some((version, body@))),
            Ok(None) => header_of(bytes@, magic@) == Ok::<Option<(u16, Seq<u8>)>, DecodeError>(
                None,
            ),
            Err(error) => header_of(bytes@, magic@) == Err::<Option<(u16, Seq<u8>)>, DecodeError>(
                error,
            ),
        },
{
    if !starts_with(bytes, magic) {
        return Ok(None);
    }
    let m: usize = magic.len();
    if bytes.len() - m < 2 {
        return Err(DecodeError::TruncatedHeader);
    }
    let version: u16 = bytes[m] as u16 + 256 * (bytes[m + 1] as u16);
    let body = vstd::slice::slice_subrange(bytes, m + 2, bytes.len());
    assert(body@ =~= bytes@.skip(m + 2));
    Ok(Some((version, body)))
}

/// A body without a header: the epoch, then the payload.
pub fn encode_body(epoch: u64, payload: &[u8]) -> (out: Vec<u8>)
    ensures
        out@ == body_bytes(epoch, payload@),
{
    let mut out = wire::write_u64(epoch).unwrap();
    out.extend_from_slice(payload);
    assert(out@ =~= body_bytes(epoch, payload@));
    out
}

fn encode_record(kind: RecordKind, epoch: u64, payload: &[u8]) -> (out: Vec<u8>)
    ensures
        out@ == record_bytes(kind, epoch, payload@),
{
    let mut out = match kind {
        RecordKind::Snapshot => header(SNAPSHOT_MAGIC.as_slice()),
        RecordKind::LogFrame => header(LOG_FRAME_MAGIC.as_slice()),
    };
    let mut body = encode_body(epoch, payload);
    out.append(&mut body);
    out
}

fn decode_body<'a>(kind: RecordKind, format: Format, body: &'a [u8]) -> (result: Result<
    Record<'a>,
    DecodeError,
>)
    ensures
        match result {
            Ok(record) => body_parts(kind, format, body@) == Ok::<_, DecodeError>(record.parts()),
            Err(error) => body_parts(kind, format, body@) == Err::<(Format, u64, Seq<u8>), _>(error),
        },
{
    match wire::take_u64(body) {
        Ok((epoch, payload)) => Ok(Record { format, epoch, payload }),
        Err(_) => Err(DecodeError::Body { kind, format }),
    }
}

fn decode_record<'a>(kind: RecordKind, bytes: &'a [u8]) -> (result: Result<Record<'a>, DecodeError>)
    ensures
        match result {
            Ok(record) => record_parts(kind, bytes@) == Ok::<_, DecodeError>(record.parts()),
            Err(error) => record_parts(kind, bytes@) == Err::<(Format, u64, Seq<u8>), _>(error),
        },
{
    let header = match kind {
        RecordKind::Snapshot => versioned_payload(bytes, SNAPSHOT_MAGIC.as_slice()),
        RecordKind::LogFrame => versioned_payload(bytes, LOG_FRAME_MAGIC.as_slice()),
    };
    match header {
        Err(error) => Err(error),
        Ok(None) => decode_body(kind, Format::LegacyV0, bytes),
        Ok(Some((version, body))) => {
            if version == FORMAT_V1 {
                decode_body(kind, Format::V1, body)
            } else if version == FORMAT_V2 {
                decode_body(kind, Format::V2, body)
            } else {
                Err(DecodeError::UnsupportedVersion { version })
            }
        },
    }
}

/// The snapshot of an encoded scene at `epoch`, in the current format.
pub fn encode_snapshot(epoch: u64, scene: &[u8]) -> (out: Vec<u8>)
    ensures
        out@ == record_bytes(RecordKind::Snapshot, epoch, scene@),
{
    encode_record(RecordKind::Snapshot, epoch, scene)
}

/// Takes a snapshot apart. The payload is the encoded scene, in the schema of
/// the record's format; [`finish_snapshot`] takes it from there.
pub fn decode_snapshot<'a>(bytes: &'a [u8]) -> (result: Result<Record<'a>, DecodeError>)
    ensures
        match result {
            Ok(record) => record_parts(RecordKind::Snapshot, bytes@) == Ok::<_, DecodeError>(
                record.parts(),
            ),
            Err(error) => record_parts(RecordKind::Snapshot, bytes@) == Err::<
                (Format, u64, Seq<u8>),
                _,
            >(error),
        },
{
    decode_record(RecordKind::Snapshot, bytes)
}

/// The snapshot that a record and its decoded payload make: the scene, migrated
/// if it came in the frozen schema, with the record's epoch and format.
pub fn finish_snapshot(format: Format, epoch: u64, parsed: ParsedScene) -> (result: (
    Scene,
    u64,
    Format,
))
    requires
        parsed.schema() == format.spec_schema(),
    ensures
        match parsed {
            ParsedScene::Frozen(old_scene) => old_scene.migrates_to(result.0),
            ParsedScene::Live(scene) => result.0 == scene,
        },
        result.1 == epoch,
        result.2 == format,
{
    let scene = match parsed {
        ParsedScene::Frozen(old_scene) => Scene::from(old_scene),
        ParsedScene::Live(scene) => scene,
    };
    (scene, epoch, format)
}

/// The history frame of an encoded operation that led to `epoch`, in the current
/// format.
pub fn encode_log_frame(epoch: u64, op: &[u8]) -> (out: Vec<u8>)
    ensures
        out@ == record_bytes(RecordKind::LogFrame, epoch, op@),
{
    encode_record(RecordKind::LogFrame, epoch, op)
}

/// Takes a history frame apart. The payload is the encoded operation, in the
/// schema of the record's format; [`finish_log_frame`] takes it from there.
pub fn decode_log_frame<'a>(bytes: &'a [u8]) -> (result: Result<Record<'a>, DecodeError>)
    ensures
        match result {
            Ok(record) => record_parts(RecordKind::LogFrame, bytes@) == Ok::<_, DecodeError>(
                record.parts(),
            ),
            Err(error) => record_parts(RecordKind::LogFrame, bytes@) == Err::<
                (Format, u64, Seq<u8>),
                _,
            >(error),
        },
{
    decode_record(RecordKind::LogFrame, bytes)
}

/// The history frame that a record and its decoded payload make: the operation,
/// migrated if it came in the frozen schema, with the record's epoch and format.
pub fn finish_log_frame(format: Format, epoch: u64, parsed: ParsedOp) -> (result: (u64, Op, Format))
    requires
        parsed.schema() == format.spec_schema(),
    ensures
        result.0 == epoch,
        match parsed {
            ParsedOp::Frozen(old_op) => old_op.migrates_to(result.1),
            ParsedOp::Live(op) => result.1 == op,
        },
        result.2 == format,
{
    let op = match parsed {
        ParsedOp::Frozen(old_op) => Op::from(old_op),
        ParsedOp::Live(op) => op,
    };
    (epoch, op, format)
}

impl DecodeError {
    /// The message of this error.
    pub open spec fn spec_message(self) -> Seq<char> {
        match self {
            DecodeError::TruncatedHeader => "truncated versioned persistence header"@,
            DecodeError::UnsupportedVersion { version } => {
                "unsupported persistence format version "@ + text::decimal(version as nat)
            },
            DecodeError::Body { kind, format } => match (kind, format) {
                (RecordKind::Snapshot, Format::LegacyV0) => "decode legacy v0 snapshot"@,
                (RecordKind::Snapshot, Format::V1) => "decode v1 snapshot"@,
                (RecordKind::Snapshot, Format::V2) => "decode v2 snapshot"@,
                (RecordKind::LogFrame, Format::LegacyV0) => "decode legacy v0 history frame"@,
                (RecordKind::LogFrame, Format::V1) => "decode v1 history frame"@,
                (RecordKind::LogFrame, Format::V2) => "decode v2 history frame"@,
            },
        }
    }

    /// The message of this error.
    pub fn message(&self) -> (out: String)
        ensures
            out@ == self.spec_message(),
    {
        match *self {
            DecodeError::TruncatedHeader => "truncated versioned persistence header".to_owned(),
            DecodeError::UnsupportedVersion { version } => {
                let mut out = "unsupported persistence format version ".to_owned();
                text::append_decimal(&mut out, version as u64);
                out
            },
            DecodeError::Body { kind, format } => match (kind, format) {
                (RecordKind::Snapshot, Format::LegacyV0) => "decode legacy v0 snapshot".to_owned(),
                (RecordKind::Snapshot, Format::V1) => "decode v1 snapshot".to_owned(),
                (RecordKind::Snapshot, Format::V2) => "decode v2 snapshot".to_owned(),
                (
                    RecordKind::LogFrame,
                    Format::LegacyV0,
                ) => "decode legacy v0 history frame".to_owned(),
                (RecordKind::LogFrame, Format::V1) => "decode v1 history frame".to_owned(),
                (RecordKind::LogFrame, Format::V2) => "decode v2 history frame".to_owned(),
            },
        }
    }
}

/// A header is read back: the format's number, and all that follows as body.
pub proof fn law_header_reads_back(magic: Seq<u8>, version: u16, body: Seq<u8>)
    ensures
        header_of(header_bytes(magic, version) + body, magic) == Ok::<_, DecodeError>(
            Some((version, body)),
        ),
{
    let bytes = header_bytes(magic, version) + body;
    assert(magic =~= bytes.subrange(0, magic.len() as int));
    assert(bytes.skip(magic.len() as int + 2) =~= body);
}

/// What a snapshot or a history frame was written with is what reading it gives
/// back, and it reads as the current format.
pub proof fn law_record_reads_back(kind: RecordKind, epoch: u64, payload: Seq<u8>)
    ensures
        record_parts(kind, record_bytes(kind, epoch, payload)) == Ok::<_, DecodeError>(
            (Format::V2, epoch, payload),
        ),
{
    law_header_reads_back(kind.magic(), CURRENT_FORMAT, body_bytes(epoch, payload));
    wire::law_u64_reads_back(epoch, payload);
}

/// A record that was written in the first numbered format still reads, with its
/// payload in the frozen schema.
pub proof fn law_v1_record_reads(kind: RecordKind, epoch: u64, payload: Seq<u8>)
    ensures
        record_parts(kind, header_bytes(kind.magic(), FORMAT_V1) + body_bytes(epoch, payload))
            == Ok::<_, DecodeError>((Format::V1, epoch, payload)),
        Format::V1.spec_schema() == Schema::Frozen,
{
    law_header_reads_back(kind.magic(), FORMAT_V1, body_bytes(epoch, payload));
    wire::law_u64_reads_back(epoch, payload);
}

/// A record from before there was a header still reads, with its payload in the
/// frozen schema, unless its own bytes happen to spell the magic.
pub proof fn law_legacy_record_reads(kind: RecordKind, epoch: u64, payload: Seq<u8>)
    requires
        !kind.magic().is_prefix_of(body_bytes(epoch, payload)),
    ensures
        record_parts(kind, body_bytes(epoch, payload)) == Ok::<_, DecodeError>(
            (Format::LegacyV0, epoch, payload),
        ),
        Format::LegacyV0.spec_schema() == Schema::Frozen,
{
    wire::law_u64_reads_back(epoch, payload);
}

/// A record with a format's number that was never written is refused by that
/// number, whatever its body holds.
pub proof fn law_unknown_version_is_refused(kind: RecordKind, version: u16, body: Seq<u8>)
    requires
        version != FORMAT_V1,
        version != FORMAT_V2,
    ensures
        record_parts(kind, header_bytes(kind.magic(), version) + body) == Err::<
            (Format, u64, Seq<u8>),
            _,
        >(DecodeError::UnsupportedVersion { version }),
{
    law_header_reads_back(kind.magic(), version, body);
}

/// A record cut off inside the format's number is refused as truncated.
pub proof fn law_truncated_header_is_refused(kind: RecordKind, version: u16, kept: int)
    requires
        0 <= kept < 2,
    ensures
        record_parts(
            kind,
            header_bytes(kind.magic(), version).take(kind.magic().len() + kept),
        ) == Err::<(Format, u64, Seq<u8>), _>(DecodeError::TruncatedHeader),
{
    let bytes = header_bytes(kind.magic(), version).take(kind.magic().len() + kept);
    assert(kind.magic() =~= bytes.subrange(0, kind.magic().len() as int));
}

/// A record of one kind is never read as a numbered record of the other kind.
pub proof fn law_kinds_do_not_mix(kind: RecordKind, other: RecordKind, epoch: u64, payload: Seq<u8>)
    requires
        kind != other,
    ensures
        match record_parts(other, record_bytes(kind, epoch, payload)) {
            Ok((format, _, _)) => format == Format::LegacyV0,
            Err(error) => error == (DecodeError::Body { kind: other, format: Format::LegacyV0 }),
        },
{
    let bytes = record_bytes(kind, epoch, payload);
    if other.magic().is_prefix_of(bytes) {
        assert(other.magic()[3] == bytes.subrange(0, 7)[3]);
    }
}

/// Loading a record and saving what it held writes the current format, which
/// reads back with the same epoch: whatever was opened is upgraded by the next
/// save.
pub proof fn law_saving_upgrades(kind: RecordKind, bytes: Seq<u8>, saved_payload: Seq<u8>)
    requires
        record_parts(kind, bytes) is Ok,
    ensures
        ({
            let epoch = record_parts(kind, bytes)->Ok_0.1;
            record_parts(kind, record_bytes(kind, epoch, saved_payload)) == Ok::<_, DecodeError>(
                (Format::V2, epoch, saved_payload),
            )
        }),
{
    law_record_reads_back(kind, record_parts(kind, bytes)->Ok_0.1, saved_payload);
}

/// `result` is what a body of the given kind and format comes to: the epoch at its
/// front and all bytes behind that, or an error that names the kind and the format
/// where no epoch stands there.
pub open spec fn is_body_of<'a>(
    kind: RecordKind,
    format: Format,
    body: Seq<u8>,
    result: Result<Record<'a>, DecodeError>,
) -> bool {
    match result {
        Ok(record) => record.format == format && wire::u64_at_front(body) == Some(
            (record.epoch, record.payload@),
        ),
        Err(error) => error == (DecodeError::Body { kind, format }) && wire::u64_at_front(
            body,
        ) is None,
    }
}

/// The header is the magic and then the number 2 in two little-endian bytes.
pub proof fn law_header_names_the_current_format(magic: &[u8], out: Vec<u8>)
    requires
        call_ensures(header, (magic,), out),
    ensures
        out@.len() == magic@.len() + 2,
        out@.take(magic@.len() as int) == magic@,
        out@[magic@.len() as int] == 2,
        out@[magic@.len() as int + 1] == 0,
{
    assert(out@.take(magic@.len() as int) =~= magic@);
}

/// Reading a header: bytes that do not start with the magic have none; with the
/// magic and fewer than two bytes behind it they are truncated; else those two
/// bytes, the lower one first, are the format's number, and the rest is the body.
pub proof fn law_any_header_reads<'a>(
    bytes: &'a [u8],
    magic: &[u8],
    result: Result<Option<(u16, &'a [u8])>, DecodeError>,
)
    requires
        call_ensures(versioned_payload, (bytes, magic), result),
    ensures
        ({
            let m = magic@.len() as int;
            let has_magic = bytes@.len() >= m && bytes@.take(m) == magic@;
            match result {
                Ok(None) => !has_magic,
                Err(error) => has_magic && bytes@.len() < m + 2 && error
                    == DecodeError::TruncatedHeader,
                Ok(Some((version, body))) => {
                    &&& has_magic
                    &&& bytes@.len() == m + 2 + body@.len()
                    &&& version == bytes@[m] + 256 * bytes@[m + 1]
                    &&& body@ == bytes@.skip(m + 2)
                },
            }
        }),
{
    let m = magic@.len() as int;
    if bytes@.len() >= m {
        assert(bytes@.take(m) =~= bytes@.subrange(0, m));
    }
}

/// A body reads back as its epoch and its payload.
pub proof fn law_body_reads_back(epoch: u64, payload: &[u8], out: Vec<u8>)
    requires
        call_ensures(encode_body, (epoch, payload), out),
    ensures
        wire::u64_at_front(out@) == Some((epoch, payload@)),
{
    wire::law_u64_reads_back(epoch, payload@);
}

/// What a snapshot holds, byte by byte: its magic, the number 2 in two little-endian
/// bytes, and then an epoch and a payload that read back as they were.
pub proof fn law_snapshot_layout(epoch: u64, payload: &[u8], bytes: Vec<u8>)
    requires
        call_ensures(encode_snapshot, (epoch, payload), bytes),
    ensures
        bytes@.len() >= 9,
        bytes@.take(7) == seq![0x4Bu8, 0x48, 0x52, 0x53, 0x43, 0x4E, 0x00],
        bytes@[7] == 2,
        bytes@[8] == 0,
        wire::u64_at_front(bytes@.skip(9)) == Some((epoch, payload@)),
{
    law_record_reads_back(RecordKind::Snapshot, epoch, payload@);
    let magic = RecordKind::Snapshot.magic();
    assert(bytes@.take(7) =~= magic);
    assert(bytes@.skip(9) =~= body_bytes(epoch, payload@));
    wire::law_u64_reads_back(epoch, payload@);
}

/// Decoding a snapshot that was encoded gives the epoch and the payload back, in the
/// current format.
pub proof fn law_snapshot_reads_back<'a>(
    epoch: u64,
    payload: &[u8],
    bytes: Vec<u8>,
    read: &'a [u8],
    result: Result<Record<'a>, DecodeError>,
)
    requires
        call_ensures(encode_snapshot, (epoch, payload), bytes),
        read@ == bytes@,
        call_ensures(decode_snapshot, (read,), result),
    ensures
        result is Ok,
        result->Ok_0.format == Format::V2,
        result->Ok_0.epoch == epoch,
        result->Ok_0.payload@ == payload@,
{
    law_record_reads_back(RecordKind::Snapshot, epoch, payload@);
}

/// How any bytes decode as a snapshot. With the magic, the two bytes behind it say
/// the format: 1 and 2 are read, others are refused by their number, and with
/// fewer than two the header is truncated. Without the magic the bytes are a bare
/// body of the oldest format. A body is an epoch and all that follows it; one
/// without an epoch is refused.
pub proof fn law_any_snapshot_decodes<'a>(bytes: &'a [u8], result: Result<Record<'a>, DecodeError>)
    requires
        call_ensures(decode_snapshot, (bytes,), result),
    ensures
        ({
            let has_magic = bytes@.len() >= 7 && bytes@.take(7) == seq![0x4Bu8, 0x48, 0x52, 0x53, 0x43, 0x4E, 0x00];
            let number = bytes@[7] + 256 * bytes@[8];
            &&& !has_magic ==> is_body_of(RecordKind::Snapshot, Format::LegacyV0, bytes@, result)
            &&& has_magic && bytes@.len() < 9 ==> result == Err::<Record<'a>, _>(
                DecodeError::TruncatedHeader,
            )
            &&& has_magic && bytes@.len() >= 9 && number == 1 ==> is_body_of(
                RecordKind::Snapshot,
                Format::V1,
                bytes@.skip(9),
                result,
            )
            &&& has_magic && bytes@.len() >= 9 && number == 2 ==> is_body_of(
                RecordKind::Snapshot,
                Format::V2,
                bytes@.skip(9),
                result,
            )
            &&& has_magic && bytes@.len() >= 9 && number != 1 && number != 2 ==> result == Err::<
                Record<'a>,
                _,
            >(DecodeError::UnsupportedVersion { version: number as u16 })
        }),
{
    let magic = RecordKind::Snapshot.magic();
    assert(magic =~= seq![0x4Bu8, 0x48, 0x52, 0x53, 0x43, 0x4E, 0x00]);
    if bytes@.len() >= 7 {
        assert(bytes@.take(7) =~= bytes@.subrange(0, 7));
        assert(magic.is_prefix_of(bytes@) <==> bytes@.take(7) == magic);
    }
}

/// What a history frame holds, byte by byte: its magic, the number 2 in two little-endian
/// bytes, and then an epoch and a payload that read back as they were.
pub proof fn law_log_frame_layout(epoch: u64, payload: &[u8], bytes: Vec<u8>)
    requires
        call_ensures(encode_log_frame, (epoch, payload), bytes),
    ensures
        bytes@.len() >= 9,
        bytes@.take(7) == seq![0x4Bu8, 0x48, 0x52, 0x4C, 0x4F, 0x47, 0x00],
        bytes@[7] == 2,
        bytes@[8] == 0,
        wire::u64_at_front(bytes@.skip(9)) == Some((epoch, payload@)),
{
    law_record_reads_back(RecordKind::LogFrame, epoch, payload@);
    let magic = RecordKind::LogFrame.magic();
    assert(bytes@.take(7) =~= magic);
    assert(bytes@.skip(9) =~= body_bytes(epoch, payload@));
    wire::law_u64_reads_back(epoch, payload@);
}

/// Decoding a history frame that was encoded gives the epoch and the payload back, in the
/// current format.
pub proof fn law_log_frame_reads_back<'a>(
    epoch: u64,
    payload: &[u8],
    bytes: Vec<u8>,
    read: &'a [u8],
    result: Result<Record<'a>, DecodeError>,
)
    requires
        call_ensures(encode_log_frame, (epoch, payload), bytes),
        read@ == bytes@,
        call_ensures(decode_log_frame, (read,), result),
    ensures
        result is Ok,
        result->Ok_0.format == Format::V2,
        result->Ok_0.epoch == epoch,
        result->Ok_0.payload@ == payload@,
{
    law_record_reads_back(RecordKind::LogFrame, epoch, payload@);
}

/// How any bytes decode as a history frame. With the magic, the two bytes behind it say
/// the format: 1 and 2 are read, others are refused by their number, and with
/// fewer than two the header is truncated. Without the magic the bytes are a bare
/// body of the oldest format. A body is an epoch and all that follows it; one
/// without an epoch is refused.
pub proof fn law_any_log_frame_decodes<'a>(bytes: &'a [u8], result: Result<Record<'a>, DecodeError>)
    requires
        call_ensures(decode_log_frame, (bytes,), result),
    ensures
        ({
            let has_magic = bytes@.len() >= 7 && bytes@.take(7) == seq![0x4Bu8, 0x48, 0x52, 0x4C, 0x4F, 0x47, 0x00];
            let number = bytes@[7] + 256 * bytes@[8];
            &&& !has_magic ==> is_body_of(RecordKind::LogFrame, Format::LegacyV0, bytes@, result)
            &&& has_magic && bytes@.len() < 9 ==> result == Err::<Record<'a>, _>(
                DecodeError::TruncatedHeader,
            )
            &&& has_magic && bytes@.len() >= 9 && number == 1 ==> is_body_of(
                RecordKind::LogFrame,
                Format::V1,
                bytes@.skip(9),
                result,
            )
            &&& has_magic && bytes@.len() >= 9 && number == 2 ==> is_body_of(
                RecordKind::LogFrame,
                Format::V2,
                bytes@.skip(9),
                result,
            )
            &&& has_magic && bytes@.len() >= 9 && number != 1 && number != 2 ==> result == Err::<
                Record<'a>,
                _,
            >(DecodeError::UnsupportedVersion { version: number as u16 })
        }),
{
    let magic = RecordKind::LogFrame.magic();
    assert(magic =~= seq![0x4Bu8, 0x48, 0x52, 0x4C, 0x4F, 0x47, 0x00]);
    if bytes@.len() >= 7 {
        assert(bytes@.take(7) =~= bytes@.subrange(0, 7));
        assert(magic.is_prefix_of(bytes@) <==> bytes@.take(7) == magic);
    }
}

/// Only the current format is read in the live schema; what was written before is
/// read in the frozen one.
pub proof fn law_only_the_current_format_is_live(format: Format, schema: Schema)
    requires
        call_ensures(Format::schema, (format,), schema),
    ensures
        schema == format.spec_schema(),
        schema == Schema::Live <==> format == Format::V2,
{
}

/// A snapshot keeps its epoch and its format. A live scene is the scene; a frozen
/// one is carried over page by page, under the same keys and in the same order.
pub proof fn law_finished_snapshot_is_what_was_read(
    format: Format,
    epoch: u64,
    parsed: ParsedScene,
    result: (Scene, u64, Format),
)
    requires
        call_ensures(finish_snapshot, (format, epoch, parsed), result),
    ensures
        result.1 == epoch,
        result.2 == format,
        parsed matches ParsedScene::Live(scene) ==> result.0 == scene,
        parsed matches ParsedScene::Frozen(old_scene) ==> {
            let before = crate::ordered::legacy_page_entries(old_scene.pages);
            let after = crate::ordered::page_entries(result.0.pages);
            &&& result.0.project.name == old_scene.project.name
            &&& result.0.project.created_at == old_scene.project.created_at
            &&& result.0.project.updated_at == old_scene.project.updated_at
            &&& result.0.project.style.default_font == old_scene.project.style.default_font
            &&& after.len() == before.len()
            &&& forall|i: int|
                0 <= i < before.len() ==> (#[trigger] after[i]).0 == before[i].0
                    && before[i].1.migrates_to(after[i].1)
        },
{
}

/// A history frame keeps its epoch and its format. A live operation is the
/// operation; a frozen one is migrated.
pub proof fn law_finished_frame_is_what_was_read(
    format: Format,
    epoch: u64,
    parsed: ParsedOp,
    result: (u64, Op, Format),
)
    requires
        call_ensures(finish_log_frame, (format, epoch, parsed), result),
    ensures
        result.0 == epoch,
        result.2 == format,
        parsed matches ParsedOp::Live(op) ==> result.1 == op,
        parsed matches ParsedOp::Frozen(old_op) ==> old_op.migrates_to(result.1),
{
}

/// A decoded payload is taken in the schema of its format: a live one in the
/// current format, a frozen one in the two before.
pub proof fn law_every_parsed_payload_is_taken(
    format: Format,
    epoch: u64,
    scene: ParsedScene,
    op: ParsedOp,
)
    requires
        scene is Live <==> format == Format::V2,
        op is Live <==> format == Format::V2,
    ensures
        call_requires(finish_snapshot, (format, epoch, scene)),
        call_requires(finish_log_frame, (format, epoch, op)),
{
}

/// The message of an error says what is wrong: the format's number where it is
/// unknown, and else the kind of record and the format that it was read in.
pub proof fn law_decode_errors_say_what_is_wrong(error: DecodeError, message: String)
    requires
        call_ensures(DecodeError::message, (&error,), message),
    ensures
        error is TruncatedHeader ==> message@ == "truncated versioned persistence header"@,
        error matches DecodeError::UnsupportedVersion { version } ==> message@
            == "unsupported persistence format version "@ + text::decimal(version as nat),
        error matches DecodeError::Body { kind, format } ==> message@ == match (format, kind) {
            (Format::LegacyV0, RecordKind::Snapshot) => "decode legacy v0 snapshot"@,
            (Format::LegacyV0, RecordKind::LogFrame) => "decode legacy v0 history frame"@,
            (Format::V1, RecordKind::Snapshot) => "decode v1 snapshot"@,
            (Format::V1, RecordKind::LogFrame) => "decode v1 history frame"@,
            (Format::V2, RecordKind::Snapshot) => "decode v2 snapshot"@,
            (Format::V2, RecordKind::LogFrame) => "decode v2 history frame"@,
        },
{
}

} // verus!
