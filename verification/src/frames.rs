//! Cutting frames out of a byte stream and validating the bulk header.

use bytes::BytesMut;
use vstd::prelude::*;
use vstd::string::*;

use crate::buffer::buffer_bytes;
use crate::buffer::buffer_extend;
use crate::buffer::buffer_split;
use crate::buffer::buffered;
use crate::text::decimal;
use crate::text::labelled;
use crate::text::labelled_pair;
use crate::text::numbered;
use crate::text::numbered_pair;
use crate::text::prefixed;
use crate::wire::be_bytes;
use crate::wire::be_u128;
use crate::wire::be_u32;
use crate::wire::be_u64;
use crate::wire::be_value;
use crate::wire::flow_from_wire_spec;
use crate::wire::kind_from_wire_spec;
use crate::wire::BulkFlow;
use crate::wire::BulkKind;
use crate::wire::ClientIncarnation;
use crate::wire::RawFrame;
use crate::wire::WireProfile;
use crate::wire::BULK_PREFIX_SIZE;
use crate::wire::CLIENT_INCARNATION_SIZE;
use crate::wire::FRAME_HEADER_SIZE;
use crate::wire::LEN_PREFIX_SIZE;

verus! {

/// Why a byte stream holds no valid frame.
#[derive(Clone, Copy, Debug, PartialEq, Eq, Structural)]
pub enum FrameError {
    /// The prefix announces more than `max` bytes.
    TooLarge { announced: u32, max: u32 },
    /// The prefix announces less than a frame header.
    TooShort { announced: u32 },
}

impl FrameError {
    pub open spec fn text(self) -> Seq<char> {
        match self {
            FrameError::TooLarge { announced, max } => "agent relay: frame too large: "@ + decimal(
                announced as nat,
            ) + " bytes (max "@ + decimal(max as nat) + ")"@,
            FrameError::TooShort { announced } => "agent relay: frame too short: "@ + decimal(
                announced as nat,
            ) + " bytes"@,
        }
    }

    pub fn message(&self) -> (text: String)
        ensures
            text@ == self.text(),
    {
        match self {
            FrameError::TooLarge { announced, max } => numbered_pair(
                "agent relay: frame too large: ",
                *announced as u64,
                " bytes (max ",
                *max as u64,
                ")",
            ),
            FrameError::TooShort { announced } => numbered(
                "agent relay: frame too short: ",
                *announced as u64,
                " bytes",
            ),
        }
    }
}

/// What the front of a byte stream is.
pub enum FrontFrame {
    /// Not a complete frame yet.
    Partial,
    Invalid(FrameError),
    /// A complete frame of this many bytes, prefix included.
    Complete(nat),
}

/// The length that the first four bytes announce.
pub open spec fn announced_len(stream: Seq<u8>) -> u32 {
    be_value(stream.subrange(0, 4)) as u32
}

/// The frame at the front of `stream`.
pub open spec fn front_frame(max_frame_size: u32, stream: Seq<u8>) -> FrontFrame {
    if stream.len() < LEN_PREFIX_SIZE {
        FrontFrame::Partial
    } else if announced_len(stream) > max_frame_size {
        FrontFrame::Invalid(
            FrameError::TooLarge { announced: announced_len(stream), max: max_frame_size },
        )
    } else if stream.len() < LEN_PREFIX_SIZE + announced_len(stream) {
        FrontFrame::Partial
    } else if announced_len(stream) < FRAME_HEADER_SIZE {
        FrontFrame::Invalid(FrameError::TooShort { announced: announced_len(stream) })
    } else {
        FrontFrame::Complete((LEN_PREFIX_SIZE + announced_len(stream)) as nat)
    }
}

/// The header fields of `frame` are those of the wire bytes `wire`, which it holds.
pub open spec fn frame_is(frame: RawFrame, wire: Seq<u8>) -> bool {
    &&& frame.data@ == wire
    &&& frame.id == be_value(wire.subrange(4, 8))
    &&& frame.flags == wire[8]
}

/// Try to extract a complete frame from a byte buffer.
///
/// Returns `None` if the buffer doesn't contain a full frame yet. On success, the consumed bytes
/// are removed from `buf`.
pub fn try_extract_frame(profile: &WireProfile, buf: &mut BytesMut) -> (result: Result<
    Option<RawFrame>,
    FrameError,
>)
    ensures
        match front_frame(profile.max_frame_size, buffered(*old(buf))) {
            FrontFrame::Partial => result == Ok::<Option<RawFrame>, FrameError>(None) && buffered(
                *final(buf),
            ) == buffered(*old(buf)),
            FrontFrame::Invalid(error) => result == Err::<Option<RawFrame>, FrameError>(error)
                && buffered(*final(buf)) == buffered(*old(buf)),
            FrontFrame::Complete(len) => {
                &&& result matches Ok(Some(frame))
                &&& frame_is(frame, buffered(*old(buf)).subrange(0, len as int))
                &&& buffered(*final(buf)) == buffered(*old(buf)).subrange(
                    len as int,
                    buffered(*old(buf)).len() as int,
                )
            },
        },
{
    let ghost stream = buffered(*buf);
    let bytes = buffer_bytes(buf);
    let held: usize = bytes.len();
    if held < LEN_PREFIX_SIZE {
        return Ok(None);
    }
    let announced: u32 = be_u32(bytes, 0);
    if announced > profile.max_frame_size {
        return Err(FrameError::TooLarge { announced, max: profile.max_frame_size });
    }
    if (held as u64) < LEN_PREFIX_SIZE as u64 + announced as u64 {
        return Ok(None);
    }
    if (announced as usize) < FRAME_HEADER_SIZE {
        return Err(FrameError::TooShort { announced });
    }
    let data = buffer_split(buf, LEN_PREFIX_SIZE + announced as usize);
    Ok(Some(raw_frame_from(data)))
}

/// The frame that the complete wire bytes `data` are.
pub fn raw_frame_from(data: Vec<u8>) -> (frame: RawFrame)
    requires
        data@.len() >= LEN_PREFIX_SIZE + FRAME_HEADER_SIZE,
    ensures
        frame_is(frame, data@),
{
    let id: u32 = be_u32(data.as_slice(), 4);
    let flags: u8 = data[8];
    RawFrame { data, id, flags }
}

/// How many bytes follow a client's length prefix, or why the prefix is refused.
///
/// Read from the client's socket before the body, so that an oversized announcement is refused
/// without waiting for its bytes.
pub fn client_frame_len(profile: &WireProfile, prefix: &[u8]) -> (len: Result<usize, FrameError>)
    requires
        prefix@.len() == LEN_PREFIX_SIZE,
    ensures
        len == if announced_len(prefix@) > profile.max_frame_size {
            Err::<usize, FrameError>(
                FrameError::TooLarge {
                    announced: announced_len(prefix@),
                    max: profile.max_frame_size,
                },
            )
        } else if announced_len(prefix@) < FRAME_HEADER_SIZE {
            Err::<usize, FrameError>(FrameError::TooShort { announced: announced_len(prefix@) })
        } else {
            Ok::<usize, FrameError>(announced_len(prefix@) as usize)
        },
{
    let announced: u32 = be_u32(prefix, 0);
    if announced > profile.max_frame_size {
        return Err(FrameError::TooLarge { announced, max: profile.max_frame_size });
    }
    if (announced as usize) < FRAME_HEADER_SIZE {
        return Err(FrameError::TooShort { announced });
    }
    Ok(announced as usize)
}

/// A byte string that is exactly one valid frame.
pub open spec fn is_wire_frame(max_frame_size: u32, wire: Seq<u8>) -> bool {
    front_frame(max_frame_size, wire) == FrontFrame::Complete(wire.len())
}

/// What follows a frame in the stream does not change the frame.
pub proof fn frame_is_independent_of_what_follows(
    max_frame_size: u32,
    wire: Seq<u8>,
    rest: Seq<u8>,
)
    requires
        is_wire_frame(max_frame_size, wire),
    ensures
        front_frame(max_frame_size, wire + rest) == FrontFrame::Complete(wire.len()),
        (wire + rest).subrange(0, wire.len() as int) == wire,
        (wire + rest).subrange(wire.len() as int, (wire + rest).len() as int) == rest,
{
    assert((wire + rest).subrange(0, 4) =~= wire.subrange(0, 4));
    assert((wire + rest).subrange(0, wire.len() as int) =~= wire);
    assert((wire + rest).subrange(wire.len() as int, (wire + rest).len() as int) =~= rest);
}

/// However a frame is fragmented, every proper prefix of it is kept whole until the rest arrives.
pub proof fn frame_prefix_is_partial(max_frame_size: u32, wire: Seq<u8>, split: int)
    requires
        is_wire_frame(max_frame_size, wire),
        0 <= split < wire.len(),
    ensures
        front_frame(max_frame_size, wire.subrange(0, split)) is Partial,
        wire.subrange(0, split) + wire.subrange(split, wire.len() as int) == wire,
{
    let prefix = wire.subrange(0, split);
    if split >= 4 {
        assert(prefix.subrange(0, 4) =~= wire.subrange(0, 4));
    }
    assert(prefix + wire.subrange(split, wire.len() as int) =~= wire);
}

/// Why a frame is no valid bulk record.
#[derive(Clone, Copy, Debug, PartialEq, Eq, Structural)]
pub enum BulkWireError {
    MissingPayload,
    LengthMismatch,
    NotExclusive,
    UnknownKind(u8),
    UnknownFlow(u8),
    ReservedNotZero,
    PayloadTooLarge { len: usize, max: u32 },
    OffsetOverflow,
}

impl BulkWireError {
    pub open spec fn text(self) -> Seq<char> {
        match self {
            BulkWireError::MissingPayload => "bulk frame is missing its raw payload"@,
            BulkWireError::LengthMismatch => "bulk frame length prefix does not match its wire length"@,
            BulkWireError::NotExclusive => "bulk frame must use the exclusive bulk flag"@,
            BulkWireError::UnknownKind(code) => "unknown bulk kind "@ + decimal(code as nat),
            BulkWireError::UnknownFlow(code) => "unknown bulk flow "@ + decimal(code as nat),
            BulkWireError::ReservedNotZero => "reserved bulk header bytes must be zero"@,
            BulkWireError::PayloadTooLarge { len, max } => "bulk record payload "@ + decimal(
                len as nat,
            ) + " exceeds protocol maximum "@ + decimal(max as nat),
            BulkWireError::OffsetOverflow => "bulk record end offset overflows u64"@,
        }
    }

    pub fn message(&self) -> (text: String)
        ensures
            text@ == self.text(),
    {
        match self {
            BulkWireError::MissingPayload => String::from_str(
                "bulk frame is missing its raw payload",
            ),
            BulkWireError::LengthMismatch => String::from_str(
                "bulk frame length prefix does not match its wire length",
            ),
            BulkWireError::NotExclusive => String::from_str(
                "bulk frame must use the exclusive bulk flag",
            ),
            BulkWireError::UnknownKind(code) => labelled("unknown bulk kind ", *code as u64),
            BulkWireError::UnknownFlow(code) => labelled("unknown bulk flow ", *code as u64),
            BulkWireError::ReservedNotZero => String::from_str(
                "reserved bulk header bytes must be zero",
            ),
            BulkWireError::PayloadTooLarge { len, max } => labelled_pair(
                "bulk record payload ",
                *len as u64,
                " exceeds protocol maximum ",
                *max as u64,
            ),
            BulkWireError::OffsetOverflow => String::from_str(
                "bulk record end offset overflows u64",
            ),
        }
    }
}

/// The stream offset in a bulk frame's header.
pub open spec fn bulk_offset(wire: Seq<u8>) -> u64 {
    be_value(wire.subrange(13, 21)) as u64
}

/// How many payload bytes follow a bulk frame's header.
pub open spec fn bulk_payload_len(wire: Seq<u8>) -> int {
    wire.len() - BULK_PREFIX_SIZE
}

/// The kind, flow, offset and payload length of a bulk frame, or the first rule that it breaks.
pub open spec fn bulk_metadata(profile: WireProfile, wire: Seq<u8>) -> Result<
    (BulkKind, BulkFlow, u64, usize),
    BulkWireError,
> {
    if wire.len() <= BULK_PREFIX_SIZE {
        Err(BulkWireError::MissingPayload)
    } else if announced_len(wire) != wire.len() - LEN_PREFIX_SIZE || announced_len(wire)
        > profile.max_frame_size {
        Err(BulkWireError::LengthMismatch)
    } else if wire[8] != profile.flag_bulk {
        Err(BulkWireError::NotExclusive)
    } else if kind_from_wire_spec(profile, wire[9]) is None {
        Err(BulkWireError::UnknownKind(wire[9]))
    } else if flow_from_wire_spec(profile, wire[10]) is None {
        Err(BulkWireError::UnknownFlow(wire[10]))
    } else if wire[11] != 0 || wire[12] != 0 {
        Err(BulkWireError::ReservedNotZero)
    } else if bulk_payload_len(wire) > profile.max_bulk_payload {
        Err(
            BulkWireError::PayloadTooLarge {
                len: bulk_payload_len(wire) as usize,
                max: profile.max_bulk_payload,
            },
        )
    } else if bulk_offset(wire) + bulk_payload_len(wire) > u64::MAX {
        Err(BulkWireError::OffsetOverflow)
    } else {
        Ok(
            (
                kind_from_wire_spec(profile, wire[9]).unwrap(),
                flow_from_wire_spec(profile, wire[10]).unwrap(),
                bulk_offset(wire),
                bulk_payload_len(wire) as usize,
            ),
        )
    }
}

/// Validate the fixed outer and bulk headers without copying the payload.
pub fn bulk_wire_metadata(profile: &WireProfile, data: &[u8]) -> (result: Result<
    (BulkKind, BulkFlow, u64, usize),
    BulkWireError,
>)
    ensures
        result == bulk_metadata(*profile, data@),
{
    let len: usize = data.len();
    if len <= BULK_PREFIX_SIZE {
        return Err(BulkWireError::MissingPayload);
    }
    let announced: u32 = be_u32(data, 0);
    if announced as u64 != (len - LEN_PREFIX_SIZE) as u64 || announced > profile.max_frame_size {
        return Err(BulkWireError::LengthMismatch);
    }
    if data[8] != profile.flag_bulk {
        return Err(BulkWireError::NotExclusive);
    }
    let kind = match BulkKind::from_wire(profile, data[9]) {
        Some(kind) => kind,
        None => {
            return Err(BulkWireError::UnknownKind(data[9]));
        },
    };
    let flow = match BulkFlow::from_wire(profile, data[10]) {
        Some(flow) => flow,
        None => {
            return Err(BulkWireError::UnknownFlow(data[10]));
        },
    };
    if data[11] != 0 || data[12] != 0 {
        return Err(BulkWireError::ReservedNotZero);
    }
    let offset: u64 = be_u64(data, 13);
    let payload_len: usize = len - BULK_PREFIX_SIZE;
    if payload_len as u64 > profile.max_bulk_payload as u64 {
        return Err(
            BulkWireError::PayloadTooLarge { len: payload_len, max: profile.max_bulk_payload },
        );
    }
    if offset.checked_add(payload_len as u64).is_none() {
        return Err(BulkWireError::OffsetOverflow);
    }
    Ok((kind, flow, offset, payload_len))
}

/// The bytes in front of a bulk record's payload.
pub open spec fn is_bulk_header(
    profile: WireProfile,
    header: Seq<u8>,
    id: u32,
    kind: BulkKind,
    flow: BulkFlow,
    offset: u64,
    payload_len: int,
) -> bool {
    &&& header.len() == BULK_PREFIX_SIZE
    &&& be_value(header.subrange(0, 4)) == BULK_PREFIX_SIZE - LEN_PREFIX_SIZE + payload_len
    &&& be_value(header.subrange(4, 8)) == id
    &&& header[8] == profile.flag_bulk
    &&& header[9] == kind.wire_code(profile)
    &&& header[10] == flow.wire_code(profile)
    &&& header[11] == 0
    &&& header[12] == 0
    &&& be_value(header.subrange(13, 21)) == offset
}

/// Encode everything in front of a bulk record's payload.
pub fn encode_bulk_header(
    profile: &WireProfile,
    id: u32,
    kind: BulkKind,
    flow: BulkFlow,
    offset: u64,
    payload_len: usize,
) -> (header: Vec<u8>)
    requires
        BULK_PREFIX_SIZE - LEN_PREFIX_SIZE + payload_len <= u32::MAX,
    ensures
        is_bulk_header(*profile, header@, id, kind, flow, offset, payload_len as int),
{
    proof {
        reveal_with_fuel(vstd::arithmetic::power::pow, 9);
        assert(vstd::arithmetic::power::pow(256, 4) == 0x1_0000_0000);
        assert(vstd::arithmetic::power::pow(256, 8) == 0x1_0000_0000_0000_0000);
    }
    let announced: usize = BULK_PREFIX_SIZE - LEN_PREFIX_SIZE + payload_len;
    let mut header = be_bytes(announced as u128, 4);
    let ghost length = header@;
    let mut id_bytes = be_bytes(id as u128, 4);
    let ghost ids = id_bytes@;
    header.append(&mut id_bytes);
    header.push(profile.flag_bulk);
    header.push(kind.to_wire(profile));
    header.push(flow.to_wire(profile));
    header.push(0);
    header.push(0);
    let mut offset_bytes = be_bytes(offset as u128, 8);
    let ghost offsets = offset_bytes@;
    header.append(&mut offset_bytes);
    proof {
        assert(header@.subrange(0, 4) =~= length);
        assert(header@.subrange(4, 8) =~= ids);
        assert(header@.subrange(13, 21) =~= offsets);
    }
    header
}

/// A record that is encoded within the protocol's limits is read back as it was: kind, flow,
/// offset and payload length, and the raw interval that the payload covers.
pub proof fn encoded_record_reads_back(
    profile: WireProfile,
    header: Seq<u8>,
    payload: Seq<u8>,
    id: u32,
    kind: BulkKind,
    flow: BulkFlow,
    offset: u64,
)
    requires
        profile.wf(),
        is_bulk_header(profile, header, id, kind, flow, offset, payload.len() as int),
        0 < payload.len() <= profile.max_bulk_payload,
        BULK_PREFIX_SIZE - LEN_PREFIX_SIZE + payload.len() <= profile.max_frame_size,
        offset + payload.len() <= u64::MAX,
        payload.len() <= usize::MAX,
    ensures
        bulk_metadata(profile, header + payload) == Ok::<
            (BulkKind, BulkFlow, u64, usize),
            BulkWireError,
        >((kind, flow, offset, payload.len() as usize)),
        raw_offsets(profile, profile.flag_bulk, header + payload) == Ok::<
            (u64, u64, BulkFlow),
            RawBulkError,
        >((offset, (offset + payload.len()) as u64, flow)),
        be_value((header + payload).subrange(4, 8)) == id,
{
    let wire = header + payload;
    assert(wire.subrange(0, 4) =~= header.subrange(0, 4));
    assert(wire.subrange(4, 8) =~= header.subrange(4, 8));
    assert(wire.subrange(13, 21) =~= header.subrange(13, 21));
}

/// Why the raw header of a guest record cannot be read.
#[derive(Clone, Copy, Debug, PartialEq, Eq, Structural)]
pub enum RawBulkError {
    Malformed,
    ReservedNotZero,
    UnknownFlow(u8),
    OffsetOverflow,
}

impl RawBulkError {
    pub open spec fn text(self) -> Seq<char> {
        match self {
            RawBulkError::Malformed => "agent relay: malformed raw bulk frame"@,
            RawBulkError::ReservedNotZero => "agent relay: nonzero raw bulk reserved bytes"@,
            RawBulkError::UnknownFlow(code) => "agent relay: unknown raw bulk flow "@ + decimal(
                code as nat,
            ),
            RawBulkError::OffsetOverflow => "agent relay: raw bulk offset overflow"@,
        }
    }

    pub fn message(&self) -> (text: String)
        ensures
            text@ == self.text(),
    {
        match self {
            RawBulkError::Malformed => String::from_str("agent relay: malformed raw bulk frame"),
            RawBulkError::ReservedNotZero => String::from_str(
                "agent relay: nonzero raw bulk reserved bytes",
            ),
            RawBulkError::UnknownFlow(code) => labelled(
                "agent relay: unknown raw bulk flow ",
                *code as u64,
            ),
            RawBulkError::OffsetOverflow => String::from_str(
                "agent relay: raw bulk offset overflow",
            ),
        }
    }
}

/// First and end offset and direction of a raw record with these flags.
pub open spec fn raw_offsets(profile: WireProfile, flags: u8, wire: Seq<u8>) -> Result<
    (u64, u64, BulkFlow),
    RawBulkError,
> {
    if flags != profile.flag_bulk || wire.len() <= BULK_PREFIX_SIZE {
        Err(RawBulkError::Malformed)
    } else if wire[11] != 0 || wire[12] != 0 {
        Err(RawBulkError::ReservedNotZero)
    } else if flow_from_wire_spec(profile, wire[10]) is None {
        Err(RawBulkError::UnknownFlow(wire[10]))
    } else if bulk_offset(wire) + bulk_payload_len(wire) > u64::MAX {
        Err(RawBulkError::OffsetOverflow)
    } else {
        Ok(
            (
                bulk_offset(wire),
                (bulk_offset(wire) + bulk_payload_len(wire)) as u64,
                flow_from_wire_spec(profile, wire[10]).unwrap(),
            ),
        )
    }
}

/// Parse the fixed raw header without copying payload bytes or decoding CBOR.
pub fn raw_bulk_offsets(profile: &WireProfile, frame: &RawFrame) -> (result: Result<
    (u64, u64, BulkFlow),
    RawBulkError,
>)
    ensures
        result == raw_offsets(*profile, frame.flags, frame.data@),
{
    let data = frame.data.as_slice();
    let len: usize = data.len();
    if frame.flags != profile.flag_bulk || len <= BULK_PREFIX_SIZE {
        return Err(RawBulkError::Malformed);
    }
    if data[11] != 0 || data[12] != 0 {
        return Err(RawBulkError::ReservedNotZero);
    }
    let flow = match BulkFlow::from_wire(profile, data[10]) {
        Some(flow) => flow,
        None => {
            return Err(RawBulkError::UnknownFlow(data[10]));
        },
    };
    let offset: u64 = be_u64(data, 13);
    match offset.checked_add((len - BULK_PREFIX_SIZE) as u64) {
        Some(end) => Ok((offset, end, flow)),
        None => Err(RawBulkError::OffsetOverflow),
    }
}

/// What stands at the front of the dedicated bulk lane's stream.
pub enum FrontRecord {
    Partial,
    Invalid(LaneFramingError),
    /// A complete record of this many bytes, incarnation included.
    Complete(nat),
}

/// Why the dedicated bulk lane's stream is not framed.
#[derive(Clone, Copy, Debug, PartialEq, Eq, Structural)]
pub enum LaneFramingError {
    Frame(FrameError),
    /// The bulk lane carries nothing but bulk records.
    NotBulk { flags: u8 },
    Record(BulkWireError),
}

impl LaneFramingError {
    pub open spec fn text(self) -> Seq<char> {
        match self {
            LaneFramingError::Frame(error) => error.text(),
            LaneFramingError::NotBulk { flags } => "non-bulk frame with flags "@ + decimal(
                flags as nat,
            ),
            LaneFramingError::Record(error) => error.text(),
        }
    }

    pub fn message(&self) -> (text: String)
        ensures
            text@ == self.text(),
    {
        match self {
            LaneFramingError::Frame(error) => error.message(),
            LaneFramingError::NotBulk { flags } => labelled(
                "non-bulk frame with flags ",
                *flags as u64,
            ),
            LaneFramingError::Record(error) => error.message(),
        }
    }
}

/// The record at the front of the bulk lane's stream: a client incarnation, then one bulk frame.
pub open spec fn front_record(profile: WireProfile, stream: Seq<u8>) -> FrontRecord {
    if stream.len() < CLIENT_INCARNATION_SIZE {
        FrontRecord::Partial
    } else {
        let frames = stream.subrange(CLIENT_INCARNATION_SIZE as int, stream.len() as int);
        match front_frame(profile.max_frame_size, frames) {
            FrontFrame::Partial => FrontRecord::Partial,
            FrontFrame::Invalid(error) => FrontRecord::Invalid(LaneFramingError::Frame(error)),
            FrontFrame::Complete(len) => if frames[8] != profile.flag_bulk {
                FrontRecord::Invalid(LaneFramingError::NotBulk { flags: frames[8] })
            } else {
                match bulk_metadata(profile, frames.subrange(0, len as int)) {
                    Err(error) => FrontRecord::Invalid(LaneFramingError::Record(error)),
                    Ok(_) => FrontRecord::Complete(CLIENT_INCARNATION_SIZE as nat + len),
                }
            },
        }
    }
}

/// Take one incarnation-bearing record off the front of the bulk lane's buffer.
pub fn try_decode_incarnated_bulk(profile: &WireProfile, buf: &mut BytesMut) -> (result: Result<
    Option<(ClientIncarnation, RawFrame)>,
    LaneFramingError,
>)
    ensures
        match front_record(*profile, buffered(*old(buf))) {
            FrontRecord::Partial => result == Ok::<
                Option<(ClientIncarnation, RawFrame)>,
                LaneFramingError,
            >(None) && buffered(*final(buf)) == buffered(*old(buf)),
            FrontRecord::Invalid(error) => result == Err::<
                Option<(ClientIncarnation, RawFrame)>,
                LaneFramingError,
            >(error) && buffered(*final(buf)) == buffered(*old(buf)),
            FrontRecord::Complete(len) => {
                &&& result matches Ok(Some((incarnation, frame)))
                &&& incarnation == be_value(
                    buffered(*old(buf)).subrange(0, CLIENT_INCARNATION_SIZE as int),
                )
                &&& frame_is(
                    frame,
                    buffered(*old(buf)).subrange(CLIENT_INCARNATION_SIZE as int, len as int),
                )
                &&& buffered(*final(buf)) == buffered(*old(buf)).subrange(
                    len as int,
                    buffered(*old(buf)).len() as int,
                )
            },
        },
{
    let ghost stream = buffered(*buf);
    let bytes = buffer_bytes(buf);
    let held: usize = bytes.len();
    if held < CLIENT_INCARNATION_SIZE {
        return Ok(None);
    }
    let ghost frames = stream.subrange(CLIENT_INCARNATION_SIZE as int, stream.len() as int);
    let frames_held: usize = held - CLIENT_INCARNATION_SIZE;
    if frames_held < LEN_PREFIX_SIZE {
        return Ok(None);
    }
    let announced: u32 = be_u32(bytes, CLIENT_INCARNATION_SIZE);
    assert(frames.subrange(0, 4) =~= stream.subrange(16, 20));
    if announced > profile.max_frame_size {
        return Err(
            LaneFramingError::Frame(
                FrameError::TooLarge { announced, max: profile.max_frame_size },
            ),
        );
    }
    if (frames_held as u64) < LEN_PREFIX_SIZE as u64 + announced as u64 {
        return Ok(None);
    }
    if (announced as usize) < FRAME_HEADER_SIZE {
        return Err(LaneFramingError::Frame(FrameError::TooShort { announced }));
    }
    let flags: u8 = bytes[CLIENT_INCARNATION_SIZE + 8];
    if flags != profile.flag_bulk {
        return Err(LaneFramingError::NotBulk { flags });
    }
    let wire_len: usize = LEN_PREFIX_SIZE + announced as usize;
    let record = vstd::slice::slice_subrange(
        bytes,
        CLIENT_INCARNATION_SIZE,
        CLIENT_INCARNATION_SIZE + wire_len,
    );
    assert(record@ =~= frames.subrange(0, wire_len as int));
    match bulk_wire_metadata(profile, record) {
        Err(error) => {
            return Err(LaneFramingError::Record(error));
        },
        Ok(_) => {},
    }
    let incarnation: ClientIncarnation = be_u128(bytes, 0);
    let owner = buffer_split(buf, CLIENT_INCARNATION_SIZE);
    let data = buffer_split(buf, wire_len);
    assert(data@ =~= stream.subrange(16, 16 + wire_len));
    assert(buffered(*buf) =~= stream.subrange(16 + wire_len, stream.len() as int));
    Ok(Some((incarnation, raw_frame_from(data))))
}

/// A byte string that is exactly one valid record of the bulk lane.
pub open spec fn is_wire_record(profile: WireProfile, wire: Seq<u8>) -> bool {
    front_record(profile, wire) == FrontRecord::Complete(wire.len())
}

/// A record's proper prefixes are kept whole, and what follows a record does not change it.
pub proof fn record_survives_fragmentation(
    profile: WireProfile,
    wire: Seq<u8>,
    split: int,
    rest: Seq<u8>,
)
    requires
        is_wire_record(profile, wire),
        0 <= split < wire.len(),
    ensures
        front_record(profile, wire.subrange(0, split)) is Partial,
        wire.subrange(0, split) + wire.subrange(split, wire.len() as int) == wire,
        front_record(profile, wire + rest) == FrontRecord::Complete(wire.len()),
        (wire + rest).subrange(wire.len() as int, (wire + rest).len() as int) == rest,
{
    let frame = wire.subrange(16, wire.len() as int);
    assert(wire.subrange(0, split) + wire.subrange(split, wire.len() as int) =~= wire);
    assert((wire + rest).subrange(wire.len() as int, (wire + rest).len() as int) =~= rest);
    assert(frame.subrange(0, frame.len() as int) =~= frame);
    assert(is_wire_frame(profile.max_frame_size, frame));
    if split > 16 {
        frame_prefix_is_partial(profile.max_frame_size, frame, split - 16);
        assert(wire.subrange(0, split).subrange(16, split) =~= frame.subrange(0, split - 16));
    } else if split == 16 {
        assert(wire.subrange(0, split).subrange(16, split).len() == 0);
    }
    frame_is_independent_of_what_follows(profile.max_frame_size, frame, rest);
    assert((wire + rest).subrange(16, (wire + rest).len() as int) =~= frame + rest);
    assert((frame + rest).subrange(0, frame.len() as int) =~= frame);
}

/// What is left of a stream after its complete records, with the bytes those records held; or the
/// first framing error, with what starts at the record that cannot be framed.
pub open spec fn discard_records(profile: WireProfile, stream: Seq<u8>) -> Result<
    (nat, Seq<u8>),
    (LaneFramingError, Seq<u8>),
>
    decreases stream.len(),
{
    match front_record(profile, stream) {
        FrontRecord::Partial => Ok((0, stream)),
        FrontRecord::Invalid(error) => Err((error, stream)),
        FrontRecord::Complete(len) => if 0 < len <= stream.len() {
            match discard_records(profile, stream.subrange(len as int, stream.len() as int)) {
                Ok((bytes, rest)) => Ok((bytes + len, rest)),
                Err(error) => Err(error),
            }
        } else {
            Ok((0, stream))
        },
    }
}

/// Why the records of a restored lane cannot be framed: the captured prefix is missing.
#[derive(Clone, Copy, Debug, PartialEq, Eq, Structural)]
pub struct RestoredFraming(pub LaneFramingError);

impl RestoredFraming {
    pub open spec fn text(self) -> Seq<char> {
        "restored bulk framing: "@ + self.0.text()
    }

    pub fn message(&self) -> (text: String)
        ensures
            text@ == self.text(),
    {
        let detail = self.0.message();
        prefixed("restored bulk framing: ", detail.as_str())
    }
}

/// Discard complete pre-activation records, retaining a possible fragmented tail.
///
/// `chunk` is what the console handed over; the result counts the discarded record bytes.
pub fn drain_restored_bulk(profile: &WireProfile, input: &mut BytesMut, chunk: &[u8]) -> (result:
    Result<usize, RestoredFraming>)
    requires
        buffered(*old(input)).len() + chunk@.len() <= isize::MAX / 2,
    ensures
        match discard_records(*profile, buffered(*old(input)) + chunk@) {
            Ok((bytes, rest)) => result == Ok::<usize, RestoredFraming>(bytes as usize) && bytes
                <= usize::MAX && buffered(*final(input)) == rest,
            Err((error, rest)) => result == Err::<usize, RestoredFraming>(RestoredFraming(error))
                && buffered(*final(input)) == rest,
        },
{
    buffer_extend(input, chunk);
    let ghost stream = buffered(*input);
    let mut decoded_bytes: usize = 0;
    loop
        invariant
            decoded_bytes + buffered(*input).len() == stream.len(),
            stream == buffered(*old(input)) + chunk@,
            stream.len() <= isize::MAX / 2,
            match discard_records(*profile, stream) {
                Ok((bytes, rest)) => discard_records(*profile, buffered(*input)) matches Ok((b, r))
                    && r == rest && b + decoded_bytes == bytes,
                Err(refused) => discard_records(*profile, buffered(*input)) == Err::<
                    (nat, Seq<u8>),
                    (LaneFramingError, Seq<u8>),
                >(refused),
            },
        ensures
            front_record(*profile, buffered(*input)) is Partial,
        decreases buffered(*input).len(),
    {
        match try_decode_incarnated_bulk(profile, input) {
            Err(error) => {
                return Err(RestoredFraming(error));
            },
            Ok(None) => {
                break;
            },
            Ok(Some((_, frame))) => {
                decoded_bytes = decoded_bytes + (CLIENT_INCARNATION_SIZE + frame.data.len());
            },
        }
    }
    Ok(decoded_bytes)
}

/// A frame is as long as its prefix says, and is taken once it is there: it holds five bytes of
/// header at least, and no more than the protocol allows. Too much is refused before it arrives.
pub proof fn frames_end_where_announced(max_frame_size: u32, stream: Seq<u8>)
    requires
        stream.len() >= 4,
    ensures
        ({
            let n = be_value(stream.subrange(0, 4));
            let front = front_frame(max_frame_size, stream);
            &&& front == FrontFrame::Complete(4 + n) <==> 5 <= n <= max_frame_size && 4 + n
                <= stream.len()
            &&& front is Complete ==> front == FrontFrame::Complete(4 + n)
            &&& front == FrontFrame::Invalid(
                FrameError::TooLarge { announced: n as u32, max: max_frame_size },
            ) <==> n > max_frame_size
            &&& front == FrontFrame::Invalid(FrameError::TooShort { announced: n as u32 }) <==> n < 5
                && n <= max_frame_size && 4 + n <= stream.len()
            &&& front is Partial <==> n <= max_frame_size && stream.len() < 4 + n
        }),
{
    crate::wire::lemma_be_value_bounds(stream.subrange(0, 4));
}

/// A bulk record is taken exactly where all of this holds: it has a payload, its length is the one
/// that it announces and allowed, it carries the bulk flag alone, a known kind and direction and zero
/// reserved bytes, and its payload is allowed and ends at an offset that can be counted. It is then
/// read field by field from its header.
pub proof fn records_keep_every_rule(profile: WireProfile, wire: Seq<u8>)
    requires
        profile.wf(),
    ensures
        ({
            let n = be_value(wire.subrange(0, 4));
            let offset = be_value(wire.subrange(13, 21));
            let result = bulk_metadata(profile, wire);
            &&& result is Ok <==> {
                &&& wire.len() > 21
                &&& n == wire.len() - 4
                &&& n <= profile.max_frame_size
                &&& wire[8] == profile.flag_bulk
                &&& wire[9] == profile.kind_filesystem || wire[9] == profile.kind_tcp
                &&& wire[10] == profile.flow_host_to_guest || wire[10]
                    == profile.flow_guest_to_host
                &&& wire[11] == 0 && wire[12] == 0
                &&& wire.len() - 21 <= profile.max_bulk_payload
                &&& offset + (wire.len() - 21) <= u64::MAX
            }
            &&& result matches Ok((kind, flow, from, payload_len)) ==> {
                &&& kind == BulkKind::Filesystem <==> wire[9] == profile.kind_filesystem
                &&& flow == BulkFlow::HostToGuest <==> wire[10] == profile.flow_host_to_guest
                &&& from == offset
                &&& payload_len <= usize::MAX && wire.len() <= usize::MAX ==> payload_len
                    == wire.len() - 21
            }
            &&& result matches Err(error) ==> match error {
                BulkWireError::MissingPayload => wire.len() <= 21,
                BulkWireError::LengthMismatch => n != wire.len() - 4 || n > profile.max_frame_size,
                BulkWireError::NotExclusive => wire[8] != profile.flag_bulk,
                BulkWireError::UnknownKind(code) => code == wire[9] && code
                    != profile.kind_filesystem && code != profile.kind_tcp,
                BulkWireError::UnknownFlow(code) => code == wire[10] && code
                    != profile.flow_host_to_guest && code != profile.flow_guest_to_host,
                BulkWireError::ReservedNotZero => wire[11] != 0 || wire[12] != 0,
                BulkWireError::PayloadTooLarge { max, .. } => max == profile.max_bulk_payload
                    && wire.len() - 21 > max,
                BulkWireError::OffsetOverflow => offset + (wire.len() - 21) > u64::MAX,
            }
        }),
{
    if wire.len() >= 21 {
        crate::wire::lemma_be_value_bounds(wire.subrange(0, 4));
        crate::wire::lemma_be_value_bounds(wire.subrange(13, 21));
    }
}

/// The raw interval of a guest record begins at its offset and is as long as its payload; the two
/// ways of reading a record's header agree on every record that keeps all the rules.
pub proof fn raw_interval_covers_the_payload(profile: WireProfile, wire: Seq<u8>)
    requires
        profile.wf(),
        wire.len() <= usize::MAX,
        bulk_metadata(profile, wire) is Ok,
    ensures
        raw_offsets(profile, wire[8], wire) matches Ok((start, end, flow)) && ({
            let (_, direction, offset, payload_len) = bulk_metadata(profile, wire)->Ok_0;
            start == offset && end == offset + payload_len && flow == direction && start < end && end
                - start == wire.len() - 21
        }),
        forall|flags: u8|
            flags != profile.flag_bulk ==> #[trigger] raw_offsets(profile, flags, wire) is Err,
{
}

/// A record of the bulk lane is the identity of its client and one bulk frame: it is taken exactly
/// where the frame is one that keeps all the rules.
pub proof fn lane_records_are_owned_frames(profile: WireProfile, owner: Seq<u8>, frame: Seq<u8>)
    requires
        owner.len() == 16,
        is_wire_frame(profile.max_frame_size, frame),
    ensures
        ({
            let front = front_record(profile, owner + frame);
            &&& front == FrontRecord::Complete(16 + frame.len()) <==> bulk_metadata(
                profile,
                frame,
            ) is Ok
            &&& front is Partial ==> false
            &&& frame[8] != profile.flag_bulk ==> front == FrontRecord::Invalid(
                LaneFramingError::NotBulk { flags: frame[8] },
            )
            &&& frame[8] == profile.flag_bulk && bulk_metadata(profile, frame) is Err ==> front
                == FrontRecord::Invalid(
                LaneFramingError::Record(bulk_metadata(profile, frame)->Err_0),
            )
        }),
{
    assert((owner + frame).subrange(16, (owner + frame).len() as int) =~= frame);
    assert(frame.subrange(0, frame.len() as int) =~= frame);
}

/// Discarding takes whole records off the front and keeps the rest byte for byte: what is counted
/// and what is kept make up the stream, and what is kept begins with no complete record. A failure
/// shows the record that could not be framed.
pub proof fn discarding_keeps_the_tail(profile: WireProfile, stream: Seq<u8>)
    ensures
        match discard_records(profile, stream) {
            Ok((bytes, rest)) => {
                &&& bytes + rest.len() == stream.len()
                &&& rest == stream.subrange(bytes as int, stream.len() as int)
                &&& front_record(profile, rest) is Partial
            },
            Err((error, rest)) => {
                &&& rest.len() <= stream.len()
                &&& rest == stream.subrange(stream.len() - rest.len(), stream.len() as int)
                &&& front_record(profile, rest) == FrontRecord::Invalid(error)
            },
        },
    decreases stream.len(),
{
    assert(stream.subrange(0, stream.len() as int) =~= stream);
    if let FrontRecord::Complete(len) = front_record(profile, stream) {
        let frames = stream.subrange(16, stream.len() as int);
        assert(0 < len <= stream.len());
        let tail = stream.subrange(len as int, stream.len() as int);
        discarding_keeps_the_tail(profile, tail);
        match discard_records(profile, tail) {
            Ok((bytes, rest)) => {
                assert(tail.subrange(bytes as int, tail.len() as int) =~= stream.subrange(
                    (bytes + len) as int,
                    stream.len() as int,
                ));
            },
            Err((_, rest)) => {
                assert(tail.subrange(tail.len() - rest.len(), tail.len() as int)
                    =~= stream.subrange(stream.len() - rest.len(), stream.len() as int));
            },
        }
    }
}

} // verus!
