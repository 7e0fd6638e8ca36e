//! Versioned command/response wire protocol of the hardware link.
//!
//! A packet is `[version: u8][sequence: u32, big-endian][payload]`, the
//! payload a tagged union of commands or responses; a fixed protocol version
//! must match on both sides, and an oversized payload is rejected before
//! transmission, never truncated.  The framed codec below additionally
//! carries unit id and payload length in a fixed ten-byte header.
//!
//! All encoders and decoders here are verified against sequence-level
//! specification functions, and round-trip laws relate them.

use vstd::prelude::*;

use crate::types::{Activation, Operation, OperationStatus, Status, UnitId, UNIT_COUNT};
use crate::errors::HardwareError;

verus! {

/// Protocol version expected on both sides of the link.
pub const PROTOCOL_VERSION: u8 = 1;

/// Maximum packet size in bytes.
pub const MAX_PACKET_SIZE: usize = 1024;

// ---------------------------------------------------------------------------
// Big-endian integer primitives
// ---------------------------------------------------------------------------

/// Big-endian bytes of a 16-bit integer.
pub open spec fn spec_u16_be(v: u16) -> Seq<u8> {
    seq![(v / 256) as u8, (v % 256) as u8]
}

/// Value of two big-endian bytes.
pub open spec fn combine16(b0: u8, b1: u8) -> int {
    b0 * 256 + b1
}

/// Big-endian bytes of a 32-bit integer.
pub open spec fn spec_u32_be(v: u32) -> Seq<u8> {
    seq![
        (v / 0x1000000) as u8,
        ((v / 0x10000) % 0x100) as u8,
        ((v / 0x100) % 0x100) as u8,
        (v % 0x100) as u8,
    ]
}

/// Value of four big-endian bytes.
pub open spec fn combine32(b0: u8, b1: u8, b2: u8, b3: u8) -> int {
    b0 * 0x1000000 + b1 * 0x10000 + b2 * 0x100 + b3
}

/// Reading back the big-endian bytes of a 16-bit value gives the value.
pub proof fn lemma_u16_be_roundtrip(v: u16)
    ensures
        combine16(spec_u16_be(v)[0], spec_u16_be(v)[1]) == v,
{
}

/// Reading back the big-endian bytes of a 32-bit value gives the value.
pub proof fn lemma_u32_be_roundtrip(v: u32)
    ensures
        combine32(spec_u32_be(v)[0], spec_u32_be(v)[1], spec_u32_be(v)[2], spec_u32_be(v)[3]) == v,
{
    assert((v / 0x1000000) * 0x1000000 + ((v / 0x10000) % 0x100) * 0x10000 + ((v / 0x100) % 0x100)
        * 0x100 + (v % 0x100) == v) by (bit_vector);
}

/// Append the big-endian bytes of a 16-bit integer.
fn push_u16_be(buf: &mut Vec<u8>, v: u16)
    ensures
        final(buf)@ =~= old(buf)@ + spec_u16_be(v),
{
    buf.push((v / 256) as u8);
    buf.push((v % 256) as u8);
}

/// Append the big-endian bytes of a 32-bit integer.
fn push_u32_be(buf: &mut Vec<u8>, v: u32)
    ensures
        final(buf)@ =~= old(buf)@ + spec_u32_be(v),
{
    buf.push((v / 0x1000000) as u8);
    buf.push(((v / 0x10000) % 0x100) as u8);
    buf.push(((v / 0x100) % 0x100) as u8);
    buf.push((v % 0x100) as u8);
}

/// Read a big-endian 16-bit integer at position `i`.
fn read_u16_be(bytes: &[u8], i: usize) -> (r: u16)
    requires
        i + 2 <= bytes@.len(),
    ensures
        r == combine16(bytes@[i as int], bytes@[i + 1]),
{
    (bytes[i] as u16) * 256 + (bytes[i + 1] as u16)
}

/// Read a big-endian 32-bit integer at position `i`.
fn read_u32_be(bytes: &[u8], i: usize) -> (r: u32)
    requires
        i + 4 <= bytes@.len(),
    ensures
        r == combine32(bytes@[i as int], bytes@[i + 1], bytes@[i + 2], bytes@[i + 3]),
{
    (bytes[i] as u32) * 0x1000000 + (bytes[i + 1] as u32) * 0x10000 + (bytes[i + 2] as u32) * 0x100
        + (bytes[i + 3] as u32)
}

// ---------------------------------------------------------------------------
// Packet header
// ---------------------------------------------------------------------------

/// Packet type identifiers.
#[derive(Debug, Clone, Copy, PartialEq, Eq, Structural)]
pub enum PacketType {
    /// A command travelling towards the hardware.
    Command,
    /// A response travelling back.
    Response,
    /// An error report.
    Error,
}

impl PacketType {
    /// Wire code of this packet type.
    pub open spec fn spec_code(self) -> u8 {
        match self {
            PacketType::Command => 0x01,
            PacketType::Response => 0x02,
            PacketType::Error => 0xFF,
        }
    }

    /// Wire code of this packet type.
    pub fn code(self) -> (r: u8)
        ensures
            r == self.spec_code(),
    {
        match self {
            PacketType::Command => 0x01,
            PacketType::Response => 0x02,
            PacketType::Error => 0xFF,
        }
    }
}

/// Fixed ten-byte packet header of the framed codec.
#[derive(Debug, Clone, Copy, PartialEq, Eq, Structural)]
pub struct PacketHeader {
    /// Protocol version.
    pub version: u8,
    /// Packet type code.
    pub packet_type: u8,
    /// Target unit id.
    pub unit_id: u16,
    /// Packet sequence number.
    pub sequence: u32,
    /// Payload length in bytes.
    pub length: u16,
}

/// The ten bytes of a header on the wire.
pub open spec fn spec_header_bytes(h: PacketHeader) -> Seq<u8> {
    seq![h.version, h.packet_type] + spec_u16_be(h.unit_id) + spec_u32_be(h.sequence) + spec_u16_be(
        h.length,
    )
}

/// The header encoded in the first ten bytes of a packet.
pub open spec fn spec_parse_header(b: Seq<u8>) -> PacketHeader {
    PacketHeader {
        version: b[0],
        packet_type: b[1],
        unit_id: combine16(b[2], b[3]) as u16,
        sequence: combine32(b[4], b[5], b[6], b[7]) as u32,
        length: combine16(b[8], b[9]) as u16,
    }
}

/// Parsing the serialized bytes of a header gives the header back, whatever
/// follows them.
pub proof fn lemma_header_roundtrip(h: PacketHeader, rest: Seq<u8>)
    ensures
        spec_parse_header(spec_header_bytes(h) + rest) == h,
{
    let b = spec_header_bytes(h) + rest;
    lemma_u16_be_roundtrip(h.unit_id);
    lemma_u32_be_roundtrip(h.sequence);
    lemma_u16_be_roundtrip(h.length);
    assert(b[2] == spec_u16_be(h.unit_id)[0] && b[3] == spec_u16_be(h.unit_id)[1]);
    assert(b[4] == spec_u32_be(h.sequence)[0] && b[5] == spec_u32_be(h.sequence)[1] && b[6]
        == spec_u32_be(h.sequence)[2] && b[7] == spec_u32_be(h.sequence)[3]);
    assert(b[8] == spec_u16_be(h.length)[0] && b[9] == spec_u16_be(h.length)[1]);
}

impl PacketHeader {
    /// Create a new packet header for the current protocol version.
    pub fn new(packet_type: PacketType, unit_id: UnitId, sequence: u32, length: u16) -> (r:
        PacketHeader)
        requires
            unit_id.wf(),
        ensures
            r == (PacketHeader {
                version: PROTOCOL_VERSION,
                packet_type: packet_type.spec_code(),
                unit_id: unit_id.0 as u16,
                sequence,
                length,
            }),
    {
        PacketHeader {
            version: PROTOCOL_VERSION,
            packet_type: packet_type.code(),
            unit_id: unit_id.raw() as u16,
            sequence,
            length,
        }
    }

    /// Serialize the header to its ten wire bytes.
    pub fn serialize(&self) -> (r: Vec<u8>)
        ensures
            r@ =~= spec_header_bytes(*self),
            r@.len() == 10,
    {
        let mut buf: Vec<u8> = Vec::new();
        buf.push(self.version);
        buf.push(self.packet_type);
        push_u16_be(&mut buf, self.unit_id);
        push_u32_be(&mut buf, self.sequence);
        push_u16_be(&mut buf, self.length);
        buf
    }

    /// Deserialize a header from the first ten bytes of a packet; fails on a
    /// packet shorter than the header.
    pub fn deserialize(bytes: &[u8]) -> (r: Result<PacketHeader, HardwareError>)
        ensures
            bytes@.len() >= 10 ==> r == Ok::<PacketHeader, HardwareError>(
                spec_parse_header(bytes@),
            ),
            bytes@.len() < 10 ==> r is Err,
            r matches Err(e) ==> e is Protocol,
    {
        if bytes.len() < 10 {
            return Err(HardwareError::Protocol("packet shorter than header".to_owned()));
        }
        Ok(PacketHeader {
            version: bytes[0],
            packet_type: bytes[1],
            unit_id: read_u16_be(bytes, 2),
            sequence: read_u32_be(bytes, 4),
            length: read_u16_be(bytes, 8),
        })
    }
}

} // verus!

use vstd::utf8::{decode_utf8, encode_utf8, valid_utf8};
use vstd::string::StringSliceAdditionalSpecFns;

verus! {

// ---------------------------------------------------------------------------
// Operation payload encoding
// ---------------------------------------------------------------------------

/// All unit ids inside an operation are in range.
pub open spec fn wf_operation(op: Operation) -> bool {
    match op {
        Operation::Copy { source } => source.wf(),
        Operation::Add { source } => source.wf(),
        _ => true,
    }
}

/// Wire bytes of one operation.
pub open spec fn spec_op_bytes(op: Operation) -> Seq<u8> {
    match op {
        Operation::Nop => seq![0u8],
        Operation::Copy { source } => seq![1u8] + spec_u16_be(source.0 as u16),
        Operation::Add { source } => seq![2u8] + spec_u16_be(source.0 as u16),
        Operation::Activate { function } => seq![
            3u8,
            match function {
                Activation::Tanh => 0u8,
                Activation::ReLU => 1u8,
            },
        ],
    }
}

/// The bytes at `i` hold a well-formed operation encoding.
pub open spec fn op_shape_ok(b: Seq<u8>, i: int) -> bool {
    &&& 0 <= i < b.len()
    &&& if b[i] == 0 {
        true
    } else if b[i] == 1 || b[i] == 2 {
        i + 3 <= b.len() && combine16(b[i + 1], b[i + 2]) < UNIT_COUNT
    } else if b[i] == 3 {
        i + 2 <= b.len() && (b[i + 1] == 0 || b[i + 1] == 1)
    } else {
        false
    }
}

/// Length of the operation encoding starting at `i`.
pub open spec fn op_len(b: Seq<u8>, i: int) -> int {
    if b[i] == 0 {
        1
    } else if b[i] == 1 || b[i] == 2 {
        3
    } else {
        2
    }
}

/// The operation encoded at `i`.
pub open spec fn spec_op_at(b: Seq<u8>, i: int) -> Operation {
    if b[i] == 0 {
        Operation::Nop
    } else if b[i] == 1 {
        Operation::Copy { source: UnitId(combine16(b[i + 1], b[i + 2]) as usize) }
    } else if b[i] == 2 {
        Operation::Add { source: UnitId(combine16(b[i + 1], b[i + 2]) as usize) }
    } else {
        Operation::Activate {
            function: if b[i + 1] == 0 {
                Activation::Tanh
            } else {
                Activation::ReLU
            },
        }
    }
}

/// Append the wire bytes of one operation.
fn push_operation(buf: &mut Vec<u8>, op: &Operation)
    requires
        wf_operation(*op),
    ensures
        final(buf)@ =~= old(buf)@ + spec_op_bytes(*op),
{
    match op {
        Operation::Nop => {
            buf.push(0);
        },
        Operation::Copy { source } => {
            buf.push(1);
            push_u16_be(buf, source.raw() as u16);
        },
        Operation::Add { source } => {
            buf.push(2);
            push_u16_be(buf, source.raw() as u16);
        },
        Operation::Activate { function } => {
            buf.push(3);
            match function {
                Activation::Tanh => buf.push(0),
                Activation::ReLU => buf.push(1),
            }
        },
    }
}

/// Parse one operation at position `i`.
fn parse_operation(bytes: &[u8], i: usize) -> (r: Option<(Operation, usize)>)
    requires
        i <= bytes@.len(),
    ensures
        r is Some <==> op_shape_ok(bytes@, i as int),
        r matches Some((op, end)) ==> op == spec_op_at(bytes@, i as int) && end == i + op_len(
            bytes@,
            i as int,
        ) && end <= bytes@.len() && wf_operation(op),
{
    if i >= bytes.len() {
        return None;
    }
    let tag = bytes[i];
    if tag == 0 {
        Some((Operation::Nop, i + 1))
    } else if tag == 1 || tag == 2 {
        if bytes.len() - i >= 3 {
            let raw = read_u16_be(bytes, i + 1);
            if (raw as usize) < UNIT_COUNT {
                let unit = UnitId(raw as usize);
                if tag == 1 {
                    Some((Operation::Copy { source: unit }, i + 3))
                } else {
                    Some((Operation::Add { source: unit }, i + 3))
                }
            } else {
                None
            }
        } else {
            None
        }
    } else if tag == 3 {
        if bytes.len() - i >= 2 {
            if bytes[i + 1] == 0 {
                Some((Operation::Activate { function: Activation::Tanh }, i + 2))
            } else if bytes[i + 1] == 1 {
                Some((Operation::Activate { function: Activation::ReLU }, i + 2))
            } else {
                None
            }
        } else {
            None
        }
    } else {
        None
    }
}

/// Parsing the encoding of a well-formed operation, wherever it stands in a
/// packet, gives the operation back.
pub proof fn lemma_operation_roundtrip(pre: Seq<u8>, op: Operation, suf: Seq<u8>)
    requires
        wf_operation(op),
    ensures
        op_shape_ok(pre + spec_op_bytes(op) + suf, pre.len() as int),
        spec_op_at(pre + spec_op_bytes(op) + suf, pre.len() as int) == op,
        op_len(pre + spec_op_bytes(op) + suf, pre.len() as int) == spec_op_bytes(op).len(),
{
    let b = pre + spec_op_bytes(op) + suf;
    let i = pre.len() as int;
    match op {
        Operation::Nop => {
            assert(b[i] == 0);
        },
        Operation::Copy { source } => {
            assert(b[i] == 1);
            assert(b[i + 1] == spec_u16_be(source.0 as u16)[0]);
            assert(b[i + 2] == spec_u16_be(source.0 as u16)[1]);
            lemma_u16_be_roundtrip(source.0 as u16);
        },
        Operation::Add { source } => {
            assert(b[i] == 2);
            assert(b[i + 1] == spec_u16_be(source.0 as u16)[0]);
            assert(b[i + 2] == spec_u16_be(source.0 as u16)[1]);
            lemma_u16_be_roundtrip(source.0 as u16);
        },
        Operation::Activate { function } => {
            assert(b[i] == 3);
            assert(b[i + 1] == spec_op_bytes(op)[1]);
        },
    }
}

} // verus!

verus! {

// ---------------------------------------------------------------------------
// Commands and responses
// ---------------------------------------------------------------------------

/// Commands that can be sent to the unit array.
#[derive(Debug, Clone)]
pub enum Command {
    /// Execute an operation on a unit.
    Execute { unit_id: UnitId, operation: Operation },
    /// Reset one unit.
    Reset { unit_id: UnitId },
    /// Query the status of one unit, or of the whole array.
    QueryStatus { unit_id: Option<UnitId> },
    /// Reset the whole array.
    SystemReset,
}

/// Responses from the unit array.  Temperature is reported in milli-degrees
/// Celsius and utilization in per-mille, as plain integers.
#[derive(Debug, Clone)]
pub enum Response {
    /// Status of one operation on one unit.
    Status { unit_id: UnitId, status: OperationStatus },
    /// An error report.
    Error { code: u8, message: String },
    /// Global status of the array.
    SystemStatus { temperature: u32, utilization: u32 },
}

/// All unit ids inside a command are in range.
pub open spec fn wf_command(c: Command) -> bool {
    match c {
        Command::Execute { unit_id, operation } => unit_id.wf() && wf_operation(operation),
        Command::Reset { unit_id } => unit_id.wf(),
        Command::QueryStatus { unit_id } => match unit_id {
            Some(u) => u.wf(),
            None => true,
        },
        Command::SystemReset => true,
    }
}

/// All unit ids inside a response are in range.
pub open spec fn wf_response(r: Response) -> bool {
    match r {
        Response::Status { unit_id, .. } => unit_id.wf(),
        _ => true,
    }
}

/// Payload bytes of a command.
pub open spec fn spec_cmd_payload(c: Command) -> Seq<u8> {
    match c {
        Command::Execute { unit_id, operation } => seq![0u8] + spec_u16_be(unit_id.0 as u16)
            + spec_op_bytes(operation),
        Command::Reset { unit_id } => seq![1u8] + spec_u16_be(unit_id.0 as u16),
        Command::QueryStatus { unit_id } => match unit_id {
            None => seq![2u8, 0u8],
            Some(u) => seq![2u8, 1u8] + spec_u16_be(u.0 as u16),
        },
        Command::SystemReset => seq![3u8],
    }
}

/// Wire bytes of an operation status.
pub open spec fn spec_status_bytes(st: OperationStatus) -> Seq<u8> {
    match st {
        OperationStatus::Success => seq![0u8],
        OperationStatus::Failed { code } => seq![1u8, code],
        OperationStatus::InProgress => seq![2u8],
    }
}

/// Payload bytes of a response.
pub open spec fn spec_resp_payload(r: Response) -> Seq<u8> {
    match r {
        Response::Status { unit_id, status } => seq![0u8] + spec_u16_be(unit_id.0 as u16)
            + spec_status_bytes(status),
        Response::Error { code, message } => seq![1u8, code] + spec_u16_be(
            encode_utf8(message@).len() as u16,
        ) + encode_utf8(message@),
        Response::SystemStatus { temperature, utilization } => seq![2u8] + spec_u32_be(temperature)
            + spec_u32_be(utilization),
    }
}

/// Full packet bytes of a command.
pub open spec fn spec_cmd_packet(c: Command, sequence: u32) -> Seq<u8> {
    seq![PROTOCOL_VERSION] + spec_u32_be(sequence) + spec_cmd_payload(c)
}

/// Full packet bytes of a response.
pub open spec fn spec_resp_packet(r: Response, sequence: u32) -> Seq<u8> {
    seq![PROTOCOL_VERSION] + spec_u32_be(sequence) + spec_resp_payload(r)
}

/// The bytes form a complete, well-formed command packet.
pub open spec fn cmd_shape_ok(b: Seq<u8>) -> bool {
    &&& b.len() >= 6
    &&& b[0] == PROTOCOL_VERSION
    &&& if b[5] == 0 {
        b.len() >= 8 && combine16(b[6], b[7]) < UNIT_COUNT && op_shape_ok(b, 8) && b.len() == 8
            + op_len(b, 8)
    } else if b[5] == 1 {
        b.len() == 8 && combine16(b[6], b[7]) < UNIT_COUNT
    } else if b[5] == 2 {
        (b.len() == 7 && b[6] == 0) || (b.len() == 9 && b[6] == 1 && combine16(b[7], b[8])
            < UNIT_COUNT)
    } else if b[5] == 3 {
        b.len() == 6
    } else {
        false
    }
}

/// The command encoded in a well-formed command packet.
pub open spec fn spec_cmd_at(b: Seq<u8>) -> Command {
    if b[5] == 0 {
        Command::Execute {
            unit_id: UnitId(combine16(b[6], b[7]) as usize),
            operation: spec_op_at(b, 8),
        }
    } else if b[5] == 1 {
        Command::Reset { unit_id: UnitId(combine16(b[6], b[7]) as usize) }
    } else if b[5] == 2 {
        Command::QueryStatus {
            unit_id: if b[6] == 0 {
                None
            } else {
                Some(UnitId(combine16(b[7], b[8]) as usize))
            },
        }
    } else {
        Command::SystemReset
    }
}

/// The bytes form a complete, well-formed response packet.
pub open spec fn resp_shape_ok(b: Seq<u8>) -> bool {
    &&& b.len() >= 6
    &&& b[0] == PROTOCOL_VERSION
    &&& if b[5] == 0 {
        b.len() >= 9 && combine16(b[6], b[7]) < UNIT_COUNT && ((b[8] == 0 && b.len() == 9) || (b[8]
            == 1 && b.len() == 10) || (b[8] == 2 && b.len() == 9))
    } else if b[5] == 1 {
        b.len() >= 9 && b.len() == 9 + combine16(b[7], b[8]) && valid_utf8(
            b.subrange(9, b.len() as int),
        )
    } else if b[5] == 2 {
        b.len() == 14
    } else {
        false
    }
}

/// The operation status encoded in a well-formed status response packet.
pub open spec fn spec_resp_status_at(b: Seq<u8>) -> OperationStatus {
    if b[8] == 0 {
        OperationStatus::Success
    } else if b[8] == 1 {
        OperationStatus::Failed { code: b[9] }
    } else {
        OperationStatus::InProgress
    }
}

/// Encode a command into a packet: `[version][sequence][payload]`.
/// Command payloads are a handful of bytes, so encoding never exceeds the
/// packet bound and cannot fail.
pub fn pack_command(cmd: &Command, sequence: u32) -> (r: Vec<u8>)
    requires
        wf_command(*cmd),
    ensures
        r@ =~= spec_cmd_packet(*cmd, sequence),
        r@.len() <= MAX_PACKET_SIZE,
{
    let mut buf: Vec<u8> = Vec::new();
    buf.push(PROTOCOL_VERSION);
    push_u32_be(&mut buf, sequence);
    match cmd {
        Command::Execute { unit_id, operation } => {
            buf.push(0);
            push_u16_be(&mut buf, unit_id.raw() as u16);
            push_operation(&mut buf, operation);
        },
        Command::Reset { unit_id } => {
            buf.push(1);
            push_u16_be(&mut buf, unit_id.raw() as u16);
        },
        Command::QueryStatus { unit_id } => {
            buf.push(2);
            match unit_id {
                None => buf.push(0),
                Some(u) => {
                    buf.push(1);
                    push_u16_be(&mut buf, u.raw() as u16);
                },
            }
        },
        Command::SystemReset => {
            buf.push(3);
        },
    }
    buf
}

/// Decode a command packet.
///
/// A packet shorter than its five-byte prefix, one carrying another protocol
/// version — rejected before any payload interpretation — and one whose
/// payload is malformed or does not fill the packet exactly all fail.
pub fn unpack_command(bytes: &[u8]) -> (r: Result<(u32, Command), HardwareError>)
    ensures
        r is Ok <==> cmd_shape_ok(bytes@),
        r matches Err(e) ==> e is Protocol,
        r matches Ok((s, c)) ==> s == combine32(bytes@[1], bytes@[2], bytes@[3], bytes@[4])
            && c == spec_cmd_at(bytes@) && wf_command(c),
{
    if bytes.len() < 6 {
        return Err(HardwareError::Protocol("packet too short".to_owned()));
    }
    if bytes[0] != PROTOCOL_VERSION {
        return Err(HardwareError::Protocol("unsupported protocol version".to_owned()));
    }
    let sequence = read_u32_be(bytes, 1);
    let tag = bytes[5];
    if tag == 0 {
        if bytes.len() < 8 {
            return Err(HardwareError::Protocol("truncated execute command".to_owned()));
        }
        let raw_unit = read_u16_be(bytes, 6);
        if (raw_unit as usize) >= UNIT_COUNT {
            return Err(HardwareError::Protocol("unit id out of range".to_owned()));
        }
        match parse_operation(bytes, 8) {
            Some((operation, end)) => {
                if end == bytes.len() {
                    Ok((
                        sequence,
                        Command::Execute { unit_id: UnitId(raw_unit as usize), operation },
                    ))
                } else {
                    Err(HardwareError::Protocol("trailing bytes after command".to_owned()))
                }
            },
            None => Err(HardwareError::Protocol("malformed operation".to_owned())),
        }
    } else if tag == 1 {
        if bytes.len() != 8 {
            return Err(HardwareError::Protocol("malformed reset command".to_owned()));
        }
        let raw_unit = read_u16_be(bytes, 6);
        if (raw_unit as usize) >= UNIT_COUNT {
            return Err(HardwareError::Protocol("unit id out of range".to_owned()));
        }
        Ok((sequence, Command::Reset { unit_id: UnitId(raw_unit as usize) }))
    } else if tag == 2 {
        if bytes.len() == 7 && bytes[6] == 0 {
            Ok((sequence, Command::QueryStatus { unit_id: None }))
        } else if bytes.len() == 9 && bytes[6] == 1 {
            let raw_unit = read_u16_be(bytes, 7);
            if (raw_unit as usize) >= UNIT_COUNT {
                return Err(HardwareError::Protocol("unit id out of range".to_owned()));
            }
            Ok((sequence, Command::QueryStatus { unit_id: Some(UnitId(raw_unit as usize)) }))
        } else {
            Err(HardwareError::Protocol("malformed status query".to_owned()))
        }
    } else if tag == 3 {
        if bytes.len() == 6 {
            Ok((sequence, Command::SystemReset))
        } else {
            Err(HardwareError::Protocol("trailing bytes after command".to_owned()))
        }
    } else {
        Err(HardwareError::Protocol("unknown command tag".to_owned()))
    }
}

/// Protocol round-trip law for commands: decoding the packet encoded from a
/// well-formed command recovers the sequence number and every payload field
/// exactly.
pub proof fn lemma_command_packet_roundtrip(cmd: Command, sequence: u32)
    requires
        wf_command(cmd),
    ensures
        cmd_shape_ok(spec_cmd_packet(cmd, sequence)),
        spec_cmd_at(spec_cmd_packet(cmd, sequence)) == cmd,
        combine32(
            spec_cmd_packet(cmd, sequence)[1],
            spec_cmd_packet(cmd, sequence)[2],
            spec_cmd_packet(cmd, sequence)[3],
            spec_cmd_packet(cmd, sequence)[4],
        ) == sequence,
{
    let b = spec_cmd_packet(cmd, sequence);
    lemma_u32_be_roundtrip(sequence);
    assert(b[1] == spec_u32_be(sequence)[0] && b[2] == spec_u32_be(sequence)[1] && b[3]
        == spec_u32_be(sequence)[2] && b[4] == spec_u32_be(sequence)[3]);
    match cmd {
        Command::Execute { unit_id, operation } => {
            lemma_u16_be_roundtrip(unit_id.0 as u16);
            assert(b[6] == spec_u16_be(unit_id.0 as u16)[0] && b[7] == spec_u16_be(
                unit_id.0 as u16,
            )[1]);
            let pre = seq![PROTOCOL_VERSION] + spec_u32_be(sequence) + seq![0u8] + spec_u16_be(
                unit_id.0 as u16,
            );
            assert(b =~= pre + spec_op_bytes(operation) + Seq::<u8>::empty());
            lemma_operation_roundtrip(pre, operation, Seq::<u8>::empty());
        },
        Command::Reset { unit_id } => {
            lemma_u16_be_roundtrip(unit_id.0 as u16);
            assert(b[6] == spec_u16_be(unit_id.0 as u16)[0] && b[7] == spec_u16_be(
                unit_id.0 as u16,
            )[1]);
        },
        Command::QueryStatus { unit_id } => {
            match unit_id {
                None => {},
                Some(u) => {
                    lemma_u16_be_roundtrip(u.0 as u16);
                    assert(b[7] == spec_u16_be(u.0 as u16)[0] && b[8] == spec_u16_be(u.0 as u16)[1]);
                },
            }
        },
        Command::SystemReset => {},
    }
}

} // verus!

verus! {

/// Append all bytes of a slice.
fn push_bytes(buf: &mut Vec<u8>, src: &[u8])
    ensures
        final(buf)@ =~= old(buf)@ + src@,
{
    let mut i: usize = 0;
    while i < src.len()
        invariant
            i <= src@.len(),
            buf@ =~= old(buf)@ + src@.take(i as int),
        decreases src@.len() - i,
    {
        buf.push(src[i]);
        proof {
            assert(old(buf)@ + src@.take(i + 1) =~= (old(buf)@ + src@.take(i as int)).push(
                src@[i as int],
            ));
        }
        i = i + 1;
    }
    proof {
        assert(src@.take(src@.len() as int) =~= src@);
    }
}

/// Copy the bytes in `[from, to)` into a fresh vector.
fn copy_range(bytes: &[u8], from: usize, to: usize) -> (r: Vec<u8>)
    requires
        from <= to <= bytes@.len(),
    ensures
        r@ =~= bytes@.subrange(from as int, to as int),
{
    let mut out: Vec<u8> = Vec::new();
    let mut i: usize = from;
    while i < to
        invariant
            from <= i <= to <= bytes@.len(),
            out@ =~= bytes@.subrange(from as int, i as int),
        decreases to - i,
    {
        out.push(bytes[i]);
        proof {
            assert(bytes@.subrange(from as int, i + 1) =~= bytes@.subrange(
                from as int,
                i as int,
            ).push(bytes@[i as int]));
        }
        i = i + 1;
    }
    out
}

/// Relies on `String::from_utf8`: it succeeds exactly on valid UTF-8 input
/// and then returns the string holding exactly those bytes.
#[verifier::external_body]
fn string_from_utf8(v: Vec<u8>) -> (r: Option<String>)
    ensures
        r is Some <==> valid_utf8(v@),
        r matches Some(s) ==> encode_utf8(s@) =~= v@,
{
    String::from_utf8(v).ok()
}

/// UTF-8 encoding is injective: strings with equal encodings are equal.
pub proof fn lemma_encode_utf8_injective(a: Seq<char>, b: Seq<char>)
    requires
        encode_utf8(a) == encode_utf8(b),
    ensures
        a == b,
{
    broadcast use vstd::utf8::encode_utf8_decode_utf8;

    assert(decode_utf8(encode_utf8(a)) == a);
    assert(decode_utf8(encode_utf8(b)) == b);
}

/// Encode a response into a packet: `[version][sequence][payload]`.
///
/// An oversized payload — only an error message can make one — is rejected
/// before transmission, never truncated.
pub fn pack_response(resp: &Response, sequence: u32) -> (r: Result<Vec<u8>, HardwareError>)
    requires
        wf_response(*resp),
    ensures
        spec_resp_payload(*resp).len() > MAX_PACKET_SIZE - 5 ==> r is Err,
        r matches Err(e) ==> e is Protocol,
        spec_resp_payload(*resp).len() <= MAX_PACKET_SIZE - 5 ==> (r matches Ok(v) && v@
            =~= spec_resp_packet(*resp, sequence) && v@.len() <= MAX_PACKET_SIZE),
{
    let mut buf: Vec<u8> = Vec::new();
    buf.push(PROTOCOL_VERSION);
    push_u32_be(&mut buf, sequence);
    match resp {
        Response::Status { unit_id, status } => {
            buf.push(0);
            push_u16_be(&mut buf, unit_id.raw() as u16);
            match status {
                OperationStatus::Success => buf.push(0),
                OperationStatus::Failed { code } => {
                    buf.push(1);
                    buf.push(*code);
                },
                OperationStatus::InProgress => buf.push(2),
            }
            Ok(buf)
        },
        Response::Error { code, message } => {
            let msg = message.as_str().as_bytes();
            if msg.len() > MAX_PACKET_SIZE - 9 {
                return Err(HardwareError::Protocol("response payload too large".to_owned()));
            }
            buf.push(1);
            buf.push(*code);
            push_u16_be(&mut buf, msg.len() as u16);
            push_bytes(&mut buf, msg);
            Ok(buf)
        },
        Response::SystemStatus { temperature, utilization } => {
            buf.push(2);
            push_u32_be(&mut buf, *temperature);
            push_u32_be(&mut buf, *utilization);
            Ok(buf)
        },
    }
}

/// Decode a response packet.
///
/// A version byte mismatch is rejected without attempting payload
/// interpretation; a malformed payload, a length field that does not match
/// the packet, or an error message that is not valid UTF-8 also fail.
pub fn unpack_response(bytes: &[u8]) -> (r: Result<(u32, Response), HardwareError>)
    ensures
        r is Ok <==> resp_shape_ok(bytes@),
        r matches Err(e) ==> e is Protocol,
        r matches Ok((s, resp)) ==> {
            &&& s == combine32(bytes@[1], bytes@[2], bytes@[3], bytes@[4])
            &&& wf_response(resp)
            &&& bytes@[5] == 0 ==> (resp matches Response::Status { unit_id, status } && unit_id
                == UnitId(combine16(bytes@[6], bytes@[7]) as usize) && status
                == spec_resp_status_at(bytes@))
            &&& bytes@[5] == 1 ==> (resp matches Response::Error { code, message } && code
                == bytes@[6] && encode_utf8(message@) =~= bytes@.subrange(9, bytes@.len() as int))
            &&& bytes@[5] == 2 ==> (resp matches Response::SystemStatus {
                temperature,
                utilization,
            } && temperature == combine32(bytes@[6], bytes@[7], bytes@[8], bytes@[9])
                && utilization == combine32(bytes@[10], bytes@[11], bytes@[12], bytes@[13]))
        },
{
    if bytes.len() < 6 {
        return Err(HardwareError::Protocol("packet too short".to_owned()));
    }
    if bytes[0] != PROTOCOL_VERSION {
        return Err(HardwareError::Protocol("unsupported protocol version".to_owned()));
    }
    let sequence = read_u32_be(bytes, 1);
    let tag = bytes[5];
    if tag == 0 {
        if bytes.len() < 9 {
            return Err(HardwareError::Protocol("truncated status response".to_owned()));
        }
        let raw_unit = read_u16_be(bytes, 6);
        if (raw_unit as usize) >= UNIT_COUNT {
            return Err(HardwareError::Protocol("unit id out of range".to_owned()));
        }
        let unit_id = UnitId(raw_unit as usize);
        let st = bytes[8];
        if st == 0 && bytes.len() == 9 {
            Ok((sequence, Response::Status { unit_id, status: OperationStatus::Success }))
        } else if st == 1 && bytes.len() == 10 {
            Ok((
                sequence,
                Response::Status {
                    unit_id,
                    status: OperationStatus::Failed { code: bytes[9] },
                },
            ))
        } else if st == 2 && bytes.len() == 9 {
            Ok((sequence, Response::Status { unit_id, status: OperationStatus::InProgress }))
        } else {
            Err(HardwareError::Protocol("malformed status response".to_owned()))
        }
    } else if tag == 1 {
        if bytes.len() < 9 {
            return Err(HardwareError::Protocol("truncated error response".to_owned()));
        }
        let msg_len = read_u16_be(bytes, 7);
        if bytes.len() - 9 != msg_len as usize {
            return Err(HardwareError::Protocol("length field mismatch".to_owned()));
        }
        let raw = copy_range(bytes, 9, bytes.len());
        match string_from_utf8(raw) {
            Some(message) => Ok((sequence, Response::Error { code: bytes[6], message })),
            None => Err(HardwareError::Protocol("error message is not valid text".to_owned())),
        }
    } else if tag == 2 {
        if bytes.len() != 14 {
            return Err(HardwareError::Protocol("malformed system status response".to_owned()));
        }
        Ok((
            sequence,
            Response::SystemStatus {
                temperature: read_u32_be(bytes, 6),
                utilization: read_u32_be(bytes, 10),
            },
        ))
    } else {
        Err(HardwareError::Protocol("unknown response tag".to_owned()))
    }
}

/// Protocol round-trip law for responses: decoding the packet encoded from a
/// well-formed response recovers the sequence number and every payload field
/// exactly; an error message comes back with the same text.
pub proof fn lemma_response_packet_roundtrip(resp: Response, sequence: u32)
    requires
        wf_response(resp),
        spec_resp_payload(resp).len() <= MAX_PACKET_SIZE - 5,
    ensures
        resp_shape_ok(spec_resp_packet(resp, sequence)),
        combine32(
            spec_resp_packet(resp, sequence)[1],
            spec_resp_packet(resp, sequence)[2],
            spec_resp_packet(resp, sequence)[3],
            spec_resp_packet(resp, sequence)[4],
        ) == sequence,
        resp matches Response::Status { unit_id, status } ==> {
            &&& combine16(
                spec_resp_packet(resp, sequence)[6],
                spec_resp_packet(resp, sequence)[7],
            ) == unit_id.0
            &&& spec_resp_status_at(spec_resp_packet(resp, sequence)) == status
        },
        resp matches Response::Error { code, message } ==> {
            &&& spec_resp_packet(resp, sequence)[6] == code
            &&& spec_resp_packet(resp, sequence).subrange(
                9,
                spec_resp_packet(resp, sequence).len() as int,
            ) =~= encode_utf8(message@)
        },
        resp matches Response::SystemStatus { temperature, utilization } ==> {
            &&& combine32(
                spec_resp_packet(resp, sequence)[6],
                spec_resp_packet(resp, sequence)[7],
                spec_resp_packet(resp, sequence)[8],
                spec_resp_packet(resp, sequence)[9],
            ) == temperature
            &&& combine32(
                spec_resp_packet(resp, sequence)[10],
                spec_resp_packet(resp, sequence)[11],
                spec_resp_packet(resp, sequence)[12],
                spec_resp_packet(resp, sequence)[13],
            ) == utilization
        },
{
    let b = spec_resp_packet(resp, sequence);
    lemma_u32_be_roundtrip(sequence);
    assert(b[1] == spec_u32_be(sequence)[0] && b[2] == spec_u32_be(sequence)[1] && b[3]
        == spec_u32_be(sequence)[2] && b[4] == spec_u32_be(sequence)[3]);
    match resp {
        Response::Status { unit_id, status } => {
            lemma_u16_be_roundtrip(unit_id.0 as u16);
            assert(b[6] == spec_u16_be(unit_id.0 as u16)[0] && b[7] == spec_u16_be(
                unit_id.0 as u16,
            )[1]);
            match status {
                OperationStatus::Success => {
                    assert(b[8] == 0);
                },
                OperationStatus::Failed { code } => {
                    assert(b[8] == 1 && b[9] == code);
                },
                OperationStatus::InProgress => {
                    assert(b[8] == 2);
                },
            }
        },
        Response::Error { code, message } => {
            let msg = encode_utf8(message@);
            lemma_u16_be_roundtrip(msg.len() as u16);
            assert(b[7] == spec_u16_be(msg.len() as u16)[0] && b[8] == spec_u16_be(
                msg.len() as u16,
            )[1]);
            assert(b.subrange(9, b.len() as int) =~= msg);
            broadcast use vstd::utf8::encode_utf8_valid_utf8;

            assert(valid_utf8(msg));
        },
        Response::SystemStatus { temperature, utilization } => {
            lemma_u32_be_roundtrip(temperature);
            lemma_u32_be_roundtrip(utilization);
            assert(b[6] == spec_u32_be(temperature)[0] && b[7] == spec_u32_be(temperature)[1]
                && b[8] == spec_u32_be(temperature)[2] && b[9] == spec_u32_be(temperature)[3]);
            assert(b[10] == spec_u32_be(utilization)[0] && b[11] == spec_u32_be(utilization)[1]
                && b[12] == spec_u32_be(utilization)[2] && b[13] == spec_u32_be(utilization)[3]);
        },
    }
}

} // verus!

verus! {

// ---------------------------------------------------------------------------
// Framed codec
// ---------------------------------------------------------------------------

/// Command packet payload of the framed codec.
#[derive(Debug, Clone)]
pub struct CommandPayload {
    /// Operation to execute.
    pub operation: Operation,
    /// Source unit id, if the operation reads another unit.
    pub source_unit: Option<u16>,
    /// Configuration data.
    pub config: Vec<u8>,
}

/// Response packet payload of the framed codec.
#[derive(Debug, Clone)]
pub struct ResponsePayload {
    /// Operation status.
    pub status: Status,
    /// Response data, if any.
    pub data: Option<Vec<u8>>,
}

/// Wire code of a computation status.
pub open spec fn spec_status_code(st: Status) -> u8 {
    match st {
        Status::Success => 0u8,
        Status::InProgress => 1u8,
        Status::Failed => 2u8,
    }
}

/// Payload bytes of a framed command.
pub open spec fn spec_framed_cmd_payload(p: CommandPayload) -> Seq<u8> {
    spec_op_bytes(p.operation) + (match p.source_unit {
        None => seq![0u8],
        Some(u) => seq![1u8] + spec_u16_be(u),
    }) + spec_u16_be(p.config@.len() as u16) + p.config@
}

/// Payload bytes of a framed response.
pub open spec fn spec_framed_resp_payload(p: ResponsePayload) -> Seq<u8> {
    seq![spec_status_code(p.status)] + (match p.data {
        None => seq![0u8],
        Some(d) => seq![1u8] + spec_u16_be(d@.len() as u16) + d@,
    })
}

/// The bytes form a complete, well-formed framed response packet.
pub open spec fn framed_resp_shape_ok(b: Seq<u8>) -> bool {
    &&& b.len() >= 12
    &&& b[0] == PROTOCOL_VERSION
    &&& (b[10] == 0 || b[10] == 1 || b[10] == 2)
    &&& ((b[11] == 0 && b.len() == 12) || (b[11] == 1 && b.len() >= 14 && b.len() == 14
        + combine16(b[12], b[13])))
}

/// The status encoded in a well-formed framed response packet.
pub open spec fn spec_framed_status_at(b: Seq<u8>) -> Status {
    if b[10] == 0 {
        Status::Success
    } else if b[10] == 1 {
        Status::InProgress
    } else {
        Status::Failed
    }
}

/// The sequence number after `s`, wrapping at the end of the counter.
pub open spec fn spec_next_seq(s: u32) -> u32 {
    if s == u32::MAX {
        0
    } else {
        (s + 1) as u32
    }
}

impl ResponsePayload {
    /// Serialize the payload to its wire bytes; data longer than a packet is
    /// rejected.
    pub fn serialize(&self) -> (r: Result<Vec<u8>, HardwareError>)
        ensures
            spec_framed_resp_payload(*self).len() > MAX_PACKET_SIZE ==> r is Err,
            r matches Err(e) ==> e is Protocol,
            spec_framed_resp_payload(*self).len() <= MAX_PACKET_SIZE ==> (r matches Ok(v) && v@
                =~= spec_framed_resp_payload(*self)),
    {
        let mut buf: Vec<u8> = Vec::new();
        match self.status {
            Status::Success => buf.push(0),
            Status::InProgress => buf.push(1),
            Status::Failed => buf.push(2),
        }
        match &self.data {
            None => {
                buf.push(0);
                Ok(buf)
            },
            Some(d) => {
                if d.len() > MAX_PACKET_SIZE - 4 {
                    return Err(HardwareError::Protocol("response data too large".to_owned()));
                }
                buf.push(1);
                push_u16_be(&mut buf, d.len() as u16);
                push_bytes(&mut buf, d.as_slice());
                Ok(buf)
            },
        }
    }
}

/// Framed protocol encoder/decoder with a running sequence number.
#[derive(Debug)]
pub struct ProtocolCodec {
    sequence: u32,
}

impl ProtocolCodec {
    /// The sequence number the next encoded command will carry.
    pub closed spec fn sequence(self) -> u32 {
        self.sequence
    }

    /// Create a new protocol codec.
    pub fn new() -> (r: ProtocolCodec)
        ensures
            r.sequence() == 0,
    {
        ProtocolCodec { sequence: 0 }
    }

    /// Encode a command into a framed packet: ten-byte header, then the
    /// payload.  An oversized payload is rejected before transmission and
    /// leaves the sequence number unchanged.
    pub fn encode_command(&mut self, unit_id: UnitId, payload: CommandPayload) -> (r: Result<
        Vec<u8>,
        HardwareError,
    >)
        requires
            unit_id.wf(),
            wf_operation(payload.operation),
        ensures
            spec_framed_cmd_payload(payload).len() > MAX_PACKET_SIZE ==> (r is Err && *final(self)
                == *old(self)),
            r matches Err(e) ==> e is Protocol,
            spec_framed_cmd_payload(payload).len() <= MAX_PACKET_SIZE ==> (r matches Ok(v) && v@
                =~= spec_header_bytes(
                PacketHeader {
                    version: PROTOCOL_VERSION,
                    packet_type: PacketType::Command.spec_code(),
                    unit_id: unit_id.0 as u16,
                    sequence: old(self).sequence(),
                    length: spec_framed_cmd_payload(payload).len() as u16,
                },
            ) + spec_framed_cmd_payload(payload) && final(self).sequence() == spec_next_seq(
                old(self).sequence(),
            )),
    {
        if payload.config.len() > MAX_PACKET_SIZE {
            return Err(HardwareError::Protocol("payload too large".to_owned()));
        }
        let mut body: Vec<u8> = Vec::new();
        push_operation(&mut body, &payload.operation);
        match payload.source_unit {
            None => body.push(0),
            Some(u) => {
                body.push(1);
                push_u16_be(&mut body, u);
            },
        }
        push_u16_be(&mut body, payload.config.len() as u16);
        push_bytes(&mut body, payload.config.as_slice());
        if body.len() > MAX_PACKET_SIZE {
            return Err(HardwareError::Protocol("payload too large".to_owned()));
        }
        let header = PacketHeader::new(
            PacketType::Command,
            unit_id,
            self.sequence,
            body.len() as u16,
        );
        self.sequence = if self.sequence == u32::MAX {
            0
        } else {
            self.sequence + 1
        };
        let mut packet = header.serialize();
        push_bytes(&mut packet, body.as_slice());
        Ok(packet)
    }

    /// Decode a framed response packet into its header and payload.
    ///
    /// A packet shorter than the header, one carrying another protocol
    /// version, and one whose payload is malformed or does not fill the
    /// packet exactly all fail.
    pub fn decode_response(&self, bytes: &[u8]) -> (r: Result<
        (PacketHeader, ResponsePayload),
        HardwareError,
    >)
        ensures
            r is Ok <==> framed_resp_shape_ok(bytes@),
            r matches Err(e) ==> e is Protocol,
            r matches Ok((h, p)) ==> {
                &&& h == spec_parse_header(bytes@)
                &&& p.status == spec_framed_status_at(bytes@)
                &&& (bytes@[11] == 0 ==> p.data is None)
                &&& (bytes@[11] == 1 ==> (p.data matches Some(d) && d@ =~= bytes@.subrange(
                    14,
                    bytes@.len() as int,
                )))
            },
    {
        if bytes.len() < 12 {
            return Err(HardwareError::Protocol("packet too short".to_owned()));
        }
        if bytes[0] != PROTOCOL_VERSION {
            return Err(HardwareError::Protocol("unsupported protocol version".to_owned()));
        }
        let header = match PacketHeader::deserialize(bytes) {
            Ok(h) => h,
            Err(e) => {
                return Err(e);
            },
        };
        let st = bytes[10];
        let status = if st == 0 {
            Status::Success
        } else if st == 1 {
            Status::InProgress
        } else if st == 2 {
            Status::Failed
        } else {
            return Err(HardwareError::Protocol("unknown status code".to_owned()));
        };
        if bytes[11] == 0 {
            if bytes.len() != 12 {
                return Err(HardwareError::Protocol("trailing bytes after response".to_owned()));
            }
            Ok((header, ResponsePayload { status, data: None }))
        } else if bytes[11] == 1 {
            if bytes.len() < 14 {
                return Err(HardwareError::Protocol("truncated response data".to_owned()));
            }
            let data_len = read_u16_be(bytes, 12);
            if bytes.len() - 14 != data_len as usize {
                return Err(HardwareError::Protocol("length field mismatch".to_owned()));
            }
            let data = copy_range(bytes, 14, bytes.len());
            Ok((header, ResponsePayload { status, data: Some(data) }))
        } else {
            Err(HardwareError::Protocol("malformed response payload".to_owned()))
        }
    }
}

/// Round-trip law of the framed codec: a response payload serialized behind
/// a response header decodes to the same header, status and data.
pub proof fn lemma_framed_response_roundtrip(h: PacketHeader, p: ResponsePayload)
    requires
        h.version == PROTOCOL_VERSION,
        spec_framed_resp_payload(p).len() <= MAX_PACKET_SIZE,
    ensures
        framed_resp_shape_ok(spec_header_bytes(h) + spec_framed_resp_payload(p)),
        spec_parse_header(spec_header_bytes(h) + spec_framed_resp_payload(p)) == h,
        spec_framed_status_at(spec_header_bytes(h) + spec_framed_resp_payload(p)) == p.status,
        p.data is None ==> (spec_header_bytes(h) + spec_framed_resp_payload(p))[11] == 0,
        p.data matches Some(d) ==> (spec_header_bytes(h) + spec_framed_resp_payload(p))[11] == 1
            && (spec_header_bytes(h) + spec_framed_resp_payload(p)).subrange(
            14,
            (spec_header_bytes(h) + spec_framed_resp_payload(p)).len() as int,
        ) =~= d@,
{
    let pl = spec_framed_resp_payload(p);
    let b = spec_header_bytes(h) + pl;
    lemma_header_roundtrip(h, pl);
    assert(b[0] == h.version);
    assert(b[10] == spec_status_code(p.status));
    match p.data {
        None => {
            assert(b[11] == 0);
        },
        Some(d) => {
            assert(b[11] == 1);
            lemma_u16_be_roundtrip(d@.len() as u16);
            assert(b[12] == spec_u16_be(d@.len() as u16)[0] && b[13] == spec_u16_be(
                d@.len() as u16,
            )[1]);
        },
    }
}

} // verus!
