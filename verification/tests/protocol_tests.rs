use nn_accel::protocol::{
    pack_command, pack_response, unpack_command, unpack_response, Command, CommandPayload,
    PacketHeader, PacketType, ProtocolCodec, Response, ResponsePayload, MAX_PACKET_SIZE,
    PROTOCOL_VERSION,
};
use nn_accel::types::{Activation, Operation, OperationStatus, Status, UnitId};

#[test]
fn test_packet_header() {
    let unit_id = UnitId::new(1).unwrap();
    let header = PacketHeader::new(PacketType::Command, unit_id, 42, 100);

    let bytes = header.serialize();

    let decoded = PacketHeader::deserialize(&bytes).unwrap();

    assert_eq!(decoded.version, PROTOCOL_VERSION);
    assert_eq!(decoded.packet_type, PacketType::Command.code());
    assert_eq!(decoded.unit_id, 1);
    assert_eq!(decoded.sequence, 42);
    assert_eq!(decoded.length, 100);
}

#[test]
fn test_protocol_codec() {
    let mut codec = ProtocolCodec::new();
    let unit_id = UnitId::new(0).unwrap();

    let payload = CommandPayload {
        operation: Operation::Nop,
        source_unit: None,
        config: vec![],
    };

    let packet = codec.encode_command(unit_id, payload).unwrap();
    assert!(packet.len() >= 10);

    let response = ResponsePayload { status: Status::Success, data: None };

    let response_bytes = response.serialize().unwrap();
    let mut response_packet =
        PacketHeader::new(PacketType::Response, unit_id, 0, response_bytes.len() as u16)
            .serialize();
    response_packet.extend(response_bytes);

    let (header, decoded_response) = codec.decode_response(&response_packet).unwrap();
    assert_eq!(header.packet_type, PacketType::Response.code());
    assert!(matches!(decoded_response.status, Status::Success));
}

#[test]
fn test_codec_data_roundtrip() {
    let codec = ProtocolCodec::new();
    let unit_id = UnitId::new(9).unwrap();
    let response = ResponsePayload {
        status: Status::Failed,
        data: Some(vec![1, 2, 3, 4]),
    };
    let body = response.serialize().unwrap();
    let mut packet =
        PacketHeader::new(PacketType::Response, unit_id, 7, body.len() as u16).serialize();
    packet.extend(body);

    let (header, decoded) = codec.decode_response(&packet).unwrap();
    assert_eq!(header.unit_id, 9);
    assert_eq!(header.sequence, 7);
    assert!(matches!(decoded.status, Status::Failed));
    assert_eq!(decoded.data.unwrap(), vec![1, 2, 3, 4]);
}

#[test]
fn test_command_packet_roundtrip() {
    let cmd = Command::Execute {
        unit_id: UnitId::new(3).unwrap(),
        operation: Operation::Copy { source: UnitId::new(7).unwrap() },
    };
    let packet = pack_command(&cmd, 42);
    let (sequence, decoded) = unpack_command(&packet).unwrap();
    assert_eq!(sequence, 42);
    match decoded {
        Command::Execute { unit_id, operation } => {
            assert_eq!(unit_id.raw(), 3);
            assert!(matches!(operation, Operation::Copy { source } if source.raw() == 7));
        }
        _ => panic!("wrong command decoded"),
    }

    let cmd = Command::QueryStatus { unit_id: None };
    let packet = pack_command(&cmd, 7);
    let (sequence, decoded) = unpack_command(&packet).unwrap();
    assert_eq!(sequence, 7);
    assert!(matches!(decoded, Command::QueryStatus { unit_id: None }));

    let cmd = Command::Execute {
        unit_id: UnitId::new(12).unwrap(),
        operation: Operation::Activate { function: Activation::ReLU },
    };
    let packet = pack_command(&cmd, 1000000);
    let (sequence, decoded) = unpack_command(&packet).unwrap();
    assert_eq!(sequence, 1000000);
    assert!(matches!(
        decoded,
        Command::Execute { operation: Operation::Activate { function: Activation::ReLU }, .. }
    ));
}

#[test]
fn test_response_packet_roundtrip() {
    let resp = Response::Status {
        unit_id: UnitId::new(200).unwrap(),
        status: OperationStatus::Failed { code: 9 },
    };
    let packet = pack_response(&resp, 77).unwrap();
    let (sequence, decoded) = unpack_response(&packet).unwrap();
    assert_eq!(sequence, 77);
    assert!(matches!(
        decoded,
        Response::Status { unit_id, status: OperationStatus::Failed { code: 9 } }
            if unit_id.raw() == 200
    ));

    let resp = Response::Error { code: 3, message: "transient fault".to_string() };
    let packet = pack_response(&resp, 5).unwrap();
    let (sequence, decoded) = unpack_response(&packet).unwrap();
    assert_eq!(sequence, 5);
    match decoded {
        Response::Error { code, message } => {
            assert_eq!(code, 3);
            assert_eq!(message, "transient fault");
        }
        _ => panic!("wrong response decoded"),
    }

    let resp = Response::SystemStatus { temperature: 45250, utilization: 512 };
    let packet = pack_response(&resp, 8).unwrap();
    let (_, decoded) = unpack_response(&packet).unwrap();
    assert!(matches!(
        decoded,
        Response::SystemStatus { temperature: 45250, utilization: 512 }
    ));
}

#[test]
fn test_version_mismatch_rejected() {
    let resp = Response::Status {
        unit_id: UnitId::new(1).unwrap(),
        status: OperationStatus::Success,
    };
    let mut packet = pack_response(&resp, 1).unwrap();
    packet[0] = PROTOCOL_VERSION + 1;
    assert!(unpack_response(&packet).is_err());

    let cmd = Command::SystemReset;
    let mut packet = pack_command(&cmd, 1);
    packet[0] = PROTOCOL_VERSION + 1;
    assert!(unpack_command(&packet).is_err());
}

#[test]
fn test_oversized_payload_rejected() {
    let resp = Response::Error {
        code: 1,
        message: "x".repeat(MAX_PACKET_SIZE),
    };
    assert!(pack_response(&resp, 0).is_err());
}

#[test]
fn test_truncated_packet_rejected() {
    let resp = Response::Status {
        unit_id: UnitId::new(1).unwrap(),
        status: OperationStatus::Success,
    };
    let packet = pack_response(&resp, 1).unwrap();
    assert!(unpack_response(&packet[..4]).is_err());
    assert!(unpack_response(&packet[..packet.len() - 1]).is_err());
}

#[test]
fn test_codec_sequence_advances() {
    let mut codec = ProtocolCodec::new();
    let unit = UnitId::new(0).unwrap();
    let payload = CommandPayload {
        operation: Operation::Add { source: UnitId::new(4).unwrap() },
        source_unit: Some(4),
        config: vec![9, 9],
    };
    let p1 = codec.encode_command(unit, payload.clone()).unwrap();
    let p2 = codec.encode_command(unit, payload).unwrap();
    let h1 = PacketHeader::deserialize(&p1).unwrap();
    let h2 = PacketHeader::deserialize(&p2).unwrap();
    assert_eq!(h1.sequence, 0);
    assert_eq!(h2.sequence, 1);
}

#[test]
fn test_command_serialization() {
    let command = Command::Execute {
        unit_id: UnitId::new(1).unwrap(),
        operation: Operation::Activate { function: Activation::ReLU },
    };

    let packet = pack_command(&command, 0);
    assert!(!packet.is_empty());
}
