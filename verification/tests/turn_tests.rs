use roomrtc::address::{IpAddress, SocketAddress};
use roomrtc::stun::MAGIC_COOKIE;
use roomrtc::turn::client::{encode_xor_address, needs_refresh, DEFAULT_LIFETIME};
use roomrtc::turn::message::{
    add_turn_attribute, build_turn_message, extract_transaction_id, generate_transaction_id,
    parse_turn_message_type,
};
use roomrtc::turn::{TransportProtocol, TurnAttributeType, TurnError, TurnMessage, TurnMessageType};

#[test]
fn test_turn_error_display() {
    let err = TurnError::NoAllocation;
    assert_eq!(err.to_string(), "No allocation exists");

    let err = TurnError::ServerError(438, "Stale Nonce".to_string());
    assert_eq!(err.to_string(), "Server error 438: Stale Nonce");

    let err = TurnError::AllocationFailed("Invalid transport".to_string());
    assert_eq!(err.to_string(), "Allocation failed: Invalid transport");
}

#[test]
fn test_turn_error_from_io() {
    let io_err = std::io::Error::new(std::io::ErrorKind::TimedOut, "timeout");
    let turn_err: TurnError = io_err.into();

    match turn_err {
        TurnError::Io(_) => (),
        _ => panic!("Expected TurnError::Io"),
    }
}

#[test]
fn message_test_generate_transaction_id() {
    let id1 = generate_transaction_id();
    // Small delay to ensure different timestamps
    let start = std::time::Instant::now();
    while start.elapsed() < std::time::Duration::from_nanos(100) {}
    let id2 = generate_transaction_id();

    assert_eq!(id1.len(), 12);
    assert_eq!(id2.len(), 12);
    // IDs should be different (with high probability due to timing)
    assert_ne!(id1, id2);
}

#[test]
fn test_build_turn_message() {
    let transaction_id = [1, 2, 3, 4, 5, 6, 7, 8, 9, 10, 11, 12];
    let message = build_turn_message(TurnMessageType::AllocateRequest, transaction_id);

    assert_eq!(message.len(), 20);
    // Check message type
    assert_eq!(u16::from_be_bytes([message[0], message[1]]), 0x0003);
    // Check message length (should be 0 initially)
    assert_eq!(u16::from_be_bytes([message[2], message[3]]), 0);
    // Check magic cookie
    assert_eq!(
        u32::from_be_bytes([message[4], message[5], message[6], message[7]]),
        MAGIC_COOKIE
    );
    // Check transaction ID
    assert_eq!(&message[8..20], &transaction_id);
}

#[test]
fn test_add_turn_attribute() {
    let transaction_id = [0u8; 12];
    let mut message = build_turn_message(TurnMessageType::AllocateRequest, transaction_id);

    // Add a 4-byte attribute (no padding needed)
    let value = [1, 2, 3, 4];
    add_turn_attribute(&mut message, 0x000D, &value);

    // Header (20) + Type (2) + Length (2) + Value (4) = 28 bytes
    assert_eq!(message.len(), 28);

    // Check message length was updated (should be 8: type+length+value)
    let msg_len = u16::from_be_bytes([message[2], message[3]]);
    assert_eq!(msg_len, 8);
}

#[test]
fn test_add_turn_attribute_with_padding() {
    let transaction_id = [0u8; 12];
    let mut message = build_turn_message(TurnMessageType::AllocateRequest, transaction_id);

    // Add a 3-byte attribute (needs 1 byte padding)
    let value = [1, 2, 3];
    add_turn_attribute(&mut message, 0x000D, &value);

    // Header (20) + Type (2) + Length (2) + Value (3) + Padding (1) = 28 bytes
    assert_eq!(message.len(), 28);

    // Check message length was updated (should be 8: type+length+value+padding)
    let msg_len = u16::from_be_bytes([message[2], message[3]]);
    assert_eq!(msg_len, 8);
}

#[test]
fn test_parse_turn_message_type() {
    let bytes = vec![0x00, 0x03, 0x00, 0x00]; // AllocateRequest
    assert_eq!(
        parse_turn_message_type(&bytes),
        Some(TurnMessageType::AllocateRequest)
    );

    let bytes = vec![0x01, 0x04]; // RefreshResponse
    assert_eq!(
        parse_turn_message_type(&bytes),
        Some(TurnMessageType::RefreshResponse)
    );

    let bytes = vec![0xFF]; // Too short
    assert_eq!(parse_turn_message_type(&bytes), None);
}

#[test]
fn test_extract_transaction_id() {
    let transaction_id = [1, 2, 3, 4, 5, 6, 7, 8, 9, 10, 11, 12];
    let message = build_turn_message(TurnMessageType::AllocateRequest, transaction_id);

    assert_eq!(extract_transaction_id(&message), Some(transaction_id));

    let short_message = vec![0u8; 10]; // Too short
    assert_eq!(extract_transaction_id(&short_message), None);
}

#[test]
fn test_turn_message_new() {
    let transaction_id = [0u8; 12];
    let message = TurnMessage::new(TurnMessageType::AllocateRequest, transaction_id);

    assert_eq!(message.message_type, TurnMessageType::AllocateRequest);
    assert_eq!(message.transaction_id, transaction_id);
    assert_eq!(message.as_bytes().len(), 20);
}

#[test]
fn test_turn_message_add_attribute() {
    let transaction_id = [0u8; 12];
    let mut message = TurnMessage::new(TurnMessageType::AllocateRequest, transaction_id);

    let lifetime = 600u32.to_be_bytes();
    message.add_attribute(0x000D, &lifetime);

    assert!(message.as_bytes().len() > 20);
}

#[test]
fn test_turn_attribute_type_conversion() {
    assert_eq!(TurnAttributeType::Lifetime.to_u16(), 0x000D);
    assert_eq!(TurnAttributeType::XorRelayedAddress.to_u16(), 0x0016);
    assert_eq!(TurnAttributeType::Data.to_u16(), 0x0013);
    assert_eq!(TurnAttributeType::ChannelNumber.to_u16(), 0x000C);
}

#[test]
fn test_turn_attribute_type_parsing() {
    assert_eq!(
        TurnAttributeType::from_u16(0x000D),
        Some(TurnAttributeType::Lifetime)
    );
    assert_eq!(
        TurnAttributeType::from_u16(0x0016),
        Some(TurnAttributeType::XorRelayedAddress)
    );
    assert_eq!(
        TurnAttributeType::from_u16(0x0013),
        Some(TurnAttributeType::Data)
    );
    assert_eq!(TurnAttributeType::from_u16(0xFFFF), None);
}

#[test]
fn test_attribute_as_str() {
    assert_eq!(TurnAttributeType::Lifetime.as_str(), "LIFETIME");
    assert_eq!(
        TurnAttributeType::XorRelayedAddress.as_str(),
        "XOR-RELAYED-ADDRESS"
    );
    assert_eq!(TurnAttributeType::Data.as_str(), "DATA");
}

#[test]
fn test_transport_protocol_conversion() {
    assert_eq!(TransportProtocol::Udp.to_u8(), 17);
    assert_eq!(TransportProtocol::Tcp.to_u8(), 6);
}

#[test]
fn test_transport_protocol_parsing() {
    assert_eq!(TransportProtocol::from_u8(17), Some(TransportProtocol::Udp));
    assert_eq!(TransportProtocol::from_u8(6), Some(TransportProtocol::Tcp));
    assert_eq!(TransportProtocol::from_u8(99), None);
}

#[test]
fn test_transport_protocol_as_str() {
    assert_eq!(TransportProtocol::Udp.as_str(), "UDP");
    assert_eq!(TransportProtocol::Tcp.as_str(), "TCP");
}

#[test]
fn test_turn_message_type_conversion() {
    assert_eq!(TurnMessageType::AllocateRequest.to_u16(), 0x0003);
    assert_eq!(TurnMessageType::AllocateResponse.to_u16(), 0x0103);
    assert_eq!(TurnMessageType::AllocateError.to_u16(), 0x0113);
    assert_eq!(TurnMessageType::RefreshRequest.to_u16(), 0x0004);
    assert_eq!(TurnMessageType::SendIndication.to_u16(), 0x0016);
    assert_eq!(TurnMessageType::DataIndication.to_u16(), 0x0017);
}

#[test]
fn test_turn_message_type_parsing() {
    assert_eq!(
        TurnMessageType::from_u16(0x0003),
        Some(TurnMessageType::AllocateRequest)
    );
    assert_eq!(
        TurnMessageType::from_u16(0x0104),
        Some(TurnMessageType::RefreshResponse)
    );
    assert_eq!(
        TurnMessageType::from_u16(0x0118),
        Some(TurnMessageType::CreatePermissionError)
    );
    assert_eq!(TurnMessageType::from_u16(0xFFFF), None);
}

#[test]
fn test_message_type_checks() {
    assert!(TurnMessageType::AllocateRequest.is_request());
    assert!(!TurnMessageType::AllocateResponse.is_request());

    assert!(TurnMessageType::AllocateResponse.is_success_response());
    assert!(!TurnMessageType::AllocateRequest.is_success_response());

    assert!(TurnMessageType::AllocateError.is_error_response());
    assert!(!TurnMessageType::AllocateRequest.is_error_response());

    assert!(TurnMessageType::SendIndication.is_indication());
    assert!(TurnMessageType::DataIndication.is_indication());
    assert!(!TurnMessageType::AllocateRequest.is_indication());
}

#[test]
fn test_as_str() {
    assert_eq!(
        TurnMessageType::AllocateRequest.as_str(),
        "Allocate Request"
    );
    assert_eq!(
        TurnMessageType::AllocateResponse.as_str(),
        "Allocate Success Response"
    );
    assert_eq!(TurnMessageType::SendIndication.as_str(), "Send Indication");
}

#[test]
fn test_xor_address_encoding() {
    let addr = SocketAddress { ip: IpAddress::V4([192, 0, 2, 1]), port: 1234 };
    let encoded = encode_xor_address(&addr);
    // Should have IPv4 family and XOR-ed values
    assert_eq!(encoded[0], 0x00);
    assert_eq!(encoded[1], 0x01);
    assert!(encoded.len() >= 8);
}

#[test]
fn test_needs_refresh() {
    // No allocation yet
    assert!(!needs_refresh(None, DEFAULT_LIFETIME));
    // Fresh allocation shouldn't need refresh
    assert!(!needs_refresh(Some(0), DEFAULT_LIFETIME));
}
