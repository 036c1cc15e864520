use roomrtc::stun::{
    AttributeType, Message, MessageBuilder, MessageHeader, MessageType, StunError,
};
use roomrtc::stun::xor_mapped_address::decode;
use roomrtc::stun::client::{
    all_servers_failed_text, discovery_failure, discovery_step, Discovery, DiscoveryError,
};
use roomrtc::address::{IpAddress, SocketAddress};

#[test]
fn test_attribute_type_to_u16() {
    assert_eq!(AttributeType::XorMappedAddress.to_u16(), 0x0020);
}

#[test]
fn client_test_generate_transaction_id() {
    // Test that MessageBuilder generates different transaction IDs
    let msg1 = MessageBuilder::new(MessageType::Request)
        .random_transaction_id()
        .build()
        .unwrap();

    let msg2 = MessageBuilder::new(MessageType::Request)
        .random_transaction_id()
        .build()
        .unwrap();

    // Transaction IDs should be different
    assert_ne!(msg1.transaction_id(), msg2.transaction_id());
}

#[test]
fn test_error_display_invalid_message_format() {
    let err = StunError::InvalidMessageFormat;
    assert_eq!(err.to_string(), "Invalid message format");
}

#[test]
fn test_error_display_invalid_message_type() {
    let err = StunError::InvalidMessageType(0x9999);
    assert_eq!(err.to_string(), "Invalid message type: 0x9999");
}

#[test]
fn test_error_display_invalid_attribute_type() {
    let err = StunError::InvalidAttributeType(0x1234);
    assert_eq!(err.to_string(), "Invalid attribute type: 0x1234");
}

#[test]
fn test_error_display_invalid_magic_cookie() {
    let err = StunError::InvalidMagicCookie;
    assert_eq!(err.to_string(), "Invalid magic cookie");
}

#[test]
fn test_error_display_invalid_address_family() {
    let err = StunError::InvalidAddressFamily(0x99);
    assert_eq!(err.to_string(), "Invalid address family: 0x99");
}

#[test]
fn test_error_display_missing_required_field() {
    let err = StunError::MissingRequiredField("transaction_id");
    assert_eq!(err.to_string(), "Missing required field: transaction_id");
}

#[test]
fn test_error_display_socket_bind_error() {
    let err = StunError::SocketBindError("Address already in use".to_string());
    assert_eq!(err.to_string(), "Socket bind error: Address already in use");
}

#[test]
fn test_error_display_socket_error() {
    let err = StunError::SocketError("Connection refused".to_string());
    assert_eq!(err.to_string(), "Socket error: Connection refused");
}

#[test]
fn test_error_display_timeout() {
    let err = StunError::Timeout;
    assert_eq!(err.to_string(), "Timeout waiting for response");
}

#[test]
fn test_error_display_transaction_id_mismatch() {
    let err = StunError::TransactionIdMismatch;
    assert_eq!(err.to_string(), "Transaction ID mismatch");
}

#[test]
fn test_error_from_io_timeout() {
    let io_err = std::io::Error::new(std::io::ErrorKind::TimedOut, "timeout");
    let stun_err: StunError = io_err.into();
    assert!(matches!(stun_err, StunError::Timeout));
}

#[test]
fn test_error_from_io_other() {
    let io_err = std::io::Error::new(std::io::ErrorKind::ConnectionRefused, "refused");
    let stun_err: StunError = io_err.into();
    assert!(matches!(stun_err, StunError::SocketError(_)));
}

#[test]
fn test_error_clone() {
    let err1 = StunError::InvalidMessageFormat;
    let err2 = err1.clone();
    assert_eq!(err1, err2);
}

#[test]
fn test_error_debug() {
    let err = StunError::InvalidMessageFormat;
    let debug_str = format!("{:?}", err);
    assert!(debug_str.contains("InvalidMessageFormat"));
}

#[test]
fn test_message_creation() {
    let transaction_id = [1, 2, 3, 4, 5, 6, 7, 8, 9, 10, 11, 12];
    let message = Message::new(MessageType::Request, transaction_id);

    assert_eq!(message.message_type(), MessageType::Request);
    assert_eq!(message.transaction_id(), transaction_id);
    assert!(message.attributes.is_empty());
}

#[test]
fn test_message_add_attribute() {
    let transaction_id = [1, 2, 3, 4, 5, 6, 7, 8, 9, 10, 11, 12];
    let mut message = Message::new(MessageType::Request, transaction_id);

    let value = vec![1, 2, 3, 4];
    message.add_attribute(AttributeType::XorMappedAddress, &value);

    assert!(!message.attributes.is_empty());
    assert_eq!(
        message.header.message_length,
        message.attributes.len() as u16
    );
}

#[test]
fn test_message_encode_decode() {
    let transaction_id = [1, 2, 3, 4, 5, 6, 7, 8, 9, 10, 11, 12];
    let mut message = Message::new(MessageType::Request, transaction_id);

    let value = vec![1, 2, 3, 4];
    message.add_attribute(AttributeType::XorMappedAddress, &value);

    let encoded = message.encode();
    let decoded = Message::decode(&encoded).unwrap();

    assert_eq!(decoded.message_type(), message.message_type());
    assert_eq!(decoded.transaction_id(), message.transaction_id());
    assert_eq!(decoded.attributes, message.attributes);
}

#[test]
fn test_message_builder_random_transaction_id() {
    let message = MessageBuilder::new(MessageType::Request)
        .random_transaction_id()
        .build()
        .unwrap();

    assert_eq!(message.message_type(), MessageType::Request);
}

#[test]
fn test_message_builder_missing_transaction_id() {
    let result = MessageBuilder::new(MessageType::Request).build();

    assert!(matches!(
        result,
        Err(StunError::MissingRequiredField("transaction_id"))
    ));
}

#[test]
fn test_message_header_encode_decode() {
    let transaction_id = [1, 2, 3, 4, 5, 6, 7, 8, 9, 10, 11, 12];
    let header = MessageHeader::new(MessageType::Request, transaction_id);

    let encoded = header.encode();
    assert_eq!(encoded.len(), MessageHeader::SIZE);

    let decoded = MessageHeader::decode(&encoded).unwrap();
    assert_eq!(decoded.message_type, MessageType::Request);
    assert_eq!(decoded.transaction_id, transaction_id);
    assert_eq!(decoded.message_length, 0);
}

#[test]
fn test_message_header_decode_invalid_magic_cookie() {
    let mut bytes = vec![0u8; 20];
    // Valid message type
    bytes[0] = 0x00;
    bytes[1] = 0x01;
    // Invalid magic cookie
    bytes[4] = 0xFF;
    bytes[5] = 0xFF;
    bytes[6] = 0xFF;
    bytes[7] = 0xFF;

    let result = MessageHeader::decode(&bytes);
    assert!(matches!(result, Err(StunError::InvalidMagicCookie)));
}

#[test]
fn test_message_header_decode_too_short() {
    let bytes = vec![0u8; 10];
    let result = MessageHeader::decode(&bytes);
    assert!(matches!(result, Err(StunError::MessageTooShort)));
}

#[test]
fn test_set_message_length() {
    let transaction_id = [1, 2, 3, 4, 5, 6, 7, 8, 9, 10, 11, 12];
    let mut header = MessageHeader::new(MessageType::Request, transaction_id);

    header.set_message_length(100);
    assert_eq!(header.message_length, 100);
}

#[test]
fn test_message_type_to_u16() {
    assert_eq!(MessageType::Request.to_u16(), 0x0001);
    assert_eq!(MessageType::Response.to_u16(), 0x0101);
    assert_eq!(MessageType::ErrorResponse.to_u16(), 0x0111);
}

#[test]
fn test_message_type_from_u16() {
    assert_eq!(MessageType::from_u16(0x0001).unwrap(), MessageType::Request);
    assert_eq!(
        MessageType::from_u16(0x0101).unwrap(),
        MessageType::Response
    );
    assert_eq!(
        MessageType::from_u16(0x0111).unwrap(),
        MessageType::ErrorResponse
    );
    assert!(MessageType::from_u16(0x9999).is_err());
}

#[test]
fn test_decode_invalid_family() {
    let transaction_id = [1, 2, 3, 4, 5, 6, 7, 8, 9, 10, 11, 12];
    // Invalid family (0xFF)
    let bytes = vec![0x00, 0xFF, 0x1F, 0x90, 192, 168, 1, 100];
    assert_eq!(None, decode(&bytes, &transaction_id));
}

#[test]
fn test_decode_too_short() {
    let transaction_id = [1, 2, 3, 4, 5, 6, 7, 8, 9, 10, 11, 12];
    // Buffer too short
    let bytes = vec![0x00, 0x01];
    assert_eq!(None, decode(&bytes, &transaction_id));
}

#[test]
fn test_decode_ipv4() {
    // Pre-calculated XOR-MAPPED-ADDRESS for 192.168.1.100:8080
    // with transaction_id = [1, 2, 3, 4, 5, 6, 7, 8, 9, 10, 11, 12]
    let transaction_id = [1, 2, 3, 4, 5, 6, 7, 8, 9, 10, 11, 12];
    let encoded = vec![0x00, 0x01, 0x3E, 0x82, 0xE1, 0xBA, 0xA5, 0x26];
    let decoded = decode(&encoded, &transaction_id);
    let expected = SocketAddress { ip: IpAddress::V4([192, 168, 1, 100]), port: 8080 };
    assert_eq!(Some(expected), decoded);
}

#[test]
fn test_decode_ipv6() {
    // Pre-calculated XOR-MAPPED-ADDRESS for [2001:db8::1]:8080
    // with transaction_id = [1, 2, 3, 4, 5, 6, 7, 8, 9, 10, 11, 12]
    let transaction_id = [1, 2, 3, 4, 5, 6, 7, 8, 9, 10, 11, 12];
    let encoded = vec![
        0x00, 0x02, 0x3E, 0x82, 0x01, 0x13, 0xA9, 0xFA, 0x01, 0x02, 0x03, 0x04, 0x05, 0x06,
        0x07, 0x08, 0x09, 0x0A, 0x0B, 0x0D,
    ];
    let decoded = decode(&encoded, &transaction_id);
    let mut octets = [0u8; 16];
    octets[0] = 0x20;
    octets[1] = 0x01;
    octets[2] = 0x0d;
    octets[3] = 0xb8;
    octets[15] = 0x01;
    let expected = SocketAddress { ip: IpAddress::V6(octets), port: 8080 };
    assert_eq!(Some(expected), decoded);
}

#[test]
fn discovery_steps() {
    let found = SocketAddress { ip: IpAddress::V4([203, 0, 113, 7]), port: 40000 };
    match discovery_step(Some("old"), Some(Ok(found))) {
        Discovery::Found(a) => assert_eq!(a, found),
        Discovery::Continue(_) => panic!("a found address ends the discovery"),
    }
    match discovery_step(Some("old"), Some(Err("timeout"))) {
        Discovery::Continue(e) => assert_eq!(e, Some("timeout")),
        Discovery::Found(_) => panic!("a failed try goes on"),
    }
    match discovery_step(Some("old"), None) {
        Discovery::Continue(e) => assert_eq!(e, Some("old")),
        Discovery::Found(_) => panic!("no try goes on"),
    }
    match discovery_step::<&str>(None, None) {
        Discovery::Continue(e) => assert_eq!(e, None),
        Discovery::Found(_) => panic!("no try goes on"),
    }
    assert!(matches!(discovery_failure(Some("dns")), DiscoveryError::Last("dns")));
    assert!(matches!(discovery_failure::<&str>(None), DiscoveryError::AllFailed));
    assert_eq!(all_servers_failed_text(), "All STUN servers failed");
}
