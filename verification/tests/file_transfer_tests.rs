use roomrtc::session::file_transfer::FileTransferMessage;

#[test]
fn test_offer_roundtrip() {
    let msg = FileTransferMessage::Offer {
        id: 12345,
        filename: "test.txt".to_string(),
        size: 1024,
        mime_type: "text/plain".to_string(),
    };
    let bytes = msg.to_bytes();
    let parsed = FileTransferMessage::from_bytes(&bytes).unwrap();
    match parsed {
        FileTransferMessage::Offer {
            id, filename, size, ..
        } => {
            assert_eq!(id, 12345);
            assert_eq!(filename, "test.txt");
            assert_eq!(size, 1024);
        }
        _ => panic!("Wrong type"),
    }
}
