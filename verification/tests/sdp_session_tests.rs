use roomrtc::address::IpAddress;
use roomrtc::sdp::{
    Attribute, Connection, MediaDescription, Origin, SdpType, SessionDescription,
    SessionDescriptionBuilder, Timing,
};

fn v4(a: u8, b: u8, c: u8, d: u8) -> IpAddress {
    IpAddress::V4([a, b, c, d])
}

fn audio_media() -> MediaDescription {
    MediaDescription {
        media_type: "audio".to_string(),
        port: 49170,
        protocol: "RTP/AVP".to_string(),
        formats: vec!["0".to_string()],
        connection: None,
        attributes: Vec::new(),
    }
}

fn create_simple_sdp() -> String {
    "v=0\r\n\
     o=- 123456 789012 IN IP4 192.168.1.1\r\n\
     s=Test Session\r\n\
     t=0 0\r\n\
     m=audio 49170 RTP/AVP 0\r\n"
        .to_string()
}

fn create_complete_sdp() -> String {
    "v=0\r\n\
     o=jdoe 2890844526 2890842807 IN IP4 10.47.16.5\r\n\
     s=SDP Seminar\r\n\
     c=IN IP4 224.2.17.12/127\r\n\
     t=2873397496 2873404696\r\n\
     a=recvonly\r\n\
     m=audio 49170 RTP/AVP 0\r\n\
     a=rtpmap:0 PCMU/8000\r\n\
     m=video 51372 RTP/AVP 99\r\n\
     a=rtpmap:99 h263-1998/90000\r\n"
        .to_string()
}

#[test]
fn test_connection_parse_ipv4() {
    let conn = Connection::parse_with("IN IP4 192.168.1.1", Some(v4(192, 168, 1, 1))).unwrap();
    assert_eq!(conn.network_type, "IN");
    assert_eq!(conn.address_type, "IP4");
    assert_eq!(conn.address, v4(192, 168, 1, 1));
    assert_eq!(conn.ttl, None);
    assert_eq!(conn.num_addresses, None);
}

#[test]
fn test_connection_parse_ipv6() {
    let mut loopback = [0u8; 16];
    loopback[15] = 1;
    let conn = Connection::parse_with("IN IP6 ::1", Some(IpAddress::V6(loopback))).unwrap();
    assert_eq!(conn.network_type, "IN");
    assert_eq!(conn.address_type, "IP6");
    assert_eq!(conn.address, IpAddress::V6(loopback));
    assert_eq!(conn.ttl, None);
    assert_eq!(conn.num_addresses, None);
}

#[test]
fn test_connection_parse_with_ttl() {
    assert_eq!(
        Connection::address_text("IN IP4 224.2.1.1/127"),
        Some("224.2.1.1".to_string())
    );
    let conn = Connection::parse_with("IN IP4 224.2.1.1/127", Some(v4(224, 2, 1, 1))).unwrap();
    assert_eq!(conn.network_type, "IN");
    assert_eq!(conn.address_type, "IP4");
    assert_eq!(conn.address, v4(224, 2, 1, 1));
    assert_eq!(conn.ttl, Some(127));
    assert_eq!(conn.num_addresses, None);
}

#[test]
fn test_connection_parse_with_ttl_and_count() {
    let conn = Connection::parse_with("IN IP4 224.2.1.1/127/3", Some(v4(224, 2, 1, 1))).unwrap();
    assert_eq!(conn.network_type, "IN");
    assert_eq!(conn.address_type, "IP4");
    assert_eq!(conn.address, v4(224, 2, 1, 1));
    assert_eq!(conn.ttl, Some(127));
    assert_eq!(conn.num_addresses, Some(3));
}

#[test]
fn test_connection_parse_invalid_format() {
    assert!(Connection::parse_with("IN IP4", None).is_err());
    assert!(Connection::parse_with("IN", None).is_err());
    assert!(Connection::parse_with("", None).is_err());
    assert_eq!(Connection::address_text("IN IP4"), None);
}

#[test]
fn test_connection_parse_invalid_network_type() {
    assert!(Connection::parse_with("XX IP4 192.168.1.1", Some(v4(192, 168, 1, 1))).is_err());
}

#[test]
fn test_connection_parse_invalid_address_type() {
    assert!(Connection::parse_with("IN IP5 192.168.1.1", Some(v4(192, 168, 1, 1))).is_err());
}

#[test]
fn test_connection_parse_invalid_ip_address() {
    // No IP address parses from these address texts.
    assert!(Connection::parse_with("IN IP4 999.999.999.999", None).is_err());
    assert!(Connection::parse_with("IN IP4 invalid", None).is_err());
}

#[test]
fn test_connection_parse_invalid_ttl() {
    assert!(Connection::parse_with("IN IP4 224.2.1.1/abc", Some(v4(224, 2, 1, 1))).is_err());
    assert!(Connection::parse_with("IN IP4 224.2.1.1/256", Some(v4(224, 2, 1, 1))).is_err());
}

#[test]
fn test_connection_parse_invalid_address_count() {
    assert!(Connection::parse_with("IN IP4 224.2.1.1/127/abc", Some(v4(224, 2, 1, 1))).is_err());
}

#[test]
fn test_connection_display_simple() {
    let conn = Connection {
        network_type: "IN".to_string(),
        address_type: "IP4".to_string(),
        address: v4(192, 168, 1, 1),
        ttl: None,
        num_addresses: None,
    };
    assert_eq!(conn.to_string(), "c=IN IP4 192.168.1.1\n");
}

#[test]
fn test_connection_display_with_ttl() {
    let conn = Connection {
        network_type: "IN".to_string(),
        address_type: "IP4".to_string(),
        address: v4(224, 2, 1, 1),
        ttl: Some(127),
        num_addresses: None,
    };
    assert_eq!(conn.to_string(), "c=IN IP4 224.2.1.1/127\n");
}

#[test]
fn test_connection_display_with_ttl_and_count() {
    let conn = Connection {
        network_type: "IN".to_string(),
        address_type: "IP4".to_string(),
        address: v4(224, 2, 1, 1),
        ttl: Some(127),
        num_addresses: Some(3),
    };
    assert_eq!(conn.to_string(), "c=IN IP4 224.2.1.1/127/3\n");
}

#[test]
fn test_media_description_parse_audio() {
    let media = MediaDescription::parse("audio 49170 RTP/AVP 0").unwrap();
    assert_eq!(media.media_type, "audio");
    assert_eq!(media.port, 49170);
    assert_eq!(media.protocol, "RTP/AVP");
    assert_eq!(media.formats, vec!["0"]);
    assert!(media.connection.is_none());
    assert!(media.attributes.is_empty());
}

#[test]
fn test_media_description_parse_video() {
    let media = MediaDescription::parse("video 51372 RTP/AVP 99").unwrap();
    assert_eq!(media.media_type, "video");
    assert_eq!(media.port, 51372);
    assert_eq!(media.protocol, "RTP/AVP");
    assert_eq!(media.formats, vec!["99"]);
}

#[test]
fn test_media_description_parse_multiple_formats() {
    let media = MediaDescription::parse("audio 49170 RTP/AVP 0 8 97").unwrap();
    assert_eq!(media.media_type, "audio");
    assert_eq!(media.port, 49170);
    assert_eq!(media.protocol, "RTP/AVP");
    assert_eq!(media.formats, vec!["0", "8", "97"]);
}

#[test]
fn test_media_description_parse_invalid_format() {
    assert!(MediaDescription::parse("audio 49170 RTP/AVP").is_err());
    assert!(MediaDescription::parse("audio 49170").is_err());
    assert!(MediaDescription::parse("audio").is_err());
    assert!(MediaDescription::parse("").is_err());
}

#[test]
fn test_media_description_parse_invalid_port() {
    assert!(MediaDescription::parse("audio abc RTP/AVP 0").is_err());
    assert!(MediaDescription::parse("audio 99999 RTP/AVP 0").is_err());
}

#[test]
fn test_media_description_validate_valid_audio() {
    let media = audio_media();
    assert!(media.validate().is_ok());
}

#[test]
fn test_media_description_validate_valid_video() {
    let media = MediaDescription {
        media_type: "video".to_string(),
        port: 51372,
        protocol: "RTP/AVP".to_string(),
        formats: vec!["99".to_string()],
        connection: None,
        attributes: Vec::new(),
    };
    assert!(media.validate().is_ok());
}

#[test]
fn test_media_description_validate_all_valid_types() {
    for media_type in &["audio", "video", "text", "application", "message"] {
        let media = MediaDescription {
            media_type: media_type.to_string(),
            port: 49170,
            protocol: "RTP/AVP".to_string(),
            formats: vec!["0".to_string()],
            connection: None,
            attributes: Vec::new(),
        };
        assert!(media.validate().is_ok());
    }
}

#[test]
fn test_media_description_validate_invalid_media_type() {
    let media = MediaDescription {
        media_type: "invalid".to_string(),
        port: 49170,
        protocol: "RTP/AVP".to_string(),
        formats: vec!["0".to_string()],
        connection: None,
        attributes: Vec::new(),
    };
    assert!(media.validate().is_err());
}

#[test]
fn test_media_description_validate_no_formats() {
    let media = MediaDescription {
        media_type: "audio".to_string(),
        port: 49170,
        protocol: "RTP/AVP".to_string(),
        formats: Vec::new(),
        connection: None,
        attributes: Vec::new(),
    };
    assert!(media.validate().is_err());
}

#[test]
fn test_media_description_display() {
    let media = MediaDescription {
        media_type: "audio".to_string(),
        port: 49170,
        protocol: "RTP/AVP".to_string(),
        formats: vec!["0".to_string(), "8".to_string()],
        connection: None,
        attributes: Vec::new(),
    };
    let display = media.to_string();
    assert_eq!(display, "m=audio 49170 RTP/AVP 0 8\r\n");
}

#[test]
fn test_media_description_display_with_connection() {
    let media = MediaDescription {
        media_type: "video".to_string(),
        port: 51372,
        protocol: "RTP/AVP".to_string(),
        formats: vec!["99".to_string()],
        connection: Some(Connection {
            network_type: "IN".to_string(),
            address_type: "IP4".to_string(),
            address: v4(192, 168, 1, 1),
            ttl: None,
            num_addresses: None,
        }),
        attributes: Vec::new(),
    };
    let display = media.to_string();
    assert!(display.contains("m=video 51372 RTP/AVP 99"));
    assert!(display.contains("c=IN IP4 192.168.1.1"));
}

#[test]
fn test_media_description_display_with_attributes() {
    let media = MediaDescription {
        media_type: "audio".to_string(),
        port: 49170,
        protocol: "RTP/AVP".to_string(),
        formats: vec!["0".to_string()],
        connection: None,
        attributes: vec![
            Attribute {
                name: "rtpmap".to_string(),
                value: Some("0 PCMU/8000".to_string()),
            },
            Attribute {
                name: "sendrecv".to_string(),
                value: None,
            },
        ],
    };
    let display = media.to_string();
    assert!(display.contains("m=audio 49170 RTP/AVP 0"));
    assert!(display.contains("a=rtpmap:0 PCMU/8000"));
    assert!(display.contains("a=sendrecv"));
}

#[test]
fn test_session_description_new() {
    let session = SessionDescription::new(SdpType::Offer);
    assert_eq!(session.sdp_type, SdpType::Offer);
    assert_eq!(session.version, 0);
    assert_eq!(session.session_name, "-");
}

#[test]
fn test_session_description_parse_simple() {
    let sdp = create_simple_sdp();
    let session = SessionDescription::parse_with(SdpType::Offer, &sdp, &[]).unwrap();

    assert_eq!(session.version, 0);
    assert_eq!(session.origin.session_id, 123456);
    assert_eq!(session.session_name, "Test Session");
    assert_eq!(session.media.len(), 1);
    assert_eq!(session.media[0].media_type, "audio");
}

#[test]
fn test_session_description_parse_complete() {
    let sdp = create_complete_sdp();
    let session =
        SessionDescription::parse_with(SdpType::Offer, &sdp, &[Some(v4(224, 2, 17, 12))]).unwrap();

    assert_eq!(session.version, 0);
    assert_eq!(session.origin.username, "jdoe");
    assert_eq!(session.session_name, "SDP Seminar");
    assert!(session.connection.is_some());
    assert_eq!(session.attributes.len(), 1);
    assert_eq!(session.media.len(), 2);
}

#[test]
fn test_session_description_parse_with_media_attributes() {
    let sdp = create_complete_sdp();
    let session =
        SessionDescription::parse_with(SdpType::Offer, &sdp, &[Some(v4(224, 2, 17, 12))]).unwrap();

    assert_eq!(session.media[0].attributes.len(), 1);
    assert_eq!(session.media[0].attributes[0].name, "rtpmap");
    assert_eq!(session.media[1].attributes.len(), 1);
}

#[test]
fn test_session_description_validate_invalid_version() {
    let mut session = SessionDescription::new(SdpType::Offer);
    session.version = 1;
    session.session_name = "Test".to_string();
    session.origin.session_id = 123;
    session.media.push(audio_media());

    assert!(session.validate().is_err());
}

#[test]
fn test_session_description_validate_empty_session_name() {
    let mut session = SessionDescription::new(SdpType::Offer);
    session.session_name = "".to_string();
    session.origin.session_id = 123;
    session.media.push(audio_media());

    assert!(session.validate().is_err());
}

#[test]
fn test_session_description_validate_no_media() {
    let mut session = SessionDescription::new(SdpType::Offer);
    session.session_name = "Test".to_string();
    session.origin.session_id = 123;

    assert!(session.validate().is_err());
}

#[test]
fn test_session_description_validate_invalid_origin() {
    let mut session = SessionDescription::new(SdpType::Offer);
    session.session_name = "Test".to_string();
    session.origin.session_id = 0; // Invalid
    session.media.push(audio_media());

    assert!(session.validate().is_err());
}

#[test]
fn test_session_description_parse_invalid_line_format() {
    let sdp = "v=0\r\ninvalid line\r\ns=Test\r\n";
    assert!(SessionDescription::parse_with(SdpType::Offer, sdp, &[]).is_err());
}

#[test]
fn test_session_description_split_line_valid() {
    let (type_char, value) = SessionDescription::split_line("v=0").unwrap();
    assert_eq!(type_char, 'v');
    assert_eq!(value, "0");
}

#[test]
fn test_session_description_split_line_invalid() {
    assert!(SessionDescription::split_line("invalid").is_err());
    assert!(SessionDescription::split_line("").is_err());
    assert!(SessionDescription::split_line("=value").is_err());
}

#[test]
fn test_session_description_builder() {
    let origin = Origin {
        session_id: 1,
        ..Default::default()
    };

    let session = SessionDescription::builder(SdpType::Offer)
        .origin(origin)
        .session_name("Test Session")
        .add_media(audio_media())
        .build();

    assert!(session.is_ok());
    let session = session.unwrap();
    assert_eq!(session.session_name, "Test Session");
    assert_eq!(session.media.len(), 1);
}

#[test]
fn test_session_description_display() {
    let mut session = SessionDescription::new(SdpType::Offer);
    session.session_name = "Test".to_string();
    session.origin.session_id = 123456;
    session.origin.session_version = 1;
    session.media.push(audio_media());

    let display = session.to_string();
    assert!(display.contains("v=0"));
    assert!(display.contains("o=- 123456 1"));
    assert!(display.contains("s=Test"));
    assert!(display.contains("t=0 0"));
    assert!(display.contains("m=audio 49170 RTP/AVP 0"));
}

#[test]
fn test_session_description_default() {
    let session = SessionDescription::default();
    assert_eq!(session.sdp_type, SdpType::Offer);
    assert_eq!(session.version, 0);
    assert_eq!(session.session_name, "-");
    assert!(session.media.is_empty());
}

#[test]
fn test_builder_origin() {
    let origin = Origin {
        username: "test".to_string(),
        session_id: 12345,
        session_version: 1,
        network_type: "IN".to_string(),
        address_type: "IP4".to_string(),
        unicast_address: "192.168.1.1".to_string(),
    };

    let session = SessionDescriptionBuilder::new(SdpType::Offer)
        .origin(origin.clone())
        .session_name("Test")
        .add_media(audio_media())
        .build()
        .unwrap();

    assert_eq!(session.origin.username, "test");
    assert_eq!(session.origin.session_id, 12345);
}

#[test]
fn test_builder_session_name() {
    let origin = Origin {
        session_id: 1,
        ..Default::default()
    };

    let session = SessionDescriptionBuilder::new(SdpType::Offer)
        .origin(origin)
        .session_name("My Session")
        .add_media(audio_media())
        .build()
        .unwrap();

    assert_eq!(session.session_name, "My Session");
}

#[test]
fn test_builder_timing() {
    let origin = Origin {
        session_id: 1,
        ..Default::default()
    };

    let timing = Timing {
        start_time: 100,
        stop_time: 200,
    };

    let session = SessionDescriptionBuilder::new(SdpType::Offer)
        .origin(origin)
        .session_name("Test")
        .timing(timing)
        .add_media(audio_media())
        .build()
        .unwrap();

    assert_eq!(session.timing.start_time, 100);
    assert_eq!(session.timing.stop_time, 200);
}

#[test]
fn test_builder_connection() {
    let origin = Origin {
        session_id: 1,
        ..Default::default()
    };

    let connection = Connection {
        network_type: "IN".to_string(),
        address_type: "IP4".to_string(),
        address: v4(192, 168, 1, 1),
        ttl: None,
        num_addresses: None,
    };

    let session = SessionDescriptionBuilder::new(SdpType::Offer)
        .origin(origin)
        .session_name("Test")
        .connection(connection)
        .add_media(audio_media())
        .build()
        .unwrap();

    assert!(session.connection.is_some());
    assert_eq!(session.connection.unwrap().address, v4(192, 168, 1, 1));
}

#[test]
fn test_builder_add_media() {
    let origin = Origin {
        session_id: 1,
        ..Default::default()
    };

    let media2 = MediaDescription {
        media_type: "video".to_string(),
        port: 51372,
        protocol: "RTP/AVP".to_string(),
        formats: vec!["99".to_string()],
        connection: None,
        attributes: Vec::new(),
    };

    let session = SessionDescriptionBuilder::new(SdpType::Offer)
        .origin(origin)
        .session_name("Test")
        .add_media(audio_media())
        .add_media(media2)
        .build()
        .unwrap();

    assert_eq!(session.media.len(), 2);
    assert_eq!(session.media[0].media_type, "audio");
    assert_eq!(session.media[1].media_type, "video");
}

#[test]
fn test_builder_add_attribute() {
    let origin = Origin {
        session_id: 1,
        ..Default::default()
    };

    let attr1 = Attribute {
        name: "sendrecv".to_string(),
        value: None,
    };

    let attr2 = Attribute {
        name: "tool".to_string(),
        value: Some("test-tool".to_string()),
    };

    let session = SessionDescriptionBuilder::new(SdpType::Offer)
        .origin(origin)
        .session_name("Test")
        .add_attribute(attr1)
        .add_attribute(attr2)
        .add_media(audio_media())
        .build()
        .unwrap();

    assert_eq!(session.attributes.len(), 2);
    assert_eq!(session.attributes[0].name, "sendrecv");
    assert_eq!(session.attributes[1].name, "tool");
}

#[test]
fn test_builder_complete_session() {
    let session = SessionDescriptionBuilder::new(SdpType::Answer)
        .origin(Origin {
            username: "user".to_string(),
            session_id: 999,
            session_version: 1,
            network_type: "IN".to_string(),
            address_type: "IP4".to_string(),
            unicast_address: "10.0.0.1".to_string(),
        })
        .session_name("Complete Session")
        .timing(Timing {
            start_time: 0,
            stop_time: 0,
        })
        .connection(Connection {
            network_type: "IN".to_string(),
            address_type: "IP4".to_string(),
            address: v4(224, 2, 1, 1),
            ttl: Some(127),
            num_addresses: None,
        })
        .add_attribute(Attribute {
            name: "recvonly".to_string(),
            value: None,
        })
        .add_media(audio_media())
        .build()
        .unwrap();

    assert_eq!(session.sdp_type, SdpType::Answer);
    assert_eq!(session.origin.session_id, 999);
    assert_eq!(session.session_name, "Complete Session");
    assert!(session.connection.is_some());
    assert_eq!(session.attributes.len(), 1);
    assert_eq!(session.media.len(), 1);
}

#[test]
fn test_builder_validation_fails_no_media() {
    let result = SessionDescriptionBuilder::new(SdpType::Offer)
        .session_name("Test")
        .build();

    assert!(result.is_err());
}

#[test]
fn test_builder_validation_fails_empty_session_name() {
    let result = SessionDescriptionBuilder::new(SdpType::Offer)
        .session_name("")
        .add_media(audio_media())
        .build();

    assert!(result.is_err());
}

fn written_session() -> SessionDescription {
    let origin = Origin {
        username: "alice".to_string(),
        session_id: 42,
        session_version: 7,
        network_type: "IN".to_string(),
        address_type: "IP4".to_string(),
        unicast_address: "10.0.0.1".to_string(),
    };
    let mut video = MediaDescription {
        media_type: "video".to_string(),
        port: 51372,
        protocol: "RTP/AVP".to_string(),
        formats: vec!["96".to_string(), "97".to_string()],
        connection: Some(Connection {
            network_type: "IN".to_string(),
            address_type: "IP4".to_string(),
            address: v4(224, 2, 17, 12),
            ttl: Some(127),
            num_addresses: Some(3),
        }),
        attributes: Vec::new(),
    };
    video.attributes.push(Attribute { name: "rtpmap".to_string(), value: Some("96 H264/90000".to_string()) });
    video.attributes.push(Attribute { name: "sendrecv".to_string(), value: None });
    SessionDescription::builder(SdpType::Answer)
        .origin(origin)
        .session_name("A call")
        .timing(Timing { start_time: 10, stop_time: 20 })
        .connection(Connection {
            network_type: "IN".to_string(),
            address_type: "IP4".to_string(),
            address: v4(10, 0, 0, 1),
            ttl: None,
            num_addresses: None,
        })
        .add_attribute(Attribute { name: "group".to_string(), value: Some("BUNDLE 0".to_string()) })
        .add_media(audio_media())
        .add_media(video)
        .build()
        .unwrap()
}

#[test]
fn session_text_reads_back() {
    let written = written_session();
    let text = written.to_string();
    let read = SessionDescription::parse_with(
        SdpType::Answer,
        &text,
        &[Some(v4(10, 0, 0, 1)), Some(v4(224, 2, 17, 12))],
    )
    .unwrap();
    assert_eq!(read.to_string(), text);
    assert_eq!(read.origin.username, "alice");
    assert_eq!(read.origin.session_id, 42);
    assert_eq!(read.session_name, "A call");
    assert_eq!(read.timing.start_time, 10);
    assert_eq!(read.timing.stop_time, 20);
    assert_eq!(read.attributes.len(), 1);
    assert_eq!(read.media.len(), 2);
    assert_eq!(read.media[1].formats, vec!["96".to_string(), "97".to_string()]);
    let c = read.media[1].connection.as_ref().unwrap();
    assert_eq!(c.address, v4(224, 2, 17, 12));
    assert_eq!(c.ttl, Some(127));
    assert_eq!(c.num_addresses, Some(3));
    assert_eq!(read.media[1].attributes[0].value.as_deref(), Some("96 H264/90000"));
    assert_eq!(read.media[1].attributes[1].value, None);
}

#[test]
fn timing_line_reads_back() {
    let t = Timing { start_time: 2873397496, stop_time: 2873404696 };
    let line = t.to_string();
    assert_eq!(line, "t=2873397496 2873404696\n");
    let back = Timing::parse(&line[2..line.len() - 1]).unwrap();
    assert_eq!(back.start_time, t.start_time);
    assert_eq!(back.stop_time, t.stop_time);
}

#[test]
fn origin_line_reads_back() {
    let o = Origin {
        username: "jdoe".to_string(),
        session_id: 2890844526,
        session_version: 2890842807,
        network_type: "IN".to_string(),
        address_type: "IP4".to_string(),
        unicast_address: "10.47.16.5".to_string(),
    };
    let line = o.to_string();
    let back = Origin::parse(&line[2..line.len() - 1]).unwrap();
    assert_eq!(back.to_string(), line);
    assert_eq!(back.session_id, 2890844526);
}

#[test]
fn attribute_line_reads_back() {
    let a = Attribute { name: "rtpmap".to_string(), value: Some("0 PCMU:8000".to_string()) };
    let line = a.to_string();
    let back = Attribute::parse(&line[2..line.len() - 1]).unwrap();
    assert_eq!(back.name, "rtpmap");
    assert_eq!(back.value.as_deref(), Some("0 PCMU:8000"));
}

#[test]
fn connection_line_reads_back() {
    let c = Connection {
        network_type: "IN".to_string(),
        address_type: "IP4".to_string(),
        address: v4(224, 2, 1, 1),
        ttl: Some(127),
        num_addresses: Some(3),
    };
    let line = c.to_string();
    assert_eq!(line, "c=IN IP4 224.2.1.1/127/3\n");
    let value = &line[2..line.len() - 1];
    assert_eq!(Connection::address_text(value).as_deref(), Some("224.2.1.1"));
    let back = Connection::parse_with(value, Some(c.address)).unwrap();
    assert_eq!(back.to_string(), line);
}

#[test]
fn media_line_reads_back() {
    let m = MediaDescription {
        media_type: "video".to_string(),
        port: 9,
        protocol: "UDP/TLS/RTP/SAVPF".to_string(),
        formats: vec!["96".to_string(), "97".to_string()],
        connection: None,
        attributes: Vec::new(),
    };
    let text = m.to_string();
    assert_eq!(text, "m=video 9 UDP/TLS/RTP/SAVPF 96 97\r\n");
    let back = MediaDescription::parse(&text[2..text.len() - 2]).unwrap();
    assert_eq!(back.to_string(), text);
}

#[test]
fn session_text_ends_every_line_in_crlf() {
    let mut session = SessionDescription::new(SdpType::Offer);
    session.session_name = "Test".to_string();
    session.origin.session_id = 123456;
    session.origin.session_version = 1;
    session.media.push(MediaDescription::parse("audio 49170 RTP/AVP 0").unwrap());
    assert_eq!(
        session.to_string(),
        "v=0\r\no=- 123456 1 IN IP4 0.0.0.0\r\ns=Test\r\nt=0 0\r\nm=audio 49170 RTP/AVP 0\r\n"
    );
    let written = written_session();
    let text = written.to_string();
    assert_eq!(
        text,
        "v=0\r\n\
         o=alice 42 7 IN IP4 10.0.0.1\r\n\
         s=A call\r\n\
         c=IN IP4 10.0.0.1\r\n\
         t=10 20\r\n\
         a=group:BUNDLE 0\r\n\
         m=audio 49170 RTP/AVP 0\r\n\
         m=video 51372 RTP/AVP 96 97\r\n\
         c=IN IP4 224.2.17.12/127/3\r\n\
         a=rtpmap:96 H264/90000\r\n\
         a=sendrecv\r\n"
    );
}
