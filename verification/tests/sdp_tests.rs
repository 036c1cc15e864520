use roomrtc::sdp::{Attribute, Origin, Timing};

#[test]
fn test_attribute_parse_flag() {
    let attr = Attribute::parse("recvonly").unwrap();
    assert_eq!(attr.name, "recvonly");
    assert_eq!(attr.value, None);
}

#[test]
fn test_attribute_parse_with_value() {
    let attr = Attribute::parse("rtpmap:96 VP8/90000").unwrap();
    assert_eq!(attr.name, "rtpmap");
    assert_eq!(attr.value, Some("96 VP8/90000".to_string()));
}

#[test]
fn test_attribute_parse_with_colon_in_value() {
    let attr = Attribute::parse("fingerprint:sha-256 AA:BB:CC").unwrap();
    assert_eq!(attr.name, "fingerprint");
    assert_eq!(attr.value, Some("sha-256 AA:BB:CC".to_string()));
}

#[test]
fn test_attribute_display_flag() {
    let attr = Attribute {
        name: "sendrecv".to_string(),
        value: None,
    };
    assert_eq!(attr.to_string(), "a=sendrecv\n");
}

#[test]
fn test_attribute_display_with_value() {
    let attr = Attribute {
        name: "rtpmap".to_string(),
        value: Some("96 VP8/90000".to_string()),
    };
    assert_eq!(attr.to_string(), "a=rtpmap:96 VP8/90000\n");
}

#[test]
fn test_origin_parse_valid() {
    let origin = Origin::parse("- 123456 789012 IN IP4 192.168.1.1").unwrap();
    assert_eq!(origin.username, "-");
    assert_eq!(origin.session_id, 123456);
    assert_eq!(origin.session_version, 789012);
    assert_eq!(origin.network_type, "IN");
    assert_eq!(origin.address_type, "IP4");
    assert_eq!(origin.unicast_address, "192.168.1.1");
}

#[test]
fn test_origin_parse_ipv6() {
    let origin = Origin::parse("user 1 2 IN IP6 ::1").unwrap();
    assert_eq!(origin.username, "user");
    assert_eq!(origin.session_id, 1);
    assert_eq!(origin.session_version, 2);
    assert_eq!(origin.network_type, "IN");
    assert_eq!(origin.address_type, "IP6");
    assert_eq!(origin.unicast_address, "::1");
}

#[test]
fn test_origin_parse_invalid_format() {
    assert!(Origin::parse("- 123456 789012 IN IP4").is_err());
    assert!(Origin::parse("- 123456 789012").is_err());
    assert!(Origin::parse("").is_err());
}

#[test]
fn test_origin_parse_invalid_session_id() {
    assert!(Origin::parse("- abc 789012 IN IP4 192.168.1.1").is_err());
    assert!(Origin::parse("- 123456 xyz IN IP4 192.168.1.1").is_err());
}

#[test]
fn test_origin_validate_valid() {
    let origin = Origin {
        username: "-".to_string(),
        session_id: 123456,
        session_version: 1,
        network_type: "IN".to_string(),
        address_type: "IP4".to_string(),
        unicast_address: "192.168.1.1".to_string(),
    };
    assert!(origin.validate().is_ok());
}

#[test]
fn test_origin_validate_invalid_network_type() {
    let origin = Origin {
        username: "-".to_string(),
        session_id: 123456,
        session_version: 1,
        network_type: "XX".to_string(),
        address_type: "IP4".to_string(),
        unicast_address: "192.168.1.1".to_string(),
    };
    assert!(origin.validate().is_err());
}

#[test]
fn test_origin_validate_invalid_address_type() {
    let origin = Origin {
        username: "-".to_string(),
        session_id: 123456,
        session_version: 1,
        network_type: "IN".to_string(),
        address_type: "IP5".to_string(),
        unicast_address: "192.168.1.1".to_string(),
    };
    assert!(origin.validate().is_err());
}

#[test]
fn test_origin_validate_zero_session_id() {
    let origin = Origin {
        username: "-".to_string(),
        session_id: 0,
        session_version: 1,
        network_type: "IN".to_string(),
        address_type: "IP4".to_string(),
        unicast_address: "192.168.1.1".to_string(),
    };
    assert!(origin.validate().is_err());
}

#[test]
fn test_origin_default() {
    let origin = Origin::default();
    assert_eq!(origin.username, "-");
    assert_eq!(origin.session_id, 0);
    assert_eq!(origin.session_version, 0);
    assert_eq!(origin.network_type, "IN");
    assert_eq!(origin.address_type, "IP4");
    assert_eq!(origin.unicast_address, "0.0.0.0");
}

#[test]
fn test_origin_display() {
    let origin = Origin {
        username: "-".to_string(),
        session_id: 123456,
        session_version: 789012,
        network_type: "IN".to_string(),
        address_type: "IP4".to_string(),
        unicast_address: "192.168.1.1".to_string(),
    };
    let display = origin.to_string();
    assert_eq!(display, "o=- 123456 789012 IN IP4 192.168.1.1\n");
}

#[test]
fn test_timing_parse_valid() {
    let timing = Timing::parse("0 0").unwrap();
    assert_eq!(timing.start_time, 0);
    assert_eq!(timing.stop_time, 0);
}

#[test]
fn test_timing_parse_invalid_format() {
    assert!(Timing::parse("0").is_err());
    assert!(Timing::parse("0 0 0").is_err());
    assert!(Timing::parse("").is_err());
}

#[test]
fn test_timing_parse_invalid_numbers() {
    assert!(Timing::parse("abc def").is_err());
    assert!(Timing::parse("123 xyz").is_err());
}

#[test]
fn test_timing_validate_permanent_session() {
    let timing = Timing {
        start_time: 0,
        stop_time: 0,
    };
    assert!(timing.validate().is_ok());
}

#[test]
fn test_timing_validate_valid_range() {
    let timing = Timing {
        start_time: 100,
        stop_time: 200,
    };
    assert!(timing.validate().is_ok());
}

#[test]
fn test_timing_validate_equal_times() {
    let timing = Timing {
        start_time: 100,
        stop_time: 100,
    };
    assert!(timing.validate().is_ok());
}

#[test]
fn test_timing_validate_invalid_range() {
    let timing = Timing {
        start_time: 200,
        stop_time: 100,
    };
    assert!(timing.validate().is_err());
}

#[test]
fn test_timing_default() {
    let timing = Timing::default();
    assert_eq!(timing.start_time, 0);
    assert_eq!(timing.stop_time, 0);
}

#[test]
fn test_timing_display() {
    let timing = Timing {
        start_time: 3724394400,
        stop_time: 3724398000,
    };
    let display = timing.to_string();
    assert_eq!(display, "t=3724394400 3724398000\n");
}
