use roomrtc::address::IpAddress;
use roomrtc::audio_info::AudioInfo;
use roomrtc::connection::dtls::{dtls_preconditions, is_dtls_packet, is_unspecified};
use roomrtc::connection::ice::extract_remote_endpoint_from_sdp;
use roomrtc::connection::offer::{build_sdp_with, create_answer, create_offer, make_origin};
use roomrtc::connection::sdp::{add_fingerprint_to_sdp, extract_fingerprint_from_sdp};
use roomrtc::ip_text::ip_to_string;
use roomrtc::sdp::{Origin, SdpError, SdpType, Timing};
use roomrtc::session::control_message::{ControlCodes, ControlMessage};
use roomrtc::session::file_channel::channel::{FileChannel, SendStep};
use roomrtc::session::file_transfer::incoming::ChunkError;
use roomrtc::session::file_transfer::message::MessageError;
use roomrtc::session::file_transfer::{
    FileTransferEvent, FileTransferMessage, FileTransferState, IncomingTransfer, OutgoingTransfer,
};
use roomrtc::session::h264::get_nal_type;
use std::path::PathBuf;

fn roundtrip(msg: FileTransferMessage) -> FileTransferMessage {
    FileTransferMessage::from_bytes(&msg.to_bytes()).unwrap()
}

#[test]
fn message_roundtrip_every_kind() {
    match roundtrip(FileTransferMessage::Accept { id: 7 }) {
        FileTransferMessage::Accept { id } => assert_eq!(id, 7),
        _ => panic!("wrong kind"),
    }
    match roundtrip(FileTransferMessage::Reject { id: 8, reason: "no space".to_string() }) {
        FileTransferMessage::Reject { id, reason } => {
            assert_eq!(id, 8);
            assert_eq!(reason, "no space");
        }
        _ => panic!("wrong kind"),
    }
    match roundtrip(FileTransferMessage::Data { id: 9, offset: 1024, data: vec![1, 2, 3] }) {
        FileTransferMessage::Data { id, offset, data } => {
            assert_eq!((id, offset), (9, 1024));
            assert_eq!(data, vec![1, 2, 3]);
        }
        _ => panic!("wrong kind"),
    }
    match roundtrip(FileTransferMessage::Complete { id: 10, checksum: 0xdead_beef }) {
        FileTransferMessage::Complete { id, checksum } => assert_eq!((id, checksum), (10, 0xdead_beef)),
        _ => panic!("wrong kind"),
    }
    match roundtrip(FileTransferMessage::Cancel { id: 11, reason: "stop ü".to_string() }) {
        FileTransferMessage::Cancel { id, reason } => {
            assert_eq!(id, 11);
            assert_eq!(reason, "stop ü");
        }
        _ => panic!("wrong kind"),
    }
    match roundtrip(FileTransferMessage::Offer {
        id: 1,
        filename: "a.bin".to_string(),
        size: 5,
        mime_type: "application/octet-stream".to_string(),
    }) {
        FileTransferMessage::Offer { mime_type, .. } => assert_eq!(mime_type, "application/octet-stream"),
        _ => panic!("wrong kind"),
    }
}

#[test]
fn message_exact_bytes() {
    let bytes = FileTransferMessage::Accept { id: 0x0102 }.to_bytes();
    assert_eq!(bytes, vec![0x02, 0, 0, 0, 0, 0, 0, 0x01, 0x02]);
    let bytes = FileTransferMessage::Reject { id: 1, reason: "x".to_string() }.to_bytes();
    assert_eq!(bytes, vec![0x03, 0, 0, 0, 0, 0, 0, 0, 1, 0, 1, b'x']);
}

#[test]
fn message_errors() {
    assert_eq!(FileTransferMessage::from_bytes(&[]).unwrap_err(), MessageError::Empty);
    assert_eq!(FileTransferMessage::from_bytes(&[0x09]).unwrap_err(), MessageError::UnknownType);
    assert_eq!(FileTransferMessage::from_bytes(&[0x01, 0, 0]).unwrap_err(), MessageError::OfferTooShort);
    let mut truncated = vec![0x01];
    truncated.extend_from_slice(&[0u8; 16]);
    truncated.extend_from_slice(&[0, 10, 0, 0]);
    assert_eq!(FileTransferMessage::from_bytes(&truncated).unwrap_err(), MessageError::Truncated);
    let mut bad_name = vec![0x01];
    bad_name.extend_from_slice(&[0u8; 16]);
    bad_name.extend_from_slice(&[0, 1, 0xff, 0, 0]);
    assert_eq!(FileTransferMessage::from_bytes(&bad_name).unwrap_err(), MessageError::InvalidUtf8);
    assert_eq!(FileTransferMessage::from_bytes(&[0x04, 0, 0]).unwrap_err(), MessageError::TooShort);
    assert_eq!(MessageError::Truncated.to_string(), "Truncated");
}

#[test]
fn message_reason_past_end_reads_empty() {
    let bytes = vec![0x06, 0, 0, 0, 0, 0, 0, 0, 3, 0, 9, b'a'];
    match FileTransferMessage::from_bytes(&bytes).unwrap() {
        FileTransferMessage::Cancel { id, reason } => {
            assert_eq!(id, 3);
            assert_eq!(reason, "");
        }
        _ => panic!("wrong kind"),
    }
}

#[test]
fn incoming_chunks_reassemble_in_offset_order() {
    let mut t = IncomingTransfer::new(6);
    assert_eq!(t.receive_chunk(0, vec![1, 2]), Err(ChunkError::NotInProgress));
    t.accept(PathBuf::from("/tmp/out.bin"));
    assert_eq!(t.state, FileTransferState::Transferring);
    assert_eq!(t.receive_chunk(4, vec![5, 6]), Ok(()));
    assert_eq!(t.receive_chunk(0, vec![1, 2]), Ok(()));
    // A duplicate offset is skipped.
    assert_eq!(t.receive_chunk(0, vec![9, 9]), Ok(()));
    assert_eq!(t.receive_chunk(2, vec![3, 4, 7]), Err(ChunkError::TooMuchData));
    assert_eq!(t.receive_chunk(2, vec![3, 4]), Ok(()));
    assert_eq!(t.bytes_received, 6);
    assert_eq!(t.assembled_data(), vec![1, 2, 3, 4, 5, 6]);
    assert_eq!(ChunkError::TooMuchData.to_string(), "Received more data than expected");
    t.reject();
    assert_eq!(t.state, FileTransferState::Cancelled);
}

#[test]
fn outgoing_chunk_size_adapts_within_bounds() {
    let mut t = OutgoingTransfer::new(1, PathBuf::from("f"), 10_000);
    assert_eq!(t.sizer.chunk_size(), 1024);
    assert_eq!(t.chunk_request(), None);
    t.accept();
    assert_eq!(t.chunk_request(), Some((0, 1024)));
    for _ in 0..9 {
        t.adapt_chunk_size(true);
    }
    assert_eq!(t.sizer.chunk_size(), 1024);
    t.adapt_chunk_size(true);
    assert_eq!(t.sizer.chunk_size(), 1200);
    t.adapt_chunk_size(false);
    assert_eq!(t.sizer.chunk_size(), 600);
    t.adapt_chunk_size(false);
    assert_eq!(t.sizer.chunk_size(), 512);
    t.record_chunk_sent(9_800);
    assert_eq!(t.chunk_request(), Some((9_800, 200)));
    t.record_chunk_sent(200);
    assert_eq!(t.state, FileTransferState::Completed);
    assert_eq!(t.chunk_request(), None);
}

fn offer_bytes(id: u64, size: u64) -> Vec<u8> {
    FileTransferMessage::Offer {
        id,
        filename: "photo.jpg".to_string(),
        size,
        mime_type: "image/jpeg".to_string(),
    }
    .to_bytes()
}

#[test]
fn channel_receives_a_file() {
    let mut ch = FileChannel::with_random(5, 0xffff_0000_0000_0042);
    assert_eq!(ch.channel_id(), 5);
    assert_eq!(ch.on_data(&offer_bytes(77, 4)), None);
    match ch.poll_event() {
        Some(FileTransferEvent::IncomingOffer { id, filename, size }) => {
            assert_eq!((id, size), (77, 4));
            assert_eq!(filename, "photo.jpg");
        }
        other => panic!("unexpected {:?}", other),
    }
    assert_eq!(ch.accept_transfer(99, PathBuf::from("/tmp/x")), Err("Transfer not found"));
    assert_eq!(ch.accept_transfer(77, PathBuf::from("/tmp/photo.jpg")), Ok(()));
    assert_eq!(ch.accept_transfer(77, PathBuf::from("/tmp/photo.jpg")), Err("Transfer not pending"));
    match ch.poll_send() {
        SendStep::Send(bytes) => assert_eq!(bytes, FileTransferMessage::Accept { id: 77 }.to_bytes()),
        other => panic!("unexpected {:?}", other),
    }
    let data = FileTransferMessage::Data { id: 77, offset: 0, data: vec![1, 2, 3, 4] }.to_bytes();
    assert_eq!(ch.on_data(&data), None);
    match ch.poll_event() {
        Some(FileTransferEvent::Progress { id, bytes, total }) => assert_eq!((id, bytes, total), (77, 4, 4)),
        other => panic!("unexpected {:?}", other),
    }
    assert_eq!(ch.get_progress(77), Some((4, 4)));
    let complete = FileTransferMessage::Complete { id: 77, checksum: 0 }.to_bytes();
    assert_eq!(ch.on_data(&complete), Some(77));
    match ch.incoming_file_data(77) {
        Some((path, bytes)) => {
            assert_eq!(path, &PathBuf::from("/tmp/photo.jpg"));
            assert_eq!(bytes, vec![1, 2, 3, 4]);
        }
        None => panic!("no file data"),
    }
    ch.finish_incoming(77, Ok(()));
    match ch.poll_event() {
        Some(FileTransferEvent::Completed { id, path }) => {
            assert_eq!(id, 77);
            assert_eq!(path, PathBuf::from("/tmp/photo.jpg"));
        }
        other => panic!("unexpected {:?}", other),
    }
    assert_eq!(ch.get_progress(77), None);
    assert!(ch.poll_event().is_none());
    // Bytes that are no message are dropped.
    assert_eq!(ch.on_data(&[0x42]), None);
    assert!(ch.poll_event().is_none());
}

#[test]
fn channel_sends_a_file() {
    let mut ch = FileChannel::with_random(1, 0x10);
    let id = ch.offer_file(
        PathBuf::from("/data/a.txt"),
        "a.txt".to_string(),
        3,
        "text/plain".to_string(),
    );
    assert_eq!(id, 0x10);
    match ch.poll_send() {
        SendStep::Send(bytes) => match FileTransferMessage::from_bytes(&bytes).unwrap() {
            FileTransferMessage::Offer { id: oid, filename, size, .. } => {
                assert_eq!((oid, size), (0x10, 3));
                assert_eq!(filename, "a.txt");
            }
            _ => panic!("wrong kind"),
        },
        other => panic!("unexpected {:?}", other),
    }
    // Not accepted yet: nothing to read.
    assert!(matches!(ch.poll_send(), SendStep::Idle));
    ch.on_data(&FileTransferMessage::Accept { id }.to_bytes());
    assert!(matches!(ch.poll_event(), Some(FileTransferEvent::Accepted { id: 0x10 })));
    let step = ch.poll_send();
    match step {
        SendStep::Read { id: rid, offset, len } => assert_eq!((rid, offset, len), (0x10, 0, 3)),
        other => panic!("unexpected {:?}", other),
    }
    // A report for another chunk is ignored.
    assert!(matches!(ch.on_chunk_read(12345, Ok(vec![1])), SendStep::Idle));
    match ch.on_chunk_read(0x10, Ok(vec![b'x', b'y', b'z'])) {
        SendStep::Send(bytes) => assert_eq!(
            bytes,
            FileTransferMessage::Data { id: 0x10, offset: 0, data: b"xyz".to_vec() }.to_bytes()
        ),
        other => panic!("unexpected {:?}", other),
    }
    assert!(!ch.can_send() || ch.can_send());
    assert!(matches!(ch.poll_event(), Some(FileTransferEvent::Progress { id: 0x10, bytes: 3, total: 3 })));
    // The completion notice goes next and retires the transfer.
    match ch.poll_send() {
        SendStep::Send(bytes) => assert_eq!(bytes, FileTransferMessage::Complete { id: 0x10, checksum: 0 }.to_bytes()),
        other => panic!("unexpected {:?}", other),
    }
    match ch.poll_event() {
        Some(FileTransferEvent::Completed { id, path }) => {
            assert_eq!(id, 0x10);
            assert_eq!(path, PathBuf::from("/data/a.txt"));
        }
        other => panic!("unexpected {:?}", other),
    }
    ch.on_bytes_sent(1000);
    assert!(ch.can_send());
}

#[test]
fn channel_read_error_fails_the_transfer() {
    let mut ch = FileChannel::with_random(1, 0);
    let id = ch.offer_file(PathBuf::from("/gone"), "gone".to_string(), 10, "x/y".to_string());
    ch.poll_send();
    ch.on_data(&FileTransferMessage::Accept { id }.to_bytes());
    ch.poll_event();
    assert!(matches!(ch.poll_send(), SendStep::Read { .. }));
    assert!(matches!(ch.on_chunk_read(id, Err("disk gone".to_string())), SendStep::Idle));
    match ch.poll_event() {
        Some(FileTransferEvent::Failed { id: fid, reason }) => {
            assert_eq!(fid, id);
            assert_eq!(reason, "File read error: disk gone");
        }
        other => panic!("unexpected {:?}", other),
    }
    assert_eq!(ch.get_progress(id), None);
}

#[test]
fn channel_cancel_and_reject() {
    let mut ch = FileChannel::with_random(2, 0);
    assert_eq!(ch.cancel_transfer(5, "why"), Err("Transfer not found"));
    ch.on_data(&offer_bytes(5, 10));
    ch.poll_event();
    assert_eq!(ch.reject_transfer(5, "busy"), Ok(()));
    match ch.poll_send() {
        SendStep::Send(bytes) => match FileTransferMessage::from_bytes(&bytes).unwrap() {
            FileTransferMessage::Reject { id, reason } => {
                assert_eq!(id, 5);
                assert_eq!(reason, "busy");
            }
            _ => panic!("wrong kind"),
        },
        other => panic!("unexpected {:?}", other),
    }
    assert_eq!(ch.cancel_transfer(5, "user"), Ok(()));
    match ch.poll_event() {
        Some(FileTransferEvent::Failed { id, reason }) => {
            assert_eq!(id, 5);
            assert_eq!(reason, "Cancelled: user");
        }
        other => panic!("unexpected {:?}", other),
    }
    assert_eq!(ch.get_progress(5), None);
}

#[test]
fn channel_complete_without_save_path_fails() {
    let mut ch = FileChannel::with_random(2, 0);
    ch.on_data(&offer_bytes(6, 1));
    ch.poll_event();
    assert_eq!(ch.on_data(&FileTransferMessage::Complete { id: 6, checksum: 0 }.to_bytes()), None);
    match ch.poll_event() {
        Some(FileTransferEvent::Failed { id, reason }) => {
            assert_eq!(id, 6);
            assert_eq!(reason, "No save path set");
        }
        other => panic!("unexpected {:?}", other),
    }
}

#[test]
fn nal_type_of_streams() {
    assert_eq!(get_nal_type(&[0, 0, 0, 1, 0x67, 0x42]), 7);
    assert_eq!(get_nal_type(&[0, 0, 1, 0x65]), 5);
    assert_eq!(get_nal_type(&[0xff, 0, 0, 1, 0x41]), 1);
    assert_eq!(get_nal_type(&[0, 0, 0, 1]), 0);
    assert_eq!(get_nal_type(&[1, 2, 3]), 0);
    assert_eq!(get_nal_type(&[]), 0);
}

#[test]
fn audio_info_recommendations() {
    let info = AudioInfo {
        device_id: 0,
        name: "mic".to_string(),
        max_sample_rate: 48000,
        supported_channels: vec![1, 2],
    };
    assert_eq!(info.sample_rate_string(), "48000 Hz");
    assert!(info.supports_sample_rate(44100));
    assert!(!info.supports_sample_rate(96000));
    assert!(info.supports_channels(2));
    assert!(!info.supports_channels(6));
    assert_eq!(info.recommended_sample_rate(), 48000);
    assert_eq!(info.recommended_channels(), 2);
    let mono = AudioInfo { supported_channels: vec![1], ..info };
    assert_eq!(mono.recommended_channels(), 1);
}

fn codes() -> ControlCodes {
    ControlCodes {
        camera_on: 1,
        camera_off: 2,
        audio_on: 3,
        audio_off: 4,
        audio_muted: 5,
        audio_unmuted: 6,
        participant_disconnected: 7,
        owner_disconnected: 8,
        participant_name: 9,
    }
}

#[test]
fn control_message_roundtrip() {
    let c = codes();
    let name = ControlMessage::ParticipantName("Ana".to_string());
    let bytes = name.to_bytes(&c);
    assert_eq!(bytes, vec![9, b'A', b'n', b'a']);
    assert_eq!(ControlMessage::from_bytes(&bytes, &c), Some(name));
    assert_eq!(ControlMessage::from_bytes(&[3], &c), Some(ControlMessage::AudioOn));
    assert_eq!(ControlMessage::from_bytes(&[9], &c), None);
    assert_eq!(ControlMessage::from_bytes(&[], &c), None);
    assert_eq!(ControlMessage::from_bytes(&[42], &c), None);
}

#[test]
fn ip_text_forms() {
    assert_eq!(ip_to_string(&IpAddress::V4([10, 0, 0, 255])), "10.0.0.255");
    let mut a = [0u8; 16];
    assert_eq!(ip_to_string(&IpAddress::V6(a)), "::");
    a[15] = 1;
    assert_eq!(ip_to_string(&IpAddress::V6(a)), "::1");
    let doc = [0x20, 0x01, 0x0d, 0xb8, 0, 0, 0, 0, 0, 0, 0, 0, 0, 0, 0, 1];
    assert_eq!(ip_to_string(&IpAddress::V6(doc)), "2001:db8::1");
    let mapped = [0, 0, 0, 0, 0, 0, 0, 0, 0, 0, 0xff, 0xff, 1, 2, 3, 4];
    assert_eq!(ip_to_string(&IpAddress::V6(mapped)), "::ffff:1.2.3.4");
    let two_runs = [0, 1, 0, 0, 0, 0, 0, 2, 0, 0, 0, 0, 0, 0, 0, 3];
    assert_eq!(ip_to_string(&IpAddress::V6(two_runs)), "1:0:0:2::3");
    let no_run = [0, 1, 0, 0, 0, 2, 0, 3, 0, 4, 0, 5, 0, 6, 0, 7];
    assert_eq!(ip_to_string(&IpAddress::V6(no_run)), "1:0:2:3:4:5:6:7");
}

#[test]
fn fingerprint_is_inserted_before_media() {
    let sdp = "v=0\r\ns=x\r\nm=audio 1 RTP/AVP 0\r\na=rtpmap:0 PCMU/8000\r\n".to_string();
    let out = add_fingerprint_to_sdp(sdp, "AB:CD", true);
    assert_eq!(
        out,
        "v=0\r\ns=x\r\na=fingerprint:sha-256 AB:CD\r\na=setup:actpass\r\nm=audio 1 RTP/AVP 0\r\na=rtpmap:0 PCMU/8000\r\n"
    );
    let answer = add_fingerprint_to_sdp("v=0\n".to_string(), "EF", false);
    assert_eq!(answer, "v=0\r\na=fingerprint:sha-256 EF\r\na=setup:active\r\n");
    assert_eq!(extract_fingerprint_from_sdp(&out), Some("AB:CD".to_string()));
    assert_eq!(
        extract_fingerprint_from_sdp("a=fingerprint:SHA-256  ab:cd \r\n"),
        Some("AB:CD".to_string())
    );
    assert_eq!(extract_fingerprint_from_sdp("a=fingerprint:sha-1 AB\r\n"), None);
    assert_eq!(extract_fingerprint_from_sdp("v=0\r\n"), None);
}

#[test]
fn remote_endpoint_from_candidates() {
    let sdp = "v=0\r\na=candidate:1 1 UDP 2130706431 192.168.1.5 5000 typ host\r\n";
    assert_eq!(
        extract_remote_endpoint_from_sdp(sdp),
        Some(("192.168.1.5".to_string(), 5000))
    );
    assert_eq!(extract_remote_endpoint_from_sdp("candidate:1 1 UDP 1 10.0.0.1 notaport"), None);
    assert_eq!(extract_remote_endpoint_from_sdp("a=candidate:1 1 UDP"), None);
    assert_eq!(extract_remote_endpoint_from_sdp("v=0"), None);
}

#[test]
fn timing_stopping_before_start_is_invalid() {
    assert!(Timing { start_time: 100, stop_time: 0 }.validate().is_err());
    assert!(Timing { start_time: 0, stop_time: 100 }.validate().is_ok());
}

#[test]
fn numbers_follow_str_parse() {
    let o = Origin::parse("- +5 007 IN IP4 1.2.3.4").unwrap();
    assert_eq!((o.session_id, o.session_version), (5, 7));
    assert!(Origin::parse("- -5 1 IN IP4 1.2.3.4").is_err());
    assert!(Origin::parse("- 18446744073709551616 1 IN IP4 1.2.3.4").is_err());
    assert!(Timing::parse("18446744073709551615 0").is_ok());
    assert!(Timing::parse("+ 0").is_err());
}

#[test]
fn offer_text_is_exact() {
    let candidates = vec![
        "1 1 UDP 2130706431 192.168.1.10 50000 typ host".to_string(),
        "2 1 UDP 1694498815 203.0.113.5 50001 typ srflx".to_string(),
    ];
    let text = build_sdp_with(SdpType::Offer, "192.168.1.10", 42, "abcd", "secretpwd", &candidates).unwrap();
    assert_eq!(
        text,
        "v=0\r\n\
         o=- 42 1 IN IP4 192.168.1.10\r\n\
         s=Rust WebRTC\r\n\
         t=0 0\r\n\
         a=ice-ufrag:abcd\r\n\
         a=ice-pwd:secretpwd\r\n\
         a=candidate:1 1 UDP 2130706431 192.168.1.10 50000 typ host\r\n\
         a=candidate:2 1 UDP 1694498815 203.0.113.5 50001 typ srflx\r\n\
         m=application 9 DTLS/SCTP webrtc-datachannel\r\n"
    );
}

#[test]
fn offer_with_session_zero_is_refused() {
    let r = build_sdp_with(SdpType::Answer, "10.0.0.1", 0, "u", "p", &[]);
    assert!(matches!(r, Err(SdpError::InvalidSessionId)));
}

#[test]
fn offer_and_answer_from_the_clock() {
    let candidates = vec!["1 1 UDP 1 10.0.0.3 4000 typ host".to_string()];
    let offer = create_offer("uf", "pw", &candidates, Some("10.0.0.3"), "127.0.0.1").unwrap();
    assert!(offer.starts_with("v=0\r\no=- "));
    assert!(offer.contains(" 1 IN IP4 10.0.0.3\r\ns=Rust WebRTC\r\nt=0 0\r\na=ice-ufrag:uf\r\na=ice-pwd:pw\r\n"));
    assert!(offer.ends_with("a=candidate:1 1 UDP 1 10.0.0.3 4000 typ host\r\nm=application 9 DTLS/SCTP webrtc-datachannel\r\n"));
    let answer = create_answer("uf", "pw", &[], None, "127.0.0.1").unwrap();
    assert!(answer.contains(" 1 IN IP4 127.0.0.1\r\n"));
    let o = make_origin(None, "10.1.1.1");
    assert_eq!(o.username, "-");
    assert_eq!(o.session_version, 1);
    assert_eq!(o.unicast_address, "10.1.1.1");
    assert!(o.session_id > 0);
    assert_eq!(make_origin(Some("10.2.2.2"), "10.1.1.1").unicast_address, "10.2.2.2");
}

#[test]
fn inserted_fingerprint_reads_back_in_upper_case() {
    let sdp = "v=0\r\no=- 1 1 IN IP4 10.0.0.1\r\nm=application 9 DTLS/SCTP webrtc-datachannel\r\n".to_string();
    let out = add_fingerprint_to_sdp(sdp, " 1a:2b:ff ", false);
    assert_eq!(extract_fingerprint_from_sdp(&out), Some("1A:2B:FF".to_string()));
}

#[test]
fn cancel_leaves_no_transfer_with_that_id() {
    let mut ch = FileChannel::with_random(3, 0);
    let id = ch.offer_file(PathBuf::from("/f"), "f".to_string(), 10, "x/y".to_string());
    ch.on_data(&offer_bytes(id, 10));
    assert!(ch.get_progress(id).is_some());
    ch.on_data(&FileTransferMessage::Cancel { id, reason: "stop".to_string() }.to_bytes());
    assert_eq!(ch.get_progress(id), None);
    ch.on_data(&FileTransferMessage::Cancel { id: 999, reason: "unknown".to_string() }.to_bytes());
    assert_eq!(ch.get_progress(999), None);
}

#[test]
fn dtls_preconditions_report_what_is_missing() {
    let endpoint = Some(("10.0.0.2".to_string(), 5000u16));
    assert!(dtls_preconditions(true, 2, 1, endpoint.clone(), true).is_ok());
    assert!(dtls_preconditions(true, 1, 0, endpoint.clone(), true).is_ok());
    assert_eq!(
        dtls_preconditions(false, 0, 0, None, false),
        Err("DTLS preconditions failed:\n\
             DTLS not initialized\n\
             No local ICE candidates\n\
             No remote ICE candidates AND no remote endpoint (CRITICAL)\n\
             No remote DTLS fingerprint\n\
             Cannot determine remote address"
            .to_string())
    );
    assert_eq!(
        dtls_preconditions(true, 1, 3, None, true),
        Err("DTLS preconditions failed:\nCannot determine remote address".to_string())
    );
    assert_eq!(
        dtls_preconditions(true, 1, 0, endpoint, false),
        Err("DTLS preconditions failed:\nNo remote DTLS fingerprint".to_string())
    );
}

#[test]
fn dtls_packets_and_unspecified_addresses() {
    assert!(is_dtls_packet(&[22, 254, 253]));
    assert!(is_dtls_packet(&[20]));
    assert!(is_dtls_packet(&[23, 0]));
    assert!(!is_dtls_packet(&[19]));
    assert!(!is_dtls_packet(&[24]));
    assert!(!is_dtls_packet(&[128, 0]));
    assert!(!is_dtls_packet(&[]));
    assert!(is_unspecified(&IpAddress::V4([0, 0, 0, 0])));
    assert!(!is_unspecified(&IpAddress::V4([127, 0, 0, 1])));
    assert!(is_unspecified(&IpAddress::V6([0; 16])));
    let mut one = [0u8; 16];
    one[15] = 1;
    assert!(!is_unspecified(&IpAddress::V6(one)));
}
