//! Control messages between peers: camera and audio state changes, the
//! departure of a participant or of the owner, and a participant's name.
//! On the wire a message is its type byte, then (for a name) its UTF-8 text.
use crate::bytes::push_all;
use crate::text::string_from_utf8;
use vstd::prelude::*;
use vstd::string::*;
use vstd::utf8::{decode_utf8, encode_utf8, encode_utf8_decode_utf8, encode_utf8_valid_utf8, valid_utf8};

verus! {

/// Control message types for camera/audio state and peer connection synchronization.
/// File transfers use SCTP DataChannel messages, not RTP control messages.
#[derive(Debug, Clone, PartialEq, Eq)]
pub enum ControlMessage {
    CameraOn,
    CameraOff,
    AudioOn,
    AudioOff,
    AudioMuted,
    AudioUnmuted,
    ParticipantDisconnected,
    OwnerDisconnected,
    ParticipantName(String),
}

/// The type bytes of the control messages, as the transport defines them.
#[derive(Debug, Clone, Copy)]
pub struct ControlCodes {
    pub camera_on: u8,
    pub camera_off: u8,
    pub audio_on: u8,
    pub audio_off: u8,
    pub audio_muted: u8,
    pub audio_unmuted: u8,
    pub participant_disconnected: u8,
    pub owner_disconnected: u8,
    pub participant_name: u8,
}

/// Whether no two kinds of message share a type byte.
pub open spec fn codes_distinct(c: ControlCodes) -> bool {
    let s = seq![
        c.camera_on,
        c.camera_off,
        c.audio_on,
        c.audio_off,
        c.audio_muted,
        c.audio_unmuted,
        c.participant_disconnected,
        c.owner_disconnected,
        c.participant_name,
    ];
    forall|i: int, j: int| 0 <= i < 9 && 0 <= j < 9 && i != j ==> s[i] != s[j]
}

/// A control message as its kind and, for a name, its text.
pub enum ControlModel {
    CameraOn,
    CameraOff,
    AudioOn,
    AudioOff,
    AudioMuted,
    AudioUnmuted,
    ParticipantDisconnected,
    OwnerDisconnected,
    ParticipantName(Seq<char>),
}

impl View for ControlMessage {
    type V = ControlModel;

    open spec fn view(&self) -> ControlModel {
        match self {
            ControlMessage::CameraOn => ControlModel::CameraOn,
            ControlMessage::CameraOff => ControlModel::CameraOff,
            ControlMessage::AudioOn => ControlModel::AudioOn,
            ControlMessage::AudioOff => ControlModel::AudioOff,
            ControlMessage::AudioMuted => ControlModel::AudioMuted,
            ControlMessage::AudioUnmuted => ControlModel::AudioUnmuted,
            ControlMessage::ParticipantDisconnected => ControlModel::ParticipantDisconnected,
            ControlMessage::OwnerDisconnected => ControlModel::OwnerDisconnected,
            ControlMessage::ParticipantName(n) => ControlModel::ParticipantName(n@),
        }
    }
}

/// The bytes a control message is sent as.
pub open spec fn control_bytes(m: ControlModel, c: ControlCodes) -> Seq<u8> {
    match m {
        ControlModel::CameraOn => seq![c.camera_on],
        ControlModel::CameraOff => seq![c.camera_off],
        ControlModel::AudioOn => seq![c.audio_on],
        ControlModel::AudioOff => seq![c.audio_off],
        ControlModel::AudioMuted => seq![c.audio_muted],
        ControlModel::AudioUnmuted => seq![c.audio_unmuted],
        ControlModel::ParticipantDisconnected => seq![c.participant_disconnected],
        ControlModel::OwnerDisconnected => seq![c.owner_disconnected],
        ControlModel::ParticipantName(n) => seq![c.participant_name] + encode_utf8(n),
    }
}

/// What bytes decode to: the message whose type byte comes first (tried in
/// the order of the variants); a name needs a non-empty UTF-8 text.
pub open spec fn control_parse(d: Seq<u8>, c: ControlCodes) -> Option<ControlModel> {
    if d.len() == 0 {
        None
    } else if d[0] == c.camera_on {
        Some(ControlModel::CameraOn)
    } else if d[0] == c.camera_off {
        Some(ControlModel::CameraOff)
    } else if d[0] == c.audio_on {
        Some(ControlModel::AudioOn)
    } else if d[0] == c.audio_off {
        Some(ControlModel::AudioOff)
    } else if d[0] == c.audio_muted {
        Some(ControlModel::AudioMuted)
    } else if d[0] == c.audio_unmuted {
        Some(ControlModel::AudioUnmuted)
    } else if d[0] == c.participant_disconnected {
        Some(ControlModel::ParticipantDisconnected)
    } else if d[0] == c.owner_disconnected {
        Some(ControlModel::OwnerDisconnected)
    } else if d[0] == c.participant_name {
        if d.len() > 1 && valid_utf8(d.skip(1)) {
            Some(ControlModel::ParticipantName(decode_utf8(d.skip(1))))
        } else {
            None
        }
    } else {
        None
    }
}

impl ControlMessage {
    /// Serialize control message to bytes
    /// Format: `[type_byte] [payload_bytes...]`
    pub fn to_bytes(&self, codes: &ControlCodes) -> (r: Vec<u8>)
        ensures
            r@ == control_bytes(self@, *codes),
    {
        let mut r: Vec<u8> = Vec::new();
        match self {
            ControlMessage::CameraOn => r.push(codes.camera_on),
            ControlMessage::CameraOff => r.push(codes.camera_off),
            ControlMessage::AudioOn => r.push(codes.audio_on),
            ControlMessage::AudioOff => r.push(codes.audio_off),
            ControlMessage::AudioMuted => r.push(codes.audio_muted),
            ControlMessage::AudioUnmuted => r.push(codes.audio_unmuted),
            ControlMessage::ParticipantDisconnected => r.push(codes.participant_disconnected),
            ControlMessage::OwnerDisconnected => r.push(codes.owner_disconnected),
            ControlMessage::ParticipantName(name) => {
                r.push(codes.participant_name);
                push_all(&mut r, name.as_str().as_bytes());
            },
        }
        assert(r@ =~= control_bytes(self@, *codes));
        r
    }

    /// Deserialize control message from bytes
    pub fn from_bytes(data: &[u8], codes: &ControlCodes) -> (r: Option<Self>)
        ensures
            match r {
                Some(m) => control_parse(data@, *codes) == Some(m@),
                None => control_parse(data@, *codes) is None,
            },
    {
        if data.len() == 0 {
            return None;
        }
        let kind = data[0];
        if kind == codes.camera_on {
            Some(ControlMessage::CameraOn)
        } else if kind == codes.camera_off {
            Some(ControlMessage::CameraOff)
        } else if kind == codes.audio_on {
            Some(ControlMessage::AudioOn)
        } else if kind == codes.audio_off {
            Some(ControlMessage::AudioOff)
        } else if kind == codes.audio_muted {
            Some(ControlMessage::AudioMuted)
        } else if kind == codes.audio_unmuted {
            Some(ControlMessage::AudioUnmuted)
        } else if kind == codes.participant_disconnected {
            Some(ControlMessage::ParticipantDisconnected)
        } else if kind == codes.owner_disconnected {
            Some(ControlMessage::OwnerDisconnected)
        } else if kind == codes.participant_name {
            if data.len() > 1 {
                let text = crate::bytes::copy_range(data, 1, data.len());
                assert(text@ =~= data@.skip(1));
                match string_from_utf8(text) {
                    Some(s) => Some(ControlMessage::ParticipantName(s)),
                    None => None,
                }
            } else {
                None
            }
        } else {
            None
        }
    }
}

/// With distinct type bytes, every message decodes from its bytes to
/// itself, names included when they are not empty.
pub proof fn lemma_control_roundtrip(m: ControlModel, c: ControlCodes)
    requires
        codes_distinct(c),
        m matches ControlModel::ParticipantName(n) ==> n.len() > 0,
    ensures
        control_parse(control_bytes(m, c), c) == Some(m),
{
    let s = seq![
        c.camera_on,
        c.camera_off,
        c.audio_on,
        c.audio_off,
        c.audio_muted,
        c.audio_unmuted,
        c.participant_disconnected,
        c.owner_disconnected,
        c.participant_name,
    ];
    assert(s[0] == c.camera_on && s[1] == c.camera_off && s[2] == c.audio_on && s[3] == c.audio_off
        && s[4] == c.audio_muted && s[5] == c.audio_unmuted && s[6] == c.participant_disconnected
        && s[7] == c.owner_disconnected && s[8] == c.participant_name);
    match m {
        ControlModel::ParticipantName(n) => {
            let d = control_bytes(m, c);
            assert(d.skip(1) =~= encode_utf8(n));
            encode_utf8_valid_utf8(n);
            encode_utf8_decode_utf8(n);
            assert(encode_utf8(n).len() > 0);
        },
        _ => {},
    }
}


/// Each message is sent as the type byte of its own kind, a name followed
/// by its UTF-8 text.
pub proof fn lemma_control_type_byte(c: ControlCodes, name: Seq<char>)
    ensures
        control_bytes(ControlModel::CameraOn, c) == seq![c.camera_on],
        control_bytes(ControlModel::CameraOff, c) == seq![c.camera_off],
        control_bytes(ControlModel::AudioOn, c) == seq![c.audio_on],
        control_bytes(ControlModel::AudioOff, c) == seq![c.audio_off],
        control_bytes(ControlModel::AudioMuted, c) == seq![c.audio_muted],
        control_bytes(ControlModel::AudioUnmuted, c) == seq![c.audio_unmuted],
        control_bytes(ControlModel::ParticipantDisconnected, c) == seq![c.participant_disconnected],
        control_bytes(ControlModel::OwnerDisconnected, c) == seq![c.owner_disconnected],
        control_bytes(ControlModel::ParticipantName(name), c)[0] == c.participant_name,
        control_bytes(ControlModel::ParticipantName(name), c).skip(1) == encode_utf8(name),
{
    assert(control_bytes(ControlModel::ParticipantName(name), c).skip(1) =~= encode_utf8(name));
}

/// With distinct type bytes, a type byte alone reads as the message of its
/// own kind, and the name type byte followed by a name's UTF-8 text reads
/// as that name.
pub proof fn lemma_control_reads_type_byte(c: ControlCodes, name: Seq<char>)
    requires
        codes_distinct(c),
    ensures
        control_parse(seq![c.camera_on], c) == Some(ControlModel::CameraOn),
        control_parse(seq![c.camera_off], c) == Some(ControlModel::CameraOff),
        control_parse(seq![c.audio_on], c) == Some(ControlModel::AudioOn),
        control_parse(seq![c.audio_off], c) == Some(ControlModel::AudioOff),
        control_parse(seq![c.audio_muted], c) == Some(ControlModel::AudioMuted),
        control_parse(seq![c.audio_unmuted], c) == Some(ControlModel::AudioUnmuted),
        control_parse(seq![c.participant_disconnected], c) == Some(
            ControlModel::ParticipantDisconnected,
        ),
        control_parse(seq![c.owner_disconnected], c) == Some(ControlModel::OwnerDisconnected),
        name.len() > 0 ==> control_parse(seq![c.participant_name] + encode_utf8(name), c) == Some(
            ControlModel::ParticipantName(name),
        ),
        control_parse(seq![c.participant_name], c) is None,
{
    let s = seq![
        c.camera_on,
        c.camera_off,
        c.audio_on,
        c.audio_off,
        c.audio_muted,
        c.audio_unmuted,
        c.participant_disconnected,
        c.owner_disconnected,
        c.participant_name,
    ];
    assert(s[0] == c.camera_on && s[1] == c.camera_off && s[2] == c.audio_on && s[3] == c.audio_off
        && s[4] == c.audio_muted && s[5] == c.audio_unmuted && s[6] == c.participant_disconnected
        && s[7] == c.owner_disconnected && s[8] == c.participant_name);
    if name.len() > 0 {
        let d = seq![c.participant_name] + encode_utf8(name);
        assert(d.skip(1) =~= encode_utf8(name));
        encode_utf8_valid_utf8(name);
        encode_utf8_decode_utf8(name);
        assert(encode_utf8(name).len() > 0);
    }
}

} // verus!
