//! The session description a connection offers or answers with: its
//! origin, its ICE credentials and candidates, and one data-channel media
//! description.
use crate::clock::unix_time_secs_or_one;
use crate::sdp::attribute::{attribute_line, Attribute};
use crate::sdp::errors::SdpError;
use crate::sdp::media_description::{attribute_lines_crlf, media_line, MediaDescription};
use crate::sdp::model::{media_check, origin_check, session_check, SdpErrorModel};
use crate::sdp::origin::{origin_line, Origin};
use crate::sdp::sdp_type::SdpType;
use crate::sdp::session_description::{media_texts, session_text, signed_decimal, SessionDescription};
use crate::sdp::text::crlf;
use crate::sdp::session_description_builder::is_attribute;
use crate::sdp::timing::{timing_line, Timing};
use crate::text::{decimal, string_from_str};
use vstd::prelude::*;
use vstd::string::*;

verus! {

/// The origin line of a description offered from `local_ip`: anonymous
/// user, session `session_id`, version 1, Internet, IPv4.
pub open spec fn offer_origin_line(local_ip: Seq<char>, session_id: u64) -> Seq<char> {
    "o=- "@ + decimal(session_id as nat) + " 1 IN IP4 "@ + local_ip + "\r\n"@
}

/// The origin of a description offered from `local_ip` with session
/// `session_id`: user "-", version 1, "IN", "IP4".
pub fn origin_for(local_ip: &str, session_id: u64) -> (o: Origin)
    ensures
        o.username@ == "-"@,
        o.session_id == session_id,
        o.session_version == 1,
        o.network_type@ == "IN"@,
        o.address_type@ == "IP4"@,
        o.unicast_address@ == local_ip@,
{
    Origin {
        username: string_from_str("-"),
        session_id,
        session_version: 1,
        network_type: string_from_str("IN"),
        address_type: string_from_str("IP4"),
        unicast_address: string_from_str(local_ip),
    }
}

/// The address a description is offered from: that of the first local
/// ICE candidate, or `detected_ip` when there is none.
pub open spec fn offer_address(candidate_ip: Option<Seq<char>>, detected_ip: Seq<char>) -> Seq<char> {
    match candidate_ip {
        Some(ip) => ip,
        None => detected_ip,
    }
}

/// The text of an optional string.
pub open spec fn opt_text(s: Option<&str>) -> Option<Seq<char>> {
    match s {
        Some(x) => Some(x@),
        None => None,
    }
}

/// The origin of a description offered from the first local candidate's
/// address (`detected_ip` when there is no candidate), its session numbered
/// by the seconds since the Unix epoch on the local clock (one when the
/// clock reads a time before the epoch): user "-", version 1, "IN", "IP4".
/// Nothing is stated of the session number, which comes from the clock.
pub fn make_origin(candidate_ip: Option<&str>, detected_ip: &str) -> (o: Origin)
    ensures
        o.username@ == "-"@,
        o.session_version == 1,
        o.network_type@ == "IN"@,
        o.address_type@ == "IP4"@,
        o.unicast_address@ == offer_address(opt_text(candidate_ip), detected_ip@),
{
    let now = unix_time_secs_or_one();
    let local_ip = match candidate_ip {
        Some(ip) => ip,
        None => detected_ip,
    };
    origin_for(local_ip, now)
}

/// The attribute lines of ICE candidates: `a=candidate:<candidate>` each,
/// ended by CR LF.
pub open spec fn candidate_lines(c: Seq<Seq<char>>) -> Seq<char>
    decreases c.len(),
{
    if c.len() == 0 {
        Seq::empty()
    } else {
        candidate_lines(c.drop_last()) + "a=candidate:"@ + c.last() + "\r\n"@
    }
}

/// The text of the description offered from `local_ip` with session
/// `session_id`, ICE credentials `ufrag` and `pwd` and ICE `candidates`:
/// version 0, the origin, the name "Rust WebRTC", a permanent timing, the
/// credentials and candidates as attributes, then the data-channel media
/// description `m=application 9 DTLS/SCTP webrtc-datachannel`; every line
/// is ended by CR LF.
pub open spec fn offer_text(
    local_ip: Seq<char>,
    session_id: u64,
    ufrag: Seq<char>,
    pwd: Seq<char>,
    candidates: Seq<Seq<char>>,
) -> Seq<char> {
    "v=0\r\n"@ + offer_origin_line(local_ip, session_id) + "s=Rust WebRTC\r\n"@ + "t=0 0\r\n"@
        + "a=ice-ufrag:"@ + ufrag + "\r\n"@ + "a=ice-pwd:"@ + pwd + "\r\n"@ + candidate_lines(
        candidates,
    ) + "m=application 9 DTLS/SCTP webrtc-datachannel\r\n"@
}

/// The texts of strings.
pub open spec fn string_texts(v: Seq<String>) -> Seq<Seq<char>> {
    v.map_values(|s: String| s@)
}

/// An attribute line with a value, ended by CR LF.
proof fn lemma_attribute_crlf(name: Seq<char>, value: Seq<char>, text: Seq<char>)
    requires
        text == "a="@ + name + ":"@,
    ensures
        crlf(attribute_line(name, Some(value))) == text + value + "\r\n"@,
{
    reveal_strlit("\n");
    assert((text + value + "\n"@).drop_last() =~= text + value);
    assert(attribute_line(name, Some(value)) =~= text + value + "\n"@);
}

/// Attributes that are the ICE credentials followed by one candidate each
/// are written as those lines.
proof fn lemma_ice_attribute_lines(
    v: Seq<Attribute>,
    ufrag: Seq<char>,
    pwd: Seq<char>,
    cands: Seq<Seq<char>>,
)
    requires
        v.len() == 2 + cands.len(),
        is_attribute(v[0], "ice-ufrag"@, ufrag),
        is_attribute(v[1], "ice-pwd"@, pwd),
        forall|i: int| 0 <= i < cands.len() ==> is_attribute(#[trigger] v[2 + i], "candidate"@, cands[i]),
    ensures
        attribute_lines_crlf(v) == "a=ice-ufrag:"@ + ufrag + "\r\n"@ + "a=ice-pwd:"@ + pwd + "\r\n"@
            + candidate_lines(cands),
    decreases cands.len(),
{
    reveal_strlit("a=");
    reveal_strlit(":");
    reveal_strlit("ice-ufrag");
    reveal_strlit("ice-pwd");
    reveal_strlit("candidate");
    reveal_strlit("a=ice-ufrag:");
    reveal_strlit("a=ice-pwd:");
    reveal_strlit("a=candidate:");
    let front = v.drop_last();
    if cands.len() == 0 {
        assert(front.drop_last() =~= Seq::<Attribute>::empty());
        assert(front.last() == v[0]);
        assert(attribute_lines_crlf(front.drop_last()) == Seq::<char>::empty());
        assert("a=ice-ufrag:"@ =~= "a="@ + "ice-ufrag"@ + ":"@);
        assert("a=ice-pwd:"@ =~= "a="@ + "ice-pwd"@ + ":"@);
        lemma_attribute_crlf("ice-ufrag"@, ufrag, "a=ice-ufrag:"@);
        lemma_attribute_crlf("ice-pwd"@, pwd, "a=ice-pwd:"@);
        assert(attribute_lines_crlf(front) =~= "a=ice-ufrag:"@ + ufrag + "\r\n"@);
        assert(attribute_lines_crlf(v) =~= "a=ice-ufrag:"@ + ufrag + "\r\n"@ + "a=ice-pwd:"@ + pwd
            + "\r\n"@ + candidate_lines(cands));
    } else {
        let cf = cands.drop_last();
        assert forall|i: int| 0 <= i < cf.len() implies is_attribute(#[trigger] front[2 + i], "candidate"@, cf[i]) by {
            assert(front[2 + i] == v[2 + i]);
            assert(is_attribute(v[2 + i], "candidate"@, cands[i]));
        }
        assert(front[0] == v[0] && front[1] == v[1]);
        lemma_ice_attribute_lines(front, ufrag, pwd, cf);
        assert(is_attribute(v[2 + (cands.len() - 1)], "candidate"@, cands[cands.len() - 1]));
        assert(v.last() == v[2 + (cands.len() - 1)]);
        assert("a=candidate:"@ =~= "a="@ + "candidate"@ + ":"@);
        lemma_attribute_crlf("candidate"@, cands.last(), "a=candidate:"@);
        assert(attribute_lines_crlf(v) =~= "a=ice-ufrag:"@ + ufrag + "\r\n"@ + "a=ice-pwd:"@ + pwd
            + "\r\n"@ + candidate_lines(cands));
    }
}

/// The `m=` line of the data-channel media description.
proof fn lemma_data_channel_text(m: MediaDescription)
    requires
        m.media_type@ == "application"@,
        m.port == 9,
        m.protocol@ == "DTLS/SCTP"@,
        m.formats@.len() == 1,
        m.formats@[0]@ == "webrtc-datachannel"@,
        m.connection is None,
        m.attributes@.len() == 0,
    ensures
        media_line(m) == "m=application 9 DTLS/SCTP webrtc-datachannel\r\n"@,
{
    reveal_strlit("m=application 9 DTLS/SCTP webrtc-datachannel\r\n");
    reveal_strlit("m=");
    reveal_strlit("application");
    reveal_strlit(" ");
    reveal_strlit("DTLS/SCTP");
    reveal_strlit("webrtc-datachannel");
    reveal_strlit("\r\n");
    assert(decimal(9) =~= seq!['9']);
    assert(crate::sdp::media_description::texts(m.formats@) =~= seq!["webrtc-datachannel"@]);
    assert(crate::sdp::text::joined_with(seq!["webrtc-datachannel"@], " "@) == "webrtc-datachannel"@);
    assert(media_line(m) =~= "m=application 9 DTLS/SCTP webrtc-datachannel\r\n"@);
}


/// A description built as an offer is written as `offer_text`.
proof fn lemma_offer_text(
    sd: SessionDescription,
    local_ip: Seq<char>,
    session_id: u64,
    ufrag: Seq<char>,
    pwd: Seq<char>,
    cands: Seq<Seq<char>>,
)
    requires
        sd.version == 0,
        sd.origin.username@ == "-"@,
        sd.origin.session_id == session_id,
        sd.origin.session_version == 1,
        sd.origin.network_type@ == "IN"@,
        sd.origin.address_type@ == "IP4"@,
        sd.origin.unicast_address@ == local_ip,
        sd.session_name@ == "Rust WebRTC"@,
        sd.timing.start_time == 0,
        sd.timing.stop_time == 0,
        sd.connection is None,
        sd.media@.len() == 1,
        media_line(sd.media@[0]) == "m=application 9 DTLS/SCTP webrtc-datachannel\r\n"@,
        sd.media@[0].connection is None,
        sd.media@[0].attributes@.len() == 0,
        sd.attributes@.len() == 2 + cands.len(),
        is_attribute(sd.attributes@[0], "ice-ufrag"@, ufrag),
        is_attribute(sd.attributes@[1], "ice-pwd"@, pwd),
        forall|i: int|
            0 <= i < cands.len() ==> is_attribute(#[trigger] sd.attributes@[2 + i], "candidate"@, cands[i]),
    ensures
        session_text(sd) == offer_text(local_ip, session_id, ufrag, pwd, cands),
{
    reveal_strlit("v=0\r\n");
    reveal_strlit("v=");
    reveal_strlit("\n");
    reveal_strlit("\r\n");
    reveal_strlit("o=- ");
    reveal_strlit("o=");
    reveal_strlit("-");
    reveal_strlit(" ");
    reveal_strlit(" 1 IN IP4 ");
    reveal_strlit("IN");
    reveal_strlit("IP4");
    reveal_strlit("s=Rust WebRTC\r\n");
    reveal_strlit("s=");
    reveal_strlit("Rust WebRTC");
    reveal_strlit("t=0 0\r\n");
    reveal_strlit("t=0 0");
    reveal_strlit("t=");
    assert(decimal(0) =~= seq!['0']);
    assert(decimal(1) =~= seq!['1']);
    assert(signed_decimal(0) == decimal(0));
    assert(origin_line(sd.origin).drop_last() =~= "o=- "@ + decimal(session_id as nat)
        + " 1 IN IP4 "@ + local_ip);
    assert(crlf(origin_line(sd.origin)) =~= offer_origin_line(local_ip, session_id));
    assert(timing_line(sd.timing).drop_last() =~= "t=0 0"@);
    assert(crlf(timing_line(sd.timing)) =~= "t=0 0\r\n"@);
    lemma_ice_attribute_lines(sd.attributes@, ufrag, pwd, cands);
    let ms = sd.media@;
    assert(ms.drop_last() =~= Seq::<MediaDescription>::empty());
    assert(media_texts(ms.drop_last()) == Seq::<char>::empty());
    assert(attribute_lines_crlf(ms[0].attributes@) == Seq::<char>::empty());
    assert(media_texts(ms) =~= media_line(ms[0]));
    assert(session_text(sd) =~= offer_text(local_ip, session_id, ufrag, pwd, cands));
}

/// The data-channel media description: `application`, port 9, protocol
/// `DTLS/SCTP`, format `webrtc-datachannel`.
fn data_channel_media() -> (m: MediaDescription)
    ensures
        m.media_type@ == "application"@,
        m.port == 9,
        m.protocol@ == "DTLS/SCTP"@,
        m.formats@.len() == 1,
        m.formats@[0]@ == "webrtc-datachannel"@,
        m.connection is None,
        m.attributes@.len() == 0,
{
    let mut formats: Vec<String> = Vec::new();
    formats.push(string_from_str("webrtc-datachannel"));
    MediaDescription {
        media_type: string_from_str("application"),
        port: 9,
        protocol: string_from_str("DTLS/SCTP"),
        formats,
        connection: None,
        attributes: Vec::new(),
    }
}

/// Builds the description of type `sdp_type` offered from `local_ip` with
/// session `session_id`, ICE credentials `ufrag` and `pwd` and ICE
/// `candidates`, validates it and writes it (see `offer_text`). It fails,
/// with `InvalidSessionId`, exactly when `session_id` is 0.
pub fn build_sdp_with(
    sdp_type: SdpType,
    local_ip: &str,
    session_id: u64,
    ufrag: &str,
    pwd: &str,
    candidates: &[String],
) -> (r: Result<String, SdpError>)
    ensures
        match r {
            Ok(t) => session_id != 0 && t@ == offer_text(
                local_ip@,
                session_id,
                ufrag@,
                pwd@,
                string_texts(candidates@),
            ),
            Err(e) => session_id == 0 && e@ == SdpErrorModel::InvalidSessionId,
        },
{
    let media = data_channel_media();
    proof {
        lemma_data_channel_text(media);
    }
    let origin = origin_for(local_ip, session_id);
    let builder = SessionDescription::builder(sdp_type).origin(origin).session_name(
        "Rust WebRTC",
    ).timing(Timing::default()).add_media(media).ice_credentials(ufrag, pwd).ice_candidates(
        candidates,
    );
    let ghost s = builder.session();
    proof {
        reveal_strlit("IN");
        reveal_strlit("IP4");
        reveal_strlit("Rust WebRTC");
        reveal_strlit("application");
        assert(s.media@ =~= seq![media]);
        assert(media_check(s@.media[0]) is Ok);
        assert(s@.origin.network_type == "IN"@);
        assert(s@.origin.address_type == "IP4"@);
        assert(s@.session_name.len() > 0);
        assert(session_id != 0 ==> origin_check(s@.origin) is Ok);
        if session_id != 0 {
            assert(crate::sdp::model::first_bad_media(s@.media) is None);
            assert(session_check(s@) is Ok);
        } else {
            assert(session_check(s@) == Err::<(), SdpErrorModel>(SdpErrorModel::InvalidSessionId));
        }
    }
    match builder.build() {
        Ok(sd) => {
            let text = sd.to_string();
            proof {
                lemma_offer_text(sd, local_ip@, session_id, ufrag@, pwd@, string_texts(candidates@));
            }
            Ok(text)
        },
        Err(e) => Err(e),
    }
}


/// Builds and writes the description of type `sdp_type` for the local ICE
/// agent's credentials `ufrag` and `pwd` and `candidates`, offered from the
/// first candidate's address (`detected_ip` when there is none), its
/// session numbered by the local clock as `make_origin` numbers it. It
/// fails, with `InvalidSessionId`, only when the clock gives session 0;
/// which number the clock gives is not stated.
pub fn build_sdp(
    sdp_type: SdpType,
    ufrag: &str,
    pwd: &str,
    candidates: &[String],
    candidate_ip: Option<&str>,
    detected_ip: &str,
) -> (r: Result<String, SdpError>)
    ensures
        match r {
            Ok(t) => exists|session_id: u64|
                session_id != 0 && t@ == #[trigger] offer_text(
                    offer_address(opt_text(candidate_ip), detected_ip@),
                    session_id,
                    ufrag@,
                    pwd@,
                    string_texts(candidates@),
                ),
            Err(e) => e@ == SdpErrorModel::InvalidSessionId,
        },
{
    let now = unix_time_secs_or_one();
    let local_ip = match candidate_ip {
        Some(ip) => ip,
        None => detected_ip,
    };
    assert(local_ip@ == offer_address(opt_text(candidate_ip), detected_ip@));
    let r = build_sdp_with(sdp_type, local_ip, now, ufrag, pwd, candidates);
    if let Ok(t) = &r {
        assert(t@ == offer_text(local_ip@, now, ufrag@, pwd@, string_texts(candidates@)));
    }
    r
}

/// The offer for the local ICE agent (see `build_sdp`).
pub fn create_offer(
    ufrag: &str,
    pwd: &str,
    candidates: &[String],
    candidate_ip: Option<&str>,
    detected_ip: &str,
) -> (r: Result<String, SdpError>)
    ensures
        match r {
            Ok(t) => exists|session_id: u64|
                session_id != 0 && t@ == #[trigger] offer_text(
                    offer_address(opt_text(candidate_ip), detected_ip@),
                    session_id,
                    ufrag@,
                    pwd@,
                    string_texts(candidates@),
                ),
            Err(e) => e@ == SdpErrorModel::InvalidSessionId,
        },
{
    build_sdp(SdpType::Offer, ufrag, pwd, candidates, candidate_ip, detected_ip)
}

/// The answer for the local ICE agent (see `build_sdp`).
pub fn create_answer(
    ufrag: &str,
    pwd: &str,
    candidates: &[String],
    candidate_ip: Option<&str>,
    detected_ip: &str,
) -> (r: Result<String, SdpError>)
    ensures
        match r {
            Ok(t) => exists|session_id: u64|
                session_id != 0 && t@ == #[trigger] offer_text(
                    offer_address(opt_text(candidate_ip), detected_ip@),
                    session_id,
                    ufrag@,
                    pwd@,
                    string_texts(candidates@),
                ),
            Err(e) => e@ == SdpErrorModel::InvalidSessionId,
        },
{
    build_sdp(SdpType::Answer, ufrag, pwd, candidates, candidate_ip, detected_ip)
}

} // verus!
