//! The mathematical model of session descriptions: each SDP type seen with
//! its strings as character sequences, and what parsing and validating a
//! field gives on that model.
use crate::address::IpAddress;
use crate::sdp::attribute::{first_colon, Attribute};
use crate::sdp::connection::Connection;
use crate::sdp::errors::SdpError;
use crate::sdp::media_description::{valid_media_type, MediaDescription};
use crate::sdp::origin::Origin;
use crate::sdp::sdp_type::SdpType;
use crate::sdp::session_description::SessionDescription;
use crate::sdp::text::{lines_of, parse_unsigned_spec, pieces, words};
use crate::sdp::timing::Timing;
use vstd::prelude::*;

verus! {

/// An SDP error with its text as characters.
pub enum SdpErrorModel {
    InvalidLineFormat,
    EmptyTypeChar,
    InvalidVersion,
    InvalidVersionNumber,
    EmptySessionName,
    NoMediaSections,
    InvalidMediaType(Seq<char>),
    NoMediaFormats,
    InvalidNetworkType,
    InvalidAddressType,
    InvalidSessionId,
    InvalidTiming,
    InvalidIpAddress,
    InvalidTtl,
    InvalidAddressCount,
    InvalidOriginFormat,
    InvalidTimingFormat,
    InvalidMediaFormat,
    InvalidPort,
    InvalidAttributeFormat,
}

impl View for SdpError {
    type V = SdpErrorModel;

    open spec fn view(&self) -> SdpErrorModel {
        match self {
            SdpError::InvalidLineFormat => SdpErrorModel::InvalidLineFormat,
            SdpError::EmptyTypeChar => SdpErrorModel::EmptyTypeChar,
            SdpError::InvalidVersion => SdpErrorModel::InvalidVersion,
            SdpError::InvalidVersionNumber => SdpErrorModel::InvalidVersionNumber,
            SdpError::EmptySessionName => SdpErrorModel::EmptySessionName,
            SdpError::NoMediaSections => SdpErrorModel::NoMediaSections,
            SdpError::InvalidMediaType(t) => SdpErrorModel::InvalidMediaType(t@),
            SdpError::NoMediaFormats => SdpErrorModel::NoMediaFormats,
            SdpError::InvalidNetworkType => SdpErrorModel::InvalidNetworkType,
            SdpError::InvalidAddressType => SdpErrorModel::InvalidAddressType,
            SdpError::InvalidSessionId => SdpErrorModel::InvalidSessionId,
            SdpError::InvalidTiming => SdpErrorModel::InvalidTiming,
            SdpError::InvalidIpAddress => SdpErrorModel::InvalidIpAddress,
            SdpError::InvalidTtl => SdpErrorModel::InvalidTtl,
            SdpError::InvalidAddressCount => SdpErrorModel::InvalidAddressCount,
            SdpError::InvalidOriginFormat => SdpErrorModel::InvalidOriginFormat,
            SdpError::InvalidTimingFormat => SdpErrorModel::InvalidTimingFormat,
            SdpError::InvalidMediaFormat => SdpErrorModel::InvalidMediaFormat,
            SdpError::InvalidPort => SdpErrorModel::InvalidPort,
            SdpError::InvalidAttributeFormat => SdpErrorModel::InvalidAttributeFormat,
        }
    }
}

/// Whether an outcome matches a modelled outcome: the same success value
/// seen through `view_ok`, or an error whose model is the modelled one.
pub open spec fn outcome_is<T, M>(r: Result<T, SdpError>, m: Result<M, SdpErrorModel>, view_ok: spec_fn(T) -> M) -> bool {
    match m {
        Ok(v) => r matches Ok(x) && view_ok(x) == v,
        Err(e) => r matches Err(x) && x@ == e,
    }
}

/// An attribute: its name and optional value.
pub type AttributeModel = (Seq<char>, Option<Seq<char>>);

impl View for Attribute {
    type V = AttributeModel;

    open spec fn view(&self) -> AttributeModel {
        (
            self.name@,
            match self.value {
                Some(v) => Some(v@),
                None => None,
            },
        )
    }
}

/// The attribute an attribute value (after `a=`) reads as: the name up to
/// the first `:`, the value after it.
pub open spec fn attribute_from(value: Seq<char>) -> AttributeModel {
    match first_colon(value) {
        Some(i) => (value.take(i), Some(value.skip(i + 1))),
        None => (value, None),
    }
}

/// An origin with its strings as characters.
pub struct OriginModel {
    pub username: Seq<char>,
    pub session_id: u64,
    pub session_version: u64,
    pub network_type: Seq<char>,
    pub address_type: Seq<char>,
    pub unicast_address: Seq<char>,
}

impl View for Origin {
    type V = OriginModel;

    open spec fn view(&self) -> OriginModel {
        OriginModel {
            username: self.username@,
            session_id: self.session_id,
            session_version: self.session_version,
            network_type: self.network_type@,
            address_type: self.address_type@,
            unicast_address: self.unicast_address@,
        }
    }
}

/// What an origin value (after `o=`) reads as: six words, the second and
/// third unsigned 64-bit numbers.
pub open spec fn origin_from(value: Seq<char>) -> Result<OriginModel, SdpErrorModel> {
    let w = words(value);
    if w.len() != 6 {
        Err(SdpErrorModel::InvalidOriginFormat)
    } else if parse_unsigned_spec(w[1], u64::MAX as nat) is None || parse_unsigned_spec(
        w[2],
        u64::MAX as nat,
    ) is None {
        Err(SdpErrorModel::InvalidSessionId)
    } else {
        Ok(
            OriginModel {
                username: w[0],
                session_id: parse_unsigned_spec(w[1], u64::MAX as nat).unwrap() as u64,
                session_version: parse_unsigned_spec(w[2], u64::MAX as nat).unwrap() as u64,
                network_type: w[3],
                address_type: w[4],
                unicast_address: w[5],
            },
        )
    }
}

/// What validating an origin gives: `InvalidNetworkType` unless the
/// network type is "IN", then `InvalidAddressType` unless the address type
/// is "IP4" or "IP6", then `InvalidSessionId` for a zero session id.
pub open spec fn origin_check(o: OriginModel) -> Result<(), SdpErrorModel> {
    if o.network_type != "IN"@ {
        Err(SdpErrorModel::InvalidNetworkType)
    } else if o.address_type != "IP4"@ && o.address_type != "IP6"@ {
        Err(SdpErrorModel::InvalidAddressType)
    } else if o.session_id == 0 {
        Err(SdpErrorModel::InvalidSessionId)
    } else {
        Ok(())
    }
}

/// What a timing value (after `t=`) reads as: two unsigned 64-bit numbers.
pub open spec fn timing_from(value: Seq<char>) -> Result<Timing, SdpErrorModel> {
    let w = words(value);
    if w.len() == 2 && parse_unsigned_spec(w[0], u64::MAX as nat) is Some && parse_unsigned_spec(
        w[1],
        u64::MAX as nat,
    ) is Some {
        Ok(
            Timing {
                start_time: parse_unsigned_spec(w[0], u64::MAX as nat).unwrap() as u64,
                stop_time: parse_unsigned_spec(w[1], u64::MAX as nat).unwrap() as u64,
            },
        )
    } else {
        Err(SdpErrorModel::InvalidTimingFormat)
    }
}

/// What validating a timing gives: `InvalidTiming` when it stops before it
/// starts.
pub open spec fn timing_check(t: Timing) -> Result<(), SdpErrorModel> {
    if t.stop_time < t.start_time {
        Err(SdpErrorModel::InvalidTiming)
    } else {
        Ok(())
    }
}

/// Connection data with its strings as characters.
pub struct ConnectionModel {
    pub network_type: Seq<char>,
    pub address_type: Seq<char>,
    pub address: IpAddress,
    pub ttl: Option<u8>,
    pub num_addresses: Option<u8>,
}

impl View for Connection {
    type V = ConnectionModel;

    open spec fn view(&self) -> ConnectionModel {
        ConnectionModel {
            network_type: self.network_type@,
            address_type: self.address_type@,
            address: self.address,
            ttl: self.ttl,
            num_addresses: self.num_addresses,
        }
    }
}

/// What a connection value (after `c=`) reads as, where `address` is what
/// its address text parses to: at least three words, network type "IN",
/// address type "IP4" or "IP6", an IP address, then an optional TTL and
/// address count after slashes.
pub open spec fn connection_from(value: Seq<char>, address: Option<IpAddress>) -> Result<
    ConnectionModel,
    SdpErrorModel,
> {
    let w = words(value);
    if w.len() < 3 {
        Err(SdpErrorModel::InvalidOriginFormat)
    } else if w[0] != "IN"@ {
        Err(SdpErrorModel::InvalidNetworkType)
    } else if w[1] != "IP4"@ && w[1] != "IP6"@ {
        Err(SdpErrorModel::InvalidAddressType)
    } else if address is None {
        Err(SdpErrorModel::InvalidIpAddress)
    } else {
        let p = pieces(w[2], '/');
        if p.len() > 1 && parse_unsigned_spec(p[1], 255) is None {
            Err(SdpErrorModel::InvalidTtl)
        } else if p.len() > 2 && parse_unsigned_spec(p[2], 255) is None {
            Err(SdpErrorModel::InvalidAddressCount)
        } else {
            Ok(
                ConnectionModel {
                    network_type: w[0],
                    address_type: w[1],
                    address: address.unwrap(),
                    ttl: if p.len() > 1 {
                        Some(parse_unsigned_spec(p[1], 255).unwrap() as u8)
                    } else {
                        None
                    },
                    num_addresses: if p.len() > 2 {
                        Some(parse_unsigned_spec(p[2], 255).unwrap() as u8)
                    } else {
                        None
                    },
                },
            )
        }
    }
}

/// A media description with its strings as characters.
pub struct MediaModel {
    pub media_type: Seq<char>,
    pub port: u16,
    pub protocol: Seq<char>,
    pub formats: Seq<Seq<char>>,
    pub connection: Option<ConnectionModel>,
    pub attributes: Seq<AttributeModel>,
}

impl View for MediaDescription {
    type V = MediaModel;

    open spec fn view(&self) -> MediaModel {
        MediaModel {
            media_type: self.media_type@,
            port: self.port,
            protocol: self.protocol@,
            formats: self.formats@.map_values(|f: String| f@),
            connection: match self.connection {
                Some(c) => Some(c@),
                None => None,
            },
            attributes: self.attributes@.map_values(|a: Attribute| a@),
        }
    }
}

/// What a media value (after `m=`) reads as: at least four words, the
/// second a port number; the formats are the words from the fourth on.
pub open spec fn media_from(value: Seq<char>) -> Result<MediaModel, SdpErrorModel> {
    let w = words(value);
    if w.len() < 4 {
        Err(SdpErrorModel::InvalidMediaFormat)
    } else if parse_unsigned_spec(w[1], 65535) is None {
        Err(SdpErrorModel::InvalidPort)
    } else {
        Ok(
            MediaModel {
                media_type: w[0],
                port: parse_unsigned_spec(w[1], 65535).unwrap() as u16,
                protocol: w[2],
                formats: w.skip(3),
                connection: None,
                attributes: Seq::empty(),
            },
        )
    }
}

/// What validating a media description gives: `InvalidMediaType` with its
/// media type unless that is a valid one, then `NoMediaFormats` when it
/// lists no format.
pub open spec fn media_check(m: MediaModel) -> Result<(), SdpErrorModel> {
    if !valid_media_type(m.media_type) {
        Err(SdpErrorModel::InvalidMediaType(m.media_type))
    } else if m.formats.len() == 0 {
        Err(SdpErrorModel::NoMediaFormats)
    } else {
        Ok(())
    }
}

/// A session description with its strings as characters.
pub struct SessionModel {
    pub sdp_type: SdpType,
    pub version: i32,
    pub origin: OriginModel,
    pub session_name: Seq<char>,
    pub timing: Timing,
    pub media: Seq<MediaModel>,
    pub attributes: Seq<AttributeModel>,
    pub connection: Option<ConnectionModel>,
}

impl View for SessionDescription {
    type V = SessionModel;

    open spec fn view(&self) -> SessionModel {
        SessionModel {
            sdp_type: self.sdp_type,
            version: self.version,
            origin: self.origin@,
            session_name: self.session_name@,
            timing: self.timing,
            media: self.media@.map_values(|m: MediaDescription| m@),
            attributes: self.attributes@.map_values(|a: Attribute| a@),
            connection: match self.connection {
                Some(c) => Some(c@),
                None => None,
            },
        }
    }
}

/// The first media description, in order, that does not validate.
pub open spec fn first_bad_media(v: Seq<MediaModel>) -> Option<int> {
    if exists|i: int| 0 <= i < v.len() && media_check(v[i]) is Err {
        Some(
            choose|i: int|
                0 <= i < v.len() && media_check(v[i]) is Err && forall|j: int|
                    0 <= j < i ==> media_check(v[j]) is Ok,
        )
    } else {
        None
    }
}

/// What validating a session description gives: the version must be 0,
/// then the origin must validate, the session name must not be empty, the
/// timing must validate, there must be media, and each media description
/// must validate; the first check that fails gives the error.
pub open spec fn session_check(s: SessionModel) -> Result<(), SdpErrorModel> {
    if s.version != 0 {
        Err(SdpErrorModel::InvalidVersionNumber)
    } else if origin_check(s.origin) is Err {
        origin_check(s.origin)
    } else if s.session_name.len() == 0 {
        Err(SdpErrorModel::EmptySessionName)
    } else if timing_check(s.timing) is Err {
        timing_check(s.timing)
    } else if s.media.len() == 0 {
        Err(SdpErrorModel::NoMediaSections)
    } else {
        match first_bad_media(s.media) {
            Some(k) => media_check(s.media[k]),
            None => Ok(()),
        }
    }
}

/// The model of `SessionDescription::new(sdp_type)`.
pub open spec fn new_session_model(sdp_type: SdpType) -> SessionModel {
    SessionModel {
        sdp_type,
        version: 0,
        origin: OriginModel {
            username: "-"@,
            session_id: 0,
            session_version: 0,
            network_type: "IN"@,
            address_type: "IP4"@,
            unicast_address: "0.0.0.0"@,
        },
        session_name: "-"@,
        timing: Timing { start_time: 0, stop_time: 0 },
        media: Seq::empty(),
        attributes: Seq::empty(),
        connection: None,
    }
}

/// What a version value (after `v=`) reads as: a signed 32-bit decimal
/// number, as `str::parse::<i32>` reads it.
pub open spec fn version_from(value: Seq<char>) -> Option<i32> {
    if value.len() > 0 && value[0] == '-' {
        let d = value.skip(1);
        if d.len() > 0 && d[0] == '+' {
            None
        } else {
            match parse_unsigned_spec(d, 0x8000_0000) {
                Some(v) => Some((-(v as int)) as i32),
                None => None,
            }
        }
    } else {
        match parse_unsigned_spec(value, 0x7fff_ffff) {
            Some(v) => Some(v as i32),
            None => None,
        }
    }
}

/// The position of the first `=` in a line, if any.
pub open spec fn first_equals(line: Seq<char>) -> Option<int> {
    if exists|i: int| 0 <= i < line.len() && line[i] == '=' {
        Some(choose|i: int| 0 <= i < line.len() && line[i] == '=' && forall|j: int| 0 <= j < i ==> line[j] != '=')
    } else {
        None
    }
}

/// What splitting a line into its type character and value gives: the line
/// must hold a `=`, and what comes before the first one must be a single
/// ASCII character (`EmptyTypeChar` when nothing comes before it).
pub open spec fn split_line_spec(line: Seq<char>) -> Result<(char, Seq<char>), SdpErrorModel> {
    match first_equals(line) {
        None => Err(SdpErrorModel::InvalidLineFormat),
        Some(i) => if i == 0 {
            Err(SdpErrorModel::EmptyTypeChar)
        } else if i != 1 || (line[0] as u32) >= 0x80 {
            Err(SdpErrorModel::InvalidLineFormat)
        } else {
            Ok((line[0], line.skip(2)))
        },
    }
}

/// The state of a parse: the session so far, the media description being
/// read, and how many connection lines were read.
pub struct ParseModel {
    pub session: SessionModel,
    pub current: Option<MediaModel>,
    pub connections: nat,
}

/// What one typed line does to the parse state; `address` is what the
/// address text of a connection line parses to.
pub open spec fn line_step(
    st: ParseModel,
    kind: char,
    value: Seq<char>,
    address: Option<IpAddress>,
) -> Result<ParseModel, SdpErrorModel> {
    let s = st.session;
    if kind == 'v' {
        match version_from(value) {
            Some(v) => Ok(ParseModel { session: SessionModel { version: v, ..s }, ..st }),
            None => Err(SdpErrorModel::InvalidVersion),
        }
    } else if kind == 'o' {
        match origin_from(value) {
            Ok(o) => Ok(ParseModel { session: SessionModel { origin: o, ..s }, ..st }),
            Err(e) => Err(e),
        }
    } else if kind == 's' {
        Ok(ParseModel { session: SessionModel { session_name: value, ..s }, ..st })
    } else if kind == 't' {
        match timing_from(value) {
            Ok(t) => Ok(ParseModel { session: SessionModel { timing: t, ..s }, ..st }),
            Err(e) => Err(e),
        }
    } else if kind == 'c' {
        match connection_from(value, address) {
            Ok(c) => match st.current {
                Some(m) => Ok(
                    ParseModel {
                        current: Some(MediaModel { connection: Some(c), ..m }),
                        connections: st.connections + 1,
                        ..st
                    },
                ),
                None => Ok(
                    ParseModel {
                        session: SessionModel { connection: Some(c), ..s },
                        connections: st.connections + 1,
                        ..st
                    },
                ),
            },
            Err(e) => Err(e),
        }
    } else if kind == 'm' {
        match media_from(value) {
            Ok(m) => Ok(
                ParseModel {
                    session: match st.current {
                        Some(prev) => SessionModel { media: s.media.push(prev), ..s },
                        None => s,
                    },
                    current: Some(m),
                    ..st
                },
            ),
            Err(e) => Err(e),
        }
    } else if kind == 'a' {
        let a = attribute_from(value);
        match st.current {
            Some(m) => Ok(
                ParseModel {
                    current: Some(MediaModel { attributes: m.attributes.push(a), ..m }),
                    ..st
                },
            ),
            None => Ok(ParseModel { session: SessionModel { attributes: s.attributes.push(a), ..s }, ..st }),
        }
    } else {
        Ok(st)
    }
}

/// The address handed over for the `k`-th connection line, if any.
pub open spec fn address_at(addresses: Seq<Option<IpAddress>>, k: nat) -> Option<IpAddress> {
    if k < addresses.len() {
        addresses[k as int]
    } else {
        None
    }
}

/// What one line does to the parse state: empty lines are skipped, others
/// are split into type and value and applied.
pub open spec fn parse_step(
    st: ParseModel,
    line: Seq<char>,
    addresses: Seq<Option<IpAddress>>,
) -> Result<ParseModel, SdpErrorModel> {
    if line.len() == 0 {
        Ok(st)
    } else {
        match split_line_spec(line) {
            Err(e) => Err(e),
            Ok((kind, value)) => line_step(st, kind, value, address_at(addresses, st.connections)),
        }
    }
}

/// The parse state after the first `n` lines, or the first error.
pub open spec fn parse_lines(
    sdp_type: SdpType,
    lines: Seq<Seq<char>>,
    addresses: Seq<Option<IpAddress>>,
    n: nat,
) -> Result<ParseModel, SdpErrorModel>
    decreases n,
{
    if n == 0 {
        Ok(ParseModel { session: new_session_model(sdp_type), current: None, connections: 0 })
    } else {
        match parse_lines(sdp_type, lines, addresses, (n - 1) as nat) {
            Err(e) => Err(e),
            Ok(st) => parse_step(st, lines[n - 1], addresses),
        }
    }
}

/// What parsing a whole description gives: every line applied in order,
/// the last media description closed, and the result validated.
/// `addresses[k]` is what the address text of the `k`-th connection line
/// parses to.
pub open spec fn parse_session_spec(
    sdp_type: SdpType,
    text: Seq<char>,
    addresses: Seq<Option<IpAddress>>,
) -> Result<SessionModel, SdpErrorModel> {
    let ls = lines_of(text);
    match parse_lines(sdp_type, ls, addresses, ls.len()) {
        Err(e) => Err(e),
        Ok(st) => {
            let s = match st.current {
                Some(m) => SessionModel { media: st.session.media.push(m), ..st.session },
                None => st.session,
            };
            match session_check(s) {
                Err(e) => Err(e),
                Ok(_) => Ok(s),
            }
        },
    }
}

} // verus!
