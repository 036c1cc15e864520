//! A complete SDP session description (RFC 4566): the session-level fields,
//! the media sections, and their validation and text form.
use crate::sdp::attribute::Attribute;
use crate::sdp::connection::{connection_line, Connection};
use crate::sdp::errors::SdpError;
use crate::sdp::media_description::{
    attribute_lines_crlf, media_line, push_attribute_lines_crlf, push_media_line, MediaDescription,
};
use crate::address::IpAddress;
use crate::sdp::model::{
    first_bad_media, first_equals, line_step, media_check, new_session_model, origin_check,
    outcome_is, parse_lines, parse_session_spec, parse_step, session_check, split_line_spec,
    timing_check, version_from, address_at, MediaModel, ParseModel, SdpErrorModel, SessionModel,
};
use crate::sdp::text::{crlf, lines_of, parse_unsigned, push_crlf_line, split_lines};
use crate::sdp::origin::{origin_line, Origin};
use crate::sdp::sdp_type::SdpType;
use crate::sdp::session_description_builder::SessionDescriptionBuilder;
use crate::sdp::timing::{timing_line, Timing};
use crate::text::{chars_of, decimal, decimal_chars, push_chars, push_str, string_from_chars, string_from_str};
use vstd::prelude::*;
use vstd::string::*;

verus! {

/// Represents a complete Session Description according to RFC 4566.
#[derive(Debug, Clone)]
pub struct SessionDescription {
    pub sdp_type: SdpType,
    pub version: i32,
    pub origin: Origin,
    pub session_name: String,
    pub timing: Timing,
    pub media: Vec<MediaDescription>,
    pub attributes: Vec<Attribute>,
    pub connection: Option<Connection>,
}

/// The decimal text of a signed number.
pub open spec fn signed_decimal(v: int) -> Seq<char> {
    if v < 0 {
        "-"@ + decimal((-v) as nat)
    } else {
        decimal(v as nat)
    }
}

/// The text of a media description within a session description: its
/// `m=` line, then its connection line if any and its attribute lines, every
/// line ended by CR LF.
pub open spec fn media_session_text(m: MediaDescription) -> Seq<char> {
    media_line(m) + match m.connection {
        Some(c) => crlf(connection_line(c)),
        None => Seq::empty(),
    } + attribute_lines_crlf(m.attributes@)
}

/// The text of media descriptions within a session description, one after
/// the other.
pub open spec fn media_texts(v: Seq<MediaDescription>) -> Seq<char>
    decreases v.len(),
{
    if v.len() == 0 {
        Seq::empty()
    } else {
        media_texts(v.drop_last()) + media_session_text(v.last())
    }
}

/// The text of a session description: the version, origin and session
/// name lines, the session connection line if any, the timing line, the
/// session attribute lines, then each media description; every line is
/// ended by CR LF.
pub open spec fn session_text(s: SessionDescription) -> Seq<char> {
    "v="@ + signed_decimal(s.version as int) + "\r\n"@ + crlf(origin_line(s.origin)) + "s="@
        + s.session_name@ + "\r\n"@ + match s.connection {
        Some(c) => crlf(connection_line(c)),
        None => Seq::empty(),
    } + crlf(timing_line(s.timing)) + attribute_lines_crlf(s.attributes@) + media_texts(s.media@)
}

/// Whether `s` is a session description as `SessionDescription::new` makes
/// it: version 0, the default origin, session name "-", a permanent
/// timing, no media, attributes or connection.
pub open spec fn is_new_session(s: SessionDescription, sdp_type: SdpType) -> bool {
    &&& s.sdp_type == sdp_type
    &&& s.version == 0
    &&& s.origin.username@ == "-"@
    &&& s.origin.session_id == 0
    &&& s.origin.session_version == 0
    &&& s.origin.network_type@ == "IN"@
    &&& s.origin.address_type@ == "IP4"@
    &&& s.origin.unicast_address@ == "0.0.0.0"@
    &&& s.session_name@ == "-"@
    &&& s.timing.start_time == 0
    &&& s.timing.stop_time == 0
    &&& s.media@.len() == 0
    &&& s.attributes@.len() == 0
    &&& s.connection is None
}

/// The model of an optional media description.
pub open spec fn media_opt(m: Option<MediaDescription>) -> Option<MediaModel> {
    match m {
        Some(x) => Some(x@),
        None => None,
    }
}

/// Whether applying a typed line to the parse state `before` (session,
/// current media, connection count) gave `r` and left `after`, as
/// `line_step` says.
pub open spec fn line_applied(
    before: (SessionDescription, Option<MediaDescription>, usize),
    kind: char,
    value: Seq<char>,
    address: Option<IpAddress>,
    r: Result<(), SdpError>,
    after: (SessionDescription, Option<MediaDescription>, usize),
) -> bool {
    match line_step(
        ParseModel { session: before.0@, current: media_opt(before.1), connections: before.2 as nat },
        kind,
        value,
        address,
    ) {
        Ok(st) => {
            &&& r is Ok
            &&& after.0@ == st.session
            &&& media_opt(after.1) == st.current
            &&& after.2 as nat == st.connections
        },
        Err(e) => r matches Err(x) && x@ == e,
    }
}

/// Once a line fails, the parse stays failed with that error.
proof fn lemma_parse_error_stays(
    sdp_type: SdpType,
    lines: Seq<Seq<char>>,
    addresses: Seq<Option<IpAddress>>,
    n: nat,
    m: nat,
)
    requires
        n <= m,
        parse_lines(sdp_type, lines, addresses, n) is Err,
    ensures
        parse_lines(sdp_type, lines, addresses, m) == parse_lines(sdp_type, lines, addresses, n),
    decreases m - n,
{
    if n < m {
        lemma_parse_error_stays(sdp_type, lines, addresses, n, (m - 1) as nat);
    }
}

/// The version number a value spells (`str::parse::<i32>`).
fn parse_version(value: &str) -> (r: Option<i32>)
    ensures
        r == version_from(value@),
{
    let chars = chars_of(value);
    if chars.len() > 0 && chars[0] == '-' {
        let digits = &chars.as_slice()[1..chars.len()];
        assert(digits@ =~= value@.skip(1));
        if digits.len() > 0 && digits[0] == '+' {
            return None;
        }
        match parse_unsigned(digits, 0x8000_0000) {
            Some(v) => Some((0i64 - v as i64) as i32),
            None => None,
        }
    } else {
        match parse_unsigned(chars.as_slice(), 0x7fff_ffff) {
            Some(v) => Some(v as i32),
            None => None,
        }
    }
}

impl SessionDescription {
    /// Creates a new empty `SessionDescription` with default values.
    ///
    /// # Arguments
    /// * `sdp_type` - The type of SDP message (Offer or Answer)
    pub fn new(sdp_type: SdpType) -> (s: Self)
        ensures
            is_new_session(s, sdp_type),
    {
        let mut s = Self::default();
        s.sdp_type = sdp_type;
        s
    }

    /// Creates a builder for constructing `SessionDescription` instances.
    ///
    /// # Arguments
    /// * `sdp_type` - The type of SDP message (Offer or Answer)
    pub fn builder(sdp_type: SdpType) -> (b: SessionDescriptionBuilder)
        ensures
            is_new_session(b.session(), sdp_type),
    {
        SessionDescriptionBuilder::new(sdp_type)
    }

    /// Parses an SDP string into a `SessionDescription`: every non-empty
    /// line is split into its type and value and applied in order, the
    /// last media description is closed, and the result is validated.
    /// `addresses[k]` is what the address text of the `k`-th connection line
    /// (see `Connection::address_text`) parses to as an IP address; a
    /// connection line without one fails with `InvalidIpAddress`.
    pub fn parse_with(sdp_type: SdpType, sdp_str: &str, addresses: &[Option<IpAddress>]) -> (r: Result<
        Self,
        SdpError,
    >)
        ensures
            outcome_is(r, parse_session_spec(sdp_type, sdp_str@, addresses@), |s: SessionDescription| s@),
    {
        let mut session = SessionDescription::new(sdp_type);
        let mut current_media: Option<MediaDescription> = None;
        let mut connections: usize = 0;
        let chars = chars_of(sdp_str);
        let lines = split_lines(chars.as_slice());
        let ghost ls = lines_of(sdp_str@);
        proof {
            assert(session@.media =~= new_session_model(sdp_type).media);
            assert(session@.attributes =~= new_session_model(sdp_type).attributes);
            assert(session@ == new_session_model(sdp_type));
        }
        let mut i: usize = 0;
        while i < lines.len()
            invariant
                i <= lines@.len(),
                lines@.map_values(|w: Vec<char>| w@) == ls,
                ls == lines_of(sdp_str@),
                connections <= i,
                parse_lines(sdp_type, ls, addresses@, i as nat) == Ok::<ParseModel, SdpErrorModel>(
                    (ParseModel {
                        session: session@,
                        current: media_opt(current_media),
                        connections: connections as nat,
                    }),
                ),
            decreases lines@.len() - i,
        {
            assert(lines@[i as int]@ == ls[i as int]);
            let step = Self::apply_line(
                &mut session,
                &mut current_media,
                &mut connections,
                lines[i].as_slice(),
                addresses,
            );
            match step {
                Ok(()) => {},
                Err(e) => {
                    proof {
                        lemma_parse_error_stays(sdp_type, ls, addresses@, i as nat + 1, ls.len());
                    }
                    return Err(e);
                },
            }
            i = i + 1;
        }
        assert(ls.len() == i);
        match current_media {
            Some(media) => {
                session.media.push(media);
            },
            None => {},
        }
        assert(session@.media =~= match parse_lines(sdp_type, ls, addresses@, ls.len()) {
            Ok(st) => match st.current {
                Some(m) => st.session.media.push(m),
                None => st.session.media,
            },
            Err(_) => Seq::empty(),
        });
        match session.validate() {
            Ok(()) => Ok(session),
            Err(e) => Err(e),
        }
    }

    /// Applies one line of the description to the parse state.
    fn apply_line(
        session: &mut Self,
        current_media: &mut Option<MediaDescription>,
        connections: &mut usize,
        line: &[char],
        addresses: &[Option<IpAddress>],
    ) -> (r: Result<(), SdpError>)
        requires
            *old(connections) < usize::MAX,
        ensures
            *final(connections) <= *old(connections) + 1,
            match parse_step(
                (ParseModel {
                    session: old(session)@,
                    current: media_opt(*old(current_media)),
                    connections: *old(connections) as nat,
                }),
                line@,
                addresses@,
            ) {
                Ok(st) => r is Ok && st == (ParseModel {
                    session: final(session)@,
                    current: media_opt(*final(current_media)),
                    connections: *final(connections) as nat,
                }),
                Err(e) => r matches Err(x) && x@ == e,
            },
    {
        if line.len() == 0 {
            return Ok(());
        }
        let text = string_from_chars(line);
        let (type_char, value) = Self::split_line(text.as_str())?;
        let address = if *connections < addresses.len() {
            addresses[*connections]
        } else {
            None
        };
        Self::process_line(session, current_media, connections, type_char, value.as_str(), address)
    }

    /// Splits an SDP line into its type character and value: the line must
    /// be `<type>=<value>` with a single ASCII type character.
    pub fn split_line(line: &str) -> (r: Result<(char, String), SdpError>)
        ensures
            outcome_is(r, split_line_spec(line@), |p: (char, String)| (p.0, p.1@)),
    {
        let chars = chars_of(line);
        let mut i: usize = 0;
        while i < chars.len()
            invariant
                i <= chars@.len(),
                chars@ == line@,
                forall|j: int| 0 <= j < i ==> chars@[j] != '=',
            decreases chars@.len() - i,
        {
            if chars[i] == '=' {
                proof {
                    let s = line@;
                    assert(exists|k: int| 0 <= k < s.len() && s[k] == '=');
                    let c = choose|k: int|
                        0 <= k < s.len() && s[k] == '=' && forall|j: int| 0 <= j < k ==> s[j] != '=';
                    assert(0 <= c < s.len() && s[c] == '=' && forall|j: int| 0 <= j < c ==> s[j] != '=');
                    if c < i {
                    } else if c > i {
                        assert(s[i as int] != '=');
                    }
                    assert(first_equals(s) == Some(i as int));
                }
                if i == 0 {
                    return Err(SdpError::EmptyTypeChar);
                }
                if i != 1 || chars[0] as u32 >= 0x80 {
                    return Err(SdpError::InvalidLineFormat);
                }
                let value = string_from_chars(&chars.as_slice()[2..chars.len()]);
                assert(chars@.subrange(2, chars@.len() as int) =~= line@.skip(2));
                return Ok((chars[0], value));
            }
            i = i + 1;
        }
        Err(SdpError::InvalidLineFormat)
    }

    /// Applies one typed line to the session being parsed and the media
    /// description being read; `connections` counts the connection lines
    /// read, and `address` is what the address text of this line parses to
    /// when it is a connection line.
    fn process_line(
        session: &mut Self,
        current_media: &mut Option<MediaDescription>,
        connections: &mut usize,
        type_char: char,
        value: &str,
        address: Option<IpAddress>,
    ) -> (r: Result<(), SdpError>)
        requires
            *old(connections) < usize::MAX,
        ensures
            *final(connections) <= *old(connections) + 1,
            line_applied(
                (*old(session), *old(current_media), *old(connections)),
                type_char,
                value@,
                address,
                r,
                (*final(session), *final(current_media), *final(connections)),
            ),
    {
        if type_char == 'v' {
            session.set_version(value)
        } else if type_char == 'o' {
            session.set_origin(value)
        } else if type_char == 's' {
            session.set_session_name(value)
        } else if type_char == 't' {
            session.set_timing(value)
        } else if type_char == 'c' {
            let r = session.set_connection(current_media, value, address);
            if r.is_ok() {
                *connections = *connections + 1;
            }
            r
        } else if type_char == 'm' {
            session.set_media(current_media, value)
        } else if type_char == 'a' {
            session.set_attribute(current_media, value)
        } else {
            Ok(())
        }
    }

    /// Sets the SDP version number.
    fn set_version(&mut self, value: &str) -> (r: Result<(), SdpError>)
        ensures
            match version_from(value@) {
                Some(v) => r is Ok && final(self)@ == (SessionModel { version: v, ..old(self)@ }),
                None => r matches Err(SdpError::InvalidVersion),
            },
    {
        match parse_version(value) {
            Some(v) => {
                self.version = v;
                Ok(())
            },
            None => Err(SdpError::InvalidVersion),
        }
    }

    /// Sets the origin field.
    fn set_origin(&mut self, value: &str) -> (r: Result<(), SdpError>)
        ensures
            match crate::sdp::model::origin_from(value@) {
                Ok(o) => r is Ok && final(self)@ == (SessionModel { origin: o, ..old(self)@ }),
                Err(e) => r matches Err(x) && x@ == e,
            },
    {
        self.origin = Origin::parse(value)?;
        Ok(())
    }

    /// Sets the session name.
    fn set_session_name(&mut self, value: &str) -> (r: Result<(), SdpError>)
        ensures
            r is Ok,
            final(self)@ == (SessionModel { session_name: value@, ..old(self)@ }),
    {
        self.session_name = string_from_str(value);
        Ok(())
    }

    /// Sets the timing information.
    fn set_timing(&mut self, value: &str) -> (r: Result<(), SdpError>)
        ensures
            match crate::sdp::model::timing_from(value@) {
                Ok(t) => r is Ok && final(self)@ == (SessionModel { timing: t, ..old(self)@ }),
                Err(e) => r matches Err(x) && x@ == e,
            },
    {
        self.timing = Timing::parse(value)?;
        Ok(())
    }

    /// Sets the connection data, of the current media description if there
    /// is one, else of the session.
    fn set_connection(
        &mut self,
        current_media: &mut Option<MediaDescription>,
        value: &str,
        address: Option<IpAddress>,
    ) -> (r: Result<(), SdpError>)
        ensures
            match crate::sdp::model::connection_from(value@, address) {
                Ok(c) => r is Ok && match *old(current_media) {
                    Some(m) => media_opt(*final(current_media)) == Some(
                        (MediaModel { connection: Some(c), ..m@ }),
                    ) && final(self)@ == old(self)@,
                    None => final(self)@ == (SessionModel { connection: Some(c), ..old(self)@ })
                        && *final(current_media) == *old(current_media),
                },
                Err(e) => r matches Err(x) && x@ == e,
            },
    {
        let conn = Connection::parse_with(value, address)?;
        match current_media {
            Some(media) => {
                media.connection = Some(conn);
            },
            None => {
                self.connection = Some(conn);
            },
        }
        Ok(())
    }

    /// Starts a media description, closing the current one.
    fn set_media(&mut self, current_media: &mut Option<MediaDescription>, value: &str) -> (r: Result<
        (),
        SdpError,
    >)
        ensures
            match crate::sdp::model::media_from(value@) {
                Ok(m) => r is Ok && media_opt(*final(current_media)) == Some(m) && final(self)@ == (
                match *old(current_media) {
                    Some(prev) => (SessionModel { media: old(self)@.media.push(prev@), ..old(self)@ }),
                    None => old(self)@,
                }),
                Err(e) => r matches Err(x) && x@ == e,
            },
    {
        let parsed = MediaDescription::parse(value);
        match parsed {
            Ok(media) => {
                match current_media.take() {
                    Some(prev) => {
                        let ghost before = self.media@;
                        self.media.push(prev);
                        assert(self.media@.map_values(|m: MediaDescription| m@) =~= before.map_values(
                            |m: MediaDescription| m@,
                        ).push(prev@));
                    },
                    None => {},
                }
                *current_media = Some(media);
                Ok(())
            },
            Err(e) => Err(e),
        }
    }

    /// Adds an attribute, to the current media description if there is one,
    /// else to the session.
    fn set_attribute(&mut self, current_media: &mut Option<MediaDescription>, value: &str) -> (r: Result<
        (),
        SdpError,
    >)
        ensures
            r is Ok,
            ({
                let a = crate::sdp::model::attribute_from(value@);
                match *old(current_media) {
                    Some(m) => media_opt(*final(current_media)) == Some(
                        (MediaModel { attributes: m@.attributes.push(a), ..m@ }),
                    ) && final(self)@ == old(self)@,
                    None => final(self)@ == (SessionModel {
                        attributes: old(self)@.attributes.push(a),
                        ..old(self)@
                    }) && *final(current_media) == *old(current_media),
                }
            }),
    {
        let attr = match Attribute::parse(value) {
            Ok(a) => a,
            Err(e) => {
                return Err(e);
            },
        };
        let ghost av = attr@;
        match current_media {
            Some(media) => {
                let ghost before = media.attributes@;
                media.attributes.push(attr);
                assert(media.attributes@.map_values(|a: Attribute| a@) =~= before.map_values(
                    |a: Attribute| a@,
                ).push(av));
            },
            None => {
                let ghost before = self.attributes@;
                self.attributes.push(attr);
                assert(self.attributes@.map_values(|a: Attribute| a@) =~= before.map_values(
                    |a: Attribute| a@,
                ).push(av));
            },
        }
        Ok(())
    }

    /// Validates the SDP session description according to RFC 4566.
    ///
    /// This method checks:
    /// - Version number is 0
    /// - Origin field is valid
    /// - Session name is not empty
    /// - Timing information is valid
    /// - At least one media section is present
    /// - All media sections are valid
    pub fn validate(&self) -> (r: Result<(), SdpError>)
        ensures
            outcome_is(r, session_check(self@), |u: ()| u),
    {
        // Validate version
        if self.version != 0 {
            return Err(SdpError::InvalidVersionNumber);
        }
        // Validate origin
        self.origin.validate()?;
        // Session name must not be empty
        if self.session_name.as_str().is_empty() {
            return Err(SdpError::EmptySessionName);
        }
        // Validate timing
        self.timing.validate()?;
        // Validate media sections
        if self.media.len() == 0 {
            return Err(SdpError::NoMediaSections);
        }
        let mut i: usize = 0;
        while i < self.media.len()
            invariant
                i <= self.media@.len(),
                forall|j: int| 0 <= j < i ==> media_check(self@.media[j]) is Ok,
                self.version == 0,
                origin_check(self@.origin) is Ok,
                self.session_name@.len() > 0,
                timing_check(self.timing) is Ok,
                self.media@.len() > 0,
            decreases self.media@.len() - i,
        {
            let checked = self.media[i].validate();
            if checked.is_err() {
                proof {
                    let v = self@.media;
                    assert(v[i as int] == self.media@[i as int]@);
                    assert(media_check(v[i as int]) is Err);
                    let c = choose|c: int|
                        0 <= c < v.len() && media_check(v[c]) is Err && forall|j: int|
                            0 <= j < c ==> media_check(v[j]) is Ok;
                    assert(0 <= c < v.len() && media_check(v[c]) is Err && forall|j: int|
                            0 <= j < c ==> media_check(v[j]) is Ok);
                    if c < i {
                    } else if c > i {
                        assert(media_check(v[i as int]) is Ok);
                    }
                }
                return checked;
            }
            i = i + 1;
        }
        Ok(())
    }

    /// The session description as SDP text (see `session_text`).
    pub fn to_string(&self) -> (s: String)
        ensures
            s@ == session_text(*self),
    {
        let mut s = string_from_str("v=");
        if self.version < 0 {
            push_str(&mut s, "-");
            let magnitude = (-(self.version as i64)) as u64;
            let digits = decimal_chars(magnitude);
            push_chars(&mut s, digits.as_slice());
        } else {
            let digits = decimal_chars(self.version as u64);
            push_chars(&mut s, digits.as_slice());
        }
        push_str(&mut s, "\r\n");
        let origin = self.origin.to_string();
        proof {
            reveal_strlit("o=");
        }
        push_crlf_line(&mut s, origin.as_str());
        push_str(&mut s, "s=");
        push_str(&mut s, self.session_name.as_str());
        push_str(&mut s, "\r\n");
        match &self.connection {
            Some(c) => {
                let line = c.to_string();
                proof {
                    reveal_strlit("c=");
                }
                push_crlf_line(&mut s, line.as_str());
            },
            None => {},
        }
        let timing = self.timing.to_string();
        proof {
            reveal_strlit("t=");
        }
        push_crlf_line(&mut s, timing.as_str());
        push_attribute_lines_crlf(&mut s, &self.attributes);
        let ghost head = s@;
        let mut i: usize = 0;
        while i < self.media.len()
            invariant
                i <= self.media@.len(),
                s@ == head + media_texts(self.media@.take(i as int)),
            decreases self.media@.len() - i,
        {
            let m = &self.media[i];
            push_media_line(&mut s, m);
            match &m.connection {
                Some(c) => {
                    let line = c.to_string();
                    proof {
                        reveal_strlit("c=");
                    }
                    push_crlf_line(&mut s, line.as_str());
                },
                None => {},
            }
            push_attribute_lines_crlf(&mut s, &m.attributes);
            let ghost t = self.media@.take(i as int + 1);
            assert(t.drop_last() =~= self.media@.take(i as int));
            i = i + 1;
            assert(s@ =~= head + media_texts(t));
        }
        assert(self.media@.take(i as int) =~= self.media@);
        assert(s@ =~= session_text(*self));
        s
    }
}

/// Provides a default implementation for [`SessionDescription`].
impl Default for SessionDescription {
    fn default() -> (s: Self)
        ensures
            is_new_session(s, SdpType::Offer),
    {
        SessionDescription {
            sdp_type: SdpType::Offer,
            version: 0,
            origin: Origin::default(),
            session_name: string_from_str("-"),
            timing: Timing::default(),
            media: Vec::new(),
            attributes: Vec::new(),
            connection: None,
        }
    }
}

} // verus!
