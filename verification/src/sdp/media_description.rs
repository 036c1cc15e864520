//! SDP media description representation. Media descriptions define the
//! properties of individual media streams within an SDP session.
use crate::sdp::attribute::{attribute_line, Attribute};
use crate::sdp::connection::{connection_line, Connection};
use crate::sdp::errors::SdpError;
use crate::sdp::model::{media_check, media_from, outcome_is, MediaModel, SdpErrorModel};
use crate::sdp::text::{
    crlf, push_crlf_line, is_word, joined_with, lemma_decimal_word, lemma_joined_concat, lemma_parse_decimal,
    lemma_words_joined, parse_unsigned, parse_unsigned_spec, same_text, split_words, words,
};
use crate::text::{chars_of, decimal, decimal_chars, push_chars, push_str, string_from_chars};
use vstd::prelude::*;
use vstd::string::*;

verus! {

/// Represents a media description (m=) in an SDP message as defined in RFC 4566.
///
/// A media description starts with an 'm=' line and contains all of the following
/// fields in the specified order:
/// ```text
/// m=<media> <port> <proto> <fmt> ...
/// ```
///
/// # Arguments
/// * `media_type` - Media type ("audio", "video", "text", "application", "message")
/// * `port` - Transport port number for the media stream
/// * `protocol` - Transport protocol (e.g., "RTP/AVP", "udp")
/// * `formats` - Media format descriptions (codec types, payload types)
/// * `connection` - Optional connection information specific to this media
/// * `attributes` - Media-level attributes that apply only to this media stream
#[derive(Debug, Clone)]
pub struct MediaDescription {
    pub media_type: String,
    pub port: u16,
    pub protocol: String,
    pub formats: Vec<String>,
    pub connection: Option<Connection>,
    pub attributes: Vec<Attribute>,
}

/// Whether `t` is one of the valid media types of RFC 4566: "audio",
/// "video", "text", "application", "message".
pub open spec fn valid_media_type(t: Seq<char>) -> bool {
    t == "audio"@ || t == "video"@ || t == "text"@ || t == "application"@ || t == "message"@
}

/// The texts of strings.
pub open spec fn texts(v: Seq<String>) -> Seq<Seq<char>> {
    v.map_values(|s: String| s@)
}

/// The lines of attributes, one after the other.
pub open spec fn attribute_lines(v: Seq<Attribute>) -> Seq<char>
    decreases v.len(),
{
    if v.len() == 0 {
        Seq::empty()
    } else {
        attribute_lines(v.drop_last()) + attribute_line(
            v.last().name@,
            match v.last().value {
                Some(x) => Some(x@),
                None => None,
            },
        )
    }
}

/// The `m=` line of a media description, ended by CR LF.
pub open spec fn media_line(m: MediaDescription) -> Seq<char> {
    "m="@ + m.media_type@ + " "@ + decimal(m.port as nat) + " "@ + m.protocol@ + " "@
        + joined_with(texts(m.formats@), " "@) + "\r\n"@
}

/// The text of a media description: its `m=` line ended by CR LF, then its
/// connection line if any, then its attribute lines.
pub open spec fn media_text(m: MediaDescription) -> Seq<char> {
    media_line(m) + match m.connection {
        Some(c) => connection_line(c),
        None => Seq::empty(),
    } + attribute_lines(m.attributes@)
}

/// The lines of attributes, one after the other, each ended by CR LF.
pub open spec fn attribute_lines_crlf(v: Seq<Attribute>) -> Seq<char>
    decreases v.len(),
{
    if v.len() == 0 {
        Seq::empty()
    } else {
        attribute_lines_crlf(v.drop_last()) + crlf(
            attribute_line(
                v.last().name@,
                match v.last().value {
                    Some(x) => Some(x@),
                    None => None,
                },
            ),
        )
    }
}

/// Appends every attribute's line.
pub fn push_attribute_lines(s: &mut String, attributes: &Vec<Attribute>)
    ensures
        final(s)@ == old(s)@ + attribute_lines(attributes@),
{
    let mut i: usize = 0;
    while i < attributes.len()
        invariant
            i <= attributes@.len(),
            s@ == old(s)@ + attribute_lines(attributes@.take(i as int)),
        decreases attributes@.len() - i,
    {
        let line = attributes[i].to_string();
        push_str(s, line.as_str());
        let ghost t = attributes@.take(i as int + 1);
        assert(t.drop_last() =~= attributes@.take(i as int));
        i = i + 1;
        assert(s@ =~= old(s)@ + attribute_lines(t));
    }
    assert(attributes@.take(i as int) =~= attributes@);
}

/// Appends every attribute's line, each ended by CR LF.
pub fn push_attribute_lines_crlf(s: &mut String, attributes: &Vec<Attribute>)
    ensures
        final(s)@ == old(s)@ + attribute_lines_crlf(attributes@),
{
    let mut i: usize = 0;
    while i < attributes.len()
        invariant
            i <= attributes@.len(),
            s@ == old(s)@ + attribute_lines_crlf(attributes@.take(i as int)),
        decreases attributes@.len() - i,
    {
        let line = attributes[i].to_string();
        proof {
            reveal_strlit("a=");
            assert(line@.len() > 0);
        }
        push_crlf_line(s, line.as_str());
        let ghost t = attributes@.take(i as int + 1);
        assert(t.drop_last() =~= attributes@.take(i as int));
        i = i + 1;
        assert(s@ =~= old(s)@ + attribute_lines_crlf(t));
    }
    assert(attributes@.take(i as int) =~= attributes@);
}

/// Appends the `m=` line of a media description.
pub fn push_media_line(s: &mut String, m: &MediaDescription)
    ensures
        final(s)@ == old(s)@ + media_line(*m),
{
    let ghost start = s@;
    push_str(s, "m=");
    push_str(s, m.media_type.as_str());
    push_str(s, " ");
    let port = decimal_chars(m.port as u64);
    push_chars(s, port.as_slice());
    push_str(s, " ");
    push_str(s, m.protocol.as_str());
    push_str(s, " ");
    let mut i: usize = 0;
    let ghost head = s@;
    while i < m.formats.len()
        invariant
            i <= m.formats@.len(),
            s@ == head + joined_with(texts(m.formats@.take(i as int)), " "@),
        decreases m.formats@.len() - i,
    {
        let ghost t = m.formats@.take(i as int + 1);
        assert(texts(t).drop_last() =~= texts(m.formats@.take(i as int)));
        if i > 0 {
            push_str(s, " ");
        }
        push_str(s, m.formats[i].as_str());
        i = i + 1;
        assert(s@ =~= head + joined_with(texts(t), " "@));
    }
    assert(m.formats@.take(i as int) =~= m.formats@);
    push_str(s, "\r\n");
    assert(s@ =~= start + media_line(*m));
}

impl MediaDescription {
    /// Parses a media description line according to RFC 4566.
    ///
    /// The media description line must be in the format:
    /// `<media> <port> <proto> <fmt> ...`
    ///
    /// # Arguments
    /// * `value` - The media description string to parse (without the "m=" prefix)
    ///
    /// # Returns
    /// * `Ok(MediaDescription)` - A successfully parsed media description
    /// * `Err(SdpError::InvalidMediaFormat)` - If the format is incorrect
    /// * `Err(SdpError::InvalidPort)` - If the port number is invalid
    pub fn parse(value: &str) -> (r: Result<Self, SdpError>)
        ensures
            outcome_is(r, media_from(value@), |m: MediaDescription| m@),
    {
        let chars = chars_of(value);
        let parts = split_words(chars.as_slice());
        if parts.len() < 4 {
            return Err(SdpError::InvalidMediaFormat);
        }
        let port = match parse_unsigned(parts[1].as_slice(), 65535) {
            Some(p) => p as u16,
            None => {
                return Err(SdpError::InvalidPort);
            },
        };
        let mut formats: Vec<String> = Vec::new();
        let mut i: usize = 3;
        while i < parts.len()
            invariant
                3 <= i <= parts@.len(),
                texts(formats@) == parts@.map_values(|w: Vec<char>| w@).subrange(3, i as int),
            decreases parts@.len() - i,
        {
            let f = string_from_chars(parts[i].as_slice());
            let ghost before = formats@;
            formats.push(f);
            assert(formats@ == before.push(f));
            assert(texts(formats@) =~= texts(before).push(f@));
            assert(f@ == parts@.map_values(|w: Vec<char>| w@)[i as int]);
            assert(parts@.map_values(|w: Vec<char>| w@).subrange(3, i + 1) =~= parts@.map_values(
                |w: Vec<char>| w@,
            ).subrange(3, i as int).push(f@));
            i = i + 1;
        }
        assert(parts@.map_values(|w: Vec<char>| w@).subrange(3, i as int) =~= words(value@).skip(3));
        let m = MediaDescription {
            media_type: string_from_chars(parts[0].as_slice()),
            port,
            protocol: string_from_chars(parts[2].as_slice()),
            formats,
            connection: None,
            attributes: Vec::new(),
        };
        assert(m@.attributes =~= Seq::<(Seq<char>, Option<Seq<char>>)>::empty());
        assert(media_from(value@) == Ok::<MediaModel, SdpErrorModel>(m@));
        Ok(m)
    }

    /// Validates the media description according to RFC 4566 specifications.
    ///
    /// This method performs the following checks:
    /// - Media type must be one of: "audio", "video", "text", "application", "message"
    /// - At least one media format must be specified
    ///
    /// # Returns
    /// * `Ok(())` - If all validation checks pass
    /// * `Err(SdpError::InvalidMediaType)` - If the media type is not recognized
    /// * `Err(SdpError::NoMediaFormats)` - If no media formats are specified
    pub fn validate(&self) -> (r: Result<(), SdpError>)
        ensures
            outcome_is(r, media_check(self@), |u: ()| u),
    {
        // Media type must be one of: audio, video, text, application, message
        let t = chars_of(self.media_type.as_str());
        let known = same_text(t.as_slice(), "audio") || same_text(t.as_slice(), "video")
            || same_text(t.as_slice(), "text") || same_text(t.as_slice(), "application")
            || same_text(t.as_slice(), "message");
        if !known {
            return Err(SdpError::InvalidMediaType(self.media_type.clone()));
        }
        // Must have at least one format
        if self.formats.len() == 0 {
            return Err(SdpError::NoMediaFormats);
        }
        Ok(())
    }

    /// The media description as SDP text (see `media_text`).
    pub fn to_string(&self) -> (s: String)
        ensures
            s@ == media_text(*self),
    {
        let mut s = String::new();
        push_media_line(&mut s, self);
        match &self.connection {
            Some(c) => {
                let line = c.to_string();
                push_str(&mut s, line.as_str());
            },
            None => {},
        }
        push_attribute_lines(&mut s, &self.attributes);
        assert(s@ =~= media_text(*self));
        s
    }
}


/// The fields of a media line, in order, as they are written.
pub open spec fn media_fields(m: MediaDescription) -> Seq<Seq<char>> {
    seq![m.media_type@, decimal(m.port as nat), m.protocol@] + texts(m.formats@)
}

/// A media description's `m=` line, and so its text, begins with `m=`, its
/// fields joined with spaces and CR LF; when its media type, protocol and formats are single
/// words and it lists at least one format, parsing that value gives back the
/// media description as written, without connection or attributes (those
/// come on lines of their own).
pub proof fn lemma_media_line_parses(m: MediaDescription)
    requires
        is_word(m.media_type@),
        is_word(m.protocol@),
        m.formats@.len() > 0,
        forall|i: int| 0 <= i < m.formats@.len() ==> is_word(#[trigger] m.formats@[i]@),
    ensures
        media_line(m) == "m="@ + joined_with(media_fields(m), " "@) + "\r\n"@,
        media_text(m) == "m="@ + joined_with(media_fields(m), " "@) + "\r\n"@ + match m.connection {
            Some(c) => connection_line(c),
            None => Seq::empty(),
        } + attribute_lines(m.attributes@),
        media_from(joined_with(media_fields(m), " "@)) == Ok::<MediaModel, SdpErrorModel>(
            MediaModel { connection: None, attributes: Seq::empty(), ..m@ },
        ),
{
    let sp = " "@;
    let head = seq![m.media_type@, decimal(m.port as nat), m.protocol@];
    let f = media_fields(m);
    lemma_decimal_word(m.port as nat);
    lemma_parse_decimal(m.port as nat, 65535);
    assert forall|i: int| 0 <= i < f.len() implies is_word(#[trigger] f[i]) by {
        if i >= 3 {
            assert(f[i] == m.formats@[i - 3]@);
        }
    }
    lemma_words_joined(f);
    lemma_joined_concat(head, texts(m.formats@), sp);
    assert(head.drop_last().drop_last() =~= seq![m.media_type@]);
    let h2 = seq![m.media_type@, decimal(m.port as nat)];
    assert(head.drop_last() =~= h2);
    assert(h2.drop_last() =~= seq![m.media_type@]);
    assert(joined_with(seq![m.media_type@], sp) == m.media_type@);
    assert(joined_with(h2, sp) == m.media_type@ + sp + decimal(m.port as nat));
    assert(joined_with(head.drop_last(), sp) == m.media_type@ + sp + decimal(m.port as nat));
    assert(joined_with(head, sp) == m.media_type@ + sp + decimal(m.port as nat) + sp + m.protocol@);
    assert(f.skip(3) =~= m@.formats);
    assert(media_line(m) =~= "m="@ + joined_with(f, sp) + "\r\n"@);
    assert(media_text(m) =~= "m="@ + joined_with(f, sp) + "\r\n"@ + match m.connection {
        Some(c) => connection_line(c),
        None => Seq::empty(),
    } + attribute_lines(m.attributes@));
}

} // verus!
