//! SDP origin field representation. The origin field provides unique
//! identification for an SDP session and information about its creator.
use crate::sdp::errors::SdpError;
use crate::sdp::model::{origin_check, origin_from, outcome_is, OriginModel, SdpErrorModel};
use crate::sdp::text::{
    is_word, joined_with, lemma_decimal_word, lemma_parse_decimal, lemma_words_joined,
    parse_unsigned, parse_unsigned_spec, same_text, split_words, words,
};
use crate::text::{chars_of, decimal, decimal_chars, push_chars, push_str, string_from_chars, string_from_str};
use vstd::prelude::*;
use vstd::string::*;

verus! {

/// Represents an Origin field in an SDP message according to RFC 4566.
///
/// The Origin field ('o=') provides unique identification for a session. Its format is:
/// `o=<username> <sess-id> <sess-version> <nettype> <addrtype> <unicast-address>`
///
/// According to RFC 4566:
/// - Username: The originator of the session (e.g., "-" for anonymous)
/// - Session ID: A unique numeric identifier for the session
/// - Session Version: A version number that increases when the session data is modified
/// - Network Type: The type of network (typically "IN" for Internet)
/// - Address Type: The type of the address (e.g., "IP4" or "IP6")
/// - Unicast Address: The originator's address
#[derive(Debug, Clone)]
pub struct Origin {
    pub username: String,
    pub session_id: u64,
    pub session_version: u64,
    pub network_type: String,
    pub address_type: String,
    pub unicast_address: String,
}

/// The text of an origin line.
pub open spec fn origin_line(o: Origin) -> Seq<char> {
    "o="@ + o.username@ + " "@ + decimal(o.session_id as nat) + " "@ + decimal(
        o.session_version as nat,
    ) + " "@ + o.network_type@ + " "@ + o.address_type@ + " "@ + o.unicast_address@ + "\n"@
}

impl Origin {
    /// Parses an Origin field from an SDP string.
    ///
    /// The expected format is:
    /// `<username> <sess-id> <sess-version> <nettype> <addrtype> <unicast-address>`
    ///
    /// # Arguments
    /// * `value` - The string containing the origin field value to parse
    ///
    /// # Returns
    /// * `Ok(Origin)` - If parsing is successful
    /// * `Err(SdpError)` - If the string format is invalid:
    ///   - `InvalidOriginFormat` - If the string doesn't contain exactly 6 parts
    ///   - `InvalidSessionId` - If session ID or version cannot be parsed as u64
    pub fn parse(value: &str) -> (r: Result<Self, SdpError>)
        ensures
            outcome_is(r, origin_from(value@), |o: Origin| o@),
    {
        let chars = chars_of(value);
        let parts = split_words(chars.as_slice());
        if parts.len() != 6 {
            return Err(SdpError::InvalidOriginFormat);
        }
        let session_id = match parse_unsigned(parts[1].as_slice(), u64::MAX) {
            Some(v) => v,
            None => {
                return Err(SdpError::InvalidSessionId);
            },
        };
        let session_version = match parse_unsigned(parts[2].as_slice(), u64::MAX) {
            Some(v) => v,
            None => {
                return Err(SdpError::InvalidSessionId);
            },
        };
        Ok(Origin {
            username: string_from_chars(parts[0].as_slice()),
            session_id,
            session_version,
            network_type: string_from_chars(parts[3].as_slice()),
            address_type: string_from_chars(parts[4].as_slice()),
            unicast_address: string_from_chars(parts[5].as_slice()),
        })
    }

    /// Validates the Origin field according to RFC 4566 specifications.
    ///
    /// This method performs the following checks:
    /// - Network type must be "IN" (Internet)
    /// - Address type must be either "IP4" or "IP6"
    /// - Session ID must be non-zero
    ///
    /// # Returns
    /// * `Ok(())` - If all validations pass
    /// * `Err(SdpError)` - If any validation fails, with specific error variants:
    ///   - `InvalidNetworkType` - If network type is not "IN"
    ///   - `InvalidAddressType` - If address type is neither "IP4" nor "IP6"
    ///   - `InvalidSessionId` - If session ID is zero
    pub fn validate(&self) -> (r: Result<(), SdpError>)
        ensures
            outcome_is(r, origin_check(self@), |u: ()| u),
    {
        // Network type must be IN
        let net = chars_of(self.network_type.as_str());
        if !same_text(net.as_slice(), "IN") {
            return Err(SdpError::InvalidNetworkType);
        }
        // Address type must be IP4 or IP6
        let addr = chars_of(self.address_type.as_str());
        if !same_text(addr.as_slice(), "IP4") && !same_text(addr.as_slice(), "IP6") {
            return Err(SdpError::InvalidAddressType);
        }
        // The session id must be positive
        if self.session_id == 0 {
            return Err(SdpError::InvalidSessionId);
        }
        Ok(())
    }

    /// The origin as an SDP line:
    /// `o=<username> <sess-id> <sess-version> <nettype> <addrtype> <unicast-address>`
    /// and a line feed.
    pub fn to_string(&self) -> (s: String)
        ensures
            s@ == origin_line(*self),
    {
        let mut s = string_from_str("o=");
        push_str(&mut s, self.username.as_str());
        push_str(&mut s, " ");
        let id = decimal_chars(self.session_id);
        push_chars(&mut s, id.as_slice());
        push_str(&mut s, " ");
        let version = decimal_chars(self.session_version);
        push_chars(&mut s, version.as_slice());
        push_str(&mut s, " ");
        push_str(&mut s, self.network_type.as_str());
        push_str(&mut s, " ");
        push_str(&mut s, self.address_type.as_str());
        push_str(&mut s, " ");
        push_str(&mut s, self.unicast_address.as_str());
        push_str(&mut s, "\n");
        s
    }
}

/// Provides a default implementation for [`Origin`].
impl Default for Origin {
    fn default() -> (o: Self)
        ensures
            o.username@ == "-"@,
            o.session_id == 0,
            o.session_version == 0,
            o.network_type@ == "IN"@,
            o.address_type@ == "IP4"@,
            o.unicast_address@ == "0.0.0.0"@,
    {
        Origin {
            username: string_from_str("-"),
            session_id: 0,
            session_version: 0,
            network_type: string_from_str("IN"),
            address_type: string_from_str("IP4"),
            unicast_address: string_from_str("0.0.0.0"),
        }
    }
}


/// The fields of an origin line, in order, as they are written.
pub open spec fn origin_fields(o: Origin) -> Seq<Seq<char>> {
    seq![
        o.username@,
        decimal(o.session_id as nat),
        decimal(o.session_version as nat),
        o.network_type@,
        o.address_type@,
        o.unicast_address@,
    ]
}

/// An origin line is `o=`, its fields joined with spaces and a line feed;
/// when each text field is a single word, parsing the value gives back the
/// origin that was written.
pub proof fn lemma_origin_line_parses(o: Origin)
    requires
        is_word(o.username@),
        is_word(o.network_type@),
        is_word(o.address_type@),
        is_word(o.unicast_address@),
    ensures
        origin_line(o) == "o="@ + joined_with(origin_fields(o), " "@) + "\n"@,
        origin_from(joined_with(origin_fields(o), " "@)) == Ok::<OriginModel, SdpErrorModel>(o@),
{
    let f = origin_fields(o);
    let sp = " "@;
    lemma_decimal_word(o.session_id as nat);
    lemma_decimal_word(o.session_version as nat);
    lemma_words_joined(f);
    lemma_parse_decimal(o.session_id as nat, u64::MAX as nat);
    lemma_parse_decimal(o.session_version as nat, u64::MAX as nat);
    assert(f.take(1).drop_last() =~= Seq::<Seq<char>>::empty());
    assert(joined_with(f.take(1), sp) == f[0]);
    assert(f.take(2).drop_last() =~= f.take(1));
    assert(f.take(3).drop_last() =~= f.take(2));
    assert(f.take(4).drop_last() =~= f.take(3));
    assert(f.take(5).drop_last() =~= f.take(4));
    assert(f.drop_last() =~= f.take(5));
    assert(joined_with(f.take(2), sp) == f[0] + sp + f[1]);
    assert(joined_with(f.take(3), sp) == f[0] + sp + f[1] + sp + f[2]);
    assert(joined_with(f.take(4), sp) == f[0] + sp + f[1] + sp + f[2] + sp + f[3]);
    assert(joined_with(f.take(5), sp) == f[0] + sp + f[1] + sp + f[2] + sp + f[3] + sp + f[4]);
    assert(joined_with(f, sp) == f[0] + sp + f[1] + sp + f[2] + sp + f[3] + sp + f[4] + sp + f[5]);
    assert(origin_line(o) =~= "o="@ + joined_with(f, sp) + "\n"@);
}

} // verus!
