//! SDP connection data (the `c=` line): the network and address types and
//! the connection address, with its optional TTL and address count.
use crate::address::IpAddress;
use crate::ip_text::{ip_text, ip_to_string, is_ip_char, lemma_ip_text_chars};
use crate::sdp::errors::SdpError;
use crate::sdp::model::{connection_from, outcome_is, ConnectionModel, SdpErrorModel};
use crate::sdp::text::{
    is_digit, is_space, is_word, joined_with, lemma_decimal_digits, lemma_decimal_word,
    lemma_parse_decimal, lemma_pieces_joined, lemma_word_concat, lemma_words_joined,
    parse_unsigned, parse_unsigned_spec, pieces, same_text, split_on, split_words, words,
};
use crate::text::{chars_of, decimal, decimal_chars, push_chars, push_str, string_from_chars};
use vstd::prelude::*;
use vstd::string::*;

verus! {

/// Represents the connection data field (c=) in an SDP message as specified in RFC 4566.
///
/// According to RFC 4566 section 5.7, the connection field has the following format:
/// ```text
/// c=<network-type> <address-type> <connection-address>
/// ```
#[derive(Debug, Clone)]
pub struct Connection {
    pub network_type: String,
    pub address_type: String,
    pub address: IpAddress,
    pub ttl: Option<u8>,
    pub num_addresses: Option<u8>,
}

/// The address text of a connection value: its third word up to the first
/// `/`; `None` when the value has fewer than three words.
pub open spec fn address_text_spec(value: Seq<char>) -> Option<Seq<char>> {
    let w = words(value);
    if w.len() < 3 {
        None
    } else {
        Some(pieces(w[2], '/')[0])
    }
}

/// The text of a connection line: `c=<nettype> <addrtype> <address>`, then
/// `/<ttl>` and `/<count>` where present (the count only after a TTL), then
/// a line feed.
pub open spec fn connection_line(c: Connection) -> Seq<char> {
    "c="@ + c.network_type@ + " "@ + c.address_type@ + " "@ + ip_text(c.address) + address_suffix(c)
        + "\n"@
}

impl Connection {
    /// The address text of a connection value, as the caller is to parse it
    /// into the IP address handed to `parse_with`; `None` when the value
    /// has fewer than three words.
    pub fn address_text(value: &str) -> (r: Option<String>)
        ensures
            match r {
                Some(t) => address_text_spec(value@) == Some(t@),
                None => address_text_spec(value@) is None,
            },
    {
        let chars = chars_of(value);
        let parts = split_words(chars.as_slice());
        if parts.len() < 3 {
            return None;
        }
        let address_parts = split_on(parts[2].as_slice(), '/');
        Some(string_from_chars(address_parts[0].as_slice()))
    }

    /// Parses a connection data string (without the leading "c=") into a
    /// Connection struct according to RFC 4566. `address` is the IP address
    /// that the value's address text parses to, `None` where it is no IP
    /// address.
    pub fn parse_with(value: &str, address: Option<IpAddress>) -> (r: Result<Self, SdpError>)
        ensures
            outcome_is(r, connection_from(value@, address), |c: Connection| c@),
    {
        let chars = chars_of(value);
        let parts = split_words(chars.as_slice());
        if parts.len() < 3 {
            return Err(SdpError::InvalidOriginFormat);
        }
        // Validate network and address types
        Self::validate_network_type(parts[0].as_slice())?;
        Self::validate_address_type(parts[1].as_slice())?;
        // Parse address information
        let (address, ttl, num_addresses) = Self::parse_address_info(parts[2].as_slice(), address)?;
        Ok(Connection {
            network_type: string_from_chars(parts[0].as_slice()),
            address_type: string_from_chars(parts[1].as_slice()),
            address,
            ttl,
            num_addresses,
        })
    }

    /// Validates the network type: it must be "IN" (Internet).
    fn validate_network_type(network_type: &[char]) -> (r: Result<(), SdpError>)
        ensures
            network_type@ == "IN"@ ==> r is Ok,
            network_type@ != "IN"@ ==> r matches Err(SdpError::InvalidNetworkType),
    {
        if !same_text(network_type, "IN") {
            return Err(SdpError::InvalidNetworkType);
        }
        Ok(())
    }

    /// Validates the address type: it must be either "IP4" or "IP6".
    fn validate_address_type(address_type: &[char]) -> (r: Result<(), SdpError>)
        ensures
            address_type@ == "IP4"@ || address_type@ == "IP6"@ ==> r is Ok,
            address_type@ != "IP4"@ && address_type@ != "IP6"@ ==> r matches Err(
                SdpError::InvalidAddressType,
            ),
    {
        if !same_text(address_type, "IP4") && !same_text(address_type, "IP6") {
            return Err(SdpError::InvalidAddressType);
        }
        Ok(())
    }

    /// Reads the connection address `<ip-address>[/<ttl>][/<number-of-addresses>]`;
    /// `address` is what its IP address part parses to.
    fn parse_address_info(address_str: &[char], address: Option<IpAddress>) -> (r: Result<
        (IpAddress, Option<u8>, Option<u8>),
        SdpError,
    >)
        ensures
            ({
                let p = pieces(address_str@, '/');
                if address is None {
                    r matches Err(SdpError::InvalidIpAddress)
                } else if p.len() > 1 && parse_unsigned_spec(p[1], 255) is None {
                    r matches Err(SdpError::InvalidTtl)
                } else if p.len() > 2 && parse_unsigned_spec(p[2], 255) is None {
                    r matches Err(SdpError::InvalidAddressCount)
                } else {
                    r matches Ok((a, ttl, count)) && Some(a) == address && ttl == (if p.len() > 1 {
                        Some(parse_unsigned_spec(p[1], 255).unwrap() as u8)
                    } else {
                        None
                    }) && count == (if p.len() > 2 {
                        Some(parse_unsigned_spec(p[2], 255).unwrap() as u8)
                    } else {
                        None
                    })
                }
            }),
    {
        let parts = split_on(address_str, '/');
        assert(parts@.len() == pieces(address_str@, '/').len());
        let address = match address {
            Some(a) => a,
            None => {
                return Err(SdpError::InvalidIpAddress);
            },
        };
        // Parse TTL if present
        let ttl = if parts.len() > 1 {
            assert(parts@[1]@ == pieces(address_str@, '/')[1]);
            match parse_unsigned(parts[1].as_slice(), 255) {
                Some(v) => Some(v as u8),
                None => {
                    return Err(SdpError::InvalidTtl);
                },
            }
        } else {
            None
        };
        // Parse number of addresses if present
        let num_addresses = if parts.len() > 2 {
            assert(parts@[2]@ == pieces(address_str@, '/')[2]);
            match parse_unsigned(parts[2].as_slice(), 255) {
                Some(v) => Some(v as u8),
                None => {
                    return Err(SdpError::InvalidAddressCount);
                },
            }
        } else {
            None
        };
        Ok((address, ttl, num_addresses))
    }

    /// The connection as an SDP line (see `connection_line`).
    pub fn to_string(&self) -> (s: String)
        ensures
            s@ == connection_line(*self),
    {
        let mut s = String::new();
        push_str(&mut s, "c=");
        push_str(&mut s, self.network_type.as_str());
        push_str(&mut s, " ");
        push_str(&mut s, self.address_type.as_str());
        push_str(&mut s, " ");
        let ip = ip_to_string(&self.address);
        push_str(&mut s, ip.as_str());
        match self.ttl {
            Some(t) => {
                push_str(&mut s, "/");
                let digits = decimal_chars(t as u64);
                push_chars(&mut s, digits.as_slice());
                match self.num_addresses {
                    Some(n) => {
                        push_str(&mut s, "/");
                        let digits = decimal_chars(n as u64);
                        push_chars(&mut s, digits.as_slice());
                    },
                    None => {},
                }
            },
            None => {},
        }
        push_str(&mut s, "\n");
        assert(s@ =~= connection_line(*self));
        s
    }
}


/// The parts of a connection address, as they are written between slashes:
/// the address, then the TTL and the address count where present (the
/// count only after a TTL).
pub open spec fn address_parts(c: Connection) -> Seq<Seq<char>> {
    seq![ip_text(c.address)] + match c.ttl {
        Some(t) => seq![decimal(t as nat)] + match c.num_addresses {
            Some(n) => seq![decimal(n as nat)],
            None => Seq::empty(),
        },
        None => Seq::empty(),
    }
}

/// The value part of a connection line: network type, address type and the
/// address parts joined with slashes, separated by spaces.
pub open spec fn connection_value(c: Connection) -> Seq<char> {
    joined_with(
        seq![c.network_type@, c.address_type@, joined_with(address_parts(c), "/"@)],
        " "@,
    )
}

proof fn lemma_no_space_no_slash_digits(v: nat)
    ensures
        is_word(decimal(v)),
        forall|i: int| 0 <= i < decimal(v).len() ==> #[trigger] decimal(v)[i] != '/',
{
    lemma_decimal_word(v);
    lemma_decimal_digits(v);
    assert forall|i: int| 0 <= i < decimal(v).len() implies #[trigger] decimal(v)[i] != '/' by {
        assert(is_digit(decimal(v)[i]));
    }
}

/// The text after the address in a connection line: `/<ttl>` and
/// `/<count>` where present.
pub open spec fn address_suffix(c: Connection) -> Seq<char> {
    match c.ttl {
        Some(t) => "/"@ + decimal(t as nat) + match c.num_addresses {
            Some(n) => "/"@ + decimal(n as nat),
            None => Seq::empty(),
        },
        None => Seq::empty(),
    }
}

/// The address parts joined with slashes are the address text and its
/// suffix, form one word, and are read back as those parts.
pub proof fn lemma_address_word(c: Connection)
    requires
        c.ttl is None ==> c.num_addresses is None,
    ensures
        joined_with(address_parts(c), "/"@) == ip_text(c.address) + address_suffix(c),
        is_word(joined_with(address_parts(c), "/"@)),
        pieces(joined_with(address_parts(c), "/"@), '/') == address_parts(c),
{
    reveal_strlit("/");
    let ip = ip_text(c.address);
    let parts = address_parts(c);
    let slash = "/"@;
    assert(slash =~= seq!['/']);
    lemma_ip_text_chars(c.address);
    assert forall|i: int| 0 <= i < ip.len() implies !is_space(#[trigger] ip[i]) && ip[i] != '/' by {
        assert(is_ip_char(ip[i]));
    }
    assert(is_word(ip));
    assert(is_word(slash));
    let aw = joined_with(parts, slash);
    match c.ttl {
        Some(t) => {
            lemma_no_space_no_slash_digits(t as nat);
            let tt = decimal(t as nat);
            lemma_word_concat(ip, slash);
            lemma_word_concat(ip + slash, tt);
            match c.num_addresses {
                Some(n) => {
                    lemma_no_space_no_slash_digits(n as nat);
                    let nn = decimal(n as nat);
                    assert(parts =~= seq![ip, tt, nn]);
                    assert(parts.drop_last() =~= seq![ip, tt]);
                    assert(parts.drop_last().drop_last() =~= seq![ip]);
                    assert(joined_with(parts.drop_last().drop_last(), slash) == ip);
                    assert(joined_with(parts.drop_last(), slash) == ip + slash + tt);
                    assert(aw == ip + slash + tt + slash + nn);
                    lemma_word_concat(ip + slash + tt, slash);
                    lemma_word_concat(ip + slash + tt + slash, nn);
                    assert(aw =~= ip + address_suffix(c));
                },
                None => {
                    assert(parts =~= seq![ip, tt]);
                    assert(parts.drop_last() =~= seq![ip]);
                    assert(joined_with(parts.drop_last(), slash) == ip);
                    assert(aw == ip + slash + tt);
                    assert(aw =~= ip + address_suffix(c));
                },
            }
        },
        None => {
            assert(parts =~= seq![ip]);
            assert(aw == ip);
            assert(aw =~= ip + address_suffix(c));
        },
    }
    assert forall|k: int, i: int| 0 <= k < parts.len() && 0 <= i < parts[k].len() implies #[trigger] parts[k][i] != '/' by {
        if k == 0 {
            assert(parts[k] == ip);
        }
    }
    lemma_pieces_joined(parts, '/');
}

/// A connection line is `c=`, its value part and a line feed; when the
/// network type is "IN", the address type "IP4" or "IP6", and an address
/// count comes only with a TTL, the address text of that value is the
/// text of the address, and parsing the value with that address gives back
/// the connection that was written.
pub proof fn lemma_connection_line_parses(c: Connection)
    requires
        c.network_type@ == "IN"@,
        c.address_type@ == "IP4"@ || c.address_type@ == "IP6"@,
        c.ttl is None ==> c.num_addresses is None,
    ensures
        connection_line(c) == "c="@ + connection_value(c) + "\n"@,
        address_text_spec(connection_value(c)) == Some(ip_text(c.address)),
        connection_from(connection_value(c), Some(c.address)) == Ok::<
            ConnectionModel,
            SdpErrorModel,
        >(c@),
{
    reveal_strlit("IN");
    reveal_strlit("IP4");
    reveal_strlit("IP6");
    let sp = " "@;
    let parts = address_parts(c);
    let aw = joined_with(parts, "/"@);
    lemma_address_word(c);
    match c.ttl {
        Some(t) => {
            lemma_parse_decimal(t as nat, 255);
            match c.num_addresses {
                Some(n) => lemma_parse_decimal(n as nat, 255),
                None => {},
            }
        },
        None => {},
    }
    let f = seq![c.network_type@, c.address_type@, aw];
    assert(is_word(c.network_type@));
    assert(is_word(c.address_type@));
    assert forall|i: int| 0 <= i < f.len() implies is_word(#[trigger] f[i]) by {}
    lemma_words_joined(f);
    assert(f.drop_last() =~= seq![c.network_type@, c.address_type@]);
    assert(f.drop_last().drop_last() =~= seq![c.network_type@]);
    assert(joined_with(f.drop_last().drop_last(), sp) == c.network_type@);
    assert(joined_with(f.drop_last(), sp) == c.network_type@ + sp + c.address_type@);
    assert(connection_value(c) == c.network_type@ + sp + c.address_type@ + sp + aw);
    assert(connection_line(c) =~= "c="@ + connection_value(c) + "\n"@);
}

} // verus!
