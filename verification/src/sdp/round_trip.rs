//! Reading back what was written: a session description's text, parsed
//! with the addresses of its connection lines, gives back the session
//! description.
use crate::sdp::attribute::{attribute_line, attribute_value, lemma_attribute_line_parses, Attribute};
use crate::sdp::model::{
    connection_from, first_equals, line_step, media_from, origin_check, origin_from, timing_from,
    parse_session_spec, session_check, version_from, OriginModel, new_session_model, parse_lines, parse_step, split_line_spec,
    AttributeModel, ConnectionModel, MediaModel, ParseModel, SdpErrorModel, SessionModel,
};
use crate::sdp::connection::{
    address_parts, connection_line, connection_value, lemma_address_word, lemma_connection_line_parses, Connection,
};
use crate::sdp::media_description::{
    attribute_lines_crlf, lemma_media_line_parses, media_fields, media_line, MediaDescription,
};
use crate::sdp::origin::{lemma_origin_line_parses, origin_fields, origin_line, Origin};
use crate::sdp::session_description::{
    media_session_text, media_texts, session_text, signed_decimal, SessionDescription,
};
use crate::sdp::text::{
    is_digit, is_word, joined_with, lemma_concat_no_line_end, lemma_decimal_digits,
    lemma_decimal_word, lemma_joined_no_line_end, lemma_lines_with_newlines, lines_of, lemma_parse_decimal, lemma_word_no_line_end,
    lemma_with_newlines_concat, no_line_end, no_newline, strip_cr, with_newlines, crlf,
};
use crate::sdp::timing::{lemma_timing_line_parses, timing_line, timing_value, Timing};
use crate::text::decimal;
use crate::address::IpAddress;
use vstd::prelude::*;

verus! {

/// Parsing lines one after the other from a parse state, stopping at the
/// first error.
#[verifier::opaque]
pub open spec fn parse_run(
    st: Result<ParseModel, SdpErrorModel>,
    ls: Seq<Seq<char>>,
    addresses: Seq<Option<IpAddress>>,
) -> Result<ParseModel, SdpErrorModel>
    decreases ls.len(),
{
    if ls.len() == 0 {
        st
    } else {
        match parse_run(st, ls.drop_last(), addresses) {
            Err(e) => Err(e),
            Ok(s) => parse_step(s, ls.last(), addresses),
        }
    }
}

/// Parsing the first `n` lines is running the parse over them from the
/// state of a new session description.
proof fn lemma_parse_lines_run(
    sdp_type: crate::sdp::sdp_type::SdpType,
    lines: Seq<Seq<char>>,
    addresses: Seq<Option<IpAddress>>,
    n: nat,
)
    requires
        n <= lines.len(),
    ensures
        parse_lines(sdp_type, lines, addresses, n) == parse_run(
            Ok(ParseModel { session: new_session_model(sdp_type), current: None, connections: 0 }),
            lines.take(n as int),
            addresses,
        ),
    decreases n,
{
    reveal(parse_run);
    if n > 0 {
        lemma_parse_lines_run(sdp_type, lines, addresses, (n - 1) as nat);
        assert(lines.take(n as int).drop_last() =~= lines.take(n - 1));
        assert(lines.take(n as int).last() == lines[n - 1]);
    } else {
        assert(lines.take(0) =~= Seq::<Seq<char>>::empty());
    }
}

/// Running the parse over two lists of lines is running it over the first
/// and then, from where that left off, over the second.
proof fn lemma_run_concat(
    st: Result<ParseModel, SdpErrorModel>,
    x: Seq<Seq<char>>,
    y: Seq<Seq<char>>,
    addresses: Seq<Option<IpAddress>>,
)
    ensures
        parse_run(st, x + y, addresses) == parse_run(parse_run(st, x, addresses), y, addresses),
    decreases y.len(),
{
    reveal(parse_run);
    if y.len() == 0 {
        assert(x + y =~= x);
    } else {
        assert((x + y).drop_last() =~= x + y.drop_last());
        assert((x + y).last() == y.last());
        lemma_run_concat(st, x, y.drop_last(), addresses);
    }
}

/// A line of type `kind` with `value`: the type character, `=`, the value.
pub open spec fn typed(kind: char, value: Seq<char>) -> Seq<char> {
    seq![kind, '='] + value
}

/// A typed line is split into its type and its value, and parsing it
/// applies that type and value.
proof fn lemma_typed_step(
    st: ParseModel,
    kind: char,
    value: Seq<char>,
    addresses: Seq<Option<IpAddress>>,
)
    requires
        kind != '=',
        (kind as u32) < 0x80,
    ensures
        parse_step(st, typed(kind, value), addresses) == line_step(
            st,
            kind,
            value,
            crate::sdp::model::address_at(addresses, st.connections),
        ),
{
    let l = typed(kind, value);
    assert(l[1] == '=');
    assert(l[0] == kind);
    assert(exists|i: int| 0 <= i < l.len() && l[i] == '=');
    let c = choose|i: int| 0 <= i < l.len() && l[i] == '=' && forall|j: int| 0 <= j < i ==> l[j] != '=';
    assert(0 <= c < l.len() && l[c] == '=' && forall|j: int| 0 <= j < c ==> l[j] != '=');
    if c > 1 {
        assert(l[1] != '=');
    }
    assert(c == 1);
    assert(first_equals(l) == Some(1int));
    assert(l.skip(2) =~= value);
}


/// Once the parse has failed, further lines leave the error as it is.
proof fn lemma_run_err(e: SdpErrorModel, ls: Seq<Seq<char>>, addresses: Seq<Option<IpAddress>>)
    ensures
        parse_run(Err(e), ls, addresses) == Err::<ParseModel, SdpErrorModel>(e),
    decreases ls.len(),
{
    reveal(parse_run);
    if ls.len() > 0 {
        lemma_run_err(e, ls.drop_last(), addresses);
    }
}

/// The line of an attribute, without its line feed.
pub open spec fn attribute_item(a: Attribute) -> Seq<char> {
    typed('a', attribute_value(a@.0, a@.1))
}

/// The lines of attributes, in order.
pub open spec fn attribute_items(v: Seq<Attribute>) -> Seq<Seq<char>> {
    v.map_values(|a: Attribute| attribute_item(a))
}

/// Whether an attribute reads back as written: its name holds no `:`, and
/// its line holds no line feed.
pub open spec fn plain_attribute(a: Attribute) -> bool {
    &&& forall|i: int| 0 <= i < a.name@.len() ==> #[trigger] a.name@[i] != ':'
    &&& no_newline(attribute_value(a@.0, a@.1))
}

/// The models of attributes.
pub open spec fn attribute_models(v: Seq<Attribute>) -> Seq<AttributeModel> {
    v.map_values(|a: Attribute| a@)
}

/// The parse state after attributes: they are added to the media
/// description being read, or to the session when there is none.
pub open spec fn with_attributes(st: ParseModel, v: Seq<Attribute>) -> ParseModel {
    match st.current {
        Some(m) => ParseModel {
            current: Some(MediaModel { attributes: m.attributes + attribute_models(v), ..m }),
            ..st
        },
        None => ParseModel {
            session: SessionModel {
                attributes: st.session.attributes + attribute_models(v),
                ..st.session
            },
            ..st
        },
    }
}

/// Parsing attribute lines adds the attributes, in order.
proof fn lemma_attributes_run(st: ParseModel, v: Seq<Attribute>, addresses: Seq<Option<IpAddress>>)
    requires
        forall|k: int| 0 <= k < v.len() ==> plain_attribute(#[trigger] v[k]),
    ensures
        parse_run(Ok(st), attribute_items(v), addresses) == Ok::<ParseModel, SdpErrorModel>(
            with_attributes(st, v),
        ),
    decreases v.len(),
{
    if v.len() == 0 {
        assert(attribute_items(v) =~= Seq::<Seq<char>>::empty());
        lemma_run_empty(Ok(st), addresses);
        assert(st.session.attributes + attribute_models(v) =~= st.session.attributes);
        match st.current {
            Some(m) => {
                assert(m.attributes + attribute_models(v) =~= m.attributes);
            },
            None => {},
        }
    } else {
        let front = v.drop_last();
        let a = v.last();
        assert(forall|k: int| 0 <= k < front.len() ==> front[k] == v[k]);
        lemma_attributes_run(st, front, addresses);
        assert(attribute_items(v).drop_last() =~= attribute_items(front));
        assert(attribute_items(v).last() == attribute_item(a));
        assert(plain_attribute(v[v.len() - 1]));
        lemma_attribute_line_parses(a@.0, a@.1);
        let mid = with_attributes(st, front);
        lemma_typed_step(mid, 'a', attribute_value(a@.0, a@.1), addresses);
        lemma_run_one(mid, attribute_item(a), addresses);
        assert(attribute_items(front) + seq![attribute_item(a)] =~= attribute_items(v));
        lemma_run_concat(Ok(st), attribute_items(front), seq![attribute_item(a)], addresses);
        assert(attribute_models(front).push(a@) =~= attribute_models(v));
        match st.current {
            Some(m) => {
                assert(m.attributes + attribute_models(front) + seq![a@] =~= m.attributes
                    + attribute_models(v));
            },
            None => {
                assert(st.session.attributes + attribute_models(front) + seq![a@]
                    =~= st.session.attributes + attribute_models(v));
            },
        }
    }
}


/// Whether a connection reads back as written: network type "IN", address
/// type "IP4" or "IP6", and an address count only with a TTL.
pub open spec fn plain_connection(c: Connection) -> bool {
    &&& c.network_type@ == "IN"@
    &&& (c.address_type@ == "IP4"@ || c.address_type@ == "IP6"@)
    &&& (c.ttl is None ==> c.num_addresses is None)
}

/// The line of an optional connection.
pub open spec fn connection_items(c: Option<Connection>) -> Seq<Seq<char>> {
    match c {
        Some(x) => seq![typed('c', connection_value(x))],
        None => Seq::empty(),
    }
}

/// The address of an optional connection, as a list of zero or one.
pub open spec fn connection_addresses(c: Option<Connection>) -> Seq<Option<IpAddress>> {
    match c {
        Some(x) => seq![Some(x.address)],
        None => Seq::empty(),
    }
}

/// The lines of a media description: its `m=` line, its connection line if
/// any, then its attribute lines.
pub open spec fn media_items(m: MediaDescription) -> Seq<Seq<char>> {
    seq![typed('m', joined_with(media_fields(m), " "@))] + connection_items(m.connection)
        + attribute_items(m.attributes@)
}

/// Whether a media description reads back as written: its media type,
/// protocol and formats are single words and it has a format, its
/// connection and attributes read back as written.
pub open spec fn plain_media(m: MediaDescription) -> bool {
    &&& is_word(m.media_type@)
    &&& is_word(m.protocol@)
    &&& m.formats@.len() > 0
    &&& (forall|i: int| 0 <= i < m.formats@.len() ==> is_word(#[trigger] m.formats@[i]@))
    &&& (m.connection matches Some(c) ==> plain_connection(c))
    &&& (forall|k: int| 0 <= k < m.attributes@.len() ==> plain_attribute(#[trigger] m.attributes@[k]))
}

/// The parse state after a media description: the one being read before
/// is closed, and this one is read.
pub open spec fn with_media(st: ParseModel, m: MediaDescription) -> ParseModel {
    ParseModel {
        session: match st.current {
            Some(prev) => SessionModel { media: st.session.media.push(prev), ..st.session },
            None => st.session,
        },
        current: Some(m@),
        connections: st.connections + connection_addresses(m.connection).len(),
    }
}

/// What an `m=` line does, in terms of what its value reads as.
proof fn lemma_step_media(st: ParseModel, value: Seq<char>, address: Option<IpAddress>)
    ensures
        line_step(st, 'm', value, address) == match media_from(value) {
            Ok(m) => Ok(
                ParseModel {
                    session: match st.current {
                        Some(prev) => SessionModel { media: st.session.media.push(prev), ..st.session },
                        None => st.session,
                    },
                    current: Some(m),
                    ..st
                },
            ),
            Err(e) => Err(e),
        },
{
}

/// What a `c=` line does, in terms of what its value reads as.
proof fn lemma_step_connection(st: ParseModel, value: Seq<char>, address: Option<IpAddress>)
    ensures
        line_step(st, 'c', value, address) == match connection_from(value, address) {
            Ok(c) => match st.current {
                Some(m) => Ok(
                    ParseModel {
                        current: Some(MediaModel { connection: Some(c), ..m }),
                        connections: st.connections + 1,
                        ..st
                    },
                ),
                None => Ok(
                    ParseModel {
                        session: SessionModel { connection: Some(c), ..st.session },
                        connections: st.connections + 1,
                        ..st
                    },
                ),
            },
            Err(e) => Err(e),
        },
{
}

/// The state after a media description's `m=` line.
pub open spec fn with_media_line(st: ParseModel, m: MediaDescription) -> ParseModel {
    ParseModel {
        session: match st.current {
            Some(prev) => SessionModel { media: st.session.media.push(prev), ..st.session },
            None => st.session,
        },
        current: Some(MediaModel { connection: None, attributes: Seq::empty(), ..m@ }),
        ..st
    }
}

/// Running the parse over no line leaves the state as it is.
proof fn lemma_run_empty(st: Result<ParseModel, SdpErrorModel>, addresses: Seq<Option<IpAddress>>)
    ensures
        parse_run(st, Seq::<Seq<char>>::empty(), addresses) == st,
{
    reveal(parse_run);
}

/// Running the parse over one line is one parse step.
proof fn lemma_run_one(st: ParseModel, line: Seq<char>, addresses: Seq<Option<IpAddress>>)
    ensures
        parse_run(Ok(st), seq![line], addresses) == parse_step(st, line, addresses),
{
    reveal(parse_run);
    assert(parse_run(Ok(st), Seq::<Seq<char>>::empty(), addresses) == Ok::<
        ParseModel,
        SdpErrorModel,
    >(st));
    assert(seq![line].drop_last() =~= Seq::<Seq<char>>::empty());
    assert(seq![line].last() == line);
}

proof fn lemma_media_line_run(st: ParseModel, m: MediaDescription, addresses: Seq<Option<IpAddress>>)
    requires
        plain_media(m),
    ensures
        parse_run(Ok(st), seq![typed('m', joined_with(media_fields(m), " "@))], addresses) == Ok::<
            ParseModel,
            SdpErrorModel,
        >(with_media_line(st, m)),
{
    let v = joined_with(media_fields(m), " "@);
    let bare = MediaModel { connection: None, attributes: Seq::empty(), ..m@ };
    assert(media_from(v) == Ok::<MediaModel, SdpErrorModel>(bare)) by {
        lemma_media_line_parses(m);
    }
    let addr = crate::sdp::model::address_at(addresses, st.connections);
    assert(line_step(st, 'm', v, addr) == Ok::<ParseModel, SdpErrorModel>(with_media_line(st, m)))
        by {
        lemma_step_media(st, v, addr);
    }
    lemma_typed_step(st, 'm', v, addresses);
    lemma_run_one(st, typed('m', v), addresses);
}

/// The state after a connection line, with the connection read.
pub open spec fn with_connection(st: ParseModel, c: Connection) -> ParseModel {
    match st.current {
        Some(m) => ParseModel {
            current: Some(MediaModel { connection: Some(c@), ..m }),
            connections: st.connections + 1,
            ..st
        },
        None => ParseModel {
            session: SessionModel { connection: Some(c@), ..st.session },
            connections: st.connections + 1,
            ..st
        },
    }
}

/// Parsing a connection line, with its address next in line, reads the
/// connection.
proof fn lemma_connection_run(st: ParseModel, c: Connection, addresses: Seq<Option<IpAddress>>)
    requires
        plain_connection(c),
        st.connections < addresses.len(),
        addresses[st.connections as int] == Some(c.address),
    ensures
        parse_run(Ok(st), seq![typed('c', connection_value(c))], addresses) == Ok::<
            ParseModel,
            SdpErrorModel,
        >(with_connection(st, c)),
{
    let v = connection_value(c);
    assert(connection_from(v, Some(c.address)) == Ok::<ConnectionModel, SdpErrorModel>(c@)) by {
        lemma_connection_line_parses(c);
    }
    let addr = crate::sdp::model::address_at(addresses, st.connections);
    assert(addr == Some(c.address));
    assert(line_step(st, 'c', v, addr) == Ok::<ParseModel, SdpErrorModel>(with_connection(st, c)))
        by {
        lemma_step_connection(st, v, addr);
    }
    lemma_typed_step(st, 'c', v, addresses);
    lemma_run_one(st, typed('c', v), addresses);
}

/// Parsing the lines of a media description, with the address of its
/// connection next in line, closes the one read before and reads it.
proof fn lemma_media_run(st: ParseModel, m: MediaDescription, addresses: Seq<Option<IpAddress>>)
    requires
        plain_media(m),
        st.connections + connection_addresses(m.connection).len() <= addresses.len(),
        addresses.subrange(
            st.connections as int,
            (st.connections + connection_addresses(m.connection).len()) as int,
        ) == connection_addresses(m.connection),
    ensures
        parse_run(Ok(st), media_items(m), addresses) == Ok::<ParseModel, SdpErrorModel>(
            with_media(st, m),
        ),
{
    let head = seq![typed('m', joined_with(media_fields(m), " "@))];
    let conn = connection_items(m.connection);
    let attrs = attribute_items(m.attributes@);
    lemma_run_concat(Ok(st), head + conn, attrs, addresses);
    lemma_run_concat(Ok(st), head, conn, addresses);
    lemma_media_line_run(st, m, addresses);
    let s1 = with_media_line(st, m);
    let s2 = match m.connection {
        Some(c) => with_connection(s1, c),
        None => s1,
    };
    match m.connection {
        Some(c) => {
            assert(addresses[st.connections as int] == addresses.subrange(
                st.connections as int,
                st.connections + 1int,
            )[0]);
            lemma_connection_run(s1, c, addresses);
        },
        None => {
            assert(conn =~= Seq::<Seq<char>>::empty());
        },
    }
    assert(parse_run(Ok(s1), conn, addresses) == Ok::<ParseModel, SdpErrorModel>(s2));
    lemma_attributes_run(s2, m.attributes@, addresses);
    assert(Seq::<AttributeModel>::empty() + attribute_models(m.attributes@) =~= m@.attributes);
}


/// The lines of media descriptions, one after the other.
pub open spec fn media_list_items(v: Seq<MediaDescription>) -> Seq<Seq<char>>
    decreases v.len(),
{
    if v.len() == 0 {
        Seq::empty()
    } else {
        media_list_items(v.drop_last()) + media_items(v.last())
    }
}

/// The addresses of the connection lines of media descriptions, in order.
pub open spec fn media_list_addresses(v: Seq<MediaDescription>) -> Seq<Option<IpAddress>>
    decreases v.len(),
{
    if v.len() == 0 {
        Seq::empty()
    } else {
        media_list_addresses(v.drop_last()) + connection_addresses(v.last().connection)
    }
}

/// The parse state after media descriptions, one after the other.
pub open spec fn with_media_list(st: ParseModel, v: Seq<MediaDescription>) -> ParseModel
    decreases v.len(),
{
    if v.len() == 0 {
        st
    } else {
        with_media(with_media_list(st, v.drop_last()), v.last())
    }
}

/// The models of media descriptions.
pub open spec fn media_models(v: Seq<MediaDescription>) -> Seq<MediaModel> {
    v.map_values(|m: MediaDescription| m@)
}

/// Parsing the lines of media descriptions, with the addresses of their
/// connections next in line, reads them one after the other.
proof fn lemma_media_list_run(
    st: ParseModel,
    v: Seq<MediaDescription>,
    addresses: Seq<Option<IpAddress>>,
)
    requires
        forall|k: int| 0 <= k < v.len() ==> plain_media(#[trigger] v[k]),
        st.connections + media_list_addresses(v).len() <= addresses.len(),
        addresses.subrange(
            st.connections as int,
            (st.connections + media_list_addresses(v).len()) as int,
        ) == media_list_addresses(v),
    ensures
        parse_run(Ok(st), media_list_items(v), addresses) == Ok::<ParseModel, SdpErrorModel>(
            with_media_list(st, v),
        ),
        with_media_list(st, v).connections == st.connections + media_list_addresses(v).len(),
    decreases v.len(),
{
    if v.len() == 0 {
        lemma_run_empty(Ok(st), addresses);
    } else {
        let front = v.drop_last();
        let m = v.last();
        let k = st.connections as int;
        let n = media_list_addresses(front).len() as int;
        let c = connection_addresses(m.connection).len() as int;
        assert(forall|i: int| 0 <= i < front.len() ==> front[i] == v[i]);
        assert(plain_media(v[v.len() - 1]));
        assert(addresses.subrange(k, k + n) =~= addresses.subrange(k, k + n + c).subrange(0, n));
        assert(addresses.subrange(k + n, k + n + c) =~= addresses.subrange(k, k + n + c).subrange(
            n,
            n + c,
        ));
        assert(media_list_addresses(v).subrange(0, n) =~= media_list_addresses(front));
        assert(media_list_addresses(v).subrange(n, n + c) =~= connection_addresses(m.connection));
        lemma_media_list_run(st, front, addresses);
        lemma_run_concat(Ok(st), media_list_items(front), media_items(m), addresses);
        lemma_media_run(with_media_list(st, front), m, addresses);
    }
}

/// From a state reading no media description, media descriptions one
/// after the other leave all but the last closed, in order, and the last
/// being read; nothing else of the session changes.
proof fn lemma_media_list_state(st: ParseModel, v: Seq<MediaDescription>)
    requires
        st.current is None,
        v.len() > 0,
    ensures
        with_media_list(st, v).current == Some(v.last()@),
        with_media_list(st, v).session == (SessionModel {
            media: st.session.media + media_models(v.drop_last()),
            ..st.session
        }),
    decreases v.len(),
{
    let front = v.drop_last();
    if front.len() == 0 {
        assert(with_media_list(st, front) == st);
        assert(st.session.media + media_models(front) =~= st.session.media);
        assert(with_media_list(st, v) == with_media(st, v.last()));
        assert(st.session == (SessionModel { media: st.session.media, ..st.session }));
    } else {
        lemma_media_list_state(st, front);
        assert(front.last() == v[v.len() - 2]);
        assert(front.drop_last() =~= v.drop_last().drop_last());
        assert((st.session.media + media_models(front.drop_last())).push(front.last()@)
            =~= st.session.media + media_models(front));
        assert(with_media_list(st, v) == with_media(with_media_list(st, front), v.last()));
    }
}


/// What a `v=` line does, in terms of what its value reads as.
proof fn lemma_step_version(st: ParseModel, value: Seq<char>, address: Option<IpAddress>)
    ensures
        line_step(st, 'v', value, address) == match version_from(value) {
            Some(v) => Ok(ParseModel { session: SessionModel { version: v, ..st.session }, ..st }),
            None => Err(SdpErrorModel::InvalidVersion),
        },
{
}

/// What an `o=` line does, in terms of what its value reads as.
proof fn lemma_step_origin(st: ParseModel, value: Seq<char>, address: Option<IpAddress>)
    ensures
        line_step(st, 'o', value, address) == match origin_from(value) {
            Ok(o) => Ok(ParseModel { session: SessionModel { origin: o, ..st.session }, ..st }),
            Err(e) => Err(e),
        },
{
}

/// What an `s=` line does.
proof fn lemma_step_name(st: ParseModel, value: Seq<char>, address: Option<IpAddress>)
    ensures
        line_step(st, 's', value, address) == Ok::<ParseModel, SdpErrorModel>(
            ParseModel { session: SessionModel { session_name: value, ..st.session }, ..st },
        ),
{
}

/// What a `t=` line does, in terms of what its value reads as.
proof fn lemma_step_timing(st: ParseModel, value: Seq<char>, address: Option<IpAddress>)
    ensures
        line_step(st, 't', value, address) == match timing_from(value) {
            Ok(t) => Ok(ParseModel { session: SessionModel { timing: t, ..st.session }, ..st }),
            Err(e) => Err(e),
        },
{
}

/// The `v=`, `o=` and `s=` lines of a session description.
pub open spec fn opening_items(s: SessionDescription) -> Seq<Seq<char>> {
    seq![
        typed('v', signed_decimal(s.version as int)),
        typed('o', joined_with(origin_fields(s.origin), " "@)),
        typed('s', s.session_name@),
    ]
}

/// The parse state after the opening lines.
pub open spec fn with_opening(st: ParseModel, s: SessionDescription) -> ParseModel {
    ParseModel {
        session: SessionModel {
            version: s.version,
            origin: s.origin@,
            session_name: s.session_name@,
            ..st.session
        },
        ..st
    }
}

proof fn lemma_version_run(st: ParseModel, addresses: Seq<Option<IpAddress>>)
    ensures
        parse_run(Ok(st), seq![typed('v', signed_decimal(0))], addresses) == Ok::<
            ParseModel,
            SdpErrorModel,
        >(ParseModel { session: SessionModel { version: 0, ..st.session }, ..st }),
{
    let addr = crate::sdp::model::address_at(addresses, st.connections);
    let vv = signed_decimal(0);
    assert(vv == decimal(0));
    assert(version_from(vv) == Some(0i32)) by {
        lemma_parse_decimal(0, 0x7fff_ffff);
        lemma_decimal_digits(0);
        assert(is_digit(vv[0]));
    }
    lemma_step_version(st, vv, addr);
    lemma_typed_step(st, 'v', vv, addresses);
    lemma_run_one(st, typed('v', vv), addresses);
}

/// An `o=` line whose value reads as an origin sets the origin.
proof fn lemma_origin_value_run(
    st: ParseModel,
    value: Seq<char>,
    om: OriginModel,
    addresses: Seq<Option<IpAddress>>,
)
    requires
        origin_from(value) == Ok::<OriginModel, SdpErrorModel>(om),
    ensures
        parse_run(Ok(st), seq![typed('o', value)], addresses) == Ok::<ParseModel, SdpErrorModel>(
            ParseModel { session: SessionModel { origin: om, ..st.session }, ..st },
        ),
{
    let addr = crate::sdp::model::address_at(addresses, st.connections);
    lemma_step_origin(st, value, addr);
    lemma_typed_step(st, 'o', value, addresses);
    lemma_run_one(st, typed('o', value), addresses);
}

proof fn lemma_origin_run(st: ParseModel, o: Origin, addresses: Seq<Option<IpAddress>>)
    requires
        is_word(o.username@),
        is_word(o.unicast_address@),
        origin_check(o@) is Ok,
    ensures
        parse_run(Ok(st), seq![typed('o', joined_with(origin_fields(o), " "@))], addresses) == Ok::<
            ParseModel,
            SdpErrorModel,
        >(ParseModel { session: SessionModel { origin: o@, ..st.session }, ..st }),
{
    let ov = joined_with(origin_fields(o), " "@);
    assert(origin_from(ov) == Ok::<OriginModel, SdpErrorModel>(o@)) by {
        reveal_strlit("IN");
        reveal_strlit("IP4");
        reveal_strlit("IP6");
        lemma_origin_line_parses(o);
    }
    lemma_origin_value_run(st, ov, o@, addresses);
}

proof fn lemma_name_run(st: ParseModel, name: Seq<char>, addresses: Seq<Option<IpAddress>>)
    ensures
        parse_run(Ok(st), seq![typed('s', name)], addresses) == Ok::<ParseModel, SdpErrorModel>(
            ParseModel { session: SessionModel { session_name: name, ..st.session }, ..st },
        ),
{
    let addr = crate::sdp::model::address_at(addresses, st.connections);
    lemma_step_name(st, name, addr);
    lemma_typed_step(st, 's', name, addresses);
    lemma_run_one(st, typed('s', name), addresses);
}

/// Parsing the opening lines of a session description of version 0 whose
/// origin's user name and address are single words and whose origin
/// validates reads its version, origin and name.
proof fn lemma_opening_run(st: ParseModel, s: SessionDescription, addresses: Seq<Option<IpAddress>>)
    requires
        s.version == 0,
        is_word(s.origin.username@),
        is_word(s.origin.unicast_address@),
        origin_check(s.origin@) is Ok,
    ensures
        parse_run(Ok(st), opening_items(s), addresses) == Ok::<ParseModel, SdpErrorModel>(
            with_opening(st, s),
        ),
{
    let a = seq![typed('v', signed_decimal(0))];
    let b = seq![typed('o', joined_with(origin_fields(s.origin), " "@))];
    let c = seq![typed('s', s.session_name@)];
    let s1 = ParseModel { session: SessionModel { version: 0, ..st.session }, ..st };
    let s2 = ParseModel { session: SessionModel { origin: s.origin@, ..s1.session }, ..s1 };
    lemma_version_run(st, addresses);
    lemma_origin_run(s1, s.origin, addresses);
    lemma_name_run(s2, s.session_name@, addresses);
    assert(opening_items(s) =~= a + b + c);
    lemma_run_concat(Ok(st), a + b, c, addresses);
    lemma_run_concat(Ok(st), a, b, addresses);
}

/// Parsing the timing line of a timing reads it.
proof fn lemma_timing_run(st: ParseModel, t: Timing, addresses: Seq<Option<IpAddress>>)
    ensures
        parse_run(Ok(st), seq![typed('t', timing_value(t))], addresses) == Ok::<
            ParseModel,
            SdpErrorModel,
        >(ParseModel { session: SessionModel { timing: t, ..st.session }, ..st }),
{
    let addr = crate::sdp::model::address_at(addresses, st.connections);
    assert(timing_from(timing_value(t)) == Ok::<Timing, SdpErrorModel>(t)) by {
        lemma_timing_line_parses(t);
    }
    lemma_step_timing(st, timing_value(t), addr);
    lemma_typed_step(st, 't', timing_value(t), addresses);
    lemma_run_one(st, typed('t', timing_value(t)), addresses);
}


/// The session-level lines of a session description: the opening lines,
/// the connection line if any, the timing line and the attribute lines.
pub open spec fn session_level_items(s: SessionDescription) -> Seq<Seq<char>> {
    opening_items(s) + connection_items(s.connection) + seq![typed('t', timing_value(s.timing))]
        + attribute_items(s.attributes@)
}

/// The lines of a session description, without their line ends.
pub open spec fn session_items(s: SessionDescription) -> Seq<Seq<char>> {
    session_level_items(s) + media_list_items(s.media@)
}

/// The addresses of a session description's connection lines, in the order
/// the lines come: the session's, then each media description's.
pub open spec fn session_addresses(s: SessionDescription) -> Seq<Option<IpAddress>> {
    connection_addresses(s.connection) + media_list_addresses(s.media@)
}

/// Whether a session description reads back as written: it validates; its
/// origin's user name and address are single words; its name holds no
/// line feed; and its connection,
/// attributes and media descriptions read back as written.
pub open spec fn plain_session(s: SessionDescription) -> bool {
    &&& session_check(s@) is Ok
    &&& is_word(s.origin.username@)
    &&& is_word(s.origin.unicast_address@)
    &&& no_newline(s.session_name@)
    &&& (s.connection matches Some(c) ==> plain_connection(c))
    &&& (forall|k: int| 0 <= k < s.attributes@.len() ==> plain_attribute(#[trigger] s.attributes@[k]))
    &&& (forall|k: int| 0 <= k < s.media@.len() ==> plain_media(#[trigger] s.media@[k]))
}

/// The parse state after the session-level lines.
pub open spec fn session_level_state(s: SessionDescription) -> ParseModel {
    ParseModel {
        session: SessionModel { media: Seq::empty(), ..s@ },
        current: None,
        connections: connection_addresses(s.connection).len(),
    }
}

/// Parsing the session-level lines from a new session description reads
/// every session-level field.
proof fn lemma_session_level_run(s: SessionDescription)
    requires
        plain_session(s),
    ensures
        parse_run(
            Ok(ParseModel { session: new_session_model(s.sdp_type), current: None, connections: 0 }),
            session_level_items(s),
            session_addresses(s),
        ) == Ok::<ParseModel, SdpErrorModel>(session_level_state(s)),
{
    let a = session_addresses(s);
    let st0 = ParseModel { session: new_session_model(s.sdp_type), current: None, connections: 0 };
    assert(s@.version == 0 && origin_check(s@.origin) is Ok);
    lemma_opening_run(st0, s, a);
    let s1 = with_opening(st0, s);
    let s2 = match s.connection {
        Some(c) => with_connection(s1, c),
        None => s1,
    };
    match s.connection {
        Some(c) => {
            assert(a[0] == Some(c.address));
            lemma_connection_run(s1, c, a);
        },
        None => {
            assert(connection_items(s.connection) =~= Seq::<Seq<char>>::empty());
            lemma_run_empty(Ok(s1), a);
        },
    }
    lemma_timing_run(s2, s.timing, a);
    let s3 = ParseModel { session: SessionModel { timing: s.timing, ..s2.session }, ..s2 };
    lemma_attributes_run(s3, s.attributes@, a);
    let o = opening_items(s);
    let c = connection_items(s.connection);
    let t = seq![typed('t', timing_value(s.timing))];
    let at = attribute_items(s.attributes@);
    lemma_run_concat(Ok(st0), o + c + t, at, a);
    lemma_run_concat(Ok(st0), o + c, t, a);
    lemma_run_concat(Ok(st0), o, c, a);
    assert(Seq::<AttributeModel>::empty() + attribute_models(s.attributes@) =~= s@.attributes);
    assert(with_attributes(s3, s.attributes@) == session_level_state(s));
}


/// Parsing the lines of a session description that reads back as written,
/// with the addresses of its connection lines, gives it back.
#[verifier::spinoff_prover]
proof fn lemma_session_items_parse(s: SessionDescription)
    requires
        plain_session(s),
    ensures
        ({
            let ls = session_items(s);
            match parse_lines(s.sdp_type, ls, session_addresses(s), ls.len()) {
                Ok(st) => st.current == Some(s.media@.last()@) && SessionModel {
                    media: st.session.media.push(s.media@.last()@),
                    ..st.session
                } == s@,
                Err(_) => false,
            }
        }),
{
    let ls = session_items(s);
    let a = session_addresses(s);
    let st0 = ParseModel { session: new_session_model(s.sdp_type), current: None, connections: 0 };
    lemma_parse_lines_run(s.sdp_type, ls, a, ls.len());
    assert(ls.take(ls.len() as int) =~= ls);
    lemma_session_level_run(s);
    let hs = session_level_state(s);
    let n = connection_addresses(s.connection).len() as int;
    let m = media_list_addresses(s.media@).len() as int;
    assert(a.subrange(n, n + m) =~= media_list_addresses(s.media@));
    lemma_media_list_run(hs, s.media@, a);
    lemma_run_concat(Ok(st0), session_level_items(s), media_list_items(s.media@), a);
    assert(s@.media.len() > 0);
    lemma_media_list_state(hs, s.media@);
    assert(media_models(s.media@.drop_last()).push(s.media@.last()@) =~= s@.media);
}


/// Lines, each with a carriage return at its end (the texts of lines that
/// CR LF ends, without the line feed).
pub open spec fn cr_lines(ls: Seq<Seq<char>>) -> Seq<Seq<char>> {
    ls.map_values(|l: Seq<char>| l.push('\r'))
}

/// Whether no line holds a line feed.
pub open spec fn newline_free(ls: Seq<Seq<char>>) -> bool {
    forall|k: int| 0 <= k < ls.len() ==> no_newline(#[trigger] ls[k])
}

proof fn lemma_cr_lines_concat(a: Seq<Seq<char>>, b: Seq<Seq<char>>)
    ensures
        cr_lines(a + b) == cr_lines(a) + cr_lines(b),
{
    assert(cr_lines(a + b) =~= cr_lines(a) + cr_lines(b));
}

proof fn lemma_newline_free_concat(a: Seq<Seq<char>>, b: Seq<Seq<char>>)
    requires
        newline_free(a),
        newline_free(b),
    ensures
        newline_free(a + b),
{
    assert forall|k: int| 0 <= k < (a + b).len() implies no_newline(#[trigger] (a + b)[k]) by {
        if k < a.len() {
            assert((a + b)[k] == a[k]);
        } else {
            assert((a + b)[k] == b[k - a.len()]);
        }
    }
}

/// A typed line whose value holds no line feed holds none.
proof fn lemma_typed_no_newline(kind: char, value: Seq<char>)
    requires
        kind != '\n',
        no_newline(value),
    ensures
        newline_free(seq![typed(kind, value)]),
{
    let l = typed(kind, value);
    assert forall|i: int| 0 <= i < l.len() implies #[trigger] l[i] != '\n' by {
        if i >= 2 {
            assert(l[i] == value[i - 2]);
        }
    }
    assert(seq![l][0] == l);
}

/// A typed line whose value holds no line end holds no line feed.
proof fn lemma_typed_no_line_end(kind: char, value: Seq<char>)
    requires
        kind != '\n',
        no_line_end(value),
    ensures
        newline_free(seq![typed(kind, value)]),
{
    lemma_typed_no_newline(kind, value);
}

proof fn lemma_attribute_items_no_newline(v: Seq<Attribute>)
    requires
        forall|k: int| 0 <= k < v.len() ==> plain_attribute(#[trigger] v[k]),
    ensures
        newline_free(attribute_items(v)),
{
    let items = attribute_items(v);
    assert forall|k: int| 0 <= k < items.len() implies no_newline(#[trigger] items[k]) by {
        assert(plain_attribute(v[k]));
        lemma_typed_no_newline('a', attribute_value(v[k]@.0, v[k]@.1));
        assert(seq![typed('a', attribute_value(v[k]@.0, v[k]@.1))][0] == items[k]);
    }
}

proof fn lemma_connection_items_no_newline(c: Option<Connection>)
    requires
        c matches Some(x) ==> plain_connection(x),
    ensures
        newline_free(connection_items(c)),
{
    match c {
        Some(x) => {
            lemma_address_word(x);
            reveal_strlit("IN");
            reveal_strlit("IP4");
            reveal_strlit("IP6");
            reveal_strlit(" ");
            let f = seq![x.network_type@, x.address_type@, joined_with(address_parts(x), "/"@)];
            assert(is_word(x.network_type@) && is_word(x.address_type@));
            assert forall|k: int| 0 <= k < f.len() implies is_word(#[trigger] f[k]) by {}
            assert(no_line_end(" "@));
            lemma_joined_no_line_end(f, " "@);
            lemma_typed_no_line_end('c', connection_value(x));
        },
        None => {},
    }
}

proof fn lemma_media_items_no_newline(m: MediaDescription)
    requires
        plain_media(m),
    ensures
        newline_free(media_items(m)),
{
    reveal_strlit(" ");
    let v = joined_with(media_fields(m), " "@);
    let f = media_fields(m);
    lemma_decimal_word(m.port as nat);
    assert forall|i: int| 0 <= i < f.len() implies is_word(#[trigger] f[i]) by {
        if i >= 3 {
            assert(f[i] == m.formats@[i - 3]@);
        }
    }
    assert(no_line_end(" "@));
    lemma_joined_no_line_end(f, " "@);
    lemma_typed_no_line_end('m', v);
    lemma_connection_items_no_newline(m.connection);
    lemma_attribute_items_no_newline(m.attributes@);
    lemma_newline_free_concat(seq![typed('m', v)], connection_items(m.connection));
    lemma_newline_free_concat(
        seq![typed('m', v)] + connection_items(m.connection),
        attribute_items(m.attributes@),
    );
}

proof fn lemma_media_list_items_no_newline(v: Seq<MediaDescription>)
    requires
        forall|k: int| 0 <= k < v.len() ==> plain_media(#[trigger] v[k]),
    ensures
        newline_free(media_list_items(v)),
    decreases v.len(),
{
    if v.len() > 0 {
        let front = v.drop_last();
        assert(forall|k: int| 0 <= k < front.len() ==> front[k] == v[k]);
        assert(plain_media(v[v.len() - 1]));
        lemma_media_list_items_no_newline(front);
        lemma_media_items_no_newline(v.last());
        lemma_newline_free_concat(media_list_items(front), media_items(v.last()));
    }
}

proof fn lemma_session_items_no_newline(s: SessionDescription)
    requires
        plain_session(s),
    ensures
        newline_free(session_items(s)),
{
    reveal_strlit(" ");
    reveal_strlit("IN");
    reveal_strlit("IP4");
    reveal_strlit("IP6");
    assert(no_line_end(" "@));
    // The opening lines.
    assert(s@.version == 0 && origin_check(s@.origin) is Ok);
    assert(signed_decimal(s.version as int) == decimal(0));
    lemma_decimal_word(0);
    lemma_word_no_line_end(decimal(0));
    lemma_typed_no_line_end('v', signed_decimal(s.version as int));
    let of = origin_fields(s.origin);
    lemma_decimal_word(s.origin.session_id as nat);
    lemma_decimal_word(s.origin.session_version as nat);
    assert(is_word(s.origin.network_type@) && is_word(s.origin.address_type@));
    assert forall|k: int| 0 <= k < of.len() implies is_word(#[trigger] of[k]) by {}
    lemma_joined_no_line_end(of, " "@);
    lemma_typed_no_line_end('o', joined_with(of, " "@));
    lemma_typed_no_newline('s', s.session_name@);
    let a = seq![typed('v', signed_decimal(s.version as int))];
    let b = seq![typed('o', joined_with(of, " "@))];
    let c = seq![typed('s', s.session_name@)];
    lemma_newline_free_concat(a, b);
    lemma_newline_free_concat(a + b, c);
    assert(opening_items(s) =~= a + b + c);
    // The connection, timing and attribute lines.
    lemma_connection_items_no_newline(s.connection);
    let t = timing_value(s.timing);
    lemma_decimal_word(s.timing.start_time as nat);
    lemma_decimal_word(s.timing.stop_time as nat);
    lemma_word_no_line_end(decimal(s.timing.start_time as nat));
    lemma_word_no_line_end(decimal(s.timing.stop_time as nat));
    lemma_concat_no_line_end(decimal(s.timing.start_time as nat), " "@);
    lemma_concat_no_line_end(decimal(s.timing.start_time as nat) + " "@, decimal(s.timing.stop_time as nat));
    lemma_typed_no_line_end('t', t);
    lemma_attribute_items_no_newline(s.attributes@);
    let o = opening_items(s);
    let cc = connection_items(s.connection);
    let tt = seq![typed('t', t)];
    let at = attribute_items(s.attributes@);
    lemma_newline_free_concat(o, cc);
    lemma_newline_free_concat(o + cc, tt);
    lemma_newline_free_concat(o + cc + tt, at);
    // The media descriptions.
    lemma_media_list_items_no_newline(s.media@);
    lemma_newline_free_concat(session_level_items(s), media_list_items(s.media@));
}

/// One line written with CR LF.
proof fn lemma_crlf_one(l: Seq<char>)
    ensures
        with_newlines(cr_lines(seq![l])) == l + "\r\n"@,
{
    reveal_strlit("\r\n");
    reveal_strlit("\n");
    let c = cr_lines(seq![l]);
    assert(c =~= seq![l.push('\r')]);
    assert(c.drop_last() =~= Seq::<Seq<char>>::empty());
    assert(with_newlines(Seq::<Seq<char>>::empty()) == Seq::<char>::empty());
    assert(Seq::<char>::empty() + l.push('\r') + "\n"@ =~= l + "\r\n"@);
}

/// A line ended by a line feed, written with CR LF in its place.
proof fn lemma_crlf_of(l: Seq<char>)
    ensures
        crlf(l + "\n"@) == l + "\r\n"@,
{
    reveal_strlit("\n");
    assert((l + "\n"@).drop_last() =~= l);
}

/// The text of attribute lines is those lines, each with CR LF.
proof fn lemma_attribute_lines_text(v: Seq<Attribute>)
    requires
        forall|k: int| 0 <= k < v.len() ==> plain_attribute(#[trigger] v[k]),
    ensures
        attribute_lines_crlf(v) == with_newlines(cr_lines(attribute_items(v))),
    decreases v.len(),
{
    reveal_strlit("a=");
    if v.len() == 0 {
        assert(cr_lines(attribute_items(v)) =~= Seq::<Seq<char>>::empty());
    } else {
        let front = v.drop_last();
        let a = v.last();
        assert(forall|k: int| 0 <= k < front.len() ==> front[k] == v[k]);
        lemma_attribute_lines_text(front);
        assert(plain_attribute(v[v.len() - 1]));
        lemma_attribute_line_parses(a@.0, a@.1);
        let item = attribute_item(a);
        assert(attribute_items(v) =~= attribute_items(front) + seq![item]);
        lemma_cr_lines_concat(attribute_items(front), seq![item]);
        lemma_with_newlines_concat(cr_lines(attribute_items(front)), cr_lines(seq![item]));
        lemma_crlf_one(item);
        assert(item =~= "a="@ + attribute_value(a@.0, a@.1));
        assert(attribute_line(a.name@, a@.1) == attribute_line(a@.0, a@.1));
        lemma_crlf_of("a="@ + attribute_value(a@.0, a@.1));
        assert(attribute_line(a@.0, a@.1) =~= "a="@ + attribute_value(a@.0, a@.1) + "\n"@);
    }
}

/// The text of an optional connection line, ended by CR LF.
pub open spec fn connection_text(c: Option<Connection>) -> Seq<char> {
    match c {
        Some(x) => crlf(connection_line(x)),
        None => Seq::empty(),
    }
}

proof fn lemma_connection_text(c: Option<Connection>)
    requires
        c matches Some(x) ==> plain_connection(x),
    ensures
        connection_text(c) == with_newlines(cr_lines(connection_items(c))),
{
    reveal_strlit("c=");
    match c {
        Some(x) => {
            lemma_connection_line_parses(x);
            let item = typed('c', connection_value(x));
            assert(connection_items(c) =~= seq![item]);
            lemma_crlf_one(item);
            assert(item =~= "c="@ + connection_value(x));
            lemma_crlf_of("c="@ + connection_value(x));
        },
        None => {
            assert(cr_lines(connection_items(c)) =~= Seq::<Seq<char>>::empty());
        },
    }
}

proof fn lemma_media_text_lines(m: MediaDescription)
    requires
        plain_media(m),
    ensures
        media_session_text(m) == with_newlines(cr_lines(media_items(m))),
{
    reveal_strlit("m=");
    lemma_media_line_parses(m);
    let v = joined_with(media_fields(m), " "@);
    let l = typed('m', v);
    lemma_crlf_one(l);
    assert(l =~= "m="@ + v);
    assert(media_line(m) == "m="@ + v + "\r\n"@);
    lemma_connection_text(m.connection);
    lemma_attribute_lines_text(m.attributes@);
    assert(forall|k: int|
        0 <= k < m.attributes@.len() ==> plain_attribute(#[trigger] m.attributes@[k]));
    let cc = connection_items(m.connection);
    let at = attribute_items(m.attributes@);
    lemma_cr_lines_concat(seq![l], cc);
    lemma_cr_lines_concat(seq![l] + cc, at);
    lemma_with_newlines_concat(cr_lines(seq![l]), cr_lines(cc));
    lemma_with_newlines_concat(cr_lines(seq![l]) + cr_lines(cc), cr_lines(at));
    assert(media_session_text(m) == media_line(m) + connection_text(m.connection)
        + attribute_lines_crlf(m.attributes@));
}

proof fn lemma_media_texts_lines(v: Seq<MediaDescription>)
    requires
        forall|k: int| 0 <= k < v.len() ==> plain_media(#[trigger] v[k]),
    ensures
        media_texts(v) == with_newlines(cr_lines(media_list_items(v))),
    decreases v.len(),
{
    if v.len() > 0 {
        let front = v.drop_last();
        assert(forall|k: int| 0 <= k < front.len() ==> front[k] == v[k]);
        assert(plain_media(v[v.len() - 1]));
        lemma_media_texts_lines(front);
        lemma_media_text_lines(v.last());
        lemma_cr_lines_concat(media_list_items(front), media_items(v.last()));
        lemma_with_newlines_concat(cr_lines(media_list_items(front)), cr_lines(media_items(v.last())));
    } else {
        assert(cr_lines(media_list_items(v)) =~= Seq::<Seq<char>>::empty());
    }
}

/// The text of the opening lines.
proof fn lemma_opening_text(s: SessionDescription)
    requires
        plain_session(s),
    ensures
        "v="@ + signed_decimal(s.version as int) + "\r\n"@ + crlf(origin_line(s.origin)) + "s="@
            + s.session_name@ + "\r\n"@ == with_newlines(cr_lines(opening_items(s))),
{
    reveal_strlit("v=");
    reveal_strlit("o=");
    reveal_strlit("s=");
    assert(s@.version == 0 && origin_check(s@.origin) is Ok);
    let vl = typed('v', signed_decimal(s.version as int));
    let ol = typed('o', joined_with(origin_fields(s.origin), " "@));
    let sl = typed('s', s.session_name@);
    assert(origin_line(s.origin) == "o="@ + joined_with(origin_fields(s.origin), " "@) + "\n"@)
        by {
        reveal_strlit("IN");
        reveal_strlit("IP4");
        reveal_strlit("IP6");
        lemma_origin_line_parses(s.origin);
    }
    assert(vl =~= "v="@ + signed_decimal(s.version as int));
    assert(sl =~= "s="@ + s.session_name@);
    assert(ol =~= "o="@ + joined_with(origin_fields(s.origin), " "@));
    lemma_crlf_of(ol);
    lemma_crlf_one(vl);
    lemma_crlf_one(ol);
    lemma_crlf_one(sl);
    lemma_cr_lines_concat(seq![vl], seq![ol]);
    lemma_cr_lines_concat(seq![vl] + seq![ol], seq![sl]);
    lemma_with_newlines_concat(cr_lines(seq![vl]), cr_lines(seq![ol]));
    lemma_with_newlines_concat(cr_lines(seq![vl]) + cr_lines(seq![ol]), cr_lines(seq![sl]));
    assert(opening_items(s) =~= seq![vl] + seq![ol] + seq![sl]);
    assert("v="@ + signed_decimal(s.version as int) + "\r\n"@ + crlf(origin_line(s.origin)) + "s="@
        + s.session_name@ + "\r\n"@ =~= vl + "\r\n"@ + (ol + "\r\n"@) + (sl + "\r\n"@));
}

/// The text of the session-level lines.
proof fn lemma_session_level_text(s: SessionDescription)
    requires
        plain_session(s),
    ensures
        "v="@ + signed_decimal(s.version as int) + "\r\n"@ + crlf(origin_line(s.origin)) + "s="@
            + s.session_name@ + "\r\n"@ + connection_text(s.connection) + crlf(
            timing_line(s.timing),
        ) + attribute_lines_crlf(s.attributes@) == with_newlines(
            cr_lines(session_level_items(s)),
        ),
{
    reveal_strlit("t=");
    let tl = typed('t', timing_value(s.timing));
    lemma_timing_line_parses(s.timing);
    assert(tl =~= "t="@ + timing_value(s.timing));
    lemma_crlf_of(tl);
    lemma_crlf_one(tl);
    lemma_opening_text(s);
    lemma_connection_text(s.connection);
    lemma_attribute_lines_text(s.attributes@);
    let o = opening_items(s);
    let cc = connection_items(s.connection);
    let at = attribute_items(s.attributes@);
    lemma_cr_lines_concat(o, cc);
    lemma_cr_lines_concat(o + cc, seq![tl]);
    lemma_cr_lines_concat(o + cc + seq![tl], at);
    lemma_with_newlines_concat(cr_lines(o), cr_lines(cc));
    lemma_with_newlines_concat(cr_lines(o) + cr_lines(cc), cr_lines(seq![tl]));
    lemma_with_newlines_concat(cr_lines(o) + cr_lines(cc) + cr_lines(seq![tl]), cr_lines(at));
}

proof fn lemma_session_text_lines(s: SessionDescription)
    requires
        plain_session(s),
    ensures
        session_text(s) == with_newlines(cr_lines(session_items(s))),
{
    lemma_session_level_text(s);
    lemma_media_texts_lines(s.media@);
    lemma_cr_lines_concat(session_level_items(s), media_list_items(s.media@));
    lemma_with_newlines_concat(cr_lines(session_level_items(s)), cr_lines(media_list_items(s.media@)));
    assert(session_text(s) == "v="@ + signed_decimal(s.version as int) + "\r\n"@ + crlf(
        origin_line(s.origin),
    ) + "s="@ + s.session_name@ + "\r\n"@ + connection_text(s.connection) + crlf(
        timing_line(s.timing),
    ) + attribute_lines_crlf(s.attributes@) + media_texts(s.media@));
}

/// The text of a session description is read as its lines.
proof fn lemma_session_lines(s: SessionDescription)
    requires
        plain_session(s),
    ensures
        lines_of(session_text(s)) == session_items(s),
{
    let items = session_items(s);
    let b = cr_lines(items);
    lemma_session_text_lines(s);
    lemma_session_items_no_newline(s);
    assert forall|k: int| 0 <= k < b.len() implies no_newline(#[trigger] b[k]) by {
        assert(no_newline(items[k]));
        assert(b[k] == items[k].push('\r'));
    }
    lemma_lines_with_newlines(b);
    assert forall|k: int| 0 <= k < b.len() implies strip_cr(#[trigger] b[k]) == items[k] by {
        assert(b[k].drop_last() =~= items[k]);
    }
    assert(b.map_values(|l: Seq<char>| strip_cr(l)) =~= items);
}

/// Reading back what was written: the text of a session description that
/// validates and whose fields read back as written (see `plain_session`),
/// parsed as a description of its type with the addresses of its
/// connection lines in the order they come, gives back that session
/// description.
pub proof fn lemma_session_text_parses(s: SessionDescription)
    requires
        plain_session(s),
    ensures
        parse_session_spec(s.sdp_type, session_text(s), session_addresses(s)) == Ok::<
            SessionModel,
            SdpErrorModel,
        >(s@),
{
    lemma_session_lines(s);
    lemma_session_items_parse(s);
}

} // verus!
