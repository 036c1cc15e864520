//! Builder pattern for SDP session descriptions: a fluent API for
//! constructing them, validated when built.
use crate::sdp::attribute::Attribute;
use crate::sdp::connection::Connection;
use crate::sdp::errors::SdpError;
use crate::sdp::media_description::MediaDescription;
use crate::sdp::origin::Origin;
use crate::sdp::sdp_type::SdpType;
use crate::sdp::model::{outcome_is, session_check};
use crate::sdp::session_description::{is_new_session, SessionDescription};
use crate::sdp::timing::Timing;
use crate::text::string_from_str;
use vstd::prelude::*;
use vstd::string::*;

verus! {

/// Builder for constructing `SessionDescription` instances.
pub struct SessionDescriptionBuilder {
    session: SessionDescription,
}

/// Whether `a` is the attribute `name:value`.
pub open spec fn is_attribute(a: Attribute, name: Seq<char>, value: Seq<char>) -> bool {
    a.name@ == name && (a.value matches Some(v) && v@ == value)
}

impl SessionDescriptionBuilder {
    /// The session description built so far.
    pub closed spec fn session(&self) -> SessionDescription {
        self.session
    }

    /// Creates a new builder with the specified SDP type.
    ///
    /// # Arguments
    /// * `sdp_type` - The type of SDP message (Offer or Answer)
    pub fn new(sdp_type: SdpType) -> (b: Self)
        ensures
            is_new_session(b.session(), sdp_type),
    {
        SessionDescriptionBuilder { session: SessionDescription::new(sdp_type) }
    }

    /// Sets the origin field.
    pub fn origin(self, origin: Origin) -> (b: Self)
        ensures
            b.session() == (SessionDescription { origin, ..self.session() }),
    {
        let mut b = self;
        b.session.origin = origin;
        b
    }

    /// Sets the session name.
    pub fn session_name(self, name: &str) -> (b: Self)
        ensures
            b.session().session_name@ == name@,
            b.session() == (SessionDescription { session_name: b.session().session_name, ..self.session() }),
    {
        let mut b = self;
        b.session.session_name = string_from_str(name);
        b
    }

    /// Sets the timing information.
    pub fn timing(self, timing: Timing) -> (b: Self)
        ensures
            b.session() == (SessionDescription { timing, ..self.session() }),
    {
        let mut b = self;
        b.session.timing = timing;
        b
    }

    /// Sets the connection information.
    pub fn connection(self, connection: Connection) -> (b: Self)
        ensures
            b.session() == (SessionDescription { connection: Some(connection), ..self.session() }),
    {
        let mut b = self;
        b.session.connection = Some(connection);
        b
    }

    /// Adds a media description to the session.
    pub fn add_media(self, media: MediaDescription) -> (b: Self)
        ensures
            b.session().media@ == self.session().media@.push(media),
            b.session() == (SessionDescription { media: b.session().media, ..self.session() }),
    {
        let mut b = self;
        b.session.media.push(media);
        b
    }

    /// Adds an attribute to the session.
    pub fn add_attribute(self, attr: Attribute) -> (b: Self)
        ensures
            b.session().attributes@ == self.session().attributes@.push(attr),
            b.session() == (SessionDescription { attributes: b.session().attributes, ..self.session() }),
    {
        let mut b = self;
        b.session.attributes.push(attr);
        b
    }

    /// Adds ICE credentials to the session: the attributes
    /// `ice-ufrag:<ufrag>` and `ice-pwd:<pwd>`.
    pub fn ice_credentials(self, ufrag: &str, pwd: &str) -> (b: Self)
        ensures
            b.session().attributes@.len() == self.session().attributes@.len() + 2,
            b.session().attributes@.take(self.session().attributes@.len() as int)
                == self.session().attributes@,
            is_attribute(
                b.session().attributes@[self.session().attributes@.len() as int],
                "ice-ufrag"@,
                ufrag@,
            ),
            is_attribute(
                b.session().attributes@[self.session().attributes@.len() as int + 1],
                "ice-pwd"@,
                pwd@,
            ),
            b.session() == (SessionDescription { attributes: b.session().attributes, ..self.session() }),
    {
        let mut b = self;
        b.session.attributes.push(
            Attribute { name: string_from_str("ice-ufrag"), value: Some(string_from_str(ufrag)) },
        );
        b.session.attributes.push(
            Attribute { name: string_from_str("ice-pwd"), value: Some(string_from_str(pwd)) },
        );
        assert(b.session.attributes@.take(self.session.attributes@.len() as int)
            =~= self.session.attributes@);
        b
    }

    /// Adds ICE candidates to the session: one `candidate:<candidate>`
    /// attribute for each, in order.
    pub fn ice_candidates(self, candidates: &[String]) -> (b: Self)
        ensures
            b.session().attributes@.len() == self.session().attributes@.len() + candidates@.len(),
            b.session().attributes@.take(self.session().attributes@.len() as int)
                == self.session().attributes@,
            forall|i: int|
                0 <= i < candidates@.len() ==> is_attribute(
                    #[trigger] b.session().attributes@[self.session().attributes@.len() + i],
                    "candidate"@,
                    candidates@[i]@,
                ),
            b.session() == (SessionDescription { attributes: b.session().attributes, ..self.session() }),
    {
        let mut b = self;
        let ghost start = self.session.attributes@.len();
        let mut i: usize = 0;
        while i < candidates.len()
            invariant
                i <= candidates@.len(),
                start == self.session.attributes@.len(),
                b.session.attributes@.len() == start + i,
                b.session.attributes@.take(start as int) == self.session.attributes@,
                forall|k: int|
                    0 <= k < i ==> is_attribute(
                        #[trigger] b.session.attributes@[start + k],
                        "candidate"@,
                        candidates@[k]@,
                    ),
                b.session == (SessionDescription { attributes: b.session.attributes, ..self.session }),
            decreases candidates@.len() - i,
        {
            let value = string_from_str(candidates[i].as_str());
            b.session.attributes.push(
                Attribute { name: string_from_str("candidate"), value: Some(value) },
            );
            assert(b.session.attributes@.take(start as int) =~= self.session.attributes@);
            i = i + 1;
        }
        b
    }

    /// Adds a single ICE candidate to the session: the attribute
    /// `candidate:<candidate>`.
    pub fn add_ice_candidate(self, candidate: &str) -> (b: Self)
        ensures
            b.session().attributes@.len() == self.session().attributes@.len() + 1,
            b.session().attributes@.drop_last() == self.session().attributes@,
            is_attribute(b.session().attributes@.last(), "candidate"@, candidate@),
            b.session() == (SessionDescription { attributes: b.session().attributes, ..self.session() }),
    {
        let mut b = self;
        b.session.attributes.push(
            Attribute { name: string_from_str("candidate"), value: Some(string_from_str(candidate)) },
        );
        assert(b.session.attributes@.drop_last() =~= self.session.attributes@);
        b
    }

    /// Builds and validates the `SessionDescription`.
    pub fn build(self) -> (r: Result<SessionDescription, SdpError>)
        ensures
            session_check(self.session()@) is Ok ==> (r matches Ok(s) && s == self.session()),
            session_check(self.session()@) matches Err(e) ==> (r matches Err(x) && x@ == e),
    {
        match self.session.validate() {
            Ok(()) => Ok(self.session),
            Err(e) => Err(e),
        }
    }
}

} // verus!
