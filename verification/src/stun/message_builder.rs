//! A builder for STUN messages with clock-derived transaction identifiers.
use crate::clock::{transaction_id_from_nanos, unix_time_nanos};
use crate::stun::attribute_type::AttributeType;
use crate::stun::errors::StunError;
use crate::stun::message::Message;
use crate::stun::message_type::MessageType;
use vstd::prelude::*;

verus! {

/// Builder for constructing STUN messages.
pub struct MessageBuilder {
    message_type: MessageType,
    transaction_id: Option<[u8; 12]>,
    attributes: Vec<(AttributeType, Vec<u8>)>,
}

impl MessageBuilder {
    /// No operation of the builder queues an attribute, so the queue is empty.
    #[verifier::type_invariant]
    spec fn attributes_empty(self) -> bool {
        self.attributes@.len() == 0
    }

    /// The type of the message that will be built.
    pub closed spec fn built_type(self) -> MessageType {
        self.message_type
    }

    /// The transaction identifier set so far, if any.
    pub closed spec fn built_transaction_id(self) -> Option<[u8; 12]> {
        self.transaction_id
    }

    /// Creates a new message builder with the specified message type.
    pub fn new(message_type: MessageType) -> (b: Self)
        ensures
            b.built_type() == message_type,
            b.built_transaction_id() is None,
    {
        Self { message_type, transaction_id: None, attributes: Vec::new() }
    }

    /// Sets a transaction identifier made of the low 96 bits of the current
    /// Unix time in nanoseconds.
    pub fn random_transaction_id(self) -> (b: Self)
        ensures
            b.built_type() == self.built_type(),
            b.built_transaction_id() is Some,
    {
        proof {
            use_type_invariant(&self);
        }
        let timestamp = unix_time_nanos();
        let id = transaction_id_from_nanos(timestamp);
        Self { message_type: self.message_type, transaction_id: Some(id), attributes: self.attributes }
    }

    /// Builds the message; fails when no transaction identifier was set.
    pub fn build(self) -> (r: Result<Message, StunError>)
        ensures
            self.built_transaction_id() is None ==> r == Err::<Message, StunError>(
                StunError::MissingRequiredField("transaction_id"),
            ),
            self.built_transaction_id() matches Some(id) ==> {
                &&& r is Ok
                &&& r->Ok_0.header.message_type == self.built_type()
                &&& r->Ok_0.header.transaction_id == id
                &&& r->Ok_0.header.message_length == 0
                &&& r->Ok_0.attributes@.len() == 0
            },
    {
        proof {
            use_type_invariant(&self);
        }
        let transaction_id = match self.transaction_id {
            Some(id) => id,
            None => {
                return Err(StunError::MissingRequiredField("transaction_id"));
            },
        };
        let mut message = Message::new(self.message_type, transaction_id);
        let mut i: usize = 0;
        while i < self.attributes.len()
            invariant
                self.attributes@.len() == 0,
                message.header.message_type == self.message_type,
                message.header.transaction_id == transaction_id,
                message.header.message_length == 0,
                message.attributes@.len() == 0,
            decreases self.attributes@.len() - i,
        {
            let (attr_type, value) = &self.attributes[i];
            message.add_attribute(*attr_type, value.as_slice());
            i = i + 1;
        }
        Ok(message)
    }
}

} // verus!
