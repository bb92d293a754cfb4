//! Message and address values shared by the gateway and its callers.

use vstd::prelude::*;

use crate::text::{append_chars, decimal, decimal_chars, string_of};

verus! {

/// The identifier of a message.
#[derive(Clone, Debug, PartialEq, Eq, Hash)]
pub struct MessageId(pub String);

impl View for MessageId {
    type V = Seq<char>;

    open spec fn view(&self) -> Seq<char> {
        self.0@
    }
}

/// The identifier with the sequence number `n`: `msg-` and `n` in decimal.
pub open spec fn message_id_text(n: nat) -> Seq<char> {
    seq!['m', 's', 'g', '-'] + decimal(n)
}

impl MessageId {
    /// The identifier for the sequence number `sequence`.
    pub fn new(sequence: usize) -> (id: Self)
        ensures
            id@ == message_id_text(sequence as nat),
    {
        let mut text: Vec<char> = vec!['m', 's', 'g', '-'];
        append_chars(&mut text, &decimal_chars(sequence));
        assert(text@ =~= message_id_text(sequence as nat));
        MessageId(string_of(&text))
    }

    /// A copy of this identifier.
    pub fn duplicate(&self) -> (out: Self)
        ensures
            out@ == self@,
    {
        MessageId(self.0.clone())
    }

    /// The identifier as text.
    pub fn to_text(&self) -> (text: String)
        ensures
            text@ == self@,
    {
        self.0.clone()
    }
}

/// Hands out message identifiers with increasing sequence numbers.
#[derive(Debug)]
pub struct MessageCounter {
    next: usize,
}

impl MessageCounter {
    /// The sequence number of the next identifier.
    pub closed spec fn next(&self) -> nat {
        self.next as nat
    }

    /// A counter whose first identifier is `msg-1`.
    pub fn new() -> (counter: Self)
        ensures
            counter.next() == 1,
    {
        MessageCounter { next: 1 }
    }

    /// The next identifier. The sequence number after the largest one is
    /// zero.
    pub fn next_id(&mut self) -> (id: MessageId)
        ensures
            id@ == message_id_text(old(self).next()),
            final(self).next() == if old(self).next() == usize::MAX {
                0
            } else {
                old(self).next() + 1
            },
    {
        let id = MessageId::new(self.next);
        self.next = self.next.wrapping_add(1);
        id
    }
}

/// The three O/R attributes that the mapping engine understands.
#[derive(Clone, Debug, PartialEq, Eq)]
pub struct Address {
    pub country: String,
    pub organization: String,
    pub surname: String,
}

/// An `Address` as three sequences of characters.
pub struct AddressView {
    pub country: Seq<char>,
    pub organization: Seq<char>,
    pub surname: Seq<char>,
}

impl View for Address {
    type V = AddressView;

    open spec fn view(&self) -> AddressView {
        AddressView {
            country: self.country@,
            organization: self.organization@,
            surname: self.surname@,
        }
    }
}

impl Address {
    /// The address used where a legacy record names none:
    /// country `DE`, organization `Modern`, surname `Operator`.
    pub fn sample() -> (out: Self)
        ensures
            out@.country == "DE"@,
            out@.organization == "Modern"@,
            out@.surname == "Operator"@,
    {
        Address {
            country: String::from_str("DE"),
            organization: String::from_str("Modern"),
            surname: String::from_str("Operator"),
        }
    }

    /// A copy of this address.
    pub fn duplicate(&self) -> (out: Self)
        ensures
            out@ == self@,
    {
        Address {
            country: self.country.clone(),
            organization: self.organization.clone(),
            surname: self.surname.clone(),
        }
    }
}

/// The views of the addresses in `addresses`.
pub open spec fn addresses_of(addresses: Seq<Address>) -> Seq<AddressView> {
    addresses.map_values(|a: Address| a@)
}

/// How urgent a message is.
#[derive(Clone, Copy, Debug, PartialEq, Eq, Structural)]
pub enum MessagePriority {
    Low,
    Normal,
    High,
}

/// How private a message is.
#[derive(Clone, Copy, Debug, PartialEq, Eq, Structural)]
pub enum MessageSensitivity {
    Normal,
    Personal,
}

/// How far a message has come.
#[derive(Clone, Copy, Debug, PartialEq, Eq, Structural)]
pub enum MessageStatus {
    Queued,
    Delivered,
    Read,
    Sent,
    Failed,
    Unknown,
}

/// What is stored about a message beside its content.
#[derive(Clone, Debug, PartialEq, Eq)]
pub struct MessageEnvelope {
    pub id: MessageId,
    pub subject: String,
    pub sender: Address,
    pub recipients: Vec<Address>,
    pub folder: String,
    pub status: MessageStatus,
    pub priority: MessagePriority,
    pub sensitivity: MessageSensitivity,
}

impl MessageEnvelope {
    /// The envelope of a new message: in the folder `outbox`, queued, of
    /// normal priority and sensitivity.
    pub fn new(id: MessageId, subject: &str, sender: Address, recipients: Vec<Address>) -> (out:
        Self)
        ensures
            out.id == id,
            out.subject@ == subject@,
            out.sender == sender,
            out.recipients == recipients,
            out.folder@ == "outbox"@,
            out.status == MessageStatus::Queued,
            out.priority == MessagePriority::Normal,
            out.sensitivity == MessageSensitivity::Normal,
    {
        MessageEnvelope {
            id,
            subject: String::from_str(subject),
            sender,
            recipients,
            folder: String::from_str("outbox"),
            status: MessageStatus::Queued,
            priority: MessagePriority::Normal,
            sensitivity: MessageSensitivity::Normal,
        }
    }
}

/// The content of a message.
#[derive(Clone, Debug, PartialEq, Eq)]
pub struct MessageContent {
    pub body: String,
}

/// A message: envelope and content.
#[derive(Clone, Debug, PartialEq, Eq)]
pub struct Message {
    pub envelope: MessageEnvelope,
    pub content: MessageContent,
}

} // verus!
