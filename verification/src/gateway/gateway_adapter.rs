//! The coordinator that puts address mapping, relay, mailbox and report
//! conversion behind one set of operations.

use vstd::prelude::*;
use vstd::std_specs::convert::FromSpecImpl;

use crate::gateway::address_map::{
    or_to_rfc822, rfc822_to_or, AddressMapper, MapperView, MappingError,
};
use crate::gateway::imap_client::{
    fetched_of, inbound_of, remaining_of, GatewayImapClient, InboundMessage,
};
use crate::gateway::report_map::{dsn_status, mdn_status, DeliveryReport, ReportMapper};
use crate::gateway::smtp_client::{
    messages_of, verdict, GatewaySmtpClient, SmtpError, SmtpErrorView, SmtpMessage, SmtpMessageView,
};
use crate::models::{addresses_of, Address, AddressView};
use crate::text::{append_chars, copy_texts, decimal, decimal_chars, string_of, texts_of};

verus! {

/// Why a gateway operation failed: the cause, unchanged.
#[derive(Debug, PartialEq, Eq)]
pub enum GatewayError {
    Mapping(MappingError),
    Smtp(SmtpError),
}

/// A `GatewayError` with its texts as sequences of characters.
pub enum GatewayErrorView {
    Mapping(MappingError),
    Smtp(SmtpErrorView),
}

impl View for GatewayError {
    type V = GatewayErrorView;

    open spec fn view(&self) -> GatewayErrorView {
        match self {
            GatewayError::Mapping(e) => GatewayErrorView::Mapping(*e),
            GatewayError::Smtp(e) => GatewayErrorView::Smtp(e@),
        }
    }
}

impl From<MappingError> for GatewayError {
    fn from(cause: MappingError) -> (error: Self) {
        GatewayError::Mapping(cause)
    }
}

impl FromSpecImpl<MappingError> for GatewayError {
    open spec fn obeys_from_spec() -> bool {
        true
    }

    open spec fn from_spec(cause: MappingError) -> Self {
        GatewayError::Mapping(cause)
    }
}

impl From<SmtpError> for GatewayError {
    fn from(cause: SmtpError) -> (error: Self) {
        GatewayError::Smtp(cause)
    }
}

impl FromSpecImpl<SmtpError> for GatewayError {
    open spec fn obeys_from_spec() -> bool {
        true
    }

    open spec fn from_spec(cause: SmtpError) -> Self {
        GatewayError::Smtp(cause)
    }
}

/// What became of an outbound message.
#[derive(Clone, Debug, PartialEq, Eq)]
pub struct GatewayResult {
    pub message_id: String,
    pub recipients: Vec<String>,
    pub accepted: bool,
    pub warnings: Vec<String>,
}

/// What a gateway operation hands back.
#[derive(Clone, Debug, PartialEq, Eq)]
pub enum GatewayEvent {
    OutboundQueued(GatewayResult),
    InboundReady(Vec<InboundMessage>),
    ReportMapped(DeliveryReport),
}

/// The mailbox addresses of the recipients, in order, or the failure of the
/// first recipient that cannot be mapped.
pub open spec fn mapped_recipients(mapper: MapperView, recipients: Seq<AddressView>) -> Result<
    Seq<Seq<char>>,
    MappingError,
>
    decreases recipients.len(),
{
    if recipients.len() == 0 {
        Ok(Seq::empty())
    } else {
        match mapped_recipients(mapper, recipients.drop_last()) {
            Err(e) => Err(e),
            Ok(mapped) => match or_to_rfc822(mapper, recipients.last()) {
                Err(e) => Err(e),
                Ok(email) => Ok(mapped.push(email)),
            },
        }
    }
}

/// The length of a text in bytes of UTF-8, as a `usize` holds it.
pub open spec fn byte_length(text: Seq<char>) -> nat {
    (vstd::utf8::encode_utf8(text).len() as usize) as nat
}

/// The id of an outbound message: `gw-` and the length of the subject in
/// bytes, in decimal.
pub open spec fn outbound_id(subject: Seq<char>) -> Seq<char> {
    seq!['g', 'w', '-'] + decimal(byte_length(subject))
}

/// The message that the gateway hands to the relay.
pub open spec fn outbound_message(
    mapped: Seq<Seq<char>>,
    subject: Seq<char>,
    body: Seq<char>,
) -> SmtpMessageView {
    SmtpMessageView { id: outbound_id(subject), to: mapped, subject, body }
}

/// Bridges X.400 and SMTP: outbound mail, inbound mail and reports.
#[derive(Debug)]
pub struct GatewayAdapter {
    mapper: AddressMapper,
    smtp: GatewaySmtpClient,
    imap: GatewayImapClient,
    reports: ReportMapper,
}

impl GatewayAdapter {
    /// The address mapper.
    pub closed spec fn mapper(&self) -> AddressMapper {
        self.mapper
    }

    /// The relay.
    pub closed spec fn smtp(&self) -> GatewaySmtpClient {
        self.smtp
    }

    /// The mailbox.
    pub closed spec fn imap(&self) -> GatewayImapClient {
        self.imap
    }

    /// An adapter over the four collaborators.
    pub fn new(
        mapper: AddressMapper,
        smtp: GatewaySmtpClient,
        imap: GatewayImapClient,
        reports: ReportMapper,
    ) -> (adapter: Self)
        ensures
            adapter.mapper() == mapper,
            adapter.smtp() == smtp,
            adapter.imap() == imap,
    {
        GatewayAdapter { mapper, smtp, imap, reports }
    }

    /// Maps every recipient to a mailbox address and hands the message to
    /// the relay. The first recipient that cannot be mapped fails the call
    /// with `Mapping`, and nothing is sent; a refusal of the relay fails it
    /// with `Smtp`. The originator is taken as it is.
    pub fn outbound(
        &mut self,
        _originator: &Address,
        recipients: &[Address],
        subject: &str,
        body: &str,
    ) -> (result: Result<GatewayResult, GatewayError>)
        ensures
            final(self).mapper() == old(self).mapper(),
            final(self).imap() == old(self).imap(),
            final(self).smtp().tls() == old(self).smtp().tls(),
            final(self).smtp().allow_list() == old(self).smtp().allow_list(),
            match mapped_recipients(old(self).mapper()@, addresses_of(recipients@)) {
                Err(cause) => {
                    &&& result matches Err(e)
                    &&& e@ == GatewayErrorView::Mapping(cause)
                    &&& final(self).smtp().history() == old(self).smtp().history()
                },
                Ok(mapped) => {
                    let message = outbound_message(mapped, subject@, body@);
                    match verdict(
                        old(self).smtp().tls(),
                        old(self).smtp().allow_list(),
                        old(self).smtp().history().len(),
                        message,
                    ) {
                        Some(refusal) => {
                            &&& result matches Err(e)
                            &&& e@ == GatewayErrorView::Smtp(refusal)
                            &&& final(self).smtp().history() == old(self).smtp().history()
                        },
                        None => {
                            &&& result matches Ok(r)
                            &&& r.accepted
                            &&& r.message_id@ == message.id
                            &&& texts_of(r.recipients@) == mapped
                            &&& r.warnings@.len() == 0
                            &&& final(self).smtp().history() == old(self).smtp().history().push(
                                message,
                            )
                        },
                    }
                },
            },
    {
        let mut mapped: Vec<String> = Vec::new();
        let mut i: usize = 0;
        assert(addresses_of(recipients@).take(0) =~= Seq::<AddressView>::empty());
        assert(texts_of(mapped@) =~= Seq::<Seq<char>>::empty());
        while i < recipients.len()
            invariant
                i <= recipients.len(),
                *self == *old(self),
                mapped_recipients(self.mapper()@, addresses_of(recipients@).take(i as int)) == Ok::<
                    Seq<Seq<char>>,
                    MappingError,
                >(texts_of(mapped@)),
            decreases recipients.len() - i,
        {
            let ghost shown = addresses_of(recipients@).take(i + 1);
            assert(shown.drop_last() =~= addresses_of(recipients@).take(i as int));
            assert(shown.last() == recipients@[i as int]@);
            let ghost before = texts_of(mapped@);
            match self.mapper.map_or_to_rfc822(&recipients[i]) {
                Ok(email) => {
                    mapped.push(email);
                    assert(texts_of(mapped@) =~= before.push(email@));
                },
                Err(cause) => {
                    proof {
                        lemma_mapping_fails(self.mapper()@, addresses_of(recipients@), i + 1);
                    }
                    return Err(GatewayError::Mapping(cause));
                },
            }
            i = i + 1;
        }
        assert(addresses_of(recipients@).take(recipients.len() as int) =~= addresses_of(
            recipients@,
        ));
        let mut id: Vec<char> = vec!['g', 'w', '-'];
        append_chars(&mut id, &decimal_chars(subject.len()));
        assert(id@ =~= outbound_id(subject@));
        let message = SmtpMessage {
            id: string_of(&id),
            to: copy_texts(&mapped),
            subject: String::from_str(subject),
            body: String::from_str(body),
        };
        assert(message@ == outbound_message(texts_of(mapped@), subject@, body@));
        match self.smtp.send(message) {
            Ok(outcome) => Ok(
                GatewayResult {
                    message_id: outcome.message_id,
                    recipients: mapped,
                    accepted: outcome.accepted,
                    warnings: outcome.warnings,
                },
            ),
            Err(cause) => Err(GatewayError::Smtp(cause)),
        }
    }

    /// Puts a message into the mailbox, behind those that wait there.
    pub fn enqueue(&mut self, message: InboundMessage)
        ensures
            final(self).imap().mailbox() == old(self).imap().mailbox().push(message@),
            final(self).imap().mailbox().len() <= usize::MAX,
            final(self).imap().settings() == old(self).imap().settings(),
            final(self).mapper() == old(self).mapper(),
            final(self).smtp() == old(self).smtp(),
    {
        self.imap.enqueue(message);
    }

    /// A copy of the relay's history, oldest message first.
    pub fn delivered(&self) -> (messages: Vec<SmtpMessage>)
        ensures
            messages_of(messages@) == self.smtp().history(),
    {
        self.smtp.delivered()
    }

    /// Takes up to `limit` messages out of the mailbox, the newest first.
    pub fn inbound(&mut self, limit: usize) -> (event: GatewayEvent)
        ensures
            event matches GatewayEvent::InboundReady(messages) && inbound_of(messages@)
                == fetched_of(old(self).imap().mailbox(), limit as nat),
            final(self).imap().mailbox() == remaining_of(old(self).imap().mailbox(), limit as nat),
            old(self).imap().mailbox().len() <= usize::MAX,
            final(self).imap().settings() == old(self).imap().settings(),
            final(self).mapper() == old(self).mapper(),
            final(self).smtp() == old(self).smtp(),
    {
        let messages = self.imap.fetch(limit);
        GatewayEvent::InboundReady(messages)
    }

    /// Reads a delivery status notification.
    pub fn handle_dsn(&self, payload: &str, correlation_id: &str) -> (event: GatewayEvent)
        ensures
            event matches GatewayEvent::ReportMapped(report) && {
                &&& report@.correlation_id == correlation_id@
                &&& report@.status == dsn_status(payload@)
                &&& report@.detail == payload@
            },
    {
        let report = self.reports.from_dsn(payload, correlation_id);
        GatewayEvent::ReportMapped(report)
    }

    /// Reads a disposition notification.
    pub fn handle_mdn(&self, payload: &str, correlation_id: &str) -> (event: GatewayEvent)
        ensures
            event matches GatewayEvent::ReportMapped(report) && {
                &&& report@.correlation_id == correlation_id@
                &&& report@.status == mdn_status(payload@)
                &&& report@.detail == payload@
            },
    {
        let report = self.reports.from_mdn(payload, correlation_id);
        GatewayEvent::ReportMapped(report)
    }

    /// The O/R address of the sender of inbound mail.
    pub fn map_sender(&self, address: &str) -> (sender: Result<Address, GatewayError>)
        ensures
            match (sender, rfc822_to_or(self.mapper()@, address@)) {
                (Ok(a), Ok(wanted)) => a@ == wanted,
                (Err(e), Err(cause)) => e@ == GatewayErrorView::Mapping(cause),
                _ => false,
            },
    {
        match self.mapper.map_rfc822_to_or(address) {
            Ok(mapped) => Ok(mapped),
            Err(cause) => Err(GatewayError::Mapping(cause)),
        }
    }
}

/// Once a prefix of the recipients has failed, the whole list fails, with
/// the same cause.
proof fn lemma_mapping_fails(mapper: MapperView, recipients: Seq<AddressView>, n: int)
    requires
        0 <= n <= recipients.len(),
        mapped_recipients(mapper, recipients.take(n)) is Err,
    ensures
        mapped_recipients(mapper, recipients) == mapped_recipients(mapper, recipients.take(n)),
    decreases recipients.len() - n,
{
    if n < recipients.len() {
        assert(recipients.take(n + 1).drop_last() =~= recipients.take(n));
        lemma_mapping_fails(mapper, recipients, n + 1);
    } else {
        assert(recipients.take(n) =~= recipients);
    }
}

} // verus!
