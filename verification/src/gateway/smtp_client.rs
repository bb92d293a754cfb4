//! The outbound relay: a policy gate in front of a bounded delivery history.

use vstd::prelude::*;

use crate::config::GatewaySmtpConfig;
use crate::text::{
    chars_of, copy_texts, eq_ignoring_ascii_case, same_ignoring_ascii_case, split_chars, split_on,
    string_of, texts_of, views_of,
};

verus! {

/// The number of messages that the delivery history holds at most.
pub const HISTORY_CAPACITY: usize = 256;

/// A message scheduled for delivery.
#[derive(Clone, Debug, PartialEq, Eq)]
pub struct SmtpMessage {
    pub id: String,
    pub to: Vec<String>,
    pub subject: String,
    pub body: String,
}

/// An `SmtpMessage` as sequences of characters.
pub struct SmtpMessageView {
    pub id: Seq<char>,
    pub to: Seq<Seq<char>>,
    pub subject: Seq<char>,
    pub body: Seq<char>,
}

impl View for SmtpMessage {
    type V = SmtpMessageView;

    open spec fn view(&self) -> SmtpMessageView {
        SmtpMessageView {
            id: self.id@,
            to: texts_of(self.to@),
            subject: self.subject@,
            body: self.body@,
        }
    }
}

impl SmtpMessage {
    /// A copy of this message.
    pub fn duplicate(&self) -> (out: Self)
        ensures
            out@ == self@,
    {
        SmtpMessage {
            id: self.id.clone(),
            to: copy_texts(&self.to),
            subject: self.subject.clone(),
            body: self.body.clone(),
        }
    }
}

/// What the relay answers to an accepted message.
#[derive(Clone, Debug, PartialEq, Eq)]
pub struct SmtpSendOutcome {
    pub accepted: bool,
    pub message_id: String,
    pub warnings: Vec<String>,
}

/// Why the relay refused a message.
#[derive(Debug, PartialEq, Eq)]
pub enum SmtpError {
    /// A recipient's domain, which the error carries, is not allowed.
    DomainNotAllowed(String),
    /// The configuration has TLS switched off.
    TlsRequired,
    /// The delivery history is full.
    RateLimited,
}

/// An `SmtpError` with its domain as a sequence of characters.
pub enum SmtpErrorView {
    DomainNotAllowed(Seq<char>),
    TlsRequired,
    RateLimited,
}

impl View for SmtpError {
    type V = SmtpErrorView;

    open spec fn view(&self) -> SmtpErrorView {
        match self {
            SmtpError::DomainNotAllowed(domain) => SmtpErrorView::DomainNotAllowed(domain@),
            SmtpError::TlsRequired => SmtpErrorView::TlsRequired,
            SmtpError::RateLimited => SmtpErrorView::RateLimited,
        }
    }
}

/// The domain of a recipient: what stands between the first `@` and the
/// next one, or the end. `None` for a recipient without `@`.
pub open spec fn domain_of(recipient: Seq<char>) -> Option<Seq<char>> {
    let pieces = split_on(recipient, '@');
    if pieces.len() >= 2 {
        Some(pieces[1])
    } else {
        None
    }
}

/// Whether `domain` is on the allow-list, ASCII letters taken without case.
pub open spec fn domain_allowed(allow_list: Seq<Seq<char>>, domain: Seq<char>) -> bool {
    exists|i: int| 0 <= i < allow_list.len() && eq_ignoring_ascii_case(domain, allow_list[i])
}

/// The domain for which a recipient is refused, if it is: a recipient with
/// a domain that is not allowed. A recipient without `@` passes.
pub open spec fn refused_domain(allow_list: Seq<Seq<char>>, recipient: Seq<char>) -> Option<
    Seq<char>,
> {
    match domain_of(recipient) {
        Some(domain) => if domain_allowed(allow_list, domain) {
            None
        } else {
            Some(domain)
        },
        None => None,
    }
}

/// The domain of the first recipient that is refused.
pub open spec fn first_refused(allow_list: Seq<Seq<char>>, to: Seq<Seq<char>>) -> Option<
    Seq<char>,
>
    decreases to.len(),
{
    if to.len() == 0 {
        None
    } else {
        match refused_domain(allow_list, to[0]) {
            Some(domain) => Some(domain),
            None => first_refused(allow_list, to.skip(1)),
        }
    }
}

/// A message with a recipient that is refused has a first refused domain.
pub proof fn lemma_refused_recipient(allow_list: Seq<Seq<char>>, to: Seq<Seq<char>>, i: int)
    requires
        0 <= i < to.len(),
        refused_domain(allow_list, to[i]) is Some,
    ensures
        first_refused(allow_list, to) is Some,
    decreases to.len(),
{
    if i > 0 && refused_domain(allow_list, to[0]) is None {
        assert(to.skip(1)[i - 1] == to[i]);
        lemma_refused_recipient(allow_list, to.skip(1), i - 1);
    }
}

/// The relay's verdict on a message, given the TLS flag, the allow-list and
/// the number of messages in the history: TLS first, then the recipients in
/// order, then the room that is left.
pub open spec fn verdict(
    tls: bool,
    allow_list: Seq<Seq<char>>,
    history_len: nat,
    message: SmtpMessageView,
) -> Option<SmtpErrorView> {
    if !tls {
        Some(SmtpErrorView::TlsRequired)
    } else if first_refused(allow_list, message.to) is Some {
        Some(SmtpErrorView::DomainNotAllowed(first_refused(allow_list, message.to)->0))
    } else if history_len >= HISTORY_CAPACITY {
        Some(SmtpErrorView::RateLimited)
    } else {
        None
    }
}

/// The views of the messages in `messages`.
pub open spec fn messages_of(messages: Seq<SmtpMessage>) -> Seq<SmtpMessageView> {
    messages.map_values(|m: SmtpMessage| m@)
}

/// A relay that checks policy and records what it accepted.
#[derive(Debug)]
pub struct GatewaySmtpClient {
    config: GatewaySmtpConfig,
    allow_list: Vec<String>,
    sent: Vec<SmtpMessage>,
}

impl GatewaySmtpClient {
    /// Whether the configuration has TLS switched on.
    pub closed spec fn tls(&self) -> bool {
        self.config.tls
    }

    /// The allowed domains.
    pub closed spec fn allow_list(&self) -> Seq<Seq<char>> {
        texts_of(self.allow_list@)
    }

    /// The accepted messages, oldest first.
    pub closed spec fn history(&self) -> Seq<SmtpMessageView> {
        messages_of(self.sent@)
    }

    /// A relay with an empty history that allows the given domains.
    pub fn new(config: GatewaySmtpConfig, allow_list: Vec<String>) -> (client: Self)
        ensures
            client.tls() == config.tls,
            client.allow_list() == texts_of(allow_list@),
            client.history() == Seq::<SmtpMessageView>::empty(),
    {
        let client = GatewaySmtpClient { config, allow_list, sent: Vec::new() };
        assert(client.history() =~= Seq::<SmtpMessageView>::empty());
        client
    }

    /// Checks one recipient against the allow-list.
    pub fn check_domain(&self, recipient: &str) -> (checked: Result<(), SmtpError>)
        ensures
            match (checked, refused_domain(self.allow_list(), recipient@)) {
                (Ok(_), None) => true,
                (Err(e), Some(domain)) => e@ == SmtpErrorView::DomainNotAllowed(domain),
                _ => false,
            },
    {
        let chars = chars_of(recipient);
        let pieces = split_chars(&chars, '@');
        if pieces.len() < 2 {
            return Ok(());
        }
        let domain = &pieces[1];
        assert(views_of(pieces@)[1] == domain@);
        let mut i: usize = 0;
        while i < self.allow_list.len()
            invariant
                i <= self.allow_list.len(),
                domain_of(recipient@) == Some(domain@),
                forall|k: int|
                    0 <= k < i ==> !eq_ignoring_ascii_case(domain@, self.allow_list()[k]),
            decreases self.allow_list.len() - i,
        {
            let allowed = chars_of(self.allow_list[i].as_str());
            assert(allowed@ == self.allow_list()[i as int]);
            if same_ignoring_ascii_case(domain, &allowed) {
                assert(domain_allowed(self.allow_list(), domain@));
                return Ok(());
            }
            i = i + 1;
        }
        Err(SmtpError::DomainNotAllowed(string_of(domain)))
    }

    /// Whether the history is full.
    pub fn rate_limited(&self) -> (full: bool)
        ensures
            full == (self.history().len() >= HISTORY_CAPACITY),
    {
        self.sent.len() >= HISTORY_CAPACITY
    }

    /// Hands a message to the relay. It is refused with `TlsRequired` where
    /// TLS is off, else with `DomainNotAllowed` and the first domain that is
    /// not on the allow-list, else with `RateLimited` where the history is
    /// full. A refused message leaves the history as it was. An accepted one
    /// is appended to it, and the outcome carries its id and no warning.
    pub fn send(&mut self, message: SmtpMessage) -> (outcome: Result<SmtpSendOutcome, SmtpError>)
        ensures
            final(self).tls() == old(self).tls(),
            final(self).allow_list() == old(self).allow_list(),
            old(self).history().len() <= HISTORY_CAPACITY ==> final(self).history().len()
                <= HISTORY_CAPACITY,
            !old(self).tls() ==> (outcome matches Err(e) && e@ == SmtpErrorView::TlsRequired),
            old(self).tls() && first_refused(old(self).allow_list(), message@.to) is Some ==> {
                &&& outcome matches Err(e)
                &&& e@ is DomainNotAllowed
                &&& final(self).history() == old(self).history()
            },
            match verdict(
                old(self).tls(),
                old(self).allow_list(),
                old(self).history().len(),
                message@,
            ) {
                Some(refusal) => {
                    &&& outcome matches Err(e)
                    &&& e@ == refusal
                    &&& final(self).history() == old(self).history()
                },
                None => {
                    &&& outcome matches Ok(o)
                    &&& o.accepted
                    &&& o.message_id@ == message@.id
                    &&& o.warnings@.len() == 0
                    &&& final(self).history() == old(self).history().push(message@)
                },
            },
    {
        if !self.config.tls {
            return Err(SmtpError::TlsRequired);
        }
        let mut i: usize = 0;
        assert(message@.to.skip(0) =~= message@.to);
        while i < message.to.len()
            invariant
                i <= message.to.len(),
                self.tls(),
                self.tls() == old(self).tls(),
                self.allow_list() == old(self).allow_list(),
                self.history() == old(self).history(),
                first_refused(self.allow_list(), message@.to.skip(i as int)) == first_refused(
                    self.allow_list(),
                    message@.to,
                ),
            decreases message.to.len() - i,
        {
            assert(message@.to.skip(i as int).skip(1) =~= message@.to.skip(i + 1));
            assert(message@.to.skip(i as int)[0] == message.to@[i as int]@);
            match self.check_domain(message.to[i].as_str()) {
                Ok(_) => {},
                Err(e) => {
                    return Err(e);
                },
            }
            i = i + 1;
        }
        if self.rate_limited() {
            return Err(SmtpError::RateLimited);
        }
        let copy = message.duplicate();
        self.sent.push(copy);
        assert(self.history() =~= old(self).history().push(message@));
        Ok(SmtpSendOutcome { accepted: true, message_id: message.id, warnings: Vec::new() })
    }

    /// A copy of the history, oldest message first.
    pub fn delivered(&self) -> (messages: Vec<SmtpMessage>)
        ensures
            messages_of(messages@) == self.history(),
    {
        let mut messages: Vec<SmtpMessage> = Vec::new();
        let mut i: usize = 0;
        while i < self.sent.len()
            invariant
                i <= self.sent.len(),
                messages@.len() == i,
                forall|k: int| 0 <= k < i ==> messages@[k]@ == self.sent@[k]@,
            decreases self.sent.len() - i,
        {
            messages.push(self.sent[i].duplicate());
            i = i + 1;
        }
        assert(messages_of(messages@) =~= self.history());
        messages
    }
}

} // verus!
