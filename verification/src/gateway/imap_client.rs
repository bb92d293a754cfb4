//! The inbound mailbox: a buffer that mail arrives in and is fetched from.

use vstd::prelude::*;

use crate::config::GatewayImapConfig;

verus! {

/// A message fetched from the mailbox.
#[derive(Clone, Debug, PartialEq, Eq)]
pub struct InboundMessage {
    pub uid: String,
    pub subject: String,
    pub from: String,
    pub raw: String,
}

/// An `InboundMessage` as sequences of characters.
pub struct InboundMessageView {
    pub uid: Seq<char>,
    pub subject: Seq<char>,
    pub from: Seq<char>,
    pub raw: Seq<char>,
}

impl View for InboundMessage {
    type V = InboundMessageView;

    open spec fn view(&self) -> InboundMessageView {
        InboundMessageView {
            uid: self.uid@,
            subject: self.subject@,
            from: self.from@,
            raw: self.raw@,
        }
    }
}

/// The views of the messages in `messages`.
pub open spec fn inbound_of(messages: Seq<InboundMessage>) -> Seq<InboundMessageView> {
    messages.map_values(|m: InboundMessage| m@)
}

/// How many messages a fetch with this limit takes from a mailbox of this
/// size: the limit, or all there is.
pub open spec fn taken(size: nat, limit: nat) -> nat {
    if limit <= size {
        limit
    } else {
        size
    }
}

/// What a fetch returns: the newest messages, newest first.
pub open spec fn fetched_of(mailbox: Seq<InboundMessageView>, limit: nat) -> Seq<
    InboundMessageView,
> {
    mailbox.skip(mailbox.len() - taken(mailbox.len(), limit)).reverse()
}

/// What a fetch leaves in the mailbox: the older messages, in their order.
pub open spec fn remaining_of(mailbox: Seq<InboundMessageView>, limit: nat) -> Seq<
    InboundMessageView,
> {
    mailbox.take(mailbox.len() - taken(mailbox.len(), limit))
}

/// A fetch returns as many messages as the limit and the mailbox allow, and
/// the mailbox shrinks by that number.
pub proof fn lemma_fetch_counts(mailbox: Seq<InboundMessageView>, limit: nat)
    ensures
        fetched_of(mailbox, limit).len() == taken(mailbox.len(), limit),
        remaining_of(mailbox, limit).len() == mailbox.len() - taken(mailbox.len(), limit),
        limit <= mailbox.len() ==> fetched_of(mailbox, limit).len() == limit,
{
}

/// Every message of the mailbox is either fetched or left, and none is
/// both: what is left, followed by what was fetched in reverse, is the
/// mailbox as it was.
pub proof fn lemma_fetch_partitions(mailbox: Seq<InboundMessageView>, limit: nat)
    ensures
        remaining_of(mailbox, limit) + fetched_of(mailbox, limit).reverse() == mailbox,
{
    let cut = mailbox.len() - taken(mailbox.len(), limit);
    assert(mailbox.skip(cut).reverse().reverse() =~= mailbox.skip(cut));
    assert(mailbox.take(cut) + mailbox.skip(cut) =~= mailbox);
}

/// Two fetches in a row return what one fetch with the sum of their limits
/// returns, and leave what it leaves: the second fetch never returns a
/// message that the first one returned.
pub proof fn lemma_fetch_twice(mailbox: Seq<InboundMessageView>, first: nat, second: nat)
    ensures
        fetched_of(mailbox, first) + fetched_of(remaining_of(mailbox, first), second)
            == fetched_of(mailbox, first + second),
        remaining_of(remaining_of(mailbox, first), second) == remaining_of(
            mailbox,
            first + second,
        ),
{
    let left = remaining_of(mailbox, first);
    assert(remaining_of(left, second) =~= remaining_of(mailbox, first + second));
    assert(fetched_of(mailbox, first) + fetched_of(left, second) =~= fetched_of(
        mailbox,
        first + second,
    ));
}

/// A fetch with a limit that is no less than the size of the mailbox
/// returns all of it, newest first, and leaves nothing.
pub proof fn lemma_fetch_all(mailbox: Seq<InboundMessageView>, limit: nat)
    requires
        limit >= mailbox.len(),
    ensures
        fetched_of(mailbox, limit) == mailbox.reverse(),
        remaining_of(mailbox, limit) == Seq::<InboundMessageView>::empty(),
{
    assert(mailbox.skip(0) =~= mailbox);
    assert(mailbox.take(0) =~= Seq::<InboundMessageView>::empty());
}

/// What fetches with these limits, one after the other, return, in the
/// order in which they return it.
pub open spec fn fetched_in_turn(mailbox: Seq<InboundMessageView>, limits: Seq<nat>) -> Seq<
    InboundMessageView,
>
    decreases limits.len(),
{
    if limits.len() == 0 {
        Seq::empty()
    } else {
        fetched_of(mailbox, limits[0]) + fetched_in_turn(
            remaining_of(mailbox, limits[0]),
            limits.skip(1),
        )
    }
}

/// What fetches with these limits, one after the other, leave.
pub open spec fn remaining_in_turn(mailbox: Seq<InboundMessageView>, limits: Seq<nat>) -> Seq<
    InboundMessageView,
>
    decreases limits.len(),
{
    if limits.len() == 0 {
        mailbox
    } else {
        remaining_in_turn(remaining_of(mailbox, limits[0]), limits.skip(1))
    }
}

/// Over any number of fetches every message of the mailbox is either
/// returned by one of them or left, and none is both: what is left,
/// followed by all that was returned in reverse, is the mailbox as it was.
pub proof fn lemma_fetch_many(mailbox: Seq<InboundMessageView>, limits: Seq<nat>)
    ensures
        remaining_in_turn(mailbox, limits) + fetched_in_turn(mailbox, limits).reverse()
            == mailbox,
        fetched_in_turn(mailbox, limits).len() + remaining_in_turn(mailbox, limits).len()
            == mailbox.len(),
    decreases limits.len(),
{
    if limits.len() == 0 {
        assert(Seq::<InboundMessageView>::empty().reverse() =~= Seq::<InboundMessageView>::empty());
        assert(mailbox + Seq::<InboundMessageView>::empty() =~= mailbox);
    } else {
        let first = fetched_of(mailbox, limits[0]);
        let left = remaining_of(mailbox, limits[0]);
        let later = fetched_in_turn(left, limits.skip(1));
        lemma_fetch_partitions(mailbox, limits[0]);
        lemma_fetch_many(left, limits.skip(1));
        assert((first + later).reverse() =~= later.reverse() + first.reverse());
        assert(remaining_in_turn(left, limits.skip(1)) + (later.reverse() + first.reverse())
            =~= (remaining_in_turn(left, limits.skip(1)) + later.reverse()) + first.reverse());
    }
}

/// Where no message stands twice in the mailbox, no message is returned
/// twice over any number of fetches, and none that was returned is left.
pub proof fn lemma_fetched_once(mailbox: Seq<InboundMessageView>, limits: Seq<nat>)
    requires
        mailbox.no_duplicates(),
    ensures
        fetched_in_turn(mailbox, limits).no_duplicates(),
        forall|i: int|
            0 <= i < fetched_in_turn(mailbox, limits).len() ==> !remaining_in_turn(
                mailbox,
                limits,
            ).contains(#[trigger] fetched_in_turn(mailbox, limits)[i]),
{
    let fetched = fetched_in_turn(mailbox, limits);
    let left = remaining_in_turn(mailbox, limits);
    lemma_fetch_many(mailbox, limits);
    let whole = left + fetched.reverse();
    assert(whole == mailbox);
    assert forall|i: int, j: int| 0 <= i < fetched.len() && 0 <= j < fetched.len() && i != j
        implies fetched[i] != fetched[j] by {
        let a = left.len() + (fetched.len() - 1 - i);
        let b = left.len() + (fetched.len() - 1 - j);
        assert(whole[a] == fetched[i]);
        assert(whole[b] == fetched[j]);
        assert(a != b);
    }
    assert forall|i: int| 0 <= i < fetched.len() implies !left.contains(
        #[trigger] fetched[i],
    ) by {
        let a = left.len() + (fetched.len() - 1 - i);
        assert(whole[a] == fetched[i]);
        if left.contains(fetched[i]) {
            let k = choose|k: int| 0 <= k < left.len() && left[k] == fetched[i];
            assert(whole[k] == left[k]);
            assert(k != a);
        }
    }
}

/// A mailbox that holds messages until they are fetched.
#[derive(Debug)]
pub struct GatewayImapClient {
    config: GatewayImapConfig,
    mailbox: Vec<InboundMessage>,
}

impl GatewayImapClient {
    /// The messages that wait in the mailbox, oldest first.
    pub closed spec fn mailbox(&self) -> Seq<InboundMessageView> {
        inbound_of(self.mailbox@)
    }

    /// The configuration that the client was made with.
    pub closed spec fn settings(&self) -> GatewayImapConfig {
        self.config
    }

    /// A client with an empty mailbox.
    pub fn new(config: GatewayImapConfig) -> (client: Self)
        ensures
            client.mailbox() == Seq::<InboundMessageView>::empty(),
            client.mailbox().len() <= usize::MAX,
            client.settings() == config,
    {
        let client = GatewayImapClient { config, mailbox: Vec::new() };
        assert(client.mailbox() =~= Seq::<InboundMessageView>::empty());
        client
    }

    /// Puts a message into the mailbox, behind those that wait there.
    pub fn enqueue(&mut self, message: InboundMessage)
        ensures
            final(self).mailbox() == old(self).mailbox().push(message@),
            final(self).mailbox().len() <= usize::MAX,
            final(self).settings() == old(self).settings(),
    {
        self.mailbox.push(message);
        assert(self.mailbox() =~= old(self).mailbox().push(message@));
        assert(self.mailbox().len() == self.mailbox.len());
    }

    /// Takes up to `limit` messages out of the mailbox, the newest first.
    /// A mailbox never holds more than `usize::MAX` messages, so a fetch
    /// with that limit takes all.
    pub fn fetch(&mut self, limit: usize) -> (fetched: Vec<InboundMessage>)
        ensures
            inbound_of(fetched@) == fetched_of(old(self).mailbox(), limit as nat),
            final(self).mailbox() == remaining_of(old(self).mailbox(), limit as nat),
            old(self).mailbox().len() <= usize::MAX,
            final(self).mailbox().len() <= usize::MAX,
            final(self).settings() == old(self).settings(),
    {
        let mut drained: Vec<InboundMessage> = Vec::new();
        let size = self.mailbox.len();
        let take = if limit <= size {
            limit
        } else {
            size
        };
        let mut i: usize = 0;
        while i < take
            invariant
                i <= take <= size,
                size == old(self).mailbox().len(),
                self.settings() == old(self).settings(),
                self.mailbox() == old(self).mailbox().take(size - i),
                inbound_of(drained@) == old(self).mailbox().skip(size - i).reverse(),
            decreases take - i,
        {
            let ghost before = inbound_of(drained@);
            let ghost waiting = self.mailbox();
            match self.mailbox.pop() {
                Some(message) => {
                    assert(message@ == waiting.last());
                    drained.push(message);
                    assert(inbound_of(drained@) =~= before.push(waiting.last()));
                },
                None => {},
            }
            i = i + 1;
            assert(self.mailbox() =~= old(self).mailbox().take(size - i));
            assert(inbound_of(drained@) =~= old(self).mailbox().skip(size - i).reverse());
        }
        assert(self.mailbox() =~= old(self).mailbox().take(size - i));
        drained
    }

    /// The configuration that the client was made with.
    pub fn config(&self) -> (config: &GatewayImapConfig)
        ensures
            *config == self.settings(),
    {
        &self.config
    }
}

} // verus!
