//! When the directory is due for a synchronisation.

use std::time::{Duration, Instant};
use vstd::prelude::*;

use crate::directory::cache::{nanos_since, start_clock};
use crate::directory::ldap_client::{listed, with_list, LdapDirectoryClient};
use crate::directory::models::DistributionList;

verus! {

/// The length of an interval in nanoseconds.
pub uninterp spec fn nanos_in(interval: Duration) -> nat;

/// `Duration::as_nanos`: the whole length of the interval in nanoseconds.
/// The contract only names the number.
#[verifier::external_body]
fn duration_nanos(interval: &Duration) -> (nanos: u128)
    ensures
        nanos == nanos_in(*interval),
{
    interval.as_nanos()
}

/// Whether a synchronisation is due at `now`: none has happened yet, or the
/// interval has passed since the last one.
pub open spec fn is_due(last_sync: Option<nat>, interval: nat, now: nat) -> bool {
    match last_sync {
        None => true,
        Some(at) => now >= at && now - at >= interval,
    }
}

/// Keeps the time of the last synchronisation of a directory client. Time
/// is counted in nanoseconds on a clock that starts when the value is made.
#[derive(Debug)]
pub struct DirectorySync {
    client: LdapDirectoryClient,
    clock: Instant,
    last_sync: Option<u128>,
    interval: u128,
}

impl DirectorySync {
    /// The client that is kept in step.
    pub closed spec fn directory(&self) -> LdapDirectoryClient {
        self.client
    }

    /// The time of the last synchronisation, if there was one.
    pub closed spec fn last_sync(&self) -> Option<nat> {
        match self.last_sync {
            Some(at) => Some(at as nat),
            None => None,
        }
    }

    /// The interval between synchronisations, in nanoseconds.
    pub closed spec fn interval(&self) -> nat {
        self.interval as nat
    }

    /// A synchroniser that is due at once.
    pub fn new(client: LdapDirectoryClient, interval: Duration) -> (sync: Self)
        ensures
            sync.directory() == client,
            sync.last_sync() is None,
            sync.interval() == nanos_in(interval),
    {
        DirectorySync {
            client,
            clock: start_clock(),
            last_sync: None,
            interval: duration_nanos(&interval),
        }
    }

    /// The client that is kept in step.
    pub fn client(&self) -> (client: &LdapDirectoryClient)
        ensures
            *client == self.directory(),
    {
        &self.client
    }

    /// The client that is kept in step, to work with it. What is done to
    /// it is done to the client of this value; the time of the last
    /// synchronisation and the interval stay.
    pub fn client_mut(&mut self) -> (client: &mut LdapDirectoryClient)
        ensures
            *client == old(self).directory(),
            final(self).directory() == *final(client),
            final(self).last_sync() == old(self).last_sync(),
            final(self).interval() == old(self).interval(),
    {
        &mut self.client
    }

    /// Whether a synchronisation is due at the time `now`.
    pub fn needs_sync_at(&self, now: u128) -> (due: bool)
        ensures
            due == is_due(self.last_sync(), self.interval(), now as nat),
    {
        match self.last_sync {
            None => true,
            Some(at) => now >= at && now - at >= self.interval,
        }
    }

    /// Whether a synchronisation is due at the time that the clock shows.
    pub fn needs_sync(&self) -> (due: bool)
        ensures
            exists|now: nat| due == is_due(self.last_sync(), self.interval(), now),
    {
        let now = nanos_since(&self.clock);
        let due = self.needs_sync_at(now);
        assert(due == is_due(self.last_sync(), self.interval(), now as nat));
        due
    }

    /// Stores `list` in the client and notes the time `now` as that of the
    /// last synchronisation.
    pub fn sync_distribution_list_at(&mut self, list: DistributionList, now: u128)
        ensures
            final(self).directory().settings() == old(self).directory().settings(),
            final(self).directory()@.lists == with_list(old(self).directory()@.lists, list@),
            listed(final(self).directory()@.lists, list@.id) == Some(list@),
            final(self).directory()@.entries == old(self).directory()@.entries,
            final(self).directory()@.cache == old(self).directory()@.cache,
            final(self).last_sync() == Some(now as nat),
            final(self).interval() == old(self).interval(),
    {
        self.client.upsert_list(list);
        self.last_sync = Some(now);
    }

    /// Stores `list` in the client and notes the time that the clock shows
    /// as that of the last synchronisation.
    pub fn sync_distribution_list(&mut self, list: DistributionList)
        ensures
            final(self).directory().settings() == old(self).directory().settings(),
            final(self).directory()@.lists == with_list(old(self).directory()@.lists, list@),
            listed(final(self).directory()@.lists, list@.id) == Some(list@),
            final(self).directory()@.entries == old(self).directory()@.entries,
            final(self).directory()@.cache == old(self).directory()@.cache,
            final(self).last_sync() is Some,
            final(self).interval() == old(self).interval(),
    {
        let now = nanos_since(&self.clock);
        self.sync_distribution_list_at(list, now);
    }
}

} // verus!
