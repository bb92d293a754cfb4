use core_service::config::LdapConfig;
use core_service::directory::cache::DirectoryCache;
use core_service::directory::ldap_client::LdapDirectoryClient;
use core_service::directory::models::{DirectoryEntry, DistributionList};
use core_service::directory::sync::DirectorySync;
use std::time::Duration;

fn entry(id: &str, name: &str) -> DirectoryEntry {
    DirectoryEntry {
        id: id.into(),
        display_name: name.into(),
        rfc822: format!("{}@example.com", name.to_lowercase()),
        or_address: format!("C=DE;S={}", name),
        attributes: Vec::new(),
    }
}

fn client() -> LdapDirectoryClient {
    LdapDirectoryClient::new(LdapConfig::default(), DirectoryCache::new(60, 32))
}

const SECOND: u128 = 1_000_000_000;

#[test]
fn stores_entries_and_evicts() {
    let mut cache = DirectoryCache::new(60, 1);
    cache.insert(entry("1", "First"));
    cache.insert(entry("2", "Second"));
    assert!(cache.get("1").is_none());
    assert!(cache.get("2").is_some());
}

#[test]
fn matches_search_query() {
    let mut cache = DirectoryCache::new(60, 5);
    cache.insert(entry("1", "Alice"));
    cache.insert(entry("2", "Bob"));
    let results = cache.search("alice");
    assert_eq!(results.len(), 1);
}

#[test]
fn caches_search_results() {
    let mut client = client();
    client.upsert_entry(DirectoryEntry {
        id: "1".into(),
        display_name: "Alice Example".into(),
        rfc822: "alice@example.com".into(),
        or_address: "C=DE;S=Example".into(),
        attributes: Vec::new(),
    });
    let first = client.search("alice");
    assert_eq!(first.len(), 1);
    let second = client.search("alice");
    assert_eq!(second.len(), 1);
}

#[test]
fn returns_distribution_lists() {
    let mut client = client();
    client.upsert_list(DistributionList {
        id: "ops".into(),
        name: "Operations".into(),
        members: vec!["alice@example.com".into()],
    });
    let list = client.get_distribution_list("ops").unwrap();
    assert_eq!(list.members.len(), 1);
}

#[test]
fn syncs_after_interval() {
    let client = LdapDirectoryClient::new(LdapConfig::default(), DirectoryCache::new(1, 8));
    let mut sync = DirectorySync::new(client, Duration::from_secs(1));
    assert!(sync.needs_sync());
    sync.sync_distribution_list(DistributionList {
        id: "team".into(),
        name: "Team".into(),
        members: vec![],
    });
    assert!(!sync.needs_sync());
    sync.client_mut().upsert_entry(DirectoryEntry {
        id: "1".into(),
        display_name: "Alice".into(),
        rfc822: "alice@example.com".into(),
        or_address: "C=DE;S=Alice".into(),
        attributes: Default::default(),
    });
}

#[test]
fn synced_list_is_seen_through_the_client() {
    let client = LdapDirectoryClient::new(LdapConfig::default(), DirectoryCache::new(1, 8));
    let mut sync = DirectorySync::new(client, Duration::from_secs(1));
    let list = DistributionList {
        id: "team".into(),
        name: "Team".into(),
        members: vec![],
    };
    assert_eq!(sync.client().get_distribution_list("team"), None);
    sync.sync_distribution_list(list.clone());
    assert_eq!(sync.client().get_distribution_list("team"), Some(list));
    assert!(!sync.needs_sync());
    sync.client_mut().upsert_entry(entry("1", "Alice"));
    assert_eq!(sync.client_mut().get_entry("1"), Some(entry("1", "Alice")));
    assert_eq!(sync.client().config(), &LdapConfig::default());
}

#[test]
fn sync_is_due_once_the_interval_has_passed() {
    let mut sync = DirectorySync::new(client(), Duration::from_secs(2));
    assert!(sync.needs_sync_at(0));
    sync.sync_distribution_list_at(
        DistributionList {
            id: "a".into(),
            name: "A".into(),
            members: vec![],
        },
        10 * SECOND,
    );
    assert!(!sync.needs_sync_at(10 * SECOND));
    assert!(!sync.needs_sync_at(12 * SECOND - 1));
    assert!(sync.needs_sync_at(12 * SECOND));
    assert!(!sync.needs_sync_at(9 * SECOND));
}

#[test]
fn query_matches_any_of_three_fields_without_case() {
    let alice = DirectoryEntry {
        id: "id-7".into(),
        display_name: "Alice \u{c4}rger".into(),
        rfc822: "A.Aerger@Example.COM".into(),
        or_address: "C=DE;S=Aerger".into(),
        attributes: vec![("room".into(), "secret".into())],
    };
    assert!(alice.matches_query("alice"));
    assert!(alice.matches_query("\u{e4}RGER"));
    assert!(alice.matches_query("example.com"));
    assert!(alice.matches_query("c=de"));
    assert!(alice.matches_query(""));
    assert!(!alice.matches_query("id-7"));
    assert!(!alice.matches_query("secret"));
}

#[test]
fn entries_expire_after_the_time_to_live() {
    let mut cache = DirectoryCache::new(2, 8);
    cache.insert_at(entry("1", "Early"), 0);
    cache.insert_at(entry("2", "Late"), SECOND);
    assert!(cache.get_at("1", 2 * SECOND).is_some());
    assert!(cache.get_at("1", 2 * SECOND + 1).is_none());
    assert_eq!(cache.get_at("2", 3 * SECOND), Some(entry("2", "Late")));
    assert!(cache.get_at("2", 3 * SECOND + 1).is_none());
}

#[test]
fn zero_time_to_live_is_one_second() {
    let mut cache = DirectoryCache::new(0, 8);
    cache.insert_at(entry("1", "One"), 5);
    assert!(cache.get_at("1", SECOND + 5).is_some());
    assert!(cache.get_at("1", SECOND + 6).is_none());
}

#[test]
fn full_cache_evicts_in_order_of_arrival() {
    let mut cache = DirectoryCache::new(60, 2);
    cache.insert_at(entry("1", "One"), 0);
    cache.insert_at(entry("2", "Two"), 0);
    cache.insert_at(entry("3", "Three"), 0);
    assert!(cache.get_at("1", 0).is_none());
    assert!(cache.get_at("2", 0).is_some());
    cache.insert_at(entry("4", "Four"), 0);
    assert!(cache.get_at("2", 0).is_none());
    let left = cache.search_at("", 0);
    assert_eq!(left, vec![entry("3", "Three"), entry("4", "Four")]);
}

#[test]
fn inserting_an_id_again_replaces_the_entry() {
    let mut cache = DirectoryCache::new(60, 8);
    cache.insert_at(entry("1", "Old"), 0);
    cache.insert_at(entry("2", "Other"), 0);
    cache.insert_at(entry("1", "New"), 0);
    assert_eq!(cache.get_at("1", 0), Some(entry("1", "New")));
    assert_eq!(cache.search_at("", 0), vec![entry("2", "Other"), entry("1", "New")]);
}

#[test]
fn zero_capacity_holds_one_entry() {
    let mut cache = DirectoryCache::new(60, 0);
    cache.insert_at(entry("1", "One"), 0);
    assert!(cache.get_at("1", 0).is_some());
    cache.insert_at(entry("2", "Two"), 0);
    assert!(cache.get_at("1", 0).is_none());
    assert!(cache.get_at("2", 0).is_some());
}

#[test]
fn client_falls_back_to_its_store() {
    let mut client = LdapDirectoryClient::new(LdapConfig::default(), DirectoryCache::new(60, 1));
    client.upsert_entry(entry("1", "Alice"));
    client.upsert_entry(entry("2", "Bob"));
    assert_eq!(client.search("alice"), vec![entry("1", "Alice")]);
    assert_eq!(client.search("bob"), vec![entry("2", "Bob")]);
    assert_eq!(client.get_entry("1"), Some(entry("1", "Alice")));
    assert_eq!(client.get_entry("2"), Some(entry("2", "Bob")));
    assert_eq!(client.get_entry("3"), None);
    assert!(client.search("carol").is_empty());
    client.upsert_entry(entry("1", "Alicia"));
    assert_eq!(client.get_entry("1"), Some(entry("1", "Alicia")));
    assert_eq!(client.config(), &LdapConfig::default());
}

#[test]
fn lists_are_replaced_by_id() {
    let mut client = client();
    assert!(client.get_distribution_list("ops").is_none());
    client.upsert_list(DistributionList {
        id: "ops".into(),
        name: "Operations".into(),
        members: vec!["alice@example.com".into()],
    });
    client.upsert_list(DistributionList {
        id: "ops".into(),
        name: "Ops".into(),
        members: vec![],
    });
    let list = client.get_distribution_list("ops").unwrap();
    assert_eq!(list.name, "Ops");
    assert!(list.members.is_empty());
}
