pub mod cache;
pub mod ldap_client;
pub mod models;
pub mod sync;

pub use cache::DirectoryCache;
pub use ldap_client::LdapDirectoryClient;
pub use models::{DirectoryEntry, DistributionList};
pub use sync::DirectorySync;
