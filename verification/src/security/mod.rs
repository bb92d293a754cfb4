pub mod keychain;
pub mod smime;

pub use keychain::SqlCipherKeySource;
pub use smime::{SmimeOperation, SmimeResult, SmimeService};
