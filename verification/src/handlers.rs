//! The shapes of what the HTTP layer takes and answers.

use vstd::prelude::*;

use crate::settings::TransportMode;
use crate::transport::tls::TransportTlsSummary;

verus! {

/// The query of a message listing.
#[derive(Debug)]
pub struct MessagesQuery {
    pub folder: Option<String>,
}

/// The answer to a status request.
#[derive(Debug)]
pub struct ServiceStatusResponse {
    pub transport_mode: TransportMode,
    pub tls: TransportTlsSummary,
    pub smime_enabled: bool,
}

} // verus!
