//! What the service reports about the transport's TLS state, and how
//! versions and fingerprints are normalized before they are compared.

use vstd::prelude::*;

use crate::settings::TransportConfig;
use crate::text::{
    append_chars, char_is_whitespace, char_to_uppercase, char_uppercase_of, chars_of, hex_char,
    hex_pair, is_text, is_whitespace_char, join_chars, joined, same_chars, string_of, texts_of,
    to_uppercase, trim_chars, trimmed, uppercase_of, view_of, views_of,
};

verus! {

/// The TLS state of the transport as it is reported.
#[derive(Debug, Clone)]
pub struct TransportTlsSummary {
    pub enabled: bool,
    pub min_version: String,
    pub fingerprint: Option<String>,
    pub fingerprint_matches: bool,
    pub expires_at: Option<String>,
    pub error: Option<String>,
    pub ocsp_responder_configured: bool,
    pub revocation_checked: bool,
    pub warnings: Vec<String>,
}

/// The normal form of a TLS version: in capitals and without the white
/// space around it, with `TLS1.3`, `TLS1_3` and `TLS13` all written
/// `TLS1_3`.
pub open spec fn tls_version(value: Seq<char>) -> Seq<char> {
    let upper = uppercase_of(trimmed(value));
    if upper == "TLS1.3"@ || upper == "TLS1_3"@ || upper == "TLS13"@ {
        "TLS1_3"@
    } else {
        upper
    }
}

/// Computes `tls_version`.
pub fn normalize_tls_version(value: &str) -> (version: String)
    ensures
        version@ == tls_version(value@),
{
    let bare = string_of(&trim_chars(&chars_of(value)));
    let upper = to_uppercase(bare.as_str());
    let word = chars_of(upper.as_str());
    if is_text(&word, "TLS1.3") || is_text(&word, "TLS1_3") || is_text(&word, "TLS13") {
        String::from_str("TLS1_3")
    } else {
        upper
    }
}

/// The normal form of a fingerprint: white space and colons left out, and
/// every other character in upper case.
pub open spec fn pin_text(value: Seq<char>) -> Seq<char>
    decreases value.len(),
{
    if value.len() == 0 {
        Seq::empty()
    } else if is_whitespace_char(value.last()) || value.last() == ':' {
        pin_text(value.drop_last())
    } else {
        pin_text(value.drop_last()) + char_uppercase_of(value.last())
    }
}

/// Computes `pin_text`.
pub fn normalize(value: &str) -> (pin: String)
    ensures
        pin@ == pin_text(value@),
{
    let chars = chars_of(value);
    let mut out: Vec<char> = Vec::new();
    let mut i: usize = 0;
    assert(chars@.take(0) =~= Seq::<char>::empty());
    while i < chars.len()
        invariant
            i <= chars.len(),
            out@ == pin_text(chars@.take(i as int)),
        decreases chars.len() - i,
    {
        let c = chars[i];
        assert(chars@.take(i + 1).drop_last() =~= chars@.take(i as int));
        if !(char_is_whitespace(c) || c == ':') {
            append_chars(&mut out, &char_to_uppercase(c));
        }
        i = i + 1;
    }
    assert(chars@.take(chars.len() as int) =~= chars@);
    string_of(&out)
}

/// The SHA-256 digest of `bytes`.
pub uninterp spec fn sha256_of(bytes: Seq<u8>) -> Seq<u8>;

/// `sha2::Sha256::digest`, its output copied into a vector. The contract
/// only names the digest.
#[verifier::external_body]
pub(crate) fn sha256(bytes: &[u8]) -> (digest: Vec<u8>)
    ensures
        digest@ == sha256_of(bytes@),
{
    <sha2::Sha256 as sha2::Digest>::digest(bytes).to_vec()
}

/// Bytes as pairs of hexadecimal digits in upper case, with colons between
/// them.
pub open spec fn hex_text(bytes: Seq<u8>) -> Seq<char> {
    joined(bytes.map_values(|b: u8| hex_pair(b, true)), seq![':'])
}

/// Computes `hex_text`.
pub fn format_bytes(bytes: &Vec<u8>) -> (text: String)
    ensures
        text@ == hex_text(bytes@),
{
    let mut pairs: Vec<Vec<char>> = Vec::new();
    let mut i: usize = 0;
    while i < bytes.len()
        invariant
            i <= bytes.len(),
            pairs@.len() == i,
            forall|k: int| 0 <= k < i ==> pairs@[k]@ == hex_pair(bytes@[k], true),
        decreases bytes.len() - i,
    {
        let b = bytes[i];
        let pair = vec![hex_char(b / 16, true), hex_char(b % 16, true)];
        assert(pair@ =~= hex_pair(b, true));
        pairs.push(pair);
        i = i + 1;
    }
    assert(views_of(pairs@) =~= bytes@.map_values(|b: u8| hex_pair(b, true)));
    let colon = vec![':'];
    assert(colon@ =~= seq![':']);
    string_of(&join_chars(&pairs, &colon))
}

/// The fingerprint of `bytes`: their SHA-256 digest as pairs of
/// hexadecimal digits with colons between them.
pub fn format_hash(bytes: &[u8]) -> (text: String)
    ensures
        text@ == hex_text(sha256_of(bytes@)),
{
    format_bytes(&sha256(bytes))
}

/// A point in time, in seconds since the Unix epoch and as it is written
/// in reports.
#[derive(Debug, Clone, PartialEq, Eq)]
pub struct Expiry {
    pub epoch_seconds: i64,
    pub text: String,
}

/// The view of an optional point in time: its seconds and its text.
pub open spec fn expiry_view(expiry: Option<Expiry>) -> Option<(i64, Seq<char>)> {
    match expiry {
        Some(e) => Some((e.epoch_seconds, e.text@)),
        None => None,
    }
}

/// What validation found out about the TLS material of the transport.
#[derive(Debug, Clone, PartialEq, Eq)]
pub struct TransportTlsState {
    pub enabled: bool,
    pub min_version: String,
    pub ca_loaded: bool,
    pub client_certificate_loaded: bool,
    pub fingerprint: Option<String>,
    pub fingerprint_matches: bool,
    pub expires_at: Option<Expiry>,
    pub error: Option<String>,
    pub ocsp_responder_configured: bool,
    pub revocation_checked: bool,
    pub warnings: Vec<String>,
}

impl TransportTlsState {
    /// TLS off, version `TLS1_3`, nothing loaded, nothing wrong.
    pub open spec fn is_default(&self) -> bool {
        &&& !self.enabled
        &&& self.min_version@ == "TLS1_3"@
        &&& !self.ca_loaded
        &&& !self.client_certificate_loaded
        &&& self.fingerprint is None
        &&& self.fingerprint_matches
        &&& self.expires_at is None
        &&& self.error is None
        &&& !self.ocsp_responder_configured
        &&& !self.revocation_checked
        &&& self.warnings@.len() == 0
    }
}

/// Whether two states say the same.
pub open spec fn same_state(a: TransportTlsState, b: TransportTlsState) -> bool {
    &&& a.enabled == b.enabled
    &&& a.min_version@ == b.min_version@
    &&& a.ca_loaded == b.ca_loaded
    &&& a.client_certificate_loaded == b.client_certificate_loaded
    &&& view_of(a.fingerprint) == view_of(b.fingerprint)
    &&& a.fingerprint_matches == b.fingerprint_matches
    &&& expiry_view(a.expires_at) == expiry_view(b.expires_at)
    &&& view_of(a.error) == view_of(b.error)
    &&& a.ocsp_responder_configured == b.ocsp_responder_configured
    &&& a.revocation_checked == b.revocation_checked
    &&& texts_of(a.warnings@) == texts_of(b.warnings@)
}

impl TransportTlsState {
    /// A copy of this state.
    pub fn duplicate(&self) -> (out: Self)
        ensures
            same_state(out, *self),
    {
        TransportTlsState {
            enabled: self.enabled,
            min_version: self.min_version.clone(),
            ca_loaded: self.ca_loaded,
            client_certificate_loaded: self.client_certificate_loaded,
            fingerprint: crate::text::copy_option(&self.fingerprint),
            fingerprint_matches: self.fingerprint_matches,
            expires_at: match &self.expires_at {
                Some(e) => Some(Expiry { epoch_seconds: e.epoch_seconds, text: e.text.clone() }),
                None => None,
            },
            error: crate::text::copy_option(&self.error),
            ocsp_responder_configured: self.ocsp_responder_configured,
            revocation_checked: self.revocation_checked,
            warnings: crate::text::copy_texts(&self.warnings),
        }
    }
}

impl Default for TransportTlsState {
    fn default() -> (out: Self)
        ensures
            out.is_default(),
    {
        TransportTlsState {
            enabled: false,
            min_version: String::from_str("TLS1_3"),
            ca_loaded: false,
            client_certificate_loaded: false,
            fingerprint: None,
            fingerprint_matches: true,
            expires_at: None,
            error: None,
            ocsp_responder_configured: false,
            revocation_checked: false,
            warnings: Vec::new(),
        }
    }
}

impl TransportTlsSummary {
    /// The state as it is reported: the same, but for what was loaded,
    /// and with the expiry as text.
    pub fn from_state(state: &TransportTlsState) -> (summary: Self)
        ensures
            summary.enabled == state.enabled,
            summary.min_version@ == state.min_version@,
            view_of(summary.fingerprint) == view_of(state.fingerprint),
            summary.fingerprint_matches == state.fingerprint_matches,
            view_of(summary.expires_at) == match state.expires_at {
                Some(e) => Some(e.text@),
                None => None,
            },
            view_of(summary.error) == view_of(state.error),
            summary.ocsp_responder_configured == state.ocsp_responder_configured,
            summary.revocation_checked == state.revocation_checked,
            texts_of(summary.warnings@) == texts_of(state.warnings@),
    {
        TransportTlsSummary {
            enabled: state.enabled,
            min_version: state.min_version.clone(),
            fingerprint: crate::text::copy_option(&state.fingerprint),
            fingerprint_matches: state.fingerprint_matches,
            expires_at: match &state.expires_at {
                Some(e) => Some(e.text.clone()),
                None => None,
            },
            error: crate::text::copy_option(&state.error),
            ocsp_responder_configured: state.ocsp_responder_configured,
            revocation_checked: state.revocation_checked,
            warnings: crate::text::copy_texts(&state.warnings),
        }
    }
}

/// What was found out about the expiry of a certificate.
#[derive(Debug, Clone, PartialEq, Eq)]
pub enum CertificateExpiry {
    /// The certificate expires at this time.
    Known(Expiry),
    /// The expiry could not be read, for this reason.
    Unparsable(String),
}

/// What was found at the place of the CA bundle.
#[derive(Debug, Clone, PartialEq, Eq)]
pub enum CaBundle {
    /// The file could not be read, for this reason.
    Unreadable(String),
    /// The file holds no certificates that can be read, for this reason.
    Invalid(String),
    /// The file holds no certificate.
    Empty,
    /// The first certificate of the file: its fingerprint, where it could
    /// be taken, and its expiry.
    First { fingerprint: Option<String>, expiry: CertificateExpiry },
}

/// What was found at the place of the client certificate.
#[derive(Debug, Clone, PartialEq, Eq)]
pub enum ClientCertificate {
    /// The file could not be read, for this reason.
    Unreadable(String),
    /// The file holds no certificate that can be read, for this reason.
    Invalid(String),
    /// The certificate, with its expiry where that could be read.
    Loaded { expiry: Option<Expiry> },
}

/// What was found on disk and on the clock. The client certificate and the
/// client key count only where the configuration names them.
#[derive(Debug, Clone, PartialEq, Eq)]
pub struct TlsFindings {
    pub ca_bundle: CaBundle,
    pub client_certificate: ClientCertificate,
    pub client_key_exists: bool,
    pub now: i64,
}

/// Whether one of the pinned fingerprints is `fingerprint`, both in their
/// normal form.
pub open spec fn is_pinned(pins: Seq<String>, fingerprint: Seq<char>) -> bool {
    exists|i: int| 0 <= i < pins.len() && pin_text((#[trigger] pins[i])@) == pin_text(fingerprint)
}

/// Whether the fingerprint is compared with the pinned ones: pinning is
/// enforced and fingerprints are configured.
pub open spec fn pins_apply(config: TransportConfig) -> bool {
    config.tls.enforce_pinset && config.fingerprints@.len() > 0
}

/// The complaint about the minimum version, where it is not `TLS1_3`.
pub open spec fn version_errors(config: TransportConfig) -> Seq<Seq<char>> {
    if tls_version(config.tls.min_version@) != "TLS1_3"@ {
        seq!["TLS minimum version must be TLS1_3 (got '"@ + config.tls.min_version@ + "')"@]
    } else {
        Seq::empty()
    }
}

/// The complaint about the expiry of the first certificate.
pub open spec fn expiry_errors(expiry: CertificateExpiry, now: i64) -> Seq<Seq<char>> {
    match expiry {
        CertificateExpiry::Known(e) => if e.epoch_seconds < now {
            seq!["TLS certificate expired"@]
        } else {
            Seq::empty()
        },
        CertificateExpiry::Unparsable(reason) => seq![
            "Failed to parse certificate expiry: "@ + reason@,
        ],
    }
}

/// The complaints about the CA bundle.
pub open spec fn ca_errors(config: TransportConfig, findings: TlsFindings) -> Seq<Seq<char>> {
    match findings.ca_bundle {
        CaBundle::Unreadable(reason) => seq![
            "Unable to read CA bundle at "@ + config.tls.ca_bundle@ + ": "@ + reason@,
        ],
        CaBundle::Invalid(reason) => seq!["Invalid CA bundle: "@ + reason@],
        CaBundle::Empty => seq!["CA bundle does not contain certificates"@],
        CaBundle::First { fingerprint, expiry } => (match fingerprint {
            Some(f) => if pins_apply(config) && !is_pinned(config.fingerprints@, f@) {
                seq!["TLS fingerprint does not match configured pinset"@]
            } else {
                Seq::empty()
            },
            None => Seq::empty(),
        }) + expiry_errors(expiry, findings.now),
    }
}

/// The complaint about the client certificate, where one is configured.
pub open spec fn client_errors(config: TransportConfig, findings: TlsFindings) -> Seq<Seq<char>> {
    match config.tls.client_certificate {
        Some(path) => match findings.client_certificate {
            ClientCertificate::Unreadable(reason) => seq![
                "Unable to read client certificate "@ + path@ + ": "@ + reason@,
            ],
            ClientCertificate::Invalid(reason) => seq![
                "Invalid client certificate "@ + path@ + ": "@ + reason@,
            ],
            ClientCertificate::Loaded { expiry } => Seq::empty(),
        },
        None => Seq::empty(),
    }
}

/// The complaint about the client key, where one is configured and none
/// was found.
pub open spec fn key_errors(config: TransportConfig, findings: TlsFindings) -> Seq<Seq<char>> {
    match config.tls.client_key {
        Some(path) => if findings.client_key_exists {
            Seq::empty()
        } else {
            seq!["Client key not found at "@ + path@]
        },
        None => Seq::empty(),
    }
}

/// All complaints, in the order in which the material is looked at.
pub open spec fn tls_errors(config: TransportConfig, findings: TlsFindings) -> Seq<Seq<char>> {
    version_errors(config) + ca_errors(config, findings) + client_errors(config, findings)
        + key_errors(config, findings)
}

/// The warnings that the configuration alone gives rise to.
pub open spec fn tls_warnings(config: TransportConfig) -> Seq<Seq<char>> {
    (match config.tls.ocsp_responder {
        Some(responder) => seq![
            "OCSP responder configured at "@ + responder@
                + ", but live revocation checks are not yet implemented"@,
        ],
        None => Seq::empty(),
    }) + (if config.tls.enforce_pinset && config.fingerprints@.len() == 0 {
        seq!["Fingerprint pinning is enforced but no fingerprints are configured"@]
    } else {
        Seq::empty()
    })
}

/// The fingerprint of the first certificate of the CA bundle.
pub open spec fn found_fingerprint(findings: TlsFindings) -> Option<Seq<char>> {
    match findings.ca_bundle {
        CaBundle::First { fingerprint, expiry } => view_of(fingerprint),
        _ => None,
    }
}

/// The expiry that is reported: that of the first certificate of the CA
/// bundle, else that of the client certificate where one is configured.
pub open spec fn found_expiry(config: TransportConfig, findings: TlsFindings) -> Option<
    (i64, Seq<char>),
> {
    match findings.ca_bundle {
        CaBundle::First { fingerprint, expiry: CertificateExpiry::Known(e) } => Some(
            (e.epoch_seconds, e.text@),
        ),
        _ => match (config.tls.client_certificate, findings.client_certificate) {
            (Some(_), ClientCertificate::Loaded { expiry }) => expiry_view(expiry),
            _ => None,
        },
    }
}

/// Whether `state` is what the configuration and the findings amount to.
/// With TLS off, nothing but the version is looked at.
pub open spec fn is_assessment(
    state: TransportTlsState,
    config: TransportConfig,
    findings: TlsFindings,
) -> bool {
    &&& state.enabled == config.tls.enabled
    &&& state.min_version@ == tls_version(config.tls.min_version@)
    &&& !state.revocation_checked
    &&& if config.tls.enabled {
        &&& state.ca_loaded == !(findings.ca_bundle is Unreadable)
        &&& state.client_certificate_loaded == (config.tls.client_certificate is Some
            && findings.client_certificate is Loaded)
        &&& view_of(state.fingerprint) == found_fingerprint(findings)
        &&& state.fingerprint_matches == match found_fingerprint(findings) {
            Some(f) => !pins_apply(config) || is_pinned(config.fingerprints@, f),
            None => true,
        }
        &&& expiry_view(state.expires_at) == found_expiry(config, findings)
        &&& view_of(state.error) == if tls_errors(config, findings).len() == 0 {
            None
        } else {
            Some(joined(tls_errors(config, findings), seq![',', ' ']))
        }
        &&& state.ocsp_responder_configured == (config.tls.ocsp_responder is Some)
        &&& texts_of(state.warnings@) == tls_warnings(config)
    } else {
        &&& !state.ca_loaded
        &&& !state.client_certificate_loaded
        &&& state.fingerprint is None
        &&& state.fingerprint_matches
        &&& state.expires_at is None
        &&& state.error is None
        &&& !state.ocsp_responder_configured
        &&& state.warnings@.len() == 0
    }
}

/// Decides `is_pinned`.
fn pinned(pins: &Vec<String>, fingerprint: &str) -> (found: bool)
    ensures
        found == is_pinned(pins@, fingerprint@),
{
    let wanted = chars_of(normalize(fingerprint).as_str());
    let mut i: usize = 0;
    while i < pins.len()
        invariant
            i <= pins.len(),
            wanted@ == pin_text(fingerprint@),
            forall|k: int| 0 <= k < i ==> pin_text((#[trigger] pins@[k])@) != pin_text(fingerprint@),
        decreases pins.len() - i,
    {
        let candidate = chars_of(normalize(pins[i].as_str()).as_str());
        if same_chars(&candidate, &wanted) {
            return true;
        }
        i = i + 1;
    }
    false
}

/// The four texts one after the other.
fn line(a: &str, b: &str, c: &str, d: &str) -> (text: Vec<char>)
    ensures
        text@ == a@ + b@ + c@ + d@,
{
    let mut text = chars_of(a);
    append_chars(&mut text, &chars_of(b));
    append_chars(&mut text, &chars_of(c));
    append_chars(&mut text, &chars_of(d));
    text
}

/// A complaint made of two texts.
fn complaint(a: &str, b: &str) -> (text: Vec<char>)
    ensures
        text@ == a@ + b@,
{
    let mut text = chars_of(a);
    append_chars(&mut text, &chars_of(b));
    text
}

/// A complaint made of three texts.
fn complaint3(a: &str, b: &str, c: &str) -> (text: Vec<char>)
    ensures
        text@ == a@ + b@ + c@,
{
    let mut text = chars_of(a);
    append_chars(&mut text, &chars_of(b));
    append_chars(&mut text, &chars_of(c));
    text
}

/// A list with one complaint.
fn one(text: Vec<char>) -> (list: Vec<Vec<char>>)
    ensures
        views_of(list@) == seq![text@],
{
    let mut list: Vec<Vec<char>> = Vec::new();
    list.push(text);
    assert(views_of(list@) =~= seq![text@]);
    list
}

/// A list without complaint.
fn none() -> (list: Vec<Vec<char>>)
    ensures
        views_of(list@) == Seq::<Seq<char>>::empty(),
{
    let list: Vec<Vec<char>> = Vec::new();
    assert(views_of(list@) =~= Seq::<Seq<char>>::empty());
    list
}

/// Moves the complaints of `more` behind those of `list`.
fn extend(list: &mut Vec<Vec<char>>, more: Vec<Vec<char>>)
    ensures
        views_of(final(list)@) == views_of(old(list)@) + views_of(more@),
{
    let ghost added = views_of(more@);
    let mut more = more;
    list.append(&mut more);
    assert(views_of(list@) =~= views_of(old(list)@) + added);
}

/// Computes `version_errors`.
fn version_complaints(config: &TransportConfig) -> (list: Vec<Vec<char>>)
    ensures
        views_of(list@) == version_errors(*config),
{
    let version = normalize_tls_version(config.tls.min_version.as_str());
    if is_text(&chars_of(version.as_str()), "TLS1_3") {
        none()
    } else {
        one(
            complaint3(
                "TLS minimum version must be TLS1_3 (got '",
                config.tls.min_version.as_str(),
                "')",
            ),
        )
    }
}

/// Computes `expiry_errors`.
fn expiry_complaints(expiry: &CertificateExpiry, now: i64) -> (list: Vec<Vec<char>>)
    ensures
        views_of(list@) == expiry_errors(*expiry, now),
{
    match expiry {
        CertificateExpiry::Known(e) => {
            if e.epoch_seconds < now {
                one(chars_of("TLS certificate expired"))
            } else {
                none()
            }
        },
        CertificateExpiry::Unparsable(reason) => one(
            complaint("Failed to parse certificate expiry: ", reason.as_str()),
        ),
    }
}

/// Computes `ca_errors`.
fn ca_complaints(config: &TransportConfig, findings: &TlsFindings) -> (list: Vec<Vec<char>>)
    ensures
        views_of(list@) == ca_errors(*config, *findings),
{
    match &findings.ca_bundle {
        CaBundle::Unreadable(reason) => one(
            line("Unable to read CA bundle at ", config.tls.ca_bundle.as_str(), ": ", reason.as_str()),
        ),
        CaBundle::Invalid(reason) => one(complaint("Invalid CA bundle: ", reason.as_str())),
        CaBundle::Empty => one(chars_of("CA bundle does not contain certificates")),
        CaBundle::First { fingerprint, expiry } => {
            let mut list = match fingerprint {
                Some(f) => {
                    if config.tls.enforce_pinset && config.fingerprints.len() > 0 && !pinned(
                        &config.fingerprints,
                        f.as_str(),
                    ) {
                        one(chars_of("TLS fingerprint does not match configured pinset"))
                    } else {
                        none()
                    }
                },
                None => none(),
            };
            extend(&mut list, expiry_complaints(expiry, findings.now));
            list
        },
    }
}

/// Computes `client_errors`.
fn client_complaints(config: &TransportConfig, findings: &TlsFindings) -> (list: Vec<Vec<char>>)
    ensures
        views_of(list@) == client_errors(*config, *findings),
{
    match &config.tls.client_certificate {
        Some(path) => match &findings.client_certificate {
            ClientCertificate::Unreadable(reason) => one(
                line("Unable to read client certificate ", path.as_str(), ": ", reason.as_str()),
            ),
            ClientCertificate::Invalid(reason) => one(
                line("Invalid client certificate ", path.as_str(), ": ", reason.as_str()),
            ),
            ClientCertificate::Loaded { expiry } => none(),
        },
        None => none(),
    }
}

/// Computes `key_errors`.
fn key_complaints(config: &TransportConfig, findings: &TlsFindings) -> (list: Vec<Vec<char>>)
    ensures
        views_of(list@) == key_errors(*config, *findings),
{
    match &config.tls.client_key {
        Some(path) => {
            if findings.client_key_exists {
                none()
            } else {
                one(complaint("Client key not found at ", path.as_str()))
            }
        },
        None => none(),
    }
}

/// Computes `tls_warnings`.
fn warnings_for(config: &TransportConfig) -> (list: Vec<String>)
    ensures
        texts_of(list@) == tls_warnings(*config),
{
    let mut list: Vec<String> = Vec::new();
    assert(texts_of(list@) =~= Seq::<Seq<char>>::empty());
    match &config.tls.ocsp_responder {
        Some(responder) => {
            let text = string_of(
                &complaint3(
                    "OCSP responder configured at ",
                    responder.as_str(),
                    ", but live revocation checks are not yet implemented",
                ),
            );
            list.push(text);
            assert(texts_of(list@) =~= seq![text@]);
        },
        None => {},
    }
    let ghost first = texts_of(list@);
    if config.tls.enforce_pinset && config.fingerprints.len() == 0 {
        list.push(
            String::from_str("Fingerprint pinning is enforced but no fingerprints are configured"),
        );
        assert(texts_of(list@) =~= first + seq![
            "Fingerprint pinning is enforced but no fingerprints are configured"@,
        ]);
    } else {
        assert(texts_of(list@) =~= first + Seq::<Seq<char>>::empty());
    }
    list
}

/// A copy of an optional point in time.
fn copy_expiry(expiry: &Option<Expiry>) -> (out: Option<Expiry>)
    ensures
        expiry_view(out) == expiry_view(*expiry),
{
    match expiry {
        Some(e) => Some(Expiry { epoch_seconds: e.epoch_seconds, text: e.text.clone() }),
        None => None,
    }
}

/// Computes `found_expiry`.
fn reported_expiry(config: &TransportConfig, findings: &TlsFindings) -> (expiry: Option<Expiry>)
    ensures
        expiry_view(expiry) == found_expiry(*config, *findings),
{
    match &findings.ca_bundle {
        CaBundle::First { fingerprint, expiry: CertificateExpiry::Known(e) } => Some(
            Expiry { epoch_seconds: e.epoch_seconds, text: e.text.clone() },
        ),
        _ => match (&config.tls.client_certificate, &findings.client_certificate) {
            (Some(_), ClientCertificate::Loaded { expiry }) => copy_expiry(expiry),
            _ => None,
        },
    }
}

/// Puts the configuration and what was found together: what is loaded,
/// which fingerprint and expiry are reported, what is wrong and what is
/// worth a warning. The complaints are joined with `, `.
pub fn assess(config: &TransportConfig, findings: &TlsFindings) -> (state: TransportTlsState)
    ensures
        is_assessment(state, *config, *findings),
{
    let mut state = TransportTlsState::default();
    state.enabled = config.tls.enabled;
    state.min_version = normalize_tls_version(config.tls.min_version.as_str());
    if !config.tls.enabled {
        return state;
    }
    let mut errors = version_complaints(config);
    extend(&mut errors, ca_complaints(config, findings));
    extend(&mut errors, client_complaints(config, findings));
    extend(&mut errors, key_complaints(config, findings));
    assert(views_of(errors@) == tls_errors(*config, *findings));

    state.ca_loaded = match &findings.ca_bundle {
        CaBundle::Unreadable(_) => false,
        _ => true,
    };
    state.client_certificate_loaded = match (
        &config.tls.client_certificate,
        &findings.client_certificate,
    ) {
        (Some(_), ClientCertificate::Loaded { expiry }) => true,
        _ => false,
    };
    match &findings.ca_bundle {
        CaBundle::First { fingerprint: Some(f), expiry } => {
            state.fingerprint = Some(f.clone());
            if config.tls.enforce_pinset && config.fingerprints.len() > 0 {
                state.fingerprint_matches = pinned(&config.fingerprints, f.as_str());
            }
        },
        _ => {},
    }
    state.expires_at = reported_expiry(config, findings);
    state.ocsp_responder_configured = config.tls.ocsp_responder.is_some();
    state.warnings = warnings_for(config);
    if errors.len() > 0 {
        let separator = vec![',', ' '];
        assert(separator@ =~= seq![',', ' ']);
        state.error = Some(string_of(&join_chars(&errors, &separator)));
    }
    state
}

} // verus!
