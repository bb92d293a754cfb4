//! The wording of what the vendor SDK reports.

use vstd::prelude::*;

use crate::settings::{SecurityConfig, TransportConfig, TransportMode};
use crate::transport::tls::{same_state, TransportTlsState};
use crate::text::{
    append_chars, chars_of, is_blank, signed_decimal, signed_decimal_chars, string_of, trim_chars,
    trimmed, view_of,
};

verus! {

/// What the driver is configured with.
#[derive(Debug, Clone)]
pub struct P7DriverConfig {
    pub transport: TransportConfig,
    pub security: SecurityConfig,
}

/// The kinds of report that the message store hands out.
#[derive(Debug, Clone, Copy, PartialEq, Eq, Structural)]
pub enum ReportType {
    Delivery,
    NonDelivery,
    Read,
}

/// What a reason code of a report means.
pub open spec fn reason_text(report_type: ReportType, reason: int) -> Seq<char> {
    match report_type {
        ReportType::Delivery => if reason == 0 {
            "Delivered to recipient"@
        } else if reason == 1 {
            "Relayed to downstream MTA"@
        } else if reason == 2 {
            "Delivery deferred by recipient"@
        } else if reason == 3 {
            "Converted to alternate representation"@
        } else {
            "Delivery report reason "@ + signed_decimal(reason)
        },
        ReportType::NonDelivery => if reason == 0 {
            "Unable to transfer to recipient"@
        } else if reason == 1 {
            "Incompatible content type"@
        } else if reason == 2 {
            "Recipient unknown"@
        } else if reason == 3 {
            "Security policy rejected"@
        } else {
            "Non-delivery reason "@ + signed_decimal(reason)
        },
        ReportType::Read => if reason == 0 {
            "Recipient displayed message"@
        } else if reason == 1 {
            "Recipient deleted without reading"@
        } else if reason == 2 {
            "Recipient printed message"@
        } else {
            "Read report reason "@ + signed_decimal(reason)
        },
    }
}

/// `label` followed by `n` in decimal.
fn numbered(label: &str, n: i32) -> (text: String)
    ensures
        text@ == label@ + signed_decimal(n as int),
{
    let mut text = chars_of(label);
    append_chars(&mut text, &signed_decimal_chars(n));
    string_of(&text)
}

/// The meaning of a reason code, where the report has one.
pub fn map_reason_description(report_type: ReportType, reason_code: Option<i32>) -> (text: Option<
    String,
>)
    ensures
        view_of(text) == match reason_code {
            Some(reason) => Some(reason_text(report_type, reason as int)),
            None => None,
        },
{
    let reason = match reason_code {
        Some(reason) => reason,
        None => {
            return None;
        },
    };
    let text = match report_type {
        ReportType::Delivery => if reason == 0 {
            String::from_str("Delivered to recipient")
        } else if reason == 1 {
            String::from_str("Relayed to downstream MTA")
        } else if reason == 2 {
            String::from_str("Delivery deferred by recipient")
        } else if reason == 3 {
            String::from_str("Converted to alternate representation")
        } else {
            numbered("Delivery report reason ", reason)
        },
        ReportType::NonDelivery => if reason == 0 {
            String::from_str("Unable to transfer to recipient")
        } else if reason == 1 {
            String::from_str("Incompatible content type")
        } else if reason == 2 {
            String::from_str("Recipient unknown")
        } else if reason == 3 {
            String::from_str("Security policy rejected")
        } else {
            numbered("Non-delivery reason ", reason)
        },
        ReportType::Read => if reason == 0 {
            String::from_str("Recipient displayed message")
        } else if reason == 1 {
            String::from_str("Recipient deleted without reading")
        } else if reason == 2 {
            String::from_str("Recipient printed message")
        } else {
            numbered("Read report reason ", reason)
        },
    };
    Some(text)
}

/// What a diagnostic code of a report means.
pub open spec fn diagnostic_text(code: int) -> Seq<char> {
    if code == 0 {
        "No diagnostic provided"@
    } else if code == 4 {
        "Transfer failure"@
    } else if code == 32 {
        "Encoded information types not supported"@
    } else if code == 44 {
        "Content too large"@
    } else if code == 68 {
        "Security labels required"@
    } else if code == 224 {
        "Physical rendition not supported"@
    } else {
        "Diagnostic code "@ + signed_decimal(code)
    }
}

/// The meaning of a diagnostic code, where the report has one.
pub fn map_diagnostic_description(code: Option<i32>) -> (text: Option<String>)
    ensures
        view_of(text) == match code {
            Some(diagnostic) => Some(diagnostic_text(diagnostic as int)),
            None => None,
        },
{
    let diagnostic = match code {
        Some(diagnostic) => diagnostic,
        None => {
            return None;
        },
    };
    let text = if diagnostic == 0 {
        String::from_str("No diagnostic provided")
    } else if diagnostic == 4 {
        String::from_str("Transfer failure")
    } else if diagnostic == 32 {
        String::from_str("Encoded information types not supported")
    } else if diagnostic == 44 {
        String::from_str("Content too large")
    } else if diagnostic == 68 {
        String::from_str("Security labels required")
    } else if diagnostic == 224 {
        String::from_str("Physical rendition not supported")
    } else {
        numbered("Diagnostic code ", diagnostic)
    };
    Some(text)
}

/// The driver works in the mode `Sdk` only; in any other mode the answer is
/// the complaint.
pub fn ensure_sdk_mode(mode: TransportMode) -> (checked: Result<(), String>)
    ensures
        mode == TransportMode::Sdk ==> checked is Ok,
        mode != TransportMode::Sdk ==> (checked matches Err(complaint) && complaint@
            == "P7 driver requires transport mode 'sdk'; current mode is 'Mock'"@),
{
    match mode {
        TransportMode::Sdk => Ok(()),
        TransportMode::Mock => Err(
            String::from_str("P7 driver requires transport mode 'sdk'; current mode is 'Mock'"),
        ),
    }
}

/// What went wrong in `operation` when the SDK answered with `code`; `None`
/// for the code zero, which stands for success.
pub open spec fn sdk_failure(code: int, operation: Seq<char>) -> Option<Seq<char>> {
    if code == 0 {
        None
    } else if code == -1 {
        Some(operation + " timed out"@)
    } else if code == 1 {
        Some(operation + " failed: invalid profile"@)
    } else if code == 2 {
        Some(operation + " failed: transport unreachable"@)
    } else if code == 3 {
        Some(operation + " failed: authentication rejected"@)
    } else if code == 4 {
        Some(operation + " failed: TLS handshake failure"@)
    } else {
        Some(
            "Vendor SDK returned error code "@ + signed_decimal(code) + " during "@ + operation,
        )
    }
}

/// `operation` followed by `ending`.
fn ended(operation: &str, ending: &str) -> (text: String)
    ensures
        text@ == operation@ + ending@,
{
    let mut text = String::from_str(operation);
    text.append(ending);
    text
}

/// Turns an answer code of the SDK into success or a complaint.
pub fn map_sdk_result(code: i32, operation: &str) -> (checked: Result<(), String>)
    ensures
        match (checked, sdk_failure(code as int, operation@)) {
            (Ok(_), None) => true,
            (Err(complaint), Some(wanted)) => complaint@ == wanted,
            _ => false,
        },
{
    if code == 0 {
        Ok(())
    } else if code == -1 {
        Err(ended(operation, " timed out"))
    } else if code == 1 {
        Err(ended(operation, " failed: invalid profile"))
    } else if code == 2 {
        Err(ended(operation, " failed: transport unreachable"))
    } else if code == 3 {
        Err(ended(operation, " failed: authentication rejected"))
    } else if code == 4 {
        Err(ended(operation, " failed: TLS handshake failure"))
    } else {
        let mut text = numbered("Vendor SDK returned error code ", code);
        text.append(" during ");
        text.append(operation);
        Err(text)
    }
}

/// The kinds of report as the SDK names them.
#[derive(Debug, Clone, Copy, PartialEq, Eq, Structural)]
pub enum RawReportKind {
    Delivery,
    NonDelivery,
    Read,
}

/// The kind of report that a kind of the SDK stands for.
pub open spec fn report_type_of(kind: RawReportKind) -> ReportType {
    match kind {
        RawReportKind::Delivery => ReportType::Delivery,
        RawReportKind::NonDelivery => ReportType::NonDelivery,
        RawReportKind::Read => ReportType::Read,
    }
}

impl ReportType {
    /// Computes `report_type_of`.
    pub fn from_raw(kind: RawReportKind) -> (report_type: Self)
        ensures
            report_type == report_type_of(kind),
    {
        match kind {
            RawReportKind::Delivery => ReportType::Delivery,
            RawReportKind::NonDelivery => ReportType::NonDelivery,
            RawReportKind::Read => ReportType::Read,
        }
    }
}

/// A report as the SDK hands it out, with codes in place of texts. The
/// time is in seconds since the epoch.
#[derive(Debug, Clone, PartialEq, Eq)]
pub struct RawReport {
    pub id: String,
    pub message_id: String,
    pub kind: RawReportKind,
    pub timestamp: i64,
    pub reason_code: Option<i32>,
    pub diagnostic_code: Option<i32>,
    pub supplemental_info: Option<String>,
}

/// A report with its codes put into words.
#[derive(Debug, Clone, PartialEq, Eq)]
pub struct Report {
    pub id: String,
    pub message_id: String,
    pub report_type: ReportType,
    pub timestamp: i64,
    pub diagnostic_code: Option<String>,
    pub supplemental_info: Option<String>,
}

/// The supplemental text of a report: the meaning of its reason code,
/// then `; ` and what the SDK added, as far as either is there.
pub open spec fn supplemental_text(reason: Option<Seq<char>>, added: Option<Seq<char>>) -> Option<
    Seq<char>,
> {
    match (reason, added) {
        (Some(r), Some(a)) => Some(r + seq![';', ' '] + a),
        (Some(r), None) => Some(r),
        (None, a) => a,
    }
}

/// Whether `report` is `raw` with its codes put into words.
pub open spec fn translates(raw: RawReport, report: Report) -> bool {
    &&& report.id@ == raw.id@
    &&& report.message_id@ == raw.message_id@
    &&& report.report_type == report_type_of(raw.kind)
    &&& report.timestamp == raw.timestamp
    &&& view_of(report.diagnostic_code) == match raw.diagnostic_code {
        Some(code) => Some(diagnostic_text(code as int)),
        None => None,
    }
    &&& view_of(report.supplemental_info) == supplemental_text(
        match raw.reason_code {
            Some(reason) => Some(reason_text(report_type_of(raw.kind), reason as int)),
            None => None,
        },
        view_of(raw.supplemental_info),
    )
}

/// Puts the codes of one report into words.
pub fn translate_report(raw: RawReport) -> (report: Report)
    ensures
        translates(raw, report),
{
    let report_type = ReportType::from_raw(raw.kind);
    let reason = map_reason_description(report_type, raw.reason_code);
    let diagnostic = map_diagnostic_description(raw.diagnostic_code);
    let supplemental = match (reason, raw.supplemental_info) {
        (Some(reason), Some(added)) => {
            let mut text = chars_of(reason.as_str());
            append_chars(&mut text, &vec![';', ' ']);
            append_chars(&mut text, &chars_of(added.as_str()));
            Some(string_of(&text))
        },
        (Some(reason), None) => Some(reason),
        (None, added) => added,
    };
    Report {
        id: raw.id,
        message_id: raw.message_id,
        report_type,
        timestamp: raw.timestamp,
        diagnostic_code: diagnostic,
        supplemental_info: supplemental,
    }
}

/// Puts the codes of the reports into words, report by report.
pub fn translate_reports(raw: Vec<RawReport>) -> (reports: Vec<Report>)
    ensures
        reports@.len() == raw@.len(),
        forall|i: int| 0 <= i < raw@.len() ==> translates(raw@[i], #[trigger] reports@[i]),
{
    let mut reports: Vec<Report> = Vec::new();
    let mut i: usize = 0;
    while i < raw.len()
        invariant
            i <= raw.len(),
            reports@.len() == i,
            forall|k: int| 0 <= k < i ==> translates(raw@[k], #[trigger] reports@[k]),
        decreases raw.len() - i,
    {
        let item = &raw[i];
        let copy = RawReport {
            id: item.id.clone(),
            message_id: item.message_id.clone(),
            kind: item.kind,
            timestamp: item.timestamp,
            reason_code: item.reason_code,
            diagnostic_code: item.diagnostic_code,
            supplemental_info: crate::text::copy_option(&item.supplemental_info),
        };
        reports.push(translate_report(copy));
        i = i + 1;
    }
    reports
}

/// A bound session of the SDK.
#[derive(Debug, Clone, PartialEq, Eq)]
pub struct SdkSession {
    pub handle: u64,
    pub profile: String,
}

/// The profile to bind: the named one without the white space around it,
/// or the preferred one where none is named.
pub open spec fn bound_profile(explicit: Seq<char>, preferred: Option<Seq<char>>) -> Option<
    Seq<char>,
> {
    if is_blank(explicit) {
        preferred
    } else {
        Some(trimmed(explicit))
    }
}

/// The profile to bind, or the complaint that none is named and none is
/// preferred.
pub fn resolve_profile(explicit: &str, preferred: &Option<String>) -> (profile: Result<
    String,
    String,
>)
    ensures
        match (profile, bound_profile(explicit@, view_of(*preferred))) {
            (Ok(p), Some(wanted)) => p@ == wanted,
            (Err(complaint), None) => complaint@
                == "No profile specified and transport.sdk.preferred_profile is unset"@,
            _ => false,
        },
{
    let bare = trim_chars(&chars_of(explicit));
    if bare.len() == 0 {
        match preferred {
            Some(profile) => Ok(profile.clone()),
            None => Err(
                String::from_str(
                    "No profile specified and transport.sdk.preferred_profile is unset",
                ),
            ),
        }
    } else {
        Ok(string_of(&bare))
    }
}

/// The profile to register the message store for: the named one without
/// the white space around it, or that of the session where none is named.
pub fn registration_profile(profile: &str, session: &SdkSession) -> (resolved: String)
    ensures
        resolved@ == if is_blank(profile@) {
            session.profile@
        } else {
            trimmed(profile@)
        },
{
    let bare = trim_chars(&chars_of(profile));
    if bare.len() == 0 {
        session.profile.clone()
    } else {
        string_of(&bare)
    }
}

/// The folder to fetch from or to list: the named one without the white
/// space around it, or `inbox` where none is named.
pub fn target_folder(folder: &str) -> (target: String)
    ensures
        target@ == if is_blank(folder@) {
            "inbox"@
        } else {
            trimmed(folder@)
        },
{
    let bare = trim_chars(&chars_of(folder));
    if bare.len() == 0 {
        String::from_str("inbox")
    } else {
        string_of(&bare)
    }
}

/// The session to work with, or the complaint that there is none.
pub fn current_session(session: &Option<SdkSession>) -> (current: Result<SdkSession, String>)
    ensures
        match (current, *session) {
            (Ok(c), Some(s)) => c.handle == s.handle && c.profile@ == s.profile@,
            (Err(complaint), None) => complaint@ == "No active SDK session. Call bind first."@,
            _ => false,
        },
{
    match session {
        Some(s) => Ok(SdkSession { handle: s.handle, profile: s.profile.clone() }),
        None => Err(String::from_str("No active SDK session. Call bind first.")),
    }
}

/// What the driver reports about itself.
#[derive(Debug, Clone)]
pub struct P7DriverStatus {
    pub mode: TransportMode,
    pub tls: TransportTlsState,
    pub session_active: bool,
    pub preferred_profile: Option<String>,
}

/// The view of an optional session: its handle and its profile.
pub open spec fn session_view(session: Option<SdkSession>) -> Option<(u64, Seq<char>)> {
    match session {
        Some(s) => Some((s.handle, s.profile@)),
        None => None,
    }
}

/// The decisions of the driver of the vendor SDK: which profile is bound,
/// which session a call goes to, and which folder it asks for. The calls
/// into the SDK lie outside; the driver is told of what they gave.
#[derive(Debug, Clone)]
pub struct P7Driver {
    config: TransportConfig,
    tls_state: TransportTlsState,
    security: SecurityConfig,
    session: Option<SdkSession>,
}

impl P7Driver {
    /// The transport settings.
    pub closed spec fn settings(&self) -> TransportConfig {
        self.config
    }

    /// The session, where one is bound.
    pub closed spec fn session(&self) -> Option<(u64, Seq<char>)> {
        session_view(self.session)
    }

    /// The TLS state that the driver was made with.
    pub closed spec fn tls(&self) -> TransportTlsState {
        self.tls_state
    }

    /// The security settings.
    pub closed spec fn security(&self) -> SecurityConfig {
        self.security
    }

    /// A driver without session, or the complaint that the transport is
    /// not in the mode `Sdk`.
    pub fn new(config: P7DriverConfig, tls_state: TransportTlsState) -> (driver: Result<
        Self,
        String,
    >)
        ensures
            match driver {
                Ok(d) => {
                    &&& config.transport.mode == TransportMode::Sdk
                    &&& d.settings() == config.transport
                    &&& d.security() == config.security
                    &&& d.tls() == tls_state
                    &&& d.session() is None
                },
                Err(complaint) => {
                    &&& config.transport.mode != TransportMode::Sdk
                    &&& complaint@
                        == "SDK mode is disabled. Launch the core service with transport.mode='sdk' to activate the driver."@
                },
            },
    {
        match config.transport.mode {
            TransportMode::Sdk => Ok(
                P7Driver {
                    config: config.transport,
                    tls_state,
                    security: config.security,
                    session: None,
                },
            ),
            TransportMode::Mock => Err(
                String::from_str(
                    "SDK mode is disabled. Launch the core service with transport.mode='sdk' to activate the driver.",
                ),
            ),
        }
    }

    /// What the driver reports about itself.
    pub fn status(&self) -> (status: P7DriverStatus)
        ensures
            status.mode == self.settings().mode,
            status.session_active == (self.session() is Some),
            view_of(status.preferred_profile) == view_of(self.settings().sdk.preferred_profile),
            same_state(status.tls, self.tls()),
    {
        P7DriverStatus {
            mode: self.config.mode,
            tls: self.tls_state.duplicate(),
            session_active: self.session.is_some(),
            preferred_profile: crate::text::copy_option(&self.config.sdk.preferred_profile),
        }
    }

    /// The TLS state that the driver was made with.
    pub fn tls_state(&self) -> (state: &TransportTlsState)
        ensures
            *state == self.tls(),
    {
        &self.tls_state
    }

    /// The security settings.
    pub fn security_config(&self) -> (security: &SecurityConfig)
        ensures
            *security == self.security(),
    {
        &self.security
    }

    /// The profile that a call to bind asks the SDK for, or the complaint
    /// that stands in its way.
    pub fn bind_profile(&self, profile: &str) -> (resolved: Result<String, String>)
        ensures
            self.settings().mode != TransportMode::Sdk ==> resolved is Err,
            self.settings().mode == TransportMode::Sdk ==> match (
                resolved,
                bound_profile(profile@, view_of(self.settings().sdk.preferred_profile)),
            ) {
                (Ok(p), Some(wanted)) => p@ == wanted,
                (Err(complaint), None) => complaint@
                    == "No profile specified and transport.sdk.preferred_profile is unset"@,
                _ => false,
            },
    {
        match ensure_sdk_mode(self.config.mode) {
            Ok(_) => resolve_profile(profile, &self.config.sdk.preferred_profile),
            Err(complaint) => Err(complaint),
        }
    }

    /// Notes the session that the SDK bound.
    pub fn bound(&mut self, handle: u64, profile: String)
        ensures
            final(self).session() == Some((handle, profile@)),
            final(self).settings() == old(self).settings(),
            final(self).security() == old(self).security(),
            final(self).tls() == old(self).tls(),
    {
        self.session = Some(SdkSession { handle, profile });
    }

    /// Gives the session up: the driver has none afterwards, and the one
    /// that it had is handed out to be unbound at the SDK.
    pub fn unbind(&mut self) -> (released: Result<Option<SdkSession>, String>)
        ensures
            final(self).settings() == old(self).settings(),
            final(self).security() == old(self).security(),
            final(self).tls() == old(self).tls(),
            old(self).settings().mode == TransportMode::Sdk ==> (released matches Ok(s)
                && session_view(s) == old(self).session() && final(self).session() is None),
            old(self).settings().mode != TransportMode::Sdk ==> (released is Err
                && final(self).session() == old(self).session()),
    {
        match ensure_sdk_mode(self.config.mode) {
            Ok(_) => Ok(self.session.take()),
            Err(complaint) => Err(complaint),
        }
    }

    /// The session that a call goes to, or the complaint that there is
    /// none.
    pub fn active_session(&self) -> (current: Result<SdkSession, String>)
        ensures
            self.settings().mode != TransportMode::Sdk ==> current is Err,
            self.settings().mode == TransportMode::Sdk ==> match (current, self.session()) {
                (Ok(c), Some(s)) => c.handle == s.0 && c.profile@ == s.1,
                (Err(complaint), None) => complaint@ == "No active SDK session. Call bind first."@,
                _ => false,
            },
    {
        match ensure_sdk_mode(self.config.mode) {
            Ok(_) => current_session(&self.session),
            Err(complaint) => Err(complaint),
        }
    }
}

} // verus!
