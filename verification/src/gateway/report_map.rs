//! Delivery and read notifications as internal reports.

use vstd::prelude::*;

use crate::text::{
    chars_of, contains_token, has_prefix, has_token, lines_of, slice_of, split_lines, starts_with,
    string_of, trim_chars, trimmed, views_of,
};

verus! {

/// What the gateway keeps of a delivery or read notification.
#[derive(Clone, Debug, PartialEq, Eq)]
pub struct DeliveryReport {
    pub correlation_id: String,
    pub status: String,
    pub detail: String,
}

/// A `DeliveryReport` as sequences of characters.
pub struct DeliveryReportView {
    pub correlation_id: Seq<char>,
    pub status: Seq<char>,
    pub detail: Seq<char>,
}

impl View for DeliveryReport {
    type V = DeliveryReportView;

    open spec fn view(&self) -> DeliveryReportView {
        DeliveryReportView {
            correlation_id: self.correlation_id@,
            status: self.status@,
            detail: self.detail@,
        }
    }
}

/// `s` without `prefix` at its start, as often as it stands there.
pub open spec fn without_prefixes(s: Seq<char>, prefix: Seq<char>) -> Seq<char>
    decreases s.len(),
{
    if prefix.len() > 0 && starts_with(s, prefix) {
        without_prefixes(s.skip(prefix.len() as int), prefix)
    } else {
        s
    }
}

/// The first of `lines` that begins with `prefix`.
pub open spec fn first_with_prefix(lines: Seq<Seq<char>>, prefix: Seq<char>) -> Option<Seq<char>>
    decreases lines.len(),
{
    if lines.len() == 0 {
        None
    } else if starts_with(lines[0], prefix) {
        Some(lines[0])
    } else {
        first_with_prefix(lines.skip(1), prefix)
    }
}

/// The status that a delivery status notification reports: what follows
/// `Status:` on the first line that begins with it, without the white space
/// around it; `unknown` where no line begins with it.
pub open spec fn dsn_status(payload: Seq<char>) -> Seq<char> {
    match first_with_prefix(lines_of(payload), "Status:"@) {
        Some(line) => trimmed(without_prefixes(line, "Status:"@)),
        None => "unknown"@,
    }
}

/// The status that a disposition notification reports: `read` where the
/// payload holds `displayed`, else `processed`.
pub open spec fn mdn_status(payload: Seq<char>) -> Seq<char> {
    if contains_token(payload, "displayed"@) {
        "read"@
    } else {
        "processed"@
    }
}

/// The two lines that a report is written as.
pub open spec fn dsn_text(report: DeliveryReportView) -> Seq<char> {
    "Status: "@ + report.status + "\nCorrelation-ID: "@ + report.correlation_id
}

/// Converts between notification payloads and reports.
#[derive(Default, Clone, Debug)]
pub struct ReportMapper;

impl ReportMapper {
    /// Reads a delivery status notification. The report keeps the whole
    /// payload as its detail.
    pub fn from_dsn(&self, payload: &str, correlation_id: &str) -> (report: DeliveryReport)
        ensures
            report@.correlation_id == correlation_id@,
            report@.status == dsn_status(payload@),
            report@.detail == payload@,
    {
        let chars = chars_of(payload);
        let lines = split_lines(&chars);
        let prefix = chars_of("Status:");
        let mut status: Option<String> = None;
        let mut i: usize = 0;
        assert(lines_of(payload@).skip(0) =~= lines_of(payload@));
        while i < lines.len()
            invariant_except_break
                status is None,
                first_with_prefix(lines_of(payload@).skip(i as int), prefix@) == first_with_prefix(
                    lines_of(payload@),
                    prefix@,
                ),
            invariant
                i <= lines.len(),
                prefix@ == "Status:"@,
                views_of(lines@) == lines_of(payload@),
            ensures
                match status {
                    Some(s) => s@ == dsn_status(payload@),
                    None => first_with_prefix(lines_of(payload@), "Status:"@) is None,
                },
            decreases lines.len() - i,
        {
            let line = &lines[i];
            assert(lines_of(payload@).skip(i as int)[0] == line@);
            assert(lines_of(payload@).skip(i as int).skip(1) =~= lines_of(payload@).skip(i + 1));
            if has_prefix(line, &prefix) {
                let mut from: usize = 0;
                assert(line@.skip(0) =~= line@);
                while prefix.len() > 0 && prefix.len() <= line.len() - from && has_prefix(
                    &slice_of(line, from, line.len()),
                    &prefix,
                )
                    invariant
                        from <= line.len(),
                        without_prefixes(line@.skip(from as int), prefix@) == without_prefixes(
                            line@,
                            prefix@,
                        ),
                    decreases line.len() - from,
                {
                    assert(line@.subrange(from as int, line.len() as int) =~= line@.skip(
                        from as int,
                    ));
                    assert(line@.skip(from as int).skip(prefix.len() as int) =~= line@.skip(
                        from + prefix.len(),
                    ));
                    from = from + prefix.len();
                }
                assert(line@.subrange(from as int, line.len() as int) =~= line@.skip(from as int));
                let rest = slice_of(line, from, line.len());
                status = Some(string_of(&trim_chars(&rest)));
                break;
            }
            i = i + 1;
        }
        let status = match status {
            Some(s) => s,
            None => String::from_str("unknown"),
        };
        DeliveryReport {
            correlation_id: String::from_str(correlation_id),
            status,
            detail: String::from_str(payload),
        }
    }

    /// Reads a disposition notification. The report keeps the whole payload
    /// as its detail.
    pub fn from_mdn(&self, payload: &str, correlation_id: &str) -> (report: DeliveryReport)
        ensures
            report@.correlation_id == correlation_id@,
            report@.status == mdn_status(payload@),
            report@.detail == payload@,
    {
        let shown = has_token(&chars_of(payload), &chars_of("displayed"));
        let status = if shown {
            String::from_str("read")
        } else {
            String::from_str("processed")
        };
        DeliveryReport {
            correlation_id: String::from_str(correlation_id),
            status,
            detail: String::from_str(payload),
        }
    }

    /// Writes a report as status notification text:
    /// `Status: <status>`, a line feed, `Correlation-ID: <correlation id>`.
    pub fn to_dsn(&self, report: &DeliveryReport) -> (text: String)
        ensures
            text@ == dsn_text(report@),
    {
        let mut text = String::from_str("Status: ");
        text.append(report.status.as_str());
        text.append("\nCorrelation-ID: ");
        text.append(report.correlation_id.as_str());
        text
    }
}

} // verus!
