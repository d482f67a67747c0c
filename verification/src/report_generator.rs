//! The error report: the entries as an HTML table.

use crate::text::{decimal, decimal_text};
use crate::types::{entry_views, LogEntry, LogEntryView};
use vstd::prelude::*;

verus! {

/// What stands before the rows of the table.
pub open spec fn report_head() -> Seq<char> {
    "<html><head><title>Error Report</title></head><body>"@ + "<h1>Error Report</h1>"@
        + "<table border='1'><tr><th>Timestamp</th><th>Log Type</th><th>Priority</th><th>Message</th></tr>"@
}

/// What stands after the rows of the table.
pub open spec fn report_tail() -> Seq<char> {
    "</table></body></html>"@
}

/// The table row of `entry`: timestamp in seconds, type, priority, message.
/// The message is put in as it is.
pub open spec fn report_row(entry: LogEntryView) -> Seq<char> {
    "<tr>"@ + "<td>"@ + decimal(entry.timestamp as nat) + "</td><td>"@ + entry.log_type.name()
        + "</td><td>"@ + entry.priority.name() + "</td><td>"@ + entry.message + "</td>"@
        + "</tr>"@
}

/// The rows of `entries`, one after the other.
pub open spec fn report_rows(entries: Seq<LogEntryView>) -> Seq<char>
    decreases entries.len(),
{
    if entries.len() == 0 {
        Seq::empty()
    } else {
        report_rows(entries.drop_last()) + report_row(entries.last())
    }
}

/// The report on `entries`.
pub open spec fn html_report(entries: Seq<LogEntryView>) -> Seq<char> {
    report_head() + report_rows(entries) + report_tail()
}

/// Longest time that sending the report may take, in seconds.
pub const REPORT_TIMEOUT_SECONDS: u64 = 10;

/// Name of the file that the report is kept in.
pub fn report_file_name() -> (name: &'static str)
    ensures
        name@ == "error_report.html"@,
{
    "error_report.html"
}

fn push_row(html: &mut String, entry: &LogEntry)
    ensures
        final(html)@ == old(html)@ + report_row(entry@),
{
    let ghost start = html@;
    html.append("<tr>");
    html.append("<td>");
    html.append(decimal_text(entry.timestamp).as_str());
    html.append("</td><td>");
    html.append(entry.log_type.as_str());
    html.append("</td><td>");
    html.append(entry.priority.as_str());
    html.append("</td><td>");
    html.append(entry.message.as_str());
    html.append("</td>");
    html.append("</tr>");
    assert(html@ =~= start + report_row(entry@));
}

/// The report on `log_entries` as HTML text: a heading and a table with one
/// row for each entry, in order.
pub fn generate_html_report(log_entries: &Vec<LogEntry>) -> (html: String)
    ensures
        html@ == html_report(entry_views(log_entries@)),
{
    let ghost all = entry_views(log_entries@);
    let mut html = String::new();
    html.append("<html><head><title>Error Report</title></head><body>");
    html.append("<h1>Error Report</h1>");
    html.append(
        "<table border='1'><tr><th>Timestamp</th><th>Log Type</th><th>Priority</th><th>Message</th></tr>",
    );
    assert(html@ =~= report_head());
    let mut i: usize = 0;
    assert(all.take(0) =~= Seq::<LogEntryView>::empty());
    assert(html@ =~= report_head() + report_rows(all.take(0)));
    while i < log_entries.len()
        invariant
            i <= log_entries.len(),
            all == entry_views(log_entries@),
            html@ == report_head() + report_rows(all.take(i as int)),
        decreases log_entries.len() - i,
    {
        proof {
            assert(all.take(i + 1).drop_last() =~= all.take(i as int));
            assert(all.take(i + 1).last() == log_entries@[i as int]@);
        }
        push_row(&mut html, &log_entries[i]);
        assert(html@ =~= report_head() + report_rows(all.take(i + 1)));
        i = i + 1;
    }
    assert(all.take(log_entries.len() as int) =~= all);
    html.append("</table></body></html>");
    html
}

} // verus!
