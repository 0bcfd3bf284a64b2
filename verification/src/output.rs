//! How results and reports are written: coloured lines for the terminal, and
//! an HTML page.
use crate::engine::result_views;
use crate::text::{contains_seq, decimal, is_digit, occurs_at, lemma_decimal_digits, pad_left, push_decimal, push_decimal_padded, push_str};
use crate::types::{opt_view, ResultView, ScanReport, ScanResult};
use vstd::prelude::*;

verus! {

/// The status class of a result: 2 for 200-299, 3 for 300-399, 4 for
/// 400-499, 5 for anything else.
pub open spec fn status_class(status: u16) -> int {
    if 200 <= status <= 299 {
        2
    } else if 300 <= status <= 399 {
        3
    } else if 400 <= status <= 499 {
        4
    } else {
        5
    }
}

/// How many of `rs` are in the status class `k`.
pub open spec fn class_count(rs: Seq<ResultView>, k: int) -> nat
    decreases rs.len(),
{
    if rs.len() == 0 {
        0
    } else {
        class_count(rs.drop_last(), k) + if status_class(rs.last().status) == k {
            1nat
        } else {
            0nat
        }
    }
}

/// How many of `results` are in each status class: 2xx, 3xx, 4xx and the rest.
pub fn count_classes(results: &Vec<ScanResult>) -> (c: (usize, usize, usize, usize))
    ensures
        c.0 == class_count(result_views(results@), 2),
        c.1 == class_count(result_views(results@), 3),
        c.2 == class_count(result_views(results@), 4),
        c.3 == class_count(result_views(results@), 5),
        c.0 + c.1 + c.2 + c.3 == results@.len(),
{
    let ghost rs = result_views(results@);
    let mut s2: usize = 0;
    let mut s3: usize = 0;
    let mut s4: usize = 0;
    let mut s5: usize = 0;
    let mut i: usize = 0;
    while i < results.len()
        invariant
            i <= results@.len(),
            rs == result_views(results@),
            s2 == class_count(rs.take(i as int), 2),
            s3 == class_count(rs.take(i as int), 3),
            s4 == class_count(rs.take(i as int), 4),
            s5 == class_count(rs.take(i as int), 5),
            s2 + s3 + s4 + s5 == i,
        decreases results@.len() - i,
    {
        assert(rs.take(i + 1).drop_last() == rs.take(i as int));
        let st = results[i].status;
        if 200 <= st && st <= 299 {
            s2 = s2 + 1;
        } else if 300 <= st && st <= 399 {
            s3 = s3 + 1;
        } else if 400 <= st && st <= 499 {
            s4 = s4 + 1;
        } else {
            s5 = s5 + 1;
        }
        i = i + 1;
    }
    assert(rs.take(i as int) == rs);
    (s2, s3, s4, s5)
}

/// The ANSI colour code for a status: green for 2xx, yellow for 3xx, blue
/// for 4xx, red otherwise.
pub open spec fn ansi_color(status: u16) -> Seq<char> {
    if 200 <= status <= 299 {
        "\x1b[32m"@
    } else if 300 <= status <= 399 {
        "\x1b[33m"@
    } else if 400 <= status <= 499 {
        "\x1b[34m"@
    } else {
        "\x1b[31m"@
    }
}

/// `text` coloured for `status`, or as it is when colour is off.
pub open spec fn colored(color: bool, status: u16, text: Seq<char>) -> Seq<char> {
    if color {
        ansi_color(status) + text + "\x1b[0m"@
    } else {
        text
    }
}

/// The status in brackets, right-aligned in three columns: `[200]`.
pub open spec fn status_tag(status: u16) -> Seq<char> {
    "["@ + pad_left(decimal(status as nat), 3) + "]"@
}

/// ` -> <location>` for a redirect, nothing otherwise.
pub open spec fn redirect_suffix(location: Option<Seq<char>>) -> Seq<char> {
    match location {
        Some(l) => " -> "@ + l,
        None => Seq::empty(),
    }
}

/// The line for one result: the coloured status tag, the URL and the redirect.
pub open spec fn result_line(color: bool, r: ResultView) -> Seq<char> {
    colored(color, r.status, status_tag(r.status)) + " "@ + r.url + redirect_suffix(r.redirect_location)
}

/// The lines for the results `rs`, each ended by a newline.
pub open spec fn result_lines(color: bool, rs: Seq<ResultView>) -> Seq<char>
    decreases rs.len(),
{
    if rs.len() == 0 {
        Seq::empty()
    } else {
        result_lines(color, rs.drop_last()) + result_line(color, rs.last()) + "\n"@
    }
}

/// The text report: a summary, a blank line, then one line per result; the
/// duration is given as text, in seconds.
pub open spec fn text_report(color: bool, target: Seq<char>, duration: Seq<char>, requests: nat, rs: Seq<ResultView>, errors: nat) -> Seq<char> {
    "Target:   "@ + target + "\n"@ + "Duration: "@ + duration + "s\n"@ + "Requests: "@
        + decimal(requests) + "\n"@ + "Found:    "@ + decimal(rs.len()) + "\n"@ + "Errors:   "@
        + decimal(errors) + "\n\n"@ + result_lines(color, rs)
}

/// Writes results and reports for the terminal.
pub struct TextFormatter {
    pub color: bool,
}

impl TextFormatter {
    /// `text` coloured for `status` when colour is on.
    pub fn status_color(&self, status: u16, text: &str) -> (s: String)
        ensures
            s@ == colored(self.color, status, text@),
    {
        let mut s = String::new();
        if !self.color {
            push_str(&mut s, text);
            return s;
        }
        if 200 <= status && status <= 299 {
            push_str(&mut s, "\x1b[32m");
        } else if 300 <= status && status <= 399 {
            push_str(&mut s, "\x1b[33m");
        } else if 400 <= status && status <= 499 {
            push_str(&mut s, "\x1b[34m");
        } else {
            push_str(&mut s, "\x1b[31m");
        }
        push_str(&mut s, text);
        push_str(&mut s, "\x1b[0m");
        s
    }

    /// The line for `result`: `[status] url`, then ` -> location` for a redirect.
    pub fn format_result(&self, result: &ScanResult) -> (s: String)
        ensures
            s@ == result_line(self.color, result@),
    {
        let mut tag = String::new();
        push_str(&mut tag, "[");
        push_decimal_padded(&mut tag, result.status as u64, 3);
        push_str(&mut tag, "]");
        let mut s = self.status_color(result.status, tag.as_str());
        push_str(&mut s, " ");
        push_str(&mut s, result.url.as_str());
        if let Some(loc) = &result.redirect_location {
            push_str(&mut s, " -> ");
            push_str(&mut s, loc.as_str());
        }
        s
    }

    /// The report: target, duration (`duration_text` seconds), requests,
    /// results found and errors, then a line per result.
    pub fn format_report(&self, report: &ScanReport, duration_text: &str) -> (s: String)
        ensures
            s@ == text_report(
                self.color,
                report.target@,
                duration_text@,
                report.total_requests as nat,
                result_views(report.results@),
                report.errors as nat,
            ),
    {
        let mut s = String::new();
        push_str(&mut s, "Target:   ");
        push_str(&mut s, report.target.as_str());
        push_str(&mut s, "\n");
        push_str(&mut s, "Duration: ");
        push_str(&mut s, duration_text);
        push_str(&mut s, "s\n");
        push_str(&mut s, "Requests: ");
        push_decimal(&mut s, report.total_requests as u64);
        push_str(&mut s, "\n");
        push_str(&mut s, "Found:    ");
        push_decimal(&mut s, report.results.len() as u64);
        push_str(&mut s, "\n");
        push_str(&mut s, "Errors:   ");
        push_decimal(&mut s, report.errors as u64);
        push_str(&mut s, "\n\n");
        let ghost head = s@;
        let mut i: usize = 0;
        while i < report.results.len()
            invariant
                i <= report.results@.len(),
                s@ == head + result_lines(self.color, result_views(report.results@).take(i as int)),
            decreases report.results@.len() - i,
        {
            let line = self.format_result(&report.results[i]);
            push_str(&mut s, line.as_str());
            push_str(&mut s, "\n");
            assert(result_views(report.results@).take(i + 1).drop_last() == result_views(report.results@).take(i as int));
            i = i + 1;
        }
        assert(result_views(report.results@).take(i as int) == result_views(report.results@));
        s
    }
}

/// The CSS class of a status in the HTML report.
pub open spec fn status_css(status: u16) -> Seq<char> {
    if 200 <= status <= 299 {
        "status-2xx"@
    } else if 300 <= status <= 399 {
        "status-3xx"@
    } else if 400 <= status <= 499 {
        "status-4xx"@
    } else {
        "status-5xx"@
    }
}

/// The table row of one result: status, URL, length and redirect (`-` for none).
pub open spec fn html_row(r: ResultView) -> Seq<char> {
    "<tr><td class=\""@ + status_css(r.status) + "\">"@ + decimal(r.status as nat) + "</td><td>"@ + r.url
        + "</td><td>"@ + decimal(r.content_length as nat) + "</td><td>"@ + match r.redirect_location {
        Some(l) => l,
        None => "-"@,
    } + "</td></tr>"@
}

/// The table rows of the results `rs`.
pub open spec fn html_rows(rs: Seq<ResultView>) -> Seq<char>
    decreases rs.len(),
{
    if rs.len() == 0 {
        Seq::empty()
    } else {
        html_rows(rs.drop_last()) + html_row(rs.last())
    }
}

/// The page up to the number of requests.
pub open spec fn html_head() -> Seq<char> {
    "<!DOCTYPE html>\n<html lang=\"en\"><head><meta charset=\"UTF-8\"><title>PathScan Report</title>\n<style>\nbody { font-family: -apple-system, sans-serif; max-width: 960px; margin: 0 auto; padding: 2rem; background: #1a1a2e; color: #eee; }\ntable { width: 100%; border-collapse: collapse; margin-top: 1rem; }\nth, td { padding: 0.5rem 1rem; text-align: left; border-bottom: 1px solid #333; }\nth { background: #16213e; }\n.status-2xx { color: #4caf50; } .status-3xx { color: #ff9800; }\n.status-4xx { color: #2196f3; } .status-5xx { color: #f44336; }\n.summary { display: flex; gap: 2rem; margin: 1rem 0; }\n.summary div { background: #16213e; padding: 1rem 2rem; border-radius: 8px; text-align: center; }\n.summary .value { font-size: 2rem; font-weight: bold; }\n#search { width: 100%; padding: 0.5rem; margin-top: 1rem; background: #16213e; color: #eee; border: 1px solid #333; }\n</style></head><body>\n<h1>PathScan Report</h1>\n<div class=\"summary\">\n<div><div class=\"value\">"@
}

/// The summary: requests, results found, errors and the duration, given as
/// text in seconds.
pub open spec fn html_summary(requests: nat, found: nat, errors: nat, duration: Seq<char>) -> Seq<char> {
    decimal(requests) + "</div>Requests</div><div><div class=\"value\">"@ + decimal(found)
        + "</div>Found</div><div><div class=\"value\">"@ + decimal(errors)
        + "</div>Errors</div><div><div class=\"value\">"@ + duration + "s</div>Duration</div></div>\n"@
}

/// One box of the status counts: the count `n` under its label.
pub open spec fn count_box(n: nat, label: Seq<char>) -> Seq<char> {
    "<div><div class=\"value "@ + label_css(label) + "\">"@ + decimal(n) + "</div>"@ + label + "</div>"@
}

/// The box of the status counts for the class `k` of `rs`.
pub open spec fn html_count_box(rs: Seq<ResultView>, k: int, label: Seq<char>) -> Seq<char> {
    count_box(class_count(rs, k), label)
}

/// The CSS class that goes with a status-class label such as `2xx`.
pub open spec fn label_css(label: Seq<char>) -> Seq<char> {
    "status-"@ + label
}

/// The count of results in each status class: 2xx, 3xx, 4xx and 5xx (all
/// other statuses).
pub open spec fn html_counts(rs: Seq<ResultView>) -> Seq<char> {
    "<div class=\"summary\">"@ + html_count_box(rs, 2, "2xx"@) + html_count_box(rs, 3, "3xx"@)
        + html_count_box(rs, 4, "4xx"@) + html_count_box(rs, 5, "5xx"@) + "</div>\n"@
}

/// The search field and the head of the results table.
pub open spec fn html_table_head() -> Seq<char> {
    "<input id=\"search\" type=\"text\" placeholder=\"Search results...\" onkeyup=\"filterRows()\">\n<table id=\"results\"><thead><tr><th>Status</th><th>URL</th><th>Length</th><th>Redirect</th></tr></thead><tbody>"@
}

/// The end of the table and the script that hides the rows whose text does
/// not contain what is typed in the search field, ignoring case.
pub open spec fn html_tail() -> Seq<char> {
    "</tbody></table>\n<script>\nfunction filterRows() {\n  var q = document.getElementById('search').value.toLowerCase();\n  var rows = document.querySelectorAll('#results tbody tr');\n  for (var i = 0; i < rows.length; i++) {\n    rows[i].style.display = rows[i].textContent.toLowerCase().indexOf(q) === -1 ? 'none' : '';\n  }\n}\n</script></body></html>"@
}

/// The HTML report: a summary of requests, results found, errors and
/// duration, the count of results in each status class, a search field, and
/// a table with a row per result that the search filters.
pub open spec fn html_report(duration: Seq<char>, requests: nat, rs: Seq<ResultView>, errors: nat) -> Seq<char> {
    html_head() + html_summary(requests, rs.len(), errors, duration) + html_counts(rs) + html_table_head()
        + html_rows(rs) + html_tail()
}

/// The CSS class of `status`.
fn css_class(status: u16) -> (c: &'static str)
    ensures
        c@ == status_css(status),
{
    if 200 <= status && status <= 299 {
        "status-2xx"
    } else if 300 <= status && status <= 399 {
        "status-3xx"
    } else if 400 <= status && status <= 499 {
        "status-4xx"
    } else {
        "status-5xx"
    }
}

/// The redirect column of a row: the location, or `-`.
fn redirect_cell(location: &Option<String>) -> (c: String)
    ensures
        c@ == match opt_view(*location) {
            Some(l) => l,
            None => "-"@,
        },
{
    let mut c = String::new();
    match location {
        Some(l) => push_str(&mut c, l.as_str()),
        None => push_str(&mut c, "-"),
    }
    c
}

/// Appends the table row of `r`.
fn push_html_row(s: &mut String, r: &ScanResult)
    ensures
        final(s)@ == old(s)@ + html_row(r@),
{
    let cell = redirect_cell(&r.redirect_location);
    let ghost a = "<tr><td class=\""@ + status_css(r.status) + "\">"@;
    let ghost b = a + decimal(r.status as nat) + "</td><td>"@ + r.url@ + "</td><td>"@;
    let ghost c = b + decimal(r.content_length as nat) + "</td><td>"@ + cell@ + "</td></tr>"@;
    assert(c == html_row(r@));
    let mut t = String::new();
    push_str(&mut t, "<tr><td class=\"");
    push_str(&mut t, css_class(r.status));
    push_str(&mut t, "\">");
    assert(t@ == a);
    push_decimal(&mut t, r.status as u64);
    push_str(&mut t, "</td><td>");
    push_str(&mut t, r.url.as_str());
    push_str(&mut t, "</td><td>");
    assert(t@ == b);
    push_decimal(&mut t, r.content_length);
    push_str(&mut t, "</td><td>");
    push_str(&mut t, cell.as_str());
    push_str(&mut t, "</td></tr>");
    assert(t@ == c);
    push_str(s, t.as_str());
}

/// Writes reports as JSON; the writing itself is done where serialization is
/// available, outside this library.
pub struct JsonFormatter;

/// Writes reports as an HTML page.
pub struct HtmlFormatter;

/// Appends the summary of the HTML report.
fn push_html_summary(s: &mut String, requests: u64, found: u64, errors: u64, duration_text: &str)
    ensures
        final(s)@ == old(s)@ + html_summary(requests as nat, found as nat, errors as nat, duration_text@),
{
    let mut t = String::new();
    push_decimal(&mut t, requests);
    push_str(&mut t, "</div>Requests</div><div><div class=\"value\">");
    push_decimal(&mut t, found);
    push_str(&mut t, "</div>Found</div><div><div class=\"value\">");
    push_decimal(&mut t, errors);
    push_str(&mut t, "</div>Errors</div><div><div class=\"value\">");
    push_str(&mut t, duration_text);
    push_str(&mut t, "s</div>Duration</div></div>\n");
    push_str(s, t.as_str());
}

/// Appends the box that shows `count` results of the class labelled `label`.
fn push_count_box(s: &mut String, count: usize, label: &str)
    ensures
        final(s)@ == old(s)@ + count_box(count as nat, label@),
{
    let mut t = String::new();
    push_str(&mut t, "<div><div class=\"value ");
    push_str(&mut t, "status-");
    push_str(&mut t, label);
    push_str(&mut t, "\">");
    push_decimal(&mut t, count as u64);
    push_str(&mut t, "</div>");
    push_str(&mut t, label);
    push_str(&mut t, "</div>");
    push_str(s, t.as_str());
}

/// Appends the count of results in each status class.
fn push_html_counts(s: &mut String, results: &Vec<ScanResult>)
    ensures
        final(s)@ == old(s)@ + html_counts(result_views(results@)),
{
    let ghost rs = result_views(results@);
    let c = count_classes(results);
    let mut t = String::new();
    push_str(&mut t, "<div class=\"summary\">");
    push_count_box(&mut t, c.0, "2xx");
    let ghost t2 = t@;
    push_count_box(&mut t, c.1, "3xx");
    assert(t@ == t2 + html_count_box(rs, 3, "3xx"@));
    let ghost t3 = t@;
    push_count_box(&mut t, c.2, "4xx");
    assert(t@ == t3 + html_count_box(rs, 4, "4xx"@));
    let ghost t4 = t@;
    push_count_box(&mut t, c.3, "5xx");
    assert(t@ == t4 + html_count_box(rs, 5, "5xx"@));
    push_str(&mut t, "</div>\n");
    assert(t@ == html_counts(rs));
    push_str(s, t.as_str());
}

impl HtmlFormatter {
    /// The report as an HTML page, the duration being `duration_text` seconds.
    pub fn format_report(&self, report: &ScanReport, duration_text: &str) -> (s: String)
        ensures
            s@ == html_report(
                duration_text@,
                report.total_requests as nat,
                result_views(report.results@),
                report.errors as nat,
            ),
    {
        let ghost rs = result_views(report.results@);
        let mut s = String::new();
        push_str(&mut s, "<!DOCTYPE html>\n<html lang=\"en\"><head><meta charset=\"UTF-8\"><title>PathScan Report</title>\n<style>\nbody { font-family: -apple-system, sans-serif; max-width: 960px; margin: 0 auto; padding: 2rem; background: #1a1a2e; color: #eee; }\ntable { width: 100%; border-collapse: collapse; margin-top: 1rem; }\nth, td { padding: 0.5rem 1rem; text-align: left; border-bottom: 1px solid #333; }\nth { background: #16213e; }\n.status-2xx { color: #4caf50; } .status-3xx { color: #ff9800; }\n.status-4xx { color: #2196f3; } .status-5xx { color: #f44336; }\n.summary { display: flex; gap: 2rem; margin: 1rem 0; }\n.summary div { background: #16213e; padding: 1rem 2rem; border-radius: 8px; text-align: center; }\n.summary .value { font-size: 2rem; font-weight: bold; }\n#search { width: 100%; padding: 0.5rem; margin-top: 1rem; background: #16213e; color: #eee; border: 1px solid #333; }\n</style></head><body>\n<h1>PathScan Report</h1>\n<div class=\"summary\">\n<div><div class=\"value\">");
        push_html_summary(&mut s, report.total_requests as u64, report.results.len() as u64, report.errors as u64, duration_text);
        push_html_counts(&mut s, &report.results);
        push_str(&mut s, "<input id=\"search\" type=\"text\" placeholder=\"Search results...\" onkeyup=\"filterRows()\">\n<table id=\"results\"><thead><tr><th>Status</th><th>URL</th><th>Length</th><th>Redirect</th></tr></thead><tbody>");
        let ghost head = s@;
        assert(head == html_head() + html_summary(report.total_requests as nat, rs.len(), report.errors as nat, duration_text@) + html_counts(rs) + html_table_head());
        let mut i: usize = 0;
        while i < report.results.len()
            invariant
                i <= report.results@.len(),
                rs == result_views(report.results@),
                s@ == head + html_rows(rs.take(i as int)),
            decreases report.results@.len() - i,
        {
            push_html_row(&mut s, &report.results[i]);
            assert(rs.take(i + 1).drop_last() == rs.take(i as int));
            i = i + 1;
        }
        assert(rs.take(i as int) == rs);
        push_str(&mut s, "</tbody></table>\n<script>\nfunction filterRows() {\n  var q = document.getElementById('search').value.toLowerCase();\n  var rows = document.querySelectorAll('#results tbody tr');\n  for (var i = 0; i < rows.length; i++) {\n    rows[i].style.display = rows[i].textContent.toLowerCase().indexOf(q) === -1 ? 'none' : '';\n  }\n}\n</script></body></html>");
        s
    }
}

/// `s` holds the character `c`.
pub open spec fn has_char(s: Seq<char>, c: char) -> bool {
    exists|i: int| 0 <= i < s.len() && s[i] == c
}

/// The escape character that starts a colour code.
pub open spec fn esc() -> char {
    '\x1b'
}

/// Text joined from two pieces holds a character only where a piece does.
proof fn lemma_has_char_concat(a: Seq<char>, b: Seq<char>, c: char)
    ensures
        has_char(a + b, c) <==> has_char(a, c) || has_char(b, c),
{
    if has_char(a + b, c) {
        let i = choose|i: int| 0 <= i < (a + b).len() && (a + b)[i] == c;
        if i >= a.len() {
            assert(b[i - a.len()] == c);
        }
    }
    if has_char(a, c) {
        let i = choose|i: int| 0 <= i < a.len() && a[i] == c;
        assert((a + b)[i] == c);
    }
    if has_char(b, c) {
        let i = choose|i: int| 0 <= i < b.len() && b[i] == c;
        assert((a + b)[a.len() + i] == c);
    }
}

/// A status tag holds no escape character.
proof fn lemma_tag_plain(status: u16)
    ensures
        !has_char(status_tag(status), esc()),
{
    let d = decimal(status as nat);
    lemma_decimal_digits(status as nat);
    let p = pad_left(d, 3);
    assert(!has_char(d, esc())) by {
        if has_char(d, esc()) {
            let i = choose|i: int| 0 <= i < d.len() && d[i] == esc();
            assert(is_digit(d[i]));
        }
    }
    if d.len() < 3 {
        let sp = Seq::new((3 - d.len()) as nat, |i: int| ' ');
        assert(!has_char(sp, esc())) by {
            if has_char(sp, esc()) {
                let i = choose|i: int| 0 <= i < sp.len() && sp[i] == esc();
                assert(sp[i] == ' ');
            }
        }
        lemma_has_char_concat(sp, d, esc());
    }
    assert(!has_char(p, esc()));
    reveal_strlit("[");
    reveal_strlit("]");
    assert(!has_char("["@, esc())) by {
        if has_char("["@, esc()) {
            let i = choose|i: int| 0 <= i < "["@.len() && "["@[i] == esc();
            assert("["@[0] == '[');
        }
    }
    assert(!has_char("]"@, esc())) by {
        if has_char("]"@, esc()) {
            let i = choose|i: int| 0 <= i < "]"@.len() && "]"@[i] == esc();
            assert("]"@[0] == ']');
        }
    }
    lemma_has_char_concat("["@, p, esc());
    lemma_has_char_concat("["@ + p, "]"@, esc());
}

/// With colour off, a result line holds an escape character only where its
/// URL or redirect location does.
pub proof fn lemma_plain_line_has_no_escape(r: ResultView)
    requires
        !has_char(r.url, esc()),
        r.redirect_location matches Some(l) ==> !has_char(l, esc()),
    ensures
        !has_char(result_line(false, r), esc()),
{
    lemma_tag_plain(r.status);
    reveal_strlit(" ");
    reveal_strlit(" -> ");
    assert(!has_char(" "@, esc())) by {
        if has_char(" "@, esc()) {
            let i = choose|i: int| 0 <= i < " "@.len() && " "@[i] == esc();
            assert(" "@[0] == ' ');
        }
    }
    let suffix = redirect_suffix(r.redirect_location);
    assert(!has_char(suffix, esc())) by {
        match r.redirect_location {
            Some(l) => {
                assert(!has_char(" -> "@, esc())) by {
                    if has_char(" -> "@, esc()) {
                        let i = choose|i: int| 0 <= i < " -> "@.len() && " -> "@[i] == esc();
                        assert(" -> "@ == seq![' ', '-', '>', ' ']);
                    }
                }
                lemma_has_char_concat(" -> "@, l, esc());
            },
            None => {},
        }
    }
    let tag = status_tag(r.status);
    lemma_has_char_concat(tag, " "@, esc());
    lemma_has_char_concat(tag + " "@, r.url, esc());
    lemma_has_char_concat(tag + " "@ + r.url, suffix, esc());
}

/// With colour on, a result line starts with the colour of its status class.
pub proof fn lemma_colored_line_starts_with_color(r: ResultView)
    ensures
        result_line(true, r).take(ansi_color(r.status).len() as int) == ansi_color(r.status),
{
    let a = ansi_color(r.status);
    let rest = status_tag(r.status) + "\x1b[0m"@;
    assert(colored(true, r.status, status_tag(r.status)) == a + status_tag(r.status) + "\x1b[0m"@);
    let line = result_line(true, r);
    assert(line == a + status_tag(r.status) + "\x1b[0m"@ + " "@ + r.url + redirect_suffix(r.redirect_location));
    assert(line.take(a.len() as int) =~= a);
}

/// Every result is counted in exactly one status class.
pub proof fn lemma_class_counts_sum(rs: Seq<ResultView>)
    ensures
        class_count(rs, 2) + class_count(rs, 3) + class_count(rs, 4) + class_count(rs, 5) == rs.len(),
    decreases rs.len(),
{
    if rs.len() > 0 {
        lemma_class_counts_sum(rs.drop_last());
    }
}

/// `needle` occurs in `a + needle + b`, right after `a`.
proof fn lemma_occurs_between(a: Seq<char>, needle: Seq<char>, b: Seq<char>)
    ensures
        contains_seq(a + needle + b, needle),
{
    assert((a + needle + b).subrange(a.len() as int, (a.len() + needle.len()) as int) =~= needle);
    assert(occurs_at(a + needle + b, needle, a.len() as int));
}

/// The text report counts what it was given: after `Found:` stands the number
/// of results, and on the next line, after `Errors:`, the number of errors.
pub proof fn lemma_text_report_counts(
    color: bool,
    target: Seq<char>,
    duration: Seq<char>,
    requests: nat,
    rs: Seq<ResultView>,
    errors: nat,
)
    ensures
        contains_seq(
            text_report(color, target, duration, requests, rs, errors),
            "Found:    "@ + decimal(rs.len()) + "\n"@ + "Errors:   "@ + decimal(errors) + "\n\n"@,
        ),
        contains_seq(text_report(color, target, duration, requests, rs, errors), "Requests: "@ + decimal(requests) + "\n"@),
{
    let a = "Target:   "@ + target + "\n"@ + "Duration: "@ + duration + "s\n"@;
    let req = "Requests: "@ + decimal(requests) + "\n"@;
    let counts = "Found:    "@ + decimal(rs.len()) + "\n"@ + "Errors:   "@ + decimal(errors) + "\n\n"@;
    let tail = result_lines(color, rs);
    assert(text_report(color, target, duration, requests, rs, errors) =~= (a + req) + counts + tail);
    lemma_occurs_between(a + req, counts, tail);
    assert(text_report(color, target, duration, requests, rs, errors) =~= a + req + (counts + tail));
    lemma_occurs_between(a, req, counts + tail);
}

/// The HTML summary counts what it was given: the requests, then the number of
/// results as found, then the errors.
pub proof fn lemma_html_report_counts(duration: Seq<char>, requests: nat, rs: Seq<ResultView>, errors: nat)
    ensures
        contains_seq(
            html_report(duration, requests, rs, errors),
            decimal(requests) + "</div>Requests</div><div><div class=\"value\">"@ + decimal(rs.len())
                + "</div>Found</div><div><div class=\"value\">"@ + decimal(errors) + "</div>Errors</div>"@,
        ),
{
    let needle = decimal(requests) + "</div>Requests</div><div><div class=\"value\">"@ + decimal(rs.len())
        + "</div>Found</div><div><div class=\"value\">"@ + decimal(errors) + "</div>Errors</div>"@;
    let rest_lit = "</div>Errors</div><div><div class=\"value\">"@;
    reveal_strlit("</div>Errors</div><div><div class=\"value\">");
    reveal_strlit("</div>Errors</div>");
    reveal_strlit("<div><div class=\"value\">");
    assert(rest_lit =~= "</div>Errors</div>"@ + "<div><div class=\"value\">"@);
    let tail = "<div><div class=\"value\">"@ + duration + "s</div>Duration</div></div>\n"@ + html_counts(rs)
        + html_table_head() + html_rows(rs) + html_tail();
    assert(html_report(duration, requests, rs, errors) =~= html_head() + needle + tail);
    lemma_occurs_between(html_head(), needle, tail);
}

/// Each status class counts the results whose status lies in its range:
/// 200-299, 300-399, 400-499, and every other status for the last.
pub proof fn lemma_class_count_by_status(rs: Seq<ResultView>)
    ensures
        class_count(rs, 2) == rs.filter(|r: ResultView| 200 <= r.status <= 299).len(),
        class_count(rs, 3) == rs.filter(|r: ResultView| 300 <= r.status <= 399).len(),
        class_count(rs, 4) == rs.filter(|r: ResultView| 400 <= r.status <= 499).len(),
        class_count(rs, 5) == rs.filter(|r: ResultView| r.status < 200 || r.status > 499).len(),
{
    lemma_class_count_filter(rs, 2, |r: ResultView| 200 <= r.status <= 299);
    lemma_class_count_filter(rs, 3, |r: ResultView| 300 <= r.status <= 399);
    lemma_class_count_filter(rs, 4, |r: ResultView| 400 <= r.status <= 499);
    lemma_class_count_filter(rs, 5, |r: ResultView| r.status < 200 || r.status > 499);
}

/// Counting the class `k` counts the results that `pred` picks, where `pred`
/// picks exactly the results of that class.
proof fn lemma_class_count_filter(rs: Seq<ResultView>, k: int, pred: spec_fn(ResultView) -> bool)
    requires
        forall|r: ResultView| #[trigger] pred(r) <==> status_class(r.status) == k,
    ensures
        class_count(rs, k) == rs.filter(pred).len(),
    decreases rs.len(),
{
    reveal(Seq::filter);
    if rs.len() > 0 {
        lemma_class_count_filter(rs.drop_last(), k, pred);
        assert(pred(rs.last()) <==> status_class(rs.last().status) == k);
    }
}

/// The colour of each status range: green for 200-299, yellow for 300-399,
/// blue for 400-499, red for any other; with colour on, a result line starts
/// with it, and with colour off it carries none.
pub proof fn lemma_colors_by_range(r: ResultView)
    ensures
        200 <= r.status <= 299 ==> ansi_color(r.status) == "\x1b[32m"@,
        300 <= r.status <= 399 ==> ansi_color(r.status) == "\x1b[33m"@,
        400 <= r.status <= 499 ==> ansi_color(r.status) == "\x1b[34m"@,
        r.status < 200 || r.status > 499 ==> ansi_color(r.status) == "\x1b[31m"@,
        200 <= r.status <= 299 ==> status_css(r.status) == "status-2xx"@,
        300 <= r.status <= 399 ==> status_css(r.status) == "status-3xx"@,
        400 <= r.status <= 499 ==> status_css(r.status) == "status-4xx"@,
        r.status < 200 || r.status > 499 ==> status_css(r.status) == "status-5xx"@,
        result_line(false, r) == status_tag(r.status) + " "@ + r.url + redirect_suffix(r.redirect_location),
{
}

} // verus!
