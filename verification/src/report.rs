//! The table report: one fixed-width row per outcome.

use vstd::prelude::*;
use vstd::string::{StrSliceExecFns, StringExecFns};
use crate::outcome::{StatusView, WebsiteStatus};
use crate::text::{decimal, repeated, signed_text, unsigned_text};

verus! {

/// Width of the column that holds the target.
pub const URL_WIDTH: usize = 40;

/// Width of the column that holds the status code.
pub const STATUS_WIDTH: usize = 3;

/// Width of the column that holds the response time.
pub const TIME_WIDTH: usize = 6;

/// Length of the rule under the table's header.
pub const RULE_WIDTH: usize = 95;

/// `text` with spaces after it up to `width` characters; longer text is
/// left as it is.
pub open spec fn pad_end(text: Seq<char>, width: nat) -> Seq<char> {
    if text.len() >= width {
        text
    } else {
        text + repeated(' ', (width - text.len()) as nat)
    }
}

/// `text` with spaces before it up to `width` characters; longer text is
/// left as it is.
pub open spec fn pad_start(text: Seq<char>, width: nat) -> Seq<char> {
    if text.len() >= width {
        text
    } else {
        repeated(' ', (width - text.len()) as nat) + text
    }
}

/// The text shown in the error column: the error, or a dash when there is
/// none.
pub open spec fn error_text(error: Option<Seq<char>>) -> Seq<char> {
    match error {
        Some(e) => e,
        None => seq!['-'],
    }
}

/// The row of the table that shows `status`.
pub open spec fn row_of(status: StatusView) -> Seq<char> {
    pad_end(status.url, URL_WIDTH as nat) + seq![' ', ' '] + pad_start(
        decimal(status.status_code),
        STATUS_WIDTH as nat,
    ) + seq![' ', ' '] + pad_start(decimal(status.response_time_ms as int), TIME_WIDTH as nat)
        + seq![' ', 'm', 's', ' ', ' '] + decimal(status.timestamp as int) + seq![' ', ' ']
        + error_text(status.error)
}

/// The header of the table.
pub open spec fn header_text() -> Seq<char> {
    pad_end("URL"@, URL_WIDTH as nat) + seq![' ', ' '] + pad_start("SC"@, STATUS_WIDTH as nat)
        + seq![' ', ' '] + pad_start("RT(ms)"@, TIME_WIDTH as nat) + seq![' ', ' ', ' ', ' ']
        + "UNIX_TS"@ + seq![' ', ' '] + "ERROR"@
}

/// Appends `count` spaces to `out`.
fn push_spaces(out: &mut String, count: usize)
    ensures
        final(out)@ == old(out)@ + repeated(' ', count as nat),
{
    let mut done: usize = 0;
    assert(out@ + repeated(' ', 0) =~= out@);
    while done < count
        invariant
            done <= count,
            out@ == old(out)@ + repeated(' ', done as nat),
        decreases count - done,
    {
        proof {
            reveal_strlit(" ");
        }
        let ghost before = out@;
        out.append(" ");
        assert(out@ =~= before.push(' '));
        assert(before.push(' ') =~= old(out)@ + repeated(' ', (done + 1) as nat));
        done += 1;
    }
}

/// Appends `text` to `out`, with spaces after it up to `width` characters.
fn push_padded_end(out: &mut String, text: &str, width: usize)
    ensures
        final(out)@ == old(out)@ + pad_end(text@, width as nat),
{
    let len = text.unicode_len();
    out.append(text);
    if len < width {
        push_spaces(out, width - len);
    }
    assert(out@ =~= old(out)@ + pad_end(text@, width as nat));
}

/// Appends `text` to `out`, with spaces before it up to `width` characters.
fn push_padded_start(out: &mut String, text: &str, width: usize)
    ensures
        final(out)@ == old(out)@ + pad_start(text@, width as nat),
{
    let len = text.unicode_len();
    if len < width {
        push_spaces(out, width - len);
    }
    out.append(text);
    assert(out@ =~= old(out)@ + pad_start(text@, width as nat));
}

/// The row of the table that shows `status`: the target, left-aligned in 40
/// columns; the status code, right-aligned in 3; the response time in
/// milliseconds, right-aligned in 6; the timestamp; and the error, or a
/// dash.
pub fn format_row(status: &WebsiteStatus) -> (row: String)
    ensures
        row@ == row_of(status@),
{
    proof {
        reveal_strlit("  ");
        reveal_strlit(" ms  ");
        reveal_strlit("-");
    }
    let mut row = String::new();
    assert(row@ + pad_end(status@.url, URL_WIDTH as nat) =~= pad_end(status@.url, URL_WIDTH as nat));
    push_padded_end(&mut row, status.url.as_str(), URL_WIDTH);
    row.append("  ");
    let code = signed_text(status.status_code);
    push_padded_start(&mut row, code.as_str(), STATUS_WIDTH);
    row.append("  ");
    let time = unsigned_text(status.response_time_ms);
    push_padded_start(&mut row, time.as_str(), TIME_WIDTH);
    row.append(" ms  ");
    let stamp = unsigned_text(status.timestamp as u128);
    row.append(stamp.as_str());
    row.append("  ");
    match &status.error {
        Some(e) => {
            row.append(e.as_str());
        },
        None => {
            row.append("-");
        },
    }
    assert("  "@ =~= seq![' ', ' ']);
    assert(" ms  "@ =~= seq![' ', 'm', 's', ' ', ' ']);
    assert("-"@ =~= seq!['-']);
    assert(row@ =~= row_of(status@));
    row
}

/// The header of the table: the column titles, aligned as the rows are.
pub fn format_header() -> (header: String)
    ensures
        header@ == header_text(),
{
    proof {
        reveal_strlit("  ");
        reveal_strlit("    ");
    }
    let mut header = String::new();
    assert(header@ + pad_end("URL"@, URL_WIDTH as nat) =~= pad_end("URL"@, URL_WIDTH as nat));
    push_padded_end(&mut header, "URL", URL_WIDTH);
    header.append("  ");
    push_padded_start(&mut header, "SC", STATUS_WIDTH);
    header.append("  ");
    push_padded_start(&mut header, "RT(ms)", TIME_WIDTH);
    header.append("    ");
    header.append("UNIX_TS");
    header.append("  ");
    header.append("ERROR");
    assert("  "@ =~= seq![' ', ' ']);
    assert("    "@ =~= seq![' ', ' ', ' ', ' ']);
    assert(header@ =~= header_text());
    header
}

/// The rule under the header: 95 dashes.
pub fn format_rule() -> (rule: String)
    ensures
        rule@ == repeated('-', RULE_WIDTH as nat),
{
    let mut rule = String::new();
    let mut done: usize = 0;
    assert(rule@ =~= repeated('-', 0));
    while done < RULE_WIDTH
        invariant
            done <= RULE_WIDTH,
            rule@ == repeated('-', done as nat),
        decreases RULE_WIDTH - done,
    {
        proof {
            reveal_strlit("-");
        }
        let ghost before = rule@;
        rule.append("-");
        assert(rule@ =~= before.push('-'));
        assert(before.push('-') =~= repeated('-', (done + 1) as nat));
        done += 1;
    }
    rule
}

} // verus!
