//! The final report: one line per user, or the word that nothing was seen.

use crate::text::{chars_of, push_all, string_of};
use vstd::prelude::*;

verus! {

/// The total of one user, with the amount written out in gibibyte-hours.
#[derive(Debug, Clone)]
pub struct RenderedTotal {
    pub user: String,
    pub gib_hours: String,
}

/// The width to which a user name is filled up.
pub const USER_WIDTH: usize = 15;

/// The width to which an amount is filled up.
pub const AMOUNT_WIDTH: usize = 8;

/// `n` blanks.
pub open spec fn blanks(n: nat) -> Seq<char> {
    Seq::new(n, |i: int| ' ')
}

/// `s`, followed by blanks where it is shorter than `width`.
pub open spec fn pad_end(s: Seq<char>, width: nat) -> Seq<char> {
    if s.len() >= width {
        s
    } else {
        s + blanks((width - s.len()) as nat)
    }
}

/// `s`, preceded by blanks where it is shorter than `width`.
pub open spec fn pad_start(s: Seq<char>, width: nat) -> Seq<char> {
    if s.len() >= width {
        s
    } else {
        blanks((width - s.len()) as nat) + s
    }
}

/// The line of one user: the name to the left in its column, a blank, and
/// the amount to the right in its column.
pub open spec fn report_line(user: Seq<char>, gib_hours: Seq<char>) -> Seq<char> {
    pad_end(user, USER_WIDTH as nat) + seq![' '] + pad_start(gib_hours, AMOUNT_WIDTH as nat)
}

/// The line that says that there was no usage.
pub open spec fn no_usage_line() -> Seq<char> {
    "No GPU usage detected during the monitoring period."@
}

/// The line above the totals.
pub open spec fn title_line() -> Seq<char> {
    "=== Total GPU usage (GiB\u{b7}h) per user ==="@
}

/// The lines of the report. Without a user it is the one line that says so;
/// else an empty line, the title, and one line for each user.
pub open spec fn report_lines(rows: Seq<RenderedTotal>) -> Seq<Seq<char>> {
    if rows.len() == 0 {
        seq![no_usage_line()]
    } else {
        seq![Seq::<char>::empty(), title_line()] + Seq::new(
            rows.len(),
            |i: int| report_line(rows[i].user@, rows[i].gib_hours@),
        )
    }
}

/// The views of a vector of strings.
pub open spec fn line_texts(lines: Seq<String>) -> Seq<Seq<char>> {
    Seq::new(lines.len(), |i: int| lines[i]@)
}

/// Appends `n` blanks to `v`.
fn push_blanks(v: &mut Vec<char>, n: usize)
    ensures
        final(v)@ == old(v)@ + blanks(n as nat),
{
    let mut i: usize = 0;
    assert(old(v)@ + blanks(0) == old(v)@);
    while i < n
        invariant
            i <= n,
            v@ == old(v)@ + blanks(i as nat),
        decreases n - i,
    {
        v.push(' ');
        assert(old(v)@ + blanks((i + 1) as nat) == (old(v)@ + blanks(i as nat)).push(' '));
        i += 1;
    }
}

/// Writes the line of one user.
pub fn format_line(user: &str, gib_hours: &str) -> (line: String)
    ensures
        line@ == report_line(user@, gib_hours@),
{
    let name = chars_of(user);
    let amount = chars_of(gib_hours);
    let mut line: Vec<char> = Vec::new();
    push_all(&mut line, name.as_slice());
    if name.len() < USER_WIDTH {
        push_blanks(&mut line, USER_WIDTH - name.len());
    }
    line.push(' ');
    if amount.len() < AMOUNT_WIDTH {
        push_blanks(&mut line, AMOUNT_WIDTH - amount.len());
    }
    push_all(&mut line, amount.as_slice());
    assert(line@ == report_line(user@, gib_hours@));
    string_of(line.as_slice())
}

/// Writes the report for the totals of a run.
pub fn final_report(rows: &Vec<RenderedTotal>) -> (lines: Vec<String>)
    ensures
        line_texts(lines@) == report_lines(rows@),
{
    let mut lines: Vec<String> = Vec::new();
    if rows.len() == 0 {
        lines.push("No GPU usage detected during the monitoring period.".to_owned());
        assert(line_texts(lines@) == report_lines(rows@));
        return lines;
    }
    lines.push(String::new());
    lines.push("=== Total GPU usage (GiB\u{b7}h) per user ===".to_owned());
    let mut i: usize = 0;
    while i < rows.len()
        invariant
            i <= rows@.len(),
            rows@.len() > 0,
            lines@.len() == i + 2,
            line_texts(lines@) == report_lines(rows@).take(i + 2),
        decreases rows@.len() - i,
    {
        let line = format_line(rows[i].user.as_str(), rows[i].gib_hours.as_str());
        lines.push(line);
        assert(report_lines(rows@).take(i + 3) == report_lines(rows@).take(i + 2).push(
            report_lines(rows@)[i + 2],
        ));
        i += 1;
    }
    assert(report_lines(rows@).take(rows@.len() as int + 2) == report_lines(rows@));
    lines
}

} // verus!
