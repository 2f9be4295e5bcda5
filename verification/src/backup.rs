//! Backups: where a backup of the totals goes and what it holds.
//!
//! A backup is a text of two columns, the user and the amount in
//! gibibyte-hours, with a header row and one row for each user. In the mode
//! `Timestamped` every backup gets a file of its own, named after the time of
//! the tick that wrote it; in the mode `Overwrite` all backups share one
//! file, and each replaces the one before.

use crate::number::{decimal, decimal_of};
use crate::report::RenderedTotal;
use crate::text::{chars_of, push_all, split, split_at_separator, split_of_one_piece, string_of};
use vstd::prelude::*;

verus! {

/// How backups are addressed.
#[derive(Debug, Clone, Copy, PartialEq, Eq, Structural)]
pub enum BackupMode {
    Timestamped,
    Overwrite,
}

/// `c`, or the lower-case letter for an upper-case ASCII letter.
pub open spec fn ascii_lower(c: char) -> char {
    if 'A' as u32 <= c as u32 <= 'Z' as u32 {
        (c as u32 + 32) as char
    } else {
        c
    }
}

/// Whether `a` and `b` are the same but for the case of ASCII letters.
pub open spec fn same_ignoring_ascii_case(a: Seq<char>, b: Seq<char>) -> bool {
    &&& a.len() == b.len()
    &&& forall|i: int| 0 <= i < a.len() ==> ascii_lower(#[trigger] a[i]) == ascii_lower(b[i])
}

/// The mode that `text` asks for: `Overwrite` for the word "overwrite" in
/// any case, `Timestamped` for everything else.
pub open spec fn mode_of(text: Seq<char>) -> BackupMode {
    if same_ignoring_ascii_case(text, "overwrite"@) {
        BackupMode::Overwrite
    } else {
        BackupMode::Timestamped
    }
}

/// The name of the backup file.
pub open spec fn file_name(prefix: Seq<char>, timestamp: nat, mode: BackupMode) -> Seq<char> {
    match mode {
        BackupMode::Overwrite => prefix + ".csv"@,
        BackupMode::Timestamped => prefix + "_"@ + decimal(timestamp) + ".csv"@,
    }
}

/// The header row.
pub open spec fn header() -> Seq<char> {
    "user,gib_hr"@
}

/// The row of one user, without its end of line.
pub open spec fn row_text(user: Seq<char>, gib_hours: Seq<char>) -> Seq<char> {
    user + seq![','] + gib_hours
}

/// The rows, each with its end of line.
pub open spec fn rows_text(rows: Seq<RenderedTotal>) -> Seq<char>
    decreases rows.len(),
{
    if rows.len() == 0 {
        Seq::empty()
    } else {
        rows_text(rows.drop_last()) + row_text(rows.last().user@, rows.last().gib_hours@) + seq![
            '\n',
        ]
    }
}

/// What a backup holds: the header row, then the rows.
pub open spec fn document(rows: Seq<RenderedTotal>) -> Seq<char> {
    header() + seq!['\n'] + rows_text(rows)
}

/// The rows, each without its end of line.
pub open spec fn row_lines(rows: Seq<RenderedTotal>) -> Seq<Seq<char>> {
    Seq::new(rows.len(), |i: int| row_text(rows[i].user@, rows[i].gib_hours@))
}

/// Whether no user and no amount holds an end of line.
pub open spec fn one_line_each(rows: Seq<RenderedTotal>) -> bool {
    forall|i: int|
        0 <= i < rows.len() ==> !(#[trigger] rows[i]).user@.contains('\n')
            && !rows[i].gib_hours@.contains('\n')
}

/// A backup has the header as its first line and then exactly one line for
/// each row, in the order of the rows; the last line ends the text.
pub proof fn document_has_one_line_per_row(rows: Seq<RenderedTotal>)
    requires
        one_line_each(rows),
    ensures
        split(document(rows), '\n') == seq![header()] + row_lines(rows) + seq![
            Seq::<char>::empty(),
        ],
        split(document(rows), '\n').len() == rows.len() + 2,
    decreases rows.len(),
{
    let nl = seq!['\n'];
    let none = Seq::<char>::empty();
    if rows.len() == 0 {
        reveal_strlit("user,gib_hr");
        assert(!header().contains('\n'));
        split_of_one_piece(header(), '\n');
        split_at_separator(header(), none, '\n');
        assert(document(rows) == header() + nl + none);
        assert(row_lines(rows) == Seq::<Seq<char>>::empty());
        assert(seq![header()] + seq![none] == seq![header()] + row_lines(rows) + seq![none]);
    } else {
        let earlier = rows.drop_last();
        let row = row_text(rows.last().user@, rows.last().gib_hours@);
        assert(one_line_each(earlier)) by {
            assert forall|i: int| 0 <= i < earlier.len() implies !(#[trigger] earlier[i]).user@.contains(
                '\n',
            ) && !earlier[i].gib_hours@.contains('\n') by {
                assert(earlier[i] == rows[i]);
            }
        }
        document_has_one_line_per_row(earlier);
        let body = document(earlier).drop_last();
        assert(document(earlier).last() == '\n');
        assert(document(earlier) == body + nl + none);
        split_at_separator(body, none, '\n');
        let lines = seq![header()] + row_lines(earlier);
        assert(split(body, '\n') == lines) by {
            assert(split(body, '\n') + seq![none] == lines + seq![none]);
            assert((split(body, '\n') + seq![none]).drop_last() == split(body, '\n'));
            assert((lines + seq![none]).drop_last() == lines);
        }
        assert(!row.contains('\n')) by {
            let last = rows[rows.len() - 1];
            if row.contains('\n') {
                let k = choose|k: int| 0 <= k < row.len() && row[k] == '\n';
                if k < last.user@.len() {
                    assert(last.user@[k] == '\n');
                    assert(last.user@.contains('\n'));
                } else if k > last.user@.len() {
                    assert(last.gib_hours@[k - last.user@.len() - 1] == '\n');
                    assert(last.gib_hours@.contains('\n'));
                }
            }
        }
        split_of_one_piece(row, '\n');
        split_at_separator(body, row, '\n');
        split_at_separator(body + nl + row, none, '\n');
        assert(document(rows) == body + nl + row + nl + none);
        assert(row_lines(rows) == row_lines(earlier).push(row));
        assert(lines + seq![row] + seq![none] == seq![header()] + row_lines(rows) + seq![none]);
    }
}

fn lower(c: char) -> (l: char)
    ensures
        l == ascii_lower(c),
{
    let n: u32 = c as u32;
    if 65 <= n && n <= 90 {
        ((n + 32) as u8) as char
    } else {
        c
    }
}

/// Reads the backup mode.
pub fn backup_mode(text: &str) -> (mode: BackupMode)
    ensures
        mode == mode_of(text@),
{
    let given = chars_of(text);
    let word = chars_of("overwrite");
    if given.len() != word.len() {
        return BackupMode::Timestamped;
    }
    let mut i: usize = 0;
    while i < given.len()
        invariant
            i <= given@.len() == word@.len(),
            given@ == text@,
            word@ == "overwrite"@,
            forall|j: int| 0 <= j < i ==> ascii_lower(#[trigger] given@[j]) == ascii_lower(word@[j]),
        decreases given@.len() - i,
    {
        if lower(given[i]) != lower(word[i]) {
            return BackupMode::Timestamped;
        }
        i += 1;
    }
    BackupMode::Overwrite
}

/// Names the file for a backup written at the tick of time `timestamp`.
pub fn backup_file_name(prefix: &str, timestamp: u64, mode: BackupMode) -> (name: String)
    ensures
        name@ == file_name(prefix@, timestamp as nat, mode),
{
    let mut name: Vec<char> = chars_of(prefix);
    match mode {
        BackupMode::Overwrite => {},
        BackupMode::Timestamped => {
            let mark = chars_of("_");
            push_all(&mut name, mark.as_slice());
            let numeral = decimal_of(timestamp);
            push_all(&mut name, numeral.as_slice());
        },
    }
    let ending = chars_of(".csv");
    push_all(&mut name, ending.as_slice());
    string_of(name.as_slice())
}

/// Writes out a backup: the header row, then one row for each of `rows`, in
/// their order.
pub fn backup_document(rows: &Vec<RenderedTotal>) -> (text: String)
    ensures
        text@ == document(rows@),
{
    let mut text: Vec<char> = chars_of("user,gib_hr");
    text.push('\n');
    let mut i: usize = 0;
    assert(rows@.take(0) == Seq::<RenderedTotal>::empty());
    assert(text@ == document(rows@.take(0)));
    while i < rows.len()
        invariant
            i <= rows@.len(),
            text@ == document(rows@.take(i as int)),
        decreases rows@.len() - i,
    {
        assert(rows@.take(i + 1).drop_last() == rows@.take(i as int));
        let user = chars_of(rows[i].user.as_str());
        let amount = chars_of(rows[i].gib_hours.as_str());
        push_all(&mut text, user.as_slice());
        text.push(',');
        push_all(&mut text, amount.as_slice());
        text.push('\n');
        assert(text@ == document(rows@.take(i + 1)));
        i += 1;
    }
    assert(rows@.take(rows@.len() as int) == rows@);
    string_of(text.as_slice())
}

} // verus!
