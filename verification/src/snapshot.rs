//! Snapshots: from the text that the two introspection tools print to the
//! list of users with the GPU memory that one of their processes holds.
//!
//! The process query prints one line per compute process, `pid, memory`, with
//! the memory in MiB. The ownership query prints one line per process,
//! `pid user`, two words. A line that does not have this shape is passed
//! over, and so is a process that the ownership query does not know.

use crate::number::{decimal, decimal_of, parse_u32, parse_u64, unsigned};
use crate::text::{
    chars_of, copy_range, find_first, has_no_space, index_of_first, is_free_of_whitespace, split,
    split_at_separator, split_of_one_piece, split_on, string_of, texts, trim, trimmed,
};
use std::collections::HashMap;
use vstd::prelude::*;

verus! {

broadcast use vstd::std_specs::hash::group_hash_axioms;

/// One GPU compute process of a snapshot: its owner and the memory it holds.
#[derive(Debug, Clone)]
pub struct LogEntry {
    pub user: String,
    pub mem_mib: u64,
}

/// What a `LogEntry` stands for.
pub struct Usage {
    pub user: Seq<char>,
    pub mem_mib: nat,
}

impl View for LogEntry {
    type V = Usage;

    open spec fn view(&self) -> Usage {
        Usage { user: self.user@, mem_mib: self.mem_mib as nat }
    }
}

/// The views of a sequence of entries.
pub open spec fn usages(entries: Seq<LogEntry>) -> Seq<Usage> {
    Seq::new(entries.len(), |i: int| entries[i]@)
}

/// The process that a line of the process query describes: the line has
/// exactly two comma-separated fields which, once trimmed, are a process id
/// of 32 bits and a memory size of 64 bits.
pub open spec fn app_of_line(line: Seq<char>) -> Option<(u32, u64)> {
    let fields = split(line, ',');
    if fields.len() != 2 {
        None
    } else {
        match (
            unsigned(trim(fields[0]), u32::MAX as nat),
            unsigned(trim(fields[1]), u64::MAX as nat),
        ) {
            (Some(pid), Some(mem)) => Some((pid as u32, mem as u64)),
            _ => None,
        }
    }
}

/// The processes that the lines describe, in the order of the lines.
pub open spec fn apps_of_lines(lines: Seq<Seq<char>>) -> Seq<(u32, u64)>
    decreases lines.len(),
{
    if lines.len() == 0 {
        Seq::empty()
    } else {
        let earlier = apps_of_lines(lines.drop_last());
        match app_of_line(lines.last()) {
            Some(app) => earlier.push(app),
            None => earlier,
        }
    }
}

/// The processes that the output of the process query describes.
pub open spec fn compute_apps(text: Seq<char>) -> Seq<(u32, u64)> {
    apps_of_lines(split(text, '\n'))
}

/// The process ids of `apps`, written in decimal and separated by commas.
pub open spec fn pid_list(apps: Seq<(u32, u64)>) -> Seq<char>
    decreases apps.len(),
{
    if apps.len() == 0 {
        Seq::empty()
    } else if apps.len() == 1 {
        decimal(apps[0].0 as nat)
    } else {
        pid_list(apps.drop_last()) + seq![','] + decimal(apps.last().0 as nat)
    }
}

/// The process and owner that a line of the ownership query names. The line
/// holds exactly two words: the trimmed line is cut at its first blank; what
/// stands before it, trimmed, is a process id of 32 bits, and what follows
/// it, trimmed, is the user, one word without whitespace in it. A line with
/// more words names nobody.
pub open spec fn owner_of_line(line: Seq<char>) -> Option<(u32, Seq<char>)> {
    let body = trim(line);
    let cut = index_of_first(body, ' ');
    if cut >= body.len() {
        None
    } else {
        let user = trim(body.skip(cut + 1));
        match unsigned(trim(body.take(cut)), u32::MAX as nat) {
            Some(pid) => if has_no_space(user) {
                Some((pid as u32, user))
            } else {
                None
            },
            None => None,
        }
    }
}

/// The owners that the lines name. Where a process is named twice, the later
/// line counts.
pub open spec fn owners_of_lines(lines: Seq<Seq<char>>) -> Map<u32, Seq<char>>
    decreases lines.len(),
{
    if lines.len() == 0 {
        Map::empty()
    } else {
        let earlier = owners_of_lines(lines.drop_last());
        match owner_of_line(lines.last()) {
            Some((pid, user)) => earlier.insert(pid, user),
            None => earlier,
        }
    }
}

/// The owners that the output of the ownership query names.
pub open spec fn owners_of(text: Seq<char>) -> Map<u32, Seq<char>> {
    owners_of_lines(split(text, '\n'))
}

/// A map from process to user, with each user name as a sequence of
/// characters.
pub open spec fn owner_names(owners: Map<u32, String>) -> Map<u32, Seq<char>> {
    Map::new(|pid: u32| owners.contains_key(pid), |pid: u32| owners[pid]@)
}

/// The entries of a snapshot: one for each process whose owner is known, in
/// the order of the processes.
pub open spec fn joined(apps: Seq<(u32, u64)>, owners: Map<u32, Seq<char>>) -> Seq<Usage>
    decreases apps.len(),
{
    if apps.len() == 0 {
        Seq::empty()
    } else {
        let earlier = joined(apps.drop_last(), owners);
        let (pid, mem_mib) = apps.last();
        if owners.contains_key(pid) {
            earlier.push(Usage { user: owners[pid], mem_mib: mem_mib as nat })
        } else {
            earlier
        }
    }
}

/// The processes of two runs of lines are those of the first run, then those
/// of the second.
pub proof fn apps_of_more_lines(first: Seq<Seq<char>>, second: Seq<Seq<char>>)
    ensures
        apps_of_lines(first + second) == apps_of_lines(first) + apps_of_lines(second),
    decreases second.len(),
{
    if second.len() == 0 {
        assert(first + second == first);
        assert(apps_of_lines(first) + apps_of_lines(second) == apps_of_lines(first));
    } else {
        apps_of_more_lines(first, second.drop_last());
        assert((first + second).drop_last() == first + second.drop_last());
        assert((first + second).last() == second.last());
        let a = apps_of_lines(first);
        let b = apps_of_lines(second.drop_last());
        match app_of_line(second.last()) {
            Some(app) => {
                assert((a + b).push(app) == a + b.push(app));
            },
            None => {},
        }
    }
}

/// A line that does not have exactly two comma-separated fields counts for
/// nothing, wherever it stands: the processes read are those read without
/// the line.
pub proof fn malformed_line_is_skipped(before: Seq<Seq<char>>, line: Seq<char>, after: Seq<Seq<char>>)
    requires
        split(line, ',').len() != 2,
    ensures
        apps_of_lines(before + seq![line] + after) == apps_of_lines(before + after),
{
    apps_of_more_lines(before + seq![line], after);
    apps_of_more_lines(before, seq![line]);
    apps_of_more_lines(before, after);
    assert(seq![line].drop_last() == Seq::<Seq<char>>::empty());
    assert(seq![line].last() == line);
    assert(apps_of_lines(Seq::<Seq<char>>::empty()) == Seq::<(u32, u64)>::empty());
    assert(apps_of_lines(seq![line]) == Seq::<(u32, u64)>::empty());
    assert(apps_of_lines(before) + Seq::<(u32, u64)>::empty() == apps_of_lines(before));
}

/// The same of the text that the process query prints: a malformed line
/// between two parts of the output counts for nothing.
pub proof fn malformed_line_of_text_is_skipped(before: Seq<char>, line: Seq<char>, after: Seq<char>)
    requires
        split(line, ',').len() != 2,
        !line.contains('\n'),
    ensures
        compute_apps(before + seq!['\n'] + line + seq!['\n'] + after) == compute_apps(
            before + seq!['\n'] + after,
        ),
{
    split_at_separator(before + seq!['\n'] + line, after, '\n');
    split_at_separator(before, line, '\n');
    split_at_separator(before, after, '\n');
    split_of_one_piece(line, '\n');
    malformed_line_is_skipped(split(before, '\n'), line, split(after, '\n'));
}

/// Every user that the ownership query names is one word: no name holds
/// whitespace.
pub proof fn owners_are_words(lines: Seq<Seq<char>>, pid: u32)
    requires
        owners_of_lines(lines).contains_key(pid),
    ensures
        has_no_space(owners_of_lines(lines)[pid]),
    decreases lines.len(),
{
    if lines.len() > 0 {
        match owner_of_line(lines.last()) {
            Some((named, user)) => {
                if named != pid {
                    owners_are_words(lines.drop_last(), pid);
                }
            },
            None => {
                owners_are_words(lines.drop_last(), pid);
            },
        }
    }
}

/// Reads one line of the process query.
pub fn parse_app_line(line: &[char]) -> (r: Option<(u32, u64)>)
    ensures
        r == app_of_line(line@),
{
    let fields = split_on(line, ',');
    if fields.len() != 2 {
        return None;
    }
    assert(texts(fields@)[0] == fields@[0]@);
    assert(texts(fields@)[1] == fields@[1]@);
    let pid_text = trimmed(fields[0].as_slice());
    let mem_text = trimmed(fields[1].as_slice());
    match (parse_u32(pid_text.as_slice()), parse_u64(mem_text.as_slice())) {
        (Some(pid), Some(mem)) => Some((pid, mem)),
        _ => None,
    }
}

/// Reads the output of the process query: the process id and the memory in
/// MiB of each line that describes a process, in the order of the lines.
pub fn parse_compute_apps(text: &str) -> (apps: Vec<(u32, u64)>)
    ensures
        apps@ == compute_apps(text@),
{
    let chars = chars_of(text);
    let lines = split_on(chars.as_slice(), '\n');
    let mut apps: Vec<(u32, u64)> = Vec::new();
    let mut i: usize = 0;
    assert(texts(lines@).take(0) == Seq::<Seq<char>>::empty());
    while i < lines.len()
        invariant
            i <= lines@.len(),
            texts(lines@) == split(text@, '\n'),
            apps@ == apps_of_lines(texts(lines@).take(i as int)),
        decreases lines@.len() - i,
    {
        assert(texts(lines@).take(i + 1).drop_last() == texts(lines@).take(i as int));
        assert(texts(lines@).take(i + 1).last() == lines@[i as int]@);
        match parse_app_line(lines[i].as_slice()) {
            Some(app) => {
                apps.push(app);
            },
            None => {},
        }
        i += 1;
    }
    assert(texts(lines@).take(lines@.len() as int) == texts(lines@));
    apps
}

/// The argument for the ownership query: the process ids of `apps`, separated
/// by commas. Without a process there is nothing to ask, and no argument.
pub fn owner_query(apps: &Vec<(u32, u64)>) -> (query: Option<String>)
    ensures
        apps@.len() == 0 ==> query is None,
        apps@.len() > 0 ==> query is Some && query.unwrap()@ == pid_list(apps@),
{
    if apps.len() == 0 {
        return None;
    }
    let mut list: Vec<char> = decimal_of(apps[0].0 as u64);
    let mut i: usize = 1;
    assert(apps@.take(1).len() == 1);
    while i < apps.len()
        invariant
            1 <= i <= apps@.len(),
            list@ == pid_list(apps@.take(i as int)),
        decreases apps@.len() - i,
    {
        assert(apps@.take(i + 1).drop_last() == apps@.take(i as int));
        list.push(',');
        let mut numeral = decimal_of(apps[i].0 as u64);
        list.append(&mut numeral);
        i += 1;
    }
    assert(apps@.take(apps@.len() as int) == apps@);
    Some(string_of(list.as_slice()))
}

/// Reads one line of the ownership query.
pub fn parse_owner_line(line: &[char]) -> (r: Option<(u32, Vec<char>)>)
    ensures
        match r {
            Some((pid, user)) => owner_of_line(line@) == Some((pid, user@)),
            None => owner_of_line(line@) is None,
        },
{
    let body = trimmed(line);
    let cut = find_first(body.as_slice(), ' ');
    if cut >= body.len() {
        return None;
    }
    let pid_part = copy_range(body.as_slice(), 0, cut);
    let pid_text = trimmed(pid_part.as_slice());
    assert(pid_part@ == body@.take(cut as int));
    match parse_u32(pid_text.as_slice()) {
        Some(pid) => {
            let user_part = copy_range(body.as_slice(), cut + 1, body.len());
            assert(user_part@ == body@.skip(cut + 1));
            let user = trimmed(user_part.as_slice());
            if is_free_of_whitespace(user.as_slice()) {
                Some((pid, user))
            } else {
                None
            }
        },
        None => None,
    }
}

/// Reads the output of the ownership query: the user of each process that a
/// line names.
pub fn parse_owners(text: &str) -> (owners: HashMap<u32, String>)
    ensures
        owner_names(owners@) == owners_of(text@),
{
    let chars = chars_of(text);
    let lines = split_on(chars.as_slice(), '\n');
    let mut owners: HashMap<u32, String> = HashMap::new();
    let mut i: usize = 0;
    assert(texts(lines@).take(0) == Seq::<Seq<char>>::empty());
    assert(owner_names(owners@) == Map::<u32, Seq<char>>::empty());
    while i < lines.len()
        invariant
            i <= lines@.len(),
            texts(lines@) == split(text@, '\n'),
            owner_names(owners@) == owners_of_lines(texts(lines@).take(i as int)),
        decreases lines@.len() - i,
    {
        assert(texts(lines@).take(i + 1).drop_last() == texts(lines@).take(i as int));
        assert(texts(lines@).take(i + 1).last() == lines@[i as int]@);
        match parse_owner_line(lines[i].as_slice()) {
            Some((pid, user)) => {
                let ghost earlier = owners@;
                let name = string_of(user.as_slice());
                owners.insert(pid, name);
                assert(owner_names(owners@) == owner_names(earlier).insert(pid, user@));
            },
            None => {},
        }
        i += 1;
    }
    assert(texts(lines@).take(lines@.len() as int) == texts(lines@));
    owners
}

/// Joins the processes with their owners: one entry for each process whose
/// owner is known, in the order of the processes. A process without a known
/// owner is left out.
pub fn join_owners(apps: &Vec<(u32, u64)>, owners: &HashMap<u32, String>) -> (entries: Vec<
    LogEntry,
>)
    ensures
        usages(entries@) == joined(apps@, owner_names(owners@)),
{
    let mut entries: Vec<LogEntry> = Vec::new();
    let mut i: usize = 0;
    assert(apps@.take(0) == Seq::<(u32, u64)>::empty());
    assert(usages(entries@) == Seq::<Usage>::empty());
    while i < apps.len()
        invariant
            i <= apps@.len(),
            usages(entries@) == joined(apps@.take(i as int), owner_names(owners@)),
        decreases apps@.len() - i,
    {
        assert(apps@.take(i + 1).drop_last() == apps@.take(i as int));
        let (pid, mem_mib) = apps[i];
        match owners.get(&pid) {
            Some(user) => {
                let ghost earlier = entries@;
                let entry = LogEntry { user: user.clone(), mem_mib };
                entries.push(entry);
                assert(usages(entries@) == usages(earlier).push(entry@));
            },
            None => {},
        }
        i += 1;
    }
    assert(apps@.take(apps@.len() as int) == apps@);
    entries
}

/// The snapshot that the two outputs describe.
pub fn snapshot(apps_text: &str, owners_text: &str) -> (entries: Vec<LogEntry>)
    ensures
        usages(entries@) == joined(compute_apps(apps_text@), owners_of(owners_text@)),
{
    let apps = parse_compute_apps(apps_text);
    let owners = parse_owners(owners_text);
    join_owners(&apps, &owners)
}

} // verus!
