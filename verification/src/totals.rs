//! Usage totals: the memory-time that each user has accumulated.
//!
//! A snapshot credits each of its entries with the memory it holds, taken as
//! held for the whole sampling interval that has just passed (a zero-order
//! hold). Totals are kept exactly, in MiB-seconds; one gibibyte-hour is
//! `MIB_SECONDS_PER_GIB_HOUR` of them. A total that would pass the largest
//! 128-bit number stays at that number.

use crate::snapshot::{
    apps_of_lines, joined, malformed_line_is_skipped, usages, LogEntry, Usage,
};
use crate::text::split;
use vstd::prelude::*;

verus! {

/// The number of MiB-seconds in one gibibyte-hour: 1024 times 3600.
pub const MIB_SECONDS_PER_GIB_HOUR: u128 = 3_686_400;

/// The largest total that is kept.
pub open spec fn ceiling() -> nat {
    u128::MAX as nat
}

/// `n`, or the ceiling where `n` is above it.
pub open spec fn saturate(n: nat) -> nat {
    if n > ceiling() {
        ceiling()
    } else {
        n
    }
}

/// What one process adds to the total of its owner, in MiB-seconds: the
/// memory it holds, in MiB, times the length of the interval, in seconds.
/// In gibibyte-hours this is `mem_mib * interval_sec / (1024 * 3600)`.
pub open spec fn contribution(mem_mib: nat, interval_sec: nat) -> nat {
    mem_mib * interval_sec
}

/// The total of `user`, which is zero for a user without one.
pub open spec fn total_of(totals: Map<Seq<char>, nat>, user: Seq<char>) -> nat {
    if totals.contains_key(user) {
        totals[user]
    } else {
        0
    }
}

/// The totals after `amount` has been added to the total of `user`.
pub open spec fn credited(totals: Map<Seq<char>, nat>, user: Seq<char>, amount: nat) -> Map<
    Seq<char>,
    nat,
> {
    totals.insert(user, saturate(total_of(totals, user) + amount))
}

/// The totals after each entry of a snapshot has been credited.
pub open spec fn folded(totals: Map<Seq<char>, nat>, entries: Seq<Usage>, interval_sec: nat) -> Map<
    Seq<char>,
    nat,
>
    decreases entries.len(),
{
    if entries.len() == 0 {
        totals
    } else {
        credited(
            folded(totals, entries.drop_last(), interval_sec),
            entries.last().user,
            contribution(entries.last().mem_mib, interval_sec),
        )
    }
}

/// The totals after a run of snapshots, each folded in its turn.
pub open spec fn totals_after(
    totals: Map<Seq<char>, nat>,
    snapshots: Seq<Seq<Usage>>,
    interval_sec: nat,
) -> Map<Seq<char>, nat>
    decreases snapshots.len(),
{
    if snapshots.len() == 0 {
        totals
    } else {
        folded(
            totals_after(totals, snapshots.drop_last(), interval_sec),
            snapshots.last(),
            interval_sec,
        )
    }
}

/// The entries of a run of snapshots, in their order.
pub open spec fn all_entries(snapshots: Seq<Seq<Usage>>) -> Seq<Usage>
    decreases snapshots.len(),
{
    if snapshots.len() == 0 {
        Seq::empty()
    } else {
        all_entries(snapshots.drop_last()) + snapshots.last()
    }
}

/// What the entries of one user add up to: the sum of their contributions.
pub open spec fn share_of(entries: Seq<Usage>, user: Seq<char>, interval_sec: nat) -> nat
    decreases entries.len(),
{
    if entries.len() == 0 {
        0
    } else {
        share_of(entries.drop_last(), user, interval_sec) + (if entries.last().user == user {
            contribution(entries.last().mem_mib, interval_sec)
        } else {
            0
        })
    }
}

/// Whether an entry is of `user`.
pub open spec fn names(entries: Seq<Usage>, user: Seq<char>) -> bool {
    exists|i: int| 0 <= i < entries.len() && (#[trigger] entries[i]).user == user
}

/// Whether `amount` MiB-seconds are `numerator / denominator`
/// gibibyte-hours, as a fraction.
pub open spec fn is_gib_hours(amount: nat, numerator: nat, denominator: nat) -> bool {
    denominator > 0 && amount * denominator == numerator * MIB_SECONDS_PER_GIB_HOUR
}

/// A contribution does not shrink when the memory or the interval grows.
pub proof fn contribution_is_monotone(mem_a: nat, mem_b: nat, interval_a: nat, interval_b: nat)
    requires
        mem_a <= mem_b,
        interval_a <= interval_b,
    ensures
        contribution(mem_a, interval_a) <= contribution(mem_b, interval_b),
{
    assert(mem_a * interval_a <= mem_b * interval_b) by (nonlinear_arith)
        requires
            mem_a <= mem_b,
            interval_a <= interval_b,
    ;
}

/// The formula of a contribution: in gibibyte-hours it is the fraction
/// `mem_mib * interval_sec / (1024 * 3600)`, for every memory and every
/// interval.
pub proof fn contribution_in_gib_hours(mem_mib: nat, interval_sec: nat)
    ensures
        is_gib_hours(contribution(mem_mib, interval_sec), mem_mib * interval_sec, 1024 * 3600),
        MIB_SECONDS_PER_GIB_HOUR == 1024 * 3600,
{
}

/// A snapshot of one entry adds the contribution of the entry to the total
/// of its user, which starts at zero where the user had none, and leaves
/// every other user as before. Below the ceiling the sum is exact.
pub proof fn fold_of_one_entry(
    totals: Map<Seq<char>, nat>,
    entry: Usage,
    interval_sec: nat,
    other: Seq<char>,
)
    ensures
        folded(totals, seq![entry], interval_sec) == credited(
            totals,
            entry.user,
            entry.mem_mib * interval_sec,
        ),
        folded(totals, seq![entry], interval_sec).contains_key(entry.user),
        folded(totals, seq![entry], interval_sec)[entry.user] == saturate(
            total_of(totals, entry.user) + entry.mem_mib * interval_sec,
        ),
        total_of(totals, entry.user) + entry.mem_mib * interval_sec <= ceiling() ==> folded(
            totals,
            seq![entry],
            interval_sec,
        )[entry.user] == total_of(totals, entry.user) + entry.mem_mib * interval_sec,
        other != entry.user ==> (folded(totals, seq![entry], interval_sec).contains_key(other)
            <==> totals.contains_key(other)) && total_of(
            folded(totals, seq![entry], interval_sec),
            other,
        ) == total_of(totals, other),
{
    assert(seq![entry].drop_last() == Seq::<Usage>::empty());
    assert(seq![entry].last() == entry);
    assert(folded(totals, Seq::<Usage>::empty(), interval_sec) == totals);
}

/// Two credits give the same totals in either order.
pub proof fn credits_commute(
    totals: Map<Seq<char>, nat>,
    user_a: Seq<char>,
    amount_a: nat,
    user_b: Seq<char>,
    amount_b: nat,
)
    ensures
        credited(credited(totals, user_a, amount_a), user_b, amount_b) == credited(
            credited(totals, user_b, amount_b),
            user_a,
            amount_a,
        ),
{
    assert(credited(credited(totals, user_a, amount_a), user_b, amount_b) =~= credited(
        credited(totals, user_b, amount_b),
        user_a,
        amount_a,
    ));
}

/// Folding a snapshot in two parts, one after the other, gives the same
/// totals as folding it whole. So do three parts, and so on: a run of
/// snapshots adds up to the snapshot of all their entries.
pub proof fn fold_in_parts(
    totals: Map<Seq<char>, nat>,
    first: Seq<Usage>,
    second: Seq<Usage>,
    interval_sec: nat,
)
    ensures
        folded(totals, first + second, interval_sec) == folded(
            folded(totals, first, interval_sec),
            second,
            interval_sec,
        ),
    decreases second.len(),
{
    if second.len() == 0 {
        assert(first + second == first);
    } else {
        fold_in_parts(totals, first, second.drop_last(), interval_sec);
        assert((first + second).drop_last() == first + second.drop_last());
    }
}

/// Folding a snapshot gives the same totals as folding it without one of
/// its entries and crediting that entry afterwards.
pub proof fn fold_with_entry_last(
    totals: Map<Seq<char>, nat>,
    entries: Seq<Usage>,
    k: int,
    interval_sec: nat,
)
    requires
        0 <= k < entries.len(),
    ensures
        folded(totals, entries, interval_sec) == credited(
            folded(totals, entries.remove(k), interval_sec),
            entries[k].user,
            contribution(entries[k].mem_mib, interval_sec),
        ),
    decreases entries.len(),
{
    if k == entries.len() - 1 {
        assert(entries.remove(k) == entries.drop_last());
    } else {
        let earlier = entries.drop_last();
        fold_with_entry_last(totals, earlier, k, interval_sec);
        assert(entries.remove(k).drop_last() == earlier.remove(k));
        assert(entries.remove(k).last() == entries.last());
        credits_commute(
            folded(totals, earlier.remove(k), interval_sec),
            entries[k].user,
            contribution(entries[k].mem_mib, interval_sec),
            entries.last().user,
            contribution(entries.last().mem_mib, interval_sec),
        );
    }
}

/// The order of the entries of a snapshot does not matter: two snapshots
/// with the same entries, each as often in one as in the other, give the
/// same totals.
pub proof fn fold_in_any_order(
    totals: Map<Seq<char>, nat>,
    entries: Seq<Usage>,
    reordered: Seq<Usage>,
    interval_sec: nat,
)
    requires
        entries.to_multiset() == reordered.to_multiset(),
    ensures
        folded(totals, entries, interval_sec) == folded(totals, reordered, interval_sec),
    decreases entries.len(),
{
    entries.to_multiset_ensures();
    reordered.to_multiset_ensures();
    if entries.len() == 0 {
        assert(reordered.len() == 0);
    } else {
        let last = entries.last();
        assert(entries[entries.len() - 1] == last);
        assert(entries.contains(last));
        assert(entries.to_multiset().count(last) > 0);
        assert(reordered.to_multiset().count(last) > 0);
        assert(reordered.contains(last));
        let k = choose|k: int| 0 <= k < reordered.len() && reordered[k] == last;
        assert(entries.remove(entries.len() - 1) == entries.drop_last());
        assert(entries.drop_last().to_multiset() == reordered.remove(k).to_multiset());
        fold_in_any_order(totals, entries.drop_last(), reordered.remove(k), interval_sec);
        fold_with_entry_last(totals, reordered, k, interval_sec);
    }
}

/// No total decreases: a user with a total keeps one, and it is at least
/// what it was.
pub proof fn fold_never_decreases(
    totals: Map<Seq<char>, nat>,
    entries: Seq<Usage>,
    interval_sec: nat,
    user: Seq<char>,
)
    requires
        totals.contains_key(user),
        totals[user] <= ceiling(),
    ensures
        folded(totals, entries, interval_sec).contains_key(user),
        totals[user] <= folded(totals, entries, interval_sec)[user] <= ceiling(),
    decreases entries.len(),
{
    if entries.len() > 0 {
        fold_never_decreases(totals, entries.drop_last(), interval_sec, user);
    }
}

/// A snapshot without entries changes nothing.
pub proof fn fold_of_nothing(totals: Map<Seq<char>, nat>, interval_sec: nat)
    ensures
        folded(totals, Seq::<Usage>::empty(), interval_sec) == totals,
{
}

/// What a fold does to each user. A user that the snapshot names has a total
/// afterwards: the one before, or zero, plus the share of the snapshot, up to
/// the ceiling. A user that it does not name is left as before, with or
/// without a total.
pub proof fn fold_adds_shares(
    totals: Map<Seq<char>, nat>,
    entries: Seq<Usage>,
    interval_sec: nat,
    user: Seq<char>,
)
    ensures
        names(entries, user) ==> folded(totals, entries, interval_sec).contains_key(user)
            && folded(totals, entries, interval_sec)[user] == saturate(
            total_of(totals, user) + share_of(entries, user, interval_sec),
        ),
        !names(entries, user) ==> (folded(totals, entries, interval_sec).contains_key(user)
            <==> totals.contains_key(user)) && total_of(
            folded(totals, entries, interval_sec),
            user,
        ) == total_of(totals, user) && share_of(entries, user, interval_sec) == 0,
    decreases entries.len(),
{
    if entries.len() > 0 {
        let earlier = entries.drop_last();
        fold_adds_shares(totals, earlier, interval_sec, user);
        if names(earlier, user) {
            let i = choose|i: int| 0 <= i < earlier.len() && (#[trigger] earlier[i]).user == user;
            assert(entries[i].user == user);
        }
        if entries.last().user == user {
            assert(entries[entries.len() - 1].user == user);
        }
        if names(entries, user) {
            let i = choose|i: int| 0 <= i < entries.len() && (#[trigger] entries[i]).user == user;
            if i < earlier.len() {
                assert(earlier[i].user == user);
            }
        }
    }
}

/// A malformed line of the process query leaves the totals as they would be
/// without it, whoever the owners are.
pub proof fn malformed_line_leaves_totals(
    before: Seq<Seq<char>>,
    line: Seq<char>,
    after: Seq<Seq<char>>,
    owners: Map<u32, Seq<char>>,
    totals: Map<Seq<char>, nat>,
    interval_sec: nat,
)
    requires
        split(line, ',').len() != 2,
    ensures
        folded(totals, joined(apps_of_lines(before + seq![line] + after), owners), interval_sec)
            == folded(totals, joined(apps_of_lines(before + after), owners), interval_sec),
{
    malformed_line_is_skipped(before, line, after);
}

/// A run of snapshots gives the totals of the one snapshot that holds all
/// their entries: how the entries are dealt out to snapshots does not matter.
pub proof fn run_is_one_fold(
    totals: Map<Seq<char>, nat>,
    snapshots: Seq<Seq<Usage>>,
    interval_sec: nat,
)
    ensures
        totals_after(totals, snapshots, interval_sec) == folded(
            totals,
            all_entries(snapshots),
            interval_sec,
        ),
    decreases snapshots.len(),
{
    if snapshots.len() > 0 {
        run_is_one_fold(totals, snapshots.drop_last(), interval_sec);
        fold_in_parts(totals, all_entries(snapshots.drop_last()), snapshots.last(), interval_sec);
    }
}

/// A run in which every snapshot is empty leaves the totals as they were:
/// from no totals, there are none at its end.
pub proof fn run_without_usage(
    totals: Map<Seq<char>, nat>,
    snapshots: Seq<Seq<Usage>>,
    interval_sec: nat,
)
    requires
        forall|i: int| 0 <= i < snapshots.len() ==> (#[trigger] snapshots[i]).len() == 0,
    ensures
        totals_after(totals, snapshots, interval_sec) == totals,
    decreases snapshots.len(),
{
    if snapshots.len() > 0 {
        assert forall|i: int| 0 <= i < snapshots.drop_last().len() implies (
        #[trigger] snapshots.drop_last()[i]).len() == 0 by {
            assert(snapshots.drop_last()[i] == snapshots[i]);
        }
        run_without_usage(totals, snapshots.drop_last(), interval_sec);
        assert(snapshots[snapshots.len() - 1].len() == 0);
    }
}

/// The total of one user.
#[derive(Debug, Clone)]
pub struct UserTotal {
    pub user: String,
    pub mib_seconds: u128,
}

/// The map that a list of rows stands for.
pub open spec fn rows_map(rows: Seq<UserTotal>) -> Map<Seq<char>, nat>
    decreases rows.len(),
{
    if rows.len() == 0 {
        Map::empty()
    } else {
        rows_map(rows.drop_last()).insert(rows.last().user@, rows.last().mib_seconds as nat)
    }
}

/// Whether no user has two rows.
pub open spec fn distinct_users(rows: Seq<UserTotal>) -> bool {
    forall|i: int, j: int| 0 <= i < j < rows.len() ==> rows[i].user@ != rows[j].user@
}

/// What distinct rows say of their map: it holds the users of the rows and
/// no others, each with the amount of its row.
pub proof fn rows_map_holds_rows(rows: Seq<UserTotal>)
    requires
        distinct_users(rows),
    ensures
        forall|i: int|
            0 <= i < rows.len() ==> rows_map(rows).contains_key(#[trigger] rows[i].user@)
                && rows_map(rows)[rows[i].user@] == rows[i].mib_seconds,
        forall|user: Seq<char>| #[trigger]
            rows_map(rows).contains_key(user) ==> exists|i: int|
                0 <= i < rows.len() && #[trigger] rows[i].user@ == user,
        rows_map(rows).dom().finite(),
        rows_map(rows).dom().len() == rows.len(),
    decreases rows.len(),
{
    if rows.len() > 0 {
        let earlier = rows.drop_last();
        rows_map_holds_rows(earlier);
        assert forall|i: int| 0 <= i < rows.len() implies rows_map(rows).contains_key(
            #[trigger] rows[i].user@,
        ) && rows_map(rows)[rows[i].user@] == rows[i].mib_seconds by {
            if i < rows.len() - 1 {
                assert(earlier[i] == rows[i]);
            }
        }
        assert forall|user: Seq<char>| #[trigger] rows_map(rows).contains_key(user) implies exists|
            i: int,
        |
            0 <= i < rows.len() && #[trigger] rows[i].user@ == user by {
            if user == rows.last().user@ {
                assert(rows[rows.len() - 1].user@ == user);
            } else {
                let i = choose|i: int| 0 <= i < earlier.len() && #[trigger] earlier[i].user@ == user;
                assert(rows[i].user@ == user);
            }
        }
        if rows_map(earlier).contains_key(rows.last().user@) {
            let i = choose|i: int|
                0 <= i < earlier.len() && #[trigger] earlier[i].user@ == rows.last().user@;
            assert(rows[i].user@ == rows[rows.len() - 1].user@);
        }
        assert(rows_map(rows).dom() == rows_map(earlier).dom().insert(rows.last().user@));
    }
}

/// The accumulated usage of every user seen so far.
pub struct UsageTotals {
    rows: Vec<UserTotal>,
}

impl View for UsageTotals {
    type V = Map<Seq<char>, nat>;

    /// The total of each user, in MiB-seconds.
    closed spec fn view(&self) -> Map<Seq<char>, nat> {
        rows_map(self.rows@)
    }
}

impl UsageTotals {
    /// Whether the totals are well formed: no user is held twice.
    pub closed spec fn wf(&self) -> bool {
        distinct_users(self.rows@)
    }

    /// Well-formed totals hold finitely many users, and no total is above
    /// the ceiling.
    pub proof fn totals_are_bounded(&self)
        requires
            self.wf(),
        ensures
            self@.dom().finite(),
            forall|user: Seq<char>| #[trigger] self@.contains_key(user) ==> self@[user] <= ceiling(),
    {
        rows_map_holds_rows(self.rows@);
        assert forall|user: Seq<char>| #[trigger] self@.contains_key(user) implies self@[user]
            <= ceiling() by {
            let i = choose|i: int| 0 <= i < self.rows@.len() && #[trigger] self.rows@[i].user@ == user;
            assert(self@[self.rows@[i].user@] == self.rows@[i].mib_seconds);
        }
    }

    /// Totals without a user.
    pub fn new() -> (totals: UsageTotals)
        ensures
            totals.wf(),
            totals@ == Map::<Seq<char>, nat>::empty(),
    {
        UsageTotals { rows: Vec::new() }
    }

    /// The number of users.
    pub fn len(&self) -> (n: usize)
        requires
            self.wf(),
        ensures
            n == self@.dom().len(),
    {
        proof {
            rows_map_holds_rows(self.rows@);
        }
        self.rows.len()
    }

    /// Whether there is no user.
    pub fn is_empty(&self) -> (b: bool)
        requires
            self.wf(),
        ensures
            b == (self@ == Map::<Seq<char>, nat>::empty()),
    {
        proof {
            rows_map_holds_rows(self.rows@);
            if self.rows@.len() > 0 {
                assert(self@.contains_key(self.rows@[0].user@));
            }
        }
        self.rows.len() == 0
    }

    /// The index of the row of `user`, or the number of rows.
    fn position(&self, user: &String) -> (i: usize)
        requires
            self.wf(),
        ensures
            i <= self.rows@.len(),
            i < self.rows@.len() ==> self.rows@[i as int].user@ == user@,
            i == self.rows@.len() ==> !self@.contains_key(user@),
    {
        let mut i: usize = 0;
        while i < self.rows.len()
            invariant
                i <= self.rows@.len(),
                forall|j: int| 0 <= j < i ==> self.rows@[j].user@ != user@,
            decreases self.rows@.len() - i,
        {
            if self.rows[i].user == *user {
                return i;
            }
            i += 1;
        }
        proof {
            rows_map_holds_rows(self.rows@);
        }
        i
    }

    /// The total of `user` in MiB-seconds, if the user has one.
    pub fn get(&self, user: &String) -> (total: Option<u128>)
        requires
            self.wf(),
        ensures
            match total {
                Some(amount) => self@.contains_key(user@) && self@[user@] == amount,
                None => !self@.contains_key(user@),
            },
    {
        let i = self.position(user);
        if i < self.rows.len() {
            proof {
                rows_map_holds_rows(self.rows@);
            }
            Some(self.rows[i].mib_seconds)
        } else {
            None
        }
    }

    /// One row for each user, in no particular order.
    pub fn rows(&self) -> (rows: Vec<UserTotal>)
        requires
            self.wf(),
        ensures
            distinct_users(rows@),
            rows_map(rows@) == self@,
            rows@.len() == self@.dom().len(),
    {
        proof {
            rows_map_holds_rows(self.rows@);
        }
        let mut rows: Vec<UserTotal> = Vec::new();
        let mut i: usize = 0;
        while i < self.rows.len()
            invariant
                i <= self.rows@.len(),
                rows@ == self.rows@.take(i as int),
            decreases self.rows@.len() - i,
        {
            let row = UserTotal {
                user: self.rows[i].user.clone(),
                mib_seconds: self.rows[i].mib_seconds,
            };
            rows.push(row);
            assert(self.rows@.take(i + 1) == self.rows@.take(i as int).push(self.rows@[i as int]));
            i += 1;
        }
        assert(self.rows@.take(self.rows@.len() as int) == self.rows@);
        rows
    }

    /// Adds `amount` to the total of `user`.
    pub fn credit(&mut self, user: &String, amount: u128)
        requires
            old(self).wf(),
        ensures
            final(self).wf(),
            final(self)@ == credited(old(self)@, user@, amount as nat),
    {
        let i = self.position(user);
        proof {
            rows_map_holds_rows(self.rows@);
        }
        if i < self.rows.len() {
            let held: u128 = self.rows[i].mib_seconds;
            let sum: u128 = if amount > u128::MAX - held {
                u128::MAX
            } else {
                held + amount
            };
            let ghost before = self.rows@;
            self.rows.set(i, UserTotal { user: user.clone(), mib_seconds: sum });
            proof {
                let after = self.rows@;
                assert forall|a: int, b: int| 0 <= a < b < after.len() implies after[a].user@
                    != after[b].user@ by {
                    assert(after[a].user@ == before[a].user@);
                    assert(after[b].user@ == before[b].user@);
                }
                rows_map_holds_rows(after);
                assert forall|name: Seq<char>| #[trigger]
                    rows_map(after).contains_key(name) <==> rows_map(before).contains_key(
                        name,
                    ) by {
                    if rows_map(after).contains_key(name) {
                        let k = choose|k: int| 0 <= k < after.len() && #[trigger] after[k].user@ == name;
                        assert(before[k].user@ == name);
                    }
                    if rows_map(before).contains_key(name) {
                        let k = choose|k: int|
                            0 <= k < before.len() && #[trigger] before[k].user@ == name;
                        assert(after[k].user@ == name);
                    }
                }
                assert forall|name: Seq<char>| #[trigger]
                    rows_map(after).contains_key(name) implies rows_map(after)[name] == credited(
                    rows_map(before),
                    user@,
                    amount as nat,
                )[name] by {
                    let k = choose|k: int| 0 <= k < after.len() && #[trigger] after[k].user@ == name;
                    assert(before[k].user@ == name);
                    assert(rows_map(after)[after[k].user@] == after[k].mib_seconds);
                    assert(rows_map(before)[before[k].user@] == before[k].mib_seconds);
                }
                assert(rows_map(after) =~= credited(rows_map(before), user@, amount as nat));
            }
        } else {
            self.rows.push(UserTotal { user: user.clone(), mib_seconds: amount });
            assert(self.rows@.drop_last() == old(self).rows@);
        }
    }

    /// Folds one snapshot into the totals: each entry adds its contribution
    /// for the interval to the total of its user. No total decreases.
    pub fn fold(&mut self, entries: &Vec<LogEntry>, interval_sec: u64)
        requires
            old(self).wf(),
        ensures
            final(self).wf(),
            final(self)@ == folded(old(self)@, usages(entries@), interval_sec as nat),
            forall|user: Seq<char>| #[trigger]
                old(self)@.contains_key(user) ==> final(self)@.contains_key(user) && old(
                    self,
                )@[user] <= final(self)@[user],
    {
        proof {
            old(self).totals_are_bounded();
            assert forall|user: Seq<char>| #[trigger] old(self)@.contains_key(user) implies folded(
                old(self)@,
                usages(entries@),
                interval_sec as nat,
            ).contains_key(user) && old(self)@[user] <= folded(
                old(self)@,
                usages(entries@),
                interval_sec as nat,
            )[user] by {
                fold_never_decreases(old(self)@, usages(entries@), interval_sec as nat, user);
            }
        }
        let mut i: usize = 0;
        assert(usages(entries@).take(0) == Seq::<Usage>::empty());
        while i < entries.len()
            invariant
                i <= entries@.len(),
                self.wf(),
                self@ == folded(old(self)@, usages(entries@).take(i as int), interval_sec as nat),
            decreases entries@.len() - i,
        {
            assert(usages(entries@).take(i + 1).drop_last() == usages(entries@).take(i as int));
            assert(usages(entries@).take(i + 1).last() == entries@[i as int]@);
            let amount = contribution_of(entries[i].mem_mib, interval_sec);
            self.credit(&entries[i].user, amount);
            i += 1;
        }
        assert(usages(entries@).take(entries@.len() as int) == usages(entries@));
    }
}

/// What a process that holds `mem_mib` MiB adds to the total of its owner
/// over an interval of `interval_sec` seconds, in MiB-seconds.
pub fn contribution_of(mem_mib: u64, interval_sec: u64) -> (amount: u128)
    ensures
        amount == contribution(mem_mib as nat, interval_sec as nat),
{
    assert(mem_mib * interval_sec <= u64::MAX * u64::MAX) by (nonlinear_arith)
        requires
            mem_mib <= u64::MAX,
            interval_sec <= u64::MAX,
    ;
    (mem_mib as u128) * (interval_sec as u128)
}

} // verus!
