//! Counting devices by artifact, ranking the counts and writing the report.

use crate::text::{decimal, decimal_string};
use vstd::prelude::*;

verus! {

/// An artifact and the number of devices that run it.
#[derive(Debug, PartialEq, Eq)]
pub struct ArtifactCount {
    pub name: String,
    pub count: u64,
}

impl DeepView for ArtifactCount {
    type V = (Seq<char>, nat);

    open spec fn deep_view(&self) -> (Seq<char>, nat) {
        (self.name@, self.count as nat)
    }
}

impl View for ArtifactCount {
    type V = (Seq<char>, nat);

    open spec fn view(&self) -> (Seq<char>, nat) {
        self.deep_view()
    }
}

/// Whether some entry is for `name`.
pub open spec fn holds(entries: Seq<(Seq<char>, nat)>, name: Seq<char>) -> bool {
    exists|i: int| 0 <= i < entries.len() && (#[trigger] entries[i]).0 == name
}

/// Index of an entry for `name`.
pub open spec fn index_of(entries: Seq<(Seq<char>, nat)>, name: Seq<char>) -> int {
    choose|i: int| 0 <= i < entries.len() && (#[trigger] entries[i]).0 == name
}

/// The count that the entries give for `name`: zero where none is for it.
pub open spec fn count_of(entries: Seq<(Seq<char>, nat)>, name: Seq<char>) -> nat {
    if holds(entries, name) {
        entries[index_of(entries, name)].1
    } else {
        0
    }
}

/// No two entries are for the same name.
pub open spec fn distinct(entries: Seq<(Seq<char>, nat)>) -> bool {
    forall|i: int, j: int|
        0 <= i < j < entries.len() ==> (#[trigger] entries[i]).0 != (#[trigger] entries[j]).0
}

/// The entries after one more device that runs `name`: its entry counts one
/// more, or a new entry with count 1 is added behind the others.
pub open spec fn record(entries: Seq<(Seq<char>, nat)>, name: Seq<char>) -> Seq<(Seq<char>, nat)> {
    if holds(entries, name) {
        let i = index_of(entries, name);
        entries.update(i, (name, entries[i].1 + 1))
    } else {
        entries.push((name, 1))
    }
}

/// The entries after the devices that run `names`, taken in order.
pub open spec fn record_all(entries: Seq<(Seq<char>, nat)>, names: Seq<Seq<char>>) -> Seq<
    (Seq<char>, nat),
>
    decreases names.len(),
{
    if names.len() == 0 {
        entries
    } else {
        record(record_all(entries, names.drop_last()), names.last())
    }
}

/// How often `name` occurs in `names`.
pub open spec fn occurrences(names: Seq<Seq<char>>, name: Seq<char>) -> nat
    decreases names.len(),
{
    if names.len() == 0 {
        0
    } else {
        occurrences(names.drop_last(), name) + if names.last() == name {
            1nat
        } else {
            0nat
        }
    }
}

/// Counts of devices by artifact, in the order in which the artifacts were
/// first seen.
#[derive(Debug, PartialEq, Eq)]
pub struct Tally {
    entries: Vec<ArtifactCount>,
    total: u64,
}

impl DeepView for Tally {
    type V = Seq<(Seq<char>, nat)>;

    closed spec fn deep_view(&self) -> Seq<(Seq<char>, nat)> {
        self.entries.deep_view()
    }
}

impl View for Tally {
    type V = Seq<(Seq<char>, nat)>;

    open spec fn view(&self) -> Seq<(Seq<char>, nat)> {
        self.deep_view()
    }
}

impl Tally {
    /// Number of devices recorded.
    pub closed spec fn total(self) -> nat {
        self.total as nat
    }

    /// The invariant of a tally: no artifact has two entries, and no entry
    /// counts more devices than were recorded.
    pub open spec fn wf(self) -> bool {
        &&& distinct(self@)
        &&& forall|i: int| 0 <= i < self@.len() ==> (#[trigger] self@[i]).1 <= self.total()
    }

    /// A tally of no device.
    pub fn new() -> (tally: Tally)
        ensures
            tally.wf(),
            tally@ == Seq::<(Seq<char>, nat)>::empty(),
            tally.total() == 0,
    {
        let entries: Vec<ArtifactCount> = Vec::new();
        assert(entries.deep_view() =~= Seq::empty());
        Tally { entries, total: 0 }
    }

    /// Number of devices recorded.
    pub fn devices(&self) -> (total: u64)
        ensures
            total == self.total(),
    {
        self.total
    }

    /// Records one more device that runs `name`.
    pub fn record(&mut self, name: String)
        requires
            old(self).wf(),
            old(self).total() < u64::MAX,
        ensures
            final(self).wf(),
            final(self)@ == record(old(self)@, name@),
            final(self).total() == old(self).total() + 1,
    {
        let ghost before = self.entries.deep_view();
        let mut i: usize = 0;
        while i < self.entries.len()
            invariant
                i <= self.entries.len(),
                before == self.entries.deep_view(),
                *self == *old(self),
                self.wf(),
                self.total < u64::MAX,
                forall|j: int| 0 <= j < i ==> (#[trigger] before[j]).0 != name@,
            decreases self.entries.len() - i,
        {
            if self.entries[i].name == name {
                assert(before[i as int].0 == name@);
                assert(holds(before, name@));
                let ghost found = index_of(before, name@);
                assert(found == i) by {
                    if found < i {
                        assert(before[found].0 != name@);
                    } else if found > i {
                        assert(before[i as int].0 != before[found].0);
                    }
                }
                let count = self.entries[i].count;
                assert(before[i as int].1 == count);
                self.entries.set(i, ArtifactCount { name, count: count + 1 });
                self.total = self.total + 1;
                assert(self.entries.deep_view() =~= before.update(i as int, (name@, (count + 1) as nat)));
                return ;
            }
            i = i + 1;
        }
        assert(!holds(before, name@));
        self.entries.push(ArtifactCount { name, count: 1 });
        self.total = self.total + 1;
        assert(self.entries.deep_view() =~= before.push((name@, 1nat)));
    }
}

/// Recording one device keeps the entries distinct and adds one to the
/// count of its artifact, and to no other.
pub proof fn lemma_record(entries: Seq<(Seq<char>, nat)>, name: Seq<char>, other: Seq<char>)
    requires
        distinct(entries),
    ensures
        distinct(record(entries, name)),
        holds(record(entries, name), other) <==> holds(entries, other) || other == name,
        count_of(record(entries, name), other) == count_of(entries, other) + if other == name {
            1nat
        } else {
            0nat
        },
{
    let after = record(entries, name);
    if holds(entries, name) {
        let i = index_of(entries, name);
        assert forall|a: int, b: int| 0 <= a < b < after.len() implies (#[trigger] after[a]).0 != (
        #[trigger] after[b]).0 by {
            assert(after[a].0 == entries[a].0 && after[b].0 == entries[b].0);
        }
        if holds(entries, other) {
            let k = index_of(entries, other);
            assert(after[k].0 == other);
            lemma_count_at(after, k);
            lemma_count_at(entries, k);
            if other == name {
                lemma_count_at(entries, i);
            }
        } else if holds(after, other) {
            let k = index_of(after, other);
            assert(entries[k].0 == other);
        }
    } else {
        assert forall|a: int, b: int| 0 <= a < b < after.len() implies (#[trigger] after[a]).0 != (
        #[trigger] after[b]).0 by {
            if b == entries.len() {
                assert(entries[a].0 != name);
            } else {
                assert(after[a].0 == entries[a].0 && after[b].0 == entries[b].0);
            }
        }
        if holds(entries, other) {
            let k = index_of(entries, other);
            assert(after[k].0 == other);
            lemma_count_at(after, k);
        } else if other == name {
            assert(after[entries.len() as int].0 == name);
            lemma_count_at(after, entries.len() as int);
        } else if holds(after, other) {
            let k = index_of(after, other);
            assert(entries[k].0 == other);
        }
    }
}

/// Among distinct entries, the count for the name of the entry at `i` is
/// that entry's count.
pub proof fn lemma_count_at(entries: Seq<(Seq<char>, nat)>, i: int)
    requires
        distinct(entries),
        0 <= i < entries.len(),
    ensures
        holds(entries, entries[i].0),
        index_of(entries, entries[i].0) == i,
        count_of(entries, entries[i].0) == entries[i].1,
{
    let name = entries[i].0;
    assert(holds(entries, name));
    let k = index_of(entries, name);
    if k < i {
        assert(entries[k].0 != entries[i].0);
    } else if i < k {
        assert(entries[i].0 != entries[k].0);
    }
}

/// The census counts devices: after the devices that run `names`, the count
/// of every artifact has grown by the number of times it occurs in `names`,
/// and no artifact has two entries.
pub proof fn lemma_record_all_counts(
    entries: Seq<(Seq<char>, nat)>,
    names: Seq<Seq<char>>,
    name: Seq<char>,
)
    requires
        distinct(entries),
    ensures
        distinct(record_all(entries, names)),
        count_of(record_all(entries, names), name) == count_of(entries, name) + occurrences(
            names,
            name,
        ),
    decreases names.len(),
{
    if names.len() > 0 {
        lemma_record_all_counts(entries, names.drop_last(), name);
        lemma_record(record_all(entries, names.drop_last()), names.last(), name);
    }
}

/// Recording page after page is recording the pages' devices in one go: how
/// the devices are split into pages does not matter.
pub proof fn lemma_record_all_concat(
    entries: Seq<(Seq<char>, nat)>,
    first: Seq<Seq<char>>,
    second: Seq<Seq<char>>,
)
    ensures
        record_all(record_all(entries, first), second) == record_all(entries, first + second),
    decreases second.len(),
{
    if second.len() == 0 {
        assert(first + second =~= first);
    } else {
        lemma_record_all_concat(entries, first, second.drop_last());
        assert((first + second).drop_last() =~= first + second.drop_last());
        assert((first + second).last() == second.last());
    }
}

/// `ranked` with `entry` put behind the last entry that counts at least as
/// much, and before every other.
pub open spec fn insert_ranked(ranked: Seq<(Seq<char>, nat)>, entry: (Seq<char>, nat)) -> Seq<
    (Seq<char>, nat),
>
    decreases ranked.len(),
{
    if ranked.len() == 0 {
        seq![entry]
    } else if ranked.last().1 >= entry.1 {
        ranked.push(entry)
    } else {
        insert_ranked(ranked.drop_last(), entry).push(ranked.last())
    }
}

/// The entries ordered by count, largest first; entries with the same count
/// keep the order they had.
pub open spec fn rank(entries: Seq<(Seq<char>, nat)>) -> Seq<(Seq<char>, nat)>
    decreases entries.len(),
{
    if entries.len() == 0 {
        Seq::empty()
    } else {
        insert_ranked(rank(entries.drop_last()), entries.last())
    }
}

/// No entry counts more than one before it.
pub open spec fn descending(entries: Seq<(Seq<char>, nat)>) -> bool {
    forall|i: int, j: int|
        0 <= i < j < entries.len() ==> (#[trigger] entries[i]).1 >= (#[trigger] entries[j]).1
}

/// The test for the entries that count `count`.
pub open spec fn counting(count: nat) -> spec_fn((Seq<char>, nat)) -> bool {
    |entry: (Seq<char>, nat)| entry.1 == count
}

/// Where `at` is the place behind the last entry that counts at least as
/// much as `entry`, [`insert_ranked`] inserts at `at`.
pub proof fn lemma_insert_ranked_at(
    ranked: Seq<(Seq<char>, nat)>,
    entry: (Seq<char>, nat),
    at: int,
)
    requires
        0 <= at <= ranked.len(),
        forall|j: int| at <= j < ranked.len() ==> (#[trigger] ranked[j]).1 < entry.1,
        at > 0 ==> ranked[at - 1].1 >= entry.1,
    ensures
        insert_ranked(ranked, entry) == ranked.insert(at, entry),
    decreases ranked.len(),
{
    if ranked.len() == 0 {
        assert(seq![entry] =~= ranked.insert(at, entry));
    } else if ranked.last().1 >= entry.1 {
        if at < ranked.len() {
            assert(ranked[ranked.len() - 1].1 < entry.1);
        }
        assert(ranked.push(entry) =~= ranked.insert(at, entry));
    } else {
        let shorter = ranked.drop_last();
        assert forall|j: int| at <= j < shorter.len() implies (#[trigger] shorter[j]).1
            < entry.1 by {
            assert(shorter[j] == ranked[j]);
        }
        lemma_insert_ranked_at(shorter, entry, at);
        assert(shorter.insert(at, entry).push(ranked.last()) =~= ranked.insert(at, entry));
    }
}

/// [`insert_ranked`] keeps a descending list descending, adds one entry and
/// leaves the others in their order.
pub proof fn lemma_insert_ranked(ranked: Seq<(Seq<char>, nat)>, entry: (Seq<char>, nat))
    requires
        descending(ranked),
    ensures
        descending(insert_ranked(ranked, entry)),
        insert_ranked(ranked, entry).len() == ranked.len() + 1,
        insert_ranked(ranked, entry).to_multiset() == ranked.to_multiset().insert(entry),
        forall|count: nat|
            #![trigger insert_ranked(ranked, entry).filter(counting(count))]
            insert_ranked(ranked, entry).filter(counting(count)) == if entry.1 == count {
                ranked.filter(counting(count)).push(entry)
            } else {
                ranked.filter(counting(count))
            },
    decreases ranked.len(),
{
    broadcast use vstd::seq_lib::to_multiset_build;

    reveal(Seq::filter);
    let out = insert_ranked(ranked, entry);
    if ranked.len() == 0 {
        assert(ranked =~= Seq::empty());
        assert(out =~= ranked.push(entry));
        assert forall|count: nat|
            #![trigger out.filter(counting(count))]
            out.filter(counting(count)) == if entry.1 == count {
                ranked.filter(counting(count)).push(entry)
            } else {
                ranked.filter(counting(count))
            } by {
            assert(out.drop_last() =~= ranked);
        }
    } else if ranked.last().1 >= entry.1 {
        assert forall|i: int, j: int| 0 <= i < j < out.len() implies (#[trigger] out[i]).1 >= (
        #[trigger] out[j]).1 by {
            if j == ranked.len() && i < ranked.len() - 1 {
                assert(ranked[i].1 >= ranked[ranked.len() - 1].1);
            }
        }
        assert forall|count: nat|
            #![trigger out.filter(counting(count))]
            out.filter(counting(count)) == if entry.1 == count {
                ranked.filter(counting(count)).push(entry)
            } else {
                ranked.filter(counting(count))
            } by {
            assert(out.drop_last() =~= ranked);
        }
    } else {
        let shorter = ranked.drop_last();
        let last = ranked.last();
        let inner = insert_ranked(shorter, entry);
        assert forall|i: int, j: int| 0 <= i < j < shorter.len() implies (#[trigger] shorter[i]).1
            >= (#[trigger] shorter[j]).1 by {
            assert(shorter[i] == ranked[i] && shorter[j] == ranked[j]);
        }
        lemma_insert_ranked(shorter, entry);
        lemma_insert_ranked_bounded(shorter, entry, last.1);
        assert forall|i: int, j: int| 0 <= i < j < out.len() implies (#[trigger] out[i]).1 >= (
        #[trigger] out[j]).1 by {
            if j < inner.len() {
                assert(out[i] == inner[i] && out[j] == inner[j]);
            } else {
                assert(out[i] == inner[i]);
            }
        }
        assert(ranked =~= shorter.push(last));
        assert(out.to_multiset() =~= ranked.to_multiset().insert(entry));
        assert forall|count: nat|
            #![trigger out.filter(counting(count))]
            out.filter(counting(count)) == if entry.1 == count {
                ranked.filter(counting(count)).push(entry)
            } else {
                ranked.filter(counting(count))
            } by {
            assert(out.drop_last() =~= inner);
            assert(inner.filter(counting(count)) == if entry.1 == count {
                shorter.filter(counting(count)).push(entry)
            } else {
                shorter.filter(counting(count))
            });
        }
    }
}

/// Every entry of [`insert_ranked`] counts at least `floor` where `entry`
/// and every entry of `ranked` do.
proof fn lemma_insert_ranked_bounded(
    ranked: Seq<(Seq<char>, nat)>,
    entry: (Seq<char>, nat),
    floor: nat,
)
    requires
        entry.1 >= floor,
        forall|i: int| 0 <= i < ranked.len() ==> (#[trigger] ranked[i]).1 >= floor,
    ensures
        insert_ranked(ranked, entry).len() == ranked.len() + 1,
        forall|i: int|
            0 <= i < ranked.len() + 1 ==> (#[trigger] insert_ranked(ranked, entry)[i]).1 >= floor,
    decreases ranked.len(),
{
    if ranked.len() > 0 && ranked.last().1 < entry.1 {
        let shorter = ranked.drop_last();
        assert forall|i: int| 0 <= i < shorter.len() implies (#[trigger] shorter[i]).1 >= floor by {
            assert(shorter[i] == ranked[i]);
        }
        lemma_insert_ranked_bounded(shorter, entry, floor);
        assert(ranked.last() == ranked[ranked.len() - 1]);
    }
}

/// Ranking orders by count, largest first: the result is descending.
pub proof fn lemma_rank_descends(entries: Seq<(Seq<char>, nat)>)
    ensures
        descending(rank(entries)),
        rank(entries).len() == entries.len(),
    decreases entries.len(),
{
    if entries.len() > 0 {
        lemma_rank_descends(entries.drop_last());
        lemma_insert_ranked(rank(entries.drop_last()), entries.last());
    }
}

/// Ranking only reorders: the result holds the same entries, each as often.
pub proof fn lemma_rank_permutes(entries: Seq<(Seq<char>, nat)>)
    ensures
        rank(entries).to_multiset() == entries.to_multiset(),
    decreases entries.len(),
{
    broadcast use vstd::seq_lib::to_multiset_build;

    if entries.len() > 0 {
        let shorter = entries.drop_last();
        lemma_rank_permutes(shorter);
        lemma_rank_descends(shorter);
        lemma_insert_ranked(rank(shorter), entries.last());
        assert(entries =~= shorter.push(entries.last()));
    } else {
        assert(entries =~= Seq::empty());
    }
}

/// Ranking is stable: the entries that count the same are, among
/// themselves, in the order they had.
pub proof fn lemma_rank_is_stable(entries: Seq<(Seq<char>, nat)>, count: nat)
    ensures
        rank(entries).filter(counting(count)) == entries.filter(counting(count)),
    decreases entries.len(),
{
    reveal(Seq::filter);
    if entries.len() > 0 {
        let shorter = entries.drop_last();
        lemma_rank_is_stable(shorter, count);
        lemma_rank_descends(shorter);
        lemma_insert_ranked(rank(shorter), entries.last());
        assert(rank(entries).filter(counting(count)) == insert_ranked(
            rank(shorter),
            entries.last(),
        ).filter(counting(count)));
    }
}

/// The line of the report for one entry: the name, a colon and a space, the
/// count in decimal notation, and a line feed.
pub open spec fn line(entry: (Seq<char>, nat)) -> Seq<char> {
    entry.0 + ": "@ + decimal(entry.1) + "\n"@
}

/// The report for a list of entries: one line for each, in order.
pub open spec fn render(entries: Seq<(Seq<char>, nat)>) -> Seq<char>
    decreases entries.len(),
{
    if entries.len() == 0 {
        Seq::empty()
    } else {
        render(entries.drop_last()) + line(entries.last())
    }
}

impl Tally {
    /// The entries ordered by count, largest first; entries with the same
    /// count stay in the order in which their artifacts were first seen.
    pub fn ranked(&self) -> (out: Vec<ArtifactCount>)
        ensures
            out.deep_view() == rank(self@),
    {
        let ghost all = self.entries.deep_view();
        let mut out: Vec<ArtifactCount> = Vec::new();
        assert(out.deep_view() =~= rank(all.take(0)));
        let mut i: usize = 0;
        while i < self.entries.len()
            invariant
                i <= self.entries.len(),
                all == self.entries.deep_view(),
                out.deep_view() == rank(all.take(i as int)),
            decreases self.entries.len() - i,
        {
            let entry = ArtifactCount {
                name: self.entries[i].name.clone(),
                count: self.entries[i].count,
            };
            let ghost before = out.deep_view();
            let mut at: usize = out.len();
            while at > 0 && out[at - 1].count < entry.count
                invariant
                    at <= out.len(),
                    before == out.deep_view(),
                    forall|j: int| at <= j < before.len() ==> (#[trigger] before[j]).1 < entry@.1,
                decreases at,
            {
                at = at - 1;
            }
            proof {
                assert(entry@ == all[i as int]);
                assert(all.take(i + 1).drop_last() =~= all.take(i as int));
                assert(all.take(i + 1).last() == all[i as int]);
                if at > 0 {
                    assert(before[at - 1] == out@[at - 1]@);
                }
                lemma_insert_ranked_at(before, entry@, at as int);
            }
            out.insert(at, entry);
            assert(out.deep_view() =~= before.insert(at as int, all[i as int]));
            i = i + 1;
        }
        assert(all.take(i as int) =~= all);
        out
    }
}

/// Writes the report of a tally: one line for each artifact, the artifact
/// that most devices run first.
pub fn display_ordered(tally: &Tally) -> (report: String)
    ensures
        report@ == render(rank(tally@)),
{
    let list = tally.ranked();
    let ghost all = list.deep_view();
    let mut report = String::new();
    assert(report@ =~= render(all.take(0)));
    let mut i: usize = 0;
    while i < list.len()
        invariant
            i <= list.len(),
            all == list.deep_view(),
            report@ == render(all.take(i as int)),
        decreases list.len() - i,
    {
        let ghost before = report@;
        report.append(list[i].name.as_str());
        report.append(": ");
        report.append(decimal_string(list[i].count).as_str());
        report.append("\n");
        proof {
            assert(all.take(i + 1).drop_last() =~= all.take(i as int));
            assert(all.take(i + 1).last() == all[i as int]);
            assert(all[i as int] == list@[i as int]@);
            assert(report@ =~= before + line(all[i as int]));
        }
        i = i + 1;
    }
    assert(all.take(i as int) =~= all);
    report
}

} // verus!
