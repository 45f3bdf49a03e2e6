//! A table of counters, one for each name.

use crate::text::str_eq;
use vstd::prelude::*;

verus! {

/// The count that `table` holds for `name`: zero where it has none.
pub open spec fn count_of(table: Map<Seq<char>, nat>, name: Seq<char>) -> nat {
    if table.contains_key(name) {
        table[name]
    } else {
        0
    }
}

/// The sum of two tables: every name of either, with the counts added.
pub open spec fn merge_tables(a: Map<Seq<char>, nat>, b: Map<Seq<char>, nat>) -> Map<
    Seq<char>,
    nat,
> {
    Map::new(
        |name: Seq<char>| a.contains_key(name) || b.contains_key(name),
        |name: Seq<char>| count_of(a, name) + count_of(b, name),
    )
}

/// Whether the sum of the two counts of every name fits a counter.
pub open spec fn tables_fit(a: Map<Seq<char>, nat>, b: Map<Seq<char>, nat>) -> bool {
    forall|name: Seq<char>| #[trigger] count_of(a, name) + count_of(b, name) <= usize::MAX
}

/// The table that holds `counts[i]` for `names[i]`.
pub open spec fn table_of(names: Seq<Seq<char>>, counts: Seq<nat>) -> Map<Seq<char>, nat> {
    Map::new(|name: Seq<char>| names.contains(name), |name: Seq<char>| counts[names.index_of(name)])
}

/// In a sequence without duplicates a value is found where it stands.
pub proof fn lemma_index_of(names: Seq<Seq<char>>, i: int)
    requires
        names.no_duplicates(),
        0 <= i < names.len(),
    ensures
        names.contains(names[i]),
        names.index_of(names[i]) == i,
{
    let j = names.index_of(names[i]);
    assert(0 <= j < names.len() && names[j] == names[i]);
}

/// Raising the count of the name at `i` changes that name's entry only.
proof fn lemma_table_update(names: Seq<Seq<char>>, counts: Seq<nat>, i: int, count: nat)
    requires
        names.no_duplicates(),
        names.len() == counts.len(),
        0 <= i < names.len(),
    ensures
        table_of(names, counts.update(i, count)) == table_of(names, counts).insert(names[i], count),
{
    let before = table_of(names, counts);
    let after = table_of(names, counts.update(i, count));
    lemma_index_of(names, i);
    assert forall|name: Seq<char>| #[trigger] after.contains_key(name) implies after[name]
        == before.insert(names[i], count)[name] by {
        let j = names.index_of(name);
        assert(0 <= j < names.len() && names[j] == name);
    }
    assert(after =~= before.insert(names[i], count));
}

/// A new name at the end adds its entry and changes no other.
proof fn lemma_table_push(names: Seq<Seq<char>>, counts: Seq<nat>, name: Seq<char>, count: nat)
    requires
        names.no_duplicates(),
        names.len() == counts.len(),
        !names.contains(name),
    ensures
        names.push(name).no_duplicates(),
        table_of(names.push(name), counts.push(count)) == table_of(names, counts).insert(
            name,
            count,
        ),
{
    let longer = names.push(name);
    let before = table_of(names, counts);
    let after = table_of(longer, counts.push(count));
    assert forall|i: int, j: int| 0 <= i < longer.len() && 0 <= j < longer.len() && i
        != j implies longer[i] != longer[j] by {
        if i < names.len() {
            assert(names.contains(names[i]));
        }
        if j < names.len() {
            assert(names.contains(names[j]));
        }
    }
    assert(longer[names.len() as int] == name);
    lemma_index_of(longer, names.len() as int);
    assert forall|other: Seq<char>| #[trigger] after.contains_key(other) == before.insert(
        name,
        count,
    ).contains_key(other) by {
        if longer.contains(other) {
            let j = longer.index_of(other);
            assert(0 <= j < longer.len() && longer[j] == other);
            if j < names.len() {
                assert(names[j] == other);
            }
        }
        if names.contains(other) {
            let j = names.index_of(other);
            assert(0 <= j < names.len() && names[j] == other);
            assert(longer[j] == other);
        }
    }
    assert forall|other: Seq<char>| #[trigger] after.contains_key(other) implies after[other]
        == before.insert(name, count)[other] by {
        if other != name {
            let j = names.index_of(other);
            assert(0 <= j < names.len() && names[j] == other);
            assert(longer[j] == other);
            lemma_index_of(longer, j);
        }
    }
    assert(after =~= before.insert(name, count));
}

/// A name and how often it was counted.
struct Entry {
    key: String,
    count: usize,
}

/// Counters that are found by name. A name occurs at most once; the
/// entries keep the order in which their names first came.
pub struct CountTable {
    entries: Vec<Entry>,
}

/// The names of `entries`, in order.
spec fn names_of(entries: Seq<Entry>) -> Seq<Seq<char>> {
    Seq::new(entries.len(), |i: int| entries[i].key@)
}

/// The counts of `entries`, in order.
spec fn counts_of(entries: Seq<Entry>) -> Seq<nat> {
    Seq::new(entries.len(), |i: int| entries[i].count as nat)
}

impl View for CountTable {
    type V = Map<Seq<char>, nat>;

    /// The count of each name that the table holds.
    open spec fn view(&self) -> Map<Seq<char>, nat> {
        table_of(self.names(), self.counts())
    }
}

impl CountTable {
    #[verifier::type_invariant]
    spec fn distinct(self) -> bool {
        self.names().no_duplicates()
    }

    /// The names of the table, in the order of its entries.
    pub closed spec fn names(&self) -> Seq<Seq<char>> {
        names_of(self.entries@)
    }

    /// The counts of the table, in the order of its entries.
    pub closed spec fn counts(&self) -> Seq<nat> {
        counts_of(self.entries@)
    }

    /// A table without entries: it holds no name and no count.
    pub fn new() -> (table: Self)
        ensures
            table@ == Map::<Seq<char>, nat>::empty(),
            table.names() == Seq::<Seq<char>>::empty(),
            table.counts() == Seq::<nat>::empty(),
    {
        let table = CountTable { entries: Vec::new() };
        assert(table@ =~= Map::<Seq<char>, nat>::empty());
        table
    }

    /// The number of entries. Each entry has one name and one count, and no
    /// two entries have the same name.
    pub fn len(&self) -> (n: usize)
        ensures
            n == self.names().len(),
            n == self.counts().len(),
            self.names().no_duplicates(),
            forall|i: int| 0 <= i < n ==> #[trigger] self.counts()[i] <= usize::MAX,
    {
        proof {
            use_type_invariant(self);
        }
        self.entries.len()
    }

    /// The name of entry `i`.
    pub fn name_at(&self, i: usize) -> (name: &str)
        requires
            i < self.names().len(),
        ensures
            name@ == self.names()[i as int],
    {
        self.entries[i].key.as_str()
    }

    /// The count of entry `i`.
    pub fn count_at(&self, i: usize) -> (count: usize)
        requires
            i < self.counts().len(),
        ensures
            count == self.counts()[i as int],
    {
        self.entries[i].count
    }

    /// The index of the entry of `name`.
    fn position(&self, name: &str) -> (found: Option<usize>)
        ensures
            match found {
                Some(i) => i < self.names().len() && self.names()[i as int] == name@,
                None => !self.names().contains(name@),
            },
    {
        let mut i: usize = 0;
        while i < self.entries.len()
            invariant
                i <= self.entries@.len(),
                forall|j: int| 0 <= j < i ==> self.names()[j] != name@,
            decreases self.entries@.len() - i,
        {
            if str_eq(self.entries[i].key.as_str(), name) {
                return Some(i);
            }
            i += 1;
        }
        None
    }

    /// The count of `name`, if the table has an entry for it.
    pub fn get(&self, name: &str) -> (count: Option<usize>)
        ensures
            match count {
                Some(c) => self@.contains_key(name@) && self@[name@] == c,
                None => !self@.contains_key(name@),
            },
    {
        proof {
            use_type_invariant(self);
        }
        match self.position(name) {
            Some(i) => {
                proof {
                    lemma_index_of(self.names(), i as int);
                }
                Some(self.entries[i].count)
            },
            None => None,
        }
    }

    /// Adds `amount` to the count of `name`. A name that the table does not
    /// hold yet gets an entry that starts at `amount`.
    pub fn add(&mut self, name: &str, amount: usize)
        requires
            count_of(old(self)@, name@) + amount <= usize::MAX,
        ensures
            final(self)@ == old(self)@.insert(
                name@,
                (count_of(old(self)@, name@) + amount) as nat,
            ),
    {
        proof {
            use_type_invariant(&*self);
        }
        let ghost names = self.names();
        let ghost counts = self.counts();
        let found = self.position(name);
        let mut entries: Vec<Entry> = Vec::new();
        core::mem::swap(&mut self.entries, &mut entries);
        match found {
            Some(i) => {
                proof {
                    lemma_index_of(names, i as int);
                    lemma_table_update(names, counts, i as int, (counts[i as int] + amount) as nat);
                }
                entries[i].count = entries[i].count + amount;
                assert(names_of(entries@) =~= names);
                assert(counts_of(entries@) =~= counts.update(
                    i as int,
                    (counts[i as int] + amount) as nat,
                ));
                self.entries = entries;
            },
            None => {
                proof {
                    lemma_table_push(names, counts, name@, amount as nat);
                }
                entries.push(Entry { key: name.to_owned(), count: amount });
                assert(names_of(entries@) =~= names.push(name@));
                assert(counts_of(entries@) =~= counts.push(amount as nat));
                self.entries = entries;
            },
        }
    }

    /// Whether the counts of `other` can be added to those of this table
    /// without any counter running over.
    pub fn fits(&self, other: &CountTable) -> (ok: bool)
        ensures
            ok == tables_fit(self@, other@),
    {
        let n = other.len();
        let mut i: usize = 0;
        while i < n
            invariant
                i <= n,
                n == other.names().len(),
                n == other.counts().len(),
                other.names().no_duplicates(),
                forall|j: int|
                    0 <= j < i ==> count_of(self@, #[trigger] other.names()[j]) + other.counts()[j]
                        <= usize::MAX,
            decreases n - i,
        {
            let name = other.name_at(i);
            let count = other.count_at(i);
            let mine = match self.get(name) {
                Some(c) => c,
                None => 0,
            };
            if count > usize::MAX - mine {
                proof {
                    lemma_index_of(other.names(), i as int);
                    assert(count_of(self@, name@) + count_of(other@, name@) > usize::MAX);
                }
                return false;
            }
            i += 1;
        }
        proof {
            assert forall|name: Seq<char>| #[trigger]
                count_of(self@, name) + count_of(other@, name) <= usize::MAX by {
                if other@.contains_key(name) {
                    let j = other.names().index_of(name);
                    assert(0 <= j < n && other.names()[j] == name);
                } else if self@.contains_key(name) {
                    let j = self.names().index_of(name);
                    assert(0 <= j < self.names().len() && self.names()[j] == name);
                    assert(self.counts()[j] <= usize::MAX);
                }
            }
        }
        true
    }

    /// Adds every count of `other` to the count of the same name in this
    /// table.
    pub fn merge(&mut self, other: &CountTable)
        requires
            tables_fit(old(self)@, other@),
        ensures
            final(self)@ == merge_tables(old(self)@, other@),
    {
        let n = other.len();
        let mut i: usize = 0;
        assert(self@ =~= merge_tables(
            old(self)@,
            table_of(other.names().take(0), other.counts().take(0)),
        ));
        while i < n
            invariant
                i <= n,
                n == other.names().len(),
                n == other.counts().len(),
                other.names().no_duplicates(),
                tables_fit(old(self)@, other@),
                self@ == merge_tables(
                    old(self)@,
                    table_of(other.names().take(i as int), other.counts().take(i as int)),
                ),
            decreases n - i,
        {
            let name = other.name_at(i);
            let count = other.count_at(i);
            let ghost seen_names = other.names().take(i as int);
            let ghost seen_counts = other.counts().take(i as int);
            let ghost seen = table_of(seen_names, seen_counts);
            proof {
                lemma_index_of(other.names(), i as int);
                if seen_names.contains(name@) {
                    let j = seen_names.index_of(name@);
                    assert(0 <= j < i && seen_names[j] == name@);
                    assert(other.names()[j] == name@);
                }
                assert(seen_names.no_duplicates());
                lemma_table_push(seen_names, seen_counts, name@, count as nat);
                assert(seen_names.push(name@) =~= other.names().take(i + 1));
                assert(seen_counts.push(count as nat) =~= other.counts().take(i + 1));
                assert(count_of(old(self)@, name@) + count_of(other@, name@) <= usize::MAX);
            }
            self.add(name, count);
            proof {
                assert(self@ =~= merge_tables(old(self)@, seen.insert(name@, count as nat)));
            }
            i += 1;
        }
        proof {
            assert(other.names().take(n as int) =~= other.names());
            assert(other.counts().take(n as int) =~= other.counts());
        }
    }
}

} // verus!
