//! Per-user byte counts: a table keyed by user name, viewed as a map.
use vstd::prelude::*;

verus! {

/// The count that a table view holds for `k`, 0 where it holds none.
pub open spec fn amount(m: Map<Seq<char>, u64>, k: Seq<char>) -> int {
    if m.contains_key(k) {
        m[k] as int
    } else {
        0
    }
}

/// Every user's count in `a` plus that in `b`: what merging `b` into `a` gives.
pub open spec fn sum_tables(a: Map<Seq<char>, u64>, b: Map<Seq<char>, u64>) -> Map<Seq<char>, u64> {
    Map::new(|k: Seq<char>| a.contains_key(k) || b.contains_key(k), |k: Seq<char>| (amount(a, k) + amount(b, k)) as u64)
}

/// Merging `b` into `a` overflows no count.
pub open spec fn sums_fit(a: Map<Seq<char>, u64>, b: Map<Seq<char>, u64>) -> bool {
    forall|k: Seq<char>| b.contains_key(k) ==> #[trigger] amount(a, k) + amount(b, k) <= u64::MAX
}

/// Summing two tables, and whether the sum fits, do not depend on their order.
pub proof fn lemma_sum_tables_commutes(a: Map<Seq<char>, u64>, b: Map<Seq<char>, u64>)
    ensures
        sum_tables(a, b) == sum_tables(b, a),
        sums_fit(a, b) == sums_fit(b, a),
{
    assert(sum_tables(a, b) =~= sum_tables(b, a));
}

/// Where it fits, a merged table holds each user's two counts added, and
/// exactly the users of either table.
pub proof fn lemma_sum_adds_counts(a: Map<Seq<char>, u64>, b: Map<Seq<char>, u64>, k: Seq<char>)
    requires
        sums_fit(a, b),
    ensures
        amount(sum_tables(a, b), k) == amount(a, k) + amount(b, k),
        sum_tables(a, b).contains_key(k) <==> a.contains_key(k) || b.contains_key(k),
{
    if b.contains_key(k) {
        assert(amount(a, k) + amount(b, k) <= u64::MAX);
    }
}

/// The index of the entry for `k`.
spec fn index_of(entries: Seq<(String, u64)>, k: Seq<char>) -> int {
    choose|i: int| 0 <= i < entries.len() && entries[i].0@ == k
}

spec fn has_key(entries: Seq<(String, u64)>, k: Seq<char>) -> bool {
    exists|i: int| 0 <= i < entries.len() && entries[i].0@ == k
}

spec fn distinct_keys(entries: Seq<(String, u64)>) -> bool {
    forall|i: int, j: int|
        0 <= i < entries.len() && 0 <= j < entries.len() && i != j ==> #[trigger] entries[i].0@
            != #[trigger] entries[j].0@
}

spec fn entries_map(entries: Seq<(String, u64)>) -> Map<Seq<char>, u64> {
    Map::new(|k: Seq<char>| has_key(entries, k), |k: Seq<char>| entries[index_of(entries, k)].1)
}

/// Byte counts per user; each user appears at most once.
#[derive(Debug)]
pub struct TrafficTable {
    entries: Vec<(String, u64)>,
}

impl View for TrafficTable {
    type V = Map<Seq<char>, u64>;

    closed spec fn view(&self) -> Map<Seq<char>, u64> {
        entries_map(self.entries@)
    }
}

proof fn lemma_lookup(entries: Seq<(String, u64)>, i: int)
    requires
        distinct_keys(entries),
        0 <= i < entries.len(),
    ensures
        entries_map(entries).contains_key(entries[i].0@),
        entries_map(entries)[entries[i].0@] == entries[i].1,
{
    let k = entries[i].0@;
    assert(has_key(entries, k));
    let j = index_of(entries, k);
    assert(entries[j].0@ == k);
}

proof fn lemma_push(entries: Seq<(String, u64)>, name: String, bytes: u64)
    requires
        distinct_keys(entries),
        !has_key(entries, name@),
    ensures
        distinct_keys(entries.push((name, bytes))),
        entries_map(entries.push((name, bytes))) =~= entries_map(entries).insert(name@, bytes),
{
    let e2 = entries.push((name, bytes));
    assert forall|i: int, j: int|
        0 <= i < e2.len() && 0 <= j < e2.len() && i != j implies #[trigger] e2[i].0@
        != #[trigger] e2[j].0@ by {
        if i == entries.len() as int {
            assert(e2[j] == entries[j]);
        } else if j == entries.len() as int {
            assert(e2[i] == entries[i]);
        } else {
            assert(e2[i] == entries[i]);
            assert(e2[j] == entries[j]);
        }
    }
    let m1 = entries_map(e2);
    let m2 = entries_map(entries).insert(name@, bytes);
    assert forall|k: Seq<char>| m1.contains_key(k) <==> m2.contains_key(k) by {
        if has_key(entries, k) {
            let i = choose|i: int| 0 <= i < entries.len() && entries[i].0@ == k;
            assert(e2[i] == entries[i]);
        }
        if has_key(e2, k) && k != name@ {
            let i = choose|i: int| 0 <= i < e2.len() && e2[i].0@ == k;
            assert(e2[i] == entries[i]);
        }
        if k == name@ {
            assert(e2[entries.len() as int].0@ == k);
        }
    }
    assert forall|k: Seq<char>| m1.contains_key(k) implies m1[k] == m2[k] by {
        if k == name@ {
            lemma_lookup(e2, entries.len() as int);
        } else {
            let i = choose|i: int| 0 <= i < e2.len() && e2[i].0@ == k;
            assert(e2[i] == entries[i]);
            lemma_lookup(e2, i);
            lemma_lookup(entries, i);
        }
    }
}

proof fn lemma_update(entries: Seq<(String, u64)>, i: int, bytes: u64)
    requires
        distinct_keys(entries),
        0 <= i < entries.len(),
    ensures
        distinct_keys(entries.update(i, (entries[i].0, bytes))),
        entries_map(entries.update(i, (entries[i].0, bytes))) =~= entries_map(entries).insert(
            entries[i].0@,
            bytes,
        ),
{
    let e2 = entries.update(i, (entries[i].0, bytes));
    let name = entries[i].0;
    assert forall|a: int, b: int|
        0 <= a < e2.len() && 0 <= b < e2.len() && a != b implies #[trigger] e2[a].0@
        != #[trigger] e2[b].0@ by {
        assert(e2[a].0 == entries[a].0);
        assert(e2[b].0 == entries[b].0);
    }
    let m1 = entries_map(e2);
    let m2 = entries_map(entries).insert(name@, bytes);
    assert forall|k: Seq<char>| m1.contains_key(k) <==> m2.contains_key(k) by {
        if has_key(entries, k) {
            let j = choose|j: int| 0 <= j < entries.len() && entries[j].0@ == k;
            assert(e2[j].0 == entries[j].0);
        }
        if has_key(e2, k) {
            let j = choose|j: int| 0 <= j < e2.len() && e2[j].0@ == k;
            assert(e2[j].0 == entries[j].0);
        }
        if k == name@ {
            assert(e2[i].0@ == k);
        }
    }
    assert forall|k: Seq<char>| m1.contains_key(k) implies m1[k] == m2[k] by {
        let j = choose|j: int| 0 <= j < e2.len() && e2[j].0@ == k;
        assert(e2[j].0 == entries[j].0);
        lemma_lookup(e2, j);
        if j != i {
            lemma_lookup(entries, j);
        }
    }
}

impl TrafficTable {
    #[verifier::type_invariant]
    spec fn keys_distinct(self) -> bool {
        distinct_keys(self.entries@)
    }

    /// An empty table.
    pub fn new() -> (t: TrafficTable)
        ensures
            t@ == Map::<Seq<char>, u64>::empty(),
    {
        let t = TrafficTable { entries: Vec::new() };
        assert(t@ =~= Map::<Seq<char>, u64>::empty());
        t
    }

    /// The number of users in the table.
    pub fn len(&self) -> (n: usize)
        ensures
            n == self@.dom().len(),
    {
        proof {
            use_type_invariant(self);
            self.lemma_dom_len();
        }
        self.entries.len()
    }

    proof fn lemma_dom_len(&self)
        requires
            distinct_keys(self.entries@),
        ensures
            self@.dom().finite(),
            self@.dom().len() == self.entries@.len(),
    {
        let e = self.entries@;
        let keys = e.map_values(|p: (String, u64)| p.0@);
        assert forall|i: int, j: int| 0 <= i < keys.len() && 0 <= j < keys.len() && i != j implies keys[i] != keys[j] by {
        }
        assert(keys.no_duplicates());
        keys.unique_seq_to_set();
        assert forall|k: Seq<char>| self@.dom().contains(k) <==> keys.to_set().contains(k) by {
            if self@.dom().contains(k) {
                let i = choose|i: int| 0 <= i < e.len() && e[i].0@ == k;
                assert(keys[i] == k);
            }
            if keys.to_set().contains(k) {
                let i = choose|i: int| 0 <= i < keys.len() && keys[i] == k;
                assert(e[i].0@ == k);
            }
        }
        assert(self@.dom() =~= keys.to_set());
    }

    /// Whether the table holds no user.
    pub fn is_empty(&self) -> (b: bool)
        ensures
            b <==> self@ == Map::<Seq<char>, u64>::empty(),
    {
        proof {
            use_type_invariant(self);
        }
        if self.entries.len() == 0 {
            assert(self@ =~= Map::<Seq<char>, u64>::empty());
            true
        } else {
            proof {
                lemma_lookup(self.entries@, 0);
                assert(!(self@ =~= Map::<Seq<char>, u64>::empty()));
            }
            false
        }
    }

    fn find(&self, user: &String) -> (r: Option<usize>)
        ensures
            match r {
                Some(i) => i < self.entries@.len() && self.entries@[i as int].0@ == user@,
                None => !has_key(self.entries@, user@),
            },
    {
        let mut i: usize = 0;
        while i < self.entries.len()
            invariant
                i <= self.entries@.len(),
                forall|j: int| 0 <= j < i ==> self.entries@[j].0@ != user@,
            decreases self.entries.len() - i,
        {
            if self.entries[i].0 == *user {
                return Some(i);
            }
            i = i + 1;
        }
        None
    }

    /// The count recorded for `user`, if any.
    pub fn get(&self, user: &String) -> (r: Option<u64>)
        ensures
            r == (if self@.contains_key(user@) {
                Some(self@[user@])
            } else {
                None::<u64>
            }),
    {
        proof {
            use_type_invariant(self);
        }
        match self.find(user) {
            Some(i) => {
                proof {
                    lemma_lookup(self.entries@, i as int);
                }
                Some(self.entries[i].1)
            },
            None => None,
        }
    }

    /// Records `bytes` for `user`, in place of what it held (`HashMap::insert`).
    pub fn set(&mut self, user: String, bytes: u64)
        ensures
            final(self)@ == old(self)@.insert(user@, bytes),
    {
        proof {
            use_type_invariant(&*self);
        }
        match self.find(&user) {
            Some(i) => {
                let ghost e = self.entries@;
                proof {
                    lemma_update(e, i as int, bytes);
                }
                let name = self.entries[i].0.clone();
                let mut entries: Vec<(String, u64)> = Vec::new();
                std::mem::swap(&mut entries, &mut self.entries);
                entries.set(i, (name, bytes));
                assert(entries@ =~= e.update(i as int, (e[i as int].0, bytes)));
                self.entries = entries;
            },
            None => {
                let ghost e = self.entries@;
                proof {
                    lemma_push(e, user, bytes);
                }
                let mut entries: Vec<(String, u64)> = Vec::new();
                std::mem::swap(&mut entries, &mut self.entries);
                entries.push((user, bytes));
                self.entries = entries;
            },
        }
    }

    /// Adds `bytes` to the count of `user`, which starts at 0
    /// (`*map.entry(user).or_insert(0) += bytes`).
    pub fn add(&mut self, user: String, bytes: u64)
        requires
            amount(old(self)@, user@) + bytes <= u64::MAX,
        ensures
            final(self)@ == old(self)@.insert(user@, (amount(old(self)@, user@) + bytes) as u64),
    {
        let cur = match self.get(&user) {
            Some(v) => v,
            None => 0,
        };
        self.set(user, cur + bytes);
    }

    /// Whether `add(user, bytes)` overflows no count.
    pub fn can_add(&self, user: &String, bytes: u64) -> (b: bool)
        ensures
            b == (amount(self@, user@) + bytes <= u64::MAX),
    {
        let cur = match self.get(user) {
            Some(v) => v,
            None => 0,
        };
        cur <= u64::MAX - bytes
    }

    /// The entries of the table, each user once, in no particular order.
    pub fn to_pairs(&self) -> (out: Vec<(String, u64)>)
        ensures
            self@.dom().finite(),
            out@.len() == self@.dom().len(),
            forall|i: int| 0 <= i < out@.len() ==> #[trigger] self@.contains_key(out@[i].0@)
                && self@[out@[i].0@] == out@[i].1,
            forall|i: int, j: int|
                0 <= i < out@.len() && 0 <= j < out@.len() && i != j ==> #[trigger] out@[i].0@
                    != #[trigger] out@[j].0@,
    {
        proof {
            use_type_invariant(self);
            self.lemma_dom_len();
        }
        let mut out: Vec<(String, u64)> = Vec::new();
        let mut i: usize = 0;
        while i < self.entries.len()
            invariant
                distinct_keys(self.entries@),
                i <= self.entries@.len(),
                out@.len() == i,
                forall|j: int| 0 <= j < i ==> #[trigger] out@[j].0@ == self.entries@[j].0@ && out@[j].1
                    == self.entries@[j].1,
            decreases self.entries.len() - i,
        {
            let name = self.entries[i].0.clone();
            out.push((name, self.entries[i].1));
            i = i + 1;
        }
        proof {
            assert forall|j: int| 0 <= j < out@.len() implies #[trigger] self@.contains_key(out@[j].0@)
                && self@[out@[j].0@] == out@[j].1 by {
                lemma_lookup(self.entries@, j);
            }
            assert forall|a: int, b: int|
                0 <= a < out@.len() && 0 <= b < out@.len() && a != b implies #[trigger] out@[a].0@
                != #[trigger] out@[b].0@ by {
                assert(out@[a].0@ == self.entries@[a].0@);
                assert(out@[b].0@ == self.entries@[b].0@);
            }
        }
        out
    }

    /// Whether merging `other` into this table overflows no count.
    pub fn can_merge(&self, other: &TrafficTable) -> (b: bool)
        ensures
            b == sums_fit(self@, other@),
    {
        proof {
            use_type_invariant(other);
        }
        let mut i: usize = 0;
        while i < other.entries.len()
            invariant
                distinct_keys(other.entries@),
                i <= other.entries@.len(),
                forall|j: int| 0 <= j < i ==> #[trigger] amount(self@, other.entries@[j].0@) + other.entries@[j].1 <= u64::MAX,
            decreases other.entries.len() - i,
        {
            if !self.can_add(&other.entries[i].0, other.entries[i].1) {
                proof {
                    lemma_lookup(other.entries@, i as int);
                    let k = other.entries@[i as int].0@;
                    assert(amount(self@, k) + amount(other@, k) > u64::MAX);
                }
                return false;
            }
            i = i + 1;
        }
        proof {
            assert forall|k: Seq<char>| other@.contains_key(k) implies #[trigger] amount(self@, k) + amount(other@, k) <= u64::MAX by {
                let j = choose|j: int| 0 <= j < other.entries@.len() && other.entries@[j].0@ == k;
                lemma_lookup(other.entries@, j);
            }
        }
        true
    }

    /// Adds every count of `other` to this table, user by user.
    pub fn merge(&mut self, other: &TrafficTable)
        requires
            sums_fit(old(self)@, other@),
        ensures
            final(self)@ == sum_tables(old(self)@, other@),
    {
        proof {
            use_type_invariant(other);
        }
        let ghost start = self@;
        let mut i: usize = 0;
        while i < other.entries.len()
            invariant
                distinct_keys(other.entries@),
                sums_fit(start, other@),
                i <= other.entries@.len(),
                forall|k: Seq<char>| #[trigger] self@.contains_key(k) <==> (start.contains_key(k) || exists|j: int| 0 <= j < i && other.entries@[j].0@ == k),
                forall|k: Seq<char>| self@.contains_key(k) ==> #[trigger] amount(self@, k) == amount(start, k) + (if exists|j: int| 0 <= j < i && other.entries@[j].0@ == k { amount(other@, k) } else { 0 }),
            decreases other.entries.len() - i,
        {
            let name = other.entries[i].0.clone();
            let bytes = other.entries[i].1;
            let ghost k = name@;
            proof {
                lemma_lookup(other.entries@, i as int);
                assert(!exists|j: int| 0 <= j < i && other.entries@[j].0@ == k);
                assert(amount(self@, k) == amount(start, k));
                assert(amount(start, k) + amount(other@, k) <= u64::MAX);
            }
            let ghost before = self@;
            self.add(name, bytes);
            proof {
                assert forall|k2: Seq<char>| #[trigger] self@.contains_key(k2) <==> (start.contains_key(k2) || exists|j: int| 0 <= j < i + 1 && other.entries@[j].0@ == k2) by {
                    if k2 == k {
                        assert(other.entries@[i as int].0@ == k2);
                    } else if exists|j: int| 0 <= j < i + 1 && other.entries@[j].0@ == k2 {
                        let j = choose|j: int| 0 <= j < i + 1 && other.entries@[j].0@ == k2;
                        assert(j != i);
                    }
                }
                assert forall|k2: Seq<char>| self@.contains_key(k2) implies #[trigger] amount(self@, k2) == amount(start, k2) + (if exists|j: int| 0 <= j < i + 1 && other.entries@[j].0@ == k2 { amount(other@, k2) } else { 0 }) by {
                    if k2 == k {
                        assert(other.entries@[i as int].0@ == k2);
                    } else {
                        assert(amount(self@, k2) == amount(before, k2));
                        if exists|j: int| 0 <= j < i + 1 && other.entries@[j].0@ == k2 {
                            let j = choose|j: int| 0 <= j < i + 1 && other.entries@[j].0@ == k2;
                            assert(j != i);
                            assert(exists|j: int| 0 <= j < i && other.entries@[j].0@ == k2);
                        }
                    }
                }
            }
            i = i + 1;
        }
        proof {
            let target = sum_tables(start, other@);
            assert forall|k: Seq<char>| #[trigger] self@.contains_key(k) <==> target.contains_key(k) by {
                if other@.contains_key(k) {
                    let j = choose|j: int| 0 <= j < other.entries@.len() && other.entries@[j].0@ == k;
                }
            }
            assert forall|k: Seq<char>| self@.contains_key(k) implies self@[k] == target[k] by {
                assert(amount(self@, k) == self@[k] as int);
                if exists|j: int| 0 <= j < i && other.entries@[j].0@ == k {
                    let j = choose|j: int| 0 <= j < i && other.entries@[j].0@ == k;
                    lemma_lookup(other.entries@, j);
                } else {
                    assert(!other@.contains_key(k));
                }
            }
            assert(self@ =~= target);
        }
    }
}

} // verus!
