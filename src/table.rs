use vstd::prelude::*;

use crate::identity::Identity;

verus! {

/// One row of a balance table.
#[derive(Clone, Copy, Debug)]
pub struct Entry {
    pub id: Identity,
    pub amount: u64,
}

/// Sum of the amounts of a sequence of rows.
pub open spec fn sum_amounts(s: Seq<Entry>) -> int
    decreases s.len(),
{
    if s.len() == 0 {
        0
    } else {
        sum_amounts(s.drop_last()) + s.last().amount
    }
}

/// Replacing one row changes the sum by the difference of the two amounts.
proof fn lemma_sum_update(s: Seq<Entry>, i: int, e: Entry)
    requires
        0 <= i < s.len(),
    ensures
        sum_amounts(s.update(i, e)) == sum_amounts(s) - s[i].amount + e.amount,
    decreases s.len(),
{
    if i == s.len() - 1 {
        assert(s.update(i, e).drop_last() =~= s.drop_last());
    } else {
        assert(s.update(i, e).drop_last() =~= s.drop_last().update(i, e));
        lemma_sum_update(s.drop_last(), i, e);
    }
}

/// Removing one row lowers the sum by its amount.
proof fn lemma_sum_remove(s: Seq<Entry>, i: int)
    requires
        0 <= i < s.len(),
    ensures
        sum_amounts(s.remove(i)) == sum_amounts(s) - s[i].amount,
    decreases s.len(),
{
    if i == s.len() - 1 {
        assert(s.remove(i) =~= s.drop_last());
    } else {
        assert(s.remove(i).drop_last() =~= s.drop_last().remove(i));
        lemma_sum_remove(s.drop_last(), i);
    }
}

/// The sum of a sequence of rows is at least the amount of any one of them.
proof fn lemma_sum_covers_row(s: Seq<Entry>, i: int)
    requires
        0 <= i < s.len(),
    ensures
        s[i].amount <= sum_amounts(s),
        0 <= sum_amounts(s.drop_last()),
    decreases s.len(),
{
    if s.len() == 1 {
        assert(sum_amounts(s.drop_last()) == 0);
    } else if i == s.len() - 1 {
        lemma_sum_covers_row(s.drop_last(), 0);
    } else {
        lemma_sum_covers_row(s.drop_last(), i);
        assert(s.drop_last()[i] == s[i]);
    }
}

/// Adds the value that `m` gives to a key onto an accumulator.
pub open spec fn add_value(m: Map<Identity, u64>) -> spec_fn(int, Identity) -> int {
    |acc: int, k: Identity| acc + m[k]
}

/// The sum of the values of a finite map.
pub open spec fn map_total(m: Map<Identity, u64>) -> int {
    m.dom().fold(0int, add_value(m))
}

/// The identities that occur in a sequence of rows.
pub open spec fn ids_of(s: Seq<Entry>) -> Set<Identity>
    decreases s.len(),
{
    if s.len() == 0 {
        Set::empty()
    } else {
        ids_of(s.drop_last()).insert(s.last().id)
    }
}

proof fn lemma_add_value_commutes(m: Map<Identity, u64>)
    ensures
        vstd::set::fold::is_fun_commutative(add_value(m)),
{
    assert forall|a1: Identity, a2: Identity, b: int|
        #[trigger] add_value(m)(add_value(m)(b, a1), a2) == add_value(m)(add_value(m)(b, a2), a1) by {}
}

/// Over rows with unique identities that `m` agrees with, the sum of the rows is the
/// fold of `m` over their identities.
proof fn lemma_sum_is_fold(s: Seq<Entry>, m: Map<Identity, u64>)
    requires
        forall|i: int, j: int| 0 <= i < j < s.len() ==> s[i].id != s[j].id,
        forall|i: int| 0 <= i < s.len() ==> m[#[trigger] s[i].id] == s[i].amount,
    ensures
        ids_of(s).finite(),
        forall|id: Identity| ids_of(s).contains(id) <==> exists|i: int| 0 <= i < s.len() && s[i].id == id,
        sum_amounts(s) == ids_of(s).fold(0int, add_value(m)),
    decreases s.len(),
{
    if s.len() == 0 {
        vstd::set::fold::lemma_fold_empty(0int, add_value(m));
    } else {
        let t = s.drop_last();
        assert forall|i: int| 0 <= i < t.len() implies m[#[trigger] t[i].id] == t[i].amount by {
            assert(t[i] == s[i]);
        }
        lemma_sum_is_fold(t, m);
        assert forall|id: Identity| ids_of(s).contains(id) <==> exists|i: int| 0 <= i < s.len() && s[i].id == id by {
            if ids_of(t).contains(id) {
                let i = choose|i: int| 0 <= i < t.len() && t[i].id == id;
                assert(s[i].id == id);
            }
            if exists|i: int| 0 <= i < s.len() && s[i].id == id {
                let i = choose|i: int| 0 <= i < s.len() && s[i].id == id;
                if i < s.len() - 1 {
                    assert(t[i].id == id);
                }
            }
        }
        if ids_of(t).contains(s.last().id) {
            let i = choose|i: int| 0 <= i < t.len() && t[i].id == s.last().id;
            assert(s[i].id == s[s.len() - 1].id);
        }
        lemma_add_value_commutes(m);
        vstd::set::fold::lemma_fold_insert(ids_of(t), 0int, add_value(m), s.last().id);
        assert(m[s[s.len() - 1].id] == s[s.len() - 1].amount);
    }
}

/// A table from identities to amounts, with each identity at most once.
pub struct BalanceTable {
    entries: Vec<Entry>,
    model: Ghost<Map<Identity, u64>>,
}

impl View for BalanceTable {
    type V = Map<Identity, u64>;

    closed spec fn view(&self) -> Map<Identity, u64> {
        self.model@
    }
}

impl BalanceTable {
    /// The rows are unique by identity, and the model holds exactly them.
    pub closed spec fn wf(&self) -> bool {
        &&& forall|i: int, j: int|
            0 <= i < j < self.entries@.len() ==> self.entries@[i].id != self.entries@[j].id
        &&& forall|i: int|
            0 <= i < self.entries@.len() ==> {
                &&& #[trigger] self.model@.contains_key(self.entries@[i].id)
                &&& self.model@[self.entries@[i].id] == self.entries@[i].amount
            }
        &&& forall|id: Identity|
            #[trigger] self.model@.contains_key(id) ==> exists|i: int|
                0 <= i < self.entries@.len() && self.entries@[i].id == id
    }

    /// The sum of all amounts in the table.
    pub closed spec fn total(&self) -> int {
        sum_amounts(self.entries@)
    }

    /// No single amount exceeds the total.
    pub proof fn lemma_row_within_total(&self, id: Identity)
        requires
            self.wf(),
            self@.contains_key(id),
        ensures
            self@[id] <= self.total(),
    {
        let i = choose|i: int| 0 <= i < self.entries@.len() && self.entries@[i].id == id;
        lemma_sum_covers_row(self.entries@, i);
    }

    /// The total is the sum of the values of the table's map.
    pub proof fn lemma_total_is_map_total(&self)
        requires
            self.wf(),
        ensures
            self.total() == map_total(self@),
    {
        let s = self.entries@;
        assert forall|i: int| 0 <= i < s.len() implies self.model@[#[trigger] s[i].id] == s[i].amount by {
            assert(self.model@.contains_key(s[i].id));
        }
        lemma_sum_is_fold(s, self.model@);
        assert(ids_of(s) =~= self.model@.dom()) by {
            assert forall|id: Identity| ids_of(s).contains(id) implies self.model@.dom().contains(id) by {
                let i = choose|i: int| 0 <= i < s.len() && s[i].id == id;
                assert(self.model@.contains_key(s[i].id));
            }
        }
    }

    /// An empty table.
    pub fn new() -> (r: BalanceTable)
        ensures
            r.wf(),
            r@ == Map::<Identity, u64>::empty(),
            r.total() == 0,
    {
        BalanceTable { entries: Vec::new(), model: Ghost(Map::empty()) }
    }

    /// The row index holding `id`, if any.
    fn find(&self, id: &Identity) -> (r: Option<usize>)
        requires
            self.wf(),
        ensures
            match r {
                Some(i) => i < self.entries@.len() && self.entries@[i as int].id == *id,
                None => !self@.contains_key(*id),
            },
    {
        let mut i: usize = 0;
        while i < self.entries.len()
            invariant
                i <= self.entries@.len(),
                forall|j: int| 0 <= j < i ==> self.entries@[j].id != *id,
            decreases self.entries@.len() - i,
        {
            if self.entries[i].id.same_as(id) {
                return Some(i);
            }
            i = i + 1;
        }
        None
    }

    /// The amount recorded for `id`, if it has a row.
    pub fn get(&self, id: &Identity) -> (r: Option<u64>)
        requires
            self.wf(),
        ensures
            r == (if self@.contains_key(*id) { Some(self@[*id]) } else { None::<u64> }),
    {
        match self.find(id) {
            Some(i) => {
                assert(self.model@.contains_key(self.entries@[i as int].id));
                Some(self.entries[i].amount)
            },
            None => None,
        }
    }

    /// Adds a row for an identity that has none.
    pub fn insert_new(&mut self, id: Identity, amount: u64)
        requires
            old(self).wf(),
            !old(self)@.contains_key(id),
        ensures
            final(self).wf(),
            final(self)@ == old(self)@.insert(id, amount),
            final(self).total() == old(self).total() + amount,
    {
        let ghost old_entries = self.entries@;
        self.entries.push(Entry { id, amount });
        self.model = Ghost(self.model@.insert(id, amount));
        proof {
            assert(self.entries@.drop_last() =~= old_entries);
            assert forall|i: int, j: int|
                0 <= i < j < self.entries@.len() implies self.entries@[i].id != self.entries@[j].id by {
                if j == self.entries@.len() - 1 {
                    assert(old_entries[i].id == self.entries@[i].id);
                    if old_entries[i].id == id {
                        assert(self.model@.contains_key(id));
                    }
                }
            }
            assert forall|k: Identity| #[trigger] self.model@.contains_key(k) implies exists|i: int|
                0 <= i < self.entries@.len() && self.entries@[i].id == k by {
                if k == id {
                    assert(self.entries@[self.entries@.len() - 1].id == k);
                } else {
                    assert(old(self).model@.contains_key(k));
                    let i = choose|i: int| 0 <= i < old_entries.len() && old_entries[i].id == k;
                    assert(self.entries@[i].id == k);
                }
            }
        }
    }

    /// Replaces the amount of an identity that has a row.
    pub fn set(&mut self, id: &Identity, amount: u64)
        requires
            old(self).wf(),
            old(self)@.contains_key(*id),
        ensures
            final(self).wf(),
            final(self)@ == old(self)@.insert(*id, amount),
            final(self).total() == old(self).total() - old(self)@[*id] + amount,
    {
        let i = self.find(id).unwrap();
        let ghost old_entries = self.entries@;
        let e = Entry { id: *id, amount };
        self.entries[i] = e;
        self.model = Ghost(self.model@.insert(*id, amount));
        proof {
            lemma_sum_update(old_entries, i as int, e);
            assert(old(self).model@.contains_key(old_entries[i as int].id));
            assert forall|k: Identity| #[trigger] self.model@.contains_key(k) implies exists|j: int|
                0 <= j < self.entries@.len() && self.entries@[j].id == k by {
                assert(old(self).model@.contains_key(k));
                let j = choose|j: int| 0 <= j < old_entries.len() && old_entries[j].id == k;
                assert(self.entries@[j].id == k);
            }
        }
    }

    /// Deletes the row of an identity that has one.
    pub fn remove(&mut self, id: &Identity)
        requires
            old(self).wf(),
            old(self)@.contains_key(*id),
        ensures
            final(self).wf(),
            final(self)@ == old(self)@.remove(*id),
            final(self).total() == old(self).total() - old(self)@[*id],
    {
        let i = self.find(id).unwrap();
        let ghost old_entries = self.entries@;
        self.entries.remove(i);
        self.model = Ghost(self.model@.remove(*id));
        proof {
            lemma_sum_remove(old_entries, i as int);
            assert(old(self).model@.contains_key(old_entries[i as int].id));
            assert forall|a: int, b: int|
                0 <= a < b < self.entries@.len() implies self.entries@[a].id != self.entries@[b].id by {
                let oa = if a < i { a } else { a + 1 };
                let ob = if b < i { b } else { b + 1 };
                assert(self.entries@[a] == old_entries[oa]);
                assert(self.entries@[b] == old_entries[ob]);
            }
            assert forall|a: int| 0 <= a < self.entries@.len() implies {
                &&& #[trigger] self.model@.contains_key(self.entries@[a].id)
                &&& self.model@[self.entries@[a].id] == self.entries@[a].amount
            } by {
                let oa = if a < i { a } else { a + 1 };
                assert(self.entries@[a] == old_entries[oa]);
                assert(old(self).model@.contains_key(old_entries[oa].id));
            }
            assert forall|k: Identity| #[trigger] self.model@.contains_key(k) implies exists|j: int|
                0 <= j < self.entries@.len() && self.entries@[j].id == k by {
                assert(old(self).model@.contains_key(k));
                let j = choose|j: int| 0 <= j < old_entries.len() && old_entries[j].id == k;
                if j < i {
                    assert(self.entries@[j].id == k);
                } else {
                    assert(self.entries@[j - 1].id == k);
                }
            }
        }
    }
}

} // verus!
