//! A small table of values under text keys, kept in the order of the keys.

use crate::order::{
    comes_before, text_before, text_before_irreflexive, text_before_total, text_before_transitive,
};
use crate::text::same;
use vstd::prelude::*;

verus! {

/// Values under text keys.
#[derive(Debug)]
pub struct Table<V> {
    rows: Vec<(String, V)>,
}

/// Whether keys stand in order, none of them twice.
pub open spec fn keys_ascend<V>(rows: Seq<(String, V)>) -> bool {
    forall|i: int, j: int|
        0 <= i < j < rows.len() ==> text_before(#[trigger] rows[i].0@, #[trigger] rows[j].0@)
}

/// The values by key.
pub open spec fn map_of<V>(rows: Seq<(String, V)>) -> Map<Seq<char>, V>
    decreases rows.len(),
{
    if rows.len() == 0 {
        Map::empty()
    } else {
        map_of(rows.drop_last()).insert(rows.last().0@, rows.last().1)
    }
}

/// In a table's rows, a key is there exactly where a row has it, and means that row's value.
pub proof fn rows_are_the_map<V>(rows: Seq<(String, V)>)
    requires
        keys_ascend(rows),
    ensures
        forall|key: Seq<char>| #[trigger]
            map_of(rows).contains_key(key) <==> exists|i: int|
                0 <= i < rows.len() && (#[trigger] rows[i]).0@ == key,
        forall|i: int|
            0 <= i < rows.len() ==> map_of(rows).contains_key((#[trigger] rows[i]).0@)
                && map_of(rows)[rows[i].0@] == rows[i].1,
        map_of(rows).dom().finite(),
        map_of(rows).dom().len() == rows.len(),
    decreases rows.len(),
{
    if rows.len() > 0 {
        let front = rows.drop_last();
        assert forall|i: int, j: int| 0 <= i < j < front.len() implies text_before(
            #[trigger] front[i].0@,
            #[trigger] front[j].0@,
        ) by {
            assert(rows[i] == front[i] && rows[j] == front[j]);
        }
        rows_are_the_map(front);
        let last = rows.last();
        assert(!map_of(front).contains_key(last.0@)) by {
            if map_of(front).contains_key(last.0@) {
                let i = choose|i: int| 0 <= i < front.len() && (#[trigger] front[i]).0@ == last.0@;
                assert(text_before(rows[i].0@, rows[rows.len() - 1].0@));
                text_before_irreflexive(last.0@);
            }
        }
        assert forall|key: Seq<char>| #[trigger]
            map_of(rows).contains_key(key) <==> exists|i: int|
                0 <= i < rows.len() && (#[trigger] rows[i]).0@ == key by {
            if map_of(rows).contains_key(key) {
                if key == last.0@ {
                    assert(rows[rows.len() - 1].0@ == key);
                } else {
                    let i = choose|i: int| 0 <= i < front.len() && (#[trigger] front[i]).0@ == key;
                    assert(rows[i].0@ == key);
                }
            }
            if exists|i: int| 0 <= i < rows.len() && (#[trigger] rows[i]).0@ == key {
                let i = choose|i: int| 0 <= i < rows.len() && (#[trigger] rows[i]).0@ == key;
                if i < front.len() {
                    assert(front[i].0@ == key);
                }
            }
        }
        assert forall|i: int| 0 <= i < rows.len() implies map_of(rows).contains_key(
            (#[trigger] rows[i]).0@,
        ) && map_of(rows)[rows[i].0@] == rows[i].1 by {
            if i < front.len() {
                assert(front[i] == rows[i]);
            }
        }
        assert(map_of(rows).dom() =~= map_of(front).dom().insert(last.0@));
    } else {
        assert(map_of(rows).dom() =~= Set::<Seq<char>>::empty());
    }
}

impl<V> View for Table<V> {
    type V = Map<Seq<char>, V>;

    open spec fn view(&self) -> Map<Seq<char>, V> {
        map_of(self.entries())
    }
}

impl<V> Table<V> {
    /// The rows, in the order of their keys.
    pub closed spec fn entries(&self) -> Seq<(String, V)> {
        self.rows@
    }

    #[verifier::type_invariant]
    spec fn sorted(&self) -> bool {
        keys_ascend(self.rows@)
    }

    /// An empty table.
    pub fn new() -> (r: Table<V>)
        ensures
            r@ == Map::<Seq<char>, V>::empty(),
            r.entries().len() == 0,
    {
        let r = Table { rows: Vec::new() };
        assert(map_of(r.rows@) =~= Map::<Seq<char>, V>::empty());
        r
    }

    /// How many keys come before `key`.
    fn place(&self, key: &str) -> (r: usize)
        ensures
            r <= self.rows@.len(),
            forall|i: int| 0 <= i < r ==> text_before((#[trigger] self.rows@[i]).0@, key@),
            r < self.rows@.len() ==> !text_before(self.rows@[r as int].0@, key@),
    {
        let mut i: usize = 0;
        while i < self.rows.len() && comes_before(self.rows[i].0.as_str(), key)
            invariant
                i <= self.rows@.len(),
                forall|k: int| 0 <= k < i ==> text_before((#[trigger] self.rows@[k]).0@, key@),
            decreases self.rows@.len() - i,
        {
            i += 1;
        }
        i
    }

    /// Where `key` stands, if it is there.
    fn find(&self, key: &str) -> (r: Option<usize>)
        ensures
            match r {
                Some(i) => i < self.rows@.len() && self.rows@[i as int].0@ == key@,
                None => !self@.contains_key(key@),
            },
    {
        proof {
            use_type_invariant(self);
            rows_are_the_map(self.rows@);
        }
        let i = self.place(key);
        if i < self.rows.len() && same(self.rows[i].0.as_str(), key) {
            return Some(i);
        }
        proof {
            if self@.contains_key(key@) {
                let k = choose|k: int|
                    0 <= k < self.rows@.len() && (#[trigger] self.rows@[k]).0@ == key@;
                text_before_irreflexive(key@);
                if k > i {
                    assert(text_before(self.rows@[i as int].0@, self.rows@[k].0@));
                }
            }
        }
        None
    }

    /// The value under `key`.
    pub fn get(&self, key: &str) -> (r: Option<&V>)
        ensures
            match r {
                Some(v) => self@.contains_key(key@) && self@[key@] == *v,
                None => !self@.contains_key(key@),
            },
    {
        proof {
            use_type_invariant(self);
            rows_are_the_map(self.rows@);
        }
        match self.find(key) {
            Some(i) => Some(&self.rows[i].1),
            None => None,
        }
    }

    /// Whether there is a value under `key`.
    pub fn contains(&self, key: &str) -> (r: bool)
        ensures
            r == self@.contains_key(key@),
    {
        self.get(key).is_some()
    }

    /// Puts a value under `key`, in place of any other.
    pub fn insert(&mut self, key: &str, value: V)
        ensures
            final(self)@ == old(self)@.insert(key@, value),
    {
        proof {
            use_type_invariant(&*self);
        }
        let ghost before = self.rows@;
        let at = self.place(key);
        let mut rows: Vec<(String, V)> = Vec::new();
        std::mem::swap(&mut rows, &mut self.rows);
        let own = key.to_owned();
        if at < rows.len() && same(rows[at].0.as_str(), key) {
            let _ = rows.remove(at);
            rows.insert(at, (own, value));
            proof {
                assert(rows@ =~= before.update(at as int, (own, value)));
                assert(keys_ascend(rows@)) by {
                    assert forall|i: int, j: int| 0 <= i < j < rows@.len() implies text_before(
                        #[trigger] rows@[i].0@,
                        #[trigger] rows@[j].0@,
                    ) by {
                        assert(rows@[i].0@ == before[i].0@ && rows@[j].0@ == before[j].0@);
                        assert(text_before(before[i].0@, before[j].0@));
                    }
                }
                lemma_same_keys(before, rows@, at as int);
            }
        } else {
            rows.insert(at, (own, value));
            proof {
                assert(rows@ =~= before.insert(at as int, (own, value)));
                lemma_inserted(before, at as int, (own, value));
            }
        }
        self.rows = rows;
    }

    /// Takes out the value under `key`.
    pub fn remove(&mut self, key: &str) -> (r: Option<V>)
        ensures
            match r {
                Some(v) => old(self)@.contains_key(key@) && old(self)@[key@] == v,
                None => !old(self)@.contains_key(key@),
            },
            final(self)@ == old(self)@.remove(key@),
            old(self)@.dom().finite(),
    {
        proof {
            use_type_invariant(&*self);
            rows_are_the_map(self.rows@);
        }
        let ghost before = self.rows@;
        match self.find(key) {
            None => {
                assert(old(self)@.remove(key@) =~= old(self)@);
                None
            },
            Some(at) => {
                let mut rows: Vec<(String, V)> = Vec::new();
                std::mem::swap(&mut rows, &mut self.rows);
                let (_, value) = rows.remove(at);
                proof {
                    lemma_removed(before, at as int);
                    assert(rows@ =~= before.remove(at as int));
                }
                self.rows = rows;
                Some(value)
            },
        }
    }

    /// How many values there are.
    pub fn len(&self) -> (r: usize)
        ensures
            self@.dom().finite(),
            r == self@.dom().len(),
            r == self.entries().len(),
            keys_ascend(self.entries()),
    {
        proof {
            use_type_invariant(self);
            rows_are_the_map(self.rows@);
        }
        self.rows.len()
    }

    /// The row at a place in the order of the keys.
    pub fn row(&self, i: usize) -> (r: &(String, V))
        requires
            i < self.entries().len(),
        ensures
            *r == self.entries()[i as int],
            self@.contains_key(r.0@),
            self@[r.0@] == r.1,
    {
        proof {
            use_type_invariant(self);
            rows_are_the_map(self.rows@);
        }
        &self.rows[i]
    }
}

proof fn lemma_same_keys<V>(before: Seq<(String, V)>, after: Seq<(String, V)>, at: int)
    requires
        keys_ascend(before),
        keys_ascend(after),
        0 <= at < before.len(),
        after.len() == before.len(),
        forall|i: int| 0 <= i < before.len() && i != at ==> #[trigger] after[i] == before[i],
        after[at].0@ == before[at].0@,
    ensures
        map_of(after) == map_of(before).insert(before[at].0@, after[at].1),
{
    rows_are_the_map(before);
    rows_are_the_map(after);
    let want = map_of(before).insert(before[at].0@, after[at].1);
    assert forall|key: Seq<char>| #[trigger]
        map_of(after).contains_key(key) <==> want.contains_key(key) by {
        if map_of(after).contains_key(key) {
            let i = choose|i: int| 0 <= i < after.len() && (#[trigger] after[i]).0@ == key;
            assert(before[i].0@ == key);
        }
        if want.contains_key(key) && key != before[at].0@ {
            let i = choose|i: int| 0 <= i < before.len() && (#[trigger] before[i]).0@ == key;
            assert(after[i].0@ == key);
        }
        if key == before[at].0@ {
            assert(after[at].0@ == key);
        }
    }
    assert forall|key: Seq<char>| #[trigger]
        map_of(after).contains_key(key) implies map_of(after)[key] == want[key] by {
        let i = choose|i: int| 0 <= i < after.len() && (#[trigger] after[i]).0@ == key;
        if i != at {
            assert(before[i] == after[i]);
            assert(key != before[at].0@) by {
                text_before_irreflexive(key);
                if i < at {
                    assert(text_before(before[i].0@, before[at].0@));
                } else {
                    assert(text_before(before[at].0@, before[i].0@));
                }
            }
        }
    }
    assert(map_of(after) =~= want);
}

proof fn lemma_inserted<V>(before: Seq<(String, V)>, at: int, x: (String, V))
    requires
        keys_ascend(before),
        0 <= at <= before.len(),
        forall|i: int| 0 <= i < at ==> text_before((#[trigger] before[i]).0@, x.0@),
        at < before.len() ==> !text_before(before[at].0@, x.0@) && before[at].0@ != x.0@,
    ensures
        keys_ascend(before.insert(at, x)),
        map_of(before.insert(at, x)) == map_of(before).insert(x.0@, x.1),
        !map_of(before).contains_key(x.0@),
{
    let after = before.insert(at, x);
    assert forall|i: int| at <= i < before.len() implies text_before(
        x.0@,
        (#[trigger] before[i]).0@,
    ) by {
        text_before_total(before[at].0@, x.0@);
        if i > at {
            assert(text_before(before[at].0@, before[i].0@));
            text_before_transitive(x.0@, before[at].0@, before[i].0@);
        }
    }
    assert forall|i: int, j: int| 0 <= i < j < after.len() implies text_before(
        #[trigger] after[i].0@,
        #[trigger] after[j].0@,
    ) by {
        let bi = if i < at {
            i
        } else {
            i - 1
        };
        let bj = if j < at {
            j
        } else {
            j - 1
        };
        if i == at {
            assert(after[j] == before[bj]);
        } else if j == at {
            assert(after[i] == before[bi]);
        } else {
            assert(after[i] == before[bi] && after[j] == before[bj]);
            assert(text_before(before[bi].0@, before[bj].0@));
        }
    }
    rows_are_the_map(before);
    rows_are_the_map(after);
    let want = map_of(before).insert(x.0@, x.1);
    assert(!map_of(before).contains_key(x.0@)) by {
        if map_of(before).contains_key(x.0@) {
            let i = choose|i: int| 0 <= i < before.len() && (#[trigger] before[i]).0@ == x.0@;
            text_before_irreflexive(x.0@);
        }
    }
    assert forall|key: Seq<char>| #[trigger]
        map_of(after).contains_key(key) <==> want.contains_key(key) by {
        if map_of(after).contains_key(key) {
            let i = choose|i: int| 0 <= i < after.len() && (#[trigger] after[i]).0@ == key;
            if i < at {
                assert(before[i].0@ == key);
            } else if i > at {
                assert(before[i - 1].0@ == key);
            }
        }
        if want.contains_key(key) {
            if key == x.0@ {
                assert(after[at].0@ == key);
            } else {
                let i = choose|i: int| 0 <= i < before.len() && (#[trigger] before[i]).0@ == key;
                if i < at {
                    assert(after[i].0@ == key);
                } else {
                    assert(after[i + 1].0@ == key);
                }
            }
        }
    }
    assert forall|key: Seq<char>| #[trigger]
        map_of(after).contains_key(key) implies map_of(after)[key] == want[key] by {
        let i = choose|i: int| 0 <= i < after.len() && (#[trigger] after[i]).0@ == key;
        if i < at {
            assert(before[i] == after[i]);
            text_before_irreflexive(key);
        } else if i > at {
            assert(before[i - 1] == after[i]);
            text_before_irreflexive(key);
        }
    }
    assert(map_of(after) =~= want);
}

proof fn lemma_removed<V>(before: Seq<(String, V)>, at: int)
    requires
        keys_ascend(before),
        0 <= at < before.len(),
    ensures
        keys_ascend(before.remove(at)),
        map_of(before.remove(at)) == map_of(before).remove(before[at].0@),
{
    let after = before.remove(at);
    assert forall|i: int, j: int| 0 <= i < j < after.len() implies text_before(
        #[trigger] after[i].0@,
        #[trigger] after[j].0@,
    ) by {
        let bi = if i < at {
            i
        } else {
            i + 1
        };
        let bj = if j < at {
            j
        } else {
            j + 1
        };
        assert(after[i] == before[bi] && after[j] == before[bj]);
        assert(text_before(before[bi].0@, before[bj].0@));
    }
    rows_are_the_map(before);
    rows_are_the_map(after);
    let gone = before[at].0@;
    let want = map_of(before).remove(gone);
    assert forall|key: Seq<char>| #[trigger]
        map_of(after).contains_key(key) <==> want.contains_key(key) by {
        if map_of(after).contains_key(key) {
            let i = choose|i: int| 0 <= i < after.len() && (#[trigger] after[i]).0@ == key;
            text_before_irreflexive(key);
            if i < at {
                assert(before[i].0@ == key);
                assert(text_before(before[i].0@, before[at].0@));
            } else {
                assert(before[i + 1].0@ == key);
                assert(text_before(before[at].0@, before[i + 1].0@));
            }
        }
        if want.contains_key(key) {
            let i = choose|i: int| 0 <= i < before.len() && (#[trigger] before[i]).0@ == key;
            if i < at {
                assert(after[i].0@ == key);
            } else {
                assert(after[i - 1].0@ == key);
            }
        }
    }
    assert forall|key: Seq<char>| #[trigger]
        map_of(after).contains_key(key) implies map_of(after)[key] == want[key] by {
        let i = choose|i: int| 0 <= i < after.len() && (#[trigger] after[i]).0@ == key;
        if i < at {
            assert(before[i] == after[i]);
        } else {
            assert(before[i + 1] == after[i]);
        }
    }
    assert(map_of(after) =~= want);
}

} // verus!
