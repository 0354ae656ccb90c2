//! A table with one row per key.
use vstd::prelude::*;

verus! {

struct Row<V> {
    key: String,
    value: V,
}

/// Values by text key, at most one per key.
pub struct Table<V> {
    rows: Vec<Row<V>>,
}

spec fn has_key_at<V>(rows: Seq<Row<V>>, i: int, key: Seq<char>) -> bool {
    0 <= i < rows.len() && rows[i].key@ == key
}

spec fn keys_are_distinct<V>(rows: Seq<Row<V>>) -> bool {
    forall|i: int, j: int|
        0 <= i < rows.len() && 0 <= j < rows.len() && i != j ==> #[trigger] rows[i].key@
            != #[trigger] rows[j].key@
}

spec fn rows_as_map<V>(rows: Seq<Row<V>>) -> Map<Seq<char>, V>
    decreases rows.len(),
{
    if rows.len() == 0 {
        Map::empty()
    } else {
        rows_as_map(rows.drop_last()).insert(rows.last().key@, rows.last().value)
    }
}

proof fn lemma_rows_as_map<V>(rows: Seq<Row<V>>)
    requires
        keys_are_distinct(rows),
    ensures
        forall|i: int|
            0 <= i < rows.len() ==> rows_as_map(rows).contains_key(#[trigger] rows[i].key@)
                && rows_as_map(rows)[rows[i].key@] == rows[i].value,
        forall|key: Seq<char>|
            #[trigger] rows_as_map(rows).contains_key(key) ==> exists|i: int|
                has_key_at(rows, i, key),
    decreases rows.len(),
{
    if rows.len() > 0 {
        let front = rows.drop_last();
        lemma_rows_as_map(front);
        assert forall|i: int| 0 <= i < rows.len() implies rows_as_map(rows).contains_key(
            #[trigger] rows[i].key@,
        ) && rows_as_map(rows)[rows[i].key@] == rows[i].value by {
            if i < front.len() {
                assert(front[i].key@ == rows[i].key@);
                assert(rows[i].key@ != rows[rows.len() - 1].key@);
            }
        }
        assert forall|key: Seq<char>| #[trigger]
            rows_as_map(rows).contains_key(key) implies exists|i: int| has_key_at(rows, i, key) by {
            if rows_as_map(front).contains_key(key) {
                let i = choose|i: int| has_key_at(front, i, key);
                assert(has_key_at(rows, i, key));
            } else {
                assert(has_key_at(rows, rows.len() - 1, key));
            }
        }
    }
}

impl<V> View for Table<V> {
    type V = Map<Seq<char>, V>;

    closed spec fn view(&self) -> Map<Seq<char>, V> {
        rows_as_map(self.rows@)
    }
}

impl<V> Table<V> {
    #[verifier::type_invariant]
    spec fn one_row_per_key(self) -> bool {
        keys_are_distinct(self.rows@)
    }

    /// The number of rows.
    pub closed spec fn size(&self) -> nat {
        self.rows@.len()
    }

    /// A table without rows.
    pub fn new() -> (table: Table<V>)
        ensures
            table@ == Map::<Seq<char>, V>::empty(),
    {
        Table { rows: Vec::new() }
    }

    /// The position of the row with this key.
    fn position(&self, key: &str) -> (position: Option<usize>)
        ensures
            match position {
                Some(i) => has_key_at(self.rows@, i as int, key@),
                None => forall|i: int| !has_key_at(self.rows@, i, key@),
            },
    {
        let wanted = key.to_owned();
        let mut i: usize = 0;
        while i < self.rows.len()
            invariant
                wanted@ == key@,
                forall|j: int| 0 <= j < i ==> !has_key_at(self.rows@, j, key@),
            decreases self.rows.len() - i,
        {
            if self.rows[i].key == wanted {
                return Some(i);
            }
            i = i + 1;
        }
        None
    }

    /// The value under `key`.
    pub fn get(&self, key: &str) -> (value: Option<&V>)
        ensures
            match value {
                Some(v) => self@.contains_key(key@) && *v == self@[key@],
                None => !self@.contains_key(key@),
            },
    {
        proof {
            use_type_invariant(self);
            lemma_rows_as_map(self.rows@);
        }
        match self.position(key) {
            Some(i) => Some(&self.rows[i].value),
            None => None,
        }
    }

    /// Sets the value under `key`, replacing any previous one.
    pub fn put(&mut self, key: &str, value: V)
        ensures
            final(self)@ == old(self)@.insert(key@, value),
    {
        proof {
            use_type_invariant(&*self);
            lemma_rows_as_map(self.rows@);
        }
        let position = self.position(key);
        let mut rows: Vec<Row<V>> = Vec::new();
        std::mem::swap(&mut rows, &mut self.rows);
        let ghost before = rows@;
        let row = Row { key: key.to_owned(), value };
        match position {
            Some(i) => {
                rows.set(i, row);
                assert(has_key_at(before, i as int, key@));
                assert forall|j: int, k: int|
                    0 <= j < rows@.len() && 0 <= k < rows@.len() && j != k implies #[trigger] rows@[j].key@
                    != #[trigger] rows@[k].key@ by {
                    assert(rows@[j].key@ == before[j].key@);
                    assert(rows@[k].key@ == before[k].key@);
                }
            },
            None => {
                assert forall|j: int| 0 <= j < before.len() implies #[trigger] before[j].key@ != key@ by {
                    assert(!has_key_at(before, j, key@));
                }
                rows.push(row);
            },
        }
        proof {
            lemma_rows_as_map(before);
            lemma_rows_as_map(rows@);
            let after = rows_as_map(rows@);
            assert(position is None ==> rows@ == before.push(row));
            assert(after =~= rows_as_map(before).insert(key@, value)) by {
                if position is None {
                    assert(rows@.drop_last() =~= before);
                } else {
                    let p = position->0 as int;
                    assert forall|k: Seq<char>| #[trigger] after.contains_key(k) <==> rows_as_map(before).insert(key@, value).contains_key(k) by {
                        if after.contains_key(k) {
                            let j = choose|j: int| has_key_at(rows@, j, k);
                            assert(before[j].key@ == k);
                        }
                        if rows_as_map(before).contains_key(k) {
                            let j = choose|j: int| has_key_at(before, j, k);
                            assert(rows@[j].key@ == k);
                        }
                        assert(rows@[p].key@ == key@);
                    }
                    assert forall|k: Seq<char>| #[trigger] after.contains_key(k) implies after[k] == rows_as_map(before).insert(key@, value)[k] by {
                        let j = choose|j: int| has_key_at(rows@, j, k);
                        assert(rows@[j].key@ == before[j].key@);
                        assert(before[p].key@ == key@);
                    }
                }
            }
        }
        self.rows = rows;
    }

    /// Takes the value under `key` out of the table.
    pub fn remove(&mut self, key: &str) -> (value: Option<V>)
        ensures
            final(self)@ == old(self)@.remove(key@),
            match value {
                Some(v) => old(self)@.contains_key(key@) && v == old(self)@[key@],
                None => !old(self)@.contains_key(key@),
            },
    {
        proof {
            use_type_invariant(&*self);
            lemma_rows_as_map(self.rows@);
        }
        match self.position(key) {
            Some(i) => {
                let mut rows: Vec<Row<V>> = Vec::new();
                std::mem::swap(&mut rows, &mut self.rows);
                let ghost before = rows@;
                let row = rows.remove(i);
                proof {
                    assert forall|j: int, k: int|
                        0 <= j < rows@.len() && 0 <= k < rows@.len() && j != k implies #[trigger] rows@[j].key@
                        != #[trigger] rows@[k].key@ by {
                        let j0 = if j < i { j } else { j + 1 };
                        let k0 = if k < i { k } else { k + 1 };
                        assert(rows@[j] == before[j0] && rows@[k] == before[k0]);
                        assert(before[j0].key@ != before[k0].key@);
                    }
                    lemma_rows_as_map(rows@);
                    let after = rows_as_map(rows@);
                    assert(before[i as int].key@ == key@);
                    assert forall|k: Seq<char>| #[trigger] after.contains_key(k) implies rows_as_map(
                        before,
                    ).contains_key(k) && k != key@ && after[k] == rows_as_map(before)[k] by {
                        let j = choose|j: int| has_key_at(rows@, j, k);
                        let j0 = if j < i { j } else { j + 1 };
                        assert(rows@[j] == before[j0]);
                        assert(before[j0].key@ == k);
                    }
                    assert forall|k: Seq<char>| #[trigger] rows_as_map(before).contains_key(k) && k
                        != key@ implies after.contains_key(k) by {
                        let j0 = choose|j: int| has_key_at(before, j, k);
                        let j = if j0 < i { j0 } else { j0 - 1 };
                        assert(rows@[j] == before[j0]);
                        assert(rows@[j].key@ == k);
                    }
                    assert(after =~= rows_as_map(before).remove(key@));
                }
                self.rows = rows;
                Some(row.value)
            },
            None => {
                assert(self@.remove(key@) =~= self@);
                None
            },
        }
    }

    /// Takes some row out of the table.
    pub fn pop(&mut self) -> (row: Option<(String, V)>)
        ensures
            match row {
                Some((key, value)) => {
                    &&& old(self)@.contains_key(key@)
                    &&& value == old(self)@[key@]
                    &&& final(self)@ == old(self)@.remove(key@)
                    &&& final(self).size() + 1 == old(self).size()
                },
                None => final(self)@ == old(self)@ && old(self)@ == Map::<Seq<char>, V>::empty(),
            },
    {
        proof {
            use_type_invariant(&*self);
            lemma_rows_as_map(self.rows@);
        }
        let mut rows: Vec<Row<V>> = Vec::new();
        std::mem::swap(&mut rows, &mut self.rows);
        let ghost before = rows@;
        let last = rows.pop();
        proof {
            if last is Some {
                assert(rows@ == before.drop_last());
                lemma_rows_as_map(rows@);
                let key = last->0.key@;
                assert(!rows_as_map(rows@).contains_key(key)) by {
                    if rows_as_map(rows@).contains_key(key) {
                        let j = choose|j: int| has_key_at(rows@, j, key);
                        assert(before[j].key@ == before[before.len() - 1].key@);
                    }
                }
                assert(rows_as_map(rows@) =~= rows_as_map(before).remove(key));
            }
        }
        self.rows = rows;
        match last {
            Some(row) => Some((row.key, row.value)),
            None => None,
        }
    }
}

} // verus!
