//! A small map from texts to values.

use vstd::prelude::*;
use crate::text::text_eq;

verus! {

/// A map from texts to values. Its entries stand in the order in which their names first came in.
pub struct TextMap<V> {
    entries: Vec<(String, V)>,
}

/// Entries with their names as characters.
pub open spec fn rows_of<V>(entries: Seq<(String, V)>) -> Seq<(Seq<char>, V)> {
    entries.map_values(|e: (String, V)| (e.0@, e.1))
}

/// Whether no name occurs twice.
pub open spec fn distinct_names<V>(rows: Seq<(Seq<char>, V)>) -> bool {
    forall|i: int, j: int|
        0 <= i < rows.len() && 0 <= j < rows.len() && i != j ==> (#[trigger] rows[i]).0 != (
        #[trigger] rows[j]).0
}

/// The map that rows make, the later of two with one name winning.
pub open spec fn map_of<V>(rows: Seq<(Seq<char>, V)>) -> Map<Seq<char>, V>
    decreases rows.len(),
{
    if rows.len() == 0 {
        Map::empty()
    } else {
        map_of(rows.drop_last()).insert(rows.last().0, rows.last().1)
    }
}

/// Rows with a value put under a name: in place of what stood there, or else behind the others.
pub open spec fn with_row<V>(rows: Seq<(Seq<char>, V)>, name: Seq<char>, value: V) -> Seq<
    (Seq<char>, V),
> {
    if map_of(rows).contains_key(name) {
        rows.map_values(
            |row: (Seq<char>, V)|
                if row.0 == name {
                    (name, value)
                } else {
                    row
                },
        )
    } else {
        rows.push((name, value))
    }
}

/// Writing a new value into the one row with a name puts it under the name.
proof fn lemma_update_is_with_row<V>(
    rows: Seq<(Seq<char>, V)>,
    i: int,
    name: Seq<char>,
    value: V,
)
    requires
        distinct_names(rows),
        0 <= i < rows.len(),
        rows[i].0 == name,
    ensures
        rows.update(i, (name, value)) == with_row(rows, name, value),
{
    lemma_map_has(rows, name);
    let after = rows.update(i, (name, value));
    assert forall|j: int| 0 <= j < rows.len() implies #[trigger] after[j] == with_row(
        rows,
        name,
        value,
    )[j] by {
        if j != i {
            assert(rows[j].0 != rows[i].0);
        }
    }
    assert(after =~= with_row(rows, name, value));
}

/// The sum of the values of rows.
pub open spec fn sum_of(rows: Seq<(Seq<char>, u64)>) -> nat
    decreases rows.len(),
{
    if rows.len() == 0 {
        0
    } else {
        sum_of(rows.drop_last()) + rows.last().1 as nat
    }
}

proof fn lemma_map_has<V>(rows: Seq<(Seq<char>, V)>, name: Seq<char>)
    ensures
        map_of(rows).contains_key(name) <==> exists|i: int|
            0 <= i < rows.len() && (#[trigger] rows[i]).0 == name,
    decreases rows.len(),
{
    if rows.len() > 0 {
        let head = rows.drop_last();
        lemma_map_has(head, name);
        if map_of(head).contains_key(name) {
            let i = choose|i: int| 0 <= i < head.len() && (#[trigger] head[i]).0 == name;
            assert(rows[i].0 == name);
        }
        if rows.last().0 == name {
            assert(rows[rows.len() - 1].0 == name);
        }
        if exists|i: int| 0 <= i < rows.len() && (#[trigger] rows[i]).0 == name {
            let i = choose|i: int| 0 <= i < rows.len() && (#[trigger] rows[i]).0 == name;
            if i < head.len() {
                assert(head[i].0 == name);
            }
        }
    }
}

proof fn lemma_map_at<V>(rows: Seq<(Seq<char>, V)>, i: int)
    requires
        distinct_names(rows),
        0 <= i < rows.len(),
    ensures
        map_of(rows).contains_key(rows[i].0),
        map_of(rows)[rows[i].0] == rows[i].1,
    decreases rows.len(),
{
    if i < rows.len() - 1 {
        let head = rows.drop_last();
        assert(distinct_names(head)) by {
            assert forall|a: int, b: int|
                0 <= a < head.len() && 0 <= b < head.len() && a != b implies (
            #[trigger] head[a]).0 != (#[trigger] head[b]).0 by {
                assert(rows[a].0 != rows[b].0);
            }
        }
        lemma_map_at(head, i);
        assert(head[i] == rows[i]);
        assert(rows[i].0 != rows[rows.len() - 1].0);
    }
}

/// Writing a new value into a row writes it into the map.
proof fn lemma_map_update<V>(rows: Seq<(Seq<char>, V)>, i: int, name: Seq<char>, value: V)
    requires
        distinct_names(rows),
        0 <= i < rows.len(),
        rows[i].0 == name,
    ensures
        distinct_names(rows.update(i, (name, value))),
        map_of(rows.update(i, (name, value))) == map_of(rows).insert(name, value),
{
    let after = rows.update(i, (name, value));
    assert(distinct_names(after)) by {
        assert forall|a: int, b: int|
            0 <= a < after.len() && 0 <= b < after.len() && a != b implies (#[trigger] after[a]).0
            != (#[trigger] after[b]).0 by {
            assert(rows[a].0 != rows[b].0);
        }
    }
    assert(map_of(after) =~= map_of(rows).insert(name, value)) by {
        assert forall|k: Seq<char>| true implies #[trigger] map_of(after).contains_key(k) == map_of(
            rows,
        ).insert(name, value).contains_key(k) by {
            lemma_map_has(after, k);
            lemma_map_has(rows, k);
            if exists|j: int| 0 <= j < after.len() && (#[trigger] after[j]).0 == k {
                let j = choose|j: int| 0 <= j < after.len() && (#[trigger] after[j]).0 == k;
                assert(rows[j].0 == k);
            }
            if exists|j: int| 0 <= j < rows.len() && (#[trigger] rows[j]).0 == k {
                let j = choose|j: int| 0 <= j < rows.len() && (#[trigger] rows[j]).0 == k;
                assert(after[j].0 == k);
            }
            if k == name {
                assert(after[i].0 == k);
            }
        }
        assert forall|k: Seq<char>| #[trigger] map_of(after).contains_key(k) implies map_of(
            after,
        )[k] == map_of(rows).insert(name, value)[k] by {
            lemma_map_has(after, k);
            let j = choose|j: int| 0 <= j < after.len() && (#[trigger] after[j]).0 == k;
            lemma_map_at(after, j);
            if j != i {
                assert(rows[j].0 == k && rows[j].0 != rows[i].0);
                lemma_map_at(rows, j);
            }
        }
    }
}

proof fn lemma_sum_update(rows: Seq<(Seq<char>, u64)>, i: int, value: u64)
    requires
        0 <= i < rows.len(),
    ensures
        sum_of(rows.update(i, (rows[i].0, value))) == sum_of(rows) - rows[i].1 + value,
        rows[i].1 <= sum_of(rows),
    decreases rows.len(),
{
    let after = rows.update(i, (rows[i].0, value));
    if i == rows.len() - 1 {
        assert(after.drop_last() =~= rows.drop_last());
    } else {
        lemma_sum_update(rows.drop_last(), i, value);
        assert(after.drop_last() =~= rows.drop_last().update(i, (rows[i].0, value)));
        assert(after.last() == rows.last());
    }
}

impl<V> View for TextMap<V> {
    type V = Map<Seq<char>, V>;

    closed spec fn view(&self) -> Map<Seq<char>, V> {
        map_of(self.rows())
    }
}

impl<V> TextMap<V> {
    /// The entries in their order.
    pub closed spec fn rows(self) -> Seq<(Seq<char>, V)> {
        rows_of(self.entries@)
    }

    /// No name occurs twice.
    pub open spec fn wf(self) -> bool {
        distinct_names(self.rows())
    }

    /// The empty map.
    pub fn new() -> (r: Self)
        ensures
            r.wf(),
            r@ == Map::<Seq<char>, V>::empty(),
            r.rows() == Seq::<(Seq<char>, V)>::empty(),
    {
        let r = TextMap { entries: Vec::new() };
        proof {
            assert(r.rows() =~= Seq::<(Seq<char>, V)>::empty());
        }
        r
    }

    /// The place of the entry with that name, where there is one.
    fn place(&self, name: &str) -> (r: Option<usize>)
        ensures
            match r {
                Some(i) => i < self.entries@.len() && self.entries@[i as int].0@ == name@,
                None => forall|i: int|
                    0 <= i < self.entries@.len() ==> (#[trigger] self.entries@[i]).0@ != name@,
            },
    {
        let mut i: usize = 0;
        while i < self.entries.len()
            invariant
                i <= self.entries@.len(),
                forall|k: int| 0 <= k < i ==> (#[trigger] self.entries@[k]).0@ != name@,
            decreases self.entries@.len() - i,
        {
            if text_eq(self.entries[i].0.as_str(), name) {
                return Some(i);
            }
            i = i + 1;
        }
        None
    }

    /// The value that stands under `name`.
    pub fn get(&self, name: &str) -> (r: Option<&V>)
        requires
            self.wf(),
        ensures
            match r {
                Some(value) => self@.contains_key(name@) && *value == self@[name@],
                None => !self@.contains_key(name@),
            },
    {
        match self.place(name) {
            Some(i) => {
                proof {
                    lemma_map_at(self.rows(), i as int);
                }
                Some(&self.entries[i].1)
            },
            None => {
                proof {
                    lemma_map_has(self.rows(), name@);
                    assert forall|i: int| 0 <= i < self.rows().len() implies (
                    #[trigger] self.rows()[i]).0 != name@ by {
                        assert(self.entries@[i].0@ != name@);
                    }
                }
                None
            },
        }
    }

    /// Puts `value` under `name`, in place of what stood there.
    pub fn insert(&mut self, name: String, value: V)
        requires
            old(self).wf(),
        ensures
            final(self).wf(),
            final(self)@ == old(self)@.insert(name@, value),
            final(self).rows() == with_row(old(self).rows(), name@, value),
    {
        let ghost before = self.rows();
        let ghost key = name@;
        match self.place(name.as_str()) {
            Some(i) => {
                self.entries.set(i, (name, value));
                proof {
                    lemma_map_update(before, i as int, key, value);
                    lemma_update_is_with_row(before, i as int, key, value);
                    assert(self.rows() =~= before.update(i as int, (key, value)));
                }
            },
            None => {
                proof {
                    assert forall|i: int| 0 <= i < before.len() implies (#[trigger] before[i]).0
                        != key by {
                        assert(self.entries@[i].0@ != key);
                    }
                    lemma_map_has(before, key);
                }
                self.entries.push((name, value));
                proof {
                    let after = self.rows();
                    assert(after =~= before.push((key, value)));
                    assert(after.drop_last() =~= before);
                    assert forall|a: int, b: int|
                        0 <= a < after.len() && 0 <= b < after.len() && a != b implies (
                    #[trigger] after[a]).0 != (#[trigger] after[b]).0 by {
                        if a < before.len() && b < before.len() {
                            assert(before[a].0 != before[b].0);
                        } else if a < before.len() {
                            assert(before[a].0 != key);
                        } else {
                            assert(before[b].0 != key);
                        }
                    }
                }
            },
        }
    }

    /// The entries in their order.
    pub fn entries(&self) -> (r: &Vec<(String, V)>)
        ensures
            rows_of(r@) == self.rows(),
            map_of(rows_of(r@)) == self@,
    {
        &self.entries
    }
}

impl TextMap<u64> {
    /// The sum of all values.
    pub open spec fn total(self) -> nat {
        sum_of(self.rows())
    }

    /// The value under `name`, where nothing counts as zero.
    pub open spec fn count(self, name: Seq<char>) -> nat {
        if self@.contains_key(name) {
            self@[name] as nat
        } else {
            0
        }
    }

    /// No single value exceeds the sum of all.
    pub proof fn lemma_count_within_total(self, name: Seq<char>)
        requires
            self.wf(),
        ensures
            self.count(name) <= self.total(),
    {
        if self@.contains_key(name) {
            lemma_map_has(self.rows(), name);
            let i = choose|i: int| 0 <= i < self.rows().len() && (#[trigger] self.rows()[i]).0
                == name;
            lemma_map_at(self.rows(), i);
            lemma_sum_update(self.rows(), i, 0);
        }
    }

    /// Adds one to the value under `name`.
    pub fn bump(&mut self, name: &str)
        requires
            old(self).wf(),
            old(self).count(name@) < u64::MAX,
        ensures
            final(self).wf(),
            final(self)@ == old(self)@.insert(name@, (old(self).count(name@) + 1) as u64),
            final(self).rows() == with_row(
                old(self).rows(),
                name@,
                (old(self).count(name@) + 1) as u64,
            ),
            final(self).total() == old(self).total() + 1,
    {
        let ghost before = self.rows();
        match self.place(name) {
            Some(i) => {
                proof {
                    lemma_map_at(before, i as int);
                    assert(before[i as int].0 == name@);
                }
                let count: u64 = self.entries[i].1;
                let key = self.entries[i].0.clone();
                self.entries.set(i, (key, count + 1));
                proof {
                    lemma_map_update(before, i as int, name@, (count + 1) as u64);
                    lemma_update_is_with_row(before, i as int, name@, (count + 1) as u64);
                    lemma_sum_update(before, i as int, (count + 1) as u64);
                    assert(self.rows() =~= before.update(i as int, (name@, (count + 1) as u64)));
                }
            },
            None => {
                proof {
                    lemma_map_has(before, name@);
                    assert forall|i: int| 0 <= i < before.len() implies (#[trigger] before[i]).0
                        != name@ by {
                        assert(self.entries@[i].0@ != name@);
                    }
                }
                self.entries.push((name.to_owned(), 1));
                proof {
                    let after = self.rows();
                    assert(after =~= before.push((name@, 1u64)));
                    assert(after.drop_last() =~= before);
                    assert forall|a: int, b: int|
                        0 <= a < after.len() && 0 <= b < after.len() && a != b implies (
                    #[trigger] after[a]).0 != (#[trigger] after[b]).0 by {
                        if a < before.len() && b < before.len() {
                            assert(before[a].0 != before[b].0);
                        } else if a < before.len() {
                            assert(before[a].0 != name@);
                        } else {
                            assert(before[b].0 != name@);
                        }
                    }
                }
            },
        }
    }

    /// A second map with the same entries.
    pub fn copy(&self) -> (r: Self)
        ensures
            r.rows() == self.rows(),
            r@ == self@,
    {
        let mut entries: Vec<(String, u64)> = Vec::new();
        let mut i: usize = 0;
        while i < self.entries.len()
            invariant
                i <= self.entries@.len(),
                entries@ == self.entries@.take(i as int),
            decreases self.entries@.len() - i,
        {
            entries.push((self.entries[i].0.clone(), self.entries[i].1));
            proof {
                assert(self.entries@.take(i + 1) =~= self.entries@.take(i as int).push(
                    self.entries@[i as int],
                ));
            }
            i = i + 1;
        }
        proof {
            assert(self.entries@.take(i as int) =~= self.entries@);
        }
        TextMap { entries }
    }
}

impl TextMap<String> {
    /// The entries, with their values as characters.
    pub open spec fn texts(self) -> Map<Seq<char>, Seq<char>> {
        self@.map_values(|v: String| v@)
    }

    /// A second map with the same entries.
    pub fn copy(&self) -> (r: Self)
        ensures
            r.rows() == self.rows(),
            r@ == self@,
    {
        let mut entries: Vec<(String, String)> = Vec::new();
        let mut i: usize = 0;
        while i < self.entries.len()
            invariant
                i <= self.entries@.len(),
                entries@ == self.entries@.take(i as int),
            decreases self.entries@.len() - i,
        {
            entries.push((self.entries[i].0.clone(), self.entries[i].1.clone()));
            proof {
                assert(self.entries@.take(i + 1) =~= self.entries@.take(i as int).push(
                    self.entries@[i as int],
                ));
            }
            i = i + 1;
        }
        proof {
            assert(self.entries@.take(i as int) =~= self.entries@);
        }
        TextMap { entries }
    }
}

/// Putting a value under a name changes no other name and moves no entry; a name that was there
/// keeps its place, and a new one comes last.
pub proof fn law_entries_keep_their_place<V>(
    rows: Seq<(Seq<char>, V)>,
    name: Seq<char>,
    value: V,
    i: int,
)
    requires
        distinct_names(rows),
        0 <= i < rows.len(),
    ensures
        with_row(rows, name, value).len() >= rows.len(),
        with_row(rows, name, value)[i].0 == rows[i].0,
        rows[i].0 == name ==> with_row(rows, name, value)[i].1 == value && with_row(
            rows,
            name,
            value,
        ).len() == rows.len(),
        rows[i].0 != name ==> with_row(rows, name, value)[i].1 == rows[i].1,
{
    lemma_map_at(rows, i);
}

/// A name that was not there comes last, with its value.
pub proof fn law_new_entry_comes_last<V>(rows: Seq<(Seq<char>, V)>, name: Seq<char>, value: V)
    requires
        forall|i: int| 0 <= i < rows.len() ==> (#[trigger] rows[i]).0 != name,
    ensures
        with_row(rows, name, value).len() == rows.len() + 1,
        with_row(rows, name, value).last() == (name, value),
        with_row(rows, name, value).drop_last() =~= rows,
{
    lemma_map_has(rows, name);
}

/// A map holds under each name what its entry holds, and no other name.
pub proof fn law_map_by_entries<V>(rows: Seq<(Seq<char>, V)>, i: int, name: Seq<char>)
    requires
        distinct_names(rows),
        0 <= i < rows.len(),
    ensures
        map_of(rows).contains_key(rows[i].0),
        map_of(rows)[rows[i].0] == rows[i].1,
        map_of(rows).contains_key(name) ==> exists|k: int|
            0 <= k < rows.len() && (#[trigger] rows[k]).0 == name,
{
    lemma_map_at(rows, i);
    lemma_map_has(rows, name);
}

/// The sum of all values takes each entry once.
pub proof fn law_sum_one_by_one(rows: Seq<(Seq<char>, u64)>, name: Seq<char>, value: u64)
    ensures
        sum_of(Seq::empty()) == 0,
        sum_of(rows.push((name, value))) == sum_of(rows) + value,
{
    assert(rows.push((name, value)).drop_last() =~= rows);
}

/// A name that a map does not hold counts as zero, another as its value.
pub proof fn law_count_by_name(map: TextMap<u64>, name: Seq<char>)
    ensures
        !map@.contains_key(name) ==> map.count(name) == 0,
        map@.contains_key(name) ==> map.count(name) == map@[name],
{
}

/// Entries keep their place, name and value when their names are taken as characters.
pub proof fn law_rows_are_entries<V>(entries: Seq<(String, V)>, i: int)
    requires
        0 <= i < entries.len(),
    ensures
        rows_of(entries).len() == entries.len(),
        rows_of(entries)[i].0 == entries[i].0@,
        rows_of(entries)[i].1 == entries[i].1,
{
}

/// Of two rows with one name the later wins; no row takes another name away.
pub proof fn law_later_row_wins<V>(
    rows: Seq<(Seq<char>, V)>,
    name: Seq<char>,
    value: V,
    other: Seq<char>,
)
    ensures
        map_of(rows.push((name, value))).contains_key(name),
        map_of(rows.push((name, value)))[name] == value,
        other != name ==> (map_of(rows.push((name, value))).contains_key(other) <==> map_of(
            rows,
        ).contains_key(other)),
        other != name && map_of(rows).contains_key(other) ==> map_of(rows.push((name, value)))[other]
            == map_of(rows)[other],
{
    assert(rows.push((name, value)).drop_last() =~= rows);
}

} // verus!
