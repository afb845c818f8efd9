//! Collections of the catalog: tables of rows that are found by a number, and
//! indexes from names to such numbers.

use crate::text::same_text;
use vstd::prelude::*;

verus! {

/// A row of a catalog table.
pub trait Row: Sized {
    /// What the row holds, as a mathematical value.
    type V;

    /// The value of this row.
    spec fn row(&self) -> Self::V;

    /// The number by which a row with this value is found.
    spec fn key_of(v: Self::V) -> u32;

    /// The number by which this row is found.
    fn key(&self) -> (k: u32)
        ensures
            k == Self::key_of(self.row()),
    ;
}

/// A row that belongs to an object.
pub trait OwnedRow: Row {
    /// The number of the object that a row with this value belongs to.
    spec fn owner_of(v: Self::V) -> u32;

    /// The number of the object that this row belongs to.
    fn owner(&self) -> (o: u32)
        ensures
            o == Self::owner_of(self.row()),
    ;
}

/// A row that can be copied.
pub trait CopyRow: Row {
    /// A copy of this row.
    fn copy_row(&self) -> (r: Self)
        ensures
            r.row() == self.row(),
    ;
}

/// Whether a row belongs to another object than `owner`.
pub open spec fn foreign_to<R: OwnedRow>(owner: u32) -> spec_fn(R::V) -> bool {
    |v: R::V| R::owner_of(v) != owner
}

/// The rows that belong to another object than `owner`.
pub open spec fn not_owned<R: OwnedRow>(rows: Seq<R::V>, owner: u32) -> Seq<R::V> {
    rows.filter(foreign_to::<R>(owner))
}

/// The values of a list of rows.
pub open spec fn row_values<R: Row>(rows: Seq<R>) -> Seq<R::V> {
    Seq::new(rows.len(), |i: int| rows[i].row())
}

/// The position of the first row with this key, or the number of rows.
pub open spec fn row_position<R: Row>(rows: Seq<R::V>, key: u32) -> int
    decreases rows.len(),
{
    if rows.len() == 0 {
        0
    } else if R::key_of(rows[0]) == key {
        0
    } else {
        1 + row_position::<R>(rows.drop_first(), key)
    }
}

/// The row with this key.
pub open spec fn row_get<R: Row>(rows: Seq<R::V>, key: u32) -> Option<R::V> {
    let i = row_position::<R>(rows, key);
    if i < rows.len() {
        Some(rows[i])
    } else {
        None
    }
}

/// The rows with `row` in place of the one with the same key, or behind all
/// where there is none.
pub open spec fn row_put<R: Row>(rows: Seq<R::V>, row: R::V) -> Seq<R::V> {
    let i = row_position::<R>(rows, R::key_of(row));
    if i < rows.len() {
        rows.update(i, row)
    } else {
        rows.push(row)
    }
}

/// The rows without the one with this key.
pub open spec fn row_drop<R: Row>(rows: Seq<R::V>, key: u32) -> Seq<R::V> {
    let i = row_position::<R>(rows, key);
    if i < rows.len() {
        rows.remove(i)
    } else {
        rows
    }
}

/// The first position with the key is where the key is met for the first time.
pub proof fn lemma_row_position<R: Row>(rows: Seq<R::V>, key: u32, k: int)
    requires
        0 <= k <= rows.len(),
        forall|j: int| 0 <= j < k ==> R::key_of(#[trigger] rows[j]) != key,
        k < rows.len() ==> R::key_of(rows[k]) == key,
    ensures
        row_position::<R>(rows, key) == k,
    decreases rows.len(),
{
    if k > 0 {
        let rest = rows.drop_first();
        assert forall|j: int| 0 <= j < k - 1 implies R::key_of(#[trigger] rest[j]) != key by {
            assert(rest[j] == rows[j + 1]);
        }
        if k < rows.len() {
            assert(rest[k - 1] == rows[k]);
        }
        lemma_row_position::<R>(rest, key, k - 1);
    }
}

/// What the position of a key says of the rows.
pub proof fn lemma_row_position_meaning<R: Row>(rows: Seq<R::V>, key: u32)
    ensures
        0 <= row_position::<R>(rows, key) <= rows.len(),
        row_position::<R>(rows, key) < rows.len() ==> R::key_of(
            rows[row_position::<R>(rows, key)],
        ) == key,
        forall|j: int|
            0 <= j < row_position::<R>(rows, key) ==> R::key_of(#[trigger] rows[j]) != key,
    decreases rows.len(),
{
    if rows.len() > 0 && R::key_of(rows[0]) != key {
        let rest = rows.drop_first();
        lemma_row_position_meaning::<R>(rest, key);
        assert forall|j: int| 0 <= j < row_position::<R>(rows, key) implies R::key_of(
            #[trigger] rows[j],
        ) != key by {
            if j > 0 {
                assert(rows[j] == rest[j - 1]);
            }
        }
    }
}

/// Whether no two rows have the same key.
pub open spec fn distinct_keys<R: Row>(rows: Seq<R::V>) -> bool {
    forall|i: int, j: int|
        0 <= i < j < rows.len() ==> R::key_of(#[trigger] rows[i]) != R::key_of(#[trigger] rows[j])
}

pub proof fn lemma_put_keeps_distinct<R: Row>(rows: Seq<R::V>, v: R::V)
    requires
        distinct_keys::<R>(rows),
    ensures
        distinct_keys::<R>(row_put::<R>(rows, v)),
{
    let after = row_put::<R>(rows, v);
    let p = row_position::<R>(rows, R::key_of(v));
    lemma_row_position_meaning::<R>(rows, R::key_of(v));
    assert forall|i: int, j: int| 0 <= i < j < after.len() implies R::key_of(#[trigger] after[i])
        != R::key_of(#[trigger] after[j]) by {
        if p < rows.len() {
            assert(R::key_of(after[i]) == R::key_of(rows[i]));
            assert(R::key_of(after[j]) == R::key_of(rows[j]));
            assert(R::key_of(rows[i]) != R::key_of(rows[j]));
        } else if j < rows.len() {
            assert(R::key_of(rows[i]) != R::key_of(rows[j]));
        } else {
            assert(R::key_of(rows[i]) != R::key_of(v));
        }
    }
}

pub proof fn lemma_drop_keeps_distinct<R: Row>(rows: Seq<R::V>, key: u32)
    requires
        distinct_keys::<R>(rows),
    ensures
        distinct_keys::<R>(row_drop::<R>(rows, key)),
{
    let after = row_drop::<R>(rows, key);
    let p = row_position::<R>(rows, key);
    lemma_row_position_meaning::<R>(rows, key);
    if p < rows.len() {
        assert forall|i: int, j: int| 0 <= i < j < after.len() implies R::key_of(
            #[trigger] after[i],
        ) != R::key_of(#[trigger] after[j]) by {
            let a = if i < p {
                i
            } else {
                i + 1
            };
            let b = if j < p {
                j
            } else {
                j + 1
            };
            assert(after[i] == rows[a]);
            assert(after[j] == rows[b]);
            assert(R::key_of(rows[a]) != R::key_of(rows[b]));
        }
    }
}

/// Rows without one of them have no key twice if all have none.
proof fn lemma_remove_keeps_distinct<R: Row>(rows: Seq<R::V>, i: int)
    requires
        distinct_keys::<R>(rows),
        0 <= i < rows.len(),
    ensures
        distinct_keys::<R>(rows.remove(i)),
{
    let after = rows.remove(i);
    assert forall|j: int, k: int| 0 <= j < k < after.len() implies R::key_of(#[trigger] after[j])
        != R::key_of(#[trigger] after[k]) by {
        let a = if j < i {
            j
        } else {
            j + 1
        };
        let b = if k < i {
            k
        } else {
            k + 1
        };
        assert(after[j] == rows[a]);
        assert(after[k] == rows[b]);
        assert(R::key_of(rows[a]) != R::key_of(rows[b]));
    }
}

/// A table: rows in the order in which they came, found by their keys. No key stands
/// twice.
#[derive(Debug)]
pub struct Table<R: Row> {
    rows: Vec<R>,
}

impl<R: Row> View for Table<R> {
    type V = Seq<R::V>;

    closed spec fn view(&self) -> Seq<R::V> {
        row_values(self.rows@)
    }
}

impl<R: CopyRow> Clone for Table<R> {
    fn clone(&self) -> (r: Table<R>)
        ensures
            r@ == self@,
    {
        let mut rows: Vec<R> = Vec::new();
        let mut i: usize = 0;
        while i < self.rows.len()
            invariant
                i <= self.rows@.len(),
                row_values(rows@) == self@.take(i as int),
            decreases self.rows.len() - i,
        {
            let row: R = self.rows[i].copy_row();
            let ghost before = row_values(rows@);
            let ghost value = row.row();
            rows.push(row);
            proof {
                assert(row_values(rows@) =~= before.push(value));
                assert(self@.take(i as int).push(self@[i as int]) =~= self@.take(i + 1));
            }
            i = i + 1;
        }
        proof {
            assert(row_values(rows@) =~= self@);
            use_type_invariant(self);
        }
        Table { rows }
    }
}

impl<R: Row> Table<R> {
    #[verifier::type_invariant]
    pub open spec fn each_key_once(self) -> bool {
        distinct_keys::<R>(self@)
    }

    /// A table without rows.
    pub fn empty() -> (t: Table<R>)
        ensures
            t@ == Seq::<R::V>::empty(),
    {
        let t: Table<R> = Table { rows: Vec::new() };
        proof {
            assert(t@ =~= Seq::<R::V>::empty());
        }
        t
    }

    /// The number of rows.
    pub fn len(&self) -> (n: usize)
        ensures
            n == self@.len(),
    {
        self.rows.len()
    }

    /// The row at a position.
    pub fn at(&self, i: usize) -> (r: &R)
        requires
            i < self@.len(),
        ensures
            r.row() == self@[i as int],
    {
        &self.rows[i]
    }

    /// The position of the row with this key, or the number of rows.
    pub fn position(&self, key: u32) -> (i: usize)
        ensures
            i == row_position::<R>(self@, key),
            i <= self@.len(),
    {
        let mut i: usize = 0;
        while i < self.rows.len()
            invariant
                i <= self.rows@.len(),
                forall|j: int| 0 <= j < i ==> R::key_of(#[trigger] self@[j]) != key,
            decreases self.rows.len() - i,
        {
            if self.rows[i].key() == key {
                proof {
                    assert(R::key_of(self@[i as int]) == key);
                    lemma_row_position::<R>(self@, key, i as int);
                }
                return i;
            }
            proof {
                assert(R::key_of(self@[i as int]) != key);
            }
            i = i + 1;
        }
        proof {
            lemma_row_position::<R>(self@, key, i as int);
        }
        i
    }

    /// Whether there is a row with this key.
    pub fn has(&self, key: u32) -> (r: bool)
        ensures
            r == (row_get::<R>(self@, key) is Some),
    {
        self.position(key) < self.rows.len()
    }

    /// The row with this key.
    pub fn get(&self, key: u32) -> (r: Option<&R>)
        ensures
            r matches Some(x) ==> row_get::<R>(self@, key) == Some(x.row()),
            r is None ==> row_get::<R>(self@, key) is None,
    {
        let i: usize = self.position(key);
        if i < self.rows.len() {
            Some(&self.rows[i])
        } else {
            None
        }
    }

    /// Puts a row into the table, in place of the one with the same key.
    pub fn insert(&mut self, row: R)
        ensures
            final(self)@ == row_put::<R>(old(self)@, row.row()),
    {
        let i: usize = self.position(row.key());
        let ghost before = self@;
        let ghost value = row.row();
        proof {
            use_type_invariant(&*self);
            lemma_put_keeps_distinct::<R>(before, value);
        }
        let mut rows: Vec<R> = Vec::new();
        std::mem::swap(&mut rows, &mut self.rows);
        if i < rows.len() {
            rows.set(i, row);
            proof {
                assert(row_values(rows@) =~= before.update(i as int, value));
            }
        } else {
            rows.push(row);
            proof {
                assert(row_values(rows@) =~= before.push(value));
            }
        }
        self.rows = rows;
    }

    /// Takes the row at a position out of the table.
    pub fn remove_at(&mut self, i: usize) -> (r: R)
        requires
            i < old(self)@.len(),
        ensures
            r.row() == old(self)@[i as int],
            final(self)@ == old(self)@.remove(i as int),
    {
        let ghost before = self@;
        proof {
            use_type_invariant(&*self);
            lemma_remove_keeps_distinct::<R>(before, i as int);
        }
        let mut rows: Vec<R> = Vec::new();
        std::mem::swap(&mut rows, &mut self.rows);
        let row: R = rows.remove(i);
        proof {
            assert(row_values(rows@) =~= before.remove(i as int));
        }
        self.rows = rows;
        row
    }

    /// Takes the row with this key out of the table.
    pub fn remove(&mut self, key: u32) -> (r: Option<R>)
        ensures
            final(self)@ == row_drop::<R>(old(self)@, key),
            r matches Some(x) ==> row_get::<R>(old(self)@, key) == Some(x.row()),
            r is None ==> row_get::<R>(old(self)@, key) is None,
    {
        let i: usize = self.position(key);
        if i < self.rows.len() {
            let row: R = self.remove_at(i);
            Some(row)
        } else {
            None
        }
    }
}

/// The keys of all rows, in their order.
pub open spec fn row_keys<R: Row>(rows: Seq<R::V>) -> Seq<u32> {
    Seq::new(rows.len(), |i: int| R::key_of(rows[i]))
}

impl<R: Row> Table<R> {
    /// The keys of all rows.
    pub fn keys(&self) -> (r: Vec<u32>)
        ensures
            r@ == row_keys::<R>(self@),
    {
        let mut r: Vec<u32> = Vec::new();
        let mut i: usize = 0;
        while i < self.rows.len()
            invariant
                i <= self.rows@.len(),
                r@.len() == i,
                forall|j: int| 0 <= j < i ==> #[trigger] r@[j] == R::key_of(self@[j]),
            decreases self.rows.len() - i,
        {
            proof {
                assert(self@[i as int] == self.rows@[i as int].row());
            }
            r.push(self.rows[i].key());
            i = i + 1;
        }
        proof {
            assert(r@ =~= row_keys::<R>(self@));
        }
        r
    }
}

/// The keys of the rows that belong to `owner`, in the order of the rows.
pub open spec fn owned_keys<R: OwnedRow>(rows: Seq<R::V>, owner: u32) -> Seq<u32>
    decreases rows.len(),
{
    if rows.len() == 0 {
        Seq::empty()
    } else if R::owner_of(rows.last()) == owner {
        owned_keys::<R>(rows.drop_last(), owner).push(R::key_of(rows.last()))
    } else {
        owned_keys::<R>(rows.drop_last(), owner)
    }
}

impl<R: OwnedRow> Table<R> {
    /// The keys of the rows that belong to `owner`.
    pub fn keys_owned(&self, owner: u32) -> (r: Vec<u32>)
        ensures
            r@ == owned_keys::<R>(self@, owner),
    {
        let mut r: Vec<u32> = Vec::new();
        let mut i: usize = 0;
        while i < self.rows.len()
            invariant
                i <= self.rows@.len(),
                r@ == owned_keys::<R>(self@.take(i as int), owner),
            decreases self.rows.len() - i,
        {
            proof {
                assert(self@.take(i + 1).drop_last() =~= self@.take(i as int));
                assert(self@.take(i + 1).last() == self.rows@[i as int].row());
            }
            if self.rows[i].owner() == owner {
                r.push(self.rows[i].key());
            }
            i = i + 1;
        }
        proof {
            assert(self@.take(i as int) =~= self@);
        }
        r
    }

    /// Takes out the rows that belong to `owner`.
    pub fn remove_owned(&mut self, owner: u32)
        ensures
            final(self)@ == not_owned::<R>(old(self)@, owner),
    {
        let ghost before = self@;
        let ghost wanted = foreign_to::<R>(owner);
        let ghost mut done: int = 0;
        let mut i: usize = 0;
        proof {
            reveal(Seq::filter);
            assert(before.take(0).filter(wanted) =~= Seq::empty());
            assert(before =~= before.take(0).filter(wanted) + before.skip(0));
        }
        while i < self.rows.len()
            invariant
                wanted == foreign_to::<R>(owner),
                0 <= done <= before.len(),
                i == before.take(done).filter(wanted).len(),
                i <= self.rows@.len(),
                self@ == before.take(done).filter(wanted) + before.skip(done),
            decreases self.rows.len() - i,
        {
            let ghost kept = before.take(done).filter(wanted);
            let ghost now = self@;
            proof {
                assert(now[i as int] == before[done]);
                assert(self.rows@[i as int].row() == now[i as int]);
                reveal(Seq::filter);
                assert(before.take(done + 1).drop_last() =~= before.take(done));
                assert(before.take(done + 1).last() == before[done]);
            }
            if self.rows[i].owner() != owner {
                i = i + 1;
                proof {
                    assert(kept.push(before[done]) + before.skip(done + 1) =~= now);
                }
            } else {
                let _gone: R = self.remove_at(i);
                proof {
                    assert(now.remove(i as int) =~= kept + before.skip(done + 1));
                }
            }
            proof {
                done = done + 1;
            }
        }
        proof {
            assert(done == before.len());
            assert(before.take(done) =~= before);
            assert(self@ =~= before.filter(wanted));
        }
    }
}

// ── Indexes by name ─────────────────────────────────────────────────────────

/// One entry of an index: a name within a scope, and what it leads to.
#[derive(Debug, Clone)]
pub struct NameEntry {
    pub scope: u32,
    pub name: String,
    pub target: u32,
}

/// What a list of entries maps names to; a later entry goes before an earlier one.
pub open spec fn name_map(entries: Seq<NameEntry>) -> Map<(u32, Seq<char>), u32>
    decreases entries.len(),
{
    if entries.len() == 0 {
        Map::empty()
    } else {
        name_map(entries.drop_last()).insert(
            (entries.last().scope, entries.last().name@),
            entries.last().target,
        )
    }
}

/// An index from a scope and a name to one number.
#[derive(Debug, Clone)]
pub struct NameIndex {
    pub entries: Vec<NameEntry>,
}

impl View for NameIndex {
    type V = Map<(u32, Seq<char>), u32>;

    open spec fn view(&self) -> Map<(u32, Seq<char>), u32> {
        name_map(self.entries@)
    }
}

/// What a map holds for a key.
pub open spec fn map_get<K, V>(m: Map<K, V>, key: K) -> Option<V> {
    if m.dom().contains(key) {
        Some(m[key])
    } else {
        None
    }
}

impl NameIndex {
    /// An index without names.
    pub fn empty() -> (r: NameIndex)
        ensures
            r@ == Map::<(u32, Seq<char>), u32>::empty(),
    {
        NameIndex { entries: Vec::new() }
    }

    /// What a name leads to.
    pub fn get(&self, scope: u32, name: &str) -> (r: Option<u32>)
        ensures
            r == map_get(self@, (scope, name@)),
    {
        let mut i: usize = self.entries.len();
        proof {
            assert(self.entries@.take(i as int) =~= self.entries@);
        }
        while i > 0
            invariant
                i <= self.entries@.len(),
                map_get(self@, (scope, name@)) == map_get(
                    name_map(self.entries@.take(i as int)),
                    (scope, name@),
                ),
            decreases i,
        {
            proof {
                assert(self.entries@.take(i as int).drop_last() =~= self.entries@.take(i - 1));
            }
            i = i - 1;
            if self.entries[i].scope == scope && same_text(self.entries[i].name.as_str(), name) {
                return Some(self.entries[i].target);
            }
        }
        None
    }

    /// Takes a name out of the index.
    pub fn remove(&mut self, scope: u32, name: &str)
        ensures
            final(self)@ == old(self)@.remove((scope, name@)),
    {
        let mut kept: Vec<NameEntry> = Vec::new();
        let mut i: usize = 0;
        proof {
            assert(name_map(kept@) =~= name_map(self.entries@.take(0)).remove((scope, name@)));
        }
        while i < self.entries.len()
            invariant
                i <= self.entries@.len(),
                name_map(kept@) == name_map(self.entries@.take(i as int)).remove((scope, name@)),
                *self == *old(self),
            decreases self.entries.len() - i,
        {
            proof {
                assert(self.entries@.take(i + 1).drop_last() =~= self.entries@.take(i as int));
            }
            let same: bool = self.entries[i].scope == scope && same_text(
                self.entries[i].name.as_str(),
                name,
            );
            let ghost earlier = kept@;
            if !same {
                kept.push(
                    NameEntry {
                        scope: self.entries[i].scope,
                        name: self.entries[i].name.clone(),
                        target: self.entries[i].target,
                    },
                );
                proof {
                    assert(kept@.drop_last() =~= earlier);
                }
            }
            proof {
                assert(name_map(kept@) =~= name_map(self.entries@.take(i + 1)).remove(
                    (scope, name@),
                ));
            }
            i = i + 1;
        }
        proof {
            assert(self.entries@.take(i as int) =~= self.entries@);
        }
        self.entries = kept;
    }

    /// Makes a name lead to `target`.
    pub fn insert(&mut self, scope: u32, name: &str, target: u32)
        ensures
            final(self)@ == old(self)@.insert((scope, name@), target),
    {
        self.remove(scope, name);
        let ghost earlier = self.entries@;
        self.entries.push(NameEntry { scope, name: name.to_owned(), target });
        proof {
            assert(self.entries@.drop_last() =~= earlier);
            assert(self@ =~= old(self)@.insert((scope, name@), target));
        }
    }
}

/// One entry of an index with several targets for a name.
#[derive(Debug, Clone)]
pub struct ListEntry {
    pub scope: u32,
    pub name: String,
    pub targets: Vec<u32>,
}

/// What a list of entries maps names to; a later entry goes before an earlier one.
pub open spec fn list_map(entries: Seq<ListEntry>) -> Map<(u32, Seq<char>), Seq<u32>>
    decreases entries.len(),
{
    if entries.len() == 0 {
        Map::empty()
    } else {
        list_map(entries.drop_last()).insert(
            (entries.last().scope, entries.last().name@),
            entries.last().targets@,
        )
    }
}

/// An index from a scope and a name to several numbers.
#[derive(Debug, Clone)]
pub struct ListIndex {
    pub entries: Vec<ListEntry>,
}

impl View for ListIndex {
    type V = Map<(u32, Seq<char>), Seq<u32>>;

    open spec fn view(&self) -> Map<(u32, Seq<char>), Seq<u32>> {
        list_map(self.entries@)
    }
}

/// The numbers that a name leads to, none where it is not in the index.
pub open spec fn list_get(
    m: Map<(u32, Seq<char>), Seq<u32>>,
    scope: u32,
    name: Seq<char>,
) -> Seq<u32> {
    if m.dom().contains((scope, name)) {
        m[(scope, name)]
    } else {
        Seq::empty()
    }
}

/// The index with `target` behind the targets of a name.
pub open spec fn list_add(
    m: Map<(u32, Seq<char>), Seq<u32>>,
    scope: u32,
    name: Seq<char>,
    target: u32,
) -> Map<(u32, Seq<char>), Seq<u32>> {
    m.insert((scope, name), list_get(m, scope, name).push(target))
}

/// The numbers of a list that differ from `n`.
pub open spec fn without(s: Seq<u32>, n: u32) -> Seq<u32> {
    s.filter(|x: u32| x != n)
}

/// The index with `target` taken from the targets of a name; a name without
/// targets leaves the index.
pub open spec fn list_remove(
    m: Map<(u32, Seq<char>), Seq<u32>>,
    scope: u32,
    name: Seq<char>,
    target: u32,
) -> Map<(u32, Seq<char>), Seq<u32>> {
    let rest = without(list_get(m, scope, name), target);
    if !m.dom().contains((scope, name)) {
        m
    } else if rest.len() == 0 {
        m.remove((scope, name))
    } else {
        m.insert((scope, name), rest)
    }
}

/// A copy of a list of numbers.
pub fn copy_numbers(v: &Vec<u32>) -> (r: Vec<u32>)
    ensures
        r@ == v@,
{
    let mut r: Vec<u32> = Vec::new();
    let mut i: usize = 0;
    while i < v.len()
        invariant
            i <= v@.len(),
            r@ == v@.take(i as int),
        decreases v.len() - i,
    {
        r.push(v[i]);
        i = i + 1;
    }
    proof {
        assert(v@.take(i as int) =~= v@);
    }
    r
}

/// The numbers of a list that differ from `n`.
pub fn numbers_without(v: &Vec<u32>, n: u32) -> (r: Vec<u32>)
    ensures
        r@ == without(v@, n),
{
    let mut r: Vec<u32> = Vec::new();
    let mut i: usize = 0;
    proof {
        reveal(Seq::filter);
    }
    while i < v.len()
        invariant
            i <= v@.len(),
            r@ == without(v@.take(i as int), n),
        decreases v.len() - i,
    {
        proof {
            reveal(Seq::filter);
            assert(v@.take(i + 1).drop_last() =~= v@.take(i as int));
        }
        if v[i] != n {
            r.push(v[i]);
        }
        i = i + 1;
    }
    proof {
        assert(v@.take(i as int) =~= v@);
    }
    r
}

impl ListIndex {
    /// An index without names.
    pub fn empty() -> (r: ListIndex)
        ensures
            r@ == Map::<(u32, Seq<char>), Seq<u32>>::empty(),
    {
        ListIndex { entries: Vec::new() }
    }

    /// What a name leads to.
    pub fn get(&self, scope: u32, name: &str) -> (r: Vec<u32>)
        ensures
            r@ == list_get(self@, scope, name@),
            r@.len() > 0 ==> self@.dom().contains((scope, name@)),
    {
        match self.find(scope, name) {
            Some(v) => v,
            None => {
                let r: Vec<u32> = Vec::new();
                r
            },
        }
    }

    fn find(&self, scope: u32, name: &str) -> (r: Option<Vec<u32>>)
        ensures
            match r {
                Some(v) => map_get(self@, (scope, name@)) == Some(v@),
                None => map_get(self@, (scope, name@)) is None,
            },
    {
        let mut i: usize = self.entries.len();
        proof {
            assert(self.entries@.take(i as int) =~= self.entries@);
        }
        while i > 0
            invariant
                i <= self.entries@.len(),
                map_get(self@, (scope, name@)) == map_get(
                    list_map(self.entries@.take(i as int)),
                    (scope, name@),
                ),
            decreases i,
        {
            proof {
                assert(self.entries@.take(i as int).drop_last() =~= self.entries@.take(i - 1));
            }
            i = i - 1;
            if self.entries[i].scope == scope && same_text(self.entries[i].name.as_str(), name) {
                return Some(copy_numbers(&self.entries[i].targets));
            }
        }
        None
    }

    /// Takes a name with all its targets out of the index.
    fn take_out(&mut self, scope: u32, name: &str)
        ensures
            final(self)@ == old(self)@.remove((scope, name@)),
    {
        let mut kept: Vec<ListEntry> = Vec::new();
        let mut i: usize = 0;
        proof {
            assert(list_map(kept@) =~= list_map(self.entries@.take(0)).remove((scope, name@)));
        }
        while i < self.entries.len()
            invariant
                i <= self.entries@.len(),
                list_map(kept@) == list_map(self.entries@.take(i as int)).remove((scope, name@)),
                *self == *old(self),
            decreases self.entries.len() - i,
        {
            proof {
                assert(self.entries@.take(i + 1).drop_last() =~= self.entries@.take(i as int));
            }
            let same: bool = self.entries[i].scope == scope && same_text(
                self.entries[i].name.as_str(),
                name,
            );
            let ghost earlier = kept@;
            if !same {
                kept.push(
                    ListEntry {
                        scope: self.entries[i].scope,
                        name: self.entries[i].name.clone(),
                        targets: copy_numbers(&self.entries[i].targets),
                    },
                );
                proof {
                    assert(kept@.drop_last() =~= earlier);
                }
            }
            proof {
                assert(list_map(kept@) =~= list_map(self.entries@.take(i + 1)).remove(
                    (scope, name@),
                ));
            }
            i = i + 1;
        }
        proof {
            assert(self.entries@.take(i as int) =~= self.entries@);
        }
        self.entries = kept;
    }

    fn put(&mut self, scope: u32, name: &str, targets: Vec<u32>)
        ensures
            final(self)@ == old(self)@.insert((scope, name@), targets@),
    {
        self.take_out(scope, name);
        let ghost earlier = self.entries@;
        self.entries.push(ListEntry { scope, name: name.to_owned(), targets });
        proof {
            assert(self.entries@.drop_last() =~= earlier);
            assert(self@ =~= old(self)@.insert((scope, name@), targets@));
        }
    }

    /// Adds a target behind those of a name.
    pub fn add_target(&mut self, scope: u32, name: &str, target: u32)
        ensures
            final(self)@ == list_add(old(self)@, scope, name@, target),
    {
        let mut targets: Vec<u32> = self.get(scope, name);
        targets.push(target);
        self.put(scope, name, targets);
    }

    /// Takes a target from a name, and the name with its last target.
    pub fn remove_target(&mut self, scope: u32, name: &str, target: u32)
        ensures
            final(self)@ == list_remove(old(self)@, scope, name@, target),
    {
        match self.find(scope, name) {
            Some(targets) => {
                let rest: Vec<u32> = numbers_without(&targets, target);
                if rest.len() == 0 {
                    self.take_out(scope, name);
                } else {
                    self.put(scope, name, rest);
                }
            },
            None => {},
        }
    }
}

/// An index from a pair of numbers to one number.
#[derive(Debug, Clone)]
pub struct PairIndex {
    pub entries: Vec<(u32, u32, u32)>,
}

/// What a list of entries maps pairs to; a later entry goes before an earlier one.
pub open spec fn pair_map(entries: Seq<(u32, u32, u32)>) -> Map<(u32, u32), u32>
    decreases entries.len(),
{
    if entries.len() == 0 {
        Map::empty()
    } else {
        pair_map(entries.drop_last()).insert(
            (entries.last().0, entries.last().1),
            entries.last().2,
        )
    }
}

impl View for PairIndex {
    type V = Map<(u32, u32), u32>;

    open spec fn view(&self) -> Map<(u32, u32), u32> {
        pair_map(self.entries@)
    }
}

impl PairIndex {
    /// An index without pairs.
    pub fn empty() -> (r: PairIndex)
        ensures
            r@ == Map::<(u32, u32), u32>::empty(),
    {
        PairIndex { entries: Vec::new() }
    }

    /// What a pair leads to.
    pub fn get(&self, a: u32, b: u32) -> (r: Option<u32>)
        ensures
            r == map_get(self@, (a, b)),
    {
        let mut i: usize = self.entries.len();
        proof {
            assert(self.entries@.take(i as int) =~= self.entries@);
        }
        while i > 0
            invariant
                i <= self.entries@.len(),
                map_get(self@, (a, b)) == map_get(pair_map(self.entries@.take(i as int)), (a, b)),
            decreases i,
        {
            proof {
                assert(self.entries@.take(i as int).drop_last() =~= self.entries@.take(i - 1));
            }
            i = i - 1;
            if self.entries[i].0 == a && self.entries[i].1 == b {
                return Some(self.entries[i].2);
            }
        }
        None
    }

    /// Takes a pair out of the index.
    pub fn remove(&mut self, a: u32, b: u32)
        ensures
            final(self)@ == old(self)@.remove((a, b)),
    {
        let mut kept: Vec<(u32, u32, u32)> = Vec::new();
        let mut i: usize = 0;
        proof {
            assert(pair_map(kept@) =~= pair_map(self.entries@.take(0)).remove((a, b)));
        }
        while i < self.entries.len()
            invariant
                i <= self.entries@.len(),
                pair_map(kept@) == pair_map(self.entries@.take(i as int)).remove((a, b)),
                *self == *old(self),
            decreases self.entries.len() - i,
        {
            proof {
                assert(self.entries@.take(i + 1).drop_last() =~= self.entries@.take(i as int));
            }
            let e: (u32, u32, u32) = self.entries[i];
            let ghost earlier = kept@;
            if !(e.0 == a && e.1 == b) {
                kept.push(e);
                proof {
                    assert(kept@.drop_last() =~= earlier);
                }
            }
            proof {
                assert(pair_map(kept@) =~= pair_map(self.entries@.take(i + 1)).remove((a, b)));
            }
            i = i + 1;
        }
        proof {
            assert(self.entries@.take(i as int) =~= self.entries@);
        }
        self.entries = kept;
    }

    /// Makes a pair lead to `target`.
    pub fn insert(&mut self, a: u32, b: u32, target: u32)
        ensures
            final(self)@ == old(self)@.insert((a, b), target),
    {
        self.remove(a, b);
        let ghost earlier = self.entries@;
        self.entries.push((a, b, target));
        proof {
            assert(self.entries@.drop_last() =~= earlier);
            assert(self@ =~= old(self)@.insert((a, b), target));
        }
    }
}

} // verus!
