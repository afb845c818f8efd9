//! `GROUP BY` clauses with `GROUPING SETS`, `ROLLUP` and `CUBE`.
//!
//! Such a clause stands for several grouping sets. A column that is in some of
//! them and not in others is null in the rows of the sets that leave it out.

use crate::ast::{extract_string_fields, part_names, GroupingSet, GroupingSetKind, Node};
use crate::expr::column_parts;
use crate::infer::split_column;
use crate::nullability::has_pair;
use crate::scope::{resolved_column, Scope, SourceView};
use crate::text::same_text;
use vstd::prelude::*;

verus! {

/// Alias and name of a column.
pub type ColumnKey = (Seq<char>, Seq<char>);

/// A set of columns, by alias and name.
#[derive(Debug)]
pub struct ColumnSet {
    pub columns: Vec<(String, String)>,
}

/// The columns of a list.
pub open spec fn key_set(list: Seq<(String, String)>) -> Set<ColumnKey> {
    Set::new(|c: ColumnKey| has_pair(list, c.0, c.1))
}

/// No column of a list stands in it twice.
pub open spec fn each_once(list: Seq<(String, String)>) -> bool {
    forall|i: int, j: int|
        0 <= i < j < list.len() ==> !((#[trigger] list[i]).0@ == (#[trigger] list[j]).0@
            && list[i].1@ == list[j].1@)
}

impl View for ColumnSet {
    type V = Set<ColumnKey>;

    open spec fn view(&self) -> Set<ColumnKey> {
        key_set(self.columns@)
    }
}

/// The views of several sets.
pub open spec fn set_views(sets: Seq<ColumnSet>) -> Seq<Set<ColumnKey>> {
    sets.map_values(|s: ColumnSet| s@)
}

/// What the grouping sets of a query do to the nullability of its columns.
#[derive(Debug)]
pub struct GroupingExpansion {
    /// The columns that some grouping sets have and others do not.
    pub omitted: Vec<(String, String)>,
    /// Whether some grouping set is empty, so that it aggregates the whole input.
    pub has_empty_set: bool,
}

impl Default for GroupingExpansion {
    fn default() -> (r: GroupingExpansion)
        ensures
            key_set(r.omitted@) == Set::<ColumnKey>::empty(),
            each_once(r.omitted@),
            !r.has_empty_set,
    {
        let r: GroupingExpansion = GroupingExpansion { omitted: Vec::new(), has_empty_set: false };
        proof {
            assert(key_set(r.omitted@) =~= Set::empty());
        }
        r
    }
}

/// The column that a node names, if it names one; other expressions give nothing.
pub open spec fn single(node: Node, sources: Seq<SourceView>) -> Set<ColumnKey> {
    match node {
        Node::ColumnRef(cr) => match column_parts(part_names(cr.fields@)) {
            Some((table, column)) => match resolved_column(sources, table, column) {
                Ok(c) => Set::empty().insert((c.table_alias, c.name)),
                Err(_) => Set::empty(),
            },
            None => Set::empty(),
        },
        _ => Set::empty(),
    }
}

/// The columns that the first `n` nodes name.
pub open spec fn first_singles(content: Seq<Node>, n: int, sources: Seq<SourceView>) -> Set<
    ColumnKey,
>
    decreases n,
{
    if n <= 0 {
        Set::empty()
    } else {
        first_singles(content, n - 1, sources).union(single(content[n - 1], sources))
    }
}

/// The grouping sets of `ROLLUP`: all columns, then all but the last, down to none.
pub open spec fn rollup(content: Seq<Node>, sources: Seq<SourceView>) -> Seq<Set<ColumnKey>> {
    Seq::new(
        content.len() + 1,
        |k: int| first_singles(content, content.len() - k, sources),
    )
}

/// Each set of a list with the same columns added.
pub open spec fn each_with(sets: Seq<Set<ColumnKey>>, more: Set<ColumnKey>) -> Seq<Set<ColumnKey>> {
    sets.map_values(|s: Set<ColumnKey>| s.union(more))
}

/// The grouping sets of `CUBE` over the first `n` nodes: all their subsets, first
/// those without the last node.
pub open spec fn cube(content: Seq<Node>, n: int, sources: Seq<SourceView>) -> Seq<Set<ColumnKey>>
    decreases n,
{
    if n <= 0 {
        seq![Set::empty()]
    } else {
        let without = cube(content, n - 1, sources);
        without + each_with(without, single(content[n - 1], sources))
    }
}

/// The grouping sets that an entry of a `GROUP BY` stands for.
pub open spec fn alternatives(node: Node, sources: Seq<SourceView>) -> Seq<Set<ColumnKey>>
    decreases node, 1nat, 0int,
{
    match node {
        Node::GroupingSet(gs) => set_alternatives(*gs, sources),
        _ => seq![single(node, sources)],
    }
}

/// The grouping sets that a grouping set clause stands for.
pub open spec fn set_alternatives(gs: GroupingSet, sources: Seq<SourceView>) -> Seq<Set<ColumnKey>>
    decreases gs, 0nat, 0int,
{
    match gs.kind {
        GroupingSetKind::Simple => seq![
            first_singles(gs.content@, gs.content@.len() as int, sources),
        ],
        GroupingSetKind::Rollup => rollup(gs.content@, sources),
        GroupingSetKind::Cube => cube(gs.content@, gs.content@.len() as int, sources),
        GroupingSetKind::Sets => {
            let all = listed_alternatives(gs.content@, 0, sources);
            if all.len() == 0 {
                seq![Set::empty()]
            } else {
                all
            }
        },
        _ => seq![Set::empty()],
    }
}

/// The grouping sets of the nodes from `i` on, one node after the other.
pub open spec fn listed_alternatives(
    content: Seq<Node>,
    i: int,
    sources: Seq<SourceView>,
) -> Seq<Set<ColumnKey>>
    decreases content, 0nat, content.len() - i,
{
    if 0 <= i < content.len() {
        alternatives(content[i], sources) + listed_alternatives(content, i + 1, sources)
    } else {
        Seq::empty()
    }
}

/// The unions of a set of the first list with one of the second.
pub open spec fn unions(left: Seq<Set<ColumnKey>>, right: Seq<Set<ColumnKey>>) -> Seq<
    Set<ColumnKey>,
>
    decreases left.len(),
{
    if left.len() == 0 {
        Seq::empty()
    } else {
        unions(left.drop_last(), right) + each_with(right, left.last())
    }
}

/// The grouping sets of the first `n` entries of a `GROUP BY`: one of each entry,
/// taken together, in every combination.
pub open spec fn grouping_sets(group: Seq<Node>, n: int, sources: Seq<SourceView>) -> Seq<
    Set<ColumnKey>,
>
    decreases n,
{
    if n <= 0 {
        seq![Set::empty()]
    } else {
        unions(grouping_sets(group, n - 1, sources), alternatives(group[n - 1], sources))
    }
}

/// Whether a `GROUP BY` has an entry with grouping sets.
pub open spec fn has_grouping_sets(group: Seq<Node>) -> bool {
    exists|i: int| 0 <= i < group.len() && #[trigger] group[i] is GroupingSet
}

/// The columns that are in some of the sets and not in all of them.
pub open spec fn partly_present(sets: Seq<Set<ColumnKey>>) -> Set<ColumnKey> {
    Set::new(
        |c: ColumnKey|
            (exists|i: int| 0 <= i < sets.len() && (#[trigger] sets[i]).contains(c)) && (exists|
                j: int,
            |
                0 <= j < sets.len() && !(#[trigger] sets[j]).contains(c)),
    )
}

/// Whether one of the sets is empty.
pub open spec fn some_empty(sets: Seq<Set<ColumnKey>>) -> bool {
    exists|i: int| 0 <= i < sets.len() && (#[trigger] sets[i]) == Set::<ColumnKey>::empty()
}

/// The columns that a `GROUP BY` leaves out of some of its grouping sets.
pub open spec fn omitted_columns(group: Seq<Node>, sources: Seq<SourceView>) -> Set<ColumnKey> {
    if has_grouping_sets(group) {
        partly_present(grouping_sets(group, group.len() as int, sources))
    } else {
        Set::empty()
    }
}

/// Whether a `GROUP BY` with grouping sets has an empty one.
pub open spec fn has_empty_grouping_set(group: Seq<Node>, sources: Seq<SourceView>) -> bool {
    has_grouping_sets(group) && some_empty(grouping_sets(group, group.len() as int, sources))
}

// ── Sets of columns ─────────────────────────────────────────────────────────

/// Whether a list of columns has one.
pub(crate) fn has_column(list: &Vec<(String, String)>, table: &str, column: &str) -> (r: bool)
    ensures
        r == key_set(list@).contains((table@, column@)),
{
    let mut i: usize = 0;
    while i < list.len()
        invariant
            i <= list@.len(),
            forall|k: int|
                0 <= k < i ==> !((#[trigger] list@[k]).0@ == table@ && list@[k].1@ == column@),
        decreases list.len() - i,
    {
        let p: &(String, String) = &list[i];
        if same_text(p.0.as_str(), table) && same_text(p.1.as_str(), column) {
            proof {
                assert(list@[i as int].0@ == table@);
            }
            return true;
        }
        i = i + 1;
    }
    false
}

proof fn lemma_key_set_push(list: Seq<(String, String)>, p: (String, String))
    ensures
        key_set(list.push(p)) == key_set(list).insert((p.0@, p.1@)),
{
    let more = list.push(p);
    assert forall|c: ColumnKey| #[trigger]
        key_set(more).contains(c) == key_set(list).insert((p.0@, p.1@)).contains(c) by {
        if has_pair(list, c.0, c.1) {
            let i = choose|i: int|
                0 <= i < list.len() && (#[trigger] list[i]).0@ == c.0 && list[i].1@ == c.1;
            assert(more[i].0@ == c.0);
        }
        if c == (p.0@, p.1@) {
            assert(more[list.len() as int].0@ == c.0);
        }
        if has_pair(more, c.0, c.1) {
            let i = choose|i: int|
                0 <= i < more.len() && (#[trigger] more[i]).0@ == c.0 && more[i].1@ == c.1;
            if i < list.len() {
                assert(list[i].0@ == c.0);
            }
        }
    }
    assert(key_set(more) =~= key_set(list).insert((p.0@, p.1@)));
}

impl ColumnSet {
    fn empty() -> (r: ColumnSet)
        ensures
            r@ == Set::<ColumnKey>::empty(),
            each_once(r.columns@),
    {
        let r: ColumnSet = ColumnSet { columns: Vec::new() };
        proof {
            assert(r@ =~= Set::empty());
        }
        r
    }

    fn contains(&self, table: &str, column: &str) -> (r: bool)
        ensures
            r == self@.contains((table@, column@)),
    {
        has_column(&self.columns, table, column)
    }

    fn is_empty(&self) -> (r: bool)
        ensures
            r == (self@ == Set::<ColumnKey>::empty()),
    {
        if self.columns.len() == 0 {
            proof {
                assert(self@ =~= Set::empty());
            }
            true
        } else {
            proof {
                let p = self.columns@[0];
                assert(has_pair(self.columns@, p.0@, p.1@));
                assert(self@.contains((p.0@, p.1@)));
            }
            false
        }
    }

    fn insert(&mut self, table: &str, column: &str)
        ensures
            final(self)@ == old(self)@.insert((table@, column@)),
            each_once(old(self).columns@) ==> each_once(final(self).columns@),
    {
        if self.contains(table, column) {
            proof {
                assert(self@ =~= self@.insert((table@, column@)));
            }
            return ;
        }
        let p: (String, String) = (table.to_owned(), column.to_owned());
        proof {
            lemma_key_set_push(self.columns@, p);
            let list = self.columns@;
            assert forall|i: int| 0 <= i < list.len() implies !((#[trigger] list[i]).0@ == table@
                && list[i].1@ == column@) by {
                if list[i].0@ == table@ && list[i].1@ == column@ {
                    assert(has_pair(list, table@, column@));
                }
            }
        }
        self.columns.push(p);
    }

    /// Adds the columns of another set.
    fn extend(&mut self, other: &ColumnSet)
        ensures
            final(self)@ == old(self)@.union(other@),
    {
        let ghost before = self@;
        let mut i: usize = 0;
        proof {
            assert(key_set(other.columns@.take(0)) =~= Set::empty());
            assert(self@ =~= before.union(key_set(other.columns@.take(0))));
        }
        while i < other.columns.len()
            invariant
                i <= other.columns@.len(),
                self@ == before.union(key_set(other.columns@.take(i as int))),
            decreases other.columns.len() - i,
        {
            let p: &(String, String) = &other.columns[i];
            self.insert(p.0.as_str(), p.1.as_str());
            proof {
                let c = other.columns@[i as int];
                assert(other.columns@.take(i + 1) =~= other.columns@.take(i as int).push(c));
                lemma_key_set_push(other.columns@.take(i as int), c);
                assert(self@ =~= before.union(key_set(other.columns@.take(i + 1))));
            }
            i = i + 1;
        }
        proof {
            assert(other.columns@.take(i as int) =~= other.columns@);
        }
    }

    fn copy(&self) -> (r: ColumnSet)
        ensures
            r@ == self@,
    {
        let mut r: ColumnSet = ColumnSet::empty();
        r.extend(self);
        proof {
            assert(r@ =~= self@);
        }
        r
    }
}

// ── Expansion ───────────────────────────────────────────────────────────────

fn singleton_set(node: &Node, scope: &Scope) -> (r: ColumnSet)
    ensures
        r@ == single(*node, scope@),
{
    let mut r: ColumnSet = ColumnSet::empty();
    match node {
        Node::ColumnRef(cr) => {
            let parts: Vec<String> = extract_string_fields(&cr.fields);
            match split_column(&parts) {
                Some((table, column)) => match scope.resolve_column(table, column) {
                    Ok(c) => r.insert(c.table_alias.as_str(), c.name.as_str()),
                    Err(_) => {},
                },
                None => {},
            }
        },
        _ => {},
    }
    r
}

fn first_columns(content: &Vec<Node>, n: usize, scope: &Scope) -> (r: ColumnSet)
    requires
        n <= content@.len(),
    ensures
        r@ == first_singles(content@, n as int, scope@),
{
    let mut r: ColumnSet = ColumnSet::empty();
    let mut i: usize = 0;
    while i < n
        invariant
            i <= n <= content@.len(),
            r@ == first_singles(content@, i as int, scope@),
        decreases n - i,
    {
        r.extend(&singleton_set(&content[i], scope));
        i = i + 1;
    }
    r
}

fn expand_rollup(content: &Vec<Node>, scope: &Scope) -> (r: Vec<ColumnSet>)
    ensures
        set_views(r@) == rollup(content@, scope@),
{
    let mut r: Vec<ColumnSet> = Vec::new();
    let n: usize = content.len();
    let mut k: usize = 0;
    while k < n
        invariant
            k <= n == content@.len(),
            set_views(r@) == rollup(content@, scope@).take(k as int),
        decreases n - k,
    {
        let s: ColumnSet = first_columns(content, n - k, scope);
        let ghost before = r@;
        r.push(s);
        proof {
            assert(set_views(r@) =~= set_views(before).push(s@));
            assert(rollup(content@, scope@).take(k + 1) =~= rollup(
                content@,
                scope@,
            ).take(k as int).push(rollup(content@, scope@)[k as int]));
        }
        k = k + 1;
    }
    let s: ColumnSet = first_columns(content, 0, scope);
    let ghost before = r@;
    r.push(s);
    proof {
        assert(set_views(r@) =~= set_views(before).push(s@));
        assert(set_views(r@) =~= rollup(content@, scope@));
    }
    r
}

/// Adds to a list of sets each set of another list, with the same columns added.
fn push_each_with(r: &mut Vec<ColumnSet>, sets: &Vec<ColumnSet>, more: &ColumnSet)
    ensures
        set_views(final(r)@) == set_views(old(r)@) + each_with(set_views(sets@), more@),
{
    let ghost added = each_with(set_views(sets@), more@);
    let ghost start = set_views(r@);
    let mut i: usize = 0;
    proof {
        assert(start + added.take(0) =~= start);
    }
    while i < sets.len()
        invariant
            i <= sets@.len(),
            added == each_with(set_views(sets@), more@),
            set_views(r@) == start + added.take(i as int),
        decreases sets.len() - i,
    {
        let mut s: ColumnSet = sets[i].copy();
        s.extend(more);
        let ghost before = r@;
        r.push(s);
        proof {
            assert(set_views(r@) =~= set_views(before).push(s@));
            assert(added[i as int] == s@);
            assert(start + added.take(i + 1) =~= (start + added.take(i as int)).push(s@));
        }
        i = i + 1;
    }
    proof {
        assert(added.take(i as int) =~= added);
    }
}

fn copy_sets(sets: &Vec<ColumnSet>) -> (r: Vec<ColumnSet>)
    ensures
        set_views(r@) == set_views(sets@),
{
    let mut r: Vec<ColumnSet> = Vec::new();
    let none: ColumnSet = ColumnSet::empty();
    push_each_with(&mut r, sets, &none);
    proof {
        assert(each_with(set_views(sets@), none@) =~= set_views(sets@)) by {
            assert forall|i: int| 0 <= i < sets@.len() implies #[trigger] each_with(
                set_views(sets@),
                none@,
            )[i] == set_views(sets@)[i] by {
                assert(sets@[i]@.union(none@) =~= sets@[i]@);
            }
        }
        assert(set_views(r@) =~= set_views(sets@));
    }
    r
}

fn expand_cube(content: &Vec<Node>, scope: &Scope) -> (r: Vec<ColumnSet>)
    ensures
        set_views(r@) == cube(content@, content@.len() as int, scope@),
{
    let mut r: Vec<ColumnSet> = Vec::new();
    r.push(ColumnSet::empty());
    proof {
        assert(set_views(r@) =~= seq![Set::empty()]);
    }
    let mut i: usize = 0;
    while i < content.len()
        invariant
            i <= content@.len(),
            set_views(r@) == cube(content@, i as int, scope@),
        decreases content.len() - i,
    {
        let without: Vec<ColumnSet> = copy_sets(&r);
        push_each_with(&mut r, &without, &singleton_set(&content[i], scope));
        i = i + 1;
    }
    r
}

fn alternatives_for(node: &Node, scope: &Scope) -> (r: Vec<ColumnSet>)
    ensures
        set_views(r@) == alternatives(*node, scope@),
    decreases node, 1nat,
{
    match node {
        Node::GroupingSet(gs) => alternatives_for_grouping_set(gs, scope),
        _ => {
            let mut r: Vec<ColumnSet> = Vec::new();
            r.push(singleton_set(node, scope));
            proof {
                assert(set_views(r@) =~= seq![single(*node, scope@)]);
            }
            r
        },
    }
}

fn alternatives_for_grouping_set(gs: &GroupingSet, scope: &Scope) -> (r: Vec<ColumnSet>)
    ensures
        set_views(r@) == set_alternatives(*gs, scope@),
    decreases gs, 0nat,
{
    let ghost sources = scope@;
    let mut r: Vec<ColumnSet> = Vec::new();
    match gs.kind {
        GroupingSetKind::Simple => {
            r.push(first_columns(&gs.content, gs.content.len(), scope));
            proof {
                assert(set_views(r@) =~= seq![
                    first_singles(gs.content@, gs.content@.len() as int, sources),
                ]);
            }
        },
        GroupingSetKind::Rollup => {
            r = expand_rollup(&gs.content, scope);
        },
        GroupingSetKind::Cube => {
            r = expand_cube(&gs.content, scope);
        },
        GroupingSetKind::Sets => {
            let ghost all = listed_alternatives(gs.content@, 0, sources);
            let mut i: usize = 0;
            proof {
                assert(set_views(r@) + all =~= all);
            }
            while i < gs.content.len()
                invariant
                    i <= gs.content@.len(),
                    sources == scope@,
                    all == set_views(r@) + listed_alternatives(gs.content@, i as int, sources),
                decreases gs.content.len() - i,
            {
                proof {
                    assert(decreases_to!(gs => gs.content));
                    assert(decreases_to!(gs.content => gs.content@[i as int]));
                }
                let mut more: Vec<ColumnSet> = alternatives_for(&gs.content[i], scope);
                let ghost before = r@;
                let ghost added = more@;
                r.append(&mut more);
                proof {
                    assert(set_views(r@) =~= set_views(before) + set_views(added));
                    assert(all =~= set_views(r@) + listed_alternatives(
                        gs.content@,
                        i + 1,
                        sources,
                    ));
                }
                i = i + 1;
            }
            proof {
                assert(all =~= set_views(r@));
            }
            if r.len() == 0 {
                r.push(ColumnSet::empty());
                proof {
                    assert(set_views(r@) =~= seq![Set::empty()]);
                }
            }
        },
        _ => {
            r.push(ColumnSet::empty());
            proof {
                assert(set_views(r@) =~= seq![Set::empty()]);
            }
        },
    }
    r
}

fn combine(left: &Vec<ColumnSet>, right: &Vec<ColumnSet>) -> (r: Vec<ColumnSet>)
    ensures
        set_views(r@) == unions(set_views(left@), set_views(right@)),
{
    let ghost lefts = set_views(left@);
    let mut r: Vec<ColumnSet> = Vec::new();
    let mut i: usize = 0;
    proof {
        assert(set_views(r@) =~= Seq::empty());
    }
    while i < left.len()
        invariant
            i <= left@.len(),
            lefts == set_views(left@),
            set_views(r@) == unions(lefts.take(i as int), set_views(right@)),
        decreases left.len() - i,
    {
        push_each_with(&mut r, right, &left[i]);
        proof {
            assert(lefts.take(i + 1).drop_last() =~= lefts.take(i as int));
        }
        i = i + 1;
    }
    proof {
        assert(lefts.take(i as int) =~= lefts);
    }
    r
}

fn in_every_set(sets: &Vec<ColumnSet>, table: &str, column: &str) -> (r: bool)
    ensures
        r == forall|j: int|
            0 <= j < sets@.len() ==> (#[trigger] set_views(sets@)[j]).contains((table@, column@)),
{
    let mut j: usize = 0;
    while j < sets.len()
        invariant
            j <= sets@.len(),
            forall|k: int|
                0 <= k < j ==> (#[trigger] set_views(sets@)[k]).contains((table@, column@)),
        decreases sets.len() - j,
    {
        if !sets[j].contains(table, column) {
            proof {
                assert(!set_views(sets@)[j as int].contains((table@, column@)));
            }
            return false;
        }
        j = j + 1;
    }
    true
}

/// The columns that are in some of the sets and not in all of them.
fn find_partly_present(sets: &Vec<ColumnSet>) -> (r: Vec<(String, String)>)
    ensures
        key_set(r@) == partly_present(set_views(sets@)),
        each_once(r@),
{
    let mut all: ColumnSet = ColumnSet::empty();
    let ghost views = set_views(sets@);
    let mut i: usize = 0;
    while i < sets.len()
        invariant
            i <= sets@.len(),
            views == set_views(sets@),
            forall|c: ColumnKey| #[trigger]
                all@.contains(c) <==> exists|k: int|
                    0 <= k < i && (#[trigger] views[k]).contains(c),
        decreases sets.len() - i,
    {
        let ghost before = all@;
        all.extend(&sets[i]);
        proof {
            assert forall|c: ColumnKey| #[trigger]
                all@.contains(c) <==> exists|k: int|
                    0 <= k < i + 1 && (#[trigger] views[k]).contains(c) by {
                if before.contains(c) {
                    let k = choose|k: int| 0 <= k < i && (#[trigger] views[k]).contains(c);
                    assert(views[k].contains(c));
                }
                if sets@[i as int]@.contains(c) {
                    assert(views[i as int].contains(c));
                }
            }
        }
        i = i + 1;
    }
    let mut r: ColumnSet = ColumnSet::empty();
    let ghost cols = all.columns@;
    let mut k: usize = 0;
    proof {
        assert(key_set(cols.take(0)) =~= Set::empty());
    }
    while k < all.columns.len()
        invariant
            k <= cols.len(),
            cols == all.columns@,
            views == set_views(sets@),
            each_once(r.columns@),
            forall|c: ColumnKey| #[trigger]
                r@.contains(c) <==> key_set(cols.take(k as int)).contains(c) && !(forall|j: int|
                    0 <= j < views.len() ==> (#[trigger] views[j]).contains(c)),
        decreases cols.len() - k,
    {
        let p: &(String, String) = &all.columns[k];
        if !in_every_set(sets, p.0.as_str(), p.1.as_str()) {
            r.insert(p.0.as_str(), p.1.as_str());
        }
        proof {
            assert(cols.take(k + 1) =~= cols.take(k as int).push(cols[k as int]));
            lemma_key_set_push(cols.take(k as int), cols[k as int]);
        }
        k = k + 1;
    }
    proof {
        assert(cols.take(k as int) =~= cols);
        assert forall|c: ColumnKey| #[trigger]
            r@.contains(c) == partly_present(views).contains(c) by {
            assert(all@ == key_set(cols));
            if all@.contains(c) {
                let i = choose|i: int| 0 <= i < views.len() && (#[trigger] views[i]).contains(c);
                assert(views[i].contains(c));
            }
        }
        assert(r@ =~= partly_present(views));
    }
    r.columns
}

fn has_empty(sets: &Vec<ColumnSet>) -> (r: bool)
    ensures
        r == some_empty(set_views(sets@)),
{
    let mut i: usize = 0;
    while i < sets.len()
        invariant
            i <= sets@.len(),
            forall|k: int|
                0 <= k < i ==> (#[trigger] set_views(sets@)[k]) != Set::<ColumnKey>::empty(),
        decreases sets.len() - i,
    {
        if sets[i].is_empty() {
            proof {
                assert(set_views(sets@)[i as int] == Set::<ColumnKey>::empty());
            }
            return true;
        }
        i = i + 1;
    }
    false
}

/// The columns that some grouping set of a `GROUP BY` leaves out, and whether
/// one of its grouping sets is empty. A clause without grouping sets leaves
/// nothing out.
pub fn expand_grouping_sets(group_clause: &Vec<Node>, scope: &Scope) -> (r: GroupingExpansion)
    ensures
        key_set(r.omitted@) == omitted_columns(group_clause@, scope@),
        each_once(r.omitted@),
        r.has_empty_set == has_empty_grouping_set(group_clause@, scope@),
{
    let ghost sources = scope@;
    let mut saw_grouping_set: bool = false;
    let mut sets: Vec<ColumnSet> = Vec::new();
    sets.push(ColumnSet::empty());
    proof {
        assert(set_views(sets@) =~= seq![Set::empty()]);
    }
    let mut i: usize = 0;
    while i < group_clause.len()
        invariant
            i <= group_clause@.len(),
            sources == scope@,
            saw_grouping_set == exists|k: int|
                0 <= k < i && #[trigger] group_clause@[k] is GroupingSet,
            set_views(sets@) == grouping_sets(group_clause@, i as int, sources),
        decreases group_clause.len() - i,
    {
        match &group_clause[i] {
            Node::GroupingSet(_) => {
                saw_grouping_set = true;
                proof {
                    assert(group_clause@[i as int] is GroupingSet);
                }
            },
            _ => {},
        }
        let alts: Vec<ColumnSet> = alternatives_for(&group_clause[i], scope);
        sets = combine(&sets, &alts);
        i = i + 1;
    }
    if !saw_grouping_set {
        return Default::default();
    }
    GroupingExpansion { omitted: find_partly_present(&sets), has_empty_set: has_empty(&sets) }
}

// ── Laws ────────────────────────────────────────────────────────────────────

/// A plain `GROUP BY` leaves no column out and has no empty grouping set.
pub proof fn law_plain_group_by_omits_nothing(group: Seq<Node>, sources: Seq<SourceView>)
    requires
        forall|i: int| 0 <= i < group.len() ==> !(#[trigger] group[i] is GroupingSet),
    ensures
        omitted_columns(group, sources) == Set::<ColumnKey>::empty(),
        !has_empty_grouping_set(group, sources),
{
}

/// A column that is in every grouping set keeps its nullability.
pub proof fn law_columns_of_every_set_are_kept(
    group: Seq<Node>,
    sources: Seq<SourceView>,
    c: ColumnKey,
)
    requires
        forall|i: int|
            0 <= i < grouping_sets(group, group.len() as int, sources).len()
                ==> (#[trigger] grouping_sets(group, group.len() as int, sources)[i]).contains(c),
    ensures
        !omitted_columns(group, sources).contains(c),
{
}

/// `ROLLUP` and `CUBE` both have the set of all their columns and the empty set.
pub proof fn law_rollup_and_cube_range_from_all_to_none(
    content: Seq<Node>,
    sources: Seq<SourceView>,
)
    ensures
        rollup(content, sources).first() == first_singles(content, content.len() as int, sources),
        rollup(content, sources).last() == Set::<ColumnKey>::empty(),
        cube(content, content.len() as int, sources).first() == Set::<ColumnKey>::empty(),
        cube(content, content.len() as int, sources).last() == first_singles(
            content,
            content.len() as int,
            sources,
        ),
{
    lemma_cube_ends(content, content.len() as int, sources);
}

proof fn lemma_cube_ends(content: Seq<Node>, n: int, sources: Seq<SourceView>)
    requires
        0 <= n <= content.len(),
    ensures
        cube(content, n, sources).len() > 0,
        cube(content, n, sources).first() == Set::<ColumnKey>::empty(),
        cube(content, n, sources).last() == first_singles(content, n, sources),
    decreases n,
{
    if n > 0 {
        lemma_cube_ends(content, n - 1, sources);
    }
}

} // verus!
