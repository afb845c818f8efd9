//! What the entries of a `GROUP BY` do to its columns.

use crate::ast::{part_names, GroupingSetKind, Node};
use crate::expr::column_parts;
use crate::grouping::{
    alternatives, cube, each_with, first_singles, grouping_sets, has_empty_grouping_set,
    listed_alternatives, omitted_columns, partly_present, rollup, single, unions, ColumnKey,
};
use crate::scope::{resolved_column, SourceView};
use vstd::prelude::*;

verus! {

/// A node is a reference to a column.
pub open spec fn names_column(node: Node, sources: Seq<SourceView>, c: ColumnKey) -> bool {
    node matches Node::ColumnRef(cr) && column_parts(part_names(cr.fields@)) matches Some(
        (table, column),
    ) && resolved_column(sources, table, column) matches Ok(found) && c == (
        found.table_alias,
        found.name,
    )
}

/// One of the nodes at the given places is a reference to a column.
pub open spec fn named_at(
    nodes: Seq<Node>,
    places: Set<int>,
    sources: Seq<SourceView>,
    c: ColumnKey,
) -> bool {
    exists|i: int|
        0 <= i < nodes.len() && places.contains(i) && names_column(#[trigger] nodes[i], sources, c)
}

/// The places below `n`.
pub open spec fn below(n: int) -> Set<int> {
    Set::new(|i: int| i < n)
}

/// A set holds just the columns that the nodes at the given places refer to.
pub open spec fn holds_just(
    set: Set<ColumnKey>,
    nodes: Seq<Node>,
    places: Set<int>,
    sources: Seq<SourceView>,
) -> bool {
    forall|c: ColumnKey| #[trigger] set.contains(c) <==> named_at(nodes, places, sources, c)
}

/// One grouping set from each entry of a `GROUP BY`.
pub open spec fn picks(
    group: Seq<Node>,
    sources: Seq<SourceView>,
    pick: Seq<Set<ColumnKey>>,
) -> bool {
    pick.len() == group.len() && forall|i: int|
        0 <= i < group.len() ==> alternatives(group[i], sources).contains(#[trigger] pick[i])
}

/// A column is in one of the sets.
pub open spec fn in_some(pick: Seq<Set<ColumnKey>>, c: ColumnKey) -> bool {
    exists|i: int| 0 <= i < pick.len() && (#[trigger] pick[i]).contains(c)
}

proof fn lemma_single(node: Node, sources: Seq<SourceView>, c: ColumnKey)
    ensures
        single(node, sources).contains(c) <==> names_column(node, sources, c),
{
}

proof fn lemma_first_singles(content: Seq<Node>, n: int, sources: Seq<SourceView>, c: ColumnKey)
    requires
        0 <= n <= content.len(),
    ensures
        first_singles(content, n, sources).contains(c) <==> named_at(
            content,
            below(n),
            sources,
            c,
        ),
    decreases n,
{
    if n > 0 {
        lemma_first_singles(content, n - 1, sources, c);
        lemma_single(content[n - 1], sources, c);
        if names_column(content[n - 1], sources, c) {
            assert(below(n).contains(n - 1));
        }
        if named_at(content, below(n - 1), sources, c) {
            let i = choose|i: int|
                0 <= i < content.len() && below(n - 1).contains(i) && names_column(
                    #[trigger] content[i],
                    sources,
                    c,
                );
            assert(below(n).contains(i) && names_column(content[i], sources, c));
        }
        if named_at(content, below(n), sources, c) {
            let i = choose|i: int|
                0 <= i < content.len() && below(n).contains(i) && names_column(
                    #[trigger] content[i],
                    sources,
                    c,
                );
            if i < n - 1 {
                assert(below(n - 1).contains(i));
            } else {
                assert(i == n - 1);
            }
        }
    }
}

/// An entry that is no grouping set groups by the column that it refers to, and by
/// no other.
pub proof fn law_plain_entry_is_one_set(node: Node, sources: Seq<SourceView>)
    requires
        !(node is GroupingSet),
    ensures
        alternatives(node, sources).len() == 1,
        forall|c: ColumnKey|
            (#[trigger] alternatives(node, sources)[0].contains(c)) <==> names_column(
                node,
                sources,
                c,
            ),
{
    assert forall|c: ColumnKey|
        (#[trigger] alternatives(node, sources)[0].contains(c)) <==> names_column(
            node,
            sources,
            c,
        ) by {
        lemma_single(node, sources, c);
    }
}

/// A list of columns in brackets is one grouping set of all of them, and `()` is the
/// empty one.
pub proof fn law_simple_list_is_one_set(node: Node, sources: Seq<SourceView>)
    requires
        node is GroupingSet,
    ensures
        node->GroupingSet_0.kind == GroupingSetKind::Simple ==> alternatives(node, sources).len()
            == 1 && holds_just(
            alternatives(node, sources)[0],
            node->GroupingSet_0.content@,
            Set::full(),
            sources,
        ),
        node->GroupingSet_0.kind == GroupingSetKind::Empty ==> alternatives(node, sources) == seq![
            Set::<ColumnKey>::empty(),
        ],
{
    let content = node->GroupingSet_0.content@;
    if node->GroupingSet_0.kind == GroupingSetKind::Simple {
        let set = alternatives(node, sources)[0];
        assert forall|c: ColumnKey| #[trigger] set.contains(c) <==> named_at(
            content,
            Set::full(),
            sources,
            c,
        ) by {
            lemma_first_singles(content, content.len() as int, sources, c);
            if named_at(content, Set::full(), sources, c) {
                let i = choose|i: int|
                    0 <= i < content.len() && Set::<int>::full().contains(i) && names_column(
                        #[trigger] content[i],
                        sources,
                        c,
                    );
                assert(below(content.len() as int).contains(i));
            }
            if named_at(content, below(content.len() as int), sources, c) {
                let i = choose|i: int|
                    0 <= i < content.len() && below(content.len() as int).contains(i)
                        && names_column(#[trigger] content[i], sources, c);
                assert(Set::<int>::full().contains(i));
            }
        }
    }
}

/// `ROLLUP` over `n` columns has `n + 1` grouping sets: set `k` groups by all columns
/// but the last `k`.
pub proof fn law_rollup_drops_columns_from_the_end(node: Node, sources: Seq<SourceView>)
    requires
        node is GroupingSet,
        node->GroupingSet_0.kind == GroupingSetKind::Rollup,
    ensures
        alternatives(node, sources).len() == node->GroupingSet_0.content@.len() + 1,
        forall|k: int|
            0 <= k <= node->GroupingSet_0.content@.len() ==> holds_just(
                #[trigger] alternatives(node, sources)[k],
                node->GroupingSet_0.content@,
                below(node->GroupingSet_0.content@.len() - k),
                sources,
            ),
{
    let content = node->GroupingSet_0.content@;
    assert forall|k: int| 0 <= k <= content.len() implies holds_just(
        #[trigger] alternatives(node, sources)[k],
        content,
        below(content.len() - k),
        sources,
    ) by {
        let set = alternatives(node, sources)[k];
        assert(set == rollup(content, sources)[k]);
        assert forall|c: ColumnKey| #[trigger] set.contains(c) <==> named_at(
            content,
            below(content.len() - k),
            sources,
            c,
        ) by {
            lemma_first_singles(content, content.len() - k, sources, c);
        }
    }
}

proof fn lemma_cube_has(
    content: Seq<Node>,
    n: int,
    sources: Seq<SourceView>,
    chosen: Set<int>,
) -> (k: int)
    requires
        0 <= n <= content.len(),
    ensures
        0 <= k < cube(content, n, sources).len(),
        holds_just(
            cube(content, n, sources)[k],
            content,
            chosen.intersect(below(n)),
            sources,
        ),
    decreases n,
{
    let all = cube(content, n, sources);
    if n == 0 {
        assert forall|c: ColumnKey| #[trigger] all[0].contains(c) <==> named_at(
            content,
            chosen.intersect(below(0)),
            sources,
            c,
        ) by {}
        0
    } else {
        let without = cube(content, n - 1, sources);
        let m = lemma_cube_has(content, n - 1, sources, chosen);
        let k = if chosen.contains(n - 1) {
            without.len() + m
        } else {
            m
        };
        let more = each_with(without, single(content[n - 1], sources));
        assert(all == without + more);
        if chosen.contains(n - 1) {
            assert(all[k] == more[m]);
        } else {
            assert(all[k] == without[m]);
        }
        let places = chosen.intersect(below(n));
        let fewer = chosen.intersect(below(n - 1));
        assert forall|c: ColumnKey| #[trigger] all[k].contains(c) <==> named_at(
            content,
            places,
            sources,
            c,
        ) by {
            lemma_single(content[n - 1], sources, c);
            assert(without[m].contains(c) <==> named_at(content, fewer, sources, c));
            lemma_one_place_more(content, fewer, places, n - 1, sources, c);
        }
        k
    }
}

/// A place more, or the same places.
proof fn lemma_one_place_more(
    content: Seq<Node>,
    fewer: Set<int>,
    places: Set<int>,
    last: int,
    sources: Seq<SourceView>,
    c: ColumnKey,
)
    requires
        0 <= last < content.len(),
        forall|i: int|
            #[trigger] places.contains(i) <==> fewer.contains(i) || (i == last && places.contains(
                last,
            )),
    ensures
        named_at(content, places, sources, c) <==> named_at(content, fewer, sources, c) || (
        places.contains(last) && names_column(content[last], sources, c)),
{
    if named_at(content, fewer, sources, c) {
        let i = choose|i: int|
            0 <= i < content.len() && fewer.contains(i) && names_column(
                #[trigger] content[i],
                sources,
                c,
            );
        assert(places.contains(i) && names_column(content[i], sources, c));
    }
}

proof fn lemma_cube_holds_only(
    content: Seq<Node>,
    n: int,
    sources: Seq<SourceView>,
    k: int,
) -> (chosen: Set<int>)
    requires
        0 <= n <= content.len(),
        0 <= k < cube(content, n, sources).len(),
    ensures
        chosen.subset_of(below(n)),
        holds_just(cube(content, n, sources)[k], content, chosen, sources),
    decreases n,
{
    let all = cube(content, n, sources);
    if n == 0 {
        assert forall|c: ColumnKey| #[trigger] all[k].contains(c) <==> named_at(
            content,
            Set::empty(),
            sources,
            c,
        ) by {}
        Set::empty()
    } else {
        let without = cube(content, n - 1, sources);
        let more = each_with(without, single(content[n - 1], sources));
        assert(all == without + more);
        let m = if k < without.len() {
            k
        } else {
            k - without.len()
        };
        let fewer = lemma_cube_holds_only(content, n - 1, sources, m);
        let chosen = if k < without.len() {
            fewer
        } else {
            fewer.insert(n - 1)
        };
        assert forall|c: ColumnKey| #[trigger] all[k].contains(c) <==> named_at(
            content,
            chosen,
            sources,
            c,
        ) by {
            lemma_single(content[n - 1], sources, c);
            assert(without[m].contains(c) <==> named_at(content, fewer, sources, c));
            if k < without.len() {
                assert(all[k] == without[m]);
            } else {
                assert(all[k] == more[m]);
                lemma_one_place_more(content, fewer, chosen, n - 1, sources, c);
            }
        }
        chosen
    }
}

/// `CUBE` has a grouping set for every choice among its columns.
pub proof fn law_cube_has_every_choice(node: Node, sources: Seq<SourceView>, chosen: Set<int>)
    requires
        node is GroupingSet,
        node->GroupingSet_0.kind == GroupingSetKind::Cube,
    ensures
        exists|k: int|
            0 <= k < alternatives(node, sources).len() && holds_just(
                #[trigger] alternatives(node, sources)[k],
                node->GroupingSet_0.content@,
                chosen,
                sources,
            ),
{
    let content = node->GroupingSet_0.content@;
    let n = content.len() as int;
    let all = alternatives(node, sources);
    assert(all == cube(content, n, sources));
    let k = lemma_cube_has(content, n, sources, chosen);
    assert forall|c: ColumnKey| #[trigger] all[k].contains(c) <==> named_at(
        content,
        chosen,
        sources,
        c,
    ) by {
        if named_at(content, chosen, sources, c) {
            let i = choose|i: int|
                0 <= i < content.len() && chosen.contains(i) && names_column(
                    #[trigger] content[i],
                    sources,
                    c,
                );
            assert(chosen.intersect(below(n)).contains(i));
        }
        if named_at(content, chosen.intersect(below(n)), sources, c) {
            let i = choose|i: int|
                0 <= i < content.len() && chosen.intersect(below(n)).contains(i) && names_column(
                    #[trigger] content[i],
                    sources,
                    c,
                );
            assert(chosen.contains(i));
        }
    }
    assert(holds_just(all[k], content, chosen, sources));
}

/// Each grouping set of `CUBE` is a choice among its columns.
pub proof fn law_cube_has_only_choices(node: Node, sources: Seq<SourceView>, k: int)
    requires
        node is GroupingSet,
        node->GroupingSet_0.kind == GroupingSetKind::Cube,
        0 <= k < alternatives(node, sources).len(),
    ensures
        exists|chosen: Set<int>| #[trigger]
            holds_just(
                alternatives(node, sources)[k],
                node->GroupingSet_0.content@,
                chosen,
                sources,
            ),
{
    let content = node->GroupingSet_0.content@;
    let chosen = lemma_cube_holds_only(content, content.len() as int, sources, k);
    assert(holds_just(alternatives(node, sources)[k], content, chosen, sources));
}

proof fn lemma_some_alternative(node: Node, sources: Seq<SourceView>)
    ensures
        alternatives(node, sources).len() > 0,
{
    if node is GroupingSet && node->GroupingSet_0.kind == GroupingSetKind::Cube {
        let content = node->GroupingSet_0.content@;
        let k = lemma_cube_has(content, content.len() as int, sources, Set::empty());
    }
}

proof fn lemma_listed(content: Seq<Node>, from: int, sources: Seq<SourceView>, s: Set<ColumnKey>)
    requires
        0 <= from <= content.len(),
    ensures
        listed_alternatives(content, from, sources).contains(s) <==> exists|i: int|
            from <= i < content.len() && (#[trigger] alternatives(content[i], sources)).contains(s),
        from < content.len() ==> listed_alternatives(content, from, sources).len() > 0,
    decreases content.len() - from,
{
    let all = listed_alternatives(content, from, sources);
    if from < content.len() {
        let here = alternatives(content[from], sources);
        let rest = listed_alternatives(content, from + 1, sources);
        lemma_listed(content, from + 1, sources, s);
        lemma_some_alternative(content[from], sources);
        assert(all == here + rest);
        if all.contains(s) {
            let k = choose|k: int| 0 <= k < all.len() && all[k] == s;
            if k < here.len() {
                assert(here[k] == s);
            } else {
                assert(rest[k - here.len()] == s);
            }
        }
        if here.contains(s) {
            let k = choose|k: int| 0 <= k < here.len() && here[k] == s;
            assert(all[k] == s);
        }
        if rest.contains(s) {
            let k = choose|k: int| 0 <= k < rest.len() && rest[k] == s;
            assert(all[here.len() + k] == s);
        }
    }
}

/// `GROUPING SETS` has the grouping sets of each of its entries, and no others. With no
/// entries it has the empty one.
pub proof fn law_grouping_sets_has_those_of_each_entry(
    node: Node,
    sources: Seq<SourceView>,
    s: Set<ColumnKey>,
)
    requires
        node is GroupingSet,
        node->GroupingSet_0.kind == GroupingSetKind::Sets,
    ensures
        node->GroupingSet_0.content@.len() > 0 ==> (alternatives(node, sources).contains(s)
            <==> exists|i: int|
            0 <= i < node->GroupingSet_0.content@.len() && (#[trigger] alternatives(
                node->GroupingSet_0.content@[i],
                sources,
            )).contains(s)),
        node->GroupingSet_0.content@.len() == 0 ==> alternatives(node, sources) == seq![
            Set::<ColumnKey>::empty(),
        ],
{
    lemma_listed(node->GroupingSet_0.content@, 0, sources, s);
}

proof fn lemma_unions_has(
    left: Seq<Set<ColumnKey>>,
    right: Seq<Set<ColumnKey>>,
    a: Set<ColumnKey>,
    b: Set<ColumnKey>,
)
    requires
        left.contains(a),
        right.contains(b),
    ensures
        unions(left, right).contains(b.union(a)),
    decreases left.len(),
{
    let all = unions(left, right);
    let head = unions(left.drop_last(), right);
    let tail = each_with(right, left.last());
    assert(all == head + tail);
    if left.last() == a {
        let k = choose|k: int| 0 <= k < right.len() && right[k] == b;
        assert(tail[k] == b.union(a));
        assert(all[head.len() + k] == b.union(a));
    } else {
        let k = choose|k: int| 0 <= k < left.len() && left[k] == a;
        assert(left.drop_last()[k] == a);
        lemma_unions_has(left.drop_last(), right, a, b);
        let m = choose|m: int| 0 <= m < head.len() && head[m] == b.union(a);
        assert(all[m] == b.union(a));
    }
}

proof fn lemma_unions_only(left: Seq<Set<ColumnKey>>, right: Seq<Set<ColumnKey>>, k: int) -> (r: (
    int,
    int,
))
    requires
        0 <= k < unions(left, right).len(),
    ensures
        0 <= r.0 < left.len(),
        0 <= r.1 < right.len(),
        unions(left, right)[k] == right[r.1].union(left[r.0]),
    decreases left.len(),
{
    let head = unions(left.drop_last(), right);
    let tail = each_with(right, left.last());
    assert(unions(left, right) == head + tail);
    if k < head.len() {
        lemma_unions_only(left.drop_last(), right, k)
    } else {
        (left.len() - 1, k - head.len())
    }
}

proof fn lemma_picked(
    group: Seq<Node>,
    sources: Seq<SourceView>,
    pick: Seq<Set<ColumnKey>>,
    n: int,
) -> (k: int)
    requires
        picks(group, sources, pick),
        0 <= n <= group.len(),
    ensures
        0 <= k < grouping_sets(group, n, sources).len(),
        forall|c: ColumnKey|
            (#[trigger] grouping_sets(group, n, sources)[k].contains(c)) <==> in_some(
                pick.take(n),
                c,
            ),
    decreases n,
{
    let all = grouping_sets(group, n, sources);
    if n == 0 {
        0
    } else {
        let m = lemma_picked(group, sources, pick, n - 1);
        let before = grouping_sets(group, n - 1, sources);
        let a = before[m];
        let b = pick[n - 1];
        assert(before.contains(a));
        lemma_unions_has(before, alternatives(group[n - 1], sources), a, b);
        let k = choose|k: int| 0 <= k < all.len() && all[k] == b.union(a);
        assert forall|c: ColumnKey| (#[trigger] all[k].contains(c)) <==> in_some(
            pick.take(n),
            c,
        ) by {
            assert(a.contains(c) <==> in_some(pick.take(n - 1), c));
            if in_some(pick.take(n - 1), c) {
                let i = choose|i: int|
                    0 <= i < pick.take(n - 1).len() && (#[trigger] pick.take(n - 1)[i]).contains(c);
                assert(pick.take(n)[i].contains(c));
            }
            if b.contains(c) {
                assert(pick.take(n)[n - 1].contains(c));
            }
            if in_some(pick.take(n), c) {
                let i = choose|i: int|
                    0 <= i < pick.take(n).len() && (#[trigger] pick.take(n)[i]).contains(c);
                if i < n - 1 {
                    assert(pick.take(n - 1)[i].contains(c));
                }
            }
        }
        k
    }
}

proof fn lemma_pick_behind(group: Seq<Node>, sources: Seq<SourceView>, n: int, k: int) -> (pick:
    Seq<Set<ColumnKey>>)
    requires
        0 <= n <= group.len(),
        0 <= k < grouping_sets(group, n, sources).len(),
    ensures
        picks(group.take(n), sources, pick),
        forall|c: ColumnKey|
            (#[trigger] grouping_sets(group, n, sources)[k].contains(c)) <==> in_some(pick, c),
    decreases n,
{
    let all = grouping_sets(group, n, sources);
    if n == 0 {
        Seq::empty()
    } else {
        let before = grouping_sets(group, n - 1, sources);
        let here = alternatives(group[n - 1], sources);
        let (m, b) = lemma_unions_only(before, here, k);
        let fewer = lemma_pick_behind(group, sources, n - 1, m);
        let pick = fewer.push(here[b]);
        assert forall|i: int| 0 <= i < n implies alternatives(
            group.take(n)[i],
            sources,
        ).contains(#[trigger] pick[i]) by {
            if i < n - 1 {
                assert(group.take(n - 1)[i] == group.take(n)[i]);
                assert(pick[i] == fewer[i]);
            }
        }
        assert forall|c: ColumnKey| (#[trigger] all[k].contains(c)) <==> in_some(pick, c) by {
            assert(before[m].contains(c) <==> in_some(fewer, c));
            if in_some(fewer, c) {
                let i = choose|i: int| 0 <= i < fewer.len() && (#[trigger] fewer[i]).contains(c);
                assert(pick[i].contains(c));
            }
            if here[b].contains(c) {
                assert(pick[n - 1].contains(c));
            }
            if in_some(pick, c) {
                let i = choose|i: int| 0 <= i < pick.len() && (#[trigger] pick[i]).contains(c);
                if i < n - 1 {
                    assert(fewer[i].contains(c));
                }
            }
        }
        pick
    }
}

/// A `GROUP BY` with grouping sets groups by one grouping set of each entry, in every
/// combination. The columns that may be null for it are those that one combination
/// has and another has not.
pub proof fn law_omitted_are_those_of_some_combinations(
    group: Seq<Node>,
    sources: Seq<SourceView>,
    c: ColumnKey,
)
    requires
        exists|i: int| 0 <= i < group.len() && #[trigger] group[i] is GroupingSet,
    ensures
        omitted_columns(group, sources).contains(c) <==> (exists|pick: Seq<Set<ColumnKey>>|
            #[trigger] picks(group, sources, pick) && in_some(pick, c)) && (exists|
            pick: Seq<Set<ColumnKey>>,
        |
            #[trigger] picks(group, sources, pick) && !in_some(pick, c)),
{
    let n = group.len() as int;
    let all = grouping_sets(group, n, sources);
    assert(group.take(n) =~= group);
    if omitted_columns(group, sources).contains(c) {
        let i = choose|i: int| 0 <= i < all.len() && (#[trigger] all[i]).contains(c);
        let j = choose|j: int| 0 <= j < all.len() && !(#[trigger] all[j]).contains(c);
        let p = lemma_pick_behind(group, sources, n, i);
        let q = lemma_pick_behind(group, sources, n, j);
        assert(all[i].contains(c) && !all[j].contains(c));
        assert(picks(group, sources, p) && in_some(p, c));
        assert(picks(group, sources, q) && !in_some(q, c));
    }
    if (exists|pick: Seq<Set<ColumnKey>>| #[trigger]
        picks(group, sources, pick) && in_some(pick, c)) && (exists|
        pick: Seq<Set<ColumnKey>>,
    |
        #[trigger] picks(group, sources, pick) && !in_some(pick, c)) {
        let p = choose|pick: Seq<Set<ColumnKey>>| #[trigger]
            picks(group, sources, pick) && in_some(pick, c);
        let q = choose|pick: Seq<Set<ColumnKey>>| #[trigger]
            picks(group, sources, pick) && !in_some(pick, c);
        assert(p.take(n) =~= p);
        assert(q.take(n) =~= q);
        let i = lemma_picked(group, sources, p, n);
        let j = lemma_picked(group, sources, q, n);
        assert(all[i].contains(c));
        assert(!all[j].contains(c));
        assert(partly_present(all).contains(c));
    }
}

/// A `GROUP BY` with grouping sets has an empty one just where each entry has one that
/// is empty.
pub proof fn law_empty_set_where_each_entry_has_one(group: Seq<Node>, sources: Seq<SourceView>)
    requires
        exists|i: int| 0 <= i < group.len() && #[trigger] group[i] is GroupingSet,
    ensures
        has_empty_grouping_set(group, sources) <==> forall|i: int|
            0 <= i < group.len() ==> alternatives(#[trigger] group[i], sources).contains(
                Set::empty(),
            ),
{
    let n = group.len() as int;
    let all = grouping_sets(group, n, sources);
    assert(group.take(n) =~= group);
    if has_empty_grouping_set(group, sources) {
        let k = choose|k: int| 0 <= k < all.len() && (#[trigger] all[k]) == Set::<
            ColumnKey,
        >::empty();
        let pick = lemma_pick_behind(group, sources, n, k);
        assert forall|i: int| 0 <= i < group.len() implies alternatives(
            #[trigger] group[i],
            sources,
        ).contains(Set::empty()) by {
            assert forall|c: ColumnKey| !(#[trigger] pick[i].contains(c)) by {
                assert(!all[k].contains(c));
                assert(!in_some(pick, c));
            }
            assert(pick[i] =~= Set::empty());
        }
    }
    if forall|i: int|
        0 <= i < group.len() ==> alternatives(#[trigger] group[i], sources).contains(
            Set::empty(),
        ) {
        let pick = Seq::new(group.len(), |i: int| Set::<ColumnKey>::empty());
        assert(picks(group, sources, pick));
        let k = lemma_picked(group, sources, pick, n);
        assert forall|c: ColumnKey| !(#[trigger] all[k].contains(c)) by {
            assert(!in_some(pick.take(n), c));
        }
        assert(all[k] =~= Set::empty());
    }
}

/// With `GROUPING SETS` alone, a column that one entry groups by and another does not
/// may be null, and an entry with the empty grouping set makes the whole have it.
pub proof fn law_sets_that_differ_in_a_column_omit_it(
    node: Node,
    sources: Seq<SourceView>,
    i: int,
    j: int,
    c: ColumnKey,
)
    requires
        node is GroupingSet,
        node->GroupingSet_0.kind == GroupingSetKind::Sets,
        0 <= i < node->GroupingSet_0.content@.len(),
        0 <= j < node->GroupingSet_0.content@.len(),
        exists|s: Set<ColumnKey>|
            #[trigger] alternatives(node->GroupingSet_0.content@[i], sources).contains(s)
                && s.contains(c),
        exists|s: Set<ColumnKey>|
            #[trigger] alternatives(node->GroupingSet_0.content@[j], sources).contains(s)
                && !s.contains(c),
    ensures
        omitted_columns(seq![node], sources).contains(c),
        alternatives(node->GroupingSet_0.content@[j], sources).contains(Set::empty())
            ==> has_empty_grouping_set(seq![node], sources),
{
    let content = node->GroupingSet_0.content@;
    let group = seq![node];
    assert(group[0] is GroupingSet);
    let a = choose|s: Set<ColumnKey>| #[trigger]
        alternatives(content[i], sources).contains(s) && s.contains(c);
    let b = choose|s: Set<ColumnKey>| #[trigger]
        alternatives(content[j], sources).contains(s) && !s.contains(c);
    law_grouping_sets_has_those_of_each_entry(node, sources, a);
    law_grouping_sets_has_those_of_each_entry(node, sources, b);
    law_grouping_sets_has_those_of_each_entry(node, sources, Set::empty());
    assert(picks(group, sources, seq![a]));
    assert(seq![a][0].contains(c));
    assert(in_some(seq![a], c));
    assert(picks(group, sources, seq![b]));
    assert(!in_some(seq![b], c));
    law_omitted_are_those_of_some_combinations(group, sources, c);
    law_empty_set_where_each_entry_has_one(group, sources);
}

} // verus!
