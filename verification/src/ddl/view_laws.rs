//! What a view depends on: exactly what its query refers to.

use super::dependents::{ascending, lemma_put_sorted};
use super::views::{
    column_before, column_refs, function_refs, put_column, query_deps, relation_refs, type_refs,
};
use crate::pg_catalog::AstBinding;
use vstd::prelude::*;

verus! {

/// Whether each column comes after those before it.
pub open spec fn columns_ascend(s: Seq<(u32, i16)>) -> bool {
    forall|i: int, j: int| 0 <= i < j < s.len() ==> column_before(s[i], s[j])
}

/// Whether two queries refer to the same columns.
pub open spec fn same_columns(bs: Seq<AstBinding>, others: Seq<AstBinding>) -> bool {
    forall|relid: u32, attnum: i16|
        #[trigger] bs.contains(AstBinding::Column(relid, attnum)) <==> others.contains(
            AstBinding::Column(relid, attnum),
        )
}

/// Whether two queries refer to the same relations.
pub open spec fn same_relations(bs: Seq<AstBinding>, others: Seq<AstBinding>) -> bool {
    forall|oid: u32|
        #[trigger] bs.contains(AstBinding::Relation(oid)) <==> others.contains(
            AstBinding::Relation(oid),
        )
}

/// Whether two queries refer to the same functions.
pub open spec fn same_functions(bs: Seq<AstBinding>, others: Seq<AstBinding>) -> bool {
    forall|oid: u32|
        #[trigger] bs.contains(AstBinding::Function(oid)) <==> others.contains(
            AstBinding::Function(oid),
        )
}

/// Whether two queries refer to the same types.
pub open spec fn same_types(bs: Seq<AstBinding>, others: Seq<AstBinding>) -> bool {
    forall|oid: u32|
        #[trigger] bs.contains(AstBinding::Type(oid)) <==> others.contains(AstBinding::Type(oid))
}

proof fn lemma_push_members<A>(s: Seq<A>, x: A, y: A)
    ensures
        s.push(x).contains(y) <==> y == x || s.contains(y),
{
    let t = s.push(x);
    if s.contains(y) {
        let k = choose|k: int| 0 <= k < s.len() && s[k] == y;
        assert(t[k] == y);
    }
    if t.contains(y) {
        let k = choose|k: int| 0 <= k < t.len() && t[k] == y;
        if k < s.len() {
            assert(s[k] == y);
        }
    }
    assert(t[s.len() as int] == x);
}

proof fn lemma_last_member<A>(s: Seq<A>, y: A)
    requires
        s.len() > 0,
    ensures
        s.contains(y) <==> y == s.last() || s.drop_last().contains(y),
{
    assert(s.drop_last().push(s.last()) =~= s);
    lemma_push_members(s.drop_last(), s.last(), y);
}

proof fn lemma_put_column_ascends(s: Seq<(u32, i16)>, x: (u32, i16))
    requires
        columns_ascend(s),
    ensures
        columns_ascend(put_column(s, x)),
        forall|y: (u32, i16)| #[trigger]
            put_column(s, x).contains(y) <==> y == x || s.contains(y),
    decreases s.len(),
{
    let r = put_column(s, x);
    if s.len() == 0 || column_before(s.last(), x) {
        assert forall|i: int, j: int| 0 <= i < j < r.len() implies column_before(r[i], r[j]) by {
            if j == s.len() && i < s.len() - 1 {
                assert(column_before(s[i], s[s.len() - 1]));
            }
        }
        assert forall|y: (u32, i16)| #[trigger] r.contains(y) <==> y == x || s.contains(y) by {
            lemma_push_members(s, x, y);
        }
    } else if s.last() == x {
        assert(s[s.len() - 1] == x);
    } else {
        let t = s.drop_last();
        let p = put_column(t, x);
        lemma_put_column_ascends(t, x);
        assert forall|i: int, j: int| 0 <= i < j < r.len() implies column_before(r[i], r[j]) by {
            if j == p.len() {
                assert(p.contains(p[i]));
                if p[i] != x {
                    let k = choose|k: int| 0 <= k < t.len() && t[k] == p[i];
                    assert(column_before(s[k], s[s.len() - 1]));
                }
            }
        }
        assert forall|y: (u32, i16)| #[trigger] r.contains(y) <==> y == x || s.contains(y) by {
            lemma_push_members(p, s.last(), y);
            lemma_last_member(s, y);
        }
    }
}

/// A query depends on exactly what its names refer to: each column, relation, function
/// and type is listed once, in ascending order, and nothing else is. A column alone
/// makes no relation listed.
pub proof fn law_dependencies_are_what_is_referred_to(bs: Seq<AstBinding>)
    ensures
        columns_ascend(column_refs(bs)),
        ascending(relation_refs(bs)),
        ascending(function_refs(bs)),
        ascending(type_refs(bs)),
        forall|relid: u32, attnum: i16|
            #![trigger column_refs(bs).contains((relid, attnum))]
            column_refs(bs).contains((relid, attnum)) <==> bs.contains(
                AstBinding::Column(relid, attnum),
            ),
        forall|oid: u32|
            #![trigger relation_refs(bs).contains(oid)]
            relation_refs(bs).contains(oid) <==> bs.contains(AstBinding::Relation(oid)),
        forall|oid: u32|
            #![trigger function_refs(bs).contains(oid)]
            function_refs(bs).contains(oid) <==> bs.contains(AstBinding::Function(oid)),
        forall|oid: u32|
            #![trigger type_refs(bs).contains(oid)]
            type_refs(bs).contains(oid) <==> bs.contains(AstBinding::Type(oid)),
    decreases bs.len(),
{
    if bs.len() > 0 {
        let front = bs.drop_last();
        law_dependencies_are_what_is_referred_to(front);
        match bs.last() {
            AstBinding::Column(relid, attnum) => lemma_put_column_ascends(
                column_refs(front),
                (relid, attnum),
            ),
            AstBinding::Relation(oid) => lemma_put_sorted(relation_refs(front), oid),
            AstBinding::Function(oid) => lemma_put_sorted(function_refs(front), oid),
            AstBinding::Type(oid) => lemma_put_sorted(type_refs(front), oid),
            AstBinding::Unresolved => {},
        }
        assert forall|relid: u32, attnum: i16|
            #![trigger column_refs(bs).contains((relid, attnum))]
            column_refs(bs).contains((relid, attnum)) <==> bs.contains(
                AstBinding::Column(relid, attnum),
            ) by {
            lemma_last_member(bs, AstBinding::Column(relid, attnum));
            assert(column_refs(front).contains((relid, attnum)) <==> front.contains(
                AstBinding::Column(relid, attnum),
            ));
        }
        assert forall|oid: u32|
            #![trigger relation_refs(bs).contains(oid)]
            relation_refs(bs).contains(oid) <==> bs.contains(AstBinding::Relation(oid)) by {
            lemma_last_member(bs, AstBinding::Relation(oid));
            assert(relation_refs(front).contains(oid) <==> front.contains(
                AstBinding::Relation(oid),
            ));
        }
        assert forall|oid: u32|
            #![trigger function_refs(bs).contains(oid)]
            function_refs(bs).contains(oid) <==> bs.contains(AstBinding::Function(oid)) by {
            lemma_last_member(bs, AstBinding::Function(oid));
            assert(function_refs(front).contains(oid) <==> front.contains(
                AstBinding::Function(oid),
            ));
        }
        assert forall|oid: u32|
            #![trigger type_refs(bs).contains(oid)]
            type_refs(bs).contains(oid) <==> bs.contains(AstBinding::Type(oid)) by {
            lemma_last_member(bs, AstBinding::Type(oid));
            assert(type_refs(front).contains(oid) <==> front.contains(AstBinding::Type(oid)));
        }
    }
}

proof fn lemma_one_ascending_list<A>(s: Seq<A>, t: Seq<A>, rank: spec_fn(A) -> int)
    requires
        forall|i: int, j: int| 0 <= i < j < s.len() ==> rank(#[trigger] s[i]) < rank(#[trigger] s[j]),
        forall|i: int, j: int| 0 <= i < j < t.len() ==> rank(#[trigger] t[i]) < rank(#[trigger] t[j]),
        forall|x: A| #[trigger] s.contains(x) <==> t.contains(x),
    ensures
        s == t,
    decreases s.len(),
{
    if s.len() == 0 {
        if t.len() > 0 {
            assert(t.contains(t[0]));
            assert(s.contains(t[0]));
        }
        assert(s =~= t);
    } else {
        assert(s.contains(s.last()));
        assert(t.contains(s.last()));
        let k = choose|k: int| 0 <= k < t.len() && t[k] == s.last();
        assert(t.contains(t.last()));
        assert(s.contains(t.last()));
        let m = choose|m: int| 0 <= m < s.len() && s[m] == t.last();
        assert(k == t.len() - 1) by {
            if k < t.len() - 1 {
                assert(rank(t[k]) < rank(t[t.len() - 1]));
                if m < s.len() - 1 {
                    assert(rank(s[m]) < rank(s[s.len() - 1]));
                }
            }
        }
        let a = s.drop_last();
        let b = t.drop_last();
        assert forall|x: A| #[trigger] a.contains(x) <==> b.contains(x) by {
            lemma_last_member(s, x);
            lemma_last_member(t, x);
            assert(s.contains(x) <==> t.contains(x));
            if x == s.last() {
                if a.contains(x) {
                    let i = choose|i: int| 0 <= i < a.len() && a[i] == x;
                    assert(rank(s[i]) < rank(s[s.len() - 1]));
                }
                if b.contains(x) {
                    let i = choose|i: int| 0 <= i < b.len() && b[i] == x;
                    assert(rank(t[i]) < rank(t[t.len() - 1]));
                }
            }
        }
        lemma_one_ascending_list(a, b, rank);
        assert(s =~= a.push(s.last()));
        assert(t =~= b.push(t.last()));
    }
}

proof fn lemma_ranks_ascend(s: Seq<(u32, i16)>, place: spec_fn((u32, i16)) -> int)
    requires
        columns_ascend(s),
        forall|p: (u32, i16)| #[trigger] place(p) == p.0 * 0x1_0000 + p.1,
    ensures
        forall|i: int, j: int|
            0 <= i < j < s.len() ==> place(#[trigger] s[i]) < place(#[trigger] s[j]),
{
    assert forall|i: int, j: int| 0 <= i < j < s.len() implies place(#[trigger] s[i]) < place(
        #[trigger] s[j],
    ) by {
        assert(column_before(s[i], s[j]));
        assert(place(s[i]) == s[i].0 * 0x1_0000 + s[i].1);
        assert(place(s[j]) == s[j].0 * 0x1_0000 + s[j].1);
    }
}

/// What a query depends on does not depend on the order of its names, nor on how often
/// it refers to the same thing: each list is the same where the same things of its kind
/// are referred to, whatever else is.
pub proof fn law_order_of_names_does_not_matter(
    relid: u32,
    bs: Seq<AstBinding>,
    others: Seq<AstBinding>,
)
    ensures
        same_columns(bs, others) ==> column_refs(bs) == column_refs(others),
        same_relations(bs, others) ==> relation_refs(bs) == relation_refs(others),
        same_functions(bs, others) ==> function_refs(bs) == function_refs(others),
        same_types(bs, others) ==> type_refs(bs) == type_refs(others),
        same_columns(bs, others) && same_relations(bs, others) && same_functions(bs, others)
            && same_types(bs, others) ==> query_deps(relid, bs) == query_deps(relid, others),
{
    law_dependencies_are_what_is_referred_to(bs);
    law_dependencies_are_what_is_referred_to(others);
    if same_columns(bs, others) {
        let place = |p: (u32, i16)| p.0 * 0x1_0000 + p.1;
        assert forall|p: (u32, i16)| #[trigger]
            column_refs(bs).contains(p) <==> column_refs(others).contains(p) by {
            assert(bs.contains(AstBinding::Column(p.0, p.1)) <==> others.contains(
                AstBinding::Column(p.0, p.1),
            ));
            assert(column_refs(bs).contains((p.0, p.1)) <==> column_refs(others).contains(
                (p.0, p.1),
            ));
        }
        lemma_ranks_ascend(column_refs(bs), place);
        lemma_ranks_ascend(column_refs(others), place);
        lemma_one_ascending_list(column_refs(bs), column_refs(others), place);
    }
    let number = |x: u32| x as int;
    if same_relations(bs, others) {
        assert forall|oid: u32| #[trigger]
            relation_refs(bs).contains(oid) <==> relation_refs(others).contains(oid) by {
            assert(bs.contains(AstBinding::Relation(oid)) <==> others.contains(
                AstBinding::Relation(oid),
            ));
        }
        lemma_one_ascending_list(relation_refs(bs), relation_refs(others), number);
    }
    if same_functions(bs, others) {
        assert forall|oid: u32| #[trigger]
            function_refs(bs).contains(oid) <==> function_refs(others).contains(oid) by {
            assert(bs.contains(AstBinding::Function(oid)) <==> others.contains(
                AstBinding::Function(oid),
            ));
        }
        lemma_one_ascending_list(function_refs(bs), function_refs(others), number);
    }
    if same_types(bs, others) {
        assert forall|oid: u32| #[trigger]
            type_refs(bs).contains(oid) <==> type_refs(others).contains(oid) by {
            assert(bs.contains(AstBinding::Type(oid)) <==> others.contains(AstBinding::Type(oid)));
        }
        lemma_one_ascending_list(type_refs(bs), type_refs(others), number);
    }
}

/// One more column adds a column to what a query depends on, and no relation, function
/// or type.
pub proof fn law_columns_add_no_relation(bs: Seq<AstBinding>, relid: u32, attnum: i16)
    ensures
        relation_refs(bs.push(AstBinding::Column(relid, attnum))) == relation_refs(bs),
        function_refs(bs.push(AstBinding::Column(relid, attnum))) == function_refs(bs),
        type_refs(bs.push(AstBinding::Column(relid, attnum))) == type_refs(bs),
        column_refs(bs.push(AstBinding::Column(relid, attnum))).contains((relid, attnum)),
{
    let more = bs.push(AstBinding::Column(relid, attnum));
    assert(more.drop_last() =~= bs);
    law_dependencies_are_what_is_referred_to(more);
    lemma_push_members(bs, AstBinding::Column(relid, attnum), AstBinding::Column(relid, attnum));
}

} // verus!
