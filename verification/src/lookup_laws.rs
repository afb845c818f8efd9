//! What names stand for.

use crate::catalog::CatalogView;
use crate::error::AnalyzeErrorView;
use crate::lookup::{
    class_on_path, first_operator, known_operators, known_procs, operator_fits, operators_on_path,
    procs_on_path, type_on_path, Fit,
};
use crate::pg_catalog::{PgOperator, PgOperatorView};
use crate::scope::{
    column_named, columns_named, resolved_column, source_named, ScopeColumnView, SourceView,
};
use crate::table::row_get;
use vstd::prelude::*;

verus! {

// ── Types and relations ─────────────────────────────────────────────────────

proof fn lemma_type_on_path(c: CatalogView, path: Seq<u32>, name: Seq<char>, k: int)
    requires
        0 <= k <= path.len(),
        forall|i: int| 0 <= i < k ==> c.type_named(#[trigger] path[i], name) is None,
        k < path.len() ==> c.type_named(path[k], name) is Some,
    ensures
        type_on_path(c, path, name) == if k < path.len() {
            c.type_named(path[k], name)
        } else {
            None
        },
    decreases path.len(),
{
    if k > 0 {
        assert(c.type_named(path[0], name) is None);
        let rest = path.drop_first();
        assert forall|i: int| 0 <= i < k - 1 implies c.type_named(
            #[trigger] rest[i],
            name,
        ) is None by {
            assert(c.type_named(path[i + 1], name) is None);
        }
        lemma_type_on_path(c, rest, name, k - 1);
    }
}

proof fn lemma_class_on_path(c: CatalogView, path: Seq<u32>, name: Seq<char>, k: int)
    requires
        0 <= k <= path.len(),
        forall|i: int| 0 <= i < k ==> c.class_named(#[trigger] path[i], name) is None,
        k < path.len() ==> c.class_named(path[k], name) is Some,
    ensures
        class_on_path(c, path, name) == if k < path.len() {
            c.class_named(path[k], name)
        } else {
            None
        },
    decreases path.len(),
{
    if k > 0 {
        assert(c.class_named(path[0], name) is None);
        let rest = path.drop_first();
        assert forall|i: int| 0 <= i < k - 1 implies c.class_named(
            #[trigger] rest[i],
            name,
        ) is None by {
            assert(c.class_named(path[i + 1], name) is None);
        }
        lemma_class_on_path(c, rest, name, k - 1);
    }
}

/// A type without a schema is that of the first schema on the search path that has one of
/// the name, and else that of `pg_catalog`.
pub proof fn law_type_is_that_of_the_first_schema(c: CatalogView, name: Seq<char>, k: int)
    requires
        0 <= k <= c.search_path.len(),
        forall|i: int| 0 <= i < k ==> c.type_named(#[trigger] c.search_path[i], name) is None,
        k < c.search_path.len() ==> c.type_named(c.search_path[k], name) is Some,
    ensures
        k < c.search_path.len() ==> c.resolve_type(None, name) == c.type_named(
            c.search_path[k],
            name,
        ),
        k == c.search_path.len() ==> c.resolve_type(None, name) == match c.namespace_oid(
            "pg_catalog"@,
        ) {
            Some(ns) => c.type_named(ns, name),
            None => None,
        },
{
    let path = c.object_path(None);
    assert forall|i: int| 0 <= i < k implies c.type_named(#[trigger] path[i], name) is None by {
        assert(path[i] == c.search_path[i]);
    }
    if k < c.search_path.len() {
        assert(path[k] == c.search_path[k]);
        lemma_type_on_path(c, path, name, k);
    } else if let Some(ns) = c.namespace_oid("pg_catalog"@) {
        assert(path[k] == ns);
        if c.type_named(ns, name) is Some {
            lemma_type_on_path(c, path, name, k);
        } else {
            assert forall|i: int| 0 <= i < k + 1 implies c.type_named(
                #[trigger] path[i],
                name,
            ) is None by {
                if i < k {
                    assert(path[i] == c.search_path[i]);
                }
            }
            lemma_type_on_path(c, path, name, k + 1);
        }
    } else {
        lemma_type_on_path(c, path, name, k);
    }
}

/// A relation without a schema is that of the first schema on the search path that has one
/// of the name, and else that of `pg_catalog`.
pub proof fn law_relation_is_that_of_the_first_schema(c: CatalogView, name: Seq<char>, k: int)
    requires
        0 <= k <= c.search_path.len(),
        forall|i: int| 0 <= i < k ==> c.class_named(#[trigger] c.search_path[i], name) is None,
        k < c.search_path.len() ==> c.class_named(c.search_path[k], name) is Some,
    ensures
        k < c.search_path.len() ==> c.resolve_table(None, name) == c.class_named(
            c.search_path[k],
            name,
        ),
        k == c.search_path.len() ==> c.resolve_table(None, name) == match c.namespace_oid(
            "pg_catalog"@,
        ) {
            Some(ns) => c.class_named(ns, name),
            None => None,
        },
{
    let path = c.object_path(None);
    assert forall|i: int| 0 <= i < k implies c.class_named(#[trigger] path[i], name) is None by {
        assert(path[i] == c.search_path[i]);
    }
    if k < c.search_path.len() {
        assert(path[k] == c.search_path[k]);
        lemma_class_on_path(c, path, name, k);
    } else if let Some(ns) = c.namespace_oid("pg_catalog"@) {
        assert(path[k] == ns);
        if c.class_named(ns, name) is Some {
            lemma_class_on_path(c, path, name, k);
        } else {
            assert forall|i: int| 0 <= i < k + 1 implies c.class_named(
                #[trigger] path[i],
                name,
            ) is None by {
                if i < k {
                    assert(path[i] == c.search_path[i]);
                }
            }
            lemma_class_on_path(c, path, name, k + 1);
        }
    } else {
        lemma_class_on_path(c, path, name, k);
    }
}

/// With a schema, a type or relation is the one of the name in that schema alone.
pub proof fn law_schema_is_where_the_name_is_looked_up(
    c: CatalogView,
    schema: Seq<char>,
    name: Seq<char>,
)
    ensures
        c.namespace_oid(schema) matches Some(ns) ==> c.resolve_type(Some(schema), name)
            == c.type_named(ns, name) && c.resolve_table(Some(schema), name) == c.class_named(
            ns,
            name,
        ),
        c.namespace_oid(schema) is None ==> c.resolve_type(Some(schema), name) is None
            && c.resolve_table(Some(schema), name) is None && c.find_functions(
            Some(schema),
            name,
        ).len() == 0,
{
    if let Some(ns) = c.namespace_oid(schema) {
        let path = c.object_path(Some(schema));
        assert(path == seq![ns]);
        if c.type_named(ns, name) is Some {
            lemma_type_on_path(c, path, name, 0);
        } else {
            lemma_type_on_path(c, path, name, 1);
        }
        if c.class_named(ns, name) is Some {
            lemma_class_on_path(c, path, name, 0);
        } else {
            lemma_class_on_path(c, path, name, 1);
        }
    }
}

// ── Routines and operators ──────────────────────────────────────────────────

proof fn lemma_known_procs(c: CatalogView, oids: Seq<u32>, x: u32)
    ensures
        known_procs(c, oids).contains(x) <==> oids.contains(x) && c.get_proc(x) is Some,
    decreases oids.len(),
{
    reveal(Seq::filter);
    if oids.len() > 0 {
        let head = oids.drop_last();
        lemma_known_procs(c, head, x);
        lemma_last_of(oids, x);
        if c.get_proc(oids.last()) is Some {
            lemma_last_of(known_procs(c, head).push(oids.last()), x);
            assert(known_procs(c, head).push(oids.last()).drop_last() =~= known_procs(c, head));
        }
    }
}

proof fn lemma_known_operators(c: CatalogView, oids: Seq<u32>, x: u32)
    ensures
        known_operators(c, oids).contains(x) <==> oids.contains(x) && row_get::<PgOperator>(
            c.pg_operator,
            x,
        ) is Some,
    decreases oids.len(),
{
    reveal(Seq::filter);
    if oids.len() > 0 {
        let head = oids.drop_last();
        lemma_known_operators(c, head, x);
        lemma_last_of(oids, x);
        if row_get::<PgOperator>(c.pg_operator, oids.last()) is Some {
            lemma_last_of(known_operators(c, head).push(oids.last()), x);
            assert(known_operators(c, head).push(oids.last()).drop_last() =~= known_operators(
                c,
                head,
            ));
        }
    }
}

proof fn lemma_last_of(s: Seq<u32>, x: u32)
    requires
        s.len() > 0,
    ensures
        s.contains(x) <==> s.drop_last().contains(x) || s.last() == x,
{
    let head = s.drop_last();
    if s.contains(x) {
        let k = choose|k: int| 0 <= k < s.len() && s[k] == x;
        if k < head.len() {
            assert(head[k] == x);
        }
    }
    if head.contains(x) {
        let k = choose|k: int| 0 <= k < head.len() && head[k] == x;
        assert(s[k] == x);
    }
    if s.last() == x {
        assert(s[s.len() - 1] == x);
    }
}

proof fn lemma_both(a: Seq<u32>, b: Seq<u32>, x: u32)
    ensures
        (a + b).contains(x) <==> a.contains(x) || b.contains(x),
{
    let both = a + b;
    if a.contains(x) {
        let k = choose|k: int| 0 <= k < a.len() && a[k] == x;
        assert(both[k] == x);
    }
    if b.contains(x) {
        let k = choose|k: int| 0 <= k < b.len() && b[k] == x;
        assert(both[a.len() + k] == x);
    }
    if both.contains(x) {
        let k = choose|k: int| 0 <= k < both.len() && both[k] == x;
        if k < a.len() {
            assert(a[k] == x);
        } else {
            assert(b[k - a.len()] == x);
        }
    }
}

proof fn lemma_procs_on_path(c: CatalogView, path: Seq<u32>, name: Seq<char>, x: u32)
    ensures
        procs_on_path(c, path, name).contains(x) <==> c.get_proc(x) is Some && exists|i: int|
            0 <= i < path.len() && c.procs_named(#[trigger] path[i], name).contains(x),
    decreases path.len(),
{
    if path.len() > 0 {
        let head = path.drop_last();
        lemma_procs_on_path(c, head, name, x);
        let here = known_procs(c, c.procs_named(path.last(), name));
        lemma_both(procs_on_path(c, head, name), here, x);
        lemma_known_procs(c, c.procs_named(path.last(), name), x);
        if exists|i: int|
            0 <= i < head.len() && c.procs_named(#[trigger] head[i], name).contains(x) {
            let i = choose|i: int|
                0 <= i < head.len() && c.procs_named(#[trigger] head[i], name).contains(x);
            assert(c.procs_named(path[i], name).contains(x));
        }
        if exists|i: int|
            0 <= i < path.len() && c.procs_named(#[trigger] path[i], name).contains(x) {
            let i = choose|i: int|
                0 <= i < path.len() && c.procs_named(#[trigger] path[i], name).contains(x);
            if i < head.len() {
                assert(c.procs_named(head[i], name).contains(x));
            }
        }
        assert(path[path.len() - 1] == path.last());
    }
}

proof fn lemma_operators_on_path(c: CatalogView, path: Seq<u32>, name: Seq<char>, x: u32)
    ensures
        operators_on_path(c, path, name).contains(x) <==> row_get::<PgOperator>(
            c.pg_operator,
            x,
        ) is Some && exists|i: int|
            0 <= i < path.len() && c.operators_named(#[trigger] path[i], name).contains(x),
    decreases path.len(),
{
    if path.len() > 0 {
        let head = path.drop_last();
        lemma_operators_on_path(c, head, name, x);
        let here = known_operators(c, c.operators_named(path.last(), name));
        lemma_both(operators_on_path(c, head, name), here, x);
        lemma_known_operators(c, c.operators_named(path.last(), name), x);
        if exists|i: int|
            0 <= i < head.len() && c.operators_named(#[trigger] head[i], name).contains(x) {
            let i = choose|i: int|
                0 <= i < head.len() && c.operators_named(#[trigger] head[i], name).contains(x);
            assert(c.operators_named(path[i], name).contains(x));
        }
        if exists|i: int|
            0 <= i < path.len() && c.operators_named(#[trigger] path[i], name).contains(x) {
            let i = choose|i: int|
                0 <= i < path.len() && c.operators_named(#[trigger] path[i], name).contains(x);
            if i < head.len() {
                assert(c.operators_named(head[i], name).contains(x));
            }
        }
        assert(path[path.len() - 1] == path.last());
    }
}

/// A schema in which a routine or operator without one is looked for: `pg_catalog`, or a
/// schema on the search path.
pub open spec fn searched(c: CatalogView, ns: u32) -> bool {
    c.search_path.contains(ns) || c.namespace_oid("pg_catalog"@) == Some(ns)
}

proof fn lemma_searched(c: CatalogView, ns: u32)
    ensures
        c.routine_path(None).contains(ns) <==> searched(c, ns),
{
    if let Some(b) = c.builtin_schema() {
        if !c.search_path.contains(b) {
            lemma_both(seq![b], c.search_path, ns);
            assert(seq![b].contains(ns) <==> b == ns) by {
                assert(seq![b][0] == b);
            }
        }
    }
}

/// The routines that a name without a schema may stand for are all those of the name in
/// `pg_catalog` and in the schemas on the search path.
pub proof fn law_routines_of_all_searched_schemas(c: CatalogView, name: Seq<char>, oid: u32)
    ensures
        c.find_functions(None, name).contains(oid) <==> c.get_proc(oid) is Some && exists|ns: u32|
            #[trigger] searched(c, ns) && c.procs_named(ns, name).contains(oid),
{
    let path = c.routine_path(None);
    lemma_procs_on_path(c, path, name, oid);
    if exists|ns: u32| #[trigger] searched(c, ns) && c.procs_named(ns, name).contains(oid) {
        let ns = choose|ns: u32| #[trigger]
            searched(c, ns) && c.procs_named(ns, name).contains(oid);
        lemma_searched(c, ns);
        let i = choose|i: int| 0 <= i < path.len() && path[i] == ns;
        assert(c.procs_named(path[i], name).contains(oid));
    }
    if exists|i: int| 0 <= i < path.len() && c.procs_named(#[trigger] path[i], name).contains(
        oid,
    ) {
        let i = choose|i: int|
            0 <= i < path.len() && c.procs_named(#[trigger] path[i], name).contains(oid);
        lemma_searched(c, path[i]);
        assert(searched(c, path[i]) && c.procs_named(path[i], name).contains(oid));
    }
}

/// An operator that a name may stand for.
pub open spec fn operator_of_name(
    c: CatalogView,
    name: Seq<char>,
    oid: u32,
    op: PgOperatorView,
) -> bool {
    row_get::<PgOperator>(c.pg_operator, oid) == Some(op) && exists|ns: u32|
        #[trigger] searched(c, ns) && c.operators_named(ns, name).contains(oid)
}

proof fn lemma_operator_of_name(c: CatalogView, name: Seq<char>, oid: u32)
    ensures
        operators_on_path(c, c.routine_path(None), name).contains(oid) <==> row_get::<PgOperator>(
            c.pg_operator,
            oid,
        ) is Some && operator_of_name(
            c,
            name,
            oid,
            row_get::<PgOperator>(c.pg_operator, oid)->0,
        ),
{
    let path = c.routine_path(None);
    lemma_operators_on_path(c, path, name, oid);
    if exists|ns: u32| #[trigger] searched(c, ns) && c.operators_named(ns, name).contains(oid) {
        let ns = choose|ns: u32| #[trigger]
            searched(c, ns) && c.operators_named(ns, name).contains(oid);
        lemma_searched(c, ns);
        let i = choose|i: int| 0 <= i < path.len() && path[i] == ns;
        assert(c.operators_named(path[i], name).contains(oid));
    }
    if exists|i: int|
        0 <= i < path.len() && c.operators_named(#[trigger] path[i], name).contains(oid) {
        let i = choose|i: int|
            0 <= i < path.len() && c.operators_named(#[trigger] path[i], name).contains(oid);
        lemma_searched(c, path[i]);
        assert(searched(c, path[i]) && c.operators_named(path[i], name).contains(oid));
    }
}

proof fn lemma_first_operator(
    c: CatalogView,
    oids: Seq<u32>,
    left: Option<u32>,
    right: u32,
    fit: Fit,
)
    ensures
        first_operator(c, oids, left, right, fit) matches Some(op) ==> operator_fits(
            c,
            op,
            left,
            right,
            fit,
        ) && exists|i: int|
            0 <= i < oids.len() && row_get::<PgOperator>(c.pg_operator, #[trigger] oids[i])
                == Some(op),
        first_operator(c, oids, left, right, fit) is None ==> forall|i: int|
            0 <= i < oids.len() ==> (row_get::<PgOperator>(
                c.pg_operator,
                #[trigger] oids[i],
            ) matches Some(op) ==> !operator_fits(c, op, left, right, fit)),
    decreases oids.len(),
{
    if oids.len() > 0 {
        let rest = oids.drop_first();
        lemma_first_operator(c, rest, left, right, fit);
        let found = first_operator(c, oids, left, right, fit);
        if let Some(op) = found {
            if row_get::<PgOperator>(c.pg_operator, oids[0]) != Some(op) {
                let i = choose|i: int|
                    0 <= i < rest.len() && row_get::<PgOperator>(c.pg_operator, #[trigger] rest[i])
                        == Some(op);
                assert(oids[i + 1] == rest[i]);
            }
        } else {
            assert forall|i: int| 0 <= i < oids.len() implies (row_get::<PgOperator>(
                c.pg_operator,
                #[trigger] oids[i],
            ) matches Some(op) ==> !operator_fits(c, op, left, right, fit)) by {
                if i > 0 {
                    assert(rest[i - 1] == oids[i]);
                }
            }
        }
    }
}

/// An operand goes where an operator expects it: it has the type, none is known of it, or
/// an implicit cast leads there.
pub open spec fn operand_goes(c: CatalogView, actual: u32, expected: u32) -> bool {
    actual == expected || actual == 705 || c.has_implicit_cast(actual, expected)
}

/// An operator that is found has the name, and its operands go where it expects them, below
/// their domains; with an operand of unknown type it may be one for two of the other type.
pub proof fn law_found_operator_takes_the_operands(
    c: CatalogView,
    name: Seq<char>,
    left: u32,
    right: u32,
)
    ensures
        c.find_operator(name, Some(left), right) matches Some(op) ==> op.oprleft is Some
            && operand_goes(c, c.unwrap_domain(left), op.oprleft->0) && operand_goes(
            c,
            c.unwrap_domain(right),
            op.oprright,
        ) && exists|oid: u32| #[trigger] operator_of_name(c, name, oid, op),
{
    let oids = operators_on_path(c, c.routine_path(None), name);
    let l = c.unwrap_domain(left);
    let r = c.unwrap_domain(right);
    let both_l = if l == 705 {
        Some(r)
    } else {
        Some(l)
    };
    let both_r = if r == 705 {
        l
    } else {
        r
    };
    lemma_first_operator(c, oids, both_l, both_r, Fit::Same);
    lemma_first_operator(c, oids, Some(l), r, Fit::SameOrUnknown);
    lemma_first_operator(c, oids, Some(l), r, Fit::Castable);
    if let Some(op) = c.find_operator(name, Some(left), right) {
        let i = choose|i: int|
            0 <= i < oids.len() && row_get::<PgOperator>(c.pg_operator, #[trigger] oids[i]) == Some(
                op,
            );
        lemma_operator_of_name(c, name, oids[i]);
        assert(operator_of_name(c, name, oids[i], op));
    }
}

/// An operator for just the types of the operands, below their domains, goes before all
/// others; an operand of unknown type counts as one of the other type.
pub proof fn law_exact_operator_wins(
    c: CatalogView,
    name: Seq<char>,
    left: u32,
    right: u32,
    oid: u32,
    op: PgOperatorView,
)
    requires
        operator_of_name(c, name, oid, op),
        c.unwrap_domain(left) != 705 || c.unwrap_domain(right) != 705,
        op.oprleft == Some(
            if c.unwrap_domain(left) == 705 {
                c.unwrap_domain(right)
            } else {
                c.unwrap_domain(left)
            },
        ),
        op.oprright == if c.unwrap_domain(right) == 705 {
            c.unwrap_domain(left)
        } else {
            c.unwrap_domain(right)
        },
    ensures
        c.find_operator(name, Some(left), right) matches Some(found) && found.oprleft == op.oprleft
            && found.oprright == op.oprright,
{
    let oids = operators_on_path(c, c.routine_path(None), name);
    lemma_operator_of_name(c, name, oid);
    lemma_first_operator(c, oids, op.oprleft, op.oprright, Fit::Same);
    let i = choose|i: int| 0 <= i < oids.len() && oids[i] == oid;
    assert(row_get::<PgOperator>(c.pg_operator, oids[i]) == Some(op));
}

/// Where an operator of the name takes the operands, one is found.
pub proof fn law_operator_is_found_where_one_fits(
    c: CatalogView,
    name: Seq<char>,
    left: u32,
    right: u32,
    oid: u32,
    op: PgOperatorView,
)
    requires
        operator_of_name(c, name, oid, op),
        c.unwrap_domain(left) != 705 || c.unwrap_domain(right) != 705,
        op.oprleft is Some,
        operand_goes(c, c.unwrap_domain(left), op.oprleft->0),
        operand_goes(c, c.unwrap_domain(right), op.oprright),
    ensures
        c.find_operator(name, Some(left), right) is Some,
{
    let oids = operators_on_path(c, c.routine_path(None), name);
    lemma_operator_of_name(c, name, oid);
    lemma_first_operator(
        c,
        oids,
        Some(c.unwrap_domain(left)),
        c.unwrap_domain(right),
        Fit::Castable,
    );
    let i = choose|i: int| 0 <= i < oids.len() && oids[i] == oid;
    assert(row_get::<PgOperator>(c.pg_operator, oids[i]) == Some(op));
}

/// Between operands of which nothing is known no operator is found.
pub proof fn law_no_operator_between_unknowns(
    c: CatalogView,
    name: Seq<char>,
    left: u32,
    right: u32,
)
    requires
        c.unwrap_domain(left) == 705,
        c.unwrap_domain(right) == 705,
    ensures
        c.find_operator(name, Some(left), right) is None,
{
}

// ── Columns in scope ────────────────────────────────────────────────────────

/// A source has a column, the first of its name.
pub open spec fn has_column(
    source: SourceView,
    name: Seq<char>,
    col: ScopeColumnView,
) -> bool {
    exists|k: int|
        0 <= k < source.columns.len() && #[trigger] source.columns[k] == col && col.name == name
            && forall|j: int| 0 <= j < k ==> (#[trigger] source.columns[j]).name != name
}

/// A source has no column of a name.
pub open spec fn lacks_column(source: SourceView, name: Seq<char>) -> bool {
    forall|k: int| 0 <= k < source.columns.len() ==> (#[trigger] source.columns[k]).name != name
}

proof fn lemma_column_named(columns: Seq<ScopeColumnView>, name: Seq<char>, k: int)
    requires
        0 <= k <= columns.len(),
        forall|j: int| 0 <= j < k ==> (#[trigger] columns[j]).name != name,
        k < columns.len() ==> columns[k].name == name,
    ensures
        column_named(columns, name) == if k < columns.len() {
            Some(columns[k])
        } else {
            None
        },
    decreases columns.len(),
{
    if k > 0 {
        assert(columns[0].name != name);
        let rest = columns.drop_first();
        assert forall|j: int| 0 <= j < k - 1 implies (#[trigger] rest[j]).name != name by {
            assert(columns[j + 1].name != name);
        }
        lemma_column_named(rest, name, k - 1);
    }
}

proof fn lemma_has_column(source: SourceView, name: Seq<char>, col: ScopeColumnView)
    ensures
        has_column(source, name, col) ==> column_named(source.columns, name) == Some(col),
        lacks_column(source, name) ==> column_named(source.columns, name) is None,
{
    if has_column(source, name, col) {
        let k = choose|k: int|
            0 <= k < source.columns.len() && #[trigger] source.columns[k] == col && col.name == name
                && forall|j: int| 0 <= j < k ==> (#[trigger] source.columns[j]).name != name;
        lemma_column_named(source.columns, name, k);
    }
    if lacks_column(source, name) {
        lemma_column_named(source.columns, name, source.columns.len() as int);
    }
}

proof fn lemma_source_named(sources: Seq<SourceView>, alias: Seq<char>, k: int)
    requires
        0 <= k <= sources.len(),
        forall|j: int| 0 <= j < k ==> (#[trigger] sources[j]).alias != alias,
        k < sources.len() ==> sources[k].alias == alias,
    ensures
        source_named(sources, alias) == if k < sources.len() {
            Some(sources[k])
        } else {
            None
        },
    decreases sources.len(),
{
    if k > 0 {
        assert(sources[0].alias != alias);
        let rest = sources.drop_first();
        assert forall|j: int| 0 <= j < k - 1 implies (#[trigger] rest[j]).alias != alias by {
            assert(sources[j + 1].alias != alias);
        }
        lemma_source_named(rest, alias, k - 1);
    }
}

/// A column behind an alias is that of the first source with the alias; without such a
/// source the table is missing, and without the column in it the column is.
pub proof fn law_qualified_column_is_of_its_source(
    sources: Seq<SourceView>,
    alias: Seq<char>,
    name: Seq<char>,
    k: int,
    col: ScopeColumnView,
)
    requires
        0 <= k <= sources.len(),
        forall|j: int| 0 <= j < k ==> (#[trigger] sources[j]).alias != alias,
        k < sources.len() ==> sources[k].alias == alias,
    ensures
        k < sources.len() && has_column(sources[k], name, col) ==> resolved_column(
            sources,
            Some(alias),
            name,
        ) == Ok::<_, AnalyzeErrorView>(col),
        k < sources.len() && lacks_column(sources[k], name) ==> resolved_column(
            sources,
            Some(alias),
            name,
        ) matches Err(AnalyzeErrorView::UndefinedColumn(_)),
        k == sources.len() ==> resolved_column(sources, Some(alias), name) matches Err(
            AnalyzeErrorView::UndefinedTable(_),
        ),
{
    lemma_source_named(sources, alias, k);
    if k < sources.len() {
        lemma_has_column(sources[k], name, col);
    }
}

proof fn lemma_columns_named(sources: Seq<SourceView>, name: Seq<char>)
    ensures
        (forall|i: int| 0 <= i < sources.len() ==> lacks_column(#[trigger] sources[i], name))
            ==> columns_named(sources, name).len() == 0,
        forall|i: int, col: ScopeColumnView|
            0 <= i < sources.len() && #[trigger] has_column(sources[i], name, col)
                ==> columns_named(sources, name).contains(col),
        columns_named(sources, name).len() <= sources.len(),
    decreases sources.len(),
{
    if sources.len() > 0 {
        let head = sources.drop_last();
        lemma_columns_named(head, name);
        let all = columns_named(sources, name);
        let before = columns_named(head, name);
        if forall|i: int| 0 <= i < sources.len() ==> lacks_column(#[trigger] sources[i], name) {
            assert forall|i: int| 0 <= i < head.len() implies lacks_column(
                #[trigger] head[i],
                name,
            ) by {
                assert(lacks_column(sources[i], name));
            }
            assert(lacks_column(sources[sources.len() - 1], name));
            lemma_has_column(sources.last(), name, arbitrary());
        }
        assert forall|i: int, col: ScopeColumnView|
            0 <= i < sources.len() && #[trigger] has_column(
                sources[i],
                name,
                col,
            ) implies all.contains(col) by {
            if i < head.len() {
                assert(has_column(head[i], name, col));
                let k = choose|k: int| 0 <= k < before.len() && before[k] == col;
                assert(all[k] == col);
            } else {
                lemma_has_column(sources.last(), name, col);
                assert(all[before.len() as int] == col);
            }
        }
    }
}

/// The number of columns that a name alone stands for does not count sources without one.
proof fn lemma_only_one(sources: Seq<SourceView>, name: Seq<char>, k: int, col: ScopeColumnView)
    requires
        0 <= k < sources.len(),
        has_column(sources[k], name, col),
        forall|i: int|
            0 <= i < sources.len() && i != k ==> lacks_column(#[trigger] sources[i], name),
    ensures
        columns_named(sources, name) == seq![col],
    decreases sources.len(),
{
    let head = sources.drop_last();
    if k == sources.len() - 1 {
        lemma_columns_named(head, name);
        assert forall|i: int| 0 <= i < head.len() implies lacks_column(
            #[trigger] head[i],
            name,
        ) by {
            assert(lacks_column(sources[i], name));
        }
        lemma_has_column(sources[k], name, col);
        assert(columns_named(head, name) =~= Seq::empty());
        assert(columns_named(sources, name) =~= seq![col]);
    } else {
        assert(head[k] == sources[k]);
        assert forall|i: int| 0 <= i < head.len() && i != k implies lacks_column(
            #[trigger] head[i],
            name,
        ) by {
            assert(lacks_column(sources[i], name));
        }
        lemma_only_one(head, name, k, col);
        assert(lacks_column(sources[sources.len() - 1], name));
        lemma_has_column(sources.last(), name, col);
    }
}

proof fn lemma_two_or_more(
    sources: Seq<SourceView>,
    name: Seq<char>,
    k: int,
    m: int,
    a: ScopeColumnView,
    b: ScopeColumnView,
)
    requires
        0 <= k < m < sources.len(),
        has_column(sources[k], name, a),
        has_column(sources[m], name, b),
    ensures
        columns_named(sources, name).len() >= 2,
    decreases sources.len(),
{
    let head = sources.drop_last();
    if m == sources.len() - 1 {
        lemma_columns_named(head, name);
        assert(has_column(head[k], name, a));
        lemma_has_column(sources[m], name, b);
    } else {
        lemma_two_or_more(head, name, k, m, a, b);
    }
}

/// A column without an alias is that of the only source which has one of the name. Without
/// such a source it is missing, and with two of them ambiguous.
pub proof fn law_bare_column_is_of_the_only_source(
    sources: Seq<SourceView>,
    name: Seq<char>,
    k: int,
    m: int,
    a: ScopeColumnView,
    b: ScopeColumnView,
)
    ensures
        0 <= k < sources.len() && has_column(sources[k], name, a) && (forall|i: int|
            0 <= i < sources.len() && i != k ==> lacks_column(#[trigger] sources[i], name))
            ==> resolved_column(sources, None, name) == Ok::<_, AnalyzeErrorView>(a),
        0 <= k < m < sources.len() && has_column(sources[k], name, a) && has_column(
            sources[m],
            name,
            b,
        ) ==> resolved_column(sources, None, name) matches Err(
            AnalyzeErrorView::AmbiguousColumn(_),
        ),
        (forall|i: int| 0 <= i < sources.len() ==> lacks_column(#[trigger] sources[i], name))
            ==> resolved_column(sources, None, name) matches Err(
            AnalyzeErrorView::UndefinedColumn(_),
        ),
{
    lemma_columns_named(sources, name);
    if 0 <= k < sources.len() && has_column(sources[k], name, a) && (forall|i: int|
        0 <= i < sources.len() && i != k ==> lacks_column(#[trigger] sources[i], name)) {
        lemma_only_one(sources, name, k, a);
    }
    if 0 <= k < m < sources.len() && has_column(sources[k], name, a) && has_column(
        sources[m],
        name,
        b,
    ) {
        lemma_two_or_more(sources, name, k, m, a, b);
    }
}

} // verus!
