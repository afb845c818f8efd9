//! What `DROP` takes away and what it leaves.

use super::aggregates::{aggregate_result, first_function};
use super::drop::{
    column_has_type, known_type_drop, relations_using, schema_drop, some_column_has_type,
    without_columns_of_type,
};
use super::dependents::views_on;
use super::operators::{first_result, operator_result, OperatorOptions};
use super::routines::{first_routine, routine_named, RoutineKind};
use super::stmt::ObjectRef;
use super::DdlErrorView;
use crate::catalog::CatalogView;
use crate::catalog_laws::law_dropped_row_is_gone;
use crate::pg_catalog::{PgClass, PgProc, PgProcView, PgType, ProKind, RelAttrsView, PG_TYPE_RELID};
use crate::table::{distinct_keys, lemma_drop_keeps_distinct, owned_keys, row_get, OwnedRow};
use vstd::prelude::*;

verus! {

// ── Types ───────────────────────────────────────────────────────────────────

proof fn lemma_relations_using(rows: Seq<RelAttrsView>, t: u32, array: Option<u32>, relid: u32)
    ensures
        relations_using(rows, t, array).contains(relid) <==> exists|i: int|
            0 <= i < rows.len() && (#[trigger] rows[i]).relid == relid && some_column_has_type(
                rows[i].attrs,
                t,
                array,
            ),
    decreases rows.len(),
{
    if rows.len() > 0 {
        let head = rows.drop_last();
        let before = relations_using(head, t, array);
        let all = relations_using(rows, t, array);
        lemma_relations_using(head, t, array, relid);
        assert forall|i: int| 0 <= i < head.len() implies #[trigger] rows[i] == head[i] by {}
        assert(rows[rows.len() - 1] == rows.last());
        if before.contains(relid) {
            let k = choose|k: int| 0 <= k < before.len() && before[k] == relid;
            assert(all[k] == relid);
            let i = choose|i: int|
                0 <= i < head.len() && (#[trigger] head[i]).relid == relid
                    && some_column_has_type(head[i].attrs, t, array);
            assert(rows[i].relid == relid);
        }
        if some_column_has_type(rows.last().attrs, t, array) {
            assert(all[all.len() - 1] == rows.last().relid);
            if all.contains(relid) && !before.contains(relid) {
                let k = choose|k: int| 0 <= k < all.len() && all[k] == relid;
                if k < before.len() {
                    assert(before[k] == relid);
                }
                assert(rows.last().relid == relid);
            }
        }
        if exists|i: int|
            0 <= i < rows.len() && (#[trigger] rows[i]).relid == relid && some_column_has_type(
                rows[i].attrs,
                t,
                array,
            ) {
            let i = choose|i: int|
                0 <= i < rows.len() && (#[trigger] rows[i]).relid == relid
                    && some_column_has_type(rows[i].attrs, t, array);
            if i < head.len() {
                assert(head[i].relid == relid);
            }
        }
    }
}

/// A type that some column has, itself or as the element of an array, stays, unless what
/// depends on it is to go too.
pub proof fn law_type_of_a_column_stays(c: CatalogView, t: u32, name: Seq<char>, i: int, k: int)
    requires
        0 <= i < c.pg_attribute.len(),
        0 <= k < c.pg_attribute[i].attrs.len(),
        c.pg_attribute[i].attrs[k].atttypid == t || c.array_type_of(t) == Some(
            c.pg_attribute[i].attrs[k].atttypid,
        ),
    ensures
        known_type_drop(c, t, name, false).0 matches Err(DdlErrorView::DependencyError(_)),
        known_type_drop(c, t, name, false).1 == c,
{
    let array = c.array_type_of(t);
    let row = c.pg_attribute[i];
    assert(column_has_type(row.attrs[k], t, array));
    assert(some_column_has_type(row.attrs, t, array));
    lemma_relations_using(c.pg_attribute, t, array, row.relid);
    assert(relations_using(c.pg_attribute, t, array).len() > 0);
}

/// A type that nothing uses goes, with the array type over it, and no other.
pub proof fn law_unused_type_goes(c: CatalogView, t: u32, name: Seq<char>, cascade: bool, u: u32)
    requires
        distinct_keys::<PgType>(c.pg_type),
        forall|i: int, k: int|
            0 <= i < c.pg_attribute.len() && 0 <= k < c.pg_attribute[i].attrs.len() ==> (
            #[trigger] c.pg_attribute[i].attrs[k]).atttypid != t && c.array_type_of(t) != Some(
                c.pg_attribute[i].attrs[k].atttypid,
            ),
        views_on(c, PG_TYPE_RELID, t, None).len() == 0,
        c.array_type_of(t) matches Some(a) ==> a != t,
    ensures
        known_type_drop(c, t, name, cascade).0 is Ok,
        row_get::<PgType>(known_type_drop(c, t, name, cascade).1.pg_type, u) == if u == t
            || c.array_type_of(t) == Some(u) {
            None
        } else {
            row_get::<PgType>(c.pg_type, u)
        },
{
    let array = c.array_type_of(t);
    let used = relations_using(c.pg_attribute, t, array);
    if used.len() > 0 {
        lemma_relations_using(c.pg_attribute, t, array, used[0]);
        assert(used.contains(used[0]));
        let i = choose|i: int|
            0 <= i < c.pg_attribute.len() && (#[trigger] c.pg_attribute[i]).relid == used[0]
                && some_column_has_type(c.pg_attribute[i].attrs, t, array);
        let k = choose|k: int|
            0 <= k < c.pg_attribute[i].attrs.len() && #[trigger] column_has_type(
                c.pg_attribute[i].attrs[k],
                t,
                array,
            );
        assert(c.pg_attribute[i].attrs[k].atttypid != t);
    }
    assert(without_columns_of_type(c, used, 0, t, array) == c);
    match array {
        Some(a) => {
            lemma_type_goes(c, a, u);
            let c1 = c.without_type(a);
            lemma_type_goes(c1.without_dependencies(PG_TYPE_RELID, a), t, u);
        },
        None => lemma_type_goes(c, t, u),
    }
}

proof fn lemma_type_goes(c: CatalogView, t: u32, u: u32)
    requires
        distinct_keys::<PgType>(c.pg_type),
    ensures
        row_get::<PgType>(c.without_type(t).pg_type, u) == if u == t {
            None
        } else {
            row_get::<PgType>(c.pg_type, u)
        },
        distinct_keys::<PgType>(c.without_type(t).pg_type),
{
    if row_get::<PgType>(c.pg_type, t) is Some {
        law_dropped_row_is_gone::<PgType>(c.pg_type, t, u);
        lemma_drop_keeps_distinct::<PgType>(c.pg_type, t);
    }
}

// ── Schemas ─────────────────────────────────────────────────────────────────

proof fn lemma_owned_keys<R: OwnedRow>(rows: Seq<R::V>, owner: u32, i: int)
    requires
        0 <= i < rows.len(),
        R::owner_of(rows[i]) == owner,
    ensures
        owned_keys::<R>(rows, owner).len() > 0,
    decreases rows.len(),
{
    if i < rows.len() - 1 {
        lemma_owned_keys::<R>(rows.drop_last(), owner, i);
    }
}

/// A schema that still holds a relation, a type or a routine stays, unless they are to go
/// too.
pub proof fn law_schema_in_use_stays(
    c: CatalogView,
    name: String,
    missing_ok: bool,
    ns: u32,
    i: int,
)
    requires
        c.namespace_oid(name@) == Some(ns),
        (0 <= i < c.pg_class.len() && c.pg_class[i].relnamespace == ns) || (0 <= i
            < c.pg_type.len() && c.pg_type[i].typnamespace == ns) || (0 <= i < c.pg_proc.len()
            && c.pg_proc[i].pronamespace == ns),
    ensures
        schema_drop(c, ObjectRef::Text(name), missing_ok, false).0 matches Err(
            DdlErrorView::DependencyError(_),
        ),
        schema_drop(c, ObjectRef::Text(name), missing_ok, false).1 == c,
{
    if 0 <= i < c.pg_class.len() && c.pg_class[i].relnamespace == ns {
        lemma_owned_keys::<PgClass>(c.pg_class, ns, i);
    } else if 0 <= i < c.pg_type.len() && c.pg_type[i].typnamespace == ns {
        lemma_owned_keys::<PgType>(c.pg_type, ns, i);
    } else {
        lemma_owned_keys::<PgProc>(c.pg_proc, ns, i);
    }
}

// ── Routines ────────────────────────────────────────────────────────────────

/// A routine is of a kind: functions and window functions are functions.
pub open spec fn of_kind(p: PgProcView, want: RoutineKind) -> bool {
    match want {
        RoutineKind::Function => p.prokind == ProKind::Function || p.prokind == ProKind::Window,
        RoutineKind::Procedure => p.prokind == ProKind::Procedure,
        RoutineKind::Aggregate => p.prokind == ProKind::Aggregate,
    }
}

/// A candidate is the routine that is meant: of the kind and, where argument types are
/// given, with just these.
pub open spec fn meant(c: CatalogView, oid: u32, want: RoutineKind, args: Option<Seq<u32>>) -> bool {
    c.get_proc(oid) matches Some(p) && of_kind(p, want) && (args matches Some(l) ==> p.proargtypes
        == l)
}

proof fn lemma_first_routine(
    c: CatalogView,
    oids: Seq<u32>,
    want: RoutineKind,
    args: Option<Seq<u32>>,
)
    ensures
        match first_routine(c, oids, want, args) {
            Some(oid) => exists|i: int|
                0 <= i < oids.len() && #[trigger] oids[i] == oid && meant(c, oid, want, args) && (
                forall|j: int| 0 <= j < i ==> !meant(c, #[trigger] oids[j], want, args)),
            None => forall|j: int| 0 <= j < oids.len() ==> !meant(c, #[trigger] oids[j], want, args),
        },
    decreases oids.len(),
{
    if oids.len() > 0 {
        let head = oids.drop_last();
        lemma_first_routine(c, head, want, args);
        assert(oids[oids.len() - 1] == oids.last());
        assert forall|j: int| 0 <= j < head.len() implies #[trigger] oids[j] == head[j] by {}
        match first_routine(c, head, want, args) {
            Some(oid) => {
                let i = choose|i: int|
                    0 <= i < head.len() && #[trigger] head[i] == oid && meant(c, oid, want, args)
                        && (forall|j: int|
                        0 <= j < i ==> !meant(c, #[trigger] head[j], want, args));
                assert(oids[i] == oid);
                assert forall|j: int| 0 <= j < i implies !meant(
                    c,
                    #[trigger] oids[j],
                    want,
                    args,
                ) by {
                    assert(head[j] == oids[j]);
                }
            },
            None => {
                assert forall|j: int| 0 <= j < head.len() implies !meant(
                    c,
                    #[trigger] oids[j],
                    want,
                    args,
                ) by {
                    assert(head[j] == oids[j]);
                }
            },
        }
    }
}

/// The routine that a statement names is the first of the name that is of the kind and, where
/// the statement gives argument types, takes just these; there is none where none is such.
pub proof fn law_named_routine_is_the_first_that_fits(
    c: CatalogView,
    schema: Option<Seq<char>>,
    name: Seq<char>,
    want: RoutineKind,
    args: Option<Seq<u32>>,
)
    ensures
        ({
            let oids = c.find_functions(schema, name);
            match routine_named(c, schema, name, want, args) {
                Some(oid) => exists|i: int|
                    0 <= i < oids.len() && #[trigger] oids[i] == oid && meant(c, oid, want, args)
                        && (forall|j: int|
                        0 <= j < i ==> !meant(c, #[trigger] oids[j], want, args)),
                None => forall|j: int|
                    0 <= j < oids.len() ==> !meant(c, #[trigger] oids[j], want, args),
            }
        }),
{
    lemma_first_routine(c, c.find_functions(schema, name), want, args);
}

// ── Operators and aggregates ────────────────────────────────────────────────

/// The only function of the name that takes the operands gives a new operator its result.
pub proof fn law_operator_has_the_result_of_its_function(
    c: CatalogView,
    o: OperatorOptions,
    right: u32,
    oid: u32,
    p: PgProcView,
)
    requires
        o.procedure is Some,
        c.find_functions((o.procedure->0).0, (o.procedure->0).1) == seq![oid],
        c.get_proc(oid) == Some(p),
    ensures
        p.proargtypes == (match o.left {
            Some(l) => seq![l, right],
            None => seq![right],
        }) ==> operator_result(c, o, right) == Some(p.prorettype),
        p.proargtypes.len() != (match o.left {
            Some(_) => 2nat,
            None => 1nat,
        }) ==> operator_result(c, o, right) is None,
{
    let oids = seq![oid];
    assert(oids.drop_last() =~= Seq::empty());
    assert(first_result(c, Seq::empty(), o.left, right) is None);
}

/// An aggregate returns what its final function returns, and without one its state.
pub proof fn law_aggregate_returns_its_final_value(
    c: CatalogView,
    schema: Option<Seq<char>>,
    name: Seq<char>,
    state: u32,
)
    ensures
        aggregate_result(c, None, Some(state)) == state,
        ({
            let found = c.find_functions(schema, name);
            found.len() > 0 ==> (c.get_proc(found[0]) matches Some(p) ==> aggregate_result(
                c,
                first_function(c, Some((schema, name))),
                Some(state),
            ) == p.prorettype)
        }),
{
}

} // verus!
