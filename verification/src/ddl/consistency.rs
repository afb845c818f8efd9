//! What every statement keeps: the tables of the catalog have no key twice, names
//! lead to rows that bear them, and no row has an OID that is still to be given out.

use crate::catalog::{attr_inserted, CatalogView};
use crate::catalog_laws::{
    bears, in_step, law_dropped_row_is_gone, law_put_row_is_found, lemma_drop_in_step,
    lemma_list_drop, lemma_list_put, lemma_list_rename,
    lemma_put_in_step, lists_in_step, name_of_cast, name_of_class,
    name_of_collation, name_of_extension, name_of_namespace, name_of_operator, name_of_proc,
    name_of_type,
};
use crate::pg_catalog::{
    EnumLabels, EnumLabelsView, PgAggregate, PgAttributeView, PgCast, PgClass, PgClassView,
    PgCollation, PgCollationView, PgConstraint, PgConstraintView, PgEnumView, PgExtension,
    PgExtensionView, PgIndex, PgIndexView, PgNamespace, PgNamespaceView, PgOperator,
    PgOperatorView, PgProc, PgProcView, PgRange, PgRewrite, PgRewriteView, PgType, PgTypeView,
    RelAttrs, RelAttrsView,
};
use crate::seed_laws::{labels_owned, list_owned, tables_consistent};
use crate::table::{
    distinct_keys, foreign_to, lemma_drop_keeps_distinct, lemma_put_keeps_distinct,
    lemma_row_position, lemma_row_position_meaning, map_get, row_drop, row_get, row_position,
    row_put, Row,
};
use vstd::prelude::*;

verus! {

// ── The invariant ───────────────────────────────────────────────────────────

/// Whether the keys of all rows are below a bound.
pub open spec fn below<R: Row>(rows: Seq<R::V>, bound: u32) -> bool {
    forall|i: int| 0 <= i < rows.len() ==> R::key_of(#[trigger] rows[i]) < bound
}

/// Whether each name leads to a row that bears it.
pub open spec fn leads<R: Row, K>(
    rows: Seq<R::V>,
    index: Map<K, u32>,
    name: spec_fn(R::V) -> K,
) -> bool {
    forall|q: K| #[trigger]
        index.dom().contains(q) ==> bears::<R, K>(rows, name, index[q], q)
}

/// Whether the names of schemas, types, relations and casts lead to rows that bear
/// them, and those of extensions, collations, functions and operators to all such
/// rows.
pub open spec fn names_lead(c: CatalogView) -> bool {
    &&& leads::<PgNamespace, (u32, Seq<char>)>(
        c.pg_namespace,
        c.namespace_by_name,
        name_of_namespace(),
    )
    &&& leads::<PgType, (u32, Seq<char>)>(c.pg_type, c.type_by_qname, name_of_type())
    &&& leads::<PgClass, (u32, Seq<char>)>(c.pg_class, c.class_by_qname, name_of_class())
    &&& leads::<PgCast, (u32, u32)>(c.pg_cast, c.cast_by_pair, name_of_cast())
    &&& in_step::<PgExtension, (u32, Seq<char>)>(
        c.pg_extension,
        c.extension_by_name,
        name_of_extension(),
    )
    &&& in_step::<PgCollation, (u32, Seq<char>)>(
        c.pg_collation,
        c.collation_by_qname,
        name_of_collation(),
    )
    &&& lists_in_step::<PgProc>(c.pg_proc, c.proc_by_qname, name_of_proc())
    &&& lists_in_step::<PgOperator>(c.pg_operator, c.operator_by_qname, name_of_operator())
}

/// Whether all OIDs in use are below the one that is given out next.
pub open spec fn oids_given(c: CatalogView) -> bool {
    &&& below::<PgNamespace>(c.pg_namespace, c.next_oid)
    &&& below::<PgType>(c.pg_type, c.next_oid)
    &&& below::<PgClass>(c.pg_class, c.next_oid)
    &&& below::<PgProc>(c.pg_proc, c.next_oid)
    &&& below::<PgOperator>(c.pg_operator, c.next_oid)
    &&& below::<PgCast>(c.pg_cast, c.next_oid)
    &&& below::<PgExtension>(c.pg_extension, c.next_oid)
    &&& below::<PgCollation>(c.pg_collation, c.next_oid)
    &&& below::<PgConstraint>(c.pg_constraint, c.next_oid)
    &&& below::<PgRewrite>(c.pg_rewrite, c.next_oid)
}

/// Whether a catalog is consistent.
#[verifier::opaque]
pub open spec fn consistent(c: CatalogView) -> bool {
    &&& tables_consistent(c)
    &&& names_lead(c)
    &&& oids_given(c)
}

/// Whether an OID has been given out and no row has it.
#[verifier::opaque]
pub open spec fn fresh(c: CatalogView, oid: u32) -> bool {
    &&& oid < c.next_oid
    &&& row_get::<PgNamespace>(c.pg_namespace, oid) is None
    &&& row_get::<PgType>(c.pg_type, oid) is None
    &&& row_get::<PgClass>(c.pg_class, oid) is None
    &&& row_get::<PgProc>(c.pg_proc, oid) is None
    &&& row_get::<PgOperator>(c.pg_operator, oid) is None
    &&& row_get::<PgCast>(c.pg_cast, oid) is None
    &&& row_get::<PgExtension>(c.pg_extension, oid) is None
    &&& row_get::<PgCollation>(c.pg_collation, oid) is None
    &&& row_get::<PgConstraint>(c.pg_constraint, oid) is None
    &&& row_get::<PgRewrite>(c.pg_rewrite, oid) is None
}

/// Whether a catalog is consistent, has given out what `c` has, and leaves free what
/// is free in `c`.
pub open spec fn follows(c: CatalogView, d: CatalogView) -> bool {
    &&& consistent(d)
    &&& c.next_oid <= d.next_oid
    &&& forall|o: u32| fresh(c, o) ==> #[trigger] fresh(d, o)
}

// ── Rows ────────────────────────────────────────────────────────────────────

proof fn lemma_free_key<R: Row>(rows: Seq<R::V>, key: u32)
    ensures
        row_get::<R>(rows, key) is None <==> (forall|i: int|
            0 <= i < rows.len() ==> R::key_of(#[trigger] rows[i]) != key),
{
    lemma_row_position_meaning::<R>(rows, key);
    if forall|i: int| 0 <= i < rows.len() ==> R::key_of(#[trigger] rows[i]) != key {
        lemma_row_position::<R>(rows, key, rows.len() as int);
    }
}

proof fn lemma_put_below<R: Row>(rows: Seq<R::V>, v: R::V, bound: u32)
    requires
        below::<R>(rows, bound),
        R::key_of(v) < bound,
    ensures
        below::<R>(row_put::<R>(rows, v), bound),
{
    let after = row_put::<R>(rows, v);
    lemma_row_position_meaning::<R>(rows, R::key_of(v));
    assert forall|i: int| 0 <= i < after.len() implies R::key_of(#[trigger] after[i]) < bound by {
        if i != row_position::<R>(rows, R::key_of(v)) {
            assert(after[i] == rows[i]);
        }
    }
}

/// The rows that are left are rows that were there.
proof fn lemma_dropped<R: Row>(rows: Seq<R::V>, key: u32, i: int)
    requires
        0 <= i < row_drop::<R>(rows, key).len(),
    ensures
        rows.contains(row_drop::<R>(rows, key)[i]),
{
    let p = row_position::<R>(rows, key);
    lemma_row_position_meaning::<R>(rows, key);
    if p < rows.len() && i >= p {
        assert(row_drop::<R>(rows, key)[i] == rows[i + 1]);
    } else {
        assert(row_drop::<R>(rows, key)[i] == rows[i]);
    }
}

proof fn lemma_drop_below<R: Row>(rows: Seq<R::V>, key: u32, bound: u32)
    requires
        below::<R>(rows, bound),
    ensures
        below::<R>(row_drop::<R>(rows, key), bound),
{
    let after = row_drop::<R>(rows, key);
    assert forall|i: int| 0 <= i < after.len() implies R::key_of(#[trigger] after[i]) < bound by {
        lemma_dropped::<R>(rows, key, i);
        let k = choose|k: int| 0 <= k < rows.len() && rows[k] == after[i];
        assert(R::key_of(rows[k]) < bound);
    }
}

/// A choice among rows has no key twice and no key that was not there.
proof fn lemma_filtered<R: Row>(rows: Seq<R::V>, p: spec_fn(R::V) -> bool)
    requires
        distinct_keys::<R>(rows),
    ensures
        distinct_keys::<R>(rows.filter(p)),
        forall|i: int| 0 <= i < rows.filter(p).len() ==> rows.contains(#[trigger] rows.filter(p)[i]),
    decreases rows.len(),
{
    reveal(Seq::filter);
    if rows.len() > 0 {
        let front = rows.drop_last();
        let f = front.filter(p);
        assert forall|i: int, j: int| 0 <= i < j < front.len() implies R::key_of(
            #[trigger] front[i],
        ) != R::key_of(#[trigger] front[j]) by {
            assert(R::key_of(rows[i]) != R::key_of(rows[j]));
        }
        lemma_filtered::<R>(front, p);
        let after = rows.filter(p);
        assert forall|i: int| 0 <= i < f.len() implies rows.contains(#[trigger] f[i]) && R::key_of(
            f[i],
        ) != R::key_of(rows.last()) by {
            let k = choose|k: int| 0 <= k < front.len() && front[k] == f[i];
            assert(rows[k] == f[i]);
            assert(R::key_of(rows[k]) != R::key_of(rows[rows.len() - 1]));
        }
        assert forall|i: int| 0 <= i < after.len() implies rows.contains(#[trigger] after[i]) by {
            if i < f.len() {
                assert(after[i] == f[i]);
            } else {
                assert(rows[rows.len() - 1] == after[i]);
            }
        }
        assert forall|i: int, j: int| 0 <= i < j < after.len() implies R::key_of(
            #[trigger] after[i],
        ) != R::key_of(#[trigger] after[j]) by {
            assert(after[i] == f[i]);
            if j < f.len() {
                assert(after[j] == f[j]);
            }
        }
    }
}

proof fn lemma_filtered_below<R: Row>(rows: Seq<R::V>, p: spec_fn(R::V) -> bool, bound: u32)
    requires
        distinct_keys::<R>(rows),
        below::<R>(rows, bound),
    ensures
        below::<R>(rows.filter(p), bound),
{
    lemma_filtered::<R>(rows, p);
    let after = rows.filter(p);
    assert forall|i: int| 0 <= i < after.len() implies R::key_of(#[trigger] after[i]) < bound by {
        let k = choose|k: int| 0 <= k < rows.len() && rows[k] == after[i];
        assert(R::key_of(rows[k]) < bound);
    }
}

proof fn lemma_filtered_free<R: Row>(rows: Seq<R::V>, p: spec_fn(R::V) -> bool, key: u32)
    requires
        distinct_keys::<R>(rows),
        row_get::<R>(rows, key) is None,
    ensures
        row_get::<R>(rows.filter(p), key) is None,
{
    lemma_filtered::<R>(rows, p);
    lemma_free_key::<R>(rows, key);
    let after = rows.filter(p);
    assert forall|i: int| 0 <= i < after.len() implies R::key_of(#[trigger] after[i]) != key by {
        let k = choose|k: int| 0 <= k < rows.len() && rows[k] == after[i];
        assert(R::key_of(rows[k]) != key);
    }
    lemma_free_key::<R>(after, key);
}

// ── Names ───────────────────────────────────────────────────────────────────

proof fn lemma_put_leads<R: Row, K>(
    rows: Seq<R::V>,
    index: Map<K, u32>,
    name: spec_fn(R::V) -> K,
    v: R::V,
)
    requires
        leads::<R, K>(rows, index, name),
        row_get::<R>(rows, R::key_of(v)) matches Some(old_row) ==> name(old_row) == name(v),
    ensures
        leads::<R, K>(row_put::<R>(rows, v), index.insert(name(v), R::key_of(v)), name),
        leads::<R, K>(row_put::<R>(rows, v), index, name),
{
    let after = row_put::<R>(rows, v);
    let names = index.insert(name(v), R::key_of(v));
    assert forall|q: K| #[trigger] index.dom().contains(q) implies bears::<R, K>(
        after,
        name,
        index[q],
        q,
    ) by {
        law_put_row_is_found::<R>(rows, v, index[q]);
        assert(bears::<R, K>(rows, name, index[q], q));
    }
    assert forall|q: K| #[trigger] names.dom().contains(q) implies bears::<R, K>(
        after,
        name,
        names[q],
        q,
    ) by {
        law_put_row_is_found::<R>(rows, v, names[q]);
        if q != name(v) {
            assert(index.dom().contains(q));
        }
    }
}

proof fn lemma_drop_leads<R: Row, K>(
    rows: Seq<R::V>,
    index: Map<K, u32>,
    name: spec_fn(R::V) -> K,
    dropped: u32,
)
    requires
        distinct_keys::<R>(rows),
        leads::<R, K>(rows, index, name),
        row_get::<R>(rows, dropped) is Some,
    ensures
        leads::<R, K>(
            row_drop::<R>(rows, dropped),
            index.remove(name(row_get::<R>(rows, dropped)->Some_0)),
            name,
        ),
{
    let gone = name(row_get::<R>(rows, dropped)->Some_0);
    let after = row_drop::<R>(rows, dropped);
    let names = index.remove(gone);
    assert forall|q: K| #[trigger] names.dom().contains(q) implies bears::<R, K>(
        after,
        name,
        names[q],
        q,
    ) by {
        assert(index.dom().contains(q));
        assert(bears::<R, K>(rows, name, index[q], q));
        law_dropped_row_is_gone::<R>(rows, dropped, index[q]);
    }
}

proof fn lemma_rename_leads<R: Row, K>(
    rows: Seq<R::V>,
    index: Map<K, u32>,
    name: spec_fn(R::V) -> K,
    before: R::V,
    v: R::V,
)
    requires
        leads::<R, K>(rows, index, name),
        row_get::<R>(rows, R::key_of(v)) == Some(before),
    ensures
        leads::<R, K>(
            row_put::<R>(rows, v),
            index.remove(name(before)).insert(name(v), R::key_of(v)),
            name,
        ),
{
    let after = row_put::<R>(rows, v);
    let names = index.remove(name(before)).insert(name(v), R::key_of(v));
    assert forall|q: K| #[trigger] names.dom().contains(q) implies bears::<R, K>(
        after,
        name,
        names[q],
        q,
    ) by {
        law_put_row_is_found::<R>(rows, v, names[q]);
        if q != name(v) {
            assert(index.dom().contains(q));
            assert(bears::<R, K>(rows, name, index[q], q));
        }
    }
}

// ── OIDs ────────────────────────────────────────────────────────────────────

pub proof fn lemma_allocated(c: CatalogView)
    requires
        consistent(c),
    ensures
        follows(c, c.allocated().1),
        c.allocated().0 matches Ok(oid) ==> {
            &&& oid == c.next_oid
            &&& fresh(c.allocated().1, oid)
            &&& !fresh(c, oid)
        },
{
    reveal(consistent);
    reveal(fresh);
    let oid = c.next_oid;
    lemma_free_key::<PgNamespace>(c.pg_namespace, oid);
    lemma_free_key::<PgType>(c.pg_type, oid);
    lemma_free_key::<PgClass>(c.pg_class, oid);
    lemma_free_key::<PgProc>(c.pg_proc, oid);
    lemma_free_key::<PgOperator>(c.pg_operator, oid);
    lemma_free_key::<PgCast>(c.pg_cast, oid);
    lemma_free_key::<PgExtension>(c.pg_extension, oid);
    lemma_free_key::<PgCollation>(c.pg_collation, oid);
    lemma_free_key::<PgConstraint>(c.pg_constraint, oid);
    lemma_free_key::<PgRewrite>(c.pg_rewrite, oid);
}

/// The dependencies, the inheritance and the search path are free.
pub proof fn lemma_rest(c: CatalogView, d: CatalogView)
    requires
        consistent(c),
        d == (CatalogView {
            pg_depend: d.pg_depend,
            pg_inherits: d.pg_inherits,
            search_path: d.search_path,
            ..c
        }),
    ensures
        follows(c, d),
{
    reveal(consistent);
    reveal(fresh);
}

// ── New rows ────────────────────────────────────────────────────────────────

/// A row with an unused OID that is below the next one.
pub proof fn lemma_put_namespace(c: CatalogView, row: PgNamespaceView)
    requires
        consistent(c),
        row.oid < c.next_oid,
        row_get::<PgNamespace>(c.pg_namespace, row.oid) is None,
    ensures
        consistent(c.with_namespace(row)),
        c.with_namespace(row).next_oid == c.next_oid,
{
    reveal(consistent);
    lemma_put_keeps_distinct::<PgNamespace>(c.pg_namespace, row);
    lemma_put_below::<PgNamespace>(c.pg_namespace, row, c.next_oid);
    lemma_put_leads::<PgNamespace, (u32, Seq<char>)>(
        c.pg_namespace,
        c.namespace_by_name,
        name_of_namespace(),
        row,
    );
}

pub proof fn lemma_new_namespace(c: CatalogView, row: PgNamespaceView)
    requires
        consistent(c),
        fresh(c, row.oid),
    ensures
        consistent(c.with_namespace(row)),
        c.with_namespace(row).next_oid == c.next_oid,
        forall|o: u32|
            fresh(c, o) && o != row.oid ==> #[trigger] fresh(c.with_namespace(row), o),
{
    reveal(fresh);
    let d = c.with_namespace(row);
    lemma_put_namespace(c, row);
    assert forall|o: u32| fresh(c, o) && o != row.oid implies #[trigger] fresh(d, o) by {
        law_put_row_is_found::<PgNamespace>(c.pg_namespace, row, o);
    }
}

/// A row with an unused OID that is below the next one.
pub proof fn lemma_put_type(c: CatalogView, row: PgTypeView)
    requires
        consistent(c),
        row.oid < c.next_oid,
        row_get::<PgType>(c.pg_type, row.oid) is None,
    ensures
        consistent(c.with_type(row)),
        c.with_type(row).next_oid == c.next_oid,
{
    reveal(consistent);
    lemma_put_keeps_distinct::<PgType>(c.pg_type, row);
    lemma_put_below::<PgType>(c.pg_type, row, c.next_oid);
    lemma_put_leads::<PgType, (u32, Seq<char>)>(c.pg_type, c.type_by_qname, name_of_type(), row);
}

pub proof fn lemma_new_type(c: CatalogView, row: PgTypeView)
    requires
        consistent(c),
        fresh(c, row.oid),
    ensures
        consistent(c.with_type(row)),
        c.with_type(row).next_oid == c.next_oid,
        forall|o: u32|
            fresh(c, o) && o != row.oid ==> #[trigger] fresh(c.with_type(row), o),
{
    reveal(fresh);
    let d = c.with_type(row);
    lemma_put_type(c, row);
    assert forall|o: u32| fresh(c, o) && o != row.oid implies #[trigger] fresh(d, o) by {
        law_put_row_is_found::<PgType>(c.pg_type, row, o);
    }
}

/// A row with an unused OID that is below the next one.
pub proof fn lemma_put_class(c: CatalogView, row: PgClassView)
    requires
        consistent(c),
        row.oid < c.next_oid,
        row_get::<PgClass>(c.pg_class, row.oid) is None,
    ensures
        consistent(c.with_class(row)),
        c.with_class(row).next_oid == c.next_oid,
{
    reveal(consistent);
    lemma_put_keeps_distinct::<PgClass>(c.pg_class, row);
    lemma_put_below::<PgClass>(c.pg_class, row, c.next_oid);
    lemma_put_leads::<PgClass, (u32, Seq<char>)>(
        c.pg_class,
        c.class_by_qname,
        name_of_class(),
        row,
    );
}

pub proof fn lemma_new_class(c: CatalogView, row: PgClassView)
    requires
        consistent(c),
        fresh(c, row.oid),
    ensures
        consistent(c.with_class(row)),
        c.with_class(row).next_oid == c.next_oid,
        forall|o: u32|
            fresh(c, o) && o != row.oid ==> #[trigger] fresh(c.with_class(row), o),
{
    reveal(fresh);
    let d = c.with_class(row);
    lemma_put_class(c, row);
    assert forall|o: u32| fresh(c, o) && o != row.oid implies #[trigger] fresh(d, o) by {
        law_put_row_is_found::<PgClass>(c.pg_class, row, o);
    }
}

/// A row with an unused OID that is below the next one.
pub proof fn lemma_put_proc(c: CatalogView, row: PgProcView)
    requires
        consistent(c),
        row.oid < c.next_oid,
        row_get::<PgProc>(c.pg_proc, row.oid) is None,
    ensures
        consistent(c.with_proc(row)),
        c.with_proc(row).next_oid == c.next_oid,
{
    reveal(consistent);
    lemma_put_keeps_distinct::<PgProc>(c.pg_proc, row);
    lemma_put_below::<PgProc>(c.pg_proc, row, c.next_oid);
    lemma_list_put::<PgProc>(c.pg_proc, c.proc_by_qname, name_of_proc(), row);
}

pub proof fn lemma_new_proc(c: CatalogView, row: PgProcView)
    requires
        consistent(c),
        fresh(c, row.oid),
    ensures
        consistent(c.with_proc(row)),
        c.with_proc(row).next_oid == c.next_oid,
        forall|o: u32|
            fresh(c, o) && o != row.oid ==> #[trigger] fresh(c.with_proc(row), o),
{
    reveal(fresh);
    let d = c.with_proc(row);
    lemma_put_proc(c, row);
    assert forall|o: u32| fresh(c, o) && o != row.oid implies #[trigger] fresh(d, o) by {
        law_put_row_is_found::<PgProc>(c.pg_proc, row, o);
    }
}

/// A row with an unused OID that is below the next one.
pub proof fn lemma_put_operator(c: CatalogView, row: PgOperatorView)
    requires
        consistent(c),
        row.oid < c.next_oid,
        row_get::<PgOperator>(c.pg_operator, row.oid) is None,
    ensures
        consistent(c.with_operator(row)),
        c.with_operator(row).next_oid == c.next_oid,
{
    reveal(consistent);
    lemma_put_keeps_distinct::<PgOperator>(c.pg_operator, row);
    lemma_put_below::<PgOperator>(c.pg_operator, row, c.next_oid);
    lemma_list_put::<PgOperator>(c.pg_operator, c.operator_by_qname, name_of_operator(), row);
}

pub proof fn lemma_new_operator(c: CatalogView, row: PgOperatorView)
    requires
        consistent(c),
        fresh(c, row.oid),
    ensures
        consistent(c.with_operator(row)),
        c.with_operator(row).next_oid == c.next_oid,
        forall|o: u32|
            fresh(c, o) && o != row.oid ==> #[trigger] fresh(c.with_operator(row), o),
{
    reveal(fresh);
    let d = c.with_operator(row);
    lemma_put_operator(c, row);
    assert forall|o: u32| fresh(c, o) && o != row.oid implies #[trigger] fresh(d, o) by {
        law_put_row_is_found::<PgOperator>(c.pg_operator, row, o);
    }
}

/// A row with an unused OID that is below the next one.
pub proof fn lemma_put_cast(c: CatalogView, row: PgCast)
    requires
        consistent(c),
        row.oid < c.next_oid,
        row_get::<PgCast>(c.pg_cast, row.oid) is None,
    ensures
        consistent(c.with_cast(row)),
        c.with_cast(row).next_oid == c.next_oid,
{
    reveal(consistent);
    lemma_put_keeps_distinct::<PgCast>(c.pg_cast, row);
    lemma_put_below::<PgCast>(c.pg_cast, row, c.next_oid);
    lemma_put_leads::<PgCast, (u32, u32)>(c.pg_cast, c.cast_by_pair, name_of_cast(), row);
}

pub proof fn lemma_new_cast(c: CatalogView, row: PgCast)
    requires
        consistent(c),
        fresh(c, row.oid),
    ensures
        consistent(c.with_cast(row)),
        c.with_cast(row).next_oid == c.next_oid,
        forall|o: u32|
            fresh(c, o) && o != row.oid ==> #[trigger] fresh(c.with_cast(row), o),
{
    reveal(fresh);
    let d = c.with_cast(row);
    lemma_put_cast(c, row);
    assert forall|o: u32| fresh(c, o) && o != row.oid implies #[trigger] fresh(d, o) by {
        law_put_row_is_found::<PgCast>(c.pg_cast, row, o);
    }
}

/// A row with an unused OID that is below the next one.
pub proof fn lemma_put_extension(c: CatalogView, row: PgExtensionView)
    requires
        consistent(c),
        row.oid < c.next_oid,
        row_get::<PgExtension>(c.pg_extension, row.oid) is None,
        map_get(c.extension_by_name, name_of_extension()(row)) is None,
    ensures
        consistent(c.with_extension(row)),
        c.with_extension(row).next_oid == c.next_oid,
{
    reveal(consistent);
    lemma_put_keeps_distinct::<PgExtension>(c.pg_extension, row);
    lemma_put_below::<PgExtension>(c.pg_extension, row, c.next_oid);
    lemma_put_in_step::<PgExtension, (u32, Seq<char>)>(
        c.pg_extension,
        c.extension_by_name,
        name_of_extension(),
        row,
    );
}

pub proof fn lemma_new_extension(c: CatalogView, row: PgExtensionView)
    requires
        consistent(c),
        fresh(c, row.oid),
        map_get(c.extension_by_name, name_of_extension()(row)) is None,
    ensures
        consistent(c.with_extension(row)),
        c.with_extension(row).next_oid == c.next_oid,
        forall|o: u32|
            fresh(c, o) && o != row.oid ==> #[trigger] fresh(c.with_extension(row), o),
{
    reveal(fresh);
    let d = c.with_extension(row);
    lemma_put_extension(c, row);
    assert forall|o: u32| fresh(c, o) && o != row.oid implies #[trigger] fresh(d, o) by {
        law_put_row_is_found::<PgExtension>(c.pg_extension, row, o);
    }
}

/// A row with an unused OID that is below the next one.
pub proof fn lemma_put_collation(c: CatalogView, row: PgCollationView)
    requires
        consistent(c),
        row.oid < c.next_oid,
        row_get::<PgCollation>(c.pg_collation, row.oid) is None,
        map_get(c.collation_by_qname, name_of_collation()(row)) is None,
    ensures
        consistent(c.with_collation(row)),
        c.with_collation(row).next_oid == c.next_oid,
{
    reveal(consistent);
    lemma_put_keeps_distinct::<PgCollation>(c.pg_collation, row);
    lemma_put_below::<PgCollation>(c.pg_collation, row, c.next_oid);
    lemma_put_in_step::<PgCollation, (u32, Seq<char>)>(
        c.pg_collation,
        c.collation_by_qname,
        name_of_collation(),
        row,
    );
}

pub proof fn lemma_new_collation(c: CatalogView, row: PgCollationView)
    requires
        consistent(c),
        fresh(c, row.oid),
        map_get(c.collation_by_qname, name_of_collation()(row)) is None,
    ensures
        consistent(c.with_collation(row)),
        c.with_collation(row).next_oid == c.next_oid,
        forall|o: u32|
            fresh(c, o) && o != row.oid ==> #[trigger] fresh(c.with_collation(row), o),
{
    reveal(fresh);
    let d = c.with_collation(row);
    lemma_put_collation(c, row);
    assert forall|o: u32| fresh(c, o) && o != row.oid implies #[trigger] fresh(d, o) by {
        law_put_row_is_found::<PgCollation>(c.pg_collation, row, o);
    }
}

/// A row with an unused OID that is below the next one.
pub proof fn lemma_put_constraint(c: CatalogView, row: PgConstraintView)
    requires
        consistent(c),
        row.oid < c.next_oid,
        row_get::<PgConstraint>(c.pg_constraint, row.oid) is None,
    ensures
        consistent(c.with_constraint(row)),
        c.with_constraint(row).next_oid == c.next_oid,
{
    reveal(consistent);
    lemma_put_keeps_distinct::<PgConstraint>(c.pg_constraint, row);
    lemma_put_below::<PgConstraint>(c.pg_constraint, row, c.next_oid);
}

pub proof fn lemma_new_constraint(c: CatalogView, row: PgConstraintView)
    requires
        consistent(c),
        fresh(c, row.oid),
    ensures
        consistent(c.with_constraint(row)),
        c.with_constraint(row).next_oid == c.next_oid,
        forall|o: u32|
            fresh(c, o) && o != row.oid ==> #[trigger] fresh(c.with_constraint(row), o),
{
    reveal(fresh);
    let d = c.with_constraint(row);
    lemma_put_constraint(c, row);
    assert forall|o: u32| fresh(c, o) && o != row.oid implies #[trigger] fresh(d, o) by {
        law_put_row_is_found::<PgConstraint>(c.pg_constraint, row, o);
    }
}

/// A row with an unused OID that is below the next one.
pub proof fn lemma_put_rewrite(c: CatalogView, row: PgRewriteView)
    requires
        consistent(c),
        row.oid < c.next_oid,
        row_get::<PgRewrite>(c.pg_rewrite, row.oid) is None,
    ensures
        consistent(c.with_rewrite(row)),
        c.with_rewrite(row).next_oid == c.next_oid,
{
    reveal(consistent);
    lemma_put_keeps_distinct::<PgRewrite>(c.pg_rewrite, row);
    lemma_put_below::<PgRewrite>(c.pg_rewrite, row, c.next_oid);
}

pub proof fn lemma_new_rewrite(c: CatalogView, row: PgRewriteView)
    requires
        consistent(c),
        fresh(c, row.oid),
    ensures
        consistent(c.with_rewrite(row)),
        c.with_rewrite(row).next_oid == c.next_oid,
        forall|o: u32|
            fresh(c, o) && o != row.oid ==> #[trigger] fresh(c.with_rewrite(row), o),
{
    reveal(fresh);
    let d = c.with_rewrite(row);
    lemma_put_rewrite(c, row);
    assert forall|o: u32| fresh(c, o) && o != row.oid implies #[trigger] fresh(d, o) by {
        law_put_row_is_found::<PgRewrite>(c.pg_rewrite, row, o);
    }
}

// ── Rows that leave ─────────────────────────────────────────────────────────

proof fn lemma_labels_dropped(rows: Seq<EnumLabelsView>, key: u32)
    requires
        forall|i: int| 0 <= i < rows.len() ==> labels_owned(#[trigger] rows[i]),
    ensures
        forall|i: int|
            0 <= i < row_drop::<EnumLabels>(rows, key).len() ==> labels_owned(
                #[trigger] row_drop::<EnumLabels>(rows, key)[i],
            ),
{
    let after = row_drop::<EnumLabels>(rows, key);
    assert forall|i: int| 0 <= i < after.len() implies labels_owned(#[trigger] after[i]) by {
        lemma_dropped::<EnumLabels>(rows, key, i);
        let k = choose|k: int| 0 <= k < rows.len() && rows[k] == after[i];
        assert(labels_owned(rows[k]));
    }
}

proof fn lemma_columns_dropped(rows: Seq<RelAttrsView>, key: u32)
    requires
        forall|i: int| 0 <= i < rows.len() ==> list_owned(#[trigger] rows[i]),
    ensures
        forall|i: int|
            0 <= i < row_drop::<RelAttrs>(rows, key).len() ==> list_owned(
                #[trigger] row_drop::<RelAttrs>(rows, key)[i],
            ),
{
    let after = row_drop::<RelAttrs>(rows, key);
    assert forall|i: int| 0 <= i < after.len() implies list_owned(#[trigger] after[i]) by {
        lemma_dropped::<RelAttrs>(rows, key, i);
        let k = choose|k: int| 0 <= k < rows.len() && rows[k] == after[i];
        assert(list_owned(rows[k]));
    }
}

pub proof fn lemma_without_namespace(c: CatalogView, oid: u32)
    requires
        consistent(c),
    ensures
        follows(c, c.without_namespace(oid)),
        c.without_namespace(oid).next_oid == c.next_oid,
{
    reveal(consistent);
    reveal(fresh);
    let d = c.without_namespace(oid);
    lemma_drop_keeps_distinct::<PgNamespace>(c.pg_namespace, oid);
    lemma_drop_below::<PgNamespace>(c.pg_namespace, oid, c.next_oid);
    if row_get::<PgNamespace>(c.pg_namespace, oid) is Some {
        lemma_drop_leads::<PgNamespace, (u32, Seq<char>)>(
            c.pg_namespace,
            c.namespace_by_name,
            name_of_namespace(),
            oid,
        );
    }
    assert forall|o: u32| fresh(c, o) implies #[trigger] fresh(d, o) by {
        law_dropped_row_is_gone::<PgNamespace>(c.pg_namespace, oid, o);
    }
}

pub proof fn lemma_without_type(c: CatalogView, oid: u32)
    requires
        consistent(c),
    ensures
        follows(c, c.without_type(oid)),
        c.without_type(oid).next_oid == c.next_oid,
{
    reveal(consistent);
    reveal(fresh);
    let d = c.without_type(oid);
    lemma_drop_keeps_distinct::<PgType>(c.pg_type, oid);
    lemma_drop_below::<PgType>(c.pg_type, oid, c.next_oid);
    lemma_drop_keeps_distinct::<EnumLabels>(c.pg_enum, oid);
    lemma_labels_dropped(c.pg_enum, oid);
    lemma_drop_keeps_distinct::<PgRange>(c.pg_range, oid);
    if row_get::<PgType>(c.pg_type, oid) is Some {
        lemma_drop_leads::<PgType, (u32, Seq<char>)>(
            c.pg_type,
            c.type_by_qname,
            name_of_type(),
            oid,
        );
    }
    assert forall|o: u32| fresh(c, o) implies #[trigger] fresh(d, o) by {
        law_dropped_row_is_gone::<PgType>(c.pg_type, oid, o);
    }
}

pub proof fn lemma_without_class(c: CatalogView, oid: u32)
    requires
        consistent(c),
    ensures
        follows(c, c.without_class(oid)),
        c.without_class(oid).next_oid == c.next_oid,
{
    reveal(consistent);
    reveal(fresh);
    let d = c.without_class(oid);
    lemma_drop_keeps_distinct::<PgClass>(c.pg_class, oid);
    lemma_drop_below::<PgClass>(c.pg_class, oid, c.next_oid);
    lemma_drop_keeps_distinct::<RelAttrs>(c.pg_attribute, oid);
    lemma_columns_dropped(c.pg_attribute, oid);
    if row_get::<PgClass>(c.pg_class, oid) is Some {
        lemma_drop_leads::<PgClass, (u32, Seq<char>)>(
            c.pg_class,
            c.class_by_qname,
            name_of_class(),
            oid,
        );
    }
    assert forall|o: u32| fresh(c, o) implies #[trigger] fresh(d, o) by {
        law_dropped_row_is_gone::<PgClass>(c.pg_class, oid, o);
    }
}

pub proof fn lemma_without_proc(c: CatalogView, oid: u32)
    requires
        consistent(c),
    ensures
        follows(c, c.without_proc(oid)),
        c.without_proc(oid).next_oid == c.next_oid,
{
    reveal(consistent);
    reveal(fresh);
    let d = c.without_proc(oid);
    lemma_drop_keeps_distinct::<PgProc>(c.pg_proc, oid);
    lemma_drop_below::<PgProc>(c.pg_proc, oid, c.next_oid);
    lemma_drop_keeps_distinct::<PgAggregate>(c.pg_aggregate, oid);
    if row_get::<PgProc>(c.pg_proc, oid) is Some {
        lemma_list_drop::<PgProc>(c.pg_proc, c.proc_by_qname, name_of_proc(), oid);
    }
    assert forall|o: u32| fresh(c, o) implies #[trigger] fresh(d, o) by {
        law_dropped_row_is_gone::<PgProc>(c.pg_proc, oid, o);
    }
}

pub proof fn lemma_without_operator(c: CatalogView, oid: u32)
    requires
        consistent(c),
    ensures
        follows(c, c.without_operator(oid)),
        c.without_operator(oid).next_oid == c.next_oid,
{
    reveal(consistent);
    reveal(fresh);
    let d = c.without_operator(oid);
    lemma_drop_keeps_distinct::<PgOperator>(c.pg_operator, oid);
    lemma_drop_below::<PgOperator>(c.pg_operator, oid, c.next_oid);
    if row_get::<PgOperator>(c.pg_operator, oid) is Some {
        lemma_list_drop::<PgOperator>(c.pg_operator, c.operator_by_qname, name_of_operator(), oid);
    }
    assert forall|o: u32| fresh(c, o) implies #[trigger] fresh(d, o) by {
        law_dropped_row_is_gone::<PgOperator>(c.pg_operator, oid, o);
    }
}

pub proof fn lemma_without_cast(c: CatalogView, oid: u32)
    requires
        consistent(c),
    ensures
        follows(c, c.without_cast(oid)),
        c.without_cast(oid).next_oid == c.next_oid,
{
    reveal(consistent);
    reveal(fresh);
    let d = c.without_cast(oid);
    lemma_drop_keeps_distinct::<PgCast>(c.pg_cast, oid);
    lemma_drop_below::<PgCast>(c.pg_cast, oid, c.next_oid);
    if row_get::<PgCast>(c.pg_cast, oid) is Some {
        lemma_drop_leads::<PgCast, (u32, u32)>(c.pg_cast, c.cast_by_pair, name_of_cast(), oid);
    }
    assert forall|o: u32| fresh(c, o) implies #[trigger] fresh(d, o) by {
        law_dropped_row_is_gone::<PgCast>(c.pg_cast, oid, o);
    }
}

pub proof fn lemma_without_extension(c: CatalogView, oid: u32)
    requires
        consistent(c),
    ensures
        follows(c, c.without_extension(oid)),
        c.without_extension(oid).next_oid == c.next_oid,
{
    reveal(consistent);
    reveal(fresh);
    let d = c.without_extension(oid);
    lemma_drop_keeps_distinct::<PgExtension>(c.pg_extension, oid);
    lemma_drop_below::<PgExtension>(c.pg_extension, oid, c.next_oid);
    if row_get::<PgExtension>(c.pg_extension, oid) is Some {
        lemma_drop_in_step::<PgExtension, (u32, Seq<char>)>(
            c.pg_extension,
            c.extension_by_name,
            name_of_extension(),
            oid,
        );
    }
    assert forall|o: u32| fresh(c, o) implies #[trigger] fresh(d, o) by {
        law_dropped_row_is_gone::<PgExtension>(c.pg_extension, oid, o);
    }
}

pub proof fn lemma_without_constraint(c: CatalogView, oid: u32)
    requires
        consistent(c),
    ensures
        follows(c, c.without_constraint(oid)),
        c.without_constraint(oid).next_oid == c.next_oid,
{
    reveal(consistent);
    reveal(fresh);
    let d = c.without_constraint(oid);
    lemma_drop_keeps_distinct::<PgConstraint>(c.pg_constraint, oid);
    lemma_drop_below::<PgConstraint>(c.pg_constraint, oid, c.next_oid);
    assert forall|o: u32| fresh(c, o) implies #[trigger] fresh(d, o) by {
        law_dropped_row_is_gone::<PgConstraint>(c.pg_constraint, oid, o);
    }
}

pub proof fn lemma_without_constraints_of(c: CatalogView, relid: u32)
    requires
        consistent(c),
    ensures
        follows(c, c.without_constraints_of(relid)),
        c.without_constraints_of(relid).next_oid == c.next_oid,
{
    reveal(consistent);
    reveal(fresh);
    let d = c.without_constraints_of(relid);
    lemma_filtered::<PgConstraint>(c.pg_constraint, foreign_to::<PgConstraint>(relid));
    lemma_filtered_below::<PgConstraint>(
        c.pg_constraint,
        foreign_to::<PgConstraint>(relid),
        c.next_oid,
    );
    assert forall|o: u32| fresh(c, o) implies #[trigger] fresh(d, o) by {
        lemma_filtered_free::<PgConstraint>(c.pg_constraint, foreign_to::<PgConstraint>(relid), o);
    }
}

pub proof fn lemma_without_rewrites_of(c: CatalogView, relid: u32)
    requires
        consistent(c),
    ensures
        follows(c, c.without_rewrites_of(relid)),
        c.without_rewrites_of(relid).next_oid == c.next_oid,
{
    reveal(consistent);
    reveal(fresh);
    let d = c.without_rewrites_of(relid);
    lemma_filtered::<PgRewrite>(c.pg_rewrite, foreign_to::<PgRewrite>(relid));
    lemma_filtered_below::<PgRewrite>(c.pg_rewrite, foreign_to::<PgRewrite>(relid), c.next_oid);
    assert forall|o: u32| fresh(c, o) implies #[trigger] fresh(d, o) by {
        lemma_filtered_free::<PgRewrite>(c.pg_rewrite, foreign_to::<PgRewrite>(relid), o);
    }
}

pub proof fn lemma_without_indexes_of(c: CatalogView, relid: u32)
    requires
        consistent(c),
    ensures
        follows(c, c.without_indexes_of(relid)),
        c.without_indexes_of(relid).next_oid == c.next_oid,
{
    reveal(consistent);
    reveal(fresh);
    let d = c.without_indexes_of(relid);
    lemma_filtered::<PgIndex>(c.pg_index, foreign_to::<PgIndex>(relid));
}

pub proof fn lemma_without_index(c: CatalogView, oid: u32)
    requires
        consistent(c),
    ensures
        follows(c, c.without_index(oid)),
        c.without_index(oid).next_oid == c.next_oid,
{
    reveal(consistent);
    reveal(fresh);
    lemma_drop_keeps_distinct::<PgIndex>(c.pg_index, oid);
}

pub proof fn lemma_without_dependencies(c: CatalogView, classid: u32, objid: u32)
    requires
        consistent(c),
    ensures
        follows(c, c.without_dependencies(classid, objid)),
        follows(c, c.without_dependencies_of(classid, objid)),
        c.without_dependencies(classid, objid).next_oid == c.next_oid,
        c.without_dependencies_of(classid, objid).next_oid == c.next_oid,
{
    lemma_rest(c, c.without_dependencies(classid, objid));
    lemma_rest(c, c.without_dependencies_of(classid, objid));
}

// ── Rows that get another name ──────────────────────────────────────────────

pub proof fn lemma_renamed_namespace(c: CatalogView, oid: u32, name: Seq<char>)
    requires
        consistent(c),
    ensures
        follows(c, c.with_namespace_renamed(oid, name)),
        c.with_namespace_renamed(oid, name).next_oid == c.next_oid,
{
    reveal(consistent);
    reveal(fresh);
    let d = c.with_namespace_renamed(oid, name);
    if row_get::<PgNamespace>(c.pg_namespace, oid) is Some {
        let before = row_get::<PgNamespace>(c.pg_namespace, oid)->Some_0;
        let row = PgNamespaceView { nspname: name, ..before };
        lemma_row_position_meaning::<PgNamespace>(c.pg_namespace, oid);
        lemma_put_keeps_distinct::<PgNamespace>(c.pg_namespace, row);
        lemma_put_below::<PgNamespace>(c.pg_namespace, row, c.next_oid);
        lemma_rename_leads::<PgNamespace, (u32, Seq<char>)>(
            c.pg_namespace,
            c.namespace_by_name,
            name_of_namespace(),
            before,
            row,
        );
        assert forall|o: u32| fresh(c, o) implies #[trigger] fresh(d, o) by {
            law_put_row_is_found::<PgNamespace>(c.pg_namespace, row, o);
        }
    }
}

pub proof fn lemma_renamed_type(c: CatalogView, oid: u32, name: Seq<char>, ns: u32)
    requires
        consistent(c),
    ensures
        follows(c, c.with_type_renamed(oid, name, ns)),
        c.with_type_renamed(oid, name, ns).next_oid == c.next_oid,
{
    reveal(consistent);
    reveal(fresh);
    let d = c.with_type_renamed(oid, name, ns);
    if row_get::<PgType>(c.pg_type, oid) is Some {
        let before = row_get::<PgType>(c.pg_type, oid)->Some_0;
        let row = PgTypeView { typname: name, typnamespace: ns, ..before };
        lemma_row_position_meaning::<PgType>(c.pg_type, oid);
        lemma_put_keeps_distinct::<PgType>(c.pg_type, row);
        lemma_put_below::<PgType>(c.pg_type, row, c.next_oid);
        lemma_rename_leads::<PgType, (u32, Seq<char>)>(
            c.pg_type,
            c.type_by_qname,
            name_of_type(),
            before,
            row,
        );
        assert forall|o: u32| fresh(c, o) implies #[trigger] fresh(d, o) by {
            law_put_row_is_found::<PgType>(c.pg_type, row, o);
        }
    }
}

pub proof fn lemma_renamed_class(c: CatalogView, oid: u32, name: Seq<char>, ns: u32)
    requires
        consistent(c),
    ensures
        follows(c, c.with_class_renamed(oid, name, ns)),
        c.with_class_renamed(oid, name, ns).next_oid == c.next_oid,
{
    reveal(consistent);
    reveal(fresh);
    let d = c.with_class_renamed(oid, name, ns);
    if row_get::<PgClass>(c.pg_class, oid) is Some {
        let before = row_get::<PgClass>(c.pg_class, oid)->Some_0;
        let row = PgClassView { relname: name, relnamespace: ns, ..before };
        lemma_row_position_meaning::<PgClass>(c.pg_class, oid);
        lemma_put_keeps_distinct::<PgClass>(c.pg_class, row);
        lemma_put_below::<PgClass>(c.pg_class, row, c.next_oid);
        lemma_rename_leads::<PgClass, (u32, Seq<char>)>(
            c.pg_class,
            c.class_by_qname,
            name_of_class(),
            before,
            row,
        );
        assert forall|o: u32| fresh(c, o) implies #[trigger] fresh(d, o) by {
            law_put_row_is_found::<PgClass>(c.pg_class, row, o);
        }
    }
}

pub proof fn lemma_renamed_proc(c: CatalogView, oid: u32, name: Seq<char>, ns: u32)
    requires
        consistent(c),
    ensures
        follows(c, c.with_proc_renamed(oid, name, ns)),
        c.with_proc_renamed(oid, name, ns).next_oid == c.next_oid,
{
    reveal(consistent);
    reveal(fresh);
    let d = c.with_proc_renamed(oid, name, ns);
    if row_get::<PgProc>(c.pg_proc, oid) is Some {
        let before = row_get::<PgProc>(c.pg_proc, oid)->Some_0;
        let row = PgProcView { proname: name, pronamespace: ns, ..before };
        lemma_row_position_meaning::<PgProc>(c.pg_proc, oid);
        lemma_put_keeps_distinct::<PgProc>(c.pg_proc, row);
        lemma_put_below::<PgProc>(c.pg_proc, row, c.next_oid);
        lemma_list_rename::<PgProc>(c.pg_proc, c.proc_by_qname, name_of_proc(), before, row);
        assert forall|o: u32| fresh(c, o) implies #[trigger] fresh(d, o) by {
            law_put_row_is_found::<PgProc>(c.pg_proc, row, o);
        }
    }
}

/// A type row that keeps its name may change.
pub proof fn lemma_type_changed(c: CatalogView, row: PgTypeView)
    requires
        consistent(c),
        row_get::<PgType>(c.pg_type, row.oid) matches Some(t) && name_of_type()(t)
            == name_of_type()(row),
    ensures
        follows(c, CatalogView { pg_type: row_put::<PgType>(c.pg_type, row), ..c }),
{
    reveal(consistent);
    reveal(fresh);
    let d = CatalogView { pg_type: row_put::<PgType>(c.pg_type, row), ..c };
    lemma_row_position_meaning::<PgType>(c.pg_type, row.oid);
    lemma_put_keeps_distinct::<PgType>(c.pg_type, row);
    lemma_put_below::<PgType>(c.pg_type, row, c.next_oid);
    lemma_put_leads::<PgType, (u32, Seq<char>)>(c.pg_type, c.type_by_qname, name_of_type(), row);
    assert forall|o: u32| fresh(c, o) implies #[trigger] fresh(d, o) by {
        law_put_row_is_found::<PgType>(c.pg_type, row, o);
    }
}

/// An extension row that keeps its name may change.
pub proof fn lemma_extension_changed(c: CatalogView, row: PgExtensionView)
    requires
        consistent(c),
        row_get::<PgExtension>(c.pg_extension, row.oid) matches Some(t) && name_of_extension()(t)
            == name_of_extension()(row),
    ensures
        follows(c, CatalogView { pg_extension: row_put::<PgExtension>(c.pg_extension, row), ..c }),
{
    reveal(consistent);
    reveal(fresh);
    let d = CatalogView { pg_extension: row_put::<PgExtension>(c.pg_extension, row), ..c };
    let q = name_of_extension()(row);
    lemma_row_position_meaning::<PgExtension>(c.pg_extension, row.oid);
    lemma_put_keeps_distinct::<PgExtension>(c.pg_extension, row);
    lemma_put_below::<PgExtension>(c.pg_extension, row, c.next_oid);
    assert(bears::<PgExtension, (u32, Seq<char>)>(
        c.pg_extension,
        name_of_extension(),
        row.oid,
        q,
    ));
    lemma_put_in_step::<PgExtension, (u32, Seq<char>)>(
        c.pg_extension,
        c.extension_by_name,
        name_of_extension(),
        row,
    );
    assert(c.extension_by_name.insert(q, row.oid) =~= c.extension_by_name);
    assert forall|o: u32| fresh(c, o) implies #[trigger] fresh(d, o) by {
        law_put_row_is_found::<PgExtension>(c.pg_extension, row, o);
    }
}

/// A constraint of the catalog may change.
pub proof fn lemma_constraint_changed(c: CatalogView, row: PgConstraintView, k: int)
    requires
        consistent(c),
        0 <= k < c.pg_constraint.len(),
        c.pg_constraint[k].oid == row.oid,
    ensures
        follows(c, c.with_constraint(row)),
{
    reveal(consistent);
    reveal(fresh);
    let d = c.with_constraint(row);
    assert(PgConstraint::key_of(c.pg_constraint[k]) < c.next_oid);
    lemma_put_keeps_distinct::<PgConstraint>(c.pg_constraint, row);
    lemma_put_below::<PgConstraint>(c.pg_constraint, row, c.next_oid);
    assert forall|o: u32| fresh(c, o) implies #[trigger] fresh(d, o) by {
        lemma_free_key::<PgConstraint>(c.pg_constraint, o);
        law_put_row_is_found::<PgConstraint>(c.pg_constraint, row, o);
    }
}

// ── Columns, labels and the rest ────────────────────────────────────────────

/// The columns that are listed for a relation belong to it.
pub proof fn lemma_owned(c: CatalogView, relid: u32)
    requires
        consistent(c),
    ensures
        list_owned(RelAttrsView { relid, attrs: c.attributes_of(relid) }),
{
    reveal(consistent);
    lemma_row_position_meaning::<RelAttrs>(c.pg_attribute, relid);
    let p = row_position::<RelAttrs>(c.pg_attribute, relid);
    if p < c.pg_attribute.len() {
        assert(list_owned(c.pg_attribute[p]));
    }
}

pub proof fn lemma_with_attributes(c: CatalogView, relid: u32, attrs: Seq<PgAttributeView>)
    requires
        consistent(c),
        list_owned(RelAttrsView { relid, attrs }),
    ensures
        follows(c, c.with_attributes(relid, attrs)),
        c.with_attributes(relid, attrs).next_oid == c.next_oid,
{
    reveal(consistent);
    reveal(fresh);
    let rows = c.pg_attribute;
    let v = RelAttrsView { relid, attrs };
    let after = row_put::<RelAttrs>(rows, v);
    lemma_put_keeps_distinct::<RelAttrs>(rows, v);
    lemma_row_position_meaning::<RelAttrs>(rows, relid);
    assert forall|i: int| 0 <= i < after.len() implies list_owned(#[trigger] after[i]) by {
        if i != row_position::<RelAttrs>(rows, relid) {
            assert(after[i] == rows[i]);
        }
    }
}

proof fn lemma_inserted_owned(relid: u32, attrs: Seq<PgAttributeView>, a: PgAttributeView)
    requires
        list_owned(RelAttrsView { relid, attrs }),
        a.attrelid == relid,
    ensures
        list_owned(RelAttrsView { relid, attrs: attr_inserted(attrs, a) }),
    decreases attrs.len(),
{
    if !(attrs.len() == 0 || attrs.last().attnum <= a.attnum) {
        let front = attrs.drop_last();
        assert forall|k: int| 0 <= k < front.len() implies (#[trigger] front[k]).attrelid
            == relid by {
            assert(RelAttrsView { relid, attrs }.attrs[k].attrelid == relid);
        }
        lemma_inserted_owned(relid, front, a);
        let more = attr_inserted(front, a);
        assert(RelAttrsView { relid, attrs }.attrs[attrs.len() - 1].attrelid == relid);
        assert forall|k: int| 0 <= k < attr_inserted(attrs, a).len() implies (
        #[trigger] attr_inserted(attrs, a)[k]).attrelid == relid by {
            if k < more.len() {
                assert(RelAttrsView { relid, attrs: more }.attrs[k].attrelid == relid);
            }
        }
    } else {
        assert forall|k: int| 0 <= k < attrs.push(a).len() implies (
        #[trigger] attrs.push(a)[k]).attrelid == relid by {
            if k < attrs.len() {
                assert(RelAttrsView { relid, attrs }.attrs[k].attrelid == relid);
            }
        }
    }
}

pub proof fn lemma_with_attribute(c: CatalogView, a: PgAttributeView)
    requires
        consistent(c),
    ensures
        follows(c, c.with_attribute(a)),
        c.with_attribute(a).next_oid == c.next_oid,
{
    lemma_owned(c, a.attrelid);
    lemma_inserted_owned(a.attrelid, c.attributes_of(a.attrelid), a);
    lemma_with_attributes(
        c,
        a.attrelid,
        attr_inserted(c.attributes_of(a.attrelid), a),
    );
}

/// A choice among the columns of a relation.
pub proof fn lemma_with_fewer_attributes(
    c: CatalogView,
    relid: u32,
    p: spec_fn(PgAttributeView) -> bool,
)
    requires
        consistent(c),
    ensures
        follows(c, c.with_attributes(relid, c.attributes_of(relid).filter(p))),
{
    lemma_owned(c, relid);
    let attrs = c.attributes_of(relid);
    let kept = attrs.filter(p);
    assert forall|k: int| 0 <= k < kept.len() implies (#[trigger] kept[k]).attrelid == relid by {
        assert(kept.contains(kept[k]));
        attrs.lemma_filter_contains_rev(p, kept[k]);
        let j = choose|j: int| 0 <= j < attrs.len() && attrs[j] == kept[k];
        assert(RelAttrsView { relid, attrs }.attrs[j].attrelid == relid);
    }
    lemma_with_attributes(c, relid, kept);
}

pub proof fn lemma_with_label(c: CatalogView, row: PgEnumView, at: int)
    requires
        consistent(c),
        0 <= at <= c.labels_of(row.enumtypid).len(),
    ensures
        follows(c, c.with_label_at(row, at)),
        c.with_label_at(row, at).next_oid == c.next_oid,
{
    reveal(consistent);
    reveal(fresh);
    let rows = c.pg_enum;
    let before = c.labels_of(row.enumtypid);
    let v = EnumLabelsView { typid: row.enumtypid, labels: before.insert(at, row) };
    let after = row_put::<EnumLabels>(rows, v);
    let p = row_position::<EnumLabels>(rows, row.enumtypid);
    lemma_put_keeps_distinct::<EnumLabels>(rows, v);
    lemma_row_position_meaning::<EnumLabels>(rows, row.enumtypid);
    if p < rows.len() {
        assert(labels_owned(rows[p]));
    }
    assert forall|k: int| 0 <= k < v.labels.len() implies (#[trigger] v.labels[k]).enumtypid
        == v.typid by {
        if k < at {
            assert(v.labels[k] == before[k]);
            assert(rows[p].labels[k].enumtypid == rows[p].typid);
        } else if k > at {
            assert(v.labels[k] == before[k - 1]);
            assert(rows[p].labels[k - 1].enumtypid == rows[p].typid);
        }
    }
    assert forall|i: int| 0 <= i < after.len() implies labels_owned(#[trigger] after[i]) by {
        if i != p {
            assert(after[i] == rows[i]);
        }
    }
}

pub proof fn lemma_with_range(c: CatalogView, row: PgRange)
    requires
        consistent(c),
    ensures
        follows(c, c.with_range(row)),
        c.with_range(row).next_oid == c.next_oid,
{
    reveal(consistent);
    reveal(fresh);
    lemma_put_keeps_distinct::<PgRange>(c.pg_range, row);
}

pub proof fn lemma_with_aggregate(c: CatalogView, row: PgAggregate)
    requires
        consistent(c),
    ensures
        follows(c, c.with_aggregate(row)),
        c.with_aggregate(row).next_oid == c.next_oid,
{
    reveal(consistent);
    reveal(fresh);
    lemma_put_keeps_distinct::<PgAggregate>(c.pg_aggregate, row);
}

pub proof fn lemma_with_index(c: CatalogView, row: PgIndexView)
    requires
        consistent(c),
    ensures
        follows(c, c.with_index(row)),
        c.with_index(row).next_oid == c.next_oid,
{
    reveal(consistent);
    reveal(fresh);
    lemma_put_keeps_distinct::<PgIndex>(c.pg_index, row);
}

} // verus!
