//! A loaded catalog is consistent.

use super::consistency::{
    below, consistent, lemma_put_cast, lemma_put_class, lemma_put_collation, lemma_put_constraint,
    lemma_put_extension, lemma_put_namespace, lemma_put_operator, lemma_put_proc,
    lemma_put_rewrite, lemma_put_type, lemma_rest, lemma_with_aggregate, lemma_with_attribute,
    lemma_with_index, lemma_with_label, lemma_with_range,
};
use super::steps::law_empty_catalog_is_consistent;
use crate::catalog::{CatalogView, empty_catalog};
use crate::catalog_laws::{law_put_row_is_found, name_of_collation, name_of_extension};
use crate::pg_catalog::{
    PgAggregate, PgAttributeView, PgCast, PgClass, PgClassView, PgCollation, PgCollationView,
    PgConstraint, PgConstraintView, PgEnumView, PgExtension, PgExtensionView, PgIndexView,
    PgNamespace, PgNamespaceView, PgOperator, PgOperatorView, PgProc, PgProcView, PgRange,
    PgRewrite, PgRewriteView, PgType, PgTypeView,
};
use crate::seed::{
    SeedView, greatest_oid, loaded, next_after, with_aggregate_rows, with_attribute_rows,
    with_cast_rows, with_class_rows, with_collation_rows, with_constraint_rows, with_enum_rows,
    with_extension_rows, with_index_rows, with_last_label, with_namespace_rows, with_operator_rows,
    with_proc_rows, with_range_rows, with_rewrite_rows, with_type_rows,
};
use crate::seed_laws::law_new_oids_are_unused;
use crate::table::{distinct_keys, map_get, row_get, Row};
use vstd::prelude::*;

verus! {

// ── What a seed must hold ───────────────────────────────────────────────────

/// Whether no two rows bear the same name.
pub open spec fn distinct_names<V>(rows: Seq<V>, name: spec_fn(V) -> (u32, Seq<char>)) -> bool {
    forall|i: int, j: int|
        0 <= i < j < rows.len() ==> name(#[trigger] rows[i]) != name(#[trigger] rows[j])
}

/// Whether the rows of a seed can stand beside one another: no OID stands twice in a
/// table, no extension and no collation has the name of another one, and the last OID
/// is free.
pub open spec fn seed_sound(s: SeedView) -> bool {
    &&& distinct_keys::<PgNamespace>(s.pg_namespace)
    &&& distinct_keys::<PgType>(s.pg_type)
    &&& distinct_keys::<PgClass>(s.pg_class)
    &&& distinct_keys::<PgProc>(s.pg_proc)
    &&& distinct_keys::<PgOperator>(s.pg_operator)
    &&& distinct_keys::<PgCast>(s.pg_cast)
    &&& distinct_keys::<PgExtension>(s.pg_extension)
    &&& distinct_keys::<PgCollation>(s.pg_collation)
    &&& distinct_keys::<PgConstraint>(s.pg_constraint)
    &&& distinct_keys::<PgRewrite>(s.pg_rewrite)
    &&& distinct_names(s.pg_extension, name_of_extension())
    &&& distinct_names(s.pg_collation, name_of_collation())
    &&& greatest_oid(s) < u32::MAX
}

// ── Table by table ──────────────────────────────────────────────────────────

proof fn lemma_loaded_namespace_rows(c: CatalogView, rows: Seq<PgNamespaceView>, n: int)
    requires
        0 <= n <= rows.len(),
        consistent(c),
        c.pg_namespace.len() == 0,
        distinct_keys::<PgNamespace>(rows),
        below::<PgNamespace>(rows, c.next_oid),
    ensures
        ({
            let d = with_namespace_rows(c, rows, n);
            consistent(d) && d == (CatalogView { pg_namespace: d.pg_namespace, namespace_by_name: d.namespace_by_name, ..c })
        }),
        forall|key: u32|
            (forall|j: int| 0 <= j < n ==> PgNamespace::key_of(#[trigger] rows[j]) != key)
                ==> #[trigger] row_get::<PgNamespace>(with_namespace_rows(c, rows, n).pg_namespace, key) is None,
    decreases n,
{
    let d = with_namespace_rows(c, rows, n);
    if n > 0 {
        lemma_loaded_namespace_rows(c, rows, n - 1);
        let before = with_namespace_rows(c, rows, n - 1);
        let row = rows[n - 1];
        assert(d == before.with_namespace(row));
        assert(forall|j: int| 0 <= j < n - 1 ==> PgNamespace::key_of(#[trigger] rows[j]) != row.oid);
        assert(row_get::<PgNamespace>(before.pg_namespace, row.oid) is None);
        assert(PgNamespace::key_of(rows[n - 1]) < c.next_oid);
        lemma_put_namespace(before, row);
        assert forall|key: u32|
            (forall|j: int| 0 <= j < n ==> PgNamespace::key_of(#[trigger] rows[j]) != key)
                implies #[trigger] row_get::<PgNamespace>(d.pg_namespace, key) is None by {
            law_put_row_is_found::<PgNamespace>(before.pg_namespace, row, key);
            assert(PgNamespace::key_of(rows[n - 1]) != key);
            assert(row_get::<PgNamespace>(before.pg_namespace, key) is None);
        }
    }
}

proof fn lemma_loaded_type_rows(c: CatalogView, rows: Seq<PgTypeView>, n: int)
    requires
        0 <= n <= rows.len(),
        consistent(c),
        c.pg_type.len() == 0,
        distinct_keys::<PgType>(rows),
        below::<PgType>(rows, c.next_oid),
    ensures
        ({
            let d = with_type_rows(c, rows, n);
            consistent(d) && d == (CatalogView { pg_type: d.pg_type, type_by_qname: d.type_by_qname, ..c })
        }),
        forall|key: u32|
            (forall|j: int| 0 <= j < n ==> PgType::key_of(#[trigger] rows[j]) != key)
                ==> #[trigger] row_get::<PgType>(with_type_rows(c, rows, n).pg_type, key) is None,
    decreases n,
{
    let d = with_type_rows(c, rows, n);
    if n > 0 {
        lemma_loaded_type_rows(c, rows, n - 1);
        let before = with_type_rows(c, rows, n - 1);
        let row = rows[n - 1];
        assert(d == before.with_type(row));
        assert(forall|j: int| 0 <= j < n - 1 ==> PgType::key_of(#[trigger] rows[j]) != row.oid);
        assert(row_get::<PgType>(before.pg_type, row.oid) is None);
        assert(PgType::key_of(rows[n - 1]) < c.next_oid);
        lemma_put_type(before, row);
        assert forall|key: u32|
            (forall|j: int| 0 <= j < n ==> PgType::key_of(#[trigger] rows[j]) != key)
                implies #[trigger] row_get::<PgType>(d.pg_type, key) is None by {
            law_put_row_is_found::<PgType>(before.pg_type, row, key);
            assert(PgType::key_of(rows[n - 1]) != key);
            assert(row_get::<PgType>(before.pg_type, key) is None);
        }
    }
}

proof fn lemma_loaded_class_rows(c: CatalogView, rows: Seq<PgClassView>, n: int)
    requires
        0 <= n <= rows.len(),
        consistent(c),
        c.pg_class.len() == 0,
        distinct_keys::<PgClass>(rows),
        below::<PgClass>(rows, c.next_oid),
    ensures
        ({
            let d = with_class_rows(c, rows, n);
            consistent(d) && d == (CatalogView { pg_class: d.pg_class, class_by_qname: d.class_by_qname, ..c })
        }),
        forall|key: u32|
            (forall|j: int| 0 <= j < n ==> PgClass::key_of(#[trigger] rows[j]) != key)
                ==> #[trigger] row_get::<PgClass>(with_class_rows(c, rows, n).pg_class, key) is None,
    decreases n,
{
    let d = with_class_rows(c, rows, n);
    if n > 0 {
        lemma_loaded_class_rows(c, rows, n - 1);
        let before = with_class_rows(c, rows, n - 1);
        let row = rows[n - 1];
        assert(d == before.with_class(row));
        assert(forall|j: int| 0 <= j < n - 1 ==> PgClass::key_of(#[trigger] rows[j]) != row.oid);
        assert(row_get::<PgClass>(before.pg_class, row.oid) is None);
        assert(PgClass::key_of(rows[n - 1]) < c.next_oid);
        lemma_put_class(before, row);
        assert forall|key: u32|
            (forall|j: int| 0 <= j < n ==> PgClass::key_of(#[trigger] rows[j]) != key)
                implies #[trigger] row_get::<PgClass>(d.pg_class, key) is None by {
            law_put_row_is_found::<PgClass>(before.pg_class, row, key);
            assert(PgClass::key_of(rows[n - 1]) != key);
            assert(row_get::<PgClass>(before.pg_class, key) is None);
        }
    }
}

proof fn lemma_loaded_proc_rows(c: CatalogView, rows: Seq<PgProcView>, n: int)
    requires
        0 <= n <= rows.len(),
        consistent(c),
        c.pg_proc.len() == 0,
        distinct_keys::<PgProc>(rows),
        below::<PgProc>(rows, c.next_oid),
    ensures
        ({
            let d = with_proc_rows(c, rows, n);
            consistent(d) && d == (CatalogView { pg_proc: d.pg_proc, proc_by_qname: d.proc_by_qname, ..c })
        }),
        forall|key: u32|
            (forall|j: int| 0 <= j < n ==> PgProc::key_of(#[trigger] rows[j]) != key)
                ==> #[trigger] row_get::<PgProc>(with_proc_rows(c, rows, n).pg_proc, key) is None,
    decreases n,
{
    let d = with_proc_rows(c, rows, n);
    if n > 0 {
        lemma_loaded_proc_rows(c, rows, n - 1);
        let before = with_proc_rows(c, rows, n - 1);
        let row = rows[n - 1];
        assert(d == before.with_proc(row));
        assert(forall|j: int| 0 <= j < n - 1 ==> PgProc::key_of(#[trigger] rows[j]) != row.oid);
        assert(row_get::<PgProc>(before.pg_proc, row.oid) is None);
        assert(PgProc::key_of(rows[n - 1]) < c.next_oid);
        lemma_put_proc(before, row);
        assert forall|key: u32|
            (forall|j: int| 0 <= j < n ==> PgProc::key_of(#[trigger] rows[j]) != key)
                implies #[trigger] row_get::<PgProc>(d.pg_proc, key) is None by {
            law_put_row_is_found::<PgProc>(before.pg_proc, row, key);
            assert(PgProc::key_of(rows[n - 1]) != key);
            assert(row_get::<PgProc>(before.pg_proc, key) is None);
        }
    }
}

proof fn lemma_loaded_operator_rows(c: CatalogView, rows: Seq<PgOperatorView>, n: int)
    requires
        0 <= n <= rows.len(),
        consistent(c),
        c.pg_operator.len() == 0,
        distinct_keys::<PgOperator>(rows),
        below::<PgOperator>(rows, c.next_oid),
    ensures
        ({
            let d = with_operator_rows(c, rows, n);
            consistent(d) && d == (CatalogView { pg_operator: d.pg_operator, operator_by_qname: d.operator_by_qname, ..c })
        }),
        forall|key: u32|
            (forall|j: int| 0 <= j < n ==> PgOperator::key_of(#[trigger] rows[j]) != key)
                ==> #[trigger] row_get::<PgOperator>(with_operator_rows(c, rows, n).pg_operator, key) is None,
    decreases n,
{
    let d = with_operator_rows(c, rows, n);
    if n > 0 {
        lemma_loaded_operator_rows(c, rows, n - 1);
        let before = with_operator_rows(c, rows, n - 1);
        let row = rows[n - 1];
        assert(d == before.with_operator(row));
        assert(forall|j: int| 0 <= j < n - 1 ==> PgOperator::key_of(#[trigger] rows[j]) != row.oid);
        assert(row_get::<PgOperator>(before.pg_operator, row.oid) is None);
        assert(PgOperator::key_of(rows[n - 1]) < c.next_oid);
        lemma_put_operator(before, row);
        assert forall|key: u32|
            (forall|j: int| 0 <= j < n ==> PgOperator::key_of(#[trigger] rows[j]) != key)
                implies #[trigger] row_get::<PgOperator>(d.pg_operator, key) is None by {
            law_put_row_is_found::<PgOperator>(before.pg_operator, row, key);
            assert(PgOperator::key_of(rows[n - 1]) != key);
            assert(row_get::<PgOperator>(before.pg_operator, key) is None);
        }
    }
}

proof fn lemma_loaded_cast_rows(c: CatalogView, rows: Seq<PgCast>, n: int)
    requires
        0 <= n <= rows.len(),
        consistent(c),
        c.pg_cast.len() == 0,
        distinct_keys::<PgCast>(rows),
        below::<PgCast>(rows, c.next_oid),
    ensures
        ({
            let d = with_cast_rows(c, rows, n);
            consistent(d) && d == (CatalogView { pg_cast: d.pg_cast, cast_by_pair: d.cast_by_pair, ..c })
        }),
        forall|key: u32|
            (forall|j: int| 0 <= j < n ==> PgCast::key_of(#[trigger] rows[j]) != key)
                ==> #[trigger] row_get::<PgCast>(with_cast_rows(c, rows, n).pg_cast, key) is None,
    decreases n,
{
    let d = with_cast_rows(c, rows, n);
    if n > 0 {
        lemma_loaded_cast_rows(c, rows, n - 1);
        let before = with_cast_rows(c, rows, n - 1);
        let row = rows[n - 1];
        assert(d == before.with_cast(row));
        assert(forall|j: int| 0 <= j < n - 1 ==> PgCast::key_of(#[trigger] rows[j]) != row.oid);
        assert(row_get::<PgCast>(before.pg_cast, row.oid) is None);
        assert(PgCast::key_of(rows[n - 1]) < c.next_oid);
        lemma_put_cast(before, row);
        assert forall|key: u32|
            (forall|j: int| 0 <= j < n ==> PgCast::key_of(#[trigger] rows[j]) != key)
                implies #[trigger] row_get::<PgCast>(d.pg_cast, key) is None by {
            law_put_row_is_found::<PgCast>(before.pg_cast, row, key);
            assert(PgCast::key_of(rows[n - 1]) != key);
            assert(row_get::<PgCast>(before.pg_cast, key) is None);
        }
    }
}

proof fn lemma_loaded_extension_rows(c: CatalogView, rows: Seq<PgExtensionView>, n: int)
    requires
        0 <= n <= rows.len(),
        consistent(c),
        c.pg_extension.len() == 0,
        distinct_keys::<PgExtension>(rows),
        below::<PgExtension>(rows, c.next_oid),
        c.extension_by_name == Map::<(u32, Seq<char>), u32>::empty(),
        distinct_names(rows, name_of_extension()),
    ensures
        ({
            let d = with_extension_rows(c, rows, n);
            consistent(d) && d == (CatalogView { pg_extension: d.pg_extension, extension_by_name: d.extension_by_name, ..c })
        }),
        forall|key: u32|
            (forall|j: int| 0 <= j < n ==> PgExtension::key_of(#[trigger] rows[j]) != key)
                ==> #[trigger] row_get::<PgExtension>(with_extension_rows(c, rows, n).pg_extension, key) is None,
        forall|q: (u32, Seq<char>)|
            (forall|j: int| 0 <= j < n ==> name_of_extension()(#[trigger] rows[j]) != q)
                ==> #[trigger] map_get(with_extension_rows(c, rows, n).extension_by_name, q) is None,
    decreases n,
{
    let d = with_extension_rows(c, rows, n);
    if n > 0 {
        lemma_loaded_extension_rows(c, rows, n - 1);
        let before = with_extension_rows(c, rows, n - 1);
        let row = rows[n - 1];
        assert(d == before.with_extension(row));
        assert(forall|j: int| 0 <= j < n - 1 ==> PgExtension::key_of(#[trigger] rows[j]) != row.oid);
        assert(row_get::<PgExtension>(before.pg_extension, row.oid) is None);
        assert(forall|j: int| 0 <= j < n - 1 ==> name_of_extension()(#[trigger] rows[j]) != name_of_extension()(row));
        assert(map_get(before.extension_by_name, name_of_extension()(row)) is None);
        assert(PgExtension::key_of(rows[n - 1]) < c.next_oid);
        lemma_put_extension(before, row);
        assert forall|key: u32|
            (forall|j: int| 0 <= j < n ==> PgExtension::key_of(#[trigger] rows[j]) != key)
                implies #[trigger] row_get::<PgExtension>(d.pg_extension, key) is None by {
            law_put_row_is_found::<PgExtension>(before.pg_extension, row, key);
            assert(PgExtension::key_of(rows[n - 1]) != key);
            assert(row_get::<PgExtension>(before.pg_extension, key) is None);
        }
        assert forall|q: (u32, Seq<char>)|
            (forall|j: int| 0 <= j < n ==> name_of_extension()(#[trigger] rows[j]) != q)
                implies #[trigger] map_get(d.extension_by_name, q) is None by {
            assert(name_of_extension()(rows[n - 1]) != q);
            assert(map_get(before.extension_by_name, q) is None);
        }
    }
}

proof fn lemma_loaded_collation_rows(c: CatalogView, rows: Seq<PgCollationView>, n: int)
    requires
        0 <= n <= rows.len(),
        consistent(c),
        c.pg_collation.len() == 0,
        distinct_keys::<PgCollation>(rows),
        below::<PgCollation>(rows, c.next_oid),
        c.collation_by_qname == Map::<(u32, Seq<char>), u32>::empty(),
        distinct_names(rows, name_of_collation()),
    ensures
        ({
            let d = with_collation_rows(c, rows, n);
            consistent(d) && d == (CatalogView { pg_collation: d.pg_collation, collation_by_qname: d.collation_by_qname, ..c })
        }),
        forall|key: u32|
            (forall|j: int| 0 <= j < n ==> PgCollation::key_of(#[trigger] rows[j]) != key)
                ==> #[trigger] row_get::<PgCollation>(with_collation_rows(c, rows, n).pg_collation, key) is None,
        forall|q: (u32, Seq<char>)|
            (forall|j: int| 0 <= j < n ==> name_of_collation()(#[trigger] rows[j]) != q)
                ==> #[trigger] map_get(with_collation_rows(c, rows, n).collation_by_qname, q) is None,
    decreases n,
{
    let d = with_collation_rows(c, rows, n);
    if n > 0 {
        lemma_loaded_collation_rows(c, rows, n - 1);
        let before = with_collation_rows(c, rows, n - 1);
        let row = rows[n - 1];
        assert(d == before.with_collation(row));
        assert(forall|j: int| 0 <= j < n - 1 ==> PgCollation::key_of(#[trigger] rows[j]) != row.oid);
        assert(row_get::<PgCollation>(before.pg_collation, row.oid) is None);
        assert(forall|j: int| 0 <= j < n - 1 ==> name_of_collation()(#[trigger] rows[j]) != name_of_collation()(row));
        assert(map_get(before.collation_by_qname, name_of_collation()(row)) is None);
        assert(PgCollation::key_of(rows[n - 1]) < c.next_oid);
        lemma_put_collation(before, row);
        assert forall|key: u32|
            (forall|j: int| 0 <= j < n ==> PgCollation::key_of(#[trigger] rows[j]) != key)
                implies #[trigger] row_get::<PgCollation>(d.pg_collation, key) is None by {
            law_put_row_is_found::<PgCollation>(before.pg_collation, row, key);
            assert(PgCollation::key_of(rows[n - 1]) != key);
            assert(row_get::<PgCollation>(before.pg_collation, key) is None);
        }
        assert forall|q: (u32, Seq<char>)|
            (forall|j: int| 0 <= j < n ==> name_of_collation()(#[trigger] rows[j]) != q)
                implies #[trigger] map_get(d.collation_by_qname, q) is None by {
            assert(name_of_collation()(rows[n - 1]) != q);
            assert(map_get(before.collation_by_qname, q) is None);
        }
    }
}

proof fn lemma_loaded_constraint_rows(c: CatalogView, rows: Seq<PgConstraintView>, n: int)
    requires
        0 <= n <= rows.len(),
        consistent(c),
        c.pg_constraint.len() == 0,
        distinct_keys::<PgConstraint>(rows),
        below::<PgConstraint>(rows, c.next_oid),
    ensures
        ({
            let d = with_constraint_rows(c, rows, n);
            consistent(d) && d == (CatalogView { pg_constraint: d.pg_constraint, ..c })
        }),
        forall|key: u32|
            (forall|j: int| 0 <= j < n ==> PgConstraint::key_of(#[trigger] rows[j]) != key)
                ==> #[trigger] row_get::<PgConstraint>(with_constraint_rows(c, rows, n).pg_constraint, key) is None,
    decreases n,
{
    let d = with_constraint_rows(c, rows, n);
    if n > 0 {
        lemma_loaded_constraint_rows(c, rows, n - 1);
        let before = with_constraint_rows(c, rows, n - 1);
        let row = rows[n - 1];
        assert(d == before.with_constraint(row));
        assert(forall|j: int| 0 <= j < n - 1 ==> PgConstraint::key_of(#[trigger] rows[j]) != row.oid);
        assert(row_get::<PgConstraint>(before.pg_constraint, row.oid) is None);
        assert(PgConstraint::key_of(rows[n - 1]) < c.next_oid);
        lemma_put_constraint(before, row);
        assert forall|key: u32|
            (forall|j: int| 0 <= j < n ==> PgConstraint::key_of(#[trigger] rows[j]) != key)
                implies #[trigger] row_get::<PgConstraint>(d.pg_constraint, key) is None by {
            law_put_row_is_found::<PgConstraint>(before.pg_constraint, row, key);
            assert(PgConstraint::key_of(rows[n - 1]) != key);
            assert(row_get::<PgConstraint>(before.pg_constraint, key) is None);
        }
    }
}

proof fn lemma_loaded_rewrite_rows(c: CatalogView, rows: Seq<PgRewriteView>, n: int)
    requires
        0 <= n <= rows.len(),
        consistent(c),
        c.pg_rewrite.len() == 0,
        distinct_keys::<PgRewrite>(rows),
        below::<PgRewrite>(rows, c.next_oid),
    ensures
        ({
            let d = with_rewrite_rows(c, rows, n);
            consistent(d) && d == (CatalogView { pg_rewrite: d.pg_rewrite, ..c })
        }),
        forall|key: u32|
            (forall|j: int| 0 <= j < n ==> PgRewrite::key_of(#[trigger] rows[j]) != key)
                ==> #[trigger] row_get::<PgRewrite>(with_rewrite_rows(c, rows, n).pg_rewrite, key) is None,
    decreases n,
{
    let d = with_rewrite_rows(c, rows, n);
    if n > 0 {
        lemma_loaded_rewrite_rows(c, rows, n - 1);
        let before = with_rewrite_rows(c, rows, n - 1);
        let row = rows[n - 1];
        assert(d == before.with_rewrite(row));
        assert(forall|j: int| 0 <= j < n - 1 ==> PgRewrite::key_of(#[trigger] rows[j]) != row.oid);
        assert(row_get::<PgRewrite>(before.pg_rewrite, row.oid) is None);
        assert(PgRewrite::key_of(rows[n - 1]) < c.next_oid);
        lemma_put_rewrite(before, row);
        assert forall|key: u32|
            (forall|j: int| 0 <= j < n ==> PgRewrite::key_of(#[trigger] rows[j]) != key)
                implies #[trigger] row_get::<PgRewrite>(d.pg_rewrite, key) is None by {
            law_put_row_is_found::<PgRewrite>(before.pg_rewrite, row, key);
            assert(PgRewrite::key_of(rows[n - 1]) != key);
            assert(row_get::<PgRewrite>(before.pg_rewrite, key) is None);
        }
    }
}

proof fn lemma_loaded_attribute_rows(c: CatalogView, rows: Seq<PgAttributeView>, n: int)
    requires
        0 <= n <= rows.len(),
        consistent(c),
    ensures
        ({
            let d = with_attribute_rows(c, rows, n);
            consistent(d) && d == (CatalogView { pg_attribute: d.pg_attribute, ..c })
        }),
    decreases n,
{
    if n > 0 {
        lemma_loaded_attribute_rows(c, rows, n - 1);
        let before = with_attribute_rows(c, rows, n - 1);
        let row = rows[n - 1];
        assert(with_attribute_rows(c, rows, n) == before.with_attribute(row));
        lemma_with_attribute(before, row);
    }
}

proof fn lemma_loaded_range_rows(c: CatalogView, rows: Seq<PgRange>, n: int)
    requires
        0 <= n <= rows.len(),
        consistent(c),
    ensures
        ({
            let d = with_range_rows(c, rows, n);
            consistent(d) && d == (CatalogView { pg_range: d.pg_range, ..c })
        }),
    decreases n,
{
    if n > 0 {
        lemma_loaded_range_rows(c, rows, n - 1);
        let before = with_range_rows(c, rows, n - 1);
        let row = rows[n - 1];
        assert(with_range_rows(c, rows, n) == before.with_range(row));
        lemma_with_range(before, row);
    }
}

proof fn lemma_loaded_aggregate_rows(c: CatalogView, rows: Seq<PgAggregate>, n: int)
    requires
        0 <= n <= rows.len(),
        consistent(c),
    ensures
        ({
            let d = with_aggregate_rows(c, rows, n);
            consistent(d) && d == (CatalogView { pg_aggregate: d.pg_aggregate, ..c })
        }),
    decreases n,
{
    if n > 0 {
        lemma_loaded_aggregate_rows(c, rows, n - 1);
        let before = with_aggregate_rows(c, rows, n - 1);
        let row = rows[n - 1];
        assert(with_aggregate_rows(c, rows, n) == before.with_aggregate(row));
        lemma_with_aggregate(before, row);
    }
}

proof fn lemma_loaded_index_rows(c: CatalogView, rows: Seq<PgIndexView>, n: int)
    requires
        0 <= n <= rows.len(),
        consistent(c),
    ensures
        ({
            let d = with_index_rows(c, rows, n);
            consistent(d) && d == (CatalogView { pg_index: d.pg_index, ..c })
        }),
    decreases n,
{
    if n > 0 {
        lemma_loaded_index_rows(c, rows, n - 1);
        let before = with_index_rows(c, rows, n - 1);
        let row = rows[n - 1];
        assert(with_index_rows(c, rows, n) == before.with_index(row));
        lemma_with_index(before, row);
    }
}

proof fn lemma_loaded_enum_rows(c: CatalogView, rows: Seq<PgEnumView>, n: int)
    requires
        0 <= n <= rows.len(),
        consistent(c),
    ensures
        ({
            let d = with_enum_rows(c, rows, n);
            consistent(d) && d == (CatalogView { pg_enum: d.pg_enum, ..c })
        }),
    decreases n,
{
    if n > 0 {
        lemma_loaded_enum_rows(c, rows, n - 1);
        let before = with_enum_rows(c, rows, n - 1);
        let row = rows[n - 1];
        assert(with_enum_rows(c, rows, n) == with_last_label(before, row));
        lemma_with_label(before, row, before.labels_of(row.enumtypid).len() as int);
    }
}

// ── Laws ────────────────────────────────────────────────────────────────────

/// A catalog that is loaded from a sound seed is consistent, so what statements keep
/// of consistent catalogs holds of all that come from it.
pub proof fn law_loaded_catalog_is_consistent(s: SeedView)
    requires
        seed_sound(s),
    ensures
        consistent(loaded(s)),
{
    law_new_oids_are_unused(s);
    law_empty_catalog_is_consistent();
    let c0 = CatalogView { next_oid: next_after(greatest_oid(s)), ..empty_catalog() };
    assert(consistent(c0)) by {
        reveal(consistent);
    }
    let c1 = with_namespace_rows(c0, s.pg_namespace, s.pg_namespace.len() as int);
    let c2 = with_type_rows(c1, s.pg_type, s.pg_type.len() as int);
    let c3 = with_class_rows(c2, s.pg_class, s.pg_class.len() as int);
    let c4 = with_attribute_rows(c3, s.pg_attribute, s.pg_attribute.len() as int);
    let c5 = with_enum_rows(c4, s.pg_enum, s.pg_enum.len() as int);
    let c6 = with_range_rows(c5, s.pg_range, s.pg_range.len() as int);
    let c7 = with_proc_rows(c6, s.pg_proc, s.pg_proc.len() as int);
    let c8 = with_aggregate_rows(c7, s.pg_aggregate, s.pg_aggregate.len() as int);
    let c9 = with_operator_rows(c8, s.pg_operator, s.pg_operator.len() as int);
    let c10 = with_cast_rows(c9, s.pg_cast, s.pg_cast.len() as int);
    let c11 = with_extension_rows(c10, s.pg_extension, s.pg_extension.len() as int);
    let c12 = with_collation_rows(c11, s.pg_collation, s.pg_collation.len() as int);
    let c13 = with_constraint_rows(c12, s.pg_constraint, s.pg_constraint.len() as int);
    let c14 = with_index_rows(c13, s.pg_index, s.pg_index.len() as int);
    let c15 = with_rewrite_rows(c14, s.pg_rewrite, s.pg_rewrite.len() as int);
    assert(c0.next_oid == loaded(s).next_oid);
    lemma_loaded_namespace_rows(c0, s.pg_namespace, s.pg_namespace.len() as int);
    lemma_loaded_type_rows(c1, s.pg_type, s.pg_type.len() as int);
    lemma_loaded_class_rows(c2, s.pg_class, s.pg_class.len() as int);
    lemma_loaded_attribute_rows(c3, s.pg_attribute, s.pg_attribute.len() as int);
    lemma_loaded_enum_rows(c4, s.pg_enum, s.pg_enum.len() as int);
    lemma_loaded_range_rows(c5, s.pg_range, s.pg_range.len() as int);
    lemma_loaded_proc_rows(c6, s.pg_proc, s.pg_proc.len() as int);
    lemma_loaded_aggregate_rows(c7, s.pg_aggregate, s.pg_aggregate.len() as int);
    lemma_loaded_operator_rows(c8, s.pg_operator, s.pg_operator.len() as int);
    lemma_loaded_cast_rows(c9, s.pg_cast, s.pg_cast.len() as int);
    lemma_loaded_extension_rows(c10, s.pg_extension, s.pg_extension.len() as int);
    lemma_loaded_collation_rows(c11, s.pg_collation, s.pg_collation.len() as int);
    lemma_loaded_constraint_rows(c12, s.pg_constraint, s.pg_constraint.len() as int);
    lemma_loaded_index_rows(c13, s.pg_index, s.pg_index.len() as int);
    lemma_loaded_rewrite_rows(c14, s.pg_rewrite, s.pg_rewrite.len() as int);
    lemma_rest(c15, loaded(s));
}

} // verus!
