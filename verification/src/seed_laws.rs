//! What storing a catalog and loading it again gives back.

use crate::catalog::{attr_inserted, empty_catalog, CatalogView};
use crate::pg_catalog::{
    EnumLabels, EnumLabelsView, PgAggregate, PgAttributeView, PgCast, PgClass, PgClassView,
    PgCollation, PgCollationView, PgConstraint, PgConstraintView, PgDepend, PgEnumView,
    PgExtension, PgExtensionView, PgIndex, PgIndexView, PgInherits, PgNamespace, PgNamespaceView,
    PgOperator, PgOperatorView, PgProc, PgProcView, PgRange, PgRewrite, PgRewriteView, PgType,
    PgTypeView, RelAttrs, RelAttrsView, USER_OID_START,
};
use crate::seed::{
    all_columns, all_labels, by_key, by_number, dependency_inserted, dependency_not_after,
    greatest_key, greatest_label, greatest_oid, key_inserted, link_inserted, link_not_after,
    loaded, next_after, ordered_dependencies, ordered_links, seed_of, with_aggregate_rows,
    with_attribute_rows, with_cast_rows, with_class_rows, with_collation_rows,
    with_constraint_rows, with_enum_rows, with_extension_rows, with_index_rows, with_last_label,
    with_namespace_rows, with_operator_rows, with_proc_rows, with_range_rows, with_rewrite_rows,
    with_type_rows, SeedView,
};
use crate::table::{
    distinct_keys, lemma_row_position, lemma_row_position_meaning, row_get, row_position, row_put,
    Row,
};
use vstd::prelude::*;

verus! {

// ── The order of rows ───────────────────────────────────────────────────────

/// Whether the keys of rows ascend, each key once.
pub open spec fn ascending<R: Row>(rows: Seq<R::V>) -> bool {
    forall|i: int, j: int|
        0 <= i < j < rows.len() ==> R::key_of(#[trigger] rows[i]) < R::key_of(#[trigger] rows[j])
}

/// Whether columns stand by relation, those of one relation by their numbers.
pub open spec fn columns_ordered(s: Seq<PgAttributeView>) -> bool {
    forall|i: int, j: int|
        0 <= i < j < s.len() ==> column_not_after(#[trigger] s[i], #[trigger] s[j])
}

/// Whether a column does not come after another one.
pub open spec fn column_not_after(a: PgAttributeView, b: PgAttributeView) -> bool {
    a.attrelid < b.attrelid || (a.attrelid == b.attrelid && a.attnum <= b.attnum)
}

/// Whether labels stand by type.
pub open spec fn labels_ordered(s: Seq<PgEnumView>) -> bool {
    forall|i: int, j: int|
        0 <= i < j < s.len() ==> (#[trigger] s[i]).enumtypid <= (#[trigger] s[j]).enumtypid
}

/// Whether dependencies stand in their order.
pub open spec fn dependencies_ordered(s: Seq<PgDepend>) -> bool {
    forall|i: int, j: int|
        0 <= i < j < s.len() ==> dependency_not_after(#[trigger] s[i], #[trigger] s[j])
}

/// Whether links stand in their order.
pub open spec fn links_ordered(s: Seq<PgInherits>) -> bool {
    forall|i: int, j: int|
        0 <= i < j < s.len() ==> link_not_after(#[trigger] s[i], #[trigger] s[j])
}

/// Whether the keys of every table of a seed ascend.
pub open spec fn tables_ascend(s: SeedView) -> bool {
    &&& ascending::<PgNamespace>(s.pg_namespace)
    &&& ascending::<PgType>(s.pg_type)
    &&& ascending::<PgClass>(s.pg_class)
    &&& ascending::<PgRange>(s.pg_range)
    &&& ascending::<PgProc>(s.pg_proc)
    &&& ascending::<PgAggregate>(s.pg_aggregate)
    &&& ascending::<PgOperator>(s.pg_operator)
    &&& ascending::<PgCast>(s.pg_cast)
    &&& ascending::<PgExtension>(s.pg_extension)
    &&& ascending::<PgCollation>(s.pg_collation)
    &&& ascending::<PgConstraint>(s.pg_constraint)
    &&& ascending::<PgIndex>(s.pg_index)
    &&& ascending::<PgRewrite>(s.pg_rewrite)
}

/// Whether every table of a seed stands in its order, with each key once.
pub open spec fn seed_ordered(s: SeedView) -> bool {
    &&& tables_ascend(s)
    &&& columns_ordered(s.pg_attribute)
    &&& labels_ordered(s.pg_enum)
    &&& dependencies_ordered(s.pg_depend)
    &&& links_ordered(s.pg_inherits)
}

/// Whether the lists of columns hold the columns of their relations, and the lists
/// of labels the labels of their types, and no table has a key twice.
pub open spec fn tables_consistent(c: CatalogView) -> bool {
    &&& distinct_keys::<PgNamespace>(c.pg_namespace)
    &&& distinct_keys::<PgType>(c.pg_type)
    &&& distinct_keys::<PgClass>(c.pg_class)
    &&& distinct_keys::<PgRange>(c.pg_range)
    &&& distinct_keys::<PgProc>(c.pg_proc)
    &&& distinct_keys::<PgAggregate>(c.pg_aggregate)
    &&& distinct_keys::<PgOperator>(c.pg_operator)
    &&& distinct_keys::<PgCast>(c.pg_cast)
    &&& distinct_keys::<PgExtension>(c.pg_extension)
    &&& distinct_keys::<PgCollation>(c.pg_collation)
    &&& distinct_keys::<PgConstraint>(c.pg_constraint)
    &&& distinct_keys::<PgIndex>(c.pg_index)
    &&& distinct_keys::<PgRewrite>(c.pg_rewrite)
    &&& distinct_keys::<RelAttrs>(c.pg_attribute)
    &&& distinct_keys::<EnumLabels>(c.pg_enum)
    &&& forall|i: int| 0 <= i < c.pg_attribute.len() ==> list_owned(#[trigger] c.pg_attribute[i])
    &&& forall|i: int| 0 <= i < c.pg_enum.len() ==> labels_owned(#[trigger] c.pg_enum[i])
}

/// Whether the columns in a list belong to its relation.
pub open spec fn list_owned(row: RelAttrsView) -> bool {
    forall|k: int| 0 <= k < row.attrs.len() ==> (#[trigger] row.attrs[k]).attrelid == row.relid
}

/// Whether the labels in a list belong to its type.
pub open spec fn labels_owned(row: EnumLabelsView) -> bool {
    forall|k: int| 0 <= k < row.labels.len() ==> (#[trigger] row.labels[k]).enumtypid == row.typid
}

// ── Loading ordered rows ────────────────────────────────────────────────────

proof fn lemma_put_next<R: Row>(rows: Seq<R::V>, n: int)
    requires
        ascending::<R>(rows),
        0 <= n < rows.len(),
    ensures
        row_put::<R>(rows.take(n), rows[n]) == rows.take(n + 1),
{
    let front = rows.take(n);
    assert forall|j: int| 0 <= j < n implies R::key_of(#[trigger] front[j]) != R::key_of(
        rows[n],
    ) by {
        assert(front[j] == rows[j]);
    }
    lemma_row_position::<R>(front, R::key_of(rows[n]), n);
    assert(front.push(rows[n]) =~= rows.take(n + 1));
}

proof fn lemma_namespace_rows(c: CatalogView, rows: Seq<PgNamespaceView>, n: int)
    requires
        c.pg_namespace == Seq::<PgNamespaceView>::empty(),
        ascending::<PgNamespace>(rows),
        0 <= n <= rows.len(),
    ensures
        ({
            let r = with_namespace_rows(c, rows, n);
            r == (CatalogView { pg_namespace: rows.take(n), namespace_by_name: r.namespace_by_name, ..c })
        }),
    decreases n,
{
    if n > 0 {
        lemma_namespace_rows(c, rows, n - 1);
        lemma_put_next::<PgNamespace>(rows, n - 1);
    } else {
        assert(rows.take(n) =~= Seq::empty());
    }
}

proof fn lemma_type_rows(c: CatalogView, rows: Seq<PgTypeView>, n: int)
    requires
        c.pg_type == Seq::<PgTypeView>::empty(),
        ascending::<PgType>(rows),
        0 <= n <= rows.len(),
    ensures
        ({
            let r = with_type_rows(c, rows, n);
            r == (CatalogView { pg_type: rows.take(n), type_by_qname: r.type_by_qname, ..c })
        }),
    decreases n,
{
    if n > 0 {
        lemma_type_rows(c, rows, n - 1);
        lemma_put_next::<PgType>(rows, n - 1);
    } else {
        assert(rows.take(n) =~= Seq::empty());
    }
}

proof fn lemma_class_rows(c: CatalogView, rows: Seq<PgClassView>, n: int)
    requires
        c.pg_class == Seq::<PgClassView>::empty(),
        ascending::<PgClass>(rows),
        0 <= n <= rows.len(),
    ensures
        ({
            let r = with_class_rows(c, rows, n);
            r == (CatalogView { pg_class: rows.take(n), class_by_qname: r.class_by_qname, ..c })
        }),
    decreases n,
{
    if n > 0 {
        lemma_class_rows(c, rows, n - 1);
        lemma_put_next::<PgClass>(rows, n - 1);
    } else {
        assert(rows.take(n) =~= Seq::empty());
    }
}

proof fn lemma_range_rows(c: CatalogView, rows: Seq<PgRange>, n: int)
    requires
        c.pg_range == Seq::<PgRange>::empty(),
        ascending::<PgRange>(rows),
        0 <= n <= rows.len(),
    ensures
        ({
            let r = with_range_rows(c, rows, n);
            r == (CatalogView { pg_range: rows.take(n), ..c })
        }),
    decreases n,
{
    if n > 0 {
        lemma_range_rows(c, rows, n - 1);
        lemma_put_next::<PgRange>(rows, n - 1);
    } else {
        assert(rows.take(n) =~= Seq::empty());
    }
}

proof fn lemma_proc_rows(c: CatalogView, rows: Seq<PgProcView>, n: int)
    requires
        c.pg_proc == Seq::<PgProcView>::empty(),
        ascending::<PgProc>(rows),
        0 <= n <= rows.len(),
    ensures
        ({
            let r = with_proc_rows(c, rows, n);
            r == (CatalogView { pg_proc: rows.take(n), proc_by_qname: r.proc_by_qname, ..c })
        }),
    decreases n,
{
    if n > 0 {
        lemma_proc_rows(c, rows, n - 1);
        lemma_put_next::<PgProc>(rows, n - 1);
    } else {
        assert(rows.take(n) =~= Seq::empty());
    }
}

proof fn lemma_aggregate_rows(c: CatalogView, rows: Seq<PgAggregate>, n: int)
    requires
        c.pg_aggregate == Seq::<PgAggregate>::empty(),
        ascending::<PgAggregate>(rows),
        0 <= n <= rows.len(),
    ensures
        ({
            let r = with_aggregate_rows(c, rows, n);
            r == (CatalogView { pg_aggregate: rows.take(n), ..c })
        }),
    decreases n,
{
    if n > 0 {
        lemma_aggregate_rows(c, rows, n - 1);
        lemma_put_next::<PgAggregate>(rows, n - 1);
    } else {
        assert(rows.take(n) =~= Seq::empty());
    }
}

proof fn lemma_operator_rows(c: CatalogView, rows: Seq<PgOperatorView>, n: int)
    requires
        c.pg_operator == Seq::<PgOperatorView>::empty(),
        ascending::<PgOperator>(rows),
        0 <= n <= rows.len(),
    ensures
        ({
            let r = with_operator_rows(c, rows, n);
            r == (CatalogView { pg_operator: rows.take(n), operator_by_qname: r.operator_by_qname, ..c })
        }),
    decreases n,
{
    if n > 0 {
        lemma_operator_rows(c, rows, n - 1);
        lemma_put_next::<PgOperator>(rows, n - 1);
    } else {
        assert(rows.take(n) =~= Seq::empty());
    }
}

proof fn lemma_cast_rows(c: CatalogView, rows: Seq<PgCast>, n: int)
    requires
        c.pg_cast == Seq::<PgCast>::empty(),
        ascending::<PgCast>(rows),
        0 <= n <= rows.len(),
    ensures
        ({
            let r = with_cast_rows(c, rows, n);
            r == (CatalogView { pg_cast: rows.take(n), cast_by_pair: r.cast_by_pair, ..c })
        }),
    decreases n,
{
    if n > 0 {
        lemma_cast_rows(c, rows, n - 1);
        lemma_put_next::<PgCast>(rows, n - 1);
    } else {
        assert(rows.take(n) =~= Seq::empty());
    }
}

proof fn lemma_extension_rows(c: CatalogView, rows: Seq<PgExtensionView>, n: int)
    requires
        c.pg_extension == Seq::<PgExtensionView>::empty(),
        ascending::<PgExtension>(rows),
        0 <= n <= rows.len(),
    ensures
        ({
            let r = with_extension_rows(c, rows, n);
            r == (CatalogView { pg_extension: rows.take(n), extension_by_name: r.extension_by_name, ..c })
        }),
    decreases n,
{
    if n > 0 {
        lemma_extension_rows(c, rows, n - 1);
        lemma_put_next::<PgExtension>(rows, n - 1);
    } else {
        assert(rows.take(n) =~= Seq::empty());
    }
}

proof fn lemma_collation_rows(c: CatalogView, rows: Seq<PgCollationView>, n: int)
    requires
        c.pg_collation == Seq::<PgCollationView>::empty(),
        ascending::<PgCollation>(rows),
        0 <= n <= rows.len(),
    ensures
        ({
            let r = with_collation_rows(c, rows, n);
            r == (CatalogView { pg_collation: rows.take(n), collation_by_qname: r.collation_by_qname, ..c })
        }),
    decreases n,
{
    if n > 0 {
        lemma_collation_rows(c, rows, n - 1);
        lemma_put_next::<PgCollation>(rows, n - 1);
    } else {
        assert(rows.take(n) =~= Seq::empty());
    }
}

proof fn lemma_constraint_rows(c: CatalogView, rows: Seq<PgConstraintView>, n: int)
    requires
        c.pg_constraint == Seq::<PgConstraintView>::empty(),
        ascending::<PgConstraint>(rows),
        0 <= n <= rows.len(),
    ensures
        ({
            let r = with_constraint_rows(c, rows, n);
            r == (CatalogView { pg_constraint: rows.take(n), ..c })
        }),
    decreases n,
{
    if n > 0 {
        lemma_constraint_rows(c, rows, n - 1);
        lemma_put_next::<PgConstraint>(rows, n - 1);
    } else {
        assert(rows.take(n) =~= Seq::empty());
    }
}

proof fn lemma_index_rows(c: CatalogView, rows: Seq<PgIndexView>, n: int)
    requires
        c.pg_index == Seq::<PgIndexView>::empty(),
        ascending::<PgIndex>(rows),
        0 <= n <= rows.len(),
    ensures
        ({
            let r = with_index_rows(c, rows, n);
            r == (CatalogView { pg_index: rows.take(n), ..c })
        }),
    decreases n,
{
    if n > 0 {
        lemma_index_rows(c, rows, n - 1);
        lemma_put_next::<PgIndex>(rows, n - 1);
    } else {
        assert(rows.take(n) =~= Seq::empty());
    }
}

proof fn lemma_rewrite_rows(c: CatalogView, rows: Seq<PgRewriteView>, n: int)
    requires
        c.pg_rewrite == Seq::<PgRewriteView>::empty(),
        ascending::<PgRewrite>(rows),
        0 <= n <= rows.len(),
    ensures
        ({
            let r = with_rewrite_rows(c, rows, n);
            r == (CatalogView { pg_rewrite: rows.take(n), ..c })
        }),
    decreases n,
{
    if n > 0 {
        lemma_rewrite_rows(c, rows, n - 1);
        lemma_put_next::<PgRewrite>(rows, n - 1);
    } else {
        assert(rows.take(n) =~= Seq::empty());
    }
}

proof fn lemma_ordered_list_stays(attrs: Seq<PgAttributeView>)
    requires
        forall|i: int, j: int|
            0 <= i < j < attrs.len() ==> (#[trigger] attrs[i]).attnum <= (#[trigger] attrs[j]).attnum,
    ensures
        by_number(attrs) == attrs,
    decreases attrs.len(),
{
    if attrs.len() > 0 {
        lemma_ordered_list_stays(attrs.drop_last());
        if attrs.len() > 1 {
            assert(attrs[attrs.len() - 2].attnum <= attrs[attrs.len() - 1].attnum);
        }
        assert(attrs.drop_last().push(attrs.last()) =~= attrs);
    } else {
        assert(attrs =~= Seq::empty());
    }
}

/// Whether a list holds columns of its relation, at least one, by their numbers.
spec fn good_list(row: RelAttrsView) -> bool {
    &&& row.attrs.len() > 0
    &&& list_owned(row)
    &&& forall|i: int, j: int|
        0 <= i < j < row.attrs.len() ==> (#[trigger] row.attrs[i]).attnum <= (
        #[trigger] row.attrs[j]).attnum
}

proof fn lemma_columns_of_same_rows(a: Seq<RelAttrsView>, b: Seq<RelAttrsView>, n: int)
    requires
        forall|i: int| 0 <= i < n ==> a[i] == b[i],
    ensures
        all_columns(a, n) == all_columns(b, n),
    decreases n,
{
    if n > 0 {
        lemma_columns_of_same_rows(a, b, n - 1);
    }
}

#[verifier::rlimit(40)]
proof fn lemma_attribute_rows(c: CatalogView, s: Seq<PgAttributeView>, n: int)
    requires
        c.pg_attribute == Seq::<RelAttrsView>::empty(),
        columns_ordered(s),
        0 <= n <= s.len(),
    ensures
        ({
            let r = with_attribute_rows(c, s, n);
            &&& r == (CatalogView { pg_attribute: r.pg_attribute, ..c })
            &&& ascending::<RelAttrs>(r.pg_attribute)
            &&& forall|i: int|
                0 <= i < r.pg_attribute.len() ==> good_list(#[trigger] r.pg_attribute[i])
            &&& all_columns(r.pg_attribute, r.pg_attribute.len() as int) == s.take(n)
            &&& n > 0 ==> r.pg_attribute.len() > 0 && r.pg_attribute.last().attrs.last() == s[n - 1]
        }),
    decreases n,
{
    if n > 0 {
        lemma_attribute_rows(c, s, n - 1);
        let p = with_attribute_rows(c, s, n - 1);
        let a = s[n - 1];
        let rows = p.pg_attribute;
        let m = rows.len() as int;
        let r = with_attribute_rows(c, s, n);
        assert(r == p.with_attribute(a));
        assert(s.take(n) =~= s.take(n - 1).push(a));
        if m > 0 {
            assert(good_list(rows[m - 1]));
            assert(n > 1) by {
                if n == 1 {
                    assert(s.take(0) =~= Seq::empty());
                    assert(all_columns(rows, m) == all_columns(rows, m - 1) + by_number(
                        rows[m - 1].attrs,
                    ));
                    lemma_ordered_list_stays(rows[m - 1].attrs);
                    assert(all_columns(rows, m).len() > 0);
                }
            }
            assert(column_not_after(s[n - 2], s[n - 1]));
            assert(rows.last().attrs.last().attrelid == rows.last().relid);
        }
        assert(n == 1 ==> m == 0);
        if m > 0 && rows[m - 1].relid == a.attrelid {
            let last = rows[m - 1];
            assert forall|j: int| 0 <= j < m - 1 implies RelAttrs::key_of(#[trigger] rows[j])
                != a.attrelid by {
                assert(RelAttrs::key_of(rows[j]) < RelAttrs::key_of(rows[m - 1]));
            }
            lemma_row_position::<RelAttrs>(rows, a.attrelid, m - 1);
            let row = RelAttrsView { relid: a.attrelid, attrs: last.attrs.push(a) };
            assert(attr_inserted(last.attrs, a) == last.attrs.push(a));
            assert(r.pg_attribute == rows.update(m - 1, row));
            assert(good_list(row));
            assert forall|i: int| 0 <= i < r.pg_attribute.len() implies good_list(
                #[trigger] r.pg_attribute[i],
            ) by {
                if i < m - 1 {
                    assert(good_list(rows[i]));
                }
            }
            assert forall|i: int, j: int| 0 <= i < j < r.pg_attribute.len() implies
                RelAttrs::key_of(#[trigger] r.pg_attribute[i]) < RelAttrs::key_of(
                #[trigger] r.pg_attribute[j],
            ) by {
                assert(RelAttrs::key_of(rows[i]) < RelAttrs::key_of(rows[j]));
            }
            lemma_columns_of_same_rows(rows, r.pg_attribute, m - 1);
            lemma_ordered_list_stays(last.attrs);
            lemma_ordered_list_stays(row.attrs);
            assert(all_columns(rows, m) == all_columns(rows, m - 1) + last.attrs);
            assert(all_columns(r.pg_attribute, m) == all_columns(rows, m - 1) + last.attrs.push(a));
            assert(all_columns(rows, m - 1) + last.attrs.push(a) =~= s.take(n - 1).push(a));
        } else {
            assert forall|j: int| 0 <= j < m implies RelAttrs::key_of(#[trigger] rows[j])
                < a.attrelid by {
                if j < m - 1 {
                    assert(RelAttrs::key_of(rows[j]) < RelAttrs::key_of(rows[m - 1]));
                }
            }
            lemma_row_position::<RelAttrs>(rows, a.attrelid, m);
            let row = RelAttrsView { relid: a.attrelid, attrs: Seq::<PgAttributeView>::empty().push(a) };
            assert(r.pg_attribute == rows.push(row));
            assert(good_list(row));
            assert forall|i: int| 0 <= i < r.pg_attribute.len() implies good_list(
                #[trigger] r.pg_attribute[i],
            ) by {
                if i < m {
                    assert(good_list(rows[i]));
                }
            }
            lemma_columns_of_same_rows(rows, r.pg_attribute, m);
            lemma_ordered_list_stays(row.attrs);
            assert(all_columns(r.pg_attribute, m + 1) == all_columns(r.pg_attribute, m) + row.attrs);
            assert(s.take(n - 1) + row.attrs =~= s.take(n - 1).push(a));
        }
    } else {
        assert(s.take(0) =~= Seq::empty());
    }
}

/// Whether a list holds labels of its type, at least one.
spec fn good_labels(row: EnumLabelsView) -> bool {
    row.labels.len() > 0 && labels_owned(row)
}

proof fn lemma_labels_of_same_rows(a: Seq<EnumLabelsView>, b: Seq<EnumLabelsView>, n: int)
    requires
        forall|i: int| 0 <= i < n ==> a[i] == b[i],
    ensures
        all_labels(a, n) == all_labels(b, n),
    decreases n,
{
    if n > 0 {
        lemma_labels_of_same_rows(a, b, n - 1);
    }
}

#[verifier::rlimit(40)]
proof fn lemma_enum_rows(c: CatalogView, s: Seq<PgEnumView>, n: int)
    requires
        c.pg_enum == Seq::<EnumLabelsView>::empty(),
        labels_ordered(s),
        0 <= n <= s.len(),
    ensures
        ({
            let r = with_enum_rows(c, s, n);
            &&& r == (CatalogView { pg_enum: r.pg_enum, ..c })
            &&& ascending::<EnumLabels>(r.pg_enum)
            &&& forall|i: int| 0 <= i < r.pg_enum.len() ==> good_labels(#[trigger] r.pg_enum[i])
            &&& all_labels(r.pg_enum, r.pg_enum.len() as int) == s.take(n)
            &&& n > 0 ==> r.pg_enum.len() > 0 && r.pg_enum.last().labels.last() == s[n - 1]
        }),
    decreases n,
{
    if n > 0 {
        lemma_enum_rows(c, s, n - 1);
        let p = with_enum_rows(c, s, n - 1);
        let a = s[n - 1];
        let rows = p.pg_enum;
        let m = rows.len() as int;
        let r = with_enum_rows(c, s, n);
        assert(r == with_last_label(p, a));
        assert(s.take(n) =~= s.take(n - 1).push(a));
        if m > 0 {
            assert(good_labels(rows[m - 1]));
            assert(n > 1) by {
                if n == 1 {
                    assert(s.take(0) =~= Seq::empty());
                    assert(all_labels(rows, m) == all_labels(rows, m - 1) + rows[m - 1].labels);
                    assert(all_labels(rows, m).len() > 0);
                }
            }
            assert(s[n - 2].enumtypid <= s[n - 1].enumtypid);
            assert(rows.last().labels.last().enumtypid == rows.last().typid);
        }
        if m > 0 && rows[m - 1].typid == a.enumtypid {
            let last = rows[m - 1];
            assert forall|j: int| 0 <= j < m - 1 implies EnumLabels::key_of(#[trigger] rows[j])
                != a.enumtypid by {
                assert(EnumLabels::key_of(rows[j]) < EnumLabels::key_of(rows[m - 1]));
            }
            lemma_row_position::<EnumLabels>(rows, a.enumtypid, m - 1);
            let row = EnumLabelsView { typid: a.enumtypid, labels: last.labels.push(a) };
            assert(last.labels.insert(last.labels.len() as int, a) =~= last.labels.push(a));
            assert(r.pg_enum == rows.update(m - 1, row));
            assert(good_labels(row));
            assert forall|i: int| 0 <= i < r.pg_enum.len() implies good_labels(
                #[trigger] r.pg_enum[i],
            ) by {
                if i < m - 1 {
                    assert(good_labels(rows[i]));
                }
            }
            assert forall|i: int, j: int| 0 <= i < j < r.pg_enum.len() implies
                EnumLabels::key_of(#[trigger] r.pg_enum[i]) < EnumLabels::key_of(
                #[trigger] r.pg_enum[j],
            ) by {
                assert(EnumLabels::key_of(rows[i]) < EnumLabels::key_of(rows[j]));
            }
            lemma_labels_of_same_rows(rows, r.pg_enum, m - 1);
            assert(all_labels(rows, m) == all_labels(rows, m - 1) + last.labels);
            assert(all_labels(r.pg_enum, m) == all_labels(rows, m - 1) + last.labels.push(a));
            assert(all_labels(rows, m - 1) + last.labels.push(a) =~= s.take(n - 1).push(a));
        } else {
            assert forall|j: int| 0 <= j < m implies EnumLabels::key_of(#[trigger] rows[j])
                < a.enumtypid by {
                if j < m - 1 {
                    assert(EnumLabels::key_of(rows[j]) < EnumLabels::key_of(rows[m - 1]));
                }
            }
            lemma_row_position::<EnumLabels>(rows, a.enumtypid, m);
            let row = EnumLabelsView { typid: a.enumtypid, labels: Seq::<PgEnumView>::empty().push(a) };
            assert(Seq::<PgEnumView>::empty().insert(0, a) =~= Seq::<PgEnumView>::empty().push(a));
            assert(r.pg_enum == rows.push(row));
            assert(good_labels(row));
            assert forall|i: int| 0 <= i < r.pg_enum.len() implies good_labels(
                #[trigger] r.pg_enum[i],
            ) by {
                if i < m {
                    assert(good_labels(rows[i]));
                }
            }
            lemma_labels_of_same_rows(rows, r.pg_enum, m);
            assert(all_labels(r.pg_enum, m + 1) == all_labels(r.pg_enum, m) + row.labels);
            assert(s.take(n - 1) + row.labels =~= s.take(n - 1).push(a));
        }
    } else {
        assert(s.take(0) =~= Seq::empty());
    }
}

// ── Storing ─────────────────────────────────────────────────────────────────

proof fn lemma_ascending_stays<R: Row>(rows: Seq<R::V>)
    requires
        ascending::<R>(rows),
    ensures
        by_key::<R>(rows) == rows,
    decreases rows.len(),
{
    if rows.len() > 0 {
        lemma_ascending_stays::<R>(rows.drop_last());
        if rows.len() > 1 {
            assert(R::key_of(rows[rows.len() - 2]) < R::key_of(rows[rows.len() - 1]));
        }
        assert(rows.drop_last().push(rows.last()) =~= rows);
    } else {
        assert(rows =~= Seq::empty());
    }
}

proof fn lemma_dependencies_stay(rows: Seq<PgDepend>)
    requires
        dependencies_ordered(rows),
    ensures
        ordered_dependencies(rows) == rows,
    decreases rows.len(),
{
    if rows.len() > 0 {
        lemma_dependencies_stay(rows.drop_last());
        if rows.len() > 1 {
            assert(dependency_not_after(rows[rows.len() - 2], rows[rows.len() - 1]));
        }
        assert(rows.drop_last().push(rows.last()) =~= rows);
    } else {
        assert(rows =~= Seq::empty());
    }
}

proof fn lemma_links_stay(rows: Seq<PgInherits>)
    requires
        links_ordered(rows),
    ensures
        ordered_links(rows) == rows,
    decreases rows.len(),
{
    if rows.len() > 0 {
        lemma_links_stay(rows.drop_last());
        if rows.len() > 1 {
            assert(link_not_after(rows[rows.len() - 2], rows[rows.len() - 1]));
        }
        assert(rows.drop_last().push(rows.last()) =~= rows);
    } else {
        assert(rows =~= Seq::empty());
    }
}

/// Rows that stand in their order come back from a catalog that was loaded from
/// them: nothing is lost, added or moved.
#[verifier::rlimit(40)]
pub proof fn law_ordered_rows_come_back(s: SeedView)
    requires
        seed_ordered(s),
    ensures
        seed_of(loaded(s)) == s,
{
    let c0 = CatalogView { next_oid: next_after(greatest_oid(s)), ..empty_catalog() };
    let c1 = with_namespace_rows(c0, s.pg_namespace, s.pg_namespace.len() as int);
    lemma_namespace_rows(c0, s.pg_namespace, s.pg_namespace.len() as int);
    assert(s.pg_namespace.take(s.pg_namespace.len() as int) =~= s.pg_namespace);
    let c2 = with_type_rows(c1, s.pg_type, s.pg_type.len() as int);
    lemma_type_rows(c1, s.pg_type, s.pg_type.len() as int);
    assert(s.pg_type.take(s.pg_type.len() as int) =~= s.pg_type);
    let c3 = with_class_rows(c2, s.pg_class, s.pg_class.len() as int);
    lemma_class_rows(c2, s.pg_class, s.pg_class.len() as int);
    assert(s.pg_class.take(s.pg_class.len() as int) =~= s.pg_class);
    let c4 = with_attribute_rows(c3, s.pg_attribute, s.pg_attribute.len() as int);
    lemma_attribute_rows(c3, s.pg_attribute, s.pg_attribute.len() as int);
    assert(s.pg_attribute.take(s.pg_attribute.len() as int) =~= s.pg_attribute);
    let c5 = with_enum_rows(c4, s.pg_enum, s.pg_enum.len() as int);
    lemma_enum_rows(c4, s.pg_enum, s.pg_enum.len() as int);
    assert(s.pg_enum.take(s.pg_enum.len() as int) =~= s.pg_enum);
    let c6 = with_range_rows(c5, s.pg_range, s.pg_range.len() as int);
    lemma_range_rows(c5, s.pg_range, s.pg_range.len() as int);
    assert(s.pg_range.take(s.pg_range.len() as int) =~= s.pg_range);
    let c7 = with_proc_rows(c6, s.pg_proc, s.pg_proc.len() as int);
    lemma_proc_rows(c6, s.pg_proc, s.pg_proc.len() as int);
    assert(s.pg_proc.take(s.pg_proc.len() as int) =~= s.pg_proc);
    let c8 = with_aggregate_rows(c7, s.pg_aggregate, s.pg_aggregate.len() as int);
    lemma_aggregate_rows(c7, s.pg_aggregate, s.pg_aggregate.len() as int);
    assert(s.pg_aggregate.take(s.pg_aggregate.len() as int) =~= s.pg_aggregate);
    let c9 = with_operator_rows(c8, s.pg_operator, s.pg_operator.len() as int);
    lemma_operator_rows(c8, s.pg_operator, s.pg_operator.len() as int);
    assert(s.pg_operator.take(s.pg_operator.len() as int) =~= s.pg_operator);
    let c10 = with_cast_rows(c9, s.pg_cast, s.pg_cast.len() as int);
    lemma_cast_rows(c9, s.pg_cast, s.pg_cast.len() as int);
    assert(s.pg_cast.take(s.pg_cast.len() as int) =~= s.pg_cast);
    let c11 = with_extension_rows(c10, s.pg_extension, s.pg_extension.len() as int);
    lemma_extension_rows(c10, s.pg_extension, s.pg_extension.len() as int);
    assert(s.pg_extension.take(s.pg_extension.len() as int) =~= s.pg_extension);
    let c12 = with_collation_rows(c11, s.pg_collation, s.pg_collation.len() as int);
    lemma_collation_rows(c11, s.pg_collation, s.pg_collation.len() as int);
    assert(s.pg_collation.take(s.pg_collation.len() as int) =~= s.pg_collation);
    let c13 = with_constraint_rows(c12, s.pg_constraint, s.pg_constraint.len() as int);
    lemma_constraint_rows(c12, s.pg_constraint, s.pg_constraint.len() as int);
    assert(s.pg_constraint.take(s.pg_constraint.len() as int) =~= s.pg_constraint);
    let c14 = with_index_rows(c13, s.pg_index, s.pg_index.len() as int);
    lemma_index_rows(c13, s.pg_index, s.pg_index.len() as int);
    assert(s.pg_index.take(s.pg_index.len() as int) =~= s.pg_index);
    let c15 = with_rewrite_rows(c14, s.pg_rewrite, s.pg_rewrite.len() as int);
    lemma_rewrite_rows(c14, s.pg_rewrite, s.pg_rewrite.len() as int);
    assert(s.pg_rewrite.take(s.pg_rewrite.len() as int) =~= s.pg_rewrite);
    let c = loaded(s);
    assert(c == (CatalogView {
        pg_depend: s.pg_depend,
        pg_inherits: s.pg_inherits,
        search_path: s.search_path,
        ..c15
    }));
    lemma_ascending_stays::<RelAttrs>(c.pg_attribute);
    lemma_ascending_stays::<EnumLabels>(c.pg_enum);
    lemma_ascending_stays::<PgNamespace>(s.pg_namespace);
    lemma_ascending_stays::<PgType>(s.pg_type);
    lemma_ascending_stays::<PgClass>(s.pg_class);
    lemma_ascending_stays::<PgRange>(s.pg_range);
    lemma_ascending_stays::<PgProc>(s.pg_proc);
    lemma_ascending_stays::<PgAggregate>(s.pg_aggregate);
    lemma_ascending_stays::<PgOperator>(s.pg_operator);
    lemma_ascending_stays::<PgCast>(s.pg_cast);
    lemma_ascending_stays::<PgExtension>(s.pg_extension);
    lemma_ascending_stays::<PgCollation>(s.pg_collation);
    lemma_ascending_stays::<PgConstraint>(s.pg_constraint);
    lemma_ascending_stays::<PgIndex>(s.pg_index);
    lemma_ascending_stays::<PgRewrite>(s.pg_rewrite);
    lemma_dependencies_stay(s.pg_depend);
    lemma_links_stay(s.pg_inherits);
    assert(seed_of(c) =~= s);
}

// ── What is stored of any catalog ───────────────────────────────────────────

proof fn lemma_key_inserted<R: Row>(rows: Seq<R::V>, row: R::V)
    requires
        ascending::<R>(rows),
        forall|i: int| 0 <= i < rows.len() ==> R::key_of(#[trigger] rows[i]) != R::key_of(row),
    ensures
        ascending::<R>(key_inserted::<R>(rows, row)),
        key_inserted::<R>(rows, row).to_multiset() == rows.to_multiset().insert(row),
    decreases rows.len(),
{
    broadcast use vstd::seq_lib::group_to_multiset_ensures;

    let r = key_inserted::<R>(rows, row);
    if rows.len() == 0 || R::key_of(rows.last()) <= R::key_of(row) {
        assert forall|i: int, j: int| 0 <= i < j < r.len() implies R::key_of(#[trigger] r[i])
            < R::key_of(#[trigger] r[j]) by {
            if j == rows.len() {
                assert(R::key_of(rows[i]) <= R::key_of(rows[rows.len() - 1]));
                assert(R::key_of(rows[rows.len() - 1]) != R::key_of(row));
            }
        }
    } else {
        let front = rows.drop_last();
        assert forall|i: int| 0 <= i < front.len() implies R::key_of(#[trigger] front[i])
            != R::key_of(row) by {
            assert(front[i] == rows[i]);
        }
        lemma_key_inserted::<R>(front, row);
        let f = key_inserted::<R>(front, row);
        assert(front.push(rows.last()) =~= rows);
        assert(r.to_multiset() =~= rows.to_multiset().insert(row));
        assert forall|i: int, j: int| 0 <= i < j < r.len() implies R::key_of(#[trigger] r[i])
            < R::key_of(#[trigger] r[j]) by {
            if j < f.len() {
                assert(R::key_of(f[i]) < R::key_of(f[j]));
            } else {
                assert(f.contains(f[i]));
                assert(f.to_multiset().contains(f[i]));
                if f[i] != row {
                    assert(front.to_multiset().contains(f[i]));
                    assert(front.contains(f[i]));
                    let k = choose|k: int| 0 <= k < front.len() && front[k] == f[i];
                    assert(R::key_of(rows[k]) < R::key_of(rows[rows.len() - 1]));
                }
            }
        }
    }
}

/// Rows are ordered by their keys, and are the same rows.
pub proof fn lemma_by_key<R: Row>(rows: Seq<R::V>)
    requires
        distinct_keys::<R>(rows),
    ensures
        ascending::<R>(by_key::<R>(rows)),
        by_key::<R>(rows).to_multiset() == rows.to_multiset(),
    decreases rows.len(),
{
    broadcast use vstd::seq_lib::group_to_multiset_ensures;

    if rows.len() > 0 {
        let front = rows.drop_last();
        lemma_by_key::<R>(front);
        let sorted = by_key::<R>(front);
        assert forall|i: int| 0 <= i < sorted.len() implies R::key_of(#[trigger] sorted[i])
            != R::key_of(rows.last()) by {
            assert(sorted.contains(sorted[i]));
            assert(sorted.to_multiset().contains(sorted[i]));
            assert(front.to_multiset().contains(sorted[i]));
            assert(front.contains(sorted[i]));
            let k = choose|k: int| 0 <= k < front.len() && front[k] == sorted[i];
            assert(R::key_of(rows[k]) != R::key_of(rows[rows.len() - 1]));
        }
        lemma_key_inserted::<R>(sorted, rows.last());
        assert(front.push(rows.last()) =~= rows);
    } else {
        assert(rows =~= Seq::empty());
    }
}

/// A table that is ordered by its keys has the same rows as before, and a key leads
/// to the same row.
pub proof fn law_ordered_table_finds_the_same<R: Row>(rows: Seq<R::V>, key: u32)
    requires
        distinct_keys::<R>(rows),
    ensures
        by_key::<R>(rows).to_multiset() == rows.to_multiset(),
        row_get::<R>(by_key::<R>(rows), key) == row_get::<R>(rows, key),
{
    broadcast use vstd::seq_lib::group_to_multiset_ensures;

    lemma_by_key::<R>(rows);
    let sorted = by_key::<R>(rows);
    lemma_row_position_meaning::<R>(rows, key);
    lemma_row_position_meaning::<R>(sorted, key);
    let i = row_position::<R>(rows, key);
    let j = row_position::<R>(sorted, key);
    if i < rows.len() {
        assert(rows.contains(rows[i]));
        assert(rows.to_multiset().contains(rows[i]));
        assert(sorted.to_multiset().contains(rows[i]));
        assert(sorted.contains(rows[i]));
        let k = choose|k: int| 0 <= k < sorted.len() && sorted[k] == rows[i];
        assert(R::key_of(sorted[k]) == key);
        assert(j < sorted.len());
        if j < k {
            assert(R::key_of(sorted[j]) < R::key_of(sorted[k]));
        }
        if k < j {
            assert(R::key_of(sorted[k]) != key);
        }
    }
    if j < sorted.len() {
        assert(sorted.contains(sorted[j]));
        assert(sorted.to_multiset().contains(sorted[j]));
        assert(rows.to_multiset().contains(sorted[j]));
        assert(rows.contains(sorted[j]));
        let k = choose|k: int| 0 <= k < rows.len() && rows[k] == sorted[j];
        assert(R::key_of(rows[k]) == key);
        assert(i < rows.len());
    }
}

proof fn lemma_attr_inserted(attrs: Seq<PgAttributeView>, a: PgAttributeView, relid: u32)
    requires
        forall|i: int, j: int|
            0 <= i < j < attrs.len() ==> (#[trigger] attrs[i]).attnum <= (#[trigger] attrs[j]).attnum,
        forall|i: int| 0 <= i < attrs.len() ==> (#[trigger] attrs[i]).attrelid == relid,
        a.attrelid == relid,
    ensures
        ({
            let r = attr_inserted(attrs, a);
            &&& r.len() == attrs.len() + 1
            &&& forall|i: int, j: int|
                0 <= i < j < r.len() ==> (#[trigger] r[i]).attnum <= (#[trigger] r[j]).attnum
            &&& forall|i: int| 0 <= i < r.len() ==> (#[trigger] r[i]).attrelid == relid
            &&& r.last().attnum == a.attnum || (attrs.len() > 0 && r.last() == attrs.last())
        }),
    decreases attrs.len(),
{
    let r = attr_inserted(attrs, a);
    if attrs.len() == 0 || attrs.last().attnum <= a.attnum {
        assert forall|i: int, j: int| 0 <= i < j < r.len() implies (#[trigger] r[i]).attnum <= (
        #[trigger] r[j]).attnum by {
            if j == attrs.len() {
                if i < attrs.len() - 1 {
                    assert(attrs[i].attnum <= attrs[attrs.len() - 1].attnum);
                }
            }
        }
    } else {
        let front = attrs.drop_last();
        lemma_attr_inserted(front, a, relid);
        let f = attr_inserted(front, a);
        assert(f.last().attnum <= attrs.last().attnum) by {
            if front.len() > 0 {
                assert(attrs[front.len() - 1].attnum <= attrs[attrs.len() - 1].attnum);
            }
        }
        assert forall|i: int, j: int| 0 <= i < j < r.len() implies (#[trigger] r[i]).attnum <= (
        #[trigger] r[j]).attnum by {
            if j < f.len() {
                assert(f[i].attnum <= f[j].attnum);
            } else if i < f.len() - 1 {
                assert(f[i].attnum <= f[f.len() - 1].attnum);
            }
        }
        assert forall|i: int| 0 <= i < r.len() implies (#[trigger] r[i]).attrelid == relid by {
            if i < f.len() {
                assert(f[i].attrelid == relid);
            }
        }
    }
}

proof fn lemma_by_number(attrs: Seq<PgAttributeView>, relid: u32)
    requires
        forall|i: int| 0 <= i < attrs.len() ==> (#[trigger] attrs[i]).attrelid == relid,
    ensures
        ({
            let r = by_number(attrs);
            &&& forall|i: int, j: int|
                0 <= i < j < r.len() ==> (#[trigger] r[i]).attnum <= (#[trigger] r[j]).attnum
            &&& forall|i: int| 0 <= i < r.len() ==> (#[trigger] r[i]).attrelid == relid
        }),
    decreases attrs.len(),
{
    if attrs.len() > 0 {
        assert forall|i: int| 0 <= i < attrs.drop_last().len() implies (
        #[trigger] attrs.drop_last()[i]).attrelid == relid by {
            assert(attrs.drop_last()[i] == attrs[i]);
        }
        lemma_by_number(attrs.drop_last(), relid);
        lemma_attr_inserted(by_number(attrs.drop_last()), attrs.last(), relid);
    }
}

proof fn lemma_all_columns(rows: Seq<RelAttrsView>, n: int)
    requires
        0 <= n <= rows.len(),
        ascending::<RelAttrs>(rows),
        forall|i: int| 0 <= i < rows.len() ==> list_owned(#[trigger] rows[i]),
    ensures
        columns_ordered(all_columns(rows, n)),
        forall|k: int|
            0 <= k < all_columns(rows, n).len() ==> (#[trigger] all_columns(rows, n)[k]).attrelid
                <= rows[n - 1].relid,
    decreases n,
{
    if n > 0 {
        lemma_all_columns(rows, n - 1);
        let front = all_columns(rows, n - 1);
        assert(list_owned(rows[n - 1]));
        lemma_by_number(rows[n - 1].attrs, rows[n - 1].relid);
        let more = by_number(rows[n - 1].attrs);
        let r = all_columns(rows, n);
        assert(r == front + more);
        if n > 1 {
            assert(RelAttrs::key_of(rows[n - 2]) < RelAttrs::key_of(rows[n - 1]));
        }
        assert forall|k: int| 0 <= k < r.len() implies (#[trigger] r[k]).attrelid
            <= rows[n - 1].relid by {
            if k < front.len() {
                assert(front[k].attrelid <= rows[n - 2].relid);
            } else {
                assert(more[k - front.len()].attrelid == rows[n - 1].relid);
            }
        }
        assert forall|i: int, j: int| 0 <= i < j < r.len() implies column_not_after(
            #[trigger] r[i],
            #[trigger] r[j],
        ) by {
            if j < front.len() {
                assert(column_not_after(front[i], front[j]));
            } else if i < front.len() {
                assert(front[i].attrelid <= rows[n - 2].relid);
                assert(more[j - front.len()].attrelid == rows[n - 1].relid);
            } else {
                assert(more[i - front.len()].attnum <= more[j - front.len()].attnum);
                assert(more[i - front.len()].attrelid == rows[n - 1].relid);
                assert(more[j - front.len()].attrelid == rows[n - 1].relid);
            }
        }
    }
}

proof fn lemma_all_labels(rows: Seq<EnumLabelsView>, n: int)
    requires
        0 <= n <= rows.len(),
        ascending::<EnumLabels>(rows),
        forall|i: int| 0 <= i < rows.len() ==> labels_owned(#[trigger] rows[i]),
    ensures
        labels_ordered(all_labels(rows, n)),
        forall|k: int|
            0 <= k < all_labels(rows, n).len() ==> (#[trigger] all_labels(rows, n)[k]).enumtypid
                <= rows[n - 1].typid,
    decreases n,
{
    if n > 0 {
        lemma_all_labels(rows, n - 1);
        let front = all_labels(rows, n - 1);
        assert(labels_owned(rows[n - 1]));
        let more = rows[n - 1].labels;
        let r = all_labels(rows, n);
        assert(r == front + more);
        if n > 1 {
            assert(EnumLabels::key_of(rows[n - 2]) < EnumLabels::key_of(rows[n - 1]));
        }
        assert forall|k: int| 0 <= k < r.len() implies (#[trigger] r[k]).enumtypid
            <= rows[n - 1].typid by {
            if k < front.len() {
                assert(front[k].enumtypid <= rows[n - 2].typid);
            } else {
                assert(more[k - front.len()].enumtypid == rows[n - 1].typid);
            }
        }
        assert forall|i: int, j: int| 0 <= i < j < r.len() implies (#[trigger] r[i]).enumtypid <= (
        #[trigger] r[j]).enumtypid by {
            if j < front.len() {
                assert(front[i].enumtypid <= front[j].enumtypid);
            } else if i < front.len() {
                assert(front[i].enumtypid <= rows[n - 2].typid);
                assert(more[j - front.len()].enumtypid == rows[n - 1].typid);
            } else {
                assert(more[i - front.len()].enumtypid == rows[n - 1].typid);
                assert(more[j - front.len()].enumtypid == rows[n - 1].typid);
            }
        }
    }
}

proof fn lemma_dependency_inserted(rows: Seq<PgDepend>, row: PgDepend)
    requires
        dependencies_ordered(rows),
    ensures
        dependencies_ordered(dependency_inserted(rows, row)),
        dependency_inserted(rows, row).last() == row || (rows.len() > 0 && dependency_inserted(
            rows,
            row,
        ).last() == rows.last()),
        dependency_inserted(rows, row).len() == rows.len() + 1,
    decreases rows.len(),
{
    let r = dependency_inserted(rows, row);
    if rows.len() == 0 || dependency_not_after(rows.last(), row) {
        assert forall|i: int, j: int| 0 <= i < j < r.len() implies dependency_not_after(
            #[trigger] r[i],
            #[trigger] r[j],
        ) by {
            if j < rows.len() {
                assert(dependency_not_after(rows[i], rows[j]));
            } else if i < rows.len() - 1 {
                assert(dependency_not_after(rows[i], rows[rows.len() - 1]));
            }
        }
    } else {
        let front = rows.drop_last();
        assert forall|i: int, j: int| 0 <= i < j < front.len() implies dependency_not_after(
            #[trigger] front[i],
            #[trigger] front[j],
        ) by {
            assert(dependency_not_after(rows[i], rows[j]));
        }
        lemma_dependency_inserted(front, row);
        let f = dependency_inserted(front, row);
        assert(dependency_not_after(f.last(), rows.last())) by {
            if front.len() > 0 {
                assert(dependency_not_after(rows[front.len() - 1], rows[rows.len() - 1]));
            }
        }
        assert forall|i: int, j: int| 0 <= i < j < r.len() implies dependency_not_after(
            #[trigger] r[i],
            #[trigger] r[j],
        ) by {
            if j < f.len() {
                assert(dependency_not_after(f[i], f[j]));
            } else if i < f.len() - 1 {
                assert(dependency_not_after(f[i], f[f.len() - 1]));
            }
        }
    }
}

pub proof fn lemma_ordered_dependencies(rows: Seq<PgDepend>)
    ensures
        dependencies_ordered(ordered_dependencies(rows)),
    decreases rows.len(),
{
    if rows.len() > 0 {
        lemma_ordered_dependencies(rows.drop_last());
        lemma_dependency_inserted(ordered_dependencies(rows.drop_last()), rows.last());
    }
}

proof fn lemma_link_inserted(rows: Seq<PgInherits>, row: PgInherits)
    requires
        links_ordered(rows),
    ensures
        links_ordered(link_inserted(rows, row)),
        link_inserted(rows, row).last() == row || (rows.len() > 0 && link_inserted(
            rows,
            row,
        ).last() == rows.last()),
        link_inserted(rows, row).len() == rows.len() + 1,
    decreases rows.len(),
{
    let r = link_inserted(rows, row);
    if rows.len() == 0 || link_not_after(rows.last(), row) {
        assert forall|i: int, j: int| 0 <= i < j < r.len() implies link_not_after(
            #[trigger] r[i],
            #[trigger] r[j],
        ) by {
            if j < rows.len() {
                assert(link_not_after(rows[i], rows[j]));
            } else if i < rows.len() - 1 {
                assert(link_not_after(rows[i], rows[rows.len() - 1]));
            }
        }
    } else {
        let front = rows.drop_last();
        assert forall|i: int, j: int| 0 <= i < j < front.len() implies link_not_after(
            #[trigger] front[i],
            #[trigger] front[j],
        ) by {
            assert(link_not_after(rows[i], rows[j]));
        }
        lemma_link_inserted(front, row);
        let f = link_inserted(front, row);
        assert(link_not_after(f.last(), rows.last())) by {
            if front.len() > 0 {
                assert(link_not_after(rows[front.len() - 1], rows[rows.len() - 1]));
            }
        }
        assert forall|i: int, j: int| 0 <= i < j < r.len() implies link_not_after(
            #[trigger] r[i],
            #[trigger] r[j],
        ) by {
            if j < f.len() {
                assert(link_not_after(f[i], f[j]));
            } else if i < f.len() - 1 {
                assert(link_not_after(f[i], f[f.len() - 1]));
            }
        }
    }
}

pub proof fn lemma_ordered_links(rows: Seq<PgInherits>)
    ensures
        links_ordered(ordered_links(rows)),
    decreases rows.len(),
{
    if rows.len() > 0 {
        lemma_ordered_links(rows.drop_last());
        lemma_link_inserted(ordered_links(rows.drop_last()), rows.last());
    }
}

/// The rows of a catalog are stored in their order, so a stored catalog that is
/// loaded and stored again gives the same rows.
pub proof fn law_stored_catalog_comes_back(c: CatalogView)
    requires
        tables_consistent(c),
    ensures
        seed_ordered(seed_of(c)),
        seed_of(loaded(seed_of(c))) == seed_of(c),
{
    broadcast use vstd::seq_lib::group_to_multiset_ensures;

    let relations = by_key::<RelAttrs>(c.pg_attribute);
    let enums = by_key::<EnumLabels>(c.pg_enum);
    lemma_by_key::<RelAttrs>(c.pg_attribute);
    lemma_by_key::<EnumLabels>(c.pg_enum);
    assert forall|i: int| 0 <= i < relations.len() implies list_owned(#[trigger] relations[i]) by {
        assert(relations.contains(relations[i]));
        assert(relations.to_multiset().contains(relations[i]));
        assert(c.pg_attribute.to_multiset().contains(relations[i]));
        assert(c.pg_attribute.contains(relations[i]));
        let k = choose|k: int|
            0 <= k < c.pg_attribute.len() && c.pg_attribute[k] == relations[i];
        assert(list_owned(c.pg_attribute[k]));
    }
    assert forall|i: int| 0 <= i < enums.len() implies labels_owned(#[trigger] enums[i]) by {
        assert(enums.contains(enums[i]));
        assert(enums.to_multiset().contains(enums[i]));
        assert(c.pg_enum.to_multiset().contains(enums[i]));
        assert(c.pg_enum.contains(enums[i]));
        let k = choose|k: int| 0 <= k < c.pg_enum.len() && c.pg_enum[k] == enums[i];
        assert(labels_owned(c.pg_enum[k]));
    }
    lemma_all_columns(relations, relations.len() as int);
    lemma_all_labels(enums, enums.len() as int);
    lemma_by_key::<PgNamespace>(c.pg_namespace);
    lemma_by_key::<PgType>(c.pg_type);
    lemma_by_key::<PgClass>(c.pg_class);
    lemma_by_key::<PgRange>(c.pg_range);
    lemma_by_key::<PgProc>(c.pg_proc);
    lemma_by_key::<PgAggregate>(c.pg_aggregate);
    lemma_by_key::<PgOperator>(c.pg_operator);
    lemma_by_key::<PgCast>(c.pg_cast);
    lemma_by_key::<PgExtension>(c.pg_extension);
    lemma_by_key::<PgCollation>(c.pg_collation);
    lemma_by_key::<PgConstraint>(c.pg_constraint);
    lemma_by_key::<PgIndex>(c.pg_index);
    lemma_by_key::<PgRewrite>(c.pg_rewrite);
    lemma_ordered_dependencies(c.pg_depend);
    lemma_ordered_links(c.pg_inherits);
    law_ordered_rows_come_back(seed_of(c));
}

proof fn lemma_one_order<R: Row>(a: Seq<R::V>, b: Seq<R::V>)
    requires
        ascending::<R>(a),
        ascending::<R>(b),
        a.to_multiset() == b.to_multiset(),
    ensures
        a == b,
    decreases a.len(),
{
    broadcast use vstd::seq_lib::group_to_multiset_ensures;

    assert(a.to_multiset().len() == a.len());
    assert(b.to_multiset().len() == b.len());
    if a.len() > 0 {
        let last = a.len() - 1;
        assert(a.to_multiset().contains(a[last]));
        assert(b.contains(a[last]));
        let k = choose|k: int| 0 <= k < b.len() && b[k] == a[last];
        assert(b.to_multiset().contains(b[last]));
        assert(a.contains(b[last]));
        let m = choose|m: int| 0 <= m < a.len() && a[m] == b[last];
        assert(k == last) by {
            if k < last {
                assert(R::key_of(b[k]) < R::key_of(b[last]));
                if m < last {
                    assert(R::key_of(a[m]) < R::key_of(a[last]));
                }
            }
        }
        assert(a.drop_last().push(a.last()) =~= a);
        assert(b.drop_last().push(b.last()) =~= b);
        assert(a.drop_last().to_multiset() =~= a.to_multiset().remove(a.last()));
        assert(b.drop_last().to_multiset() =~= b.to_multiset().remove(b.last()));
        assert forall|i: int, j: int| 0 <= i < j < last implies R::key_of(
            #[trigger] a.drop_last()[i],
        ) < R::key_of(#[trigger] a.drop_last()[j]) by {
            assert(R::key_of(a[i]) < R::key_of(a[j]));
        }
        assert forall|i: int, j: int| 0 <= i < j < last implies R::key_of(
            #[trigger] b.drop_last()[i],
        ) < R::key_of(#[trigger] b.drop_last()[j]) by {
            assert(R::key_of(b[i]) < R::key_of(b[j]));
        }
        lemma_one_order::<R>(a.drop_last(), b.drop_last());
    } else {
        assert(a =~= b);
    }
}

proof fn lemma_same_rows_same_order<R: Row>(a: Seq<R::V>, b: Seq<R::V>)
    requires
        distinct_keys::<R>(a),
        distinct_keys::<R>(b),
        a.to_multiset() == b.to_multiset(),
    ensures
        by_key::<R>(a) == by_key::<R>(b),
{
    lemma_by_key::<R>(a);
    lemma_by_key::<R>(b);
    lemma_one_order::<R>(by_key::<R>(a), by_key::<R>(b));
}

/// Whether two catalogs hold the same rows, in whatever order they stand in their tables.
pub open spec fn same_rows(c: CatalogView, d: CatalogView) -> bool {
    &&& c.pg_namespace.to_multiset() == d.pg_namespace.to_multiset()
    &&& c.pg_type.to_multiset() == d.pg_type.to_multiset()
    &&& c.pg_class.to_multiset() == d.pg_class.to_multiset()
    &&& c.pg_range.to_multiset() == d.pg_range.to_multiset()
    &&& c.pg_proc.to_multiset() == d.pg_proc.to_multiset()
    &&& c.pg_aggregate.to_multiset() == d.pg_aggregate.to_multiset()
    &&& c.pg_operator.to_multiset() == d.pg_operator.to_multiset()
    &&& c.pg_cast.to_multiset() == d.pg_cast.to_multiset()
    &&& c.pg_extension.to_multiset() == d.pg_extension.to_multiset()
    &&& c.pg_collation.to_multiset() == d.pg_collation.to_multiset()
    &&& c.pg_constraint.to_multiset() == d.pg_constraint.to_multiset()
    &&& c.pg_index.to_multiset() == d.pg_index.to_multiset()
    &&& c.pg_rewrite.to_multiset() == d.pg_rewrite.to_multiset()
    &&& c.pg_attribute.to_multiset() == d.pg_attribute.to_multiset()
    &&& c.pg_enum.to_multiset() == d.pg_enum.to_multiset()
    &&& c.pg_depend == d.pg_depend
    &&& c.pg_inherits == d.pg_inherits
    &&& c.search_path == d.search_path
}

/// What is stored of a catalog are its rows: not the order in which they stand in their
/// tables, the indexes by name, or the next OID.
pub proof fn law_only_rows_are_stored(c: CatalogView, d: CatalogView)
    requires
        tables_consistent(c),
        tables_consistent(d),
        same_rows(c, d),
    ensures
        seed_of(c) == seed_of(d),
{
    lemma_same_rows_same_order::<PgNamespace>(c.pg_namespace, d.pg_namespace);
    lemma_same_rows_same_order::<PgType>(c.pg_type, d.pg_type);
    lemma_same_rows_same_order::<PgClass>(c.pg_class, d.pg_class);
    lemma_same_rows_same_order::<PgRange>(c.pg_range, d.pg_range);
    lemma_same_rows_same_order::<PgProc>(c.pg_proc, d.pg_proc);
    lemma_same_rows_same_order::<PgAggregate>(c.pg_aggregate, d.pg_aggregate);
    lemma_same_rows_same_order::<PgOperator>(c.pg_operator, d.pg_operator);
    lemma_same_rows_same_order::<PgCast>(c.pg_cast, d.pg_cast);
    lemma_same_rows_same_order::<PgExtension>(c.pg_extension, d.pg_extension);
    lemma_same_rows_same_order::<PgCollation>(c.pg_collation, d.pg_collation);
    lemma_same_rows_same_order::<PgConstraint>(c.pg_constraint, d.pg_constraint);
    lemma_same_rows_same_order::<PgIndex>(c.pg_index, d.pg_index);
    lemma_same_rows_same_order::<PgRewrite>(c.pg_rewrite, d.pg_rewrite);
    lemma_same_rows_same_order::<RelAttrs>(c.pg_attribute, d.pg_attribute);
    lemma_same_rows_same_order::<EnumLabels>(c.pg_enum, d.pg_enum);
}

// ── New OIDs ────────────────────────────────────────────────────────────────

proof fn lemma_greatest_key<R: Row>(rows: Seq<R::V>, n: int, m: u32)
    requires
        0 <= n <= rows.len(),
    ensures
        m <= greatest_key::<R>(rows, n, m),
        forall|i: int| 0 <= i < n ==> R::key_of(#[trigger] rows[i]) <= greatest_key::<R>(rows, n, m),
    decreases n,
{
    if n > 0 {
        lemma_greatest_key::<R>(rows, n - 1, m);
    }
}

proof fn lemma_greatest_label(rows: Seq<PgEnumView>, n: int, m: u32)
    requires
        0 <= n <= rows.len(),
    ensures
        m <= greatest_label(rows, n, m),
        forall|i: int| 0 <= i < n ==> (#[trigger] rows[i]).oid <= greatest_label(rows, n, m),
    decreases n,
{
    if n > 0 {
        lemma_greatest_label(rows, n - 1, m);
    }
}

proof fn lemma_namespace_rows_keep_next_oid(c: CatalogView, rows: Seq<PgNamespaceView>, n: int)
    ensures
        with_namespace_rows(c, rows, n).next_oid == c.next_oid,
    decreases n,
{
    if n > 0 {
        lemma_namespace_rows_keep_next_oid(c, rows, n - 1);
    }
}

proof fn lemma_type_rows_keep_next_oid(c: CatalogView, rows: Seq<PgTypeView>, n: int)
    ensures
        with_type_rows(c, rows, n).next_oid == c.next_oid,
    decreases n,
{
    if n > 0 {
        lemma_type_rows_keep_next_oid(c, rows, n - 1);
    }
}

proof fn lemma_class_rows_keep_next_oid(c: CatalogView, rows: Seq<PgClassView>, n: int)
    ensures
        with_class_rows(c, rows, n).next_oid == c.next_oid,
    decreases n,
{
    if n > 0 {
        lemma_class_rows_keep_next_oid(c, rows, n - 1);
    }
}

proof fn lemma_range_rows_keep_next_oid(c: CatalogView, rows: Seq<PgRange>, n: int)
    ensures
        with_range_rows(c, rows, n).next_oid == c.next_oid,
    decreases n,
{
    if n > 0 {
        lemma_range_rows_keep_next_oid(c, rows, n - 1);
    }
}

proof fn lemma_proc_rows_keep_next_oid(c: CatalogView, rows: Seq<PgProcView>, n: int)
    ensures
        with_proc_rows(c, rows, n).next_oid == c.next_oid,
    decreases n,
{
    if n > 0 {
        lemma_proc_rows_keep_next_oid(c, rows, n - 1);
    }
}

proof fn lemma_aggregate_rows_keep_next_oid(c: CatalogView, rows: Seq<PgAggregate>, n: int)
    ensures
        with_aggregate_rows(c, rows, n).next_oid == c.next_oid,
    decreases n,
{
    if n > 0 {
        lemma_aggregate_rows_keep_next_oid(c, rows, n - 1);
    }
}

proof fn lemma_operator_rows_keep_next_oid(c: CatalogView, rows: Seq<PgOperatorView>, n: int)
    ensures
        with_operator_rows(c, rows, n).next_oid == c.next_oid,
    decreases n,
{
    if n > 0 {
        lemma_operator_rows_keep_next_oid(c, rows, n - 1);
    }
}

proof fn lemma_cast_rows_keep_next_oid(c: CatalogView, rows: Seq<PgCast>, n: int)
    ensures
        with_cast_rows(c, rows, n).next_oid == c.next_oid,
    decreases n,
{
    if n > 0 {
        lemma_cast_rows_keep_next_oid(c, rows, n - 1);
    }
}

proof fn lemma_extension_rows_keep_next_oid(c: CatalogView, rows: Seq<PgExtensionView>, n: int)
    ensures
        with_extension_rows(c, rows, n).next_oid == c.next_oid,
    decreases n,
{
    if n > 0 {
        lemma_extension_rows_keep_next_oid(c, rows, n - 1);
    }
}

proof fn lemma_collation_rows_keep_next_oid(c: CatalogView, rows: Seq<PgCollationView>, n: int)
    ensures
        with_collation_rows(c, rows, n).next_oid == c.next_oid,
    decreases n,
{
    if n > 0 {
        lemma_collation_rows_keep_next_oid(c, rows, n - 1);
    }
}

proof fn lemma_constraint_rows_keep_next_oid(c: CatalogView, rows: Seq<PgConstraintView>, n: int)
    ensures
        with_constraint_rows(c, rows, n).next_oid == c.next_oid,
    decreases n,
{
    if n > 0 {
        lemma_constraint_rows_keep_next_oid(c, rows, n - 1);
    }
}

proof fn lemma_index_rows_keep_next_oid(c: CatalogView, rows: Seq<PgIndexView>, n: int)
    ensures
        with_index_rows(c, rows, n).next_oid == c.next_oid,
    decreases n,
{
    if n > 0 {
        lemma_index_rows_keep_next_oid(c, rows, n - 1);
    }
}

proof fn lemma_rewrite_rows_keep_next_oid(c: CatalogView, rows: Seq<PgRewriteView>, n: int)
    ensures
        with_rewrite_rows(c, rows, n).next_oid == c.next_oid,
    decreases n,
{
    if n > 0 {
        lemma_rewrite_rows_keep_next_oid(c, rows, n - 1);
    }
}

proof fn lemma_attribute_rows_keep_next_oid(c: CatalogView, rows: Seq<PgAttributeView>, n: int)
    ensures
        with_attribute_rows(c, rows, n).next_oid == c.next_oid,
    decreases n,
{
    if n > 0 {
        lemma_attribute_rows_keep_next_oid(c, rows, n - 1);
    }
}

proof fn lemma_enum_rows_keep_next_oid(c: CatalogView, rows: Seq<PgEnumView>, n: int)
    ensures
        with_enum_rows(c, rows, n).next_oid == c.next_oid,
    decreases n,
{
    if n > 0 {
        lemma_enum_rows_keep_next_oid(c, rows, n - 1);
    }
}

/// The first OID that a loaded catalog gives to a new object is none of a system
/// object, and no row of the seed has it, unless the last OID is in use.
pub proof fn law_new_oids_are_unused(s: SeedView)
    requires
        greatest_oid(s) < u32::MAX,
    ensures
        loaded(s).next_oid == greatest_oid(s) + 1,
        loaded(s).next_oid > USER_OID_START,
        forall|i: int|
            0 <= i < s.pg_namespace.len() ==> PgNamespace::key_of(#[trigger] s.pg_namespace[i])
                < loaded(s).next_oid,
        forall|i: int|
            0 <= i < s.pg_type.len() ==> PgType::key_of(#[trigger] s.pg_type[i])
                < loaded(s).next_oid,
        forall|i: int|
            0 <= i < s.pg_class.len() ==> PgClass::key_of(#[trigger] s.pg_class[i])
                < loaded(s).next_oid,
        forall|i: int|
            0 <= i < s.pg_proc.len() ==> PgProc::key_of(#[trigger] s.pg_proc[i])
                < loaded(s).next_oid,
        forall|i: int|
            0 <= i < s.pg_operator.len() ==> PgOperator::key_of(#[trigger] s.pg_operator[i])
                < loaded(s).next_oid,
        forall|i: int|
            0 <= i < s.pg_cast.len() ==> PgCast::key_of(#[trigger] s.pg_cast[i])
                < loaded(s).next_oid,
        forall|i: int|
            0 <= i < s.pg_extension.len() ==> PgExtension::key_of(#[trigger] s.pg_extension[i])
                < loaded(s).next_oid,
        forall|i: int|
            0 <= i < s.pg_collation.len() ==> PgCollation::key_of(#[trigger] s.pg_collation[i])
                < loaded(s).next_oid,
        forall|i: int|
            0 <= i < s.pg_constraint.len() ==> PgConstraint::key_of(#[trigger] s.pg_constraint[i])
                < loaded(s).next_oid,
        forall|i: int|
            0 <= i < s.pg_rewrite.len() ==> PgRewrite::key_of(#[trigger] s.pg_rewrite[i])
                < loaded(s).next_oid,
        forall|i: int|
            0 <= i < s.pg_enum.len() ==> (#[trigger] s.pg_enum[i]).oid < loaded(s).next_oid,
{
    let c0 = CatalogView { next_oid: next_after(greatest_oid(s)), ..empty_catalog() };
    let c1 = with_namespace_rows(c0, s.pg_namespace, s.pg_namespace.len() as int);
    lemma_namespace_rows_keep_next_oid(c0, s.pg_namespace, s.pg_namespace.len() as int);
    let c2 = with_type_rows(c1, s.pg_type, s.pg_type.len() as int);
    lemma_type_rows_keep_next_oid(c1, s.pg_type, s.pg_type.len() as int);
    let c3 = with_class_rows(c2, s.pg_class, s.pg_class.len() as int);
    lemma_class_rows_keep_next_oid(c2, s.pg_class, s.pg_class.len() as int);
    let c4 = with_attribute_rows(c3, s.pg_attribute, s.pg_attribute.len() as int);
    lemma_attribute_rows_keep_next_oid(c3, s.pg_attribute, s.pg_attribute.len() as int);
    let c5 = with_enum_rows(c4, s.pg_enum, s.pg_enum.len() as int);
    lemma_enum_rows_keep_next_oid(c4, s.pg_enum, s.pg_enum.len() as int);
    let c6 = with_range_rows(c5, s.pg_range, s.pg_range.len() as int);
    lemma_range_rows_keep_next_oid(c5, s.pg_range, s.pg_range.len() as int);
    let c7 = with_proc_rows(c6, s.pg_proc, s.pg_proc.len() as int);
    lemma_proc_rows_keep_next_oid(c6, s.pg_proc, s.pg_proc.len() as int);
    let c8 = with_aggregate_rows(c7, s.pg_aggregate, s.pg_aggregate.len() as int);
    lemma_aggregate_rows_keep_next_oid(c7, s.pg_aggregate, s.pg_aggregate.len() as int);
    let c9 = with_operator_rows(c8, s.pg_operator, s.pg_operator.len() as int);
    lemma_operator_rows_keep_next_oid(c8, s.pg_operator, s.pg_operator.len() as int);
    let c10 = with_cast_rows(c9, s.pg_cast, s.pg_cast.len() as int);
    lemma_cast_rows_keep_next_oid(c9, s.pg_cast, s.pg_cast.len() as int);
    let c11 = with_extension_rows(c10, s.pg_extension, s.pg_extension.len() as int);
    lemma_extension_rows_keep_next_oid(c10, s.pg_extension, s.pg_extension.len() as int);
    let c12 = with_collation_rows(c11, s.pg_collation, s.pg_collation.len() as int);
    lemma_collation_rows_keep_next_oid(c11, s.pg_collation, s.pg_collation.len() as int);
    let c13 = with_constraint_rows(c12, s.pg_constraint, s.pg_constraint.len() as int);
    lemma_constraint_rows_keep_next_oid(c12, s.pg_constraint, s.pg_constraint.len() as int);
    let c14 = with_index_rows(c13, s.pg_index, s.pg_index.len() as int);
    lemma_index_rows_keep_next_oid(c13, s.pg_index, s.pg_index.len() as int);
    let c15 = with_rewrite_rows(c14, s.pg_rewrite, s.pg_rewrite.len() as int);
    lemma_rewrite_rows_keep_next_oid(c14, s.pg_rewrite, s.pg_rewrite.len() as int);
    let n0 = s.pg_namespace.len() as int;
    let m0 = greatest_key::<PgNamespace>(s.pg_namespace, n0, USER_OID_START);
    lemma_greatest_key::<PgNamespace>(s.pg_namespace, n0, USER_OID_START);
    let m1 = greatest_key::<PgType>(s.pg_type, s.pg_type.len() as int, m0);
    lemma_greatest_key::<PgType>(s.pg_type, s.pg_type.len() as int, m0);
    let m2 = greatest_key::<PgClass>(s.pg_class, s.pg_class.len() as int, m1);
    lemma_greatest_key::<PgClass>(s.pg_class, s.pg_class.len() as int, m1);
    let m3 = greatest_key::<PgProc>(s.pg_proc, s.pg_proc.len() as int, m2);
    lemma_greatest_key::<PgProc>(s.pg_proc, s.pg_proc.len() as int, m2);
    let m4 = greatest_key::<PgOperator>(s.pg_operator, s.pg_operator.len() as int, m3);
    lemma_greatest_key::<PgOperator>(s.pg_operator, s.pg_operator.len() as int, m3);
    let m5 = greatest_key::<PgCast>(s.pg_cast, s.pg_cast.len() as int, m4);
    lemma_greatest_key::<PgCast>(s.pg_cast, s.pg_cast.len() as int, m4);
    let m6 = greatest_key::<PgExtension>(s.pg_extension, s.pg_extension.len() as int, m5);
    lemma_greatest_key::<PgExtension>(s.pg_extension, s.pg_extension.len() as int, m5);
    let m7 = greatest_label(s.pg_enum, s.pg_enum.len() as int, m6);
    lemma_greatest_label(s.pg_enum, s.pg_enum.len() as int, m6);
    let m8 = greatest_key::<PgCollation>(s.pg_collation, s.pg_collation.len() as int, m7);
    lemma_greatest_key::<PgCollation>(s.pg_collation, s.pg_collation.len() as int, m7);
    let m9 = greatest_key::<PgConstraint>(s.pg_constraint, s.pg_constraint.len() as int, m8);
    lemma_greatest_key::<PgConstraint>(s.pg_constraint, s.pg_constraint.len() as int, m8);
    lemma_greatest_key::<PgRewrite>(s.pg_rewrite, s.pg_rewrite.len() as int, m9);
}

} // verus!
