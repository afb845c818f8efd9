//! The catalog as a list of rows, in which it is stored.

use crate::catalog::{
    attr_inserted, empty_catalog, insert_attribute, CatalogView, PgCatalog,
};
use crate::pg_catalog::{
    attr_views, label_views, EnumLabels, EnumLabelsView, PgAggregate, PgAttribute,
    PgAttributeView, PgCast, PgClass, PgClassView, PgCollation, PgCollationView, PgConstraint,
    PgConstraintView, PgDepend, PgEnum, PgEnumView, PgExtension, PgExtensionView, PgIndex,
    PgIndexView, PgInherits, PgNamespace, PgNamespaceView, PgOperator, PgOperatorView, PgProc,
    PgProcView, PgRange, PgRewrite, PgRewriteView, PgType, PgTypeView, RelAttrs, RelAttrsView,
    USER_OID_START,
};
use crate::seed_laws::{
    dependencies_ordered, lemma_by_key, lemma_ordered_dependencies, lemma_ordered_links,
    links_ordered, tables_ascend,
};
use crate::table::{copy_numbers, row_values, CopyRow, Row, Table};
use vstd::prelude::*;

verus! {

/// The rows of a catalog. Each table is ordered by its key, columns by relation and
/// number, labels by type and place, dependencies by the objects that depend.
#[derive(Debug, Clone)]
pub struct PgCatalogSeed {
    pub pg_namespace: Vec<PgNamespace>,
    pub pg_type: Vec<PgType>,
    pub pg_enum: Vec<PgEnum>,
    pub pg_range: Vec<PgRange>,
    pub pg_class: Vec<PgClass>,
    pub pg_attribute: Vec<PgAttribute>,
    pub pg_proc: Vec<PgProc>,
    pub pg_aggregate: Vec<PgAggregate>,
    pub pg_operator: Vec<PgOperator>,
    pub pg_cast: Vec<PgCast>,
    pub pg_extension: Vec<PgExtension>,
    pub pg_collation: Vec<PgCollation>,
    pub pg_depend: Vec<PgDepend>,
    pub pg_inherits: Vec<PgInherits>,
    pub pg_constraint: Vec<PgConstraint>,
    pub pg_index: Vec<PgIndex>,
    pub pg_rewrite: Vec<PgRewrite>,
    /// The schemas in the order in which they are searched.
    pub search_path: Vec<u32>,
}

#[verifier::ext_equal]
pub struct SeedView {
    pub pg_namespace: Seq<PgNamespaceView>,
    pub pg_type: Seq<PgTypeView>,
    pub pg_enum: Seq<PgEnumView>,
    pub pg_range: Seq<PgRange>,
    pub pg_class: Seq<PgClassView>,
    pub pg_attribute: Seq<PgAttributeView>,
    pub pg_proc: Seq<PgProcView>,
    pub pg_aggregate: Seq<PgAggregate>,
    pub pg_operator: Seq<PgOperatorView>,
    pub pg_cast: Seq<PgCast>,
    pub pg_extension: Seq<PgExtensionView>,
    pub pg_collation: Seq<PgCollationView>,
    pub pg_depend: Seq<PgDepend>,
    pub pg_inherits: Seq<PgInherits>,
    pub pg_constraint: Seq<PgConstraintView>,
    pub pg_index: Seq<PgIndexView>,
    pub pg_rewrite: Seq<PgRewriteView>,
    pub search_path: Seq<u32>,
}

impl View for PgCatalogSeed {
    type V = SeedView;

    open spec fn view(&self) -> SeedView {
        SeedView {
            pg_namespace: row_values(self.pg_namespace@),
            pg_type: row_values(self.pg_type@),
            pg_enum: label_views(self.pg_enum@),
            pg_range: row_values(self.pg_range@),
            pg_class: row_values(self.pg_class@),
            pg_attribute: attr_views(self.pg_attribute@),
            pg_proc: row_values(self.pg_proc@),
            pg_aggregate: row_values(self.pg_aggregate@),
            pg_operator: row_values(self.pg_operator@),
            pg_cast: row_values(self.pg_cast@),
            pg_extension: row_values(self.pg_extension@),
            pg_collation: row_values(self.pg_collation@),
            pg_depend: self.pg_depend@,
            pg_inherits: self.pg_inherits@,
            pg_constraint: row_values(self.pg_constraint@),
            pg_index: row_values(self.pg_index@),
            pg_rewrite: row_values(self.pg_rewrite@),
            search_path: self.search_path@,
        }
    }
}

impl SeedView {
    /// No rows at all.
    pub open spec fn empty() -> SeedView {
        SeedView {
            pg_namespace: Seq::empty(),
            pg_type: Seq::empty(),
            pg_enum: Seq::empty(),
            pg_range: Seq::empty(),
            pg_class: Seq::empty(),
            pg_attribute: Seq::empty(),
            pg_proc: Seq::empty(),
            pg_aggregate: Seq::empty(),
            pg_operator: Seq::empty(),
            pg_cast: Seq::empty(),
            pg_extension: Seq::empty(),
            pg_collation: Seq::empty(),
            pg_depend: Seq::empty(),
            pg_inherits: Seq::empty(),
            pg_constraint: Seq::empty(),
            pg_index: Seq::empty(),
            pg_rewrite: Seq::empty(),
            search_path: Seq::empty(),
        }
    }
}

impl Default for PgCatalogSeed {
    fn default() -> (r: PgCatalogSeed)
        ensures
            r@ == SeedView::empty(),
    {
        let r: PgCatalogSeed = PgCatalogSeed {
            pg_namespace: Vec::new(),
            pg_type: Vec::new(),
            pg_enum: Vec::new(),
            pg_range: Vec::new(),
            pg_class: Vec::new(),
            pg_attribute: Vec::new(),
            pg_proc: Vec::new(),
            pg_aggregate: Vec::new(),
            pg_operator: Vec::new(),
            pg_cast: Vec::new(),
            pg_extension: Vec::new(),
            pg_collation: Vec::new(),
            pg_depend: Vec::new(),
            pg_inherits: Vec::new(),
            pg_constraint: Vec::new(),
            pg_index: Vec::new(),
            pg_rewrite: Vec::new(),
            search_path: Vec::new(),
        };
        proof {
            assert(r@ =~= SeedView::empty());
        }
        r
    }
}

// ── Loading ─────────────────────────────────────────────────────────────────

/// A catalog after the first `n` of some rows were put into it.
pub open spec fn folded<T>(
    c: CatalogView,
    rows: Seq<T>,
    n: int,
    put: spec_fn(CatalogView, T) -> CatalogView,
) -> CatalogView
    decreases n,
{
    if n <= 0 {
        c
    } else {
        put(folded(c, rows, n - 1, put), rows[n - 1])
    }
}

/// The catalog with the rows of `pg_namespace`.
pub open spec fn with_namespace_rows(
    c: CatalogView,
    rows: Seq<PgNamespaceView>,
    n: int,
) -> CatalogView {
    folded(c, rows, n, |c: CatalogView, r: PgNamespaceView| c.with_namespace(r))
}

/// The catalog with the rows of `pg_type`.
pub open spec fn with_type_rows(c: CatalogView, rows: Seq<PgTypeView>, n: int) -> CatalogView {
    folded(c, rows, n, |c: CatalogView, r: PgTypeView| c.with_type(r))
}

/// The catalog with the rows of `pg_class`.
pub open spec fn with_class_rows(c: CatalogView, rows: Seq<PgClassView>, n: int) -> CatalogView {
    folded(c, rows, n, |c: CatalogView, r: PgClassView| c.with_class(r))
}

/// The catalog with the rows of `pg_range`.
pub open spec fn with_range_rows(c: CatalogView, rows: Seq<PgRange>, n: int) -> CatalogView {
    folded(c, rows, n, |c: CatalogView, r: PgRange| c.with_range(r))
}

/// The catalog with the rows of `pg_proc`.
pub open spec fn with_proc_rows(c: CatalogView, rows: Seq<PgProcView>, n: int) -> CatalogView {
    folded(c, rows, n, |c: CatalogView, r: PgProcView| c.with_proc(r))
}

/// The catalog with the rows of `pg_aggregate`.
pub open spec fn with_aggregate_rows(
    c: CatalogView,
    rows: Seq<PgAggregate>,
    n: int,
) -> CatalogView {
    folded(c, rows, n, |c: CatalogView, r: PgAggregate| c.with_aggregate(r))
}

/// The catalog with the rows of `pg_operator`.
pub open spec fn with_operator_rows(
    c: CatalogView,
    rows: Seq<PgOperatorView>,
    n: int,
) -> CatalogView {
    folded(c, rows, n, |c: CatalogView, r: PgOperatorView| c.with_operator(r))
}

/// The catalog with the rows of `pg_cast`.
pub open spec fn with_cast_rows(c: CatalogView, rows: Seq<PgCast>, n: int) -> CatalogView {
    folded(c, rows, n, |c: CatalogView, r: PgCast| c.with_cast(r))
}

/// The catalog with the rows of `pg_extension`.
pub open spec fn with_extension_rows(
    c: CatalogView,
    rows: Seq<PgExtensionView>,
    n: int,
) -> CatalogView {
    folded(c, rows, n, |c: CatalogView, r: PgExtensionView| c.with_extension(r))
}

/// The catalog with the rows of `pg_collation`.
pub open spec fn with_collation_rows(
    c: CatalogView,
    rows: Seq<PgCollationView>,
    n: int,
) -> CatalogView {
    folded(c, rows, n, |c: CatalogView, r: PgCollationView| c.with_collation(r))
}

/// The catalog with the rows of `pg_constraint`.
pub open spec fn with_constraint_rows(
    c: CatalogView,
    rows: Seq<PgConstraintView>,
    n: int,
) -> CatalogView {
    folded(c, rows, n, |c: CatalogView, r: PgConstraintView| c.with_constraint(r))
}

/// The catalog with the rows of `pg_index`.
pub open spec fn with_index_rows(c: CatalogView, rows: Seq<PgIndexView>, n: int) -> CatalogView {
    folded(c, rows, n, |c: CatalogView, r: PgIndexView| c.with_index(r))
}

/// The catalog with the rows of `pg_rewrite`.
pub open spec fn with_rewrite_rows(
    c: CatalogView,
    rows: Seq<PgRewriteView>,
    n: int,
) -> CatalogView {
    folded(c, rows, n, |c: CatalogView, r: PgRewriteView| c.with_rewrite(r))
}

/// The catalog with the rows of `pg_attribute`.
pub open spec fn with_attribute_rows(
    c: CatalogView,
    rows: Seq<PgAttributeView>,
    n: int,
) -> CatalogView {
    folded(c, rows, n, |c: CatalogView, r: PgAttributeView| c.with_attribute(r))
}

/// The catalog with a label behind the others of its type.
pub open spec fn with_last_label(c: CatalogView, r: PgEnumView) -> CatalogView {
    c.with_label_at(r, c.labels_of(r.enumtypid).len() as int)
}

/// The catalog with the rows of `pg_enum`.
pub open spec fn with_enum_rows(c: CatalogView, rows: Seq<PgEnumView>, n: int) -> CatalogView {
    folded(c, rows, n, |c: CatalogView, r: PgEnumView| with_last_label(c, r))
}

/// The greatest of a number and the keys of the first `n` rows.
pub open spec fn greatest_key<R: Row>(rows: Seq<R::V>, n: int, m: u32) -> u32
    decreases n,
{
    if n <= 0 {
        m
    } else {
        let rest = greatest_key::<R>(rows, n - 1, m);
        if R::key_of(rows[n - 1]) > rest {
            R::key_of(rows[n - 1])
        } else {
            rest
        }
    }
}

/// The greatest of a number and the OIDs of the first `n` labels.
pub open spec fn greatest_label(rows: Seq<PgEnumView>, n: int, m: u32) -> u32
    decreases n,
{
    if n <= 0 {
        m
    } else {
        let rest = greatest_label(rows, n - 1, m);
        if rows[n - 1].oid > rest {
            rows[n - 1].oid
        } else {
            rest
        }
    }
}

/// The greatest OID of the rows, or the OID that those of the user's objects are
/// behind, where that is greater.
pub open spec fn greatest_oid(s: SeedView) -> u32 {
    let n0 = s.pg_namespace.len() as int;
    let m0 = greatest_key::<PgNamespace>(s.pg_namespace, n0, USER_OID_START);
    let m1 = greatest_key::<PgType>(s.pg_type, s.pg_type.len() as int, m0);
    let m2 = greatest_key::<PgClass>(s.pg_class, s.pg_class.len() as int, m1);
    let m3 = greatest_key::<PgProc>(s.pg_proc, s.pg_proc.len() as int, m2);
    let m4 = greatest_key::<PgOperator>(s.pg_operator, s.pg_operator.len() as int, m3);
    let m5 = greatest_key::<PgCast>(s.pg_cast, s.pg_cast.len() as int, m4);
    let m6 = greatest_key::<PgExtension>(s.pg_extension, s.pg_extension.len() as int, m5);
    let m7 = greatest_label(s.pg_enum, s.pg_enum.len() as int, m6);
    let m8 = greatest_key::<PgCollation>(s.pg_collation, s.pg_collation.len() as int, m7);
    let m9 = greatest_key::<PgConstraint>(s.pg_constraint, s.pg_constraint.len() as int, m8);
    greatest_key::<PgRewrite>(s.pg_rewrite, s.pg_rewrite.len() as int, m9)
}

/// The OID behind this one; the last stays.
pub open spec fn next_after(oid: u32) -> u32 {
    if oid == u32::MAX {
        oid
    } else {
        (oid + 1) as u32
    }
}

/// The catalog that some rows make.
pub open spec fn loaded(s: SeedView) -> CatalogView {
    let c0 = CatalogView { next_oid: next_after(greatest_oid(s)), ..empty_catalog() };
    let c1 = with_namespace_rows(c0, s.pg_namespace, s.pg_namespace.len() as int);
    let c2 = with_type_rows(c1, s.pg_type, s.pg_type.len() as int);
    let c3 = with_class_rows(c2, s.pg_class, s.pg_class.len() as int);
    let c4 = with_attribute_rows(c3, s.pg_attribute, s.pg_attribute.len() as int);
    let c5 = with_enum_rows(c4, s.pg_enum, s.pg_enum.len() as int);
    let c6 = with_range_rows(c5, s.pg_range, s.pg_range.len() as int);
    let c7 = with_proc_rows(c6, s.pg_proc, s.pg_proc.len() as int);
    let c8 = with_aggregate_rows(c7, s.pg_aggregate, s.pg_aggregate.len() as int);
    let c9 = with_operator_rows(c8, s.pg_operator, s.pg_operator.len() as int);
    let c10 = with_cast_rows(c9, s.pg_cast, s.pg_cast.len() as int);
    let c11 = with_extension_rows(c10, s.pg_extension, s.pg_extension.len() as int);
    let c12 = with_collation_rows(c11, s.pg_collation, s.pg_collation.len() as int);
    let c13 = with_constraint_rows(c12, s.pg_constraint, s.pg_constraint.len() as int);
    let c14 = with_index_rows(c13, s.pg_index, s.pg_index.len() as int);
    let c15 = with_rewrite_rows(c14, s.pg_rewrite, s.pg_rewrite.len() as int);
    CatalogView {
        pg_depend: s.pg_depend,
        pg_inherits: s.pg_inherits,
        search_path: s.search_path,
        ..c15
    }
}

fn load_namespace_rows(db: &mut PgCatalog, rows: Vec<PgNamespace>)
    ensures
        final(db)@ == with_namespace_rows(old(db)@, row_values(rows@), rows@.len() as int),
{
    let ghost all = row_values(rows@);
    let ghost put = |c: CatalogView, r: PgNamespaceView| c.with_namespace(r);
    let ghost mut done: int = 0;
    let mut rest: Vec<PgNamespace> = rows;
    while rest.len() > 0
        invariant
            0 <= done <= all.len(),
            put == (|c: CatalogView, r: PgNamespaceView| c.with_namespace(r)),
            row_values(rest@) == all.skip(done),
            db@ == folded(old(db)@, all, done, put),
        decreases rest.len(),
    {
        let ghost left = row_values(rest@);
        proof {
            assert(left.len() == rest@.len());
            assert(left[0] == all.skip(done)[0]);
        }
        let row: PgNamespace = rest.remove(0);
        proof {
            assert(row_values(rest@) =~= left.skip(1));
            assert(left.skip(1) =~= all.skip(done + 1));
        }
        db.insert_pg_namespace(row);
        proof {
            done = done + 1;
        }
    }
    proof {
        assert(done == all.len());
    }
}

fn load_type_rows(db: &mut PgCatalog, rows: Vec<PgType>)
    ensures
        final(db)@ == with_type_rows(old(db)@, row_values(rows@), rows@.len() as int),
{
    let ghost all = row_values(rows@);
    let ghost put = |c: CatalogView, r: PgTypeView| c.with_type(r);
    let ghost mut done: int = 0;
    let mut rest: Vec<PgType> = rows;
    while rest.len() > 0
        invariant
            0 <= done <= all.len(),
            put == (|c: CatalogView, r: PgTypeView| c.with_type(r)),
            row_values(rest@) == all.skip(done),
            db@ == folded(old(db)@, all, done, put),
        decreases rest.len(),
    {
        let ghost left = row_values(rest@);
        proof {
            assert(left.len() == rest@.len());
            assert(left[0] == all.skip(done)[0]);
        }
        let row: PgType = rest.remove(0);
        proof {
            assert(row_values(rest@) =~= left.skip(1));
            assert(left.skip(1) =~= all.skip(done + 1));
        }
        db.insert_pg_type(row);
        proof {
            done = done + 1;
        }
    }
    proof {
        assert(done == all.len());
    }
}

fn load_class_rows(db: &mut PgCatalog, rows: Vec<PgClass>)
    ensures
        final(db)@ == with_class_rows(old(db)@, row_values(rows@), rows@.len() as int),
{
    let ghost all = row_values(rows@);
    let ghost put = |c: CatalogView, r: PgClassView| c.with_class(r);
    let ghost mut done: int = 0;
    let mut rest: Vec<PgClass> = rows;
    while rest.len() > 0
        invariant
            0 <= done <= all.len(),
            put == (|c: CatalogView, r: PgClassView| c.with_class(r)),
            row_values(rest@) == all.skip(done),
            db@ == folded(old(db)@, all, done, put),
        decreases rest.len(),
    {
        let ghost left = row_values(rest@);
        proof {
            assert(left.len() == rest@.len());
            assert(left[0] == all.skip(done)[0]);
        }
        let row: PgClass = rest.remove(0);
        proof {
            assert(row_values(rest@) =~= left.skip(1));
            assert(left.skip(1) =~= all.skip(done + 1));
        }
        db.insert_pg_class(row);
        proof {
            done = done + 1;
        }
    }
    proof {
        assert(done == all.len());
    }
}

fn load_range_rows(db: &mut PgCatalog, rows: Vec<PgRange>)
    ensures
        final(db)@ == with_range_rows(old(db)@, row_values(rows@), rows@.len() as int),
{
    let ghost all = row_values(rows@);
    let ghost put = |c: CatalogView, r: PgRange| c.with_range(r);
    let ghost mut done: int = 0;
    let mut rest: Vec<PgRange> = rows;
    while rest.len() > 0
        invariant
            0 <= done <= all.len(),
            put == (|c: CatalogView, r: PgRange| c.with_range(r)),
            row_values(rest@) == all.skip(done),
            db@ == folded(old(db)@, all, done, put),
        decreases rest.len(),
    {
        let ghost left = row_values(rest@);
        proof {
            assert(left.len() == rest@.len());
            assert(left[0] == all.skip(done)[0]);
        }
        let row: PgRange = rest.remove(0);
        proof {
            assert(row_values(rest@) =~= left.skip(1));
            assert(left.skip(1) =~= all.skip(done + 1));
        }
        db.insert_pg_range(row);
        proof {
            done = done + 1;
        }
    }
    proof {
        assert(done == all.len());
    }
}

fn load_proc_rows(db: &mut PgCatalog, rows: Vec<PgProc>)
    ensures
        final(db)@ == with_proc_rows(old(db)@, row_values(rows@), rows@.len() as int),
{
    let ghost all = row_values(rows@);
    let ghost put = |c: CatalogView, r: PgProcView| c.with_proc(r);
    let ghost mut done: int = 0;
    let mut rest: Vec<PgProc> = rows;
    while rest.len() > 0
        invariant
            0 <= done <= all.len(),
            put == (|c: CatalogView, r: PgProcView| c.with_proc(r)),
            row_values(rest@) == all.skip(done),
            db@ == folded(old(db)@, all, done, put),
        decreases rest.len(),
    {
        let ghost left = row_values(rest@);
        proof {
            assert(left.len() == rest@.len());
            assert(left[0] == all.skip(done)[0]);
        }
        let row: PgProc = rest.remove(0);
        proof {
            assert(row_values(rest@) =~= left.skip(1));
            assert(left.skip(1) =~= all.skip(done + 1));
        }
        db.insert_pg_proc(row);
        proof {
            done = done + 1;
        }
    }
    proof {
        assert(done == all.len());
    }
}

fn load_aggregate_rows(db: &mut PgCatalog, rows: Vec<PgAggregate>)
    ensures
        final(db)@ == with_aggregate_rows(old(db)@, row_values(rows@), rows@.len() as int),
{
    let ghost all = row_values(rows@);
    let ghost put = |c: CatalogView, r: PgAggregate| c.with_aggregate(r);
    let ghost mut done: int = 0;
    let mut rest: Vec<PgAggregate> = rows;
    while rest.len() > 0
        invariant
            0 <= done <= all.len(),
            put == (|c: CatalogView, r: PgAggregate| c.with_aggregate(r)),
            row_values(rest@) == all.skip(done),
            db@ == folded(old(db)@, all, done, put),
        decreases rest.len(),
    {
        let ghost left = row_values(rest@);
        proof {
            assert(left.len() == rest@.len());
            assert(left[0] == all.skip(done)[0]);
        }
        let row: PgAggregate = rest.remove(0);
        proof {
            assert(row_values(rest@) =~= left.skip(1));
            assert(left.skip(1) =~= all.skip(done + 1));
        }
        db.insert_pg_aggregate(row);
        proof {
            done = done + 1;
        }
    }
    proof {
        assert(done == all.len());
    }
}

fn load_operator_rows(db: &mut PgCatalog, rows: Vec<PgOperator>)
    ensures
        final(db)@ == with_operator_rows(old(db)@, row_values(rows@), rows@.len() as int),
{
    let ghost all = row_values(rows@);
    let ghost put = |c: CatalogView, r: PgOperatorView| c.with_operator(r);
    let ghost mut done: int = 0;
    let mut rest: Vec<PgOperator> = rows;
    while rest.len() > 0
        invariant
            0 <= done <= all.len(),
            put == (|c: CatalogView, r: PgOperatorView| c.with_operator(r)),
            row_values(rest@) == all.skip(done),
            db@ == folded(old(db)@, all, done, put),
        decreases rest.len(),
    {
        let ghost left = row_values(rest@);
        proof {
            assert(left.len() == rest@.len());
            assert(left[0] == all.skip(done)[0]);
        }
        let row: PgOperator = rest.remove(0);
        proof {
            assert(row_values(rest@) =~= left.skip(1));
            assert(left.skip(1) =~= all.skip(done + 1));
        }
        db.insert_pg_operator(row);
        proof {
            done = done + 1;
        }
    }
    proof {
        assert(done == all.len());
    }
}

fn load_cast_rows(db: &mut PgCatalog, rows: Vec<PgCast>)
    ensures
        final(db)@ == with_cast_rows(old(db)@, row_values(rows@), rows@.len() as int),
{
    let ghost all = row_values(rows@);
    let ghost put = |c: CatalogView, r: PgCast| c.with_cast(r);
    let ghost mut done: int = 0;
    let mut rest: Vec<PgCast> = rows;
    while rest.len() > 0
        invariant
            0 <= done <= all.len(),
            put == (|c: CatalogView, r: PgCast| c.with_cast(r)),
            row_values(rest@) == all.skip(done),
            db@ == folded(old(db)@, all, done, put),
        decreases rest.len(),
    {
        let ghost left = row_values(rest@);
        proof {
            assert(left.len() == rest@.len());
            assert(left[0] == all.skip(done)[0]);
        }
        let row: PgCast = rest.remove(0);
        proof {
            assert(row_values(rest@) =~= left.skip(1));
            assert(left.skip(1) =~= all.skip(done + 1));
        }
        db.insert_pg_cast(row);
        proof {
            done = done + 1;
        }
    }
    proof {
        assert(done == all.len());
    }
}

fn load_extension_rows(db: &mut PgCatalog, rows: Vec<PgExtension>)
    ensures
        final(db)@ == with_extension_rows(old(db)@, row_values(rows@), rows@.len() as int),
{
    let ghost all = row_values(rows@);
    let ghost put = |c: CatalogView, r: PgExtensionView| c.with_extension(r);
    let ghost mut done: int = 0;
    let mut rest: Vec<PgExtension> = rows;
    while rest.len() > 0
        invariant
            0 <= done <= all.len(),
            put == (|c: CatalogView, r: PgExtensionView| c.with_extension(r)),
            row_values(rest@) == all.skip(done),
            db@ == folded(old(db)@, all, done, put),
        decreases rest.len(),
    {
        let ghost left = row_values(rest@);
        proof {
            assert(left.len() == rest@.len());
            assert(left[0] == all.skip(done)[0]);
        }
        let row: PgExtension = rest.remove(0);
        proof {
            assert(row_values(rest@) =~= left.skip(1));
            assert(left.skip(1) =~= all.skip(done + 1));
        }
        db.insert_pg_extension(row);
        proof {
            done = done + 1;
        }
    }
    proof {
        assert(done == all.len());
    }
}

fn load_collation_rows(db: &mut PgCatalog, rows: Vec<PgCollation>)
    ensures
        final(db)@ == with_collation_rows(old(db)@, row_values(rows@), rows@.len() as int),
{
    let ghost all = row_values(rows@);
    let ghost put = |c: CatalogView, r: PgCollationView| c.with_collation(r);
    let ghost mut done: int = 0;
    let mut rest: Vec<PgCollation> = rows;
    while rest.len() > 0
        invariant
            0 <= done <= all.len(),
            put == (|c: CatalogView, r: PgCollationView| c.with_collation(r)),
            row_values(rest@) == all.skip(done),
            db@ == folded(old(db)@, all, done, put),
        decreases rest.len(),
    {
        let ghost left = row_values(rest@);
        proof {
            assert(left.len() == rest@.len());
            assert(left[0] == all.skip(done)[0]);
        }
        let row: PgCollation = rest.remove(0);
        proof {
            assert(row_values(rest@) =~= left.skip(1));
            assert(left.skip(1) =~= all.skip(done + 1));
        }
        db.insert_pg_collation(row);
        proof {
            done = done + 1;
        }
    }
    proof {
        assert(done == all.len());
    }
}

fn load_constraint_rows(db: &mut PgCatalog, rows: Vec<PgConstraint>)
    ensures
        final(db)@ == with_constraint_rows(old(db)@, row_values(rows@), rows@.len() as int),
{
    let ghost all = row_values(rows@);
    let ghost put = |c: CatalogView, r: PgConstraintView| c.with_constraint(r);
    let ghost mut done: int = 0;
    let mut rest: Vec<PgConstraint> = rows;
    while rest.len() > 0
        invariant
            0 <= done <= all.len(),
            put == (|c: CatalogView, r: PgConstraintView| c.with_constraint(r)),
            row_values(rest@) == all.skip(done),
            db@ == folded(old(db)@, all, done, put),
        decreases rest.len(),
    {
        let ghost left = row_values(rest@);
        proof {
            assert(left.len() == rest@.len());
            assert(left[0] == all.skip(done)[0]);
        }
        let row: PgConstraint = rest.remove(0);
        proof {
            assert(row_values(rest@) =~= left.skip(1));
            assert(left.skip(1) =~= all.skip(done + 1));
        }
        db.insert_pg_constraint(row);
        proof {
            done = done + 1;
        }
    }
    proof {
        assert(done == all.len());
    }
}

fn load_index_rows(db: &mut PgCatalog, rows: Vec<PgIndex>)
    ensures
        final(db)@ == with_index_rows(old(db)@, row_values(rows@), rows@.len() as int),
{
    let ghost all = row_values(rows@);
    let ghost put = |c: CatalogView, r: PgIndexView| c.with_index(r);
    let ghost mut done: int = 0;
    let mut rest: Vec<PgIndex> = rows;
    while rest.len() > 0
        invariant
            0 <= done <= all.len(),
            put == (|c: CatalogView, r: PgIndexView| c.with_index(r)),
            row_values(rest@) == all.skip(done),
            db@ == folded(old(db)@, all, done, put),
        decreases rest.len(),
    {
        let ghost left = row_values(rest@);
        proof {
            assert(left.len() == rest@.len());
            assert(left[0] == all.skip(done)[0]);
        }
        let row: PgIndex = rest.remove(0);
        proof {
            assert(row_values(rest@) =~= left.skip(1));
            assert(left.skip(1) =~= all.skip(done + 1));
        }
        db.insert_pg_index(row);
        proof {
            done = done + 1;
        }
    }
    proof {
        assert(done == all.len());
    }
}

fn load_rewrite_rows(db: &mut PgCatalog, rows: Vec<PgRewrite>)
    ensures
        final(db)@ == with_rewrite_rows(old(db)@, row_values(rows@), rows@.len() as int),
{
    let ghost all = row_values(rows@);
    let ghost put = |c: CatalogView, r: PgRewriteView| c.with_rewrite(r);
    let ghost mut done: int = 0;
    let mut rest: Vec<PgRewrite> = rows;
    while rest.len() > 0
        invariant
            0 <= done <= all.len(),
            put == (|c: CatalogView, r: PgRewriteView| c.with_rewrite(r)),
            row_values(rest@) == all.skip(done),
            db@ == folded(old(db)@, all, done, put),
        decreases rest.len(),
    {
        let ghost left = row_values(rest@);
        proof {
            assert(left.len() == rest@.len());
            assert(left[0] == all.skip(done)[0]);
        }
        let row: PgRewrite = rest.remove(0);
        proof {
            assert(row_values(rest@) =~= left.skip(1));
            assert(left.skip(1) =~= all.skip(done + 1));
        }
        db.insert_pg_rewrite(row);
        proof {
            done = done + 1;
        }
    }
    proof {
        assert(done == all.len());
    }
}

fn load_attribute_rows(db: &mut PgCatalog, rows: Vec<PgAttribute>)
    ensures
        final(db)@ == with_attribute_rows(old(db)@, attr_views(rows@), rows@.len() as int),
{
    let ghost all = attr_views(rows@);
    let ghost put = |c: CatalogView, r: PgAttributeView| c.with_attribute(r);
    let ghost mut done: int = 0;
    let mut rest: Vec<PgAttribute> = rows;
    while rest.len() > 0
        invariant
            0 <= done <= all.len(),
            put == (|c: CatalogView, r: PgAttributeView| c.with_attribute(r)),
            attr_views(rest@) == all.skip(done),
            db@ == folded(old(db)@, all, done, put),
        decreases rest.len(),
    {
        let ghost left = attr_views(rest@);
        proof {
            assert(left.len() == rest@.len());
            assert(left[0] == all.skip(done)[0]);
        }
        let row: PgAttribute = rest.remove(0);
        proof {
            assert(attr_views(rest@) =~= left.skip(1));
            assert(left.skip(1) =~= all.skip(done + 1));
        }
        db.insert_pg_attribute(row);
        proof {
            done = done + 1;
        }
    }
    proof {
        assert(done == all.len());
    }
}

fn load_enum_rows(db: &mut PgCatalog, rows: Vec<PgEnum>)
    ensures
        final(db)@ == with_enum_rows(old(db)@, label_views(rows@), rows@.len() as int),
{
    let ghost all = label_views(rows@);
    let ghost put = |c: CatalogView, r: PgEnumView| with_last_label(c, r);
    let ghost mut done: int = 0;
    let mut rest: Vec<PgEnum> = rows;
    while rest.len() > 0
        invariant
            0 <= done <= all.len(),
            put == (|c: CatalogView, r: PgEnumView| with_last_label(c, r)),
            label_views(rest@) == all.skip(done),
            db@ == folded(old(db)@, all, done, put),
        decreases rest.len(),
    {
        let ghost left = label_views(rest@);
        proof {
            assert(left.len() == rest@.len());
            assert(left[0] == all.skip(done)[0]);
        }
        let row: PgEnum = rest.remove(0);
        proof {
            assert(label_views(rest@) =~= left.skip(1));
            assert(left.skip(1) =~= all.skip(done + 1));
        }
        let at: usize = db.labels_of(row.enumtypid).len();
        db.insert_pg_enum(row, at);
        proof {
            done = done + 1;
        }
    }
    proof {
        assert(done == all.len());
    }
}

fn find_greatest_key<R: Row>(rows: &Vec<R>, m: u32) -> (r: u32)
    ensures
        r == greatest_key::<R>(row_values(rows@), rows@.len() as int, m),
{
    let ghost all = row_values(rows@);
    let mut r: u32 = m;
    let mut i: usize = 0;
    while i < rows.len()
        invariant
            all == row_values(rows@),
            i <= rows@.len(),
            r == greatest_key::<R>(all, i as int, m),
        decreases rows.len() - i,
    {
        proof {
            assert(all[i as int] == rows@[i as int].row());
        }
        let k: u32 = rows[i].key();
        if k > r {
            r = k;
        }
        i = i + 1;
    }
    r
}

fn find_greatest_label(rows: &Vec<PgEnum>, m: u32) -> (r: u32)
    ensures
        r == greatest_label(label_views(rows@), rows@.len() as int, m),
{
    let ghost all = label_views(rows@);
    let mut r: u32 = m;
    let mut i: usize = 0;
    while i < rows.len()
        invariant
            all == label_views(rows@),
            i <= rows@.len(),
            r == greatest_label(all, i as int, m),
        decreases rows.len() - i,
    {
        if rows[i].oid > r {
            r = rows[i].oid;
        }
        i = i + 1;
    }
    r
}

impl PgCatalog {
    /// The catalog that some rows make. New objects get OIDs behind those of the
    /// rows.
    pub fn from_seed(seed: PgCatalogSeed) -> (r: PgCatalog)
        ensures
            r@ == loaded(seed@),
    {
        let mut db: PgCatalog = PgCatalog::empty();
        let m0: u32 = find_greatest_key(&seed.pg_namespace, USER_OID_START);
        let m1: u32 = find_greatest_key(&seed.pg_type, m0);
        let m2: u32 = find_greatest_key(&seed.pg_class, m1);
        let m3: u32 = find_greatest_key(&seed.pg_proc, m2);
        let m4: u32 = find_greatest_key(&seed.pg_operator, m3);
        let m5: u32 = find_greatest_key(&seed.pg_cast, m4);
        let m6: u32 = find_greatest_key(&seed.pg_extension, m5);
        let m7: u32 = find_greatest_label(&seed.pg_enum, m6);
        let m8: u32 = find_greatest_key(&seed.pg_collation, m7);
        let m9: u32 = find_greatest_key(&seed.pg_constraint, m8);
        let top: u32 = find_greatest_key(&seed.pg_rewrite, m9);
        db.next_oid = if top == u32::MAX {
            top
        } else {
            top + 1
        };
        load_namespace_rows(&mut db, seed.pg_namespace);
        load_type_rows(&mut db, seed.pg_type);
        load_class_rows(&mut db, seed.pg_class);
        load_attribute_rows(&mut db, seed.pg_attribute);
        load_enum_rows(&mut db, seed.pg_enum);
        load_range_rows(&mut db, seed.pg_range);
        load_proc_rows(&mut db, seed.pg_proc);
        load_aggregate_rows(&mut db, seed.pg_aggregate);
        load_operator_rows(&mut db, seed.pg_operator);
        load_cast_rows(&mut db, seed.pg_cast);
        load_extension_rows(&mut db, seed.pg_extension);
        load_collation_rows(&mut db, seed.pg_collation);
        load_constraint_rows(&mut db, seed.pg_constraint);
        load_index_rows(&mut db, seed.pg_index);
        load_rewrite_rows(&mut db, seed.pg_rewrite);
        db.pg_depend = seed.pg_depend;
        db.pg_inherits = seed.pg_inherits;
        db.search_path = seed.search_path;
        db
    }
}

// ── Storing ─────────────────────────────────────────────────────────────────

/// Ordered rows with one more row, behind those whose key is not greater.
pub open spec fn key_inserted<R: Row>(rows: Seq<R::V>, row: R::V) -> Seq<R::V>
    decreases rows.len(),
{
    if rows.len() == 0 || R::key_of(rows.last()) <= R::key_of(row) {
        rows.push(row)
    } else {
        key_inserted::<R>(rows.drop_last(), row).push(rows.last())
    }
}

/// Rows, ordered by their keys.
pub open spec fn by_key<R: Row>(rows: Seq<R::V>) -> Seq<R::V>
    decreases rows.len(),
{
    if rows.len() == 0 {
        Seq::empty()
    } else {
        key_inserted::<R>(by_key::<R>(rows.drop_last()), rows.last())
    }
}

/// Columns, ordered by their numbers.
pub open spec fn by_number(attrs: Seq<PgAttributeView>) -> Seq<PgAttributeView>
    decreases attrs.len(),
{
    if attrs.len() == 0 {
        Seq::empty()
    } else {
        attr_inserted(by_number(attrs.drop_last()), attrs.last())
    }
}

/// The columns of the first `n` relations, those of each by their numbers.
pub open spec fn all_columns(rows: Seq<RelAttrsView>, n: int) -> Seq<PgAttributeView>
    decreases n,
{
    if n <= 0 {
        Seq::empty()
    } else {
        all_columns(rows, n - 1) + by_number(rows[n - 1].attrs)
    }
}

/// The labels of the first `n` types.
pub open spec fn all_labels(rows: Seq<EnumLabelsView>, n: int) -> Seq<PgEnumView>
    decreases n,
{
    if n <= 0 {
        Seq::empty()
    } else {
        all_labels(rows, n - 1) + rows[n - 1].labels
    }
}

/// Whether a dependency does not come after another one: by the object that
/// depends, its column, then the object that it depends on.
pub open spec fn dependency_not_after(a: PgDepend, b: PgDepend) -> bool {
    if a.classid != b.classid {
        a.classid < b.classid
    } else if a.objid != b.objid {
        a.objid < b.objid
    } else if a.objsubid != b.objsubid {
        a.objsubid < b.objsubid
    } else if a.refclassid != b.refclassid {
        a.refclassid < b.refclassid
    } else {
        a.refobjid <= b.refobjid
    }
}

/// Ordered dependencies with one more.
pub open spec fn dependency_inserted(rows: Seq<PgDepend>, row: PgDepend) -> Seq<PgDepend>
    decreases rows.len(),
{
    if rows.len() == 0 || dependency_not_after(rows.last(), row) {
        rows.push(row)
    } else {
        dependency_inserted(rows.drop_last(), row).push(rows.last())
    }
}

/// Dependencies in their order.
pub open spec fn ordered_dependencies(rows: Seq<PgDepend>) -> Seq<PgDepend>
    decreases rows.len(),
{
    if rows.len() == 0 {
        Seq::empty()
    } else {
        dependency_inserted(ordered_dependencies(rows.drop_last()), rows.last())
    }
}

/// Whether a link does not come after another one: by the child, then by the number
/// of the parent.
pub open spec fn link_not_after(a: PgInherits, b: PgInherits) -> bool {
    if a.inhrelid != b.inhrelid {
        a.inhrelid < b.inhrelid
    } else {
        a.inhseqno <= b.inhseqno
    }
}

/// Ordered links with one more.
pub open spec fn link_inserted(rows: Seq<PgInherits>, row: PgInherits) -> Seq<PgInherits>
    decreases rows.len(),
{
    if rows.len() == 0 || link_not_after(rows.last(), row) {
        rows.push(row)
    } else {
        link_inserted(rows.drop_last(), row).push(rows.last())
    }
}

/// Links in their order.
pub open spec fn ordered_links(rows: Seq<PgInherits>) -> Seq<PgInherits>
    decreases rows.len(),
{
    if rows.len() == 0 {
        Seq::empty()
    } else {
        link_inserted(ordered_links(rows.drop_last()), rows.last())
    }
}

/// The rows of a catalog, in their order.
pub open spec fn seed_of(c: CatalogView) -> SeedView {
    let relations = by_key::<RelAttrs>(c.pg_attribute);
    let enums = by_key::<EnumLabels>(c.pg_enum);
    SeedView {
        pg_namespace: by_key::<PgNamespace>(c.pg_namespace),
        pg_type: by_key::<PgType>(c.pg_type),
        pg_enum: all_labels(enums, enums.len() as int),
        pg_range: by_key::<PgRange>(c.pg_range),
        pg_class: by_key::<PgClass>(c.pg_class),
        pg_attribute: all_columns(relations, relations.len() as int),
        pg_proc: by_key::<PgProc>(c.pg_proc),
        pg_aggregate: by_key::<PgAggregate>(c.pg_aggregate),
        pg_operator: by_key::<PgOperator>(c.pg_operator),
        pg_cast: by_key::<PgCast>(c.pg_cast),
        pg_extension: by_key::<PgExtension>(c.pg_extension),
        pg_collation: by_key::<PgCollation>(c.pg_collation),
        pg_depend: ordered_dependencies(c.pg_depend),
        pg_inherits: ordered_links(c.pg_inherits),
        pg_constraint: by_key::<PgConstraint>(c.pg_constraint),
        pg_index: by_key::<PgIndex>(c.pg_index),
        pg_rewrite: by_key::<PgRewrite>(c.pg_rewrite),
        search_path: c.search_path,
    }
}

fn insert_by_key<R: Row>(v: &mut Vec<R>, row: R)
    ensures
        row_values(final(v)@) == key_inserted::<R>(row_values(old(v)@), row.row()),
{
    let ghost before = row_values(v@);
    let ghost value = row.row();
    let key: u32 = row.key();
    let mut i: usize = v.len();
    proof {
        assert(before.take(i as int) =~= before);
        assert(key_inserted::<R>(before, value) =~= key_inserted::<R>(before.take(i as int), value)
            + before.skip(i as int));
    }
    while i > 0 && v[i - 1].key() > key
        invariant
            *v == *old(v),
            before == row_values(v@),
            key == R::key_of(value),
            i <= v@.len(),
            key_inserted::<R>(before, value) == key_inserted::<R>(before.take(i as int), value)
                + before.skip(i as int),
        decreases i,
    {
        proof {
            let s = before.take(i as int);
            assert(before[i - 1] == v@[i - 1].row());
            assert(s.last() == before[i - 1]);
            assert(s.drop_last() =~= before.take(i - 1));
            assert(key_inserted::<R>(s, value) == key_inserted::<R>(s.drop_last(), value).push(
                s.last(),
            ));
            assert(key_inserted::<R>(s.drop_last(), value).push(s.last()) + before.skip(i as int)
                =~= key_inserted::<R>(s.drop_last(), value) + before.skip(i - 1));
        }
        i = i - 1;
    }
    proof {
        let s = before.take(i as int);
        if i > 0 {
            assert(before[i - 1] == v@[i - 1].row());
            assert(s.last() == before[i - 1]);
        }
        assert(key_inserted::<R>(s, value) == s.push(value));
    }
    v.insert(i, row);
    proof {
        assert(row_values(v@) =~= before.take(i as int).push(value) + before.skip(i as int));
    }
}

fn sorted_rows<R: CopyRow>(t: &Table<R>) -> (r: Vec<R>)
    ensures
        row_values(r@) == by_key::<R>(t@),
{
    let ghost all = t@;
    let mut r: Vec<R> = Vec::new();
    let mut i: usize = 0;
    proof {
        assert(row_values(r@) =~= Seq::empty());
    }
    while i < t.len()
        invariant
            all == t@,
            i <= all.len(),
            row_values(r@) == by_key::<R>(all.take(i as int)),
        decreases all.len() - i,
    {
        proof {
            assert(all.take(i + 1).drop_last() =~= all.take(i as int));
            assert(all.take(i + 1).last() == all[i as int]);
        }
        let row: R = t.at(i).copy_row();
        insert_by_key(&mut r, row);
        i = i + 1;
    }
    proof {
        assert(all.take(i as int) =~= all);
    }
    r
}

fn sort_columns(attrs: &Vec<PgAttribute>) -> (r: Vec<PgAttribute>)
    ensures
        attr_views(r@) == by_number(attr_views(attrs@)),
{
    let ghost all = attr_views(attrs@);
    let mut r: Vec<PgAttribute> = Vec::new();
    let mut i: usize = 0;
    proof {
        assert(attr_views(r@) =~= Seq::empty());
    }
    while i < attrs.len()
        invariant
            all == attr_views(attrs@),
            i <= attrs@.len(),
            attr_views(r@) == by_number(all.take(i as int)),
        decreases attrs.len() - i,
    {
        proof {
            assert(all.take(i + 1).drop_last() =~= all.take(i as int));
            assert(all.take(i + 1).last() == attrs@[i as int]@);
        }
        r = insert_attribute(r, attrs[i].copy());
        i = i + 1;
    }
    proof {
        assert(all.take(i as int) =~= all);
    }
    r
}

fn list_columns(rows: &Vec<RelAttrs>) -> (r: Vec<PgAttribute>)
    ensures
        attr_views(r@) == all_columns(row_values(rows@), rows@.len() as int),
{
    let ghost all = row_values(rows@);
    let mut r: Vec<PgAttribute> = Vec::new();
    let mut i: usize = 0;
    proof {
        assert(attr_views(r@) =~= Seq::empty());
    }
    while i < rows.len()
        invariant
            all == row_values(rows@),
            i <= rows@.len(),
            attr_views(r@) == all_columns(all, i as int),
        decreases rows.len() - i,
    {
        let ghost before = attr_views(r@);
        let mut more: Vec<PgAttribute> = sort_columns(&rows[i].attrs);
        let ghost added = attr_views(more@);
        r.append(&mut more);
        proof {
            assert(attr_views(r@) =~= before + added);
        }
        i = i + 1;
    }
    r
}

fn list_labels(rows: Vec<EnumLabels>) -> (r: Vec<PgEnum>)
    ensures
        label_views(r@) == all_labels(row_values(rows@), rows@.len() as int),
{
    let ghost all = row_values(rows@);
    let mut r: Vec<PgEnum> = Vec::new();
    let mut i: usize = 0;
    proof {
        assert(label_views(r@) =~= Seq::empty());
    }
    while i < rows.len()
        invariant
            all == row_values(rows@),
            i <= rows@.len(),
            label_views(r@) == all_labels(all, i as int),
        decreases rows.len() - i,
    {
        let ghost before = label_views(r@);
        let mut more: Vec<PgEnum> = crate::row_copy::copy_labels(&rows[i].labels);
        let ghost added = label_views(more@);
        r.append(&mut more);
        proof {
            assert(label_views(r@) =~= before + added);
        }
        i = i + 1;
    }
    r
}

fn is_dependency_not_after(a: &PgDepend, b: &PgDepend) -> (r: bool)
    ensures
        r == dependency_not_after(*a, *b),
{
    if a.classid != b.classid {
        a.classid < b.classid
    } else if a.objid != b.objid {
        a.objid < b.objid
    } else if a.objsubid != b.objsubid {
        a.objsubid < b.objsubid
    } else if a.refclassid != b.refclassid {
        a.refclassid < b.refclassid
    } else {
        a.refobjid <= b.refobjid
    }
}

fn insert_dependency(v: &mut Vec<PgDepend>, row: PgDepend)
    ensures
        final(v)@ == dependency_inserted(old(v)@, row),
{
    let ghost before = v@;
    let mut i: usize = v.len();
    proof {
        assert(before.take(i as int) =~= before);
        assert(dependency_inserted(before, row) =~= dependency_inserted(before.take(i as int), row)
            + before.skip(i as int));
    }
    while i > 0 && !is_dependency_not_after(&v[i - 1], &row)
        invariant
            before == v@,
            v@ == old(v)@,
            i <= v@.len(),
            dependency_inserted(before, row) == dependency_inserted(before.take(i as int), row)
                + before.skip(i as int),
        decreases i,
    {
        proof {
            let s = before.take(i as int);
            assert(s.drop_last() =~= before.take(i - 1));
            assert(dependency_inserted(s, row) == dependency_inserted(s.drop_last(), row).push(
                s.last(),
            ));
            assert(dependency_inserted(s.drop_last(), row).push(s.last()) + before.skip(i as int)
                =~= dependency_inserted(s.drop_last(), row) + before.skip(i - 1));
        }
        i = i - 1;
    }
    v.insert(i, row);
    proof {
        assert(dependency_inserted(before.take(i as int), row) == before.take(i as int).push(row));
        assert(v@ =~= before.take(i as int).push(row) + before.skip(i as int));
    }
}

fn sort_dependencies(rows: &Vec<PgDepend>) -> (r: Vec<PgDepend>)
    ensures
        r@ == ordered_dependencies(rows@),
{
    let mut r: Vec<PgDepend> = Vec::new();
    let mut i: usize = 0;
    while i < rows.len()
        invariant
            i <= rows@.len(),
            r@ == ordered_dependencies(rows@.take(i as int)),
        decreases rows.len() - i,
    {
        proof {
            assert(rows@.take(i + 1).drop_last() =~= rows@.take(i as int));
        }
        insert_dependency(&mut r, rows[i]);
        i = i + 1;
    }
    proof {
        assert(rows@.take(i as int) =~= rows@);
    }
    r
}

fn insert_link(v: &mut Vec<PgInherits>, row: PgInherits)
    ensures
        final(v)@ == link_inserted(old(v)@, row),
{
    let ghost before = v@;
    let mut i: usize = v.len();
    proof {
        assert(before.take(i as int) =~= before);
        assert(link_inserted(before, row) =~= link_inserted(before.take(i as int), row)
            + before.skip(i as int));
    }
    while i > 0 && (v[i - 1].inhrelid > row.inhrelid || (v[i - 1].inhrelid == row.inhrelid
        && v[i - 1].inhseqno > row.inhseqno))
        invariant
            before == v@,
            v@ == old(v)@,
            i <= v@.len(),
            link_inserted(before, row) == link_inserted(before.take(i as int), row)
                + before.skip(i as int),
        decreases i,
    {
        proof {
            let s = before.take(i as int);
            assert(s.drop_last() =~= before.take(i - 1));
            assert(link_inserted(s, row) == link_inserted(s.drop_last(), row).push(s.last()));
            assert(link_inserted(s.drop_last(), row).push(s.last()) + before.skip(i as int)
                =~= link_inserted(s.drop_last(), row) + before.skip(i - 1));
        }
        i = i - 1;
    }
    v.insert(i, row);
    proof {
        assert(link_inserted(before.take(i as int), row) == before.take(i as int).push(row));
        assert(v@ =~= before.take(i as int).push(row) + before.skip(i as int));
    }
}

fn sort_links(rows: &Vec<PgInherits>) -> (r: Vec<PgInherits>)
    ensures
        r@ == ordered_links(rows@),
{
    let mut r: Vec<PgInherits> = Vec::new();
    let mut i: usize = 0;
    while i < rows.len()
        invariant
            i <= rows@.len(),
            r@ == ordered_links(rows@.take(i as int)),
        decreases rows.len() - i,
    {
        proof {
            assert(rows@.take(i + 1).drop_last() =~= rows@.take(i as int));
        }
        insert_link(&mut r, rows[i]);
        i = i + 1;
    }
    proof {
        assert(rows@.take(i as int) =~= rows@);
    }
    r
}

impl PgCatalog {
    /// The rows of the catalog, in their order. The next OID is not among them.
    pub fn to_seed(&self) -> (r: PgCatalogSeed)
        ensures
            r@ == seed_of(self@),
            tables_ascend(r@),
            dependencies_ordered(r@.pg_depend),
            links_ordered(r@.pg_inherits),
    {
        proof {
            use_type_invariant(&self.pg_namespace);
            lemma_by_key::<PgNamespace>(self.pg_namespace@);
            use_type_invariant(&self.pg_type);
            lemma_by_key::<PgType>(self.pg_type@);
            use_type_invariant(&self.pg_class);
            lemma_by_key::<PgClass>(self.pg_class@);
            use_type_invariant(&self.pg_range);
            lemma_by_key::<PgRange>(self.pg_range@);
            use_type_invariant(&self.pg_proc);
            lemma_by_key::<PgProc>(self.pg_proc@);
            use_type_invariant(&self.pg_aggregate);
            lemma_by_key::<PgAggregate>(self.pg_aggregate@);
            use_type_invariant(&self.pg_operator);
            lemma_by_key::<PgOperator>(self.pg_operator@);
            use_type_invariant(&self.pg_cast);
            lemma_by_key::<PgCast>(self.pg_cast@);
            use_type_invariant(&self.pg_extension);
            lemma_by_key::<PgExtension>(self.pg_extension@);
            use_type_invariant(&self.pg_collation);
            lemma_by_key::<PgCollation>(self.pg_collation@);
            use_type_invariant(&self.pg_constraint);
            lemma_by_key::<PgConstraint>(self.pg_constraint@);
            use_type_invariant(&self.pg_index);
            lemma_by_key::<PgIndex>(self.pg_index@);
            use_type_invariant(&self.pg_rewrite);
            lemma_by_key::<PgRewrite>(self.pg_rewrite@);
            lemma_ordered_dependencies(self.pg_depend@);
            lemma_ordered_links(self.pg_inherits@);
        }
        let relations: Vec<RelAttrs> = sorted_rows(&self.pg_attribute);
        let enums: Vec<EnumLabels> = sorted_rows(&self.pg_enum);
        proof {
            assert(row_values(relations@).len() == relations@.len());
            assert(row_values(enums@).len() == enums@.len());
        }
        PgCatalogSeed {
            pg_namespace: sorted_rows(&self.pg_namespace),
            pg_type: sorted_rows(&self.pg_type),
            pg_enum: list_labels(enums),
            pg_range: sorted_rows(&self.pg_range),
            pg_class: sorted_rows(&self.pg_class),
            pg_attribute: list_columns(&relations),
            pg_proc: sorted_rows(&self.pg_proc),
            pg_aggregate: sorted_rows(&self.pg_aggregate),
            pg_operator: sorted_rows(&self.pg_operator),
            pg_cast: sorted_rows(&self.pg_cast),
            pg_extension: sorted_rows(&self.pg_extension),
            pg_collation: sorted_rows(&self.pg_collation),
            pg_depend: sort_dependencies(&self.pg_depend),
            pg_inherits: sort_links(&self.pg_inherits),
            pg_constraint: sorted_rows(&self.pg_constraint),
            pg_index: sorted_rows(&self.pg_index),
            pg_rewrite: sorted_rows(&self.pg_rewrite),
            search_path: copy_numbers(&self.search_path),
        }
    }
}

} // verus!
