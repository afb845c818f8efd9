//! `CREATE VIEW`, `CREATE MATERIALIZED VIEW` and `CREATE TABLE AS`.
//!
//! The columns of a view are those of its query when it is made. The query is
//! stored with the objects that its names refer to, and the view depends on each
//! of them.

use super::bindings::{bindings_in, collect_view_bindings};
use super::dependents::{drop_relation_by_oid, put_sorted, relation_dropped};
use super::stmt::{CreateTableAsStmt, ObjectType, RawColumn, StoredQuery, ViewStmt};
use super::tables::{
    array_type_row, new_array_type, new_row_type, row_type_row, too_many_columns, MAX_ATTNUM,
};
use super::util::{ensure_range_var, ensured_range, node_string, Step};
use super::{ddl_outcome, DdlError, DdlErrorView};
use crate::ast::{Node, RangeVar};
use crate::catalog::{CatalogView, PgCatalog};
use crate::error::AnalyzeError;
use crate::pg_catalog::{
    attr_views, AstBinding, DepType, EvEnabled, EvType, PgAttribute, PgAttributeView, PgClass,
    PgClassView, PgDepend, PgRewrite, PgRewriteView, RelKind, SerializedAst, SerializedAstView,
    PG_CLASS_RELID, PG_PROC_RELID, PG_TYPE_RELID,
};
use crate::row_copy::copy_bytes;
use crate::text::{concat3, texts};
use vstd::prelude::*;

verus! {

// ── Columns ─────────────────────────────────────────────────────────────────

#[verifier::ext_equal]
pub struct ResolvedColumnView {
    pub name: Seq<char>,
    pub type_oid: u32,
    pub typmod: Option<i32>,
    pub not_null: bool,
}

/// The texts among nodes.
pub open spec fn node_texts(nodes: Seq<Node>) -> Seq<Seq<char>>
    decreases nodes.len(),
{
    if nodes.len() == 0 {
        Seq::empty()
    } else {
        match nodes.last() {
            Node::Text(s) => node_texts(nodes.drop_last()).push(s@),
            _ => node_texts(nodes.drop_last()),
        }
    }
}

/// A column of a query, as the relation has it: under the alias at its place
/// where there is one.
pub open spec fn resolved_column(
    raw: Seq<RawColumn>,
    aliases: Seq<Seq<char>>,
    i: int,
) -> ResolvedColumnView {
    ResolvedColumnView {
        name: if i < aliases.len() {
            aliases[i]
        } else {
            raw[i].name@
        },
        type_oid: raw[i].type_oid,
        typmod: raw[i].typmod,
        not_null: !raw[i].nullable,
    }
}

/// The columns of a relation that is made from a query.
pub open spec fn resolved_columns(raw: Seq<RawColumn>, aliases: Seq<Seq<char>>) -> Seq<
    ResolvedColumnView,
> {
    Seq::new(raw.len(), |i: int| resolved_column(raw, aliases, i))
}

/// A column that is made from a column of a query.
#[derive(Debug)]
struct ResolvedColumn {
    name: String,
    type_oid: u32,
    typmod: Option<i32>,
    not_null: bool,
}

impl View for ResolvedColumn {
    type V = ResolvedColumnView;

    closed spec fn view(&self) -> ResolvedColumnView {
        ResolvedColumnView {
            name: self.name@,
            type_oid: self.type_oid,
            typmod: self.typmod,
            not_null: self.not_null,
        }
    }
}

spec fn column_views(v: Seq<ResolvedColumn>) -> Seq<ResolvedColumnView> {
    v.map_values(|c: ResolvedColumn| c@)
}

// ── Dependencies ────────────────────────────────────────────────────────────

/// Whether one column comes before another: by relation, then by number.
pub open spec fn column_before(a: (u32, i16), b: (u32, i16)) -> bool {
    a.0 < b.0 || (a.0 == b.0 && a.1 < b.1)
}

/// An ascending list with one more column, which it holds once.
pub open spec fn put_column(s: Seq<(u32, i16)>, x: (u32, i16)) -> Seq<(u32, i16)>
    decreases s.len(),
{
    if s.len() == 0 || column_before(s.last(), x) {
        s.push(x)
    } else if s.last() == x {
        s
    } else {
        put_column(s.drop_last(), x).push(s.last())
    }
}

/// The columns that a query refers to, ascending.
pub open spec fn column_refs(bs: Seq<AstBinding>) -> Seq<(u32, i16)>
    decreases bs.len(),
{
    if bs.len() == 0 {
        Seq::empty()
    } else {
        match bs.last() {
            AstBinding::Column(relid, attnum) => put_column(
                column_refs(bs.drop_last()),
                (relid, attnum),
            ),
            _ => column_refs(bs.drop_last()),
        }
    }
}

/// The relations that a query refers to, ascending.
pub open spec fn relation_refs(bs: Seq<AstBinding>) -> Seq<u32>
    decreases bs.len(),
{
    if bs.len() == 0 {
        Seq::empty()
    } else {
        match bs.last() {
            AstBinding::Relation(oid) => put_sorted(relation_refs(bs.drop_last()), oid),
            _ => relation_refs(bs.drop_last()),
        }
    }
}

/// The functions that a query refers to, ascending.
pub open spec fn function_refs(bs: Seq<AstBinding>) -> Seq<u32>
    decreases bs.len(),
{
    if bs.len() == 0 {
        Seq::empty()
    } else {
        match bs.last() {
            AstBinding::Function(oid) => put_sorted(function_refs(bs.drop_last()), oid),
            _ => function_refs(bs.drop_last()),
        }
    }
}

/// The types that a query refers to, ascending.
pub open spec fn type_refs(bs: Seq<AstBinding>) -> Seq<u32>
    decreases bs.len(),
{
    if bs.len() == 0 {
        Seq::empty()
    } else {
        match bs.last() {
            AstBinding::Type(oid) => put_sorted(type_refs(bs.drop_last()), oid),
            _ => type_refs(bs.drop_last()),
        }
    }
}

/// That a relation depends on an object.
pub open spec fn view_dep(
    relid: u32,
    refclassid: u32,
    refobjid: u32,
    refobjsubid: i16,
) -> PgDepend {
    PgDepend {
        classid: PG_CLASS_RELID,
        objid: relid,
        objsubid: 0,
        refclassid,
        refobjid,
        refobjsubid,
        deptype: DepType::Normal,
    }
}

/// That a relation depends on each of these columns.
pub open spec fn column_deps(relid: u32, refs: Seq<(u32, i16)>) -> Seq<PgDepend> {
    refs.map_values(|p: (u32, i16)| view_dep(relid, PG_CLASS_RELID, p.0, p.1))
}

/// That a relation depends on each of these objects.
pub open spec fn object_deps(relid: u32, refclassid: u32, refs: Seq<u32>) -> Seq<PgDepend> {
    refs.map_values(|oid: u32| view_dep(relid, refclassid, oid, 0))
}

/// What a relation that is made from a query depends on.
pub open spec fn query_deps(relid: u32, bs: Seq<AstBinding>) -> Seq<PgDepend> {
    column_deps(relid, column_refs(bs)) + object_deps(relid, PG_CLASS_RELID, relation_refs(bs))
        + object_deps(relid, PG_PROC_RELID, function_refs(bs)) + object_deps(
        relid,
        PG_TYPE_RELID,
        type_refs(bs),
    )
}

/// What a query refers to.
#[derive(Debug, Clone)]
pub struct ViewDeps {
    pub column_refs: Vec<(u32, i16)>,
    pub relation_refs: Vec<u32>,
    pub function_refs: Vec<u32>,
    pub type_refs: Vec<u32>,
}

fn insert_column(v: &mut Vec<(u32, i16)>, x: (u32, i16))
    ensures
        final(v)@ == put_column(old(v)@, x),
{
    let mut i: usize = v.len();
    proof {
        assert(v@.take(i as int) =~= v@);
        assert(put_column(v@, x) =~= put_column(v@.take(i as int), x) + v@.skip(i as int));
    }
    while i > 0 && !(v[i - 1].0 < x.0 || (v[i - 1].0 == x.0 && v[i - 1].1 <= x.1))
        invariant
            v@ == old(v)@,
            i <= v@.len(),
            put_column(v@, x) == put_column(v@.take(i as int), x) + v@.skip(i as int),
        decreases i,
    {
        proof {
            let s = v@.take(i as int);
            assert(s.drop_last() =~= v@.take(i - 1));
            assert(put_column(s, x) == put_column(s.drop_last(), x).push(s.last()));
            assert(put_column(s.drop_last(), x).push(s.last()) + v@.skip(i as int) =~= put_column(
                s.drop_last(),
                x,
            ) + v@.skip(i - 1));
        }
        i = i - 1;
    }
    proof {
        let s = v@.take(i as int);
        if i > 0 && v@[i - 1] == x {
            assert(s + v@.skip(i as int) =~= v@);
        } else {
            assert(s.push(x) + v@.skip(i as int) =~= v@.insert(i as int, x));
        }
    }
    if i == 0 || v[i - 1].0 != x.0 || v[i - 1].1 != x.1 {
        v.insert(i, x);
    }
}

/// What a query with these bindings refers to.
pub fn derive_deps_from_bindings(bindings: &Vec<AstBinding>) -> (r: ViewDeps)
    ensures
        r.column_refs@ == column_refs(bindings@),
        r.relation_refs@ == relation_refs(bindings@),
        r.function_refs@ == function_refs(bindings@),
        r.type_refs@ == type_refs(bindings@),
{
    let mut r: ViewDeps = ViewDeps {
        column_refs: Vec::new(),
        relation_refs: Vec::new(),
        function_refs: Vec::new(),
        type_refs: Vec::new(),
    };
    let mut i: usize = 0;
    while i < bindings.len()
        invariant
            i <= bindings@.len(),
            r.column_refs@ == column_refs(bindings@.take(i as int)),
            r.relation_refs@ == relation_refs(bindings@.take(i as int)),
            r.function_refs@ == function_refs(bindings@.take(i as int)),
            r.type_refs@ == type_refs(bindings@.take(i as int)),
        decreases bindings.len() - i,
    {
        proof {
            assert(bindings@.take(i + 1).drop_last() =~= bindings@.take(i as int));
        }
        match bindings[i] {
            AstBinding::Column(relid, attnum) => insert_column(
                &mut r.column_refs,
                (relid, attnum),
            ),
            AstBinding::Relation(oid) => super::dependents::insert_sorted(
                &mut r.relation_refs,
                oid,
            ),
            AstBinding::Function(oid) => super::dependents::insert_sorted(
                &mut r.function_refs,
                oid,
            ),
            AstBinding::Type(oid) => super::dependents::insert_sorted(&mut r.type_refs, oid),
            AstBinding::Unresolved => {},
        }
        i = i + 1;
    }
    proof {
        assert(bindings@.take(i as int) =~= bindings@);
    }
    r
}

fn add_column_deps(db: &mut PgCatalog, relid: u32, refs: &Vec<(u32, i16)>)
    ensures
        final(db)@ == (CatalogView {
            pg_depend: old(db)@.pg_depend + column_deps(relid, refs@),
            ..old(db)@
        }),
{
    let ghost all = column_deps(relid, refs@);
    let ghost before = db@;
    let mut i: usize = 0;
    proof {
        assert(db@.pg_depend =~= before.pg_depend + all.take(0));
    }
    while i < refs.len()
        invariant
            i <= refs@.len(),
            all == column_deps(relid, refs@),
            db@ == (CatalogView { pg_depend: before.pg_depend + all.take(i as int), ..before }),
        decreases refs.len() - i,
    {
        let p: (u32, i16) = refs[i];
        db.add_dependency(
            PgDepend {
                classid: PG_CLASS_RELID,
                objid: relid,
                objsubid: 0,
                refclassid: PG_CLASS_RELID,
                refobjid: p.0,
                refobjsubid: p.1,
                deptype: DepType::Normal,
            },
        );
        proof {
            assert((before.pg_depend + all.take(i as int)).push(all[i as int])
                =~= before.pg_depend + all.take(i + 1));
        }
        i = i + 1;
    }
    proof {
        assert(all.take(i as int) =~= all);
    }
}

fn add_object_deps(db: &mut PgCatalog, relid: u32, refclassid: u32, refs: &Vec<u32>)
    ensures
        final(db)@ == (CatalogView {
            pg_depend: old(db)@.pg_depend + object_deps(relid, refclassid, refs@),
            ..old(db)@
        }),
{
    let ghost all = object_deps(relid, refclassid, refs@);
    let ghost before = db@;
    let mut i: usize = 0;
    proof {
        assert(db@.pg_depend =~= before.pg_depend + all.take(0));
    }
    while i < refs.len()
        invariant
            i <= refs@.len(),
            all == object_deps(relid, refclassid, refs@),
            db@ == (CatalogView { pg_depend: before.pg_depend + all.take(i as int), ..before }),
        decreases refs.len() - i,
    {
        let oid: u32 = refs[i];
        db.add_dependency(
            PgDepend {
                classid: PG_CLASS_RELID,
                objid: relid,
                objsubid: 0,
                refclassid,
                refobjid: oid,
                refobjsubid: 0,
                deptype: DepType::Normal,
            },
        );
        proof {
            assert((before.pg_depend + all.take(i as int)).push(all[i as int])
                =~= before.pg_depend + all.take(i + 1));
        }
        i = i + 1;
    }
    proof {
        assert(all.take(i as int) =~= all);
    }
}

// ── The relation ────────────────────────────────────────────────────────────

/// A query that was analyzed: its columns, and how it is stored.
#[verifier::ext_equal]
pub struct ResolvedViewView {
    pub columns: Seq<ResolvedColumnView>,
    pub body: SerializedAstView,
}

/// The row of a column.
pub open spec fn resolved_row(relid: u32, col: ResolvedColumnView, attnum: i16) -> PgAttributeView {
    PgAttributeView {
        attrelid: relid,
        attname: col.name,
        atttypid: col.type_oid,
        attnum,
        attnotnull: col.not_null,
        atthasdef: false,
        attgenerated: None,
        atttypmod: col.typmod,
        attidentity: None,
    }
}

/// The catalog with the first `n` columns of a new relation.
pub open spec fn with_resolved_columns(
    c: CatalogView,
    relid: u32,
    columns: Seq<ResolvedColumnView>,
    n: int,
) -> CatalogView
    decreases n,
{
    if n <= 0 {
        c
    } else {
        with_resolved_columns(c, relid, columns, n - 1).with_attribute(
            resolved_row(relid, columns[n - 1], n as i16),
        )
    }
}

/// The rule that holds the query of a view.
pub open spec fn return_rule(oid: u32, relid: u32, body: SerializedAstView) -> PgRewriteView {
    PgRewriteView {
        oid,
        rulename: "_RETURN"@,
        ev_class: relid,
        ev_type: EvType::Select,
        ev_enabled: EvEnabled::Origin,
        is_instead: true,
        ev_qual: None,
        ev_action: body,
    }
}

/// The catalog with the query of a view; a table does not keep the query that it
/// was made from.
pub open spec fn with_body(
    c: CatalogView,
    relid: u32,
    kind: RelKind,
    body: Option<SerializedAstView>,
) -> Step<()> {
    match body {
        Some(b) => if kind == RelKind::Table {
            (Ok(()), c)
        } else {
            match c.allocated() {
                (Err(e), c1) => (Err(e), c1),
                (Ok(oid), c1) => (Ok(()), c1.with_rewrite(return_rule(oid, relid, b))),
            }
        },
        None => (Ok(()), c),
    }
}

/// The catalog with a relation that is made from a query: its row, columns, types,
/// stored query and dependencies. Without a query it has no columns.
pub open spec fn relation_installed(
    c: CatalogView,
    ns: u32,
    name: Seq<char>,
    kind: RelKind,
    resolved: Option<ResolvedViewView>,
) -> Step<()> {
    let columns = match resolved {
        Some(v) => v.columns,
        None => Seq::empty(),
    };
    let body = match resolved {
        Some(v) => Some(v.body),
        None => None,
    };
    if columns.len() > MAX_ATTNUM {
        (Err(too_many_columns()), c)
    } else {
        match c.allocated() {
            (Err(e), c1) => (Err(e), c1),
            (Ok(relid), c1) => match c1.allocated() {
                (Err(e), c2) => (Err(e), c2),
                (Ok(composite), c2) => match c2.allocated() {
                    (Err(e), c3) => (Err(e), c3),
                    (Ok(array), c3) => {
                        let c4 = with_resolved_columns(
                            c3.with_class(
                                PgClassView {
                                    oid: relid,
                                    relname: name,
                                    relnamespace: ns,
                                    relkind: kind,
                                    reltype: Some(composite),
                                },
                            ),
                            relid,
                            columns,
                            columns.len() as int,
                        ).with_type(row_type_row(composite, name, ns, relid, Some(array))).with_type(
                            array_type_row(array, name, ns, composite),
                        );
                        match with_body(c4, relid, kind, body) {
                            (Err(e), c5) => (Err(e), c5),
                            (Ok(_), c5) => (
                                Ok(()),
                                CatalogView {
                                    pg_depend: c5.pg_depend + query_deps(
                                        relid,
                                        match body {
                                            Some(b) => b.bindings,
                                            None => Seq::empty(),
                                        },
                                    ),
                                    ..c5
                                },
                            ),
                        }
                    },
                },
            },
        }
    }
}

/// An analyzed query.
#[derive(Debug)]
struct ResolvedView {
    columns: Vec<ResolvedColumn>,
    body: SerializedAst,
}

impl View for ResolvedView {
    type V = ResolvedViewView;

    closed spec fn view(&self) -> ResolvedViewView {
        ResolvedViewView { columns: column_views(self.columns@), body: self.body@ }
    }
}

fn add_resolved_columns(db: &mut PgCatalog, relid: u32, columns: &Vec<ResolvedColumn>)
    requires
        columns@.len() <= MAX_ATTNUM,
    ensures
        final(db)@ == with_resolved_columns(
            old(db)@,
            relid,
            column_views(columns@),
            columns@.len() as int,
        ),
{
    let ghost views = column_views(columns@);
    let mut i: usize = 0;
    while i < columns.len()
        invariant
            i <= columns@.len() <= MAX_ATTNUM,
            views == column_views(columns@),
            db@ == with_resolved_columns(old(db)@, relid, views, i as int),
        decreases columns.len() - i,
    {
        let col: &ResolvedColumn = &columns[i];
        proof {
            assert(views[i as int] == col@);
        }
        db.insert_pg_attribute(
            PgAttribute {
                attrelid: relid,
                attname: col.name.clone(),
                atttypid: col.type_oid,
                attnum: (i + 1) as i16,
                attnotnull: col.not_null,
                atthasdef: false,
                attgenerated: None,
                atttypmod: col.typmod,
                attidentity: None,
            },
        );
        i = i + 1;
    }
}

fn store_body(db: &mut PgCatalog, relid: u32, kind: RelKind, body: SerializedAst) -> (r: Result<
    (),
    DdlError,
>)
    ensures
        (ddl_outcome(r), final(db)@) == with_body(old(db)@, relid, kind, Some(body@)),
{
    match kind {
        RelKind::Table => Ok(()),
        _ => match db.alloc_oid() {
            Err(e) => Err(e),
            Ok(oid) => {
                db.insert_pg_rewrite(
                    PgRewrite {
                        oid,
                        rulename: "_RETURN".to_owned(),
                        ev_class: relid,
                        ev_type: EvType::Select,
                        ev_enabled: EvEnabled::Origin,
                        is_instead: true,
                        ev_qual: None,
                        ev_action: body,
                    },
                );
                Ok(())
            },
        },
    }
}

spec fn opt_resolved(r: Option<ResolvedView>) -> Option<ResolvedViewView> {
    match r {
        Some(v) => Some(v@),
        None => None,
    }
}

/// Makes a relation with its columns, its types, its query and its dependencies.
fn install_relation(
    db: &mut PgCatalog,
    ns: u32,
    name: &str,
    kind: RelKind,
    resolved: Option<ResolvedView>,
) -> (r: Result<(), DdlError>)
    ensures
        (ddl_outcome(r), final(db)@) == relation_installed(
            old(db)@,
            ns,
            name@,
            kind,
            opt_resolved(resolved),
        ),
{
    let (columns, body): (Vec<ResolvedColumn>, Option<SerializedAst>) = match resolved {
        Some(v) => (v.columns, Some(v.body)),
        None => (Vec::new(), None),
    };
    proof {
        if resolved is None {
            assert(column_views(columns@) =~= Seq::empty());
        }
    }
    if columns.len() > 32767 {
        return Err(DdlError::Internal("column number overflowed".to_owned()));
    }
    let relid: u32 = match db.alloc_oid() {
        Ok(oid) => oid,
        Err(e) => return Err(e),
    };
    let composite: u32 = match db.alloc_oid() {
        Ok(oid) => oid,
        Err(e) => return Err(e),
    };
    let array: u32 = match db.alloc_oid() {
        Ok(oid) => oid,
        Err(e) => return Err(e),
    };
    db.insert_pg_class(
        PgClass {
            oid: relid,
            relname: name.to_owned(),
            relnamespace: ns,
            relkind: kind,
            reltype: Some(composite),
        },
    );
    add_resolved_columns(db, relid, &columns);
    db.insert_pg_type(new_row_type(composite, name, ns, relid, Some(array)));
    db.insert_pg_type(new_array_type(array, name, ns, composite));
    match body {
        Some(b) => {
            let deps: ViewDeps = derive_deps_from_bindings(&b.bindings);
            match store_body(db, relid, kind, b) {
                Ok(_) => {},
                Err(e) => return Err(e),
            }
            let ghost before = db@;
            add_column_deps(db, relid, &deps.column_refs);
            add_object_deps(db, relid, PG_CLASS_RELID, &deps.relation_refs);
            add_object_deps(db, relid, PG_PROC_RELID, &deps.function_refs);
            add_object_deps(db, relid, PG_TYPE_RELID, &deps.type_refs);
            proof {
                assert(db@.pg_depend =~= before.pg_depend + query_deps(relid, b@.bindings));
            }
        },
        None => {
            proof {
                assert(query_deps(relid, Seq::empty()) =~= Seq::empty());
                assert(db@.pg_depend =~= db@.pg_depend + query_deps(relid, Seq::empty()));
            }
        },
    }
    Ok(())
}

// ── CREATE VIEW ─────────────────────────────────────────────────────────────

/// A relation as errors call it: its schema and its name.
pub open spec fn relation_label(c: CatalogView, ns: u32, name: Seq<char>) -> Seq<char> {
    match c.namespace_name(ns) {
        Some(s) => s + "."@ + name,
        None => "?"@ + "."@ + name,
    }
}

/// What analyzing the query of a relation gives.
pub open spec fn resolved_query(
    c: CatalogView,
    q: StoredQuery,
    aliases: Seq<Seq<char>>,
    label: Seq<char>,
) -> Result<ResolvedViewView, DdlErrorView> {
    match q.node {
        None => Err(DdlErrorView::Parse("CREATE VIEW with empty query node"@)),
        Some(node) => match q.analysis {
            Err(e) => Err(DdlErrorView::ViewAnalysis { view: label, source: e@ }),
            Ok(raw) => Ok(
                ResolvedViewView {
                    columns: resolved_columns(raw@, aliases),
                    body: SerializedAstView {
                        ast: q.ast@,
                        bindings: bindings_in(*node, c, Seq::empty()),
                    },
                },
            ),
        },
    }
}

/// What analyzing the query of a relation gives, where it has one.
pub open spec fn opt_resolved_query(
    c: CatalogView,
    q: Option<StoredQuery>,
    aliases: Seq<Seq<char>>,
    label: Seq<char>,
) -> Result<Option<ResolvedViewView>, DdlErrorView> {
    match q {
        None => Ok(None),
        Some(q) => match resolved_query(c, q, aliases, label) {
            Ok(v) => Ok(Some(v)),
            Err(e) => Err(e),
        },
    }
}

/// What `CREATE VIEW` does.
pub open spec fn view_created(c: CatalogView, stmt: ViewStmt) -> Step<()> {
    match stmt.view {
        None => (Err(DdlErrorView::Parse("CREATE VIEW without name"@)), c),
        Some(rv) => match ensured_range(c, rv) {
            (Err(e), c1) => (Err(e), c1),
            (Ok((ns, name)), c1) => match opt_resolved_query(
                c1,
                stmt.query,
                node_texts(stmt.aliases@),
                relation_label(c1, ns, name),
            ) {
                Err(e) => (Err(e), c1),
                Ok(resolved) => {
                    let c2 = match c1.class_named(ns, name) {
                        Some(oid) => if stmt.replace {
                            relation_dropped(c1, oid)
                        } else {
                            c1
                        },
                        None => c1,
                    };
                    relation_installed(c2, ns, name, RelKind::View, resolved)
                },
            },
        },
    }
}

/// What `CREATE TABLE AS` and `CREATE MATERIALIZED VIEW` do.
pub open spec fn table_as_created(c: CatalogView, stmt: CreateTableAsStmt) -> Step<()> {
    match stmt.rel {
        None => (Err(DdlErrorView::Parse("CREATE TABLE AS without target"@)), c),
        Some(rv) => match ensured_range(c, rv) {
            (Err(e), c1) => (Err(e), c1),
            (Ok((ns, name)), c1) => match opt_resolved_query(
                c1,
                stmt.query,
                Seq::empty(),
                relation_label(c1, ns, name),
            ) {
                Err(e) => (Err(e), c1),
                Ok(resolved) => relation_installed(
                    c1,
                    ns,
                    name,
                    if stmt.objtype == ObjectType::Matview {
                        RelKind::MaterializedView
                    } else {
                        RelKind::Table
                    },
                    resolved,
                ),
            },
        },
    }
}

pub(crate) fn collect_texts(nodes: &Vec<Node>) -> (r: Vec<String>)
    ensures
        texts(r@) == node_texts(nodes@),
{
    let mut r: Vec<String> = Vec::new();
    let mut i: usize = 0;
    proof {
        assert(texts(r@) =~= Seq::empty());
    }
    while i < nodes.len()
        invariant
            i <= nodes@.len(),
            texts(r@) == node_texts(nodes@.take(i as int)),
        decreases nodes.len() - i,
    {
        proof {
            assert(nodes@.take(i + 1).drop_last() =~= nodes@.take(i as int));
        }
        match node_string(&nodes[i]) {
            Some(s) => {
                let ghost before = texts(r@);
                r.push(s.to_owned());
                proof {
                    assert(texts(r@) =~= before.push(s@));
                }
            },
            None => {},
        }
        i = i + 1;
    }
    proof {
        assert(nodes@.take(i as int) =~= nodes@);
    }
    r
}

pub(crate) fn format_relation(db: &PgCatalog, ns: u32, name: &str) -> (r: String)
    ensures
        r@ == relation_label(db@, ns, name@),
{
    match db.namespace_name(ns) {
        Some(s) => concat3(s, ".", name),
        None => concat3("?", ".", name),
    }
}

fn resolve_columns(raw: &Vec<RawColumn>, aliases: &Vec<String>) -> (r: Vec<ResolvedColumn>)
    ensures
        column_views(r@) == resolved_columns(raw@, texts(aliases@)),
{
    let mut r: Vec<ResolvedColumn> = Vec::new();
    let mut i: usize = 0;
    while i < raw.len()
        invariant
            i <= raw@.len(),
            r@.len() == i,
            forall|j: int| 0 <= j < i ==> #[trigger] r@[j]@ == resolved_column(
                raw@,
                texts(aliases@),
                j,
            ),
        decreases raw.len() - i,
    {
        let name: String = if i < aliases.len() {
            aliases[i].clone()
        } else {
            raw[i].name.clone()
        };
        r.push(
            ResolvedColumn {
                name,
                type_oid: raw[i].type_oid,
                typmod: raw[i].typmod,
                not_null: !raw[i].nullable,
            },
        );
        i = i + 1;
    }
    proof {
        assert(column_views(r@) =~= resolved_columns(raw@, texts(aliases@)));
    }
    r
}

spec fn resolved_outcome(r: Result<Option<ResolvedView>, DdlError>) -> Result<
    Option<ResolvedViewView>,
    DdlErrorView,
> {
    match r {
        Ok(v) => Ok(opt_resolved(v)),
        Err(e) => Err(e@),
    }
}

/// The columns, bindings and stored form of a query.
fn resolve_view_now(
    db: &PgCatalog,
    query: &Option<StoredQuery>,
    aliases: &Vec<String>,
    label: &str,
) -> (r: Result<Option<ResolvedView>, DdlError>)
    ensures
        resolved_outcome(r) == opt_resolved_query(db@, *query, texts(aliases@), label@),
{
    let q: &StoredQuery = match query {
        Some(q) => q,
        None => return Ok(None),
    };
    match &q.node {
        None => Err(DdlError::Parse("CREATE VIEW with empty query node".to_owned())),
        Some(node) => match &q.analysis {
            Err(e) => Err(
                DdlError::ViewAnalysis { view: label.to_owned(), source: Box::new(e.copy()) },
            ),
            Ok(raw) => Ok(
                Some(
                    ResolvedView {
                        columns: resolve_columns(raw, aliases),
                        body: SerializedAst {
                            ast: copy_bytes(&q.ast),
                            bindings: collect_view_bindings(node, db),
                        },
                    },
                ),
            ),
        },
    }
}

/// Applies a `CREATE VIEW`.
///
/// # Errors
///
/// The view has no name, its query cannot be analyzed, or the OIDs have run out.
pub fn create_view(db: &mut PgCatalog, stmt: &ViewStmt) -> (r: Result<(), DdlError>)
    ensures
        (ddl_outcome(r), final(db)@) == view_created(old(db)@, *stmt),
{
    let rv: &RangeVar = match &stmt.view {
        Some(rv) => rv,
        None => return Err(DdlError::Parse("CREATE VIEW without name".to_owned())),
    };
    let (ns, name): (u32, String) = match ensure_range_var(db, rv) {
        Ok(p) => p,
        Err(e) => return Err(e),
    };
    let label: String = format_relation(db, ns, name.as_str());
    let aliases: Vec<String> = collect_texts(&stmt.aliases);
    let resolved: Option<ResolvedView> = match resolve_view_now(
        db,
        &stmt.query,
        &aliases,
        label.as_str(),
    ) {
        Ok(v) => v,
        Err(e) => return Err(e),
    };
    if stmt.replace {
        match db.class_by_qname.get(ns, name.as_str()) {
            Some(oid) => drop_relation_by_oid(db, oid),
            None => {},
        }
    }
    install_relation(db, ns, name.as_str(), RelKind::View, resolved)
}

/// Applies a `CREATE TABLE AS` or a `CREATE MATERIALIZED VIEW`.
///
/// # Errors
///
/// There is no target, its query cannot be analyzed, or the OIDs have run out.
pub fn create_table_as(db: &mut PgCatalog, stmt: &CreateTableAsStmt) -> (r: Result<(), DdlError>)
    ensures
        (ddl_outcome(r), final(db)@) == table_as_created(old(db)@, *stmt),
{
    let rv: &RangeVar = match &stmt.rel {
        Some(rv) => rv,
        None => return Err(DdlError::Parse("CREATE TABLE AS without target".to_owned())),
    };
    let kind: RelKind = match stmt.objtype {
        ObjectType::Matview => RelKind::MaterializedView,
        _ => RelKind::Table,
    };
    let (ns, name): (u32, String) = match ensure_range_var(db, rv) {
        Ok(p) => p,
        Err(e) => return Err(e),
    };
    let label: String = format_relation(db, ns, name.as_str());
    let aliases: Vec<String> = Vec::new();
    proof {
        assert(texts(aliases@) =~= Seq::empty());
    }
    let resolved: Option<ResolvedView> = match resolve_view_now(
        db,
        &stmt.query,
        &aliases,
        label.as_str(),
    ) {
        Ok(v) => v,
        Err(e) => return Err(e),
    };
    install_relation(db, ns, name.as_str(), kind, resolved)
}

// ── A view after a change of what it reads ──────────────────────────────────

/// The columns of a view with the types of its query as it is now.
pub open spec fn refreshed(attrs: Seq<PgAttributeView>, cols: Seq<RawColumn>) -> Seq<
    PgAttributeView,
> {
    Seq::new(
        attrs.len(),
        |i: int|
            if i < cols.len() {
                PgAttributeView {
                    atttypid: cols[i].type_oid,
                    attnotnull: !cols[i].nullable,
                    ..attrs[i]
                }
            } else {
                attrs[i]
            },
    )
}

/// The catalog after the stored query of a view was analyzed again. A view whose
/// query is not stored stays as it is.
pub open spec fn view_refreshed(
    c: CatalogView,
    view: u32,
    analysis: Result<Vec<RawColumn>, AnalyzeError>,
) -> Step<()> {
    match c.view_body(view) {
        None => (Ok(()), c),
        Some(b) => if b.ast.len() == 0 {
            (Ok(()), c)
        } else {
            match analysis {
                Err(e) => (
                    Err(DdlErrorView::ViewAnalysis { view: view_label(c, view), source: e@ }),
                    c,
                ),
                Ok(cols) => (
                    Ok(()),
                    if c.attributes_of(view).len() == 0 {
                        c
                    } else {
                        c.with_attributes(view, refreshed(c.attributes_of(view), cols@))
                    },
                ),
            }
        },
    }
}

/// A view as errors call it.
pub open spec fn view_label(c: CatalogView, view: u32) -> Seq<char> {
    match c.get_class(view) {
        Some(k) => relation_label(c, k.relnamespace, k.relname),
        None => Seq::empty(),
    }
}

fn refresh_columns(attrs: &mut Vec<PgAttribute>, cols: &Vec<RawColumn>)
    ensures
        attr_views(final(attrs)@) == refreshed(attr_views(old(attrs)@), cols@),
{
    let ghost before = attr_views(attrs@);
    let ghost after = refreshed(before, cols@);
    let mut i: usize = 0;
    while i < attrs.len() && i < cols.len()
        invariant
            before == attr_views(old(attrs)@),
            after == refreshed(before, cols@),
            i <= attrs@.len() == before.len(),
            i <= cols@.len(),
            forall|j: int| 0 <= j < i ==> #[trigger] attrs@[j]@ == after[j],
            forall|j: int| i <= j < attrs@.len() ==> #[trigger] attrs@[j]@ == before[j],
        decreases attrs.len() - i,
    {
        proof {
            assert(attrs@[i as int]@ == before[i as int]);
        }
        let a: PgAttribute = PgAttribute {
            attrelid: attrs[i].attrelid,
            attname: attrs[i].attname.clone(),
            atttypid: cols[i].type_oid,
            attnum: attrs[i].attnum,
            attnotnull: !cols[i].nullable,
            atthasdef: attrs[i].atthasdef,
            attgenerated: attrs[i].attgenerated,
            atttypmod: attrs[i].atttypmod,
            attidentity: attrs[i].attidentity,
        };
        proof {
            assert(a@ == after[i as int]);
        }
        attrs[i] = a;
        i = i + 1;
    }
    proof {
        assert(attr_views(attrs@) =~= after);
    }
}

/// Gives a view the columns of its stored query as they are now, where the
/// analysis of that query is at hand.
///
/// # Errors
///
/// The query cannot be analyzed any more.
pub fn reanalyze_view(
    db: &mut PgCatalog,
    view_oid: u32,
    analysis: &Result<Vec<RawColumn>, AnalyzeError>,
) -> (r: Result<(), DdlError>)
    ensures
        (ddl_outcome(r), final(db)@) == view_refreshed(old(db)@, view_oid, *analysis),
{
    let stored: bool = match db.view_body(view_oid) {
        Some(b) => b.ast.len() > 0,
        None => false,
    };
    if !stored {
        return Ok(());
    }
    match analysis {
        Err(e) => {
            let label: String = match db.get_class(view_oid) {
                Some(k) => format_relation(db, k.relnamespace, k.relname.as_str()),
                None => String::new(),
            };
            Err(DdlError::ViewAnalysis { view: label, source: Box::new(e.copy()) })
        },
        Ok(cols) => {
            let mut attrs: Vec<PgAttribute> = db.attributes_of(view_oid);
            if attrs.len() > 0 {
                refresh_columns(&mut attrs, cols);
                db.set_attributes(view_oid, attrs);
            }
            Ok(())
        },
    }
}

// ── Renames ─────────────────────────────────────────────────────────────────

/// What views do when a relation gets another name: nothing, since the bindings of
/// a stored query lead to the relation whatever its name is.
pub fn rewrite_views_on_table_rename(
    db: &mut PgCatalog,
    _old_schema: &str,
    _old_name: &str,
    _new_schema: &str,
    _new_name: &str,
)
    ensures
        *final(db) == *old(db),
{
}

/// What views do when a column gets another name: nothing, as for relations.
pub fn rewrite_views_on_column_rename(
    db: &mut PgCatalog,
    _relid: u32,
    _old_col: &str,
    _new_col: &str,
)
    ensures
        *final(db) == *old(db),
{
}

/// What views do when a schema gets another name: nothing, as for relations.
pub fn rewrite_views_on_schema_rename(db: &mut PgCatalog, _old_schema: &str, _new_schema: &str)
    ensures
        *final(db) == *old(db),
{
}

} // verus!
