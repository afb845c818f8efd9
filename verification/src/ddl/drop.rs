//! `DROP`.

use super::dependents::{
    drop_relation_by_oid, drop_views, find_dependent_views, find_views_depending_on_type,
    relation_dropped, views_dropped, views_on,
};
use super::routines::{
    aggregate_drop, cast_drop, drop_aggregate, drop_cast, drop_function, drop_operator,
    function_drop, operator_drop,
};
use super::stmt::{DropItem, DropStmt, ObjectRef, ObjectType};
use super::util::{extract_names, listed_names, Step};
use super::views::{format_relation, relation_label};
use super::{ddl_outcome, DdlError, DdlErrorView};
use crate::catalog::{CatalogView, PgCatalog};
use crate::pg_catalog::{
    attr_views, ConType, DepType, PgAttribute, PgAttributeView, PgCast, PgClass, PgConstraint,
    PgConstraintView, PgDepend, PgExtension, PgIndex, PgNamespace, PgOperator, PgProc, PgType,
    RelAttrs, RelAttrsView, RelKind, PG_CAST_RELID, PG_CLASS_RELID, PG_EXTENSION_RELID,
    PG_NAMESPACE_RELID, PG_OPERATOR_RELID, PG_PROC_RELID, PG_TYPE_RELID,
};
use crate::table::{map_get, owned_keys, row_get};
use crate::text::{concat3, concat5, join, joined, same_text, texts};
use vstd::prelude::*;

verus! {

// ── Names ───────────────────────────────────────────────────────────────────

/// The texts among the nodes that name an object.
pub open spec fn item_texts(items: Seq<DropItem>) -> Seq<Seq<char>>
    decreases items.len(),
{
    if items.len() == 0 {
        Seq::empty()
    } else {
        match items.last() {
            DropItem::Text(s) => item_texts(items.drop_last()).push(s@),
            _ => item_texts(items.drop_last()),
        }
    }
}

pub(crate) fn collect_item_texts(items: &Vec<DropItem>) -> (r: Vec<String>)
    ensures
        texts(r@) == item_texts(items@),
{
    let mut r: Vec<String> = Vec::new();
    let mut i: usize = 0;
    proof {
        assert(texts(r@) =~= Seq::empty());
    }
    while i < items.len()
        invariant
            i <= items@.len(),
            texts(r@) == item_texts(items@.take(i as int)),
        decreases items.len() - i,
    {
        proof {
            assert(items@.take(i + 1).drop_last() =~= items@.take(i as int));
        }
        match &items[i] {
            DropItem::Text(s) => {
                let ghost before = texts(r@);
                r.push(s.clone());
                proof {
                    assert(texts(r@) =~= before.push(s@));
                }
            },
            _ => {},
        }
        i = i + 1;
    }
    proof {
        assert(items@.take(i as int) =~= items@);
    }
    r
}

/// The relation of this name, where its schema is there.
pub open spec fn class_at(c: CatalogView, names: (Seq<char>, Seq<char>)) -> Option<u32> {
    match c.namespace_oid(names.0) {
        Some(ns) => c.class_named(ns, names.1),
        None => None,
    }
}

/// The type of this name, where its schema is there.
pub open spec fn type_at(c: CatalogView, names: (Seq<char>, Seq<char>)) -> Option<u32> {
    match c.namespace_oid(names.0) {
        Some(ns) => c.type_named(ns, names.1),
        None => None,
    }
}

pub(crate) fn find_class_at(db: &PgCatalog, schema: &str, name: &str) -> (r: Option<u32>)
    ensures
        r == class_at(db@, (schema@, name@)),
{
    match db.namespace_oid(schema) {
        Some(ns) => db.class_by_qname.get(ns, name),
        None => None,
    }
}

pub(crate) fn find_type_at(db: &PgCatalog, schema: &str, name: &str) -> (r: Option<u32>)
    ensures
        r == type_at(db@, (schema@, name@)),
{
    match db.namespace_oid(schema) {
        Some(ns) => db.type_by_qname.get(ns, name),
        None => None,
    }
}

/// The labels of the relations in a list that are in the catalog.
pub open spec fn relation_labels(c: CatalogView, oids: Seq<u32>) -> Seq<Seq<char>>
    decreases oids.len(),
{
    if oids.len() == 0 {
        Seq::empty()
    } else {
        let rest = relation_labels(c, oids.drop_last());
        match c.get_class(oids.last()) {
            Some(k) => rest.push(relation_label(c, k.relnamespace, k.relname)),
            None => rest,
        }
    }
}

/// The labels of relations, with commas between them.
pub open spec fn view_list(c: CatalogView, oids: Seq<u32>) -> Seq<char> {
    joined(relation_labels(c, oids), ", "@)
}

/// The relations of a list by schema and name, for messages.
pub(crate) fn format_view_list(db: &PgCatalog, oids: &Vec<u32>) -> (r: String)
    ensures
        r@ == view_list(db@, oids@),
{
    let mut r: Vec<String> = Vec::new();
    let mut i: usize = 0;
    proof {
        assert(texts(r@) =~= Seq::empty());
    }
    while i < oids.len()
        invariant
            i <= oids@.len(),
            texts(r@) == relation_labels(db@, oids@.take(i as int)),
        decreases oids.len() - i,
    {
        proof {
            assert(oids@.take(i + 1).drop_last() =~= oids@.take(i as int));
        }
        match db.get_class(oids[i]) {
            Some(k) => {
                let ghost before = texts(r@);
                let label: String = format_relation(db, k.relnamespace, k.relname.as_str());
                r.push(label);
                proof {
                    assert(texts(r@) =~= before.push(label@));
                }
            },
            None => {},
        }
        i = i + 1;
    }
    proof {
        assert(oids@.take(i as int) =~= oids@);
    }
    join(&r, ", ")
}

// ── DROP TABLE, VIEW, MATERIALIZED VIEW, SEQUENCE ───────────────────────────

/// How messages call a relation of this kind.
pub open spec fn kind_word(c: CatalogView, oid: u32) -> Seq<char> {
    match c.get_class(oid) {
        Some(k) => match k.relkind {
            RelKind::View => "view"@,
            RelKind::MaterializedView => "materialized view"@,
            RelKind::Sequence => "sequence"@,
            _ => "table"@,
        },
        None => "table"@,
    }
}

/// The foreign keys that refer to a relation, with how messages call them.
pub open spec fn foreign_keys_to(c: CatalogView, rows: Seq<PgConstraintView>, relid: u32) -> Seq<
    (u32, Seq<char>),
>
    decreases rows.len(),
{
    if rows.len() == 0 {
        Seq::empty()
    } else {
        let rest = foreign_keys_to(c, rows.drop_last(), relid);
        let k = rows.last();
        if k.contype == ConType::ForeignKey && k.confrelid == Some(relid) {
            match c.get_class(k.conrelid) {
                Some(owner) => match c.namespace_name(owner.relnamespace) {
                    Some(ns) => rest.push(
                        (k.oid, k.conname + " on "@ + ns + "."@ + owner.relname),
                    ),
                    None => rest,
                },
                None => rest,
            }
        } else {
            rest
        }
    }
}

/// The numbers of a list of pairs.
pub open spec fn firsts(s: Seq<(u32, Seq<char>)>) -> Seq<u32> {
    s.map_values(|p: (u32, Seq<char>)| p.0)
}

/// The texts of a list of pairs.
pub open spec fn seconds(s: Seq<(u32, Seq<char>)>) -> Seq<Seq<char>> {
    s.map_values(|p: (u32, Seq<char>)| p.1)
}

/// The catalog without the first `n` of these constraints.
pub open spec fn without_constraints(c: CatalogView, oids: Seq<u32>, n: int) -> CatalogView
    decreases n,
{
    if n <= 0 {
        c
    } else {
        without_constraints(c, oids, n - 1).without_constraint(oids[n - 1])
    }
}

/// The error for a relation that something depends on.
pub open spec fn depended_on(
    kind: Seq<char>,
    name: Seq<char>,
    what: Seq<char>,
    who: Seq<char>,
) -> DdlErrorView {
    DdlErrorView::DependencyError(
        "cannot drop "@ + kind + " "@ + name + " because other objects depend on it ("@ + what
            + " "@ + who + " depend on this)"@,
    )
}

/// What dropping a relation that is there does.
pub open spec fn known_relation_drop(
    c: CatalogView,
    oid: u32,
    name: Seq<char>,
    cascade: bool,
) -> Step<
    (),
> {
    let views = views_on(c, PG_CLASS_RELID, oid, None);
    let keys = foreign_keys_to(c, c.pg_constraint, oid);
    if views.len() > 0 && !cascade {
        (Err(depended_on(kind_word(c, oid), name, "view(s)"@, view_list(c, views))), c)
    } else if keys.len() > 0 && !cascade {
        (
            Err(
                depended_on(
                    kind_word(c, oid),
                    name,
                    "foreign key constraint(s)"@,
                    joined(seconds(keys), ", "@),
                ),
            ),
            c,
        )
    } else {
        let c1 = if views.len() > 0 {
            views_dropped(c, views, Seq::empty())
        } else {
            c
        };
        let c2 = without_constraints(c1, firsts(keys), keys.len() as int);
        (Ok(()), relation_dropped(c2, oid))
    }
}

/// What dropping a relation does.
pub open spec fn relation_drop(
    c: CatalogView,
    obj: ObjectRef,
    missing_ok: bool,
    cascade: bool,
) -> Step<
    (),
> {
    match obj {
        ObjectRef::List(items) => {
            let names = listed_names(c, item_texts(items@));
            match class_at(c, names) {
                None => if missing_ok {
                    (Ok(()), c)
                } else {
                    (
                        Err(
                            DdlErrorView::TableNotFound(
                                "table \""@ + names.1 + "\" does not exist"@,
                            ),
                        ),
                        c,
                    )
                },
                Some(oid) => known_relation_drop(c, oid, names.1, cascade),
            }
        },
        _ => (Ok(()), c),
    }
}

fn find_kind_word(db: &PgCatalog, oid: u32) -> (r: &'static str)
    ensures
        r@ == kind_word(db@, oid),
{
    match db.get_class(oid) {
        Some(k) => match k.relkind {
            RelKind::View => "view",
            RelKind::MaterializedView => "materialized view",
            RelKind::Sequence => "sequence",
            _ => "table",
        },
        None => "table",
    }
}

fn find_foreign_keys_to(db: &PgCatalog, relid: u32) -> (r: (Vec<u32>, Vec<String>))
    ensures
        r.0@ == firsts(foreign_keys_to(db@, db@.pg_constraint, relid)),
        texts(r.1@) == seconds(foreign_keys_to(db@, db@.pg_constraint, relid)),
{
    let ghost rows = db@.pg_constraint;
    let mut oids: Vec<u32> = Vec::new();
    let mut labels: Vec<String> = Vec::new();
    let mut i: usize = 0;
    proof {
        assert(texts(labels@) =~= Seq::empty());
        assert(firsts(Seq::empty()) =~= Seq::empty());
        assert(seconds(Seq::empty()) =~= Seq::empty());
    }
    while i < db.pg_constraint.len()
        invariant
            rows == db@.pg_constraint,
            i <= rows.len(),
            oids@ == firsts(foreign_keys_to(db@, rows.take(i as int), relid)),
            texts(labels@) == seconds(foreign_keys_to(db@, rows.take(i as int), relid)),
        decreases rows.len() - i,
    {
        let k: &PgConstraint = db.pg_constraint.at(i);
        let ghost rest = foreign_keys_to(db@, rows.take(i as int), relid);
        proof {
            assert(rows.take(i + 1).drop_last() =~= rows.take(i as int));
            assert(rows.take(i + 1).last() == k@);
        }
        let foreign: bool = match k.contype {
            ConType::ForeignKey => true,
            _ => false,
        };
        let here: bool = match k.confrelid {
            Some(oid) => oid == relid,
            None => false,
        };
        if foreign && here {
            match db.get_class(k.conrelid) {
                Some(owner) => match db.namespace_name(owner.relnamespace) {
                    Some(ns) => {
                        let label: String = concat5(
                            k.conname.as_str(),
                            " on ",
                            ns,
                            ".",
                            owner.relname.as_str(),
                        );
                        let ghost before = texts(labels@);
                        oids.push(k.oid);
                        labels.push(label);
                        proof {
                            let next = rest.push((k.oid, label@));
                            assert(firsts(next) =~= firsts(rest).push(k.oid));
                            assert(seconds(next) =~= seconds(rest).push(label@));
                            assert(texts(labels@) =~= before.push(label@));
                        }
                    },
                    None => {},
                },
                None => {},
            }
        }
        i = i + 1;
    }
    proof {
        assert(rows.take(i as int) =~= rows);
    }
    (oids, labels)
}

pub(crate) fn remove_constraints(db: &mut PgCatalog, oids: &Vec<u32>)
    ensures
        final(db)@ == without_constraints(old(db)@, oids@, oids@.len() as int),
{
    let mut i: usize = 0;
    while i < oids.len()
        invariant
            i <= oids@.len(),
            db@ == without_constraints(old(db)@, oids@, i as int),
        decreases oids.len() - i,
    {
        db.remove_pg_constraint(oids[i]);
        i = i + 1;
    }
}

fn depended_on_error(kind: &str, name: &str, what: &str, who: &str) -> (r: DdlError)
    ensures
        r@ == depended_on(kind@, name@, what@, who@),
{
    let head: String = concat5(
        "cannot drop ",
        kind,
        " ",
        name,
        " because other objects depend on it (",
    );
    DdlError::DependencyError(concat5(head.as_str(), what, " ", who, " depend on this)"))
}

fn drop_relation(
    db: &mut PgCatalog,
    obj: &ObjectRef,
    missing_ok: bool,
    cascade: bool,
) -> (r: Result<
    (),
    DdlError,
>)
    ensures
        (ddl_outcome(r), final(db)@) == relation_drop(old(db)@, *obj, missing_ok, cascade),
{
    let items: &Vec<DropItem> = match obj {
        ObjectRef::List(items) => items,
        _ => return Ok(()),
    };
    let parts: Vec<String> = collect_item_texts(items);
    let (schema, name): (String, String) = extract_names(&parts, db);
    let oid: u32 = match find_class_at(db, schema.as_str(), name.as_str()) {
        Some(oid) => oid,
        None => {
            if missing_ok {
                return Ok(());
            }
            return Err(
                DdlError::TableNotFound(
                    concat3("table \"", name.as_str(), "\" does not exist"),
                ),
            );
        },
    };
    let kind: &'static str = find_kind_word(db, oid);
    let views: Vec<u32> = find_dependent_views(db, oid);
    if views.len() > 0 && !cascade {
        let list: String = format_view_list(db, &views);
        return Err(depended_on_error(kind, name.as_str(), "view(s)", list.as_str()));
    }
    let (keys, labels): (Vec<u32>, Vec<String>) = find_foreign_keys_to(db, oid);
    if keys.len() > 0 && !cascade {
        let list: String = join(&labels, ", ");
        return Err(
            depended_on_error(kind, name.as_str(), "foreign key constraint(s)", list.as_str()),
        );
    }
    if views.len() > 0 {
        drop_views(db, &views);
    }
    remove_constraints(db, &keys);
    drop_relation_by_oid(db, oid);
    Ok(())
}

// ── DROP INDEX ──────────────────────────────────────────────────────────────

/// The table that an index is over.
pub open spec fn indexed_table(c: CatalogView, index: u32) -> Option<u32> {
    match row_get::<PgIndex>(c.pg_index, index) {
        Some(k) => Some(k.indrelid),
        None => None,
    }
}

/// The unique constraints of this name on a table.
pub open spec fn unique_named(
    rows: Seq<PgConstraintView>,
    table: Option<u32>,
    name: Seq<char>,
) -> Seq<u32>
    decreases rows.len(),
{
    if rows.len() == 0 {
        Seq::empty()
    } else if rows.last().contype == ConType::Unique && rows.last().conname == name && table
        == Some(rows.last().conrelid) {
        unique_named(rows.drop_last(), table, name).push(rows.last().oid)
    } else {
        unique_named(rows.drop_last(), table, name)
    }
}

/// What dropping an index does. The unique constraint that was made with the index
/// has the same name, is on the same table, and goes with it.
pub open spec fn index_drop(c: CatalogView, obj: ObjectRef, missing_ok: bool) -> Step<()> {
    match obj {
        ObjectRef::List(items) => {
            let names = listed_names(c, item_texts(items@));
            match class_at(c, names) {
                None => if missing_ok {
                    (Ok(()), c)
                } else {
                    (
                        Err(
                            DdlErrorView::DependencyError(
                                "index \""@ + names.1 + "\" does not exist"@,
                            ),
                        ),
                        c,
                    )
                },
                Some(oid) => {
                    let is_index = match c.get_class(oid) {
                        Some(k) => k.relkind == RelKind::Index,
                        None => false,
                    };
                    if is_index {
                        let keys = unique_named(c.pg_constraint, indexed_table(c, oid), names.1);
                        (
                            Ok(()),
                            without_constraints(
                                c.without_index(oid),
                                keys,
                                keys.len() as int,
                            ).without_class(oid).without_dependencies(PG_CLASS_RELID, oid),
                        )
                    } else {
                        (
                            Err(
                                DdlErrorView::DependencyError(
                                    "\""@ + names.1 + "\" is not an index"@,
                                ),
                            ),
                            c,
                        )
                    }
                },
            }
        },
        _ => (Ok(()), c),
    }
}

fn find_indexed_table(db: &PgCatalog, index: u32) -> (r: Option<u32>)
    ensures
        r == indexed_table(db@, index),
{
    match db.pg_index.get(index) {
        Some(k) => Some(k.indrelid),
        None => None,
    }
}

fn find_unique_named(db: &PgCatalog, table: Option<u32>, name: &str) -> (r: Vec<u32>)
    ensures
        r@ == unique_named(db@.pg_constraint, table, name@),
{
    let ghost rows = db@.pg_constraint;
    let mut r: Vec<u32> = Vec::new();
    let mut i: usize = 0;
    while i < db.pg_constraint.len()
        invariant
            rows == db@.pg_constraint,
            i <= rows.len(),
            r@ == unique_named(rows.take(i as int), table, name@),
        decreases rows.len() - i,
    {
        let k: &PgConstraint = db.pg_constraint.at(i);
        proof {
            assert(rows.take(i + 1).drop_last() =~= rows.take(i as int));
            assert(rows.take(i + 1).last() == k@);
        }
        let unique: bool = match k.contype {
            ConType::Unique => true,
            _ => false,
        };
        let here: bool = match table {
            Some(t) => t == k.conrelid,
            None => false,
        };
        if unique && here && same_text(k.conname.as_str(), name) {
            r.push(k.oid);
        }
        i = i + 1;
    }
    proof {
        assert(rows.take(i as int) =~= rows);
    }
    r
}

fn drop_index(db: &mut PgCatalog, obj: &ObjectRef, missing_ok: bool) -> (r: Result<(), DdlError>)
    ensures
        (ddl_outcome(r), final(db)@) == index_drop(old(db)@, *obj, missing_ok),
{
    let items: &Vec<DropItem> = match obj {
        ObjectRef::List(items) => items,
        _ => return Ok(()),
    };
    let parts: Vec<String> = collect_item_texts(items);
    let (schema, name): (String, String) = extract_names(&parts, db);
    let oid: u32 = match find_class_at(db, schema.as_str(), name.as_str()) {
        Some(oid) => oid,
        None => {
            if missing_ok {
                return Ok(());
            }
            return Err(
                DdlError::DependencyError(
                    concat3("index \"", name.as_str(), "\" does not exist"),
                ),
            );
        },
    };
    let is_index: bool = match db.get_class(oid) {
        Some(k) => match k.relkind {
            RelKind::Index => true,
            _ => false,
        },
        None => false,
    };
    if !is_index {
        return Err(
            DdlError::DependencyError(concat3("\"", name.as_str(), "\" is not an index")),
        );
    }
    let table: Option<u32> = find_indexed_table(db, oid);
    let keys: Vec<u32> = find_unique_named(db, table, name.as_str());
    db.remove_pg_index(oid);
    remove_constraints(db, &keys);
    let _row: Option<PgClass> = db.remove_pg_class(oid);
    db.remove_dependencies(PG_CLASS_RELID, oid);
    Ok(())
}

// ── DROP TYPE ───────────────────────────────────────────────────────────────

/// Whether a column has a type or the array over it.
pub open spec fn column_has_type(a: PgAttributeView, t: u32, array: Option<u32>) -> bool {
    a.atttypid == t || array == Some(a.atttypid)
}

/// Whether one of the columns has a type or the array over it.
pub open spec fn some_column_has_type(
    attrs: Seq<PgAttributeView>,
    t: u32,
    array: Option<u32>,
) -> bool {
    exists|i: int| 0 <= i < attrs.len() && #[trigger] column_has_type(attrs[i], t, array)
}

/// The relations with a column of a type or of the array over it.
pub open spec fn relations_using(rows: Seq<RelAttrsView>, t: u32, array: Option<u32>) -> Seq<u32>
    decreases rows.len(),
{
    if rows.len() == 0 {
        Seq::empty()
    } else if some_column_has_type(rows.last().attrs, t, array) {
        relations_using(rows.drop_last(), t, array).push(rows.last().relid)
    } else {
        relations_using(rows.drop_last(), t, array)
    }
}

/// The columns that have neither a type nor the array over it.
pub open spec fn other_columns(attrs: Seq<PgAttributeView>, t: u32, array: Option<u32>) -> Seq<
    PgAttributeView,
> {
    attrs.filter(|a: PgAttributeView| !column_has_type(a, t, array))
}

/// The catalog in which the first `n` relations have no column of a type.
pub open spec fn without_columns_of_type(
    c: CatalogView,
    relids: Seq<u32>,
    n: int,
    t: u32,
    array: Option<u32>,
) -> CatalogView
    decreases n,
{
    if n <= 0 {
        c
    } else {
        let c1 = without_columns_of_type(c, relids, n - 1, t, array);
        c1.with_attributes(
            relids[n - 1],
            other_columns(c1.attributes_of(relids[n - 1]), t, array),
        )
    }
}

/// The parts of the name of a type to drop.
pub open spec fn type_parts(obj: ObjectRef) -> Option<Seq<Seq<char>>> {
    match obj {
        ObjectRef::TypeName(tn) => Some(texts(tn.names@)),
        ObjectRef::List(items) => Some(item_texts(items@)),
        _ => None,
    }
}

/// The error for a type that something depends on.
pub open spec fn type_depended_on(
    name: Seq<char>,
    what: Seq<char>,
    who: Seq<char>,
) -> DdlErrorView {
    DdlErrorView::DependencyError(
        "cannot drop type "@ + name + " because other objects depend on it ("@ + what + " "@ + who
            + " depend on this type)"@,
    )
}

/// The catalog without a type and the array over it.
pub open spec fn without_type_and_array(c: CatalogView, t: u32, array: Option<u32>) -> CatalogView {
    let c1 = match array {
        Some(a) => c.without_type(a).without_dependencies(PG_TYPE_RELID, a),
        None => c,
    };
    c1.without_type(t).without_dependencies(PG_TYPE_RELID, t)
}

/// What dropping a type that is there does.
pub open spec fn known_type_drop(
    c: CatalogView,
    t: u32,
    name: Seq<char>,
    cascade: bool,
) -> Step<()> {
    let array = c.array_type_of(t);
    let relids = relations_using(c.pg_attribute, t, array);
    let views = views_on(c, PG_TYPE_RELID, t, None);
    if relids.len() > 0 && !cascade {
        (Err(type_depended_on(name, "table(s)"@, view_list(c, relids))), c)
    } else if views.len() > 0 && !cascade {
        (Err(type_depended_on(name, "view(s)"@, view_list(c, views))), c)
    } else {
        let c1 = without_columns_of_type(c, relids, relids.len() as int, t, array);
        let c2 = if views.len() > 0 {
            views_dropped(c1, views, Seq::empty())
        } else {
            c1
        };
        (Ok(()), without_type_and_array(c2, t, array))
    }
}

/// What dropping a type does.
pub open spec fn type_drop(
    c: CatalogView,
    obj: ObjectRef,
    missing_ok: bool,
    cascade: bool,
) -> Step<()> {
    match type_parts(obj) {
        None => (Ok(()), c),
        Some(parts) => {
            let names = listed_names(c, parts);
            match type_at(c, names) {
                None => if missing_ok {
                    (Ok(()), c)
                } else {
                    (Err(DdlErrorView::TypeNotFound(names.0 + "."@ + names.1)), c)
                },
                Some(t) => known_type_drop(c, t, names.1, cascade),
            }
        },
    }
}

fn has_column_of_type(attrs: &Vec<PgAttribute>, t: u32, array: Option<u32>) -> (r: bool)
    ensures
        r == some_column_has_type(attr_views(attrs@), t, array),
{
    let ghost views = attr_views(attrs@);
    let mut i: usize = 0;
    while i < attrs.len()
        invariant
            views == attr_views(attrs@),
            i <= attrs@.len(),
            forall|j: int| 0 <= j < i ==> !#[trigger] column_has_type(views[j], t, array),
        decreases attrs.len() - i,
    {
        if is_of_type(&attrs[i], t, array) {
            proof {
                assert(column_has_type(views[i as int], t, array));
            }
            return true;
        }
        i = i + 1;
    }
    false
}

fn is_of_type(a: &PgAttribute, t: u32, array: Option<u32>) -> (r: bool)
    ensures
        r == column_has_type(a@, t, array),
{
    a.atttypid == t || match array {
        Some(x) => a.atttypid == x,
        None => false,
    }
}

fn find_relations_using(db: &PgCatalog, t: u32, array: Option<u32>) -> (r: Vec<u32>)
    ensures
        r@ == relations_using(db@.pg_attribute, t, array),
{
    let ghost rows = db@.pg_attribute;
    let mut r: Vec<u32> = Vec::new();
    let mut i: usize = 0;
    while i < db.pg_attribute.len()
        invariant
            rows == db@.pg_attribute,
            i <= rows.len(),
            r@ == relations_using(rows.take(i as int), t, array),
        decreases rows.len() - i,
    {
        let row: &RelAttrs = db.pg_attribute.at(i);
        proof {
            assert(rows.take(i + 1).drop_last() =~= rows.take(i as int));
            assert(rows.take(i + 1).last() == rows[i as int]);
        }
        if has_column_of_type(&row.attrs, t, array) {
            r.push(row.relid);
        }
        i = i + 1;
    }
    proof {
        assert(rows.take(i as int) =~= rows);
    }
    r
}

fn keep_other_columns(attrs: Vec<PgAttribute>, t: u32, array: Option<u32>) -> (r: Vec<PgAttribute>)
    ensures
        attr_views(r@) == other_columns(attr_views(attrs@), t, array),
{
    let ghost views = attr_views(attrs@);
    let ghost wanted = |a: PgAttributeView| !column_has_type(a, t, array);
    let mut r: Vec<PgAttribute> = Vec::new();
    let mut i: usize = 0;
    proof {
        reveal(Seq::filter);
        assert(attr_views(r@) =~= views.take(0).filter(wanted));
    }
    while i < attrs.len()
        invariant
            views == attr_views(attrs@),
            wanted == (|a: PgAttributeView| !column_has_type(a, t, array)),
            i <= attrs@.len(),
            attr_views(r@) == views.take(i as int).filter(wanted),
        decreases attrs.len() - i,
    {
        let a: &PgAttribute = &attrs[i];
        proof {
            reveal(Seq::filter);
            assert(views.take(i + 1).drop_last() =~= views.take(i as int));
            assert(views.take(i + 1).last() == a@);
        }
        if !is_of_type(a, t, array) {
            let ghost before = attr_views(r@);
            let kept: PgAttribute = a.copy();
            r.push(kept);
            proof {
                assert(attr_views(r@) =~= before.push(a@));
            }
        }
        i = i + 1;
    }
    proof {
        assert(views.take(i as int) =~= views);
    }
    r
}

fn remove_columns_of_type(db: &mut PgCatalog, relids: &Vec<u32>, t: u32, array: Option<u32>)
    ensures
        final(db)@ == without_columns_of_type(
            old(db)@,
            relids@,
            relids@.len() as int,
            t,
            array,
        ),
{
    let mut i: usize = 0;
    while i < relids.len()
        invariant
            i <= relids@.len(),
            db@ == without_columns_of_type(old(db)@, relids@, i as int, t, array),
        decreases relids.len() - i,
    {
        let attrs: Vec<PgAttribute> = db.attributes_of(relids[i]);
        let kept: Vec<PgAttribute> = keep_other_columns(attrs, t, array);
        db.set_attributes(relids[i], kept);
        i = i + 1;
    }
}

fn type_depended_on_error(name: &str, what: &str, who: &str) -> (r: DdlError)
    ensures
        r@ == type_depended_on(name@, what@, who@),
{
    let head: String = concat3(
        "cannot drop type ",
        name,
        " because other objects depend on it (",
    );
    DdlError::DependencyError(concat5(head.as_str(), what, " ", who, " depend on this type)"))
}

fn drop_type(db: &mut PgCatalog, obj: &ObjectRef, missing_ok: bool, cascade: bool) -> (r: Result<
    (),
    DdlError,
>)
    ensures
        (ddl_outcome(r), final(db)@) == type_drop(old(db)@, *obj, missing_ok, cascade),
{
    let (schema, name): (String, String) = match obj {
        ObjectRef::TypeName(tn) => extract_names(&tn.names, db),
        ObjectRef::List(items) => {
            let parts: Vec<String> = collect_item_texts(items);
            extract_names(&parts, db)
        },
        _ => return Ok(()),
    };
    let t: u32 = match find_type_at(db, schema.as_str(), name.as_str()) {
        Some(oid) => oid,
        None => {
            if missing_ok {
                return Ok(());
            }
            return Err(DdlError::TypeNotFound(concat3(schema.as_str(), ".", name.as_str())));
        },
    };
    let array: Option<u32> = db.array_type_of(t);
    let relids: Vec<u32> = find_relations_using(db, t, array);
    if relids.len() > 0 && !cascade {
        let list: String = format_view_list(db, &relids);
        return Err(type_depended_on_error(name.as_str(), "table(s)", list.as_str()));
    }
    let views: Vec<u32> = find_views_depending_on_type(db, t);
    if views.len() > 0 && !cascade {
        let list: String = format_view_list(db, &views);
        return Err(type_depended_on_error(name.as_str(), "view(s)", list.as_str()));
    }
    remove_columns_of_type(db, &relids, t, array);
    if views.len() > 0 {
        drop_views(db, &views);
    }
    match array {
        Some(a) => {
            let _array: Option<PgType> = db.remove_pg_type(a);
            db.remove_dependencies(PG_TYPE_RELID, a);
        },
        None => {},
    }
    let _row: Option<PgType> = db.remove_pg_type(t);
    db.remove_dependencies(PG_TYPE_RELID, t);
    Ok(())
}

// ── DROP EXTENSION ──────────────────────────────────────────────────────────

/// The objects that belong to an extension: their catalog table and their OID.
pub open spec fn extension_members(deps: Seq<PgDepend>, ext: u32) -> Seq<(u32, u32)>
    decreases deps.len(),
{
    if deps.len() == 0 {
        Seq::empty()
    } else {
        let rest = extension_members(deps.drop_last(), ext);
        let d = deps.last();
        if d.deptype == DepType::Extension && d.refclassid == PG_EXTENSION_RELID && d.refobjid
            == ext {
            rest.push((d.classid, d.objid))
        } else {
            rest
        }
    }
}

/// The catalog without one object of an extension.
pub open spec fn without_member(c: CatalogView, classid: u32, oid: u32) -> CatalogView {
    if classid == PG_TYPE_RELID {
        c.without_type(oid).without_dependencies(PG_TYPE_RELID, oid)
    } else if classid == PG_PROC_RELID {
        c.without_proc(oid).without_dependencies(PG_PROC_RELID, oid)
    } else if classid == PG_CAST_RELID {
        c.without_cast(oid).without_dependencies_of(PG_CAST_RELID, oid)
    } else if classid == PG_OPERATOR_RELID {
        c.without_operator(oid).without_dependencies_of(PG_OPERATOR_RELID, oid)
    } else if classid == PG_CLASS_RELID {
        relation_dropped(c, oid)
    } else {
        c
    }
}

/// The catalog without the first `n` objects of an extension.
pub open spec fn without_members(c: CatalogView, members: Seq<(u32, u32)>, n: int) -> CatalogView
    decreases n,
{
    if n <= 0 {
        c
    } else {
        without_member(
            without_members(c, members, n - 1),
            members[n - 1].0,
            members[n - 1].1,
        )
    }
}

/// What dropping an extension does: what belongs to it goes too.
pub open spec fn extension_drop(c: CatalogView, obj: ObjectRef, missing_ok: bool) -> Step<()> {
    match obj {
        ObjectRef::Text(name) => match map_get(c.extension_by_name, (0, name@)) {
            None => if missing_ok {
                (Ok(()), c)
            } else {
                (
                    Err(
                        DdlErrorView::ExtensionError(
                            "extension \""@ + name@ + "\" does not exist"@,
                        ),
                    ),
                    c,
                )
            },
            Some(ext) => {
                let members = extension_members(c.pg_depend, ext);
                (
                    Ok(()),
                    without_members(c, members, members.len() as int).without_extension(
                        ext,
                    ).without_dependencies(PG_EXTENSION_RELID, ext),
                )
            },
        },
        _ => (Ok(()), c),
    }
}

fn extension_objects(db: &PgCatalog, ext: u32) -> (r: Vec<(u32, u32)>)
    ensures
        r@ == extension_members(db@.pg_depend, ext),
{
    let ghost deps = db@.pg_depend;
    let mut r: Vec<(u32, u32)> = Vec::new();
    let mut i: usize = 0;
    while i < db.pg_depend.len()
        invariant
            deps == db@.pg_depend,
            i <= deps.len(),
            r@ == extension_members(deps.take(i as int), ext),
        decreases deps.len() - i,
    {
        proof {
            assert(deps.take(i + 1).drop_last() =~= deps.take(i as int));
        }
        let d: PgDepend = db.pg_depend[i];
        let member: bool = match d.deptype {
            DepType::Extension => true,
            _ => false,
        };
        if member && d.refclassid == PG_EXTENSION_RELID && d.refobjid == ext {
            r.push((d.classid, d.objid));
        }
        i = i + 1;
    }
    proof {
        assert(deps.take(i as int) =~= deps);
    }
    r
}

fn remove_member(db: &mut PgCatalog, classid: u32, oid: u32)
    ensures
        final(db)@ == without_member(old(db)@, classid, oid),
{
    if classid == PG_TYPE_RELID {
        let _row: Option<PgType> = db.remove_pg_type(oid);
        db.remove_dependencies(PG_TYPE_RELID, oid);
    } else if classid == PG_PROC_RELID {
        let _row: Option<PgProc> = db.remove_pg_proc(oid);
        db.remove_dependencies(PG_PROC_RELID, oid);
    } else if classid == PG_CAST_RELID {
        let _row: Option<PgCast> = db.remove_pg_cast(oid);
        db.remove_dependencies_of(PG_CAST_RELID, oid);
    } else if classid == PG_OPERATOR_RELID {
        let _row: Option<PgOperator> = db.remove_pg_operator(oid);
        db.remove_dependencies_of(PG_OPERATOR_RELID, oid);
    } else if classid == PG_CLASS_RELID {
        drop_relation_by_oid(db, oid);
    }
}

fn drop_extension(db: &mut PgCatalog, obj: &ObjectRef, missing_ok: bool) -> (r: Result<
    (),
    DdlError,
>)
    ensures
        (ddl_outcome(r), final(db)@) == extension_drop(old(db)@, *obj, missing_ok),
{
    let name: &String = match obj {
        ObjectRef::Text(s) => s,
        _ => return Ok(()),
    };
    let ext: u32 = match db.extension_by_name.get(0, name.as_str()) {
        Some(oid) => oid,
        None => {
            if missing_ok {
                return Ok(());
            }
            return Err(
                DdlError::ExtensionError(
                    concat3("extension \"", name.as_str(), "\" does not exist"),
                ),
            );
        },
    };
    let members: Vec<(u32, u32)> = extension_objects(db, ext);
    let mut i: usize = 0;
    while i < members.len()
        invariant
            i <= members@.len(),
            db@ == without_members(old(db)@, members@, i as int),
        decreases members.len() - i,
    {
        remove_member(db, members[i].0, members[i].1);
        i = i + 1;
    }
    let _row: Option<PgExtension> = db.remove_pg_extension(ext);
    db.remove_dependencies(PG_EXTENSION_RELID, ext);
    Ok(())
}

// ── DROP SCHEMA ─────────────────────────────────────────────────────────────

/// Whether a schema holds a relation, a type or a routine.
pub open spec fn has_objects(c: CatalogView, ns: u32) -> bool {
    owned_keys::<PgClass>(c.pg_class, ns).len() > 0 || owned_keys::<PgType>(
        c.pg_type,
        ns,
    ).len() > 0 || owned_keys::<PgProc>(c.pg_proc, ns).len() > 0
}

/// The catalog without the first `n` of these relations.
pub open spec fn without_relations(c: CatalogView, oids: Seq<u32>, n: int) -> CatalogView
    decreases n,
{
    if n <= 0 {
        c
    } else {
        relation_dropped(without_relations(c, oids, n - 1), oids[n - 1])
    }
}

/// The catalog without the first `n` of these types.
pub open spec fn without_types(c: CatalogView, oids: Seq<u32>, n: int) -> CatalogView
    decreases n,
{
    if n <= 0 {
        c
    } else {
        without_types(c, oids, n - 1).without_type(oids[n - 1]).without_dependencies(
            PG_TYPE_RELID,
            oids[n - 1],
        )
    }
}

/// The catalog without the first `n` of these routines.
pub open spec fn without_routines(c: CatalogView, oids: Seq<u32>, n: int) -> CatalogView
    decreases n,
{
    if n <= 0 {
        c
    } else {
        without_routines(c, oids, n - 1).without_proc(oids[n - 1]).without_dependencies(
            PG_PROC_RELID,
            oids[n - 1],
        )
    }
}

/// The catalog without the first `n` of these operators.
pub open spec fn without_operators(c: CatalogView, oids: Seq<u32>, n: int) -> CatalogView
    decreases n,
{
    if n <= 0 {
        c
    } else {
        without_operators(c, oids, n - 1).without_operator(oids[n - 1]).without_dependencies_of(
            PG_OPERATOR_RELID,
            oids[n - 1],
        )
    }
}

/// The catalog without a schema and all that is in it.
pub open spec fn schema_emptied(c: CatalogView, ns: u32) -> CatalogView {
    let classes = owned_keys::<PgClass>(c.pg_class, ns);
    let c1 = without_relations(
        views_dropped(c, classes, Seq::empty()),
        classes,
        classes.len() as int,
    );
    let types = owned_keys::<PgType>(c1.pg_type, ns);
    let c2 = without_types(c1, types, types.len() as int);
    let procs = owned_keys::<PgProc>(c2.pg_proc, ns);
    let c3 = without_routines(c2, procs, procs.len() as int);
    let operators = owned_keys::<PgOperator>(c3.pg_operator, ns);
    without_operators(c3, operators, operators.len() as int)
}

/// Whether a schema is another than this.
pub open spec fn other_than(ns: u32) -> spec_fn(u32) -> bool {
    |s: u32| s != ns
}

/// The catalog whose search path does not hold a schema.
pub open spec fn off_search_path(c: CatalogView, ns: u32) -> CatalogView {
    CatalogView { search_path: c.search_path.filter(other_than(ns)), ..c }
}

/// The catalog without a schema, which leaves the search path too.
pub open spec fn without_schema(c: CatalogView, ns: u32) -> CatalogView {
    off_search_path(c, ns).without_namespace(ns).without_dependencies(PG_NAMESPACE_RELID, ns)
}

/// What dropping a schema does.
pub open spec fn schema_drop(
    c: CatalogView,
    obj: ObjectRef,
    missing_ok: bool,
    cascade: bool,
) -> Step<
    (),
> {
    match obj {
        ObjectRef::Text(name) => match c.namespace_oid(name@) {
            None => if missing_ok {
                (Ok(()), c)
            } else {
                (
                    Err(
                        DdlErrorView::DependencyError(
                            "schema \""@ + name@ + "\" does not exist"@,
                        ),
                    ),
                    c,
                )
            },
            Some(ns) => if has_objects(c, ns) && !cascade {
                (
                    Err(
                        DdlErrorView::DependencyError(
                            "cannot drop schema "@ + name@
                                + " because other objects depend on it"@,
                        ),
                    ),
                    c,
                )
            } else {
                (Ok(()), without_schema(schema_emptied(c, ns), ns))
            },
        },
        _ => (Ok(()), c),
    }
}

fn empty_schema(db: &mut PgCatalog, ns: u32)
    ensures
        final(db)@ == schema_emptied(old(db)@, ns),
{
    let classes: Vec<u32> = db.pg_class.keys_owned(ns);
    drop_views(db, &classes);
    let ghost c0 = db@;
    let mut i: usize = 0;
    while i < classes.len()
        invariant
            i <= classes@.len(),
            db@ == without_relations(c0, classes@, i as int),
        decreases classes.len() - i,
    {
        drop_relation_by_oid(db, classes[i]);
        i = i + 1;
    }
    let types: Vec<u32> = db.pg_type.keys_owned(ns);
    let ghost c1 = db@;
    let mut j: usize = 0;
    while j < types.len()
        invariant
            j <= types@.len(),
            db@ == without_types(c1, types@, j as int),
        decreases types.len() - j,
    {
        let _row: Option<PgType> = db.remove_pg_type(types[j]);
        db.remove_dependencies(PG_TYPE_RELID, types[j]);
        j = j + 1;
    }
    let procs: Vec<u32> = db.pg_proc.keys_owned(ns);
    let ghost c2 = db@;
    let mut k: usize = 0;
    while k < procs.len()
        invariant
            k <= procs@.len(),
            db@ == without_routines(c2, procs@, k as int),
        decreases procs.len() - k,
    {
        let _row: Option<PgProc> = db.remove_pg_proc(procs[k]);
        db.remove_dependencies(PG_PROC_RELID, procs[k]);
        k = k + 1;
    }
    let operators: Vec<u32> = db.pg_operator.keys_owned(ns);
    let ghost c3 = db@;
    let mut l: usize = 0;
    while l < operators.len()
        invariant
            l <= operators@.len(),
            db@ == without_operators(c3, operators@, l as int),
        decreases operators.len() - l,
    {
        let _row: Option<PgOperator> = db.remove_pg_operator(operators[l]);
        db.remove_dependencies_of(PG_OPERATOR_RELID, operators[l]);
        l = l + 1;
    }
}

fn leave_search_path(db: &mut PgCatalog, ns: u32)
    ensures
        final(db)@ == off_search_path(old(db)@, ns),
{
    let ghost wanted = other_than(ns);
    let mut kept: Vec<u32> = Vec::new();
    let mut i: usize = 0;
    proof {
        reveal(Seq::filter);
    }
    while i < db.search_path.len()
        invariant
            *db == *old(db),
            i <= db.search_path@.len(),
            wanted == other_than(ns),
            kept@ == db.search_path@.take(i as int).filter(wanted),
        decreases db.search_path.len() - i,
    {
        proof {
            reveal(Seq::filter);
            assert(db.search_path@.take(i + 1).drop_last() =~= db.search_path@.take(i as int));
        }
        if db.search_path[i] != ns {
            kept.push(db.search_path[i]);
        }
        i = i + 1;
    }
    proof {
        assert(db.search_path@.take(i as int) =~= db.search_path@);
    }
    db.search_path = kept;
}

fn drop_schema(db: &mut PgCatalog, obj: &ObjectRef, missing_ok: bool, cascade: bool) -> (r: Result<
    (),
    DdlError,
>)
    ensures
        (ddl_outcome(r), final(db)@) == schema_drop(old(db)@, *obj, missing_ok, cascade),
{
    let name: &String = match obj {
        ObjectRef::Text(s) => s,
        _ => return Ok(()),
    };
    let ns: u32 = match db.namespace_oid(name.as_str()) {
        Some(oid) => oid,
        None => {
            if missing_ok {
                return Ok(());
            }
            return Err(
                DdlError::DependencyError(
                    concat3("schema \"", name.as_str(), "\" does not exist"),
                ),
            );
        },
    };
    let occupied: bool = db.pg_class.keys_owned(ns).len() > 0 || db.pg_type.keys_owned(ns).len() > 0
        || db.pg_proc.keys_owned(ns).len() > 0;
    if occupied && !cascade {
        return Err(
            DdlError::DependencyError(
                concat3(
                    "cannot drop schema ",
                    name.as_str(),
                    " because other objects depend on it",
                ),
            ),
        );
    }
    empty_schema(db, ns);
    leave_search_path(db, ns);
    let _row: Option<PgNamespace> = db.remove_pg_namespace(ns);
    db.remove_dependencies(PG_NAMESPACE_RELID, ns);
    Ok(())
}

// ── DROP ────────────────────────────────────────────────────────────────────

/// What dropping one object does.
pub open spec fn object_drop(
    c: CatalogView,
    kind: ObjectType,
    obj: ObjectRef,
    missing_ok: bool,
    cascade: bool,
) -> Step<()> {
    match kind {
        ObjectType::Table
        | ObjectType::View
        | ObjectType::Matview
        | ObjectType::Sequence => relation_drop(c, obj, missing_ok, cascade),
        ObjectType::Type | ObjectType::Domain => type_drop(c, obj, missing_ok, cascade),
        ObjectType::Function => function_drop(c, obj, missing_ok, cascade, false),
        ObjectType::Procedure => function_drop(c, obj, missing_ok, cascade, true),
        ObjectType::Extension => extension_drop(c, obj, missing_ok),
        ObjectType::Cast => cast_drop(c, obj, missing_ok),
        ObjectType::Operator => operator_drop(c, obj, missing_ok),
        ObjectType::Aggregate => aggregate_drop(c, obj, missing_ok, cascade),
        ObjectType::Schema => schema_drop(c, obj, missing_ok, cascade),
        ObjectType::Index => index_drop(c, obj, missing_ok),
        _ => (Ok(()), c),
    }
}

/// What dropping the objects of a statement from `i` on does. The first error ends
/// it; what was dropped before stays dropped.
pub open spec fn objects_dropped(c: CatalogView, stmt: DropStmt, i: int) -> Step<()>
    decreases stmt.objects@.len() - i,
{
    if i < 0 || i >= stmt.objects@.len() {
        (Ok(()), c)
    } else {
        match object_drop(
            c,
            stmt.remove_type,
            stmt.objects@[i],
            stmt.missing_ok,
            stmt.cascade,
        ) {
            (Err(e), c1) => (Err(e), c1),
            (Ok(_), c1) => objects_dropped(c1, stmt, i + 1),
        }
    }
}

fn drop_object(
    db: &mut PgCatalog,
    kind: ObjectType,
    obj: &ObjectRef,
    missing_ok: bool,
    cascade: bool,
) -> (r: Result<(), DdlError>)
    ensures
        (ddl_outcome(r), final(db)@) == object_drop(
            old(db)@,
            kind,
            *obj,
            missing_ok,
            cascade,
        ),
{
    match kind {
        ObjectType::Table
        | ObjectType::View
        | ObjectType::Matview
        | ObjectType::Sequence => drop_relation(db, obj, missing_ok, cascade),
        ObjectType::Type | ObjectType::Domain => drop_type(db, obj, missing_ok, cascade),
        ObjectType::Function => drop_function(db, obj, missing_ok, cascade, false),
        ObjectType::Procedure => drop_function(db, obj, missing_ok, cascade, true),
        ObjectType::Extension => drop_extension(db, obj, missing_ok),
        ObjectType::Cast => drop_cast(db, obj, missing_ok),
        ObjectType::Operator => drop_operator(db, obj, missing_ok),
        ObjectType::Aggregate => drop_aggregate(db, obj, missing_ok, cascade),
        ObjectType::Schema => drop_schema(db, obj, missing_ok, cascade),
        ObjectType::Index => drop_index(db, obj, missing_ok),
        _ => Ok(()),
    }
}

/// Applies a `DROP`.
///
/// # Errors
///
/// An object does not exist and `IF EXISTS` is not written, or something depends on
/// it and `CASCADE` is not written.
pub fn drop_objects(db: &mut PgCatalog, stmt: &DropStmt) -> (r: Result<(), DdlError>)
    ensures
        (ddl_outcome(r), final(db)@) == objects_dropped(old(db)@, *stmt, 0),
{
    let mut i: usize = 0;
    while i < stmt.objects.len()
        invariant
            i <= stmt.objects@.len(),
            objects_dropped(old(db)@, *stmt, 0) == objects_dropped(db@, *stmt, i as int),
        decreases stmt.objects.len() - i,
    {
        match drop_object(
            db,
            stmt.remove_type,
            &stmt.objects[i],
            stmt.missing_ok,
            stmt.cascade,
        ) {
            Ok(_) => {},
            Err(e) => return Err(e),
        }
        i = i + 1;
    }
    Ok(())
}

} // verus!
