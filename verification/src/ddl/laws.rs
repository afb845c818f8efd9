//! What statements promise beyond what each of them does.

use super::alter::{with_column_renamed, with_relation_moved, with_types_moved};
use super::alter_column::{
    blockers, children_of, children_stripped, column_added, column_dropped, column_position,
    column_retyped, has_columns, lemma_fewer_holders, lemma_none_left, unblocked, unlike,
    without_column,
};
use super::apply::{scripts_applied, statement_applied};
use super::constraints::{
    makes_key, statement_pendings, with_backed_constraint, with_backed_constraints,
    with_constraint_row, PendingView,
};
use super::dependents::{
    is_view, law_dependent_views_are_listed_once, leads_from, leads_to, has_indexes,
    lemma_push_fresh, not_in, put_sorted, relation_dropped, views_dropped, views_on,
    views_on_column, without_index_relations, without_inheritance,
};
use super::drop::{
    class_at, foreign_keys_to, item_texts, known_relation_drop, relation_drop, type_at,
};
use super::extensions::{membership, memberships, with_members};
use super::functions::{function_created, routine_row, same_arguments, way_made};
use super::indexes::index_created;
use super::rewrite::{column_applied, range_applied};
use super::stmt::{
    AlterDef, AlterEnumStmt, AlterSeqStmt, AlterTableCmd, CreateEnumStmt, CreateFunctionStmt,
    CreateStmt, ExtensionDef, IndexStmt, ObjectRef, Statement,
};
use super::tables::{
    array_type_row, column_row, inherited_row, last_attnum, modifier_of, parent_relation,
    parsed_column, statement_columns, table_created, with_columns, with_inherited_columns,
    with_parent, with_parents, with_relation, ParsedColumnView, MAX_ATTNUM,
};
use super::types::{
    enum_altered, enum_created, label_position, new_label_position, plain_type_row,
    with_array_type, with_enum_labels,
};
use super::util::{ensured_names, ensured_range, listed_names};
use super::views::{
    column_deps, column_refs, node_texts, object_deps, put_column, query_deps, relation_installed,
    relation_refs, view_dep, with_resolved_columns, ResolvedViewView,
};
use crate::ast::{NamePart, RangeVar};
use crate::catalog::{attr_inserted, CatalogView};
use crate::catalog_laws::{law_dropped_row_is_gone, law_put_row_is_found};
use crate::lookup::{find_attnum, find_attribute};
use crate::pg_catalog::{
    AstBinding, EnumLabels, EnumLabelsView, PgAttributeView, PgCast, PgClass, PgClassView, PgDepend,
    PgEnumView, PgIndex, PgIndexView, PgProc, PgType, PgTypeView, RelAttrs, RelAttrsView, RelKind,
    TypCategory, TypType, PG_CAST_RELID, PG_CLASS_RELID, PG_PROC_RELID, PG_TYPE_RELID,
};
use crate::table::{
    distinct_keys, lemma_row_position_meaning, list_get, not_owned, owned_keys, row_keys,
};
use crate::text::texts;
use vstd::prelude::*;

verus! {

// ── What others depend on stays ─────────────────────────────────────────────

/// A relation that a view or a foreign key depends on is not dropped without
/// `CASCADE`, and nothing changes.
pub proof fn law_relation_in_use_stays(c: CatalogView, oid: u32, name: Seq<char>)
    requires
        views_on(c, PG_CLASS_RELID, oid, None).len() > 0 || foreign_keys_to(
            c,
            c.pg_constraint,
            oid,
        ).len() > 0,
    ensures
        known_relation_drop(c, oid, name, false).0 is Err,
        known_relation_drop(c, oid, name, false).1 == c,
{
}

/// A column that a view or a constraint depends on is not dropped without `CASCADE`,
/// and nothing changes.
pub proof fn law_column_in_use_stays(
    c: CatalogView,
    relid: u32,
    cmd: AlterTableCmd,
    a: PgAttributeView,
)
    requires
        !cmd.cascade,
        find_attribute(c.attributes_of(relid), cmd.name@) == Some(a),
        views_on_column(c, relid, cmd.name@).len() > 0 || blockers(c, relid, a.attnum).len() > 0,
    ensures
        column_dropped(c, relid, cmd).0 is Err,
        column_dropped(c, relid, cmd).1 == c,
{
}

/// The type of a column that a view depends on does not change without `CASCADE`, and
/// then nothing changes at all.
pub proof fn law_type_of_column_in_use_stays(c: CatalogView, relid: u32, cmd: AlterTableCmd)
    requires
        cmd.def is Column,
        find_attribute(c.attributes_of(relid), cmd.name@) is Some,
        views_on_column(c, relid, cmd.name@).len() > 0,
        !cmd.cascade,
    ensures
        column_retyped(c, relid, cmd).0 is Err,
        modifier_of(cmd.def->Column_0.target) is Ok ==> column_retyped(
            c,
            relid,
            cmd,
        ).0->Err_0 is DependencyError,
        column_retyped(c, relid, cmd).1 == c,
{
}

// ── Columns ─────────────────────────────────────────────────────────────────

proof fn lemma_stripping_keeps_absence(
    c: CatalogView,
    pending: Seq<u32>,
    name: Seq<char>,
    relid: u32,
)
    requires
        find_attribute(c.attributes_of(relid), name) is None,
    ensures
        find_attribute(children_stripped(c, pending, name).attributes_of(relid), name) is None,
    decreases super::alter_column::holders(c.pg_attribute, name), pending.len(),
{
    if pending.len() > 0 {
        let child = pending[0];
        let rest = pending.skip(1);
        if find_attribute(c.attributes_of(child), name) is Some {
            let c1 = without_column(c, child, name);
            lemma_fewer_holders(c, child, name);
            law_put_row_is_found::<RelAttrs>(
                c.pg_attribute,
                RelAttrsView {
                    relid: child,
                    attrs: c.attributes_of(child).filter(unlike(name)),
                },
                relid,
            );
            lemma_stripping_keeps_absence(
                c1,
                children_of(c1.pg_inherits, child) + rest,
                name,
                relid,
            );
        } else {
            lemma_stripping_keeps_absence(c, rest, name, relid);
        }
    }
}

/// A column that was dropped is no longer found in its relation.
pub proof fn law_dropped_column_is_gone(c: CatalogView, relid: u32, cmd: AlterTableCmd)
    requires
        column_dropped(c, relid, cmd).0 is Ok,
    ensures
        find_attribute(
            column_dropped(c, relid, cmd).1.attributes_of(relid),
            cmd.name@,
        ) is None,
{
    let name = cmd.name@;
    match find_attribute(c.attributes_of(relid), name) {
        None => {},
        Some(a) => {
            let views = views_on_column(c, relid, name);
            let c1 = unblocked(c, relid, a.attnum);
            let c2 = if views.len() > 0 {
                views_dropped(c1, views, Seq::empty())
            } else {
                c1
            };
            let c3 = without_column(c2, relid, name);
            if has_columns(c2, relid) {
                lemma_none_left(c2.attributes_of(relid), name);
                law_put_row_is_found::<RelAttrs>(
                    c2.pg_attribute,
                    RelAttrsView {
                        relid,
                        attrs: c2.attributes_of(relid).filter(unlike(name)),
                    },
                    relid,
                );
            }
            lemma_stripping_keeps_absence(
                c3,
                children_of(c3.pg_inherits, relid),
                name,
                relid,
            );
        },
    }
}

pub proof fn lemma_last_attnum(attrs: Seq<PgAttributeView>)
    ensures
        forall|i: int| 0 <= i < attrs.len() ==> (#[trigger] attrs[i]).attnum <= last_attnum(attrs),
    decreases attrs.len(),
{
    if attrs.len() > 0 {
        let front = attrs.drop_last();
        lemma_last_attnum(front);
        assert forall|i: int| 0 <= i < attrs.len() implies (#[trigger] attrs[i]).attnum
            <= last_attnum(attrs) by {
            if i < front.len() {
                assert(front[i].attnum <= last_attnum(front));
            }
        }
    }
}

proof fn lemma_found_behind(attrs: Seq<PgAttributeView>, a: PgAttributeView)
    requires
        find_attribute(attrs, a.attname) is None,
    ensures
        find_attribute(attrs.push(a), a.attname) == Some(a),
    decreases attrs.len(),
{
    if attrs.len() > 0 {
        assert(attrs.push(a).drop_first() =~= attrs.drop_first().push(a));
        lemma_found_behind(attrs.drop_first(), a);
    } else {
        assert(attrs.push(a)[0] == a);
    }
}

/// A column that was added is found by its name, with a number behind those of the
/// others.
pub proof fn law_added_column_is_found(
    c: CatalogView,
    relid: u32,
    cmd: AlterTableCmd,
) -> (a: PgAttributeView)
    requires
        column_added(c, relid, cmd).0 is Ok,
        cmd.def matches AlterDef::Column(cd) && find_attribute(
            c.attributes_of(relid),
            cd.colname@,
        ) is None,
    ensures
        cmd.def matches AlterDef::Column(cd) && find_attribute(
            column_added(c, relid, cmd).1.attributes_of(relid),
            cd.colname@,
        ) == Some(a),
        a.attrelid == relid,
        forall|i: int|
            0 <= i < c.attributes_of(relid).len() ==> (#[trigger] c.attributes_of(relid)[i]).attnum
                < a.attnum,
{
    let cd = cmd.def->Column_0;
    let attrs = c.attributes_of(relid);
    let p = parsed_column(c, cd, Seq::empty())->Ok_0;
    let last = last_attnum(attrs);
    let a = column_row(relid, p, (last + 1) as i16);
    lemma_last_attnum(attrs);
    if attrs.len() > 0 {
        assert(attrs[attrs.len() - 1].attnum <= last);
    }
    assert(attr_inserted(attrs, a) == attrs.push(a));
    lemma_found_behind(attrs, a);
    law_put_row_is_found::<RelAttrs>(
        c.pg_attribute,
        RelAttrsView { relid, attrs: attrs.push(a) },
        relid,
    );
    a
}

// ── Statements that change little ───────────────────────────────────────────

/// An index changes no relation, column, type, function or operator: it leaves at
/// most a constraint behind.
pub proof fn law_index_changes_no_types(c: CatalogView, stmt: IndexStmt)
    ensures
        index_created(c, stmt).1 == (CatalogView {
            pg_constraint: index_created(c, stmt).1.pg_constraint,
            next_oid: index_created(c, stmt).1.next_oid,
            ..c
        }),
{
}

/// The options of a sequence change nothing.
pub proof fn law_sequence_options_change_nothing(c: CatalogView, stmt: AlterSeqStmt)
    ensures
        statement_applied(c, Statement::AlterSeq(stmt)).1 == c,
{
}

/// Dropping a relation that is missing changes nothing; it is an error unless
/// `IF EXISTS` is written.
pub proof fn law_missing_relation_is_skipped(c: CatalogView, obj: ObjectRef, cascade: bool)
    requires
        obj matches ObjectRef::List(items) && class_at(
            c,
            listed_names(c, item_texts(items@)),
        ) is None,
    ensures
        relation_drop(c, obj, true, cascade).0 is Ok,
        relation_drop(c, obj, true, cascade).1 == c,
        relation_drop(c, obj, false, cascade).0 is Err,
        relation_drop(c, obj, false, cascade).1 == c,
{
}

/// The scripts of an extension leave the search path as it was.
pub proof fn law_scripts_restore_the_search_path(
    c: CatalogView,
    ext: ExtensionDef,
    schema: Seq<char>,
    path: Seq<int>,
)
    ensures
        scripts_applied(c, ext, schema, path).1.search_path == c.search_path,
{
}

// ── What belongs to an extension ────────────────────────────────────────────

proof fn lemma_memberships(
    ext: u32,
    classid: u32,
    before: Seq<u32>,
    now: Seq<u32>,
    n: int,
    oid: u32,
)
    requires
        0 <= n <= now.len(),
        now.take(n).contains(oid),
        !before.contains(oid),
    ensures
        memberships(ext, classid, before, now, n).contains(membership(ext, classid, oid)),
    decreases n,
{
    let all = memberships(ext, classid, before, now, n);
    let rest = memberships(ext, classid, before, now, n - 1);
    let k = choose|k: int| 0 <= k < n && now.take(n)[k] == oid;
    if k == n - 1 {
        assert(all[all.len() - 1] == membership(ext, classid, oid));
    } else {
        assert(now.take(n - 1)[k] == oid);
        assert(now.take(n - 1).contains(oid));
        lemma_memberships(ext, classid, before, now, n - 1, oid);
        let m = choose|m: int| 0 <= m < rest.len() && rest[m] == membership(ext, classid, oid);
        assert(all[m] == rest[m]);
    }
}

/// Every type, function and cast that an extension brings is recorded as belonging to
/// it.
pub proof fn law_new_objects_belong_to_the_extension(
    c: CatalogView,
    ext: u32,
    before: CatalogView,
    oid: u32,
)
    ensures
        row_keys::<PgType>(c.pg_type).contains(oid) && !row_keys::<PgType>(
            before.pg_type,
        ).contains(oid) ==> with_members(c, ext, before).pg_depend.contains(
            membership(ext, PG_TYPE_RELID, oid),
        ),
        row_keys::<PgProc>(c.pg_proc).contains(oid) && !row_keys::<PgProc>(
            before.pg_proc,
        ).contains(oid) ==> with_members(c, ext, before).pg_depend.contains(
            membership(ext, PG_PROC_RELID, oid),
        ),
        row_keys::<PgCast>(c.pg_cast).contains(oid) && !row_keys::<PgCast>(
            before.pg_cast,
        ).contains(oid) ==> with_members(c, ext, before).pg_depend.contains(
            membership(ext, PG_CAST_RELID, oid),
        ),
{
    let types = row_keys::<PgType>(c.pg_type);
    let procs = row_keys::<PgProc>(c.pg_proc);
    let casts = row_keys::<PgCast>(c.pg_cast);
    let a = c.pg_depend;
    let t = memberships(
        ext,
        PG_TYPE_RELID,
        row_keys::<PgType>(before.pg_type),
        types,
        types.len() as int,
    );
    let p = memberships(
        ext,
        PG_PROC_RELID,
        row_keys::<PgProc>(before.pg_proc),
        procs,
        procs.len() as int,
    );
    let k = memberships(
        ext,
        PG_CAST_RELID,
        row_keys::<PgCast>(before.pg_cast),
        casts,
        casts.len() as int,
    );
    let all = with_members(c, ext, before).pg_depend;
    assert(all == a + t + p + k);
    if types.contains(oid) && !row_keys::<PgType>(before.pg_type).contains(oid) {
        assert(types.take(types.len() as int) =~= types);
        lemma_memberships(
            ext,
            PG_TYPE_RELID,
            row_keys::<PgType>(before.pg_type),
            types,
            types.len() as int,
            oid,
        );
        let m = choose|m: int| 0 <= m < t.len() && t[m] == membership(ext, PG_TYPE_RELID, oid);
        assert(all[a.len() + m] == t[m]);
    }
    if procs.contains(oid) && !row_keys::<PgProc>(before.pg_proc).contains(oid) {
        assert(procs.take(procs.len() as int) =~= procs);
        lemma_memberships(
            ext,
            PG_PROC_RELID,
            row_keys::<PgProc>(before.pg_proc),
            procs,
            procs.len() as int,
            oid,
        );
        let m = choose|m: int| 0 <= m < p.len() && p[m] == membership(ext, PG_PROC_RELID, oid);
        assert(all[a.len() + t.len() + m] == p[m]);
    }
    if casts.contains(oid) && !row_keys::<PgCast>(before.pg_cast).contains(oid) {
        assert(casts.take(casts.len() as int) =~= casts);
        lemma_memberships(
            ext,
            PG_CAST_RELID,
            row_keys::<PgCast>(before.pg_cast),
            casts,
            casts.len() as int,
            oid,
        );
        let m = choose|m: int| 0 <= m < k.len() && k[m] == membership(ext, PG_CAST_RELID, oid);
        assert(all[a.len() + t.len() + p.len() + m] == k[m]);
    }
}

// ── Array types ─────────────────────────────────────────────────────────────

/// A type and the array type over it know each other.
pub proof fn law_array_type_is_linked(c: CatalogView, ns: u32, name: Seq<char>, element: u32)
    requires
        c.next_oid < u32::MAX,
        element != c.next_oid,
        c.get_type(element) is Some,
    ensures
        ({
            let (r, after) = with_array_type(c, ns, name, element);
            &&& r == Ok::<u32, super::DdlErrorView>(c.next_oid)
            &&& after.get_type(element) == Some(
                PgTypeView { typarray: Some(c.next_oid), ..c.get_type(element)->Some_0 },
            )
            &&& after.get_type(c.next_oid) == Some(
                array_type_row(c.next_oid, name, ns, element),
            )
            &&& after.type_named(ns, "_"@ + name) == Some(c.next_oid)
        }),
{
    let array = c.next_oid;
    let row = array_type_row(array, name, ns, element);
    let c1 = c.allocated().1.with_type(row);
    law_put_row_is_found::<PgType>(c.pg_type, row, element);
    law_put_row_is_found::<PgType>(c.pg_type, row, array);
    lemma_row_position_meaning::<PgType>(c.pg_type, element);
    let linked = PgTypeView { typarray: Some(array), ..c.get_type(element)->Some_0 };
    law_put_row_is_found::<PgType>(c1.pg_type, linked, element);
    law_put_row_is_found::<PgType>(c1.pg_type, linked, array);
}

// ── Renamed objects and the views on them ───────────────────────────────────

/// Renaming or moving a relation leaves columns, constraints, indexes, rules and
/// dependencies as they are: all of these name it by its OID.
pub proof fn law_moved_relation_keeps_the_rest(
    c: CatalogView,
    relid: u32,
    ns: u32,
    name: Seq<char>,
    new_name: Seq<char>,
    new_ns: u32,
)
    ensures
        ({
            let after = with_relation_moved(c, relid, ns, name, new_name, new_ns);
            after == (CatalogView {
                pg_class: after.pg_class,
                class_by_qname: after.class_by_qname,
                pg_type: after.pg_type,
                type_by_qname: after.type_by_qname,
                ..c
            })
        }),
{
}

/// A relation that was renamed or moved is known by its new name and schema under the
/// OID that it had.
pub proof fn law_moved_relation_has_its_new_name(
    c: CatalogView,
    relid: u32,
    ns: u32,
    name: Seq<char>,
    new_name: Seq<char>,
    new_ns: u32,
)
    requires
        c.get_class(relid) is Some,
    ensures
        ({
            let after = with_relation_moved(c, relid, ns, name, new_name, new_ns);
            &&& after.get_class(relid) == Some(
                PgClassView {
                    relname: new_name,
                    relnamespace: new_ns,
                    ..c.get_class(relid)->Some_0
                },
            )
            &&& after.class_named(new_ns, new_name) == Some(relid)
        }),
{
    let row = PgClassView {
        relname: new_name,
        relnamespace: new_ns,
        ..c.get_class(relid)->Some_0
    };
    lemma_row_position_meaning::<PgClass>(c.pg_class, relid);
    law_put_row_is_found::<PgClass>(c.pg_class, row, relid);
    let c1 = c.with_class_renamed(relid, new_name, new_ns);
    assert(with_types_moved(c1, ns, name, new_name, new_ns).pg_class == c1.pg_class);
    assert(with_types_moved(c1, ns, name, new_name, new_ns).class_by_qname == c1.class_by_qname);
}

/// A stored query that reads a relation reads it by its new name after the relation
/// was renamed or moved; a schema that was written becomes the new one.
pub proof fn law_query_follows_moved_relation(
    c: CatalogView,
    relid: u32,
    ns: u32,
    name: Seq<char>,
    new_name: Seq<char>,
    new_ns: u32,
    schema: Seq<char>,
    before: RangeVar,
    after: RangeVar,
)
    requires
        c.get_class(relid) is Some,
        c.namespace_name(new_ns) == Some(schema),
        range_applied(
            before,
            after,
            AstBinding::Relation(relid),
            with_relation_moved(c, relid, ns, name, new_name, new_ns),
        ),
    ensures
        after.relname@ == new_name,
        before.schemaname@.len() > 0 ==> after.schemaname@ == schema,
        before.schemaname@.len() == 0 ==> after.schemaname@ == before.schemaname@,
        after.alias == before.alias,
{
    law_moved_relation_has_its_new_name(c, relid, ns, name, new_name, new_ns);
    law_moved_relation_keeps_the_rest(c, relid, ns, name, new_name, new_ns);
}

proof fn lemma_column_position(attrs: Seq<PgAttributeView>, name: Seq<char>)
    ensures
        0 <= column_position(attrs, name) <= attrs.len(),
        column_position(attrs, name) < attrs.len() ==> attrs[column_position(attrs, name)].attname
            == name,
    decreases attrs.len(),
{
    if attrs.len() > 0 && attrs[0].attname != name {
        lemma_column_position(attrs.drop_first(), name);
    }
}

proof fn lemma_numbered_column(attrs: Seq<PgAttributeView>, i: int, new_name: Seq<char>)
    requires
        0 <= i < attrs.len(),
        find_attnum(attrs, attrs[i].attnum) == Some(attrs[i]),
        forall|j: int| 0 <= j < i ==> (#[trigger] attrs[j]).attnum != attrs[i].attnum,
    ensures
        find_attnum(
            attrs.update(i, PgAttributeView { attname: new_name, ..attrs[i] }),
            attrs[i].attnum,
        ) == Some(PgAttributeView { attname: new_name, ..attrs[i] }),
    decreases attrs.len(),
{
    let renamed = attrs.update(i, PgAttributeView { attname: new_name, ..attrs[i] });
    if i > 0 {
        assert(attrs[0].attnum != attrs[i].attnum);
        assert(renamed.drop_first() =~= attrs.drop_first().update(
            i - 1,
            PgAttributeView { attname: new_name, ..attrs[i] },
        ));
        assert forall|j: int| 0 <= j < i - 1 implies (#[trigger] attrs.drop_first()[j]).attnum
            != attrs[i].attnum by {
            assert(attrs.drop_first()[j] == attrs[j + 1]);
        }
        lemma_numbered_column(attrs.drop_first(), i - 1, new_name);
    }
}

/// A stored query that reads a column reads it by its new name after the column was
/// renamed.
pub proof fn law_query_follows_renamed_column(
    c: CatalogView,
    relid: u32,
    name: Seq<char>,
    new_name: Seq<char>,
    before: Seq<NamePart>,
    after: Seq<NamePart>,
)
    requires
        c.get_class(relid) is Some,
        column_position(c.attributes_of(relid), name) < c.attributes_of(relid).len(),
        forall|j: int, k: int|
            0 <= j < k < c.attributes_of(relid).len() ==> (
            #[trigger] c.attributes_of(relid)[j]).attnum != (
            #[trigger] c.attributes_of(relid)[k]).attnum,
        before.len() == 1,
        before[0] is Name,
        column_applied(
            before,
            after,
            AstBinding::Column(
                relid,
                c.attributes_of(relid)[column_position(c.attributes_of(relid), name)].attnum,
            ),
            with_column_renamed(c, relid, name, new_name),
        ),
    ensures
        after.len() == 1,
        after[0] matches NamePart::Name(s) && s@ == new_name,
{
    let attrs = c.attributes_of(relid);
    let i = column_position(attrs, name);
    lemma_column_position(attrs, name);
    let renamed = attrs.update(i, PgAttributeView { attname: new_name, ..attrs[i] });
    lemma_first_numbered(attrs, i);
    lemma_numbered_column(attrs, i, new_name);
    law_put_row_is_found::<RelAttrs>(
        c.pg_attribute,
        RelAttrsView { relid, attrs: renamed },
        relid,
    );
}

proof fn lemma_first_numbered(attrs: Seq<PgAttributeView>, i: int)
    requires
        0 <= i < attrs.len(),
        forall|j: int, k: int|
            0 <= j < k < attrs.len() ==> (#[trigger] attrs[j]).attnum != (
            #[trigger] attrs[k]).attnum,
    ensures
        find_attnum(attrs, attrs[i].attnum) == Some(attrs[i]),
    decreases attrs.len(),
{
    if i > 0 {
        assert(attrs[0].attnum != attrs[i].attnum);
        let rest = attrs.drop_first();
        assert forall|j: int, k: int| 0 <= j < k < rest.len() implies (#[trigger] rest[j]).attnum
            != (#[trigger] rest[k]).attnum by {
            assert(attrs[j + 1].attnum != attrs[k + 1].attnum);
        }
        lemma_first_numbered(rest, i - 1);
    }
}

// ── Relations go ────────────────────────────────────────────────────────────

proof fn lemma_class_stays_absent(c: CatalogView, dropped: u32, oid: u32)
    requires
        distinct_keys::<PgClass>(c.pg_class),
    ensures
        distinct_keys::<PgClass>(c.without_class(dropped).pg_class),
        c.without_class(dropped).get_class(oid) == (if oid == dropped {
            None
        } else {
            c.get_class(oid)
        }),
{
    if c.get_class(dropped) is Some {
        law_dropped_row_is_gone::<PgClass>(c.pg_class, dropped, oid);
        crate::table::lemma_drop_keeps_distinct::<PgClass>(c.pg_class, dropped);
    }
}

proof fn lemma_index_relations_go(c: CatalogView, oids: Seq<u32>, n: int, oid: u32)
    requires
        distinct_keys::<PgClass>(c.pg_class),
        0 <= n <= oids.len(),
    ensures
        distinct_keys::<PgClass>(without_index_relations(c, oids, n).pg_class),
        without_index_relations(c, oids, n).get_class(oid) == (if oids.take(n).contains(oid) {
            None
        } else {
            c.get_class(oid)
        }),
    decreases n,
{
    if n > 0 {
        lemma_index_relations_go(c, oids, n - 1, oid);
        lemma_class_stays_absent(without_index_relations(c, oids, n - 1), oids[n - 1], oid);
        let all = oids.take(n);
        let front = oids.take(n - 1);
        if front.contains(oid) {
            let k = choose|k: int| 0 <= k < front.len() && front[k] == oid;
            assert(all[k] == oid);
        }
        if oids[n - 1] == oid {
            assert(all[n - 1] == oid);
        }
        if all.contains(oid) && oids[n - 1] != oid {
            let k = choose|k: int| 0 <= k < all.len() && all[k] == oid;
            assert(front[k] == oid);
        }
    } else {
        assert(oids.take(0) =~= Seq::empty());
    }
}

/// The OIDs of the indexes of a relation.
pub open spec fn index_oids(c: CatalogView, relid: u32) -> Seq<u32> {
    owned_keys::<PgIndex>(c.pg_index, relid)
}

/// A relation that was dropped is gone, and its indexes with it; every other relation
/// is there as before.
pub proof fn law_dropped_relation_is_gone(c: CatalogView, relid: u32, oid: u32)
    requires
        distinct_keys::<PgClass>(c.pg_class),
    ensures
        distinct_keys::<PgClass>(relation_dropped(c, relid).pg_class),
        relation_dropped(c, relid).get_class(relid) is None,
        relation_dropped(c, relid).get_class(oid) is Some ==> relation_dropped(c, relid).get_class(
            oid,
        ) == c.get_class(oid),
        oid != relid && !index_oids(c, relid).contains(oid) ==> relation_dropped(
            c,
            relid,
        ).get_class(oid) == c.get_class(oid),
{
    if c.get_class(relid) is Some {
        let k = c.get_class(relid)->Some_0;
        lemma_class_stays_absent(c, relid, oid);
        lemma_class_stays_absent(c, relid, relid);
        let c1 = without_inheritance(
            c.without_class(relid).without_dependencies(
                PG_CLASS_RELID,
                relid,
            ).without_constraints_of(relid).without_rewrites_of(relid),
            relid,
        );
        assert(c1.pg_class == c.without_class(relid).pg_class);
        assert(c1.pg_index == c.pg_index);
        if has_indexes(k.relkind) {
            let oids = owned_keys::<PgIndex>(c1.pg_index, relid);
            let c2 = c1.without_indexes_of(relid);
            assert(oids.take(oids.len() as int) =~= oids);
            lemma_index_relations_go(c2, oids, oids.len() as int, oid);
            lemma_index_relations_go(c2, oids, oids.len() as int, relid);
        }
    }
}

// ── Views record what they read ─────────────────────────────────────────────

proof fn lemma_put_column(s: Seq<(u32, i16)>, x: (u32, i16), y: (u32, i16))
    ensures
        put_column(s, x).contains(x),
        s.contains(y) ==> put_column(s, x).contains(y),
    decreases s.len(),
{
    let r = put_column(s, x);
    if s.len() == 0 || super::views::column_before(s.last(), x) {
        assert(r[s.len() as int] == x);
        if s.contains(y) {
            let k = s.index_of(y);
            assert(r[k] == y);
        }
    } else if s.last() == x {
        assert(r[s.len() - 1] == x);
    } else {
        let p = put_column(s.drop_last(), x);
        lemma_put_column(s.drop_last(), x, y);
        let k = p.index_of(x);
        assert(r[k] == x);
        if s.contains(y) {
            let m = s.index_of(y);
            if m < s.len() - 1 {
                assert(s.drop_last()[m] == y);
                let n = p.index_of(y);
                assert(r[n] == y);
            } else {
                assert(r[p.len() as int] == y);
            }
        }
    }
}

proof fn lemma_column_refs(bs: Seq<AstBinding>, k: int, relid: u32, attnum: i16)
    requires
        0 <= k < bs.len(),
        bs[k] == AstBinding::Column(relid, attnum),
    ensures
        column_refs(bs).contains((relid, attnum)),
    decreases bs.len(),
{
    let front = bs.drop_last();
    match bs.last() {
        AstBinding::Column(r, n) => {
            lemma_put_column(column_refs(front), (r, n), (relid, attnum));
        },
        _ => {},
    }
    if k < bs.len() - 1 {
        assert(front[k] == bs[k]);
        lemma_column_refs(front, k, relid, attnum);
    }
}

proof fn lemma_put_number(s: Seq<u32>, x: u32, y: u32)
    ensures
        put_sorted(s, x).contains(x),
        s.contains(y) ==> put_sorted(s, x).contains(y),
    decreases s.len(),
{
    let r = put_sorted(s, x);
    if s.len() == 0 || s.last() < x {
        assert(r[s.len() as int] == x);
        if s.contains(y) {
            let k = s.index_of(y);
            assert(r[k] == y);
        }
    } else if s.last() == x {
        assert(r[s.len() - 1] == x);
    } else {
        let p = put_sorted(s.drop_last(), x);
        lemma_put_number(s.drop_last(), x, y);
        let k = p.index_of(x);
        assert(r[k] == x);
        if s.contains(y) {
            let m = s.index_of(y);
            if m < s.len() - 1 {
                assert(s.drop_last()[m] == y);
                let n = p.index_of(y);
                assert(r[n] == y);
            } else {
                assert(r[p.len() as int] == y);
            }
        }
    }
}

proof fn lemma_relation_refs(bs: Seq<AstBinding>, k: int, relid: u32)
    requires
        0 <= k < bs.len(),
        bs[k] == AstBinding::Relation(relid),
    ensures
        relation_refs(bs).contains(relid),
    decreases bs.len(),
{
    let front = bs.drop_last();
    match bs.last() {
        AstBinding::Relation(r) => {
            lemma_put_number(relation_refs(front), r, relid);
        },
        _ => {},
    }
    if k < bs.len() - 1 {
        assert(front[k] == bs[k]);
        lemma_relation_refs(front, k, relid);
    }
}

proof fn lemma_resolved_columns_only(
    c: CatalogView,
    relid: u32,
    columns: Seq<super::views::ResolvedColumnView>,
    n: int,
)
    ensures
        ({
            let r = with_resolved_columns(c, relid, columns, n);
            r == (CatalogView { pg_attribute: r.pg_attribute, ..c })
        }),
    decreases n,
{
    if n > 0 {
        lemma_resolved_columns_only(c, relid, columns, n - 1);
    }
}

/// A view that was made depends on every column and every relation that its query was
/// found to read: it is among the views that depend on them.
pub proof fn law_new_view_depends_on_what_it_reads(
    c: CatalogView,
    ns: u32,
    name: Seq<char>,
    kind: RelKind,
    resolved: ResolvedViewView,
    k: int,
)
    requires
        kind == RelKind::View || kind == RelKind::MaterializedView,
        relation_installed(c, ns, name, kind, Some(resolved)).0 is Ok,
        0 <= k < resolved.body.bindings.len(),
    ensures
        resolved.body.bindings[k] matches AstBinding::Column(t, n) ==> views_on(
            relation_installed(c, ns, name, kind, Some(resolved)).1,
            PG_CLASS_RELID,
            t,
            Some(n),
        ).contains(c.next_oid),
        resolved.body.bindings[k] matches AstBinding::Relation(t) ==> views_on(
            relation_installed(c, ns, name, kind, Some(resolved)).1,
            PG_CLASS_RELID,
            t,
            None,
        ).contains(c.next_oid),
{
    let relid = c.next_oid;
    let after = relation_installed(c, ns, name, kind, Some(resolved)).1;
    let c3 = c.allocated().1.allocated().1.allocated().1;
    let row = PgClassView {
        oid: relid,
        relname: name,
        relnamespace: ns,
        relkind: kind,
        reltype: Some(c.allocated().1.next_oid),
    };
    let c4 = c3.with_class(row);
    lemma_resolved_columns_only(c4, relid, resolved.columns, resolved.columns.len() as int);
    assert(after.pg_class == c4.pg_class);
    law_put_row_is_found::<PgClass>(c.pg_class, row, relid);
    assert(is_view(after, relid));
    let bs = resolved.body.bindings;
    let deps = after.pg_depend;
    let columns = column_deps(relid, column_refs(bs));
    let relations = object_deps(relid, PG_CLASS_RELID, relation_refs(bs));
    assert(deps == c.pg_depend + query_deps(relid, bs));
    match bs[k] {
        AstBinding::Column(t, n) => {
            lemma_column_refs(bs, k, t, n);
            let i = column_refs(bs).index_of((t, n));
            let at = c.pg_depend.len() + i;
            assert(columns[i] == view_dep(relid, PG_CLASS_RELID, t, n));
            assert(deps[at] == columns[i]);
            assert(leads_to(deps[at], PG_CLASS_RELID, t, Some(n)));
            assert(leads_from(deps, relid, PG_CLASS_RELID, t, Some(n)));
            law_dependent_views_are_listed_once(after, PG_CLASS_RELID, t, Some(n));
        },
        AstBinding::Relation(t) => {
            lemma_relation_refs(bs, k, t);
            let i = relation_refs(bs).index_of(t);
            let at = c.pg_depend.len() + columns.len() + i;
            assert(relations[i] == view_dep(relid, PG_CLASS_RELID, t, 0));
            assert(deps[at] == relations[i]);
            assert(leads_to(deps[at], PG_CLASS_RELID, t, None));
            assert(leads_from(deps, relid, PG_CLASS_RELID, t, None));
            law_dependent_views_are_listed_once(after, PG_CLASS_RELID, t, None);
        },
        _ => {},
    }
}

// ── Views go with what they read ────────────────────────────────────────────

proof fn lemma_filter_keeps<A>(s: Seq<A>, wanted: spec_fn(A) -> bool, x: A)
    requires
        s.contains(x),
        wanted(x),
    ensures
        s.filter(wanted).contains(x),
    decreases s.len(),
{
    reveal(Seq::filter);
    let front = s.drop_last();
    let k = choose|k: int| 0 <= k < s.len() && s[k] == x;
    if k == s.len() - 1 {
        let r = s.filter(wanted);
        assert(r[r.len() - 1] == x);
    } else {
        assert(front[k] == x);
        lemma_filter_keeps(front, wanted, x);
        let f = front.filter(wanted);
        let m = f.index_of(x);
        assert(s.filter(wanted)[m] == x);
    }
}

proof fn lemma_dependency_kept(c: CatalogView, oid: u32, d: PgDepend)
    requires
        c.pg_depend.contains(d),
        !(d.classid == PG_CLASS_RELID && d.objid == oid),
        !(d.refclassid == PG_CLASS_RELID && d.refobjid == oid),
    ensures
        c.without_dependencies(PG_CLASS_RELID, oid).pg_depend.contains(d),
{
    let of = |e: PgDepend| !(e.classid == PG_CLASS_RELID && e.objid == oid);
    let on = |e: PgDepend| !(e.refclassid == PG_CLASS_RELID && e.refobjid == oid);
    lemma_filter_keeps(c.pg_depend, of, d);
    let c1 = c.without_dependencies_of(PG_CLASS_RELID, oid);
    assert(c1.pg_depend == c.pg_depend.filter(of));
    lemma_filter_keeps(c1.pg_depend, on, d);
    assert(c.without_dependencies(PG_CLASS_RELID, oid).pg_depend == c1.pg_depend.filter(on));
}

proof fn lemma_dependency_outlives_indexes(c: CatalogView, oids: Seq<u32>, n: int, d: PgDepend)
    requires
        0 <= n <= oids.len(),
        c.pg_depend.contains(d),
        !oids.contains(d.objid),
        !oids.contains(d.refobjid),
    ensures
        without_index_relations(c, oids, n).pg_depend.contains(d),
    decreases n,
{
    if n > 0 {
        lemma_dependency_outlives_indexes(c, oids, n - 1, d);
        let c1 = without_index_relations(c, oids, n - 1).without_class(oids[n - 1]);
        assert(oids.contains(oids[n - 1]));
        lemma_dependency_kept(c1, oids[n - 1], d);
    }
}

/// Whether no index is a view.
pub open spec fn indexes_are_no_views(c: CatalogView) -> bool {
    forall|relid: u32, oid: u32|
        #[trigger] index_oids(c, relid).contains(oid) ==> !is_view(c, oid)
}

proof fn lemma_owned_keys_kept(rows: Seq<PgIndexView>, dropped: u32, relid: u32, oid: u32)
    requires
        owned_keys::<PgIndex>(not_owned::<PgIndex>(rows, dropped), relid).contains(oid),
    ensures
        owned_keys::<PgIndex>(rows, relid).contains(oid),
    decreases rows.len(),
{
    reveal(Seq::filter);
    if rows.len() > 0 {
        let front = rows.drop_last();
        let kept = not_owned::<PgIndex>(rows, dropped);
        let kept_front = not_owned::<PgIndex>(front, dropped);
        let all = owned_keys::<PgIndex>(rows, relid);
        let part = owned_keys::<PgIndex>(front, relid);
        if kept == kept_front {
            lemma_owned_keys_kept(front, dropped, relid, oid);
        } else {
            assert(kept == kept_front.push(rows.last()));
            assert(kept.drop_last() =~= kept_front);
            let keys = owned_keys::<PgIndex>(kept, relid);
            let keys_front = owned_keys::<PgIndex>(kept_front, relid);
            let m = keys.index_of(oid);
            if m < keys_front.len() {
                assert(keys_front[m] == oid);
                lemma_owned_keys_kept(front, dropped, relid, oid);
            } else {
                assert(all[all.len() - 1] == oid);
            }
        }
        if part.contains(oid) {
            let m = part.index_of(oid);
            assert(all[m] == oid);
        }
    }
}

proof fn lemma_index_table_after(c: CatalogView, dropped: u32, oids: Seq<u32>, n: int)
    ensures
        without_index_relations(c, oids, n).pg_index == c.pg_index,
    decreases n,
{
    if n > 0 {
        lemma_index_table_after(c, dropped, oids, n - 1);
    }
}

proof fn lemma_drop_keeps_views(c: CatalogView, dropped: u32)
    requires
        distinct_keys::<PgClass>(c.pg_class),
        indexes_are_no_views(c),
    ensures
        distinct_keys::<PgClass>(relation_dropped(c, dropped).pg_class),
        indexes_are_no_views(relation_dropped(c, dropped)),
        forall|v: u32|
            v != dropped && is_view(c, v) ==> #[trigger] is_view(relation_dropped(c, dropped), v),
        relation_dropped(c, dropped).get_class(dropped) is None,
{
    let after = relation_dropped(c, dropped);
    law_dropped_relation_is_gone(c, dropped, dropped);
    assert forall|v: u32| v != dropped && is_view(c, v) implies #[trigger] is_view(after, v) by {
        law_dropped_relation_is_gone(c, dropped, v);
        assert(index_oids(c, dropped).contains(v) ==> !is_view(c, v));
    }
    assert forall|relid: u32, oid: u32| #[trigger] index_oids(after, relid).contains(
        oid,
    ) implies !is_view(after, oid) by {
        law_dropped_relation_is_gone(c, dropped, oid);
        if c.get_class(dropped) is Some {
            let k = c.get_class(dropped)->Some_0;
            let c1 = without_inheritance(
                c.without_class(dropped).without_dependencies(
                    PG_CLASS_RELID,
                    dropped,
                ).without_constraints_of(dropped).without_rewrites_of(dropped),
                dropped,
            );
            if has_indexes(k.relkind) {
                let oids = owned_keys::<PgIndex>(c1.pg_index, dropped);
                lemma_index_table_after(
                    c1.without_indexes_of(dropped),
                    dropped,
                    oids,
                    oids.len() as int,
                );
                assert(after.pg_index == not_owned::<PgIndex>(c.pg_index, dropped));
                lemma_owned_keys_kept(c.pg_index, dropped, relid, oid);
            } else {
                assert(after.pg_index == c.pg_index);
            }
        }
        assert(index_oids(c, relid).contains(oid));
    }
}

proof fn lemma_reading_kept(c: CatalogView, dropped: u32, x: u32, v: u32)
    requires
        distinct_keys::<PgClass>(c.pg_class),
        indexes_are_no_views(c),
        is_view(c, x),
        x != dropped,
        v != dropped,
        views_on(c, PG_CLASS_RELID, x, None).contains(v),
    ensures
        views_on(relation_dropped(c, dropped), PG_CLASS_RELID, x, None).contains(v),
{
    let after = relation_dropped(c, dropped);
    law_dependent_views_are_listed_once(c, PG_CLASS_RELID, x, None);
    law_dependent_views_are_listed_once(after, PG_CLASS_RELID, x, None);
    lemma_drop_keeps_views(c, dropped);
    assert(leads_from(c.pg_depend, v, PG_CLASS_RELID, x, None));
    let k = choose|k: int|
        0 <= k < c.pg_depend.len() && #[trigger] leads_to(
            c.pg_depend[k],
            PG_CLASS_RELID,
            x,
            None,
        ) && c.pg_depend[k].objid == v;
    let d = c.pg_depend[k];
    assert(c.pg_depend.contains(d));
    if c.get_class(dropped) is Some {
        let kind = c.get_class(dropped)->Some_0.relkind;
        lemma_dependency_kept(c.without_class(dropped), dropped, d);
        let c1 = without_inheritance(
            c.without_class(dropped).without_dependencies(
                PG_CLASS_RELID,
                dropped,
            ).without_constraints_of(dropped).without_rewrites_of(dropped),
            dropped,
        );
        assert(c1.pg_depend.contains(d));
        if has_indexes(kind) {
            let oids = owned_keys::<PgIndex>(c1.pg_index, dropped);
            assert(oids == index_oids(c, dropped));
            assert(!oids.contains(v)) by {
                assert(index_oids(c, dropped).contains(v) ==> !is_view(c, v));
            }
            assert(!oids.contains(x)) by {
                assert(index_oids(c, dropped).contains(x) ==> !is_view(c, x));
            }
            lemma_dependency_outlives_indexes(
                c1.without_indexes_of(dropped),
                oids,
                oids.len() as int,
                d,
            );
        }
        assert(after.pg_depend.contains(d));
    }
    let m = after.pg_depend.index_of(d);
    assert(leads_to(after.pg_depend[m], PG_CLASS_RELID, x, None));
    assert(leads_from(after.pg_depend, v, PG_CLASS_RELID, x, None));
}

proof fn lemma_gone_stays_gone(c: CatalogView, pending: Seq<u32>, done: Seq<u32>, x: u32)
    requires
        distinct_keys::<PgClass>(c.pg_class),
        done.no_duplicates(),
        c.get_class(x) is None,
    ensures
        views_dropped(c, pending, done).get_class(x) is None,
    decreases 0x1_0000_0000 - done.len(), pending.len(),
{
    if pending.len() > 0 {
        let oid = pending.last();
        let rest = pending.drop_last();
        if done.contains(oid) {
            lemma_gone_stays_gone(c, rest, done, x);
        } else {
            lemma_push_fresh(done, oid);
            law_dropped_relation_is_gone(c, oid, x);
            lemma_gone_stays_gone(
                relation_dropped(c, oid),
                rest + not_in(views_on(c, PG_CLASS_RELID, oid, None), done),
                done.push(oid),
                x,
            );
        }
    }
}

/// Whether each view of a list reads the one before it.
pub open spec fn reads_on(c: CatalogView, path: Seq<u32>) -> bool {
    forall|i: int|
        0 <= i < path.len() - 1 ==> views_on(c, PG_CLASS_RELID, #[trigger] path[i], None).contains(
            path[i + 1],
        )
}

proof fn lemma_last_place(path: Seq<u32>, oid: u32) -> (i: int)
    ensures
        -1 <= i < path.len(),
        i >= 0 ==> path[i] == oid,
        forall|j: int| i < j < path.len() ==> path[j] != oid,
    decreases path.len(),
{
    if path.len() == 0 {
        -1
    } else if path.last() == oid {
        path.len() - 1
    } else {
        let i = lemma_last_place(path.drop_last(), oid);
        assert forall|j: int| i < j < path.len() implies path[j] != oid by {
            if j < path.len() - 1 {
                assert(path.drop_last()[j] == path[j]);
            }
        }
        if i >= 0 {
            assert(path.drop_last()[i] == path[i]);
        }
        i
    }
}

#[verifier::rlimit(40)]
proof fn lemma_readers_go(c: CatalogView, pending: Seq<u32>, done: Seq<u32>, path: Seq<u32>)
    requires
        distinct_keys::<PgClass>(c.pg_class),
        indexes_are_no_views(c),
        done.no_duplicates(),
        forall|x: u32| #[trigger] pending.contains(x) ==> is_view(c, x) || done.contains(x),
        forall|x: u32| #[trigger] done.contains(x) ==> c.get_class(x) is None,
        path.len() > 0,
        pending.contains(path[0]),
        is_view(c, path[0]),
        reads_on(c, path),
    ensures
        views_dropped(c, pending, done).get_class(path.last()) is None,
    decreases 0x1_0000_0000 - done.len(), pending.len(),
{
    let oid = pending.last();
    let rest = pending.drop_last();
    if done.contains(oid) {
        assert(c.get_class(oid) is None);
        let k = pending.index_of(path[0]);
        assert(rest[k] == path[0]);
        assert forall|x: u32| #[trigger] rest.contains(x) implies is_view(c, x) || done.contains(
            x,
        ) by {
            let m = rest.index_of(x);
            assert(pending[m] == x);
            assert(pending.contains(x));
        }
        lemma_readers_go(c, rest, done, path);
    } else {
        let readers = views_on(c, PG_CLASS_RELID, oid, None);
        let more = not_in(readers, done);
        let c1 = relation_dropped(c, oid);
        let pending1 = rest + more;
        let done1 = done.push(oid);
        let wanted = |x: u32| !done.contains(x);
        lemma_push_fresh(done, oid);
        lemma_drop_keeps_views(c, oid);
        law_dependent_views_are_listed_once(c, PG_CLASS_RELID, oid, None);
        if path.last() == oid {
            lemma_gone_stays_gone(c1, pending1, done1, oid);
        } else {
            let i = lemma_last_place(path, oid);
            let tail = path.skip(i + 1);
            assert(tail.len() > 0);
            assert(tail.last() == path.last());
            assert forall|j: int| 0 <= j < tail.len() implies #[trigger] tail[j] != oid && is_view(
                c,
                tail[j],
            ) by {
                assert(tail[j] == path[i + 1 + j]);
                if i + 1 + j > 0 {
                    law_dependent_views_are_listed_once(c, PG_CLASS_RELID, path[i + j], None);
                    assert(views_on(c, PG_CLASS_RELID, path[i + j], None).contains(
                        path[i + j + 1],
                    ));
                }
            }
            assert(tail[0] != oid && is_view(c, tail[0]));
            assert(pending1.contains(tail[0])) by {
                if i >= 0 {
                    assert(views_on(c, PG_CLASS_RELID, path[i], None).contains(path[i + 1]));
                    assert(!done.contains(tail[0]));
                    lemma_filter_keeps(readers, wanted, tail[0]);
                    assert(more == readers.filter(wanted));
                    let m = more.index_of(tail[0]);
                    assert(pending1[rest.len() + m] == tail[0]);
                } else {
                    assert(tail[0] == path[0]);
                    let m = pending.index_of(path[0]);
                    assert(rest[m] == path[0]);
                    assert(pending1[m] == path[0]);
                }
            }
            assert forall|j: int| 0 <= j < tail.len() - 1 implies views_on(
                c1,
                PG_CLASS_RELID,
                #[trigger] tail[j],
                None,
            ).contains(tail[j + 1]) by {
                assert(tail[j] == path[i + 1 + j]);
                assert(tail[j + 1] == path[i + 2 + j]);
                assert(tail[j] != oid && is_view(c, tail[j]));
                assert(tail[j + 1] != oid);
                lemma_reading_kept(c, oid, tail[j], tail[j + 1]);
            }
            assert forall|x: u32| #[trigger] pending1.contains(x) implies is_view(c1, x)
                || done1.contains(x) by {
                let m = pending1.index_of(x);
                if x == oid {
                    assert(done1[done.len() as int] == oid);
                } else if m < rest.len() {
                    assert(pending[m] == x);
                    assert(pending.contains(x));
                    if done.contains(x) {
                        let n = done.index_of(x);
                        assert(done1[n] == x);
                    }
                } else {
                    assert(more[m - rest.len()] == x);
                    lemma_filter_members(readers, wanted, m - rest.len());
                    assert(readers.contains(x));
                }
            }
            assert forall|x: u32| #[trigger] done1.contains(x) implies c1.get_class(x) is None by {
                let m = done1.index_of(x);
                if m < done.len() {
                    assert(done[m] == x);
                    assert(done.contains(x));
                    law_dropped_relation_is_gone(c, oid, x);
                }
            }
            lemma_readers_go(c1, pending1, done1, tail);
        }
    }
}

proof fn lemma_filter_members<A>(s: Seq<A>, wanted: spec_fn(A) -> bool, k: int)
    requires
        0 <= k < s.filter(wanted).len(),
    ensures
        s.contains(s.filter(wanted)[k]),
    decreases s.len(),
{
    reveal(Seq::filter);
    if s.len() > 0 {
        let front = s.drop_last();
        let f = front.filter(wanted);
        if k < f.len() {
            lemma_filter_members(front, wanted, k);
            let m = front.index_of(f[k]);
            assert(s[m] == f[k]);
        } else {
            assert(s[s.len() - 1] == s.filter(wanted)[k]);
        }
    }
}

/// Views that are dropped take with them the views that read them, the views that
/// read those, and so on.
pub proof fn law_readers_of_dropped_views_go(c: CatalogView, views: Seq<u32>, path: Seq<u32>)
    requires
        distinct_keys::<PgClass>(c.pg_class),
        indexes_are_no_views(c),
        forall|x: u32| #[trigger] views.contains(x) ==> is_view(c, x),
        path.len() > 0,
        views.contains(path[0]),
        reads_on(c, path),
    ensures
        views_dropped(c, views, Seq::empty()).get_class(path.last()) is None,
{
    lemma_readers_go(c, views, Seq::empty(), path);
}

// ── New relations are found ─────────────────────────────────────────────────

proof fn lemma_columns_only(c: CatalogView, relid: u32, columns: Seq<ParsedColumnView>, n: int)
    ensures
        ({
            let r = with_columns(c, relid, columns, n);
            r == (CatalogView { pg_attribute: r.pg_attribute, ..c })
        }),
    decreases n,
{
    if n > 0 {
        lemma_columns_only(c, relid, columns, n - 1);
    }
}

/// A table whose row and types were made is found by its name, under the next OID.
pub proof fn law_new_relation_is_found(
    c: CatalogView,
    ns: u32,
    name: Seq<char>,
    columns: Seq<ParsedColumnView>,
)
    requires
        with_relation(c, ns, name, columns).0 is Ok,
    ensures
        with_relation(c, ns, name, columns).0 == Ok::<u32, super::DdlErrorView>(c.next_oid),
        with_relation(c, ns, name, columns).1.class_named(ns, name) == Some(c.next_oid),
        with_relation(c, ns, name, columns).1.get_class(c.next_oid) is Some,
        with_relation(c, ns, name, columns).1.get_class(c.next_oid)->Some_0.relname == name,
        with_relation(c, ns, name, columns).1.get_class(c.next_oid)->Some_0.relnamespace == ns,
        with_relation(c, ns, name, columns).1.get_class(c.next_oid)->Some_0.relkind
            == RelKind::Table,
        with_relation(c, ns, name, columns).1.next_oid > c.next_oid,
{
    let relid = c.next_oid;
    let c3 = c.allocated().1.allocated().1.allocated().1;
    let row = PgClassView {
        oid: relid,
        relname: name,
        relnamespace: ns,
        relkind: RelKind::Table,
        reltype: Some(c.allocated().1.next_oid),
    };
    lemma_columns_only(c3.with_class(row), relid, columns, columns.len() as int);
    law_put_row_is_found::<PgClass>(c.pg_class, row, relid);
}

proof fn lemma_inherited_columns_only(
    c: CatalogView,
    child: u32,
    existing: Seq<PgAttributeView>,
    parent: Seq<PgAttributeView>,
    i: int,
    attnum: i16,
)
    ensures
        ({
            let r = with_inherited_columns(c, child, existing, parent, i, attnum).1;
            r == (CatalogView { pg_attribute: r.pg_attribute, ..c })
        }),
    decreases parent.len() - i,
{
    if 0 <= i < parent.len() {
        if find_attribute(existing, parent[i].attname) is Some {
            lemma_inherited_columns_only(c, child, existing, parent, i + 1, attnum);
        } else if attnum < MAX_ATTNUM {
            let next = (attnum + 1) as i16;
            lemma_inherited_columns_only(
                c.with_attribute(inherited_row(child, parent[i], next)),
                child,
                existing,
                parent,
                i + 1,
                next,
            );
        }
    }
}

proof fn lemma_parents_only(c: CatalogView, child: u32, parents: Seq<RangeVar>, i: int)
    ensures
        ({
            let r = with_parents(c, child, parents, i).1;
            r == (CatalogView { pg_attribute: r.pg_attribute, pg_inherits: r.pg_inherits, ..c })
        }),
    decreases parents.len() - i,
{
    if 0 <= i < parents.len() {
        match parent_relation(c, parents[i]) {
            Err(_) => {},
            Ok(parent) => {
                let existing = c.attributes_of(child);
                lemma_inherited_columns_only(
                    c,
                    child,
                    existing,
                    c.attributes_of(parent),
                    0,
                    last_attnum(existing),
                );
                if i < 0x7fff_ffff {
                    lemma_parents_only(
                        with_parent(c, child, parent, (i + 1) as i32).1,
                        child,
                        parents,
                        i + 1,
                    );
                }
            },
        }
    }
}

proof fn lemma_constraints_keep_relation(
    c: CatalogView,
    relid: u32,
    list: Seq<PendingView>,
    i: int,
    ns: u32,
    name: Seq<char>,
)
    requires
        0 <= i <= list.len(),
        relid < c.next_oid,
        forall|k: int|
            0 <= k < list.len() && makes_key((#[trigger] list[k]).contype) ==> list[k].conname
                != name,
    ensures
        with_backed_constraints(c, relid, list, i).1.class_named(ns, name) == c.class_named(
            ns,
            name,
        ),
        with_backed_constraints(c, relid, list, i).1.get_class(relid) == c.get_class(relid),
    decreases list.len() - i,
{
    if i < list.len() {
        let p = list[i];
        let (r, c1) = with_backed_constraint(c, relid, p);
        let c0 = with_constraint_row(c, relid, p).1;
        assert(c0.pg_class == c.pg_class);
        assert(c0.class_by_qname == c.class_by_qname);
        assert(c0.next_oid >= c.next_oid);
        assert(relid < c1.next_oid && c1.class_named(ns, name) == c.class_named(ns, name)
            && c1.get_class(relid) == c.get_class(relid)) by {
            if with_constraint_row(c, relid, p).0 is Ok && makes_key(p.contype) {
                match c0.get_class(relid) {
                    None => {},
                    Some(table) => {
                        let row = PgClassView {
                            oid: c0.next_oid,
                            relname: p.conname,
                            relnamespace: table.relnamespace,
                            relkind: RelKind::Index,
                            reltype: None,
                        };
                        law_put_row_is_found::<PgClass>(c0.pg_class, row, relid);
                    },
                }
            }
        }
        if r is Ok {
            lemma_constraints_keep_relation(c1, relid, list, i + 1, ns, name);
        }
    }
}

/// The constraints of a table that is made, by the statement that makes it.
pub open spec fn new_table_constraints(
    c: CatalogView,
    ns: u32,
    name: Seq<char>,
    stmt: CreateStmt,
) -> Seq<PendingView> {
    let columns = statement_columns(c, stmt)->Ok_0;
    let c1 = with_relation(c, ns, name, columns).1;
    let c2 = if stmt.partbound {
        c1
    } else {
        with_parents(c1, c.next_oid, stmt.inh_relations@, 0).1
    };
    statement_pendings(c2, name, c2.attributes_of(c.next_oid), stmt)->Ok_0
}

/// A table that was made is found by its name and schema, unless one of its own keys
/// has the name of the table.
pub proof fn law_created_table_is_found(
    c: CatalogView,
    stmt: CreateStmt,
    rv: RangeVar,
    ns: u32,
    name: Seq<char>,
)
    requires
        stmt.relation == Some(rv),
        ensured_range(c, rv).0 == Ok::<(u32, Seq<char>), super::DdlErrorView>((ns, name)),
        ensured_range(c, rv).1.class_named(ns, name) is None,
        table_created(c, stmt).0 is Ok,
        forall|k: int|
            0 <= k < new_table_constraints(ensured_range(c, rv).1, ns, name, stmt).len()
                && makes_key(
                (#[trigger] new_table_constraints(
                    ensured_range(c, rv).1,
                    ns,
                    name,
                    stmt,
                )[k]).contype,
            ) ==> new_table_constraints(ensured_range(c, rv).1, ns, name, stmt)[k].conname != name,
    ensures
        table_created(c, stmt).1.class_named(ns, name) == Some(ensured_range(c, rv).1.next_oid),
        table_created(c, stmt).1.get_class(ensured_range(c, rv).1.next_oid) is Some,
        table_created(c, stmt).1.get_class(
            ensured_range(c, rv).1.next_oid,
        )->Some_0.relkind == RelKind::Table,
{
    let c0 = ensured_range(c, rv).1;
    let relid = c0.next_oid;
    let columns = statement_columns(c0, stmt)->Ok_0;
    law_new_relation_is_found(c0, ns, name, columns);
    let c1 = with_relation(c0, ns, name, columns).1;
    lemma_parents_only(c1, relid, stmt.inh_relations@, 0);
    let c2 = if stmt.partbound {
        c1
    } else {
        with_parents(c1, relid, stmt.inh_relations@, 0).1
    };
    let list = new_table_constraints(c0, ns, name, stmt);
    lemma_constraints_keep_relation(c2, relid, list, 0, ns, name);
}

/// A table whose name is taken is not made: with `IF NOT EXISTS` the statement does
/// nothing more, without it fails; the relation of that name stays.
pub proof fn law_existing_relation_is_kept(
    c: CatalogView,
    stmt: CreateStmt,
    rv: RangeVar,
    ns: u32,
    name: Seq<char>,
)
    requires
        stmt.relation == Some(rv),
        ensured_range(c, rv).0 == Ok::<(u32, Seq<char>), super::DdlErrorView>((ns, name)),
        ensured_range(c, rv).1.class_named(ns, name) is Some,
    ensures
        table_created(c, stmt).1 == ensured_range(c, rv).1,
        table_created(c, stmt).0 is Ok <==> stmt.if_not_exists,
{
}

/// A view that was made is found by its name and is a view.
pub proof fn law_created_view_is_found(
    c: CatalogView,
    ns: u32,
    name: Seq<char>,
    kind: RelKind,
    resolved: Option<ResolvedViewView>,
)
    requires
        relation_installed(c, ns, name, kind, resolved).0 is Ok,
    ensures
        relation_installed(c, ns, name, kind, resolved).1.class_named(ns, name) == Some(c.next_oid),
        relation_installed(c, ns, name, kind, resolved).1.get_class(c.next_oid) is Some,
        relation_installed(c, ns, name, kind, resolved).1.get_class(c.next_oid)->Some_0.relkind
            == kind,
{
    let relid = c.next_oid;
    let columns = match resolved {
        Some(v) => v.columns,
        None => Seq::empty(),
    };
    let c3 = c.allocated().1.allocated().1.allocated().1;
    let row = PgClassView {
        oid: relid,
        relname: name,
        relnamespace: ns,
        relkind: kind,
        reltype: Some(c.allocated().1.next_oid),
    };
    lemma_resolved_columns_only(c3.with_class(row), relid, columns, columns.len() as int);
    law_put_row_is_found::<PgClass>(c.pg_class, row, relid);
}

// ── Enums and functions ─────────────────────────────────────────────────────

/// The texts of labels.
pub open spec fn label_texts(labels: Seq<PgEnumView>) -> Seq<Seq<char>> {
    labels.map_values(|l: PgEnumView| l.enumlabel)
}

proof fn lemma_labels_in_order(c: CatalogView, typid: u32, labels: Seq<Seq<char>>, i: int)
    requires
        0 <= i <= labels.len(),
        label_texts(c.labels_of(typid)) == labels.take(i),
        with_enum_labels(c, typid, labels, i).0 is Ok,
    ensures
        label_texts(with_enum_labels(c, typid, labels, i).1.labels_of(typid)) == labels,
    decreases labels.len() - i,
{
    if i < labels.len() {
        let c1 = c.allocated().1;
        let before = c.labels_of(typid);
        let label = PgEnumView { oid: c.next_oid, enumtypid: typid, enumlabel: labels[i] };
        let list = before.insert(before.len() as int, label);
        let c2 = c1.with_label_at(label, before.len() as int);
        law_put_row_is_found::<EnumLabels>(
            c.pg_enum,
            EnumLabelsView { typid, labels: list },
            typid,
        );
        assert(c2.labels_of(typid) == list);
        assert(label_texts(before).len() == before.len());
        assert(label_texts(list) =~= labels.take(i + 1)) by {
            assert forall|k: int| 0 <= k < i implies before[k].enumlabel == labels[k] by {
                assert(label_texts(before)[k] == labels.take(i)[k]);
            }
        }
        lemma_labels_in_order(c2, typid, labels, i + 1);
    } else {
        assert(labels.take(i) =~= labels);
    }
}

/// An enum type that was made has the labels that were written, in their order.
pub proof fn law_created_enum_has_its_labels(
    c: CatalogView,
    stmt: CreateEnumStmt,
    ns: u32,
    name: Seq<char>,
)
    requires
        ensured_names(c, texts(stmt.names@)).0 == Ok::<(u32, Seq<char>), super::DdlErrorView>(
            (ns, name),
        ),
        enum_created(c, stmt).0 is Ok,
        ensured_names(c, texts(stmt.names@)).1.labels_of(
            ensured_names(c, texts(stmt.names@)).1.next_oid,
        ) == Seq::<PgEnumView>::empty(),
    ensures
        label_texts(
            enum_created(c, stmt).1.labels_of(ensured_names(c, texts(stmt.names@)).1.next_oid),
        ) == node_texts(stmt.vals@),
{
    let c1 = ensured_names(c, texts(stmt.names@)).1;
    let oid = c1.next_oid;
    let labels = node_texts(stmt.vals@);
    let c2 = c1.allocated().1.with_type(
        plain_type_row(oid, name, ns, TypType::Enum, TypCategory::Enum),
    );
    assert(label_texts(c2.labels_of(oid)) =~= labels.take(0));
    lemma_labels_in_order(c2, oid, labels, 0);
}

proof fn lemma_label_position(labels: Seq<PgEnumView>, text: Seq<char>)
    ensures
        0 <= label_position(labels, text) <= labels.len(),
    decreases labels.len(),
{
    if labels.len() > 0 && labels[0].enumlabel != text {
        lemma_label_position(labels.drop_first(), text);
    }
}

/// A label that is added to an enum type leaves the others in their order.
pub proof fn law_new_label_moves_no_other(c: CatalogView, stmt: AlterEnumStmt, oid: u32)
    requires
        type_at(c, listed_names(c, texts(stmt.names@))) == Some(oid),
        c.get_type(oid) is Some && c.get_type(oid)->Some_0.typtype == TypType::Enum,
        label_position(c.labels_of(oid), stmt.new_val@) >= c.labels_of(oid).len(),
        enum_altered(c, stmt).0 is Ok,
    ensures
        enum_altered(c, stmt).1.labels_of(oid).remove(
            new_label_position(c.labels_of(oid), stmt),
        ) == c.labels_of(oid),
        enum_altered(c, stmt).1.labels_of(oid)[new_label_position(
            c.labels_of(oid),
            stmt,
        )].enumlabel == stmt.new_val@,
{
    let labels = c.labels_of(oid);
    let at = new_label_position(labels, stmt);
    lemma_label_position(labels, stmt.new_val_neighbor@);
    let label = PgEnumView { oid: c.next_oid, enumtypid: oid, enumlabel: stmt.new_val@ };
    law_put_row_is_found::<EnumLabels>(
        c.pg_enum,
        EnumLabelsView { typid: oid, labels: labels.insert(at, label) },
        oid,
    );
    assert(labels.insert(at, label).remove(at) =~= labels);
}

/// A function that was made is listed under its name, with the row that the statement
/// gives it.
pub proof fn law_created_function_is_listed(
    c: CatalogView,
    stmt: CreateFunctionStmt,
    ns: u32,
    name: Seq<char>,
) -> (oid: u32)
    requires
        ensured_names(c, texts(stmt.funcname@)).0 == Ok::<(u32, Seq<char>), super::DdlErrorView>(
            (ns, name),
        ),
        function_created(c, stmt).0 is Ok,
    ensures
        function_created(c, stmt).1.procs_named(ns, name).contains(oid),
        function_created(c, stmt).1.get_proc(oid) == Some(
            routine_row(ensured_names(c, texts(stmt.funcname@)).1, oid, ns, name, stmt),
        ),
{
    let c1 = ensured_names(c, texts(stmt.funcname@)).1;
    let c2 = way_made(c1, ns, name, stmt).1;
    let oid = c2.next_oid;
    let row = routine_row(c1, oid, ns, name, stmt);
    law_put_row_is_found::<PgProc>(c2.pg_proc, row, oid);
    let listed = list_get(c2.proc_by_qname, ns, name);
    assert(listed.push(oid)[listed.len() as int] == oid);
    oid
}

/// A function with the arguments of another of its name does not take its place
/// unless the statement says so, and nothing but the schema is made.
pub proof fn law_function_is_not_replaced_silently(
    c: CatalogView,
    stmt: CreateFunctionStmt,
    ns: u32,
    name: Seq<char>,
)
    requires
        ensured_names(c, texts(stmt.funcname@)).0 == Ok::<(u32, Seq<char>), super::DdlErrorView>(
            (ns, name),
        ),
        !stmt.replace,
        same_arguments(
            ensured_names(c, texts(stmt.funcname@)).1,
            ensured_names(c, texts(stmt.funcname@)).1.procs_named(ns, name),
            routine_row(ensured_names(c, texts(stmt.funcname@)).1, 0, ns, name, stmt).proargtypes,
        ) is Some,
    ensures
        function_created(c, stmt).0 is Err,
        function_created(c, stmt).1 == ensured_names(c, texts(stmt.funcname@)).1,
{
}

} // verus!
