//! Every statement keeps the catalog consistent.

use super::aggregates::{aggregate_created, aggregate_options, aggregate_row, first_function};
use super::alter::{
    column_renamed, constraint_renamed, index_at, placed_relation, relation_moved,
    relation_renamed, renamed, routine_moved, routine_target, schema_set, type_moved, type_names,
    wanted_kind, with_relation_moved, with_types_moved,
};
use super::alter_column::{
    ColumnChange, changed, children_of, children_stripped, column_added, column_altered,
    column_constraints, column_dropped, column_indexes, column_position, column_retyped,
    default_change, holders, identity_set, lemma_fewer_holders, option_identity, plain_relname,
    unblocked, unlike, with_column_changed, without_column, without_indexes,
};
use super::alter_table::{
    backing_index, command_applied, commands_applied, constraint_added, constraint_dropped,
    constraint_named, not_null_column, not_null_where, table_altered, with_not_null,
};
use super::apply::{
    extension_altered, extension_created, installed_schema, installed_version, path_applied,
    schema_created, scripts_applied, searched_first, statement_applied, statements_applied,
    text_or, version_applied,
};
use super::collations::{collation_created, copied_encoding};
use super::consistency::{
    consistent, follows, lemma_allocated, lemma_constraint_changed, lemma_extension_changed,
    lemma_new_cast, lemma_new_class, lemma_new_collation, lemma_new_constraint,
    lemma_new_extension, lemma_new_namespace, lemma_new_operator, lemma_new_proc,
    lemma_new_rewrite, lemma_new_type, lemma_owned, lemma_renamed_class, lemma_renamed_namespace,
    lemma_renamed_proc, lemma_renamed_type, lemma_rest, lemma_type_changed, lemma_with_aggregate,
    lemma_with_attribute, lemma_with_attributes, lemma_with_fewer_attributes, lemma_with_index,
    lemma_with_label, lemma_with_range, lemma_without_cast, lemma_without_class,
    lemma_without_constraint, lemma_without_constraints_of, lemma_without_dependencies,
    lemma_without_extension, lemma_without_index, lemma_without_indexes_of,
    lemma_without_namespace, lemma_without_operator, lemma_without_proc, lemma_without_rewrites_of,
    lemma_without_type,
};
use super::constraints::{
    PendingView, chosen_name, column_count, constraint_row, fk_pending, local_pending, numbers_of,
    statement_pendings, types_of, with_backed_constraint, with_backed_constraints,
    with_constraint_row,
};
use super::dependents::{
    has_indexes, lemma_push_fresh, not_in, relation_dropped, views_dropped, views_on,
    views_on_column, without_index_relations, without_inheritance,
};
use super::drop::{
    class_at, column_has_type, extension_drop, extension_members, firsts, foreign_keys_to,
    index_drop, indexed_table, item_texts, known_relation_drop, known_type_drop, object_drop,
    objects_dropped, off_search_path, other_columns, relation_drop, relations_using, schema_drop,
    schema_emptied, type_at, type_drop, type_parts, unique_named, without_columns_of_type,
    without_constraints, without_member, without_members, without_operators, without_relations,
    without_routines, without_type_and_array, without_types,
};
use super::extensions::{
    extension_position, install_path, text_option, upgrade_path, version_views, with_members,
};
use super::functions::{function_created, routine_row, same_arguments, way_made};
use super::indexes::{column_names, index_created, index_key};
use super::operators::{operator_created, operator_options, operator_result, operator_schema};
use super::routines::{
    RoutineKind, aggregate_drop, cast_drop, first_exact_operator, function_drop, item_type,
    known_args, known_routine_drop, operand_types, operator_drop, routine_named, routine_on_path,
    routine_word, without_routine,
};
use super::sequences::sequence_created;
use super::stmt::{
    AlterDef, AlterEnumStmt, AlterExtensionStmt, AlterObjectSchemaStmt, AlterTableCmd,
    AlterTableStmt, AlterTableType, CompositeTypeStmt, ConstrType, CreateCastStmt, CreateDomainStmt,
    CreateEnumStmt, CreateExtensionStmt, CreateFunctionStmt, CreateRangeStmt, CreateSchemaStmt,
    CreateSeqStmt, CreateStmt, CreateTableAsStmt, DefineStmt, DropStmt, ExtensionDef,
    ExtensionVersion, IndexStmt, ObjectRef, ObjectType, RawColumn, RenameStmt, Statement, ViewStmt,
};
use super::tables::{
    MAX_ATTNUM, ParsedColumnView, array_type_row, column_row, inherited_row, last_attnum,
    modifier_of, new_table, parent_relation, parsed_column, row_type_row, statement_columns,
    sure_identity_kind, table_created, with_columns, with_inherited_columns, with_parent,
    with_parents, with_relation,
};
use super::types::{
    FieldView, cast_context, cast_created, cast_method, composite_added, composite_created,
    composite_fields, domain_created, domain_row, done, enum_altered, enum_created, field_row,
    label_position, new_label_position, plain_type_row, range_created, range_subtype,
    some_not_null, type_defined, with_array_type, with_enum_labels, with_fields,
};
use super::util::{
    ensured_names, ensured_namespace, ensured_range, listed_names, opt_named_type, range_names,
    with_record_cast,
};
use super::views::{
    ResolvedColumnView, ResolvedViewView, node_texts, opt_resolved_query, refreshed,
    relation_installed, relation_label, resolved_row, return_rule, table_as_created, view_created,
    view_refreshed, with_body, with_resolved_columns,
};
use crate::ast::{RangeVar, qualified};
use crate::catalog::{CatalogView, empty_catalog};
use crate::catalog_laws::law_empty_catalog_is_in_step;
use crate::error::AnalyzeError;
use crate::lookup::{find_attribute, operators_on_path};
use crate::migrate::pending;
use crate::pg_catalog::{
    CastContext, CastMethod, ConType, PG_CAST_RELID, PG_CLASS_RELID, PG_EXTENSION_RELID,
    PG_NAMESPACE_RELID, PG_OPERATOR_RELID, PG_PROC_RELID, PG_TYPE_RELID, PgAggregate,
    PgAttributeView, PgCast, PgClass, PgClassView, PgCollationView, PgConstraintView, PgEnumView,
    PgExtension, PgExtensionView, PgIndex, PgIndexView, PgNamespaceView, PgOperator,
    PgOperatorView, PgProc, PgRange, PgType, PgTypeView, RECORD, RelAttrsView, RelKind,
    SerializedAstView, TypCategory, TypType, UNKNOWN,
};
use crate::seed::{loaded, seed_of};
use crate::seed_laws::law_stored_catalog_comes_back;
use crate::table::{lemma_row_position_meaning, map_get, owned_keys, row_get};
use crate::text::{joined, texts};
use vstd::prelude::*;

verus! {

// ── Names and casts ─────────────────────────────────────────────────────────

proof fn lemma_ensured_namespace(c: CatalogView, name: Seq<char>)
    requires
        consistent(c),
    ensures
        follows(c, ensured_namespace(c, name).1),
{
    lemma_allocated(c);
    match c.allocated() {
        (Ok(oid), c1) => {
            lemma_new_namespace(c1, PgNamespaceView { oid, nspname: name });
        },
        _ => {},
    }
}

proof fn lemma_ensured_range(c: CatalogView, rv: RangeVar)
    requires
        consistent(c),
    ensures
        follows(c, ensured_range(c, rv).1),
{
    lemma_ensured_namespace(c, range_names(c, rv).0);
}

proof fn lemma_ensured_names(c: CatalogView, parts: Seq<Seq<char>>)
    requires
        consistent(c),
    ensures
        follows(c, ensured_names(c, parts).1),
{
    lemma_ensured_namespace(c, listed_names(c, parts).0);
}

proof fn lemma_with_record_cast(c: CatalogView, composite: u32)
    requires
        consistent(c),
    ensures
        follows(c, with_record_cast(c, composite).1),
{
    lemma_allocated(c);
    match c.allocated() {
        (Ok(oid), c1) => {
            lemma_new_cast(
                c1,
                PgCast {
                    oid,
                    castsource: composite,
                    casttarget: RECORD,
                    castcontext: CastContext::Implicit,
                    castmethod: CastMethod::Binary,
                },
            );
        },
        _ => {},
    }
}

proof fn lemma_with_array_type(c: CatalogView, ns: u32, name: Seq<char>, element: u32)
    requires
        consistent(c),
    ensures
        follows(c, with_array_type(c, ns, name, element).1),
{
    lemma_allocated(c);
    match c.allocated() {
        (Ok(array), c1) => {
            let row = array_type_row(array, name, ns, element);
            lemma_new_type(c1, row);
            let c2 = c1.with_type(row);
            lemma_row_position_meaning::<PgType>(c2.pg_type, element);
            match c2.get_type(element) {
                Some(t) => {
                    lemma_type_changed(c2, PgTypeView { typarray: Some(array), ..t });
                },
                None => {},
            }
        },
        _ => {},
    }
}

// ── Types ───────────────────────────────────────────────────────────────────

proof fn lemma_domain_created(c: CatalogView, stmt: CreateDomainStmt)
    requires
        consistent(c),
    ensures
        follows(c, domain_created(c, stmt).1),
{
    lemma_ensured_names(c, texts(stmt.domainname@));
    match ensured_names(c, texts(stmt.domainname@)) {
        (Ok((ns, name)), c1) => {
            lemma_allocated(c1);
            match (opt_named_type(c1, stmt.target), modifier_of(stmt.target), c1.allocated()) {
                (Some(base), Ok(typmod), (Ok(oid), c2)) => {
                    let row = domain_row(
                        c2,
                        oid,
                        ns,
                        name,
                        base,
                        typmod,
                        some_not_null(stmt.constraints@),
                    );
                    lemma_new_type(c2, row);
                    lemma_with_array_type(c2.with_type(row), ns, name, oid);
                },
                _ => {},
            }
        },
        _ => {},
    }
}

proof fn lemma_with_enum_labels(c: CatalogView, typid: u32, labels: Seq<Seq<char>>, i: int)
    requires
        consistent(c),
    ensures
        follows(c, with_enum_labels(c, typid, labels, i).1),
    decreases labels.len() - i,
{
    if 0 <= i < labels.len() {
        lemma_allocated(c);
        match c.allocated() {
            (Ok(oid), c1) => {
                let row = PgEnumView { oid, enumtypid: typid, enumlabel: labels[i] };
                let at = c1.labels_of(typid).len() as int;
                lemma_with_label(c1, row, at);
                lemma_with_enum_labels(c1.with_label_at(row, at), typid, labels, i + 1);
            },
            _ => {},
        }
    }
}

proof fn lemma_enum_created(c: CatalogView, stmt: CreateEnumStmt)
    requires
        consistent(c),
    ensures
        follows(c, enum_created(c, stmt).1),
{
    lemma_ensured_names(c, texts(stmt.names@));
    match ensured_names(c, texts(stmt.names@)) {
        (Ok((ns, name)), c1) => {
            lemma_allocated(c1);
            match c1.allocated() {
                (Ok(oid), c2) => {
                    let row = plain_type_row(oid, name, ns, TypType::Enum, TypCategory::Enum);
                    lemma_new_type(c2, row);
                    let c3 = c2.with_type(row);
                    lemma_with_enum_labels(c3, oid, node_texts(stmt.vals@), 0);
                    let c4 = with_enum_labels(c3, oid, node_texts(stmt.vals@), 0).1;
                    lemma_with_array_type(c4, ns, name, oid);
                },
                _ => {},
            }
        },
        _ => {},
    }
}

proof fn lemma_with_fields(c: CatalogView, relid: u32, fields: Seq<FieldView>, n: int)
    requires
        consistent(c),
    ensures
        follows(c, with_fields(c, relid, fields, n)),
    decreases n,
{
    if n > 0 {
        lemma_with_fields(c, relid, fields, n - 1);
        lemma_with_attribute(
            with_fields(c, relid, fields, n - 1),
            field_row(relid, fields[n - 1], n as i16),
        );
    }
}

proof fn lemma_composite_added(c: CatalogView, ns: u32, name: Seq<char>, fields: Seq<FieldView>)
    requires
        consistent(c),
    ensures
        follows(c, composite_added(c, ns, name, fields).1),
{
    lemma_allocated(c);
    match c.allocated() {
        (Ok(relid), c1) => {
            lemma_allocated(c1);
            match c1.allocated() {
                (Ok(oid), c2) => {
                    let class = PgClassView {
                        oid: relid,
                        relname: name,
                        relnamespace: ns,
                        relkind: RelKind::CompositeType,
                        reltype: Some(oid),
                    };
                    lemma_new_class(c2, class);
                    let c3 = c2.with_class(class);
                    lemma_with_fields(c3, relid, fields, fields.len() as int);
                    let c4 = with_fields(c3, relid, fields, fields.len() as int);
                    let row = row_type_row(oid, name, ns, relid, None);
                    lemma_new_type(c4, row);
                    let c5 = c4.with_type(row);
                    lemma_with_array_type(c5, ns, name, oid);
                    lemma_with_record_cast(with_array_type(c5, ns, name, oid).1, oid);
                },
                _ => {},
            }
        },
        _ => {},
    }
}

proof fn lemma_composite_created(c: CatalogView, stmt: CompositeTypeStmt)
    requires
        consistent(c),
    ensures
        follows(c, composite_created(c, stmt).1),
{
    match stmt.typevar {
        Some(rv) => {
            lemma_ensured_range(c, rv);
            match ensured_range(c, rv) {
                (Ok((ns, name)), c1) => {
                    lemma_composite_added(
                        c1,
                        ns,
                        name,
                        composite_fields(c1, stmt.coldeflist@)->Ok_0,
                    );
                },
                _ => {},
            }
        },
        None => {},
    }
}

proof fn lemma_range_created(c: CatalogView, stmt: CreateRangeStmt)
    requires
        consistent(c),
    ensures
        follows(c, range_created(c, stmt).1),
{
    lemma_ensured_names(c, texts(stmt.names@));
    match ensured_names(c, texts(stmt.names@)) {
        (Ok((ns, name)), c1) => {
            lemma_allocated(c1);
            match (range_subtype(c1, stmt.params@), c1.allocated()) {
                (Some(subtype), (Ok(oid), c2)) => {
                    let row = plain_type_row(oid, name, ns, TypType::Range, TypCategory::Range);
                    let range = PgRange { rngtypid: oid, rngsubtype: subtype };
                    lemma_new_type(c2, row);
                    lemma_with_range(c2.with_type(row), range);
                    lemma_with_array_type(c2.with_type(row).with_range(range), ns, name, oid);
                },
                _ => {},
            }
        },
        _ => {},
    }
}

proof fn lemma_label_position(labels: Seq<PgEnumView>, label: Seq<char>)
    ensures
        0 <= label_position(labels, label) <= labels.len(),
    decreases labels.len(),
{
    if labels.len() > 0 {
        lemma_label_position(labels.drop_first(), label);
    }
}

proof fn lemma_enum_altered(c: CatalogView, stmt: AlterEnumStmt)
    requires
        consistent(c),
    ensures
        follows(c, enum_altered(c, stmt).1),
{
    let names = listed_names(c, texts(stmt.names@));
    match type_at(c, names) {
        Some(oid) => {
            lemma_allocated(c);
            match c.allocated() {
                (Ok(label), c1) => {
                    let labels = c.labels_of(oid);
                    lemma_label_position(labels, stmt.new_val_neighbor@);
                    lemma_with_label(
                        c1,
                        PgEnumView { oid: label, enumtypid: oid, enumlabel: stmt.new_val@ },
                        new_label_position(labels, stmt),
                    );
                },
                _ => {},
            }
        },
        None => {},
    }
}

proof fn lemma_type_defined(c: CatalogView, stmt: DefineStmt)
    requires
        consistent(c),
    ensures
        follows(c, type_defined(c, stmt).1),
{
    lemma_ensured_names(c, texts(stmt.defnames@));
    match ensured_names(c, texts(stmt.defnames@)) {
        (Ok((ns, name)), c1) => {
            lemma_allocated(c1);
            match c1.allocated() {
                (Ok(oid), c2) => {
                    let row = plain_type_row(
                        oid,
                        name,
                        ns,
                        TypType::Base,
                        TypCategory::UserDefined,
                    );
                    lemma_new_type(c2, row);
                    lemma_with_array_type(c2.with_type(row), ns, name, oid);
                },
                _ => {},
            }
        },
        _ => {},
    }
}

proof fn lemma_cast_created(c: CatalogView, stmt: CreateCastStmt)
    requires
        consistent(c),
    ensures
        follows(c, cast_created(c, stmt).1),
{
    lemma_allocated(c);
    match (opt_named_type(c, stmt.sourcetype), opt_named_type(c, stmt.targettype), c.allocated()) {
        (Some(source), Some(target), (Ok(oid), c1)) => {
            lemma_new_cast(
                c1,
                PgCast {
                    oid,
                    castsource: source,
                    casttarget: target,
                    castcontext: cast_context(stmt.context),
                    castmethod: cast_method(stmt),
                },
            );
        },
        _ => {},
    }
}

// ── Routines, operators, collations, sequences ──────────────────────────────

proof fn lemma_aggregate_created(c: CatalogView, stmt: DefineStmt)
    requires
        consistent(c),
    ensures
        follows(c, aggregate_created(c, stmt).1),
{
    lemma_ensured_names(c, texts(stmt.defnames@));
    match ensured_names(c, texts(stmt.defnames@)) {
        (Ok((ns, name)), c1) => {
            lemma_allocated(c1);
            match c1.allocated() {
                (Ok(oid), c2) => {
                    let row = aggregate_row(c2, oid, ns, name, stmt);
                    lemma_new_proc(c2, row);
                    lemma_with_aggregate(
                        c2.with_proc(row),
                        PgAggregate {
                            aggfnoid: oid,
                            aggfinalfn: first_function(
                                c2,
                                aggregate_options(c2, stmt.definition@).1,
                            ),
                        },
                    );
                },
                _ => {},
            }
        },
        _ => {},
    }
}

proof fn lemma_function_created(c: CatalogView, stmt: CreateFunctionStmt)
    requires
        consistent(c),
    ensures
        follows(c, function_created(c, stmt).1),
{
    lemma_ensured_names(c, texts(stmt.funcname@));
    match ensured_names(c, texts(stmt.funcname@)) {
        (Ok((ns, name)), c1) => {
            let row = routine_row(c1, 0, ns, name, stmt);
            match same_arguments(c1, c1.procs_named(ns, name), row.proargtypes) {
                Some(old_oid) => {
                    lemma_without_proc(c1, old_oid);
                },
                None => {},
            }
            let c2 = way_made(c1, ns, name, stmt).1;
            lemma_allocated(c2);
            match c2.allocated() {
                (Ok(oid), c3) => {
                    lemma_new_proc(c3, routine_row(c1, oid, ns, name, stmt));
                },
                _ => {},
            }
        },
        _ => {},
    }
}

proof fn lemma_operator_created(c: CatalogView, stmt: DefineStmt)
    requires
        consistent(c),
    ensures
        follows(c, operator_created(c, stmt).1),
{
    let parts = texts(stmt.defnames@);
    let o = operator_options(c, stmt.definition@);
    lemma_ensured_namespace(c, operator_schema(c, parts));
    match (o.right, ensured_namespace(c, operator_schema(c, parts))) {
        (Some(right), (Ok(ns), c1)) => {
            lemma_allocated(c1);
            match c1.allocated() {
                (Ok(oid), c2) => {
                    lemma_new_operator(
                        c2,
                        PgOperatorView {
                            oid,
                            oprname: parts.last(),
                            oprnamespace: ns,
                            oprleft: o.left,
                            oprright: right,
                            oprresult: operator_result(c, o, right),
                        },
                    );
                },
                _ => {},
            }
        },
        _ => {},
    }
}

proof fn lemma_collation_created(c: CatalogView, stmt: DefineStmt)
    requires
        consistent(c),
    ensures
        follows(c, collation_created(c, stmt).1),
{
    lemma_ensured_names(c, texts(stmt.defnames@));
    match ensured_names(c, texts(stmt.defnames@)) {
        (Ok((ns, name)), c1) => {
            lemma_allocated(c1);
            match (copied_encoding(c1, stmt.definition@, 0, -1i32), c1.allocated()) {
                (Ok(encoding), (Ok(oid), c2)) => {
                    if map_get(c1.collation_by_qname, (ns, name)) is None {
                        lemma_new_collation(
                            c2,
                            PgCollationView {
                                oid,
                                collname: name,
                                collnamespace: ns,
                                collencoding: encoding,
                            },
                        );
                    }
                },
                _ => {},
            }
        },
        _ => {},
    }
}

proof fn lemma_sequence_created(c: CatalogView, stmt: CreateSeqStmt)
    requires
        consistent(c),
    ensures
        follows(c, sequence_created(c, stmt).1),
{
    match stmt.sequence {
        Some(rv) => {
            lemma_ensured_range(c, rv);
            match ensured_range(c, rv) {
                (Ok((ns, name)), c1) => {
                    lemma_allocated(c1);
                    match c1.allocated() {
                        (Ok(oid), c2) => {
                            lemma_new_class(
                                c2,
                                PgClassView {
                                    oid,
                                    relname: name,
                                    relnamespace: ns,
                                    relkind: RelKind::Sequence,
                                    reltype: None,
                                },
                            );
                        },
                        _ => {},
                    }
                },
                _ => {},
            }
        },
        None => {},
    }
}

// ── Relations that leave ────────────────────────────────────────────────────

proof fn lemma_without_index_relations(c: CatalogView, oids: Seq<u32>, n: int)
    requires
        consistent(c),
    ensures
        follows(c, without_index_relations(c, oids, n)),
    decreases n,
{
    if n > 0 {
        lemma_without_index_relations(c, oids, n - 1);
        let c1 = without_index_relations(c, oids, n - 1);
        lemma_without_class(c1, oids[n - 1]);
        lemma_without_dependencies(c1.without_class(oids[n - 1]), PG_CLASS_RELID, oids[n - 1]);
    }
}

proof fn lemma_relation_dropped(c: CatalogView, relid: u32)
    requires
        consistent(c),
    ensures
        follows(c, relation_dropped(c, relid)),
{
    match c.get_class(relid) {
        None => {},
        Some(k) => {
            lemma_without_class(c, relid);
            let a1 = c.without_class(relid);
            lemma_without_dependencies(a1, PG_CLASS_RELID, relid);
            let a2 = a1.without_dependencies(PG_CLASS_RELID, relid);
            lemma_without_constraints_of(a2, relid);
            let a3 = a2.without_constraints_of(relid);
            lemma_without_rewrites_of(a3, relid);
            let a4 = a3.without_rewrites_of(relid);
            lemma_rest(a4, without_inheritance(a4, relid));
            let c1 = without_inheritance(a4, relid);
            let oids = owned_keys::<PgIndex>(c1.pg_index, relid);
            lemma_without_indexes_of(c1, relid);
            lemma_without_index_relations(
                c1.without_indexes_of(relid),
                oids,
                oids.len() as int,
            );
            let c2 = if has_indexes(k.relkind) {
                without_index_relations(c1.without_indexes_of(relid), oids, oids.len() as int)
            } else {
                c1
            };
            match k.reltype {
                None => {},
                Some(t) => {
                    lemma_without_type(c2, t);
                    match c2.array_type_of(t) {
                        Some(a) => {
                            lemma_without_type(c2, a);
                            lemma_without_type(c2.without_type(a), t);
                        },
                        None => {},
                    }
                },
            }
        },
    }
}

proof fn lemma_views_dropped(c: CatalogView, pending: Seq<u32>, done: Seq<u32>)
    requires
        consistent(c),
        done.no_duplicates(),
    ensures
        follows(c, views_dropped(c, pending, done)),
    decreases 0x1_0000_0000 - done.len(), pending.len(),
{
    if pending.len() > 0 {
        let oid = pending.last();
        let rest = pending.drop_last();
        if done.contains(oid) {
            lemma_views_dropped(c, rest, done);
        } else {
            lemma_push_fresh(done, oid);
            lemma_relation_dropped(c, oid);
            lemma_views_dropped(
                relation_dropped(c, oid),
                rest + not_in(views_on(c, PG_CLASS_RELID, oid, None), done),
                done.push(oid),
            );
        }
    }
}

proof fn lemma_listed_views_dropped(c: CatalogView, views: Seq<u32>)
    requires
        consistent(c),
    ensures
        follows(c, views_dropped(c, views, Seq::empty())),
{
    lemma_views_dropped(c, views, Seq::empty());
}

proof fn lemma_without_constraints(c: CatalogView, oids: Seq<u32>, n: int)
    requires
        consistent(c),
    ensures
        follows(c, without_constraints(c, oids, n)),
    decreases n,
{
    if n > 0 {
        lemma_without_constraints(c, oids, n - 1);
        lemma_without_constraint(without_constraints(c, oids, n - 1), oids[n - 1]);
    }
}

proof fn lemma_known_relation_drop(c: CatalogView, oid: u32, name: Seq<char>, cascade: bool)
    requires
        consistent(c),
    ensures
        follows(c, known_relation_drop(c, oid, name, cascade).1),
{
    let views = views_on(c, PG_CLASS_RELID, oid, None);
    let keys = foreign_keys_to(c, c.pg_constraint, oid);
    lemma_listed_views_dropped(c, views);
    let c1 = if views.len() > 0 {
        views_dropped(c, views, Seq::empty())
    } else {
        c
    };
    lemma_without_constraints(c1, firsts(keys), keys.len() as int);
    lemma_relation_dropped(without_constraints(c1, firsts(keys), keys.len() as int), oid);
}

proof fn lemma_relation_drop(c: CatalogView, obj: ObjectRef, missing_ok: bool, cascade: bool)
    requires
        consistent(c),
    ensures
        follows(c, relation_drop(c, obj, missing_ok, cascade).1),
{
    match obj {
        ObjectRef::List(items) => {
            let names = listed_names(c, item_texts(items@));
            match class_at(c, names) {
                Some(oid) => {
                    lemma_known_relation_drop(c, oid, names.1, cascade);
                },
                None => {},
            }
        },
        _ => {},
    }
}

proof fn lemma_index_drop(c: CatalogView, obj: ObjectRef, missing_ok: bool)
    requires
        consistent(c),
    ensures
        follows(c, index_drop(c, obj, missing_ok).1),
{
    match obj {
        ObjectRef::List(items) => {
            let names = listed_names(c, item_texts(items@));
            match class_at(c, names) {
                Some(oid) => {
                    let keys = unique_named(c.pg_constraint, indexed_table(c, oid), names.1);
                    lemma_without_index(c, oid);
                    let c1 = c.without_index(oid);
                    lemma_without_constraints(c1, keys, keys.len() as int);
                    let c2 = without_constraints(c1, keys, keys.len() as int);
                    lemma_without_class(c2, oid);
                    lemma_without_dependencies(c2.without_class(oid), PG_CLASS_RELID, oid);
                },
                None => {},
            }
        },
        _ => {},
    }
}

// ── Types that leave ────────────────────────────────────────────────────────

proof fn lemma_without_columns_of_type(
    c: CatalogView,
    relids: Seq<u32>,
    n: int,
    t: u32,
    array: Option<u32>,
)
    requires
        consistent(c),
    ensures
        follows(c, without_columns_of_type(c, relids, n, t, array)),
    decreases n,
{
    if n > 0 {
        lemma_without_columns_of_type(c, relids, n - 1, t, array);
        let c1 = without_columns_of_type(c, relids, n - 1, t, array);
        let p = |a: PgAttributeView| !column_has_type(a, t, array);
        lemma_with_fewer_attributes(c1, relids[n - 1], p);
        assert(other_columns(c1.attributes_of(relids[n - 1]), t, array) == c1.attributes_of(
            relids[n - 1],
        ).filter(p));
    }
}

proof fn lemma_without_type_and_array(c: CatalogView, t: u32, array: Option<u32>)
    requires
        consistent(c),
    ensures
        follows(c, without_type_and_array(c, t, array)),
{
    let c1 = match array {
        Some(a) => {
            lemma_without_type(c, a);
            lemma_without_dependencies(c.without_type(a), PG_TYPE_RELID, a);
            c.without_type(a).without_dependencies(PG_TYPE_RELID, a)
        },
        None => c,
    };
    lemma_without_type(c1, t);
    lemma_without_dependencies(c1.without_type(t), PG_TYPE_RELID, t);
}

proof fn lemma_known_type_drop(c: CatalogView, t: u32, name: Seq<char>, cascade: bool)
    requires
        consistent(c),
    ensures
        follows(c, known_type_drop(c, t, name, cascade).1),
{
    let array = c.array_type_of(t);
    let relids = relations_using(c.pg_attribute, t, array);
    let views = views_on(c, PG_TYPE_RELID, t, None);
    lemma_without_columns_of_type(c, relids, relids.len() as int, t, array);
    let c1 = without_columns_of_type(c, relids, relids.len() as int, t, array);
    lemma_listed_views_dropped(c1, views);
    let c2 = if views.len() > 0 {
        views_dropped(c1, views, Seq::empty())
    } else {
        c1
    };
    lemma_without_type_and_array(c2, t, array);
}

proof fn lemma_type_drop(c: CatalogView, obj: ObjectRef, missing_ok: bool, cascade: bool)
    requires
        consistent(c),
    ensures
        follows(c, type_drop(c, obj, missing_ok, cascade).1),
{
    match type_parts(obj) {
        Some(parts) => {
            let names = listed_names(c, parts);
            match type_at(c, names) {
                Some(t) => {
                    lemma_known_type_drop(c, t, names.1, cascade);
                },
                None => {},
            }
        },
        None => {},
    }
}

// ── Routines, operators, casts that leave ───────────────────────────────────

proof fn lemma_without_routine(c: CatalogView, oid: u32)
    requires
        consistent(c),
    ensures
        follows(c, without_routine(c, oid)),
{
    lemma_without_proc(c, oid);
    lemma_without_dependencies(c.without_proc(oid), PG_PROC_RELID, oid);
}

proof fn lemma_known_routine_drop(
    c: CatalogView,
    oid: u32,
    name: Seq<char>,
    args: Seq<u32>,
    cascade: bool,
    kind: Seq<char>,
    role: Seq<char>,
)
    requires
        consistent(c),
    ensures
        follows(c, known_routine_drop(c, oid, name, args, cascade, kind, role).1),
{
    let views = views_on(c, PG_PROC_RELID, oid, None);
    lemma_listed_views_dropped(c, views);
    lemma_without_routine(c, oid);
    lemma_without_routine(views_dropped(c, views, Seq::empty()), oid);
}

proof fn lemma_function_drop(
    c: CatalogView,
    obj: ObjectRef,
    missing_ok: bool,
    cascade: bool,
    procedure: bool,
)
    requires
        consistent(c),
    ensures
        follows(c, function_drop(c, obj, missing_ok, cascade, procedure).1),
{
    match obj {
        ObjectRef::WithArgs(o) => match qualified(texts(o.objname@)) {
            Some((schema, name)) => {
                let args = known_args(c, o.objargs@);
                let wanted = if o.objargs@.len() == 0 && o.args_unspecified {
                    None
                } else {
                    Some(args)
                };
                let want = if procedure {
                    RoutineKind::Procedure
                } else {
                    RoutineKind::Function
                };
                match routine_named(c, schema, name, want, wanted) {
                    Some(oid) => {
                        lemma_known_routine_drop(
                            c,
                            oid,
                            name,
                            args,
                            cascade,
                            routine_word(procedure),
                            routine_word(procedure),
                        );
                    },
                    None => {},
                }
            },
            None => {},
        },
        _ => {},
    }
}

proof fn lemma_aggregate_drop(c: CatalogView, obj: ObjectRef, missing_ok: bool, cascade: bool)
    requires
        consistent(c),
    ensures
        follows(c, aggregate_drop(c, obj, missing_ok, cascade).1),
{
    match obj {
        ObjectRef::WithArgs(o) => match qualified(texts(o.objname@)) {
            Some((schema, name)) => {
                let args = known_args(c, o.objargs@);
                match routine_named(c, schema, name, RoutineKind::Aggregate, Some(args)) {
                    Some(oid) => {
                        lemma_known_routine_drop(
                            c,
                            oid,
                            name,
                            args,
                            cascade,
                            "function"@,
                            "aggregate"@,
                        );
                    },
                    None => {},
                }
            },
            None => {},
        },
        _ => {},
    }
}

proof fn lemma_operator_drop(c: CatalogView, obj: ObjectRef, missing_ok: bool)
    requires
        consistent(c),
    ensures
        follows(c, operator_drop(c, obj, missing_ok).1),
{
    match obj {
        ObjectRef::WithArgs(o) => match (
            qualified(texts(o.objname@)),
            operand_types(c, o.objargs@),
        ) {
            (Some((schema, name)), (left, Some(right))) => match first_exact_operator(
                c,
                operators_on_path(c, c.routine_path(schema), name),
                left,
                right,
            ) {
                Some(oid) => {
                    lemma_without_operator(c, oid);
                    lemma_without_dependencies(c.without_operator(oid), PG_OPERATOR_RELID, oid);
                },
                None => {},
            },
            _ => {},
        },
        _ => {},
    }
}

proof fn lemma_cast_drop(c: CatalogView, obj: ObjectRef, missing_ok: bool)
    requires
        consistent(c),
    ensures
        follows(c, cast_drop(c, obj, missing_ok).1),
{
    match obj {
        ObjectRef::List(items) => {
            if items@.len() == 2 {
                match (item_type(c, items@[0]), item_type(c, items@[1])) {
                    (Some(source), Some(target)) => match map_get(
                        c.cast_by_pair,
                        (source, target),
                    ) {
                        Some(oid) => {
                            lemma_without_cast(c, oid);
                            lemma_without_dependencies(c.without_cast(oid), PG_CAST_RELID, oid);
                        },
                        None => {},
                    },
                    _ => {},
                }
            }
        },
        _ => {},
    }
}

// ── Extensions and schemas that leave ───────────────────────────────────────

proof fn lemma_without_member(c: CatalogView, classid: u32, oid: u32)
    requires
        consistent(c),
    ensures
        follows(c, without_member(c, classid, oid)),
{
    lemma_without_type(c, oid);
    lemma_without_dependencies(c.without_type(oid), PG_TYPE_RELID, oid);
    lemma_without_proc(c, oid);
    lemma_without_dependencies(c.without_proc(oid), PG_PROC_RELID, oid);
    lemma_without_cast(c, oid);
    lemma_without_dependencies(c.without_cast(oid), PG_CAST_RELID, oid);
    lemma_without_operator(c, oid);
    lemma_without_dependencies(c.without_operator(oid), PG_OPERATOR_RELID, oid);
    lemma_relation_dropped(c, oid);
}

proof fn lemma_without_members(c: CatalogView, members: Seq<(u32, u32)>, n: int)
    requires
        consistent(c),
    ensures
        follows(c, without_members(c, members, n)),
    decreases n,
{
    if n > 0 {
        lemma_without_members(c, members, n - 1);
        lemma_without_member(
            without_members(c, members, n - 1),
            members[n - 1].0,
            members[n - 1].1,
        );
    }
}

proof fn lemma_extension_drop(c: CatalogView, obj: ObjectRef, missing_ok: bool)
    requires
        consistent(c),
    ensures
        follows(c, extension_drop(c, obj, missing_ok).1),
{
    match obj {
        ObjectRef::Text(name) => match map_get(c.extension_by_name, (0, name@)) {
            Some(ext) => {
                let members = extension_members(c.pg_depend, ext);
                lemma_without_members(c, members, members.len() as int);
                let c1 = without_members(c, members, members.len() as int);
                lemma_without_extension(c1, ext);
                lemma_without_dependencies(c1.without_extension(ext), PG_EXTENSION_RELID, ext);
            },
            None => {},
        },
        _ => {},
    }
}

proof fn lemma_without_relations(c: CatalogView, oids: Seq<u32>, n: int)
    requires
        consistent(c),
    ensures
        follows(c, without_relations(c, oids, n)),
    decreases n,
{
    if n > 0 {
        lemma_without_relations(c, oids, n - 1);
        lemma_relation_dropped(without_relations(c, oids, n - 1), oids[n - 1]);
    }
}

proof fn lemma_without_types(c: CatalogView, oids: Seq<u32>, n: int)
    requires
        consistent(c),
    ensures
        follows(c, without_types(c, oids, n)),
    decreases n,
{
    if n > 0 {
        lemma_without_types(c, oids, n - 1);
        let c1 = without_types(c, oids, n - 1);
        lemma_without_type(c1, oids[n - 1]);
        lemma_without_dependencies(c1.without_type(oids[n - 1]), PG_TYPE_RELID, oids[n - 1]);
    }
}

proof fn lemma_without_routines(c: CatalogView, oids: Seq<u32>, n: int)
    requires
        consistent(c),
    ensures
        follows(c, without_routines(c, oids, n)),
    decreases n,
{
    if n > 0 {
        lemma_without_routines(c, oids, n - 1);
        let c1 = without_routines(c, oids, n - 1);
        lemma_without_proc(c1, oids[n - 1]);
        lemma_without_dependencies(c1.without_proc(oids[n - 1]), PG_PROC_RELID, oids[n - 1]);
    }
}

proof fn lemma_without_operators(c: CatalogView, oids: Seq<u32>, n: int)
    requires
        consistent(c),
    ensures
        follows(c, without_operators(c, oids, n)),
    decreases n,
{
    if n > 0 {
        lemma_without_operators(c, oids, n - 1);
        let c1 = without_operators(c, oids, n - 1);
        lemma_without_operator(c1, oids[n - 1]);
        lemma_without_dependencies(
            c1.without_operator(oids[n - 1]),
            PG_OPERATOR_RELID,
            oids[n - 1],
        );
    }
}

proof fn lemma_schema_drop(c: CatalogView, obj: ObjectRef, missing_ok: bool, cascade: bool)
    requires
        consistent(c),
    ensures
        follows(c, schema_drop(c, obj, missing_ok, cascade).1),
{
    match obj {
        ObjectRef::Text(name) => match c.namespace_oid(name@) {
            Some(ns) => {
                let classes = owned_keys::<PgClass>(c.pg_class, ns);
                lemma_listed_views_dropped(c, classes);
                let c0 = views_dropped(c, classes, Seq::empty());
                lemma_without_relations(c0, classes, classes.len() as int);
                let c1 = without_relations(c0, classes, classes.len() as int);
                let types = owned_keys::<PgType>(c1.pg_type, ns);
                lemma_without_types(c1, types, types.len() as int);
                let c2 = without_types(c1, types, types.len() as int);
                let procs = owned_keys::<PgProc>(c2.pg_proc, ns);
                lemma_without_routines(c2, procs, procs.len() as int);
                let c3 = without_routines(c2, procs, procs.len() as int);
                let operators = owned_keys::<PgOperator>(c3.pg_operator, ns);
                lemma_without_operators(c3, operators, operators.len() as int);
                let c4 = without_operators(c3, operators, operators.len() as int);
                assert(c4 == schema_emptied(c, ns));
                lemma_rest(c4, off_search_path(c4, ns));
                let c5 = off_search_path(c4, ns);
                lemma_without_namespace(c5, ns);
                lemma_without_dependencies(c5.without_namespace(ns), PG_NAMESPACE_RELID, ns);
            },
            None => {},
        },
        _ => {},
    }
}

proof fn lemma_object_drop(
    c: CatalogView,
    kind: ObjectType,
    obj: ObjectRef,
    missing_ok: bool,
    cascade: bool,
)
    requires
        consistent(c),
    ensures
        follows(c, object_drop(c, kind, obj, missing_ok, cascade).1),
{
    match kind {
        ObjectType::Table
        | ObjectType::View
        | ObjectType::Matview
        | ObjectType::Sequence => lemma_relation_drop(c, obj, missing_ok, cascade),
        ObjectType::Type | ObjectType::Domain => lemma_type_drop(c, obj, missing_ok, cascade),
        ObjectType::Function => lemma_function_drop(c, obj, missing_ok, cascade, false),
        ObjectType::Procedure => lemma_function_drop(c, obj, missing_ok, cascade, true),
        ObjectType::Extension => lemma_extension_drop(c, obj, missing_ok),
        ObjectType::Cast => lemma_cast_drop(c, obj, missing_ok),
        ObjectType::Operator => lemma_operator_drop(c, obj, missing_ok),
        ObjectType::Aggregate => lemma_aggregate_drop(c, obj, missing_ok, cascade),
        ObjectType::Schema => lemma_schema_drop(c, obj, missing_ok, cascade),
        ObjectType::Index => lemma_index_drop(c, obj, missing_ok),
        _ => {},
    }
}

proof fn lemma_objects_dropped(c: CatalogView, stmt: DropStmt, i: int)
    requires
        consistent(c),
    ensures
        follows(c, objects_dropped(c, stmt, i).1),
    decreases stmt.objects@.len() - i,
{
    if 0 <= i < stmt.objects@.len() {
        lemma_object_drop(
            c,
            stmt.remove_type,
            stmt.objects@[i],
            stmt.missing_ok,
            stmt.cascade,
        );
        let c1 = object_drop(
            c,
            stmt.remove_type,
            stmt.objects@[i],
            stmt.missing_ok,
            stmt.cascade,
        ).1;
        lemma_objects_dropped(c1, stmt, i + 1);
    }
}

// ── Renames ─────────────────────────────────────────────────────────────────

proof fn lemma_with_types_moved(
    c: CatalogView,
    ns: u32,
    name: Seq<char>,
    new_name: Seq<char>,
    new_ns: u32,
)
    requires
        consistent(c),
    ensures
        follows(c, with_types_moved(c, ns, name, new_name, new_ns)),
{
    match c.type_named(ns, name) {
        Some(oid) => {
            lemma_renamed_type(c, oid, new_name, new_ns);
            let c1 = c.with_type_renamed(oid, new_name, new_ns);
            match c1.type_named(ns, "_"@ + name) {
                Some(array) => {
                    lemma_renamed_type(c1, array, "_"@ + new_name, new_ns);
                },
                None => {},
            }
        },
        None => {},
    }
}

proof fn lemma_with_relation_moved(
    c: CatalogView,
    relid: u32,
    ns: u32,
    name: Seq<char>,
    new_name: Seq<char>,
    new_ns: u32,
)
    requires
        consistent(c),
    ensures
        follows(c, with_relation_moved(c, relid, ns, name, new_name, new_ns)),
{
    lemma_renamed_class(c, relid, new_name, new_ns);
    lemma_with_types_moved(
        c.with_class_renamed(relid, new_name, new_ns),
        ns,
        name,
        new_name,
        new_ns,
    );
}

proof fn lemma_relation_renamed(c: CatalogView, stmt: RenameStmt)
    requires
        consistent(c),
    ensures
        follows(c, relation_renamed(c, stmt).1),
{
    match stmt.relation {
        Some(rv) => {
            let names = range_names(c, rv);
            match placed_relation(c, names) {
                Some((ns, relid)) => {
                    lemma_with_relation_moved(c, relid, ns, names.1, stmt.newname@, ns);
                },
                None => {},
            }
        },
        None => {},
    }
}

proof fn lemma_relation_moved(c: CatalogView, stmt: AlterObjectSchemaStmt, new_ns: u32)
    requires
        consistent(c),
    ensures
        follows(c, relation_moved(c, stmt, new_ns).1),
{
    match stmt.relation {
        Some(rv) => {
            let names = range_names(c, rv);
            match placed_relation(c, names) {
                Some((ns, relid)) => {
                    lemma_with_relation_moved(c, relid, ns, names.1, names.1, new_ns);
                },
                None => {},
            }
        },
        None => {},
    }
}

proof fn lemma_constraint_named(rows: Seq<PgConstraintView>, relid: u32, name: Seq<char>)
    ensures
        constraint_named(rows, relid, name) matches Some(k) ==> rows.contains(k),
    decreases rows.len(),
{
    if rows.len() > 0 {
        let front = rows.drop_last();
        lemma_constraint_named(front, relid, name);
        match constraint_named(front, relid, name) {
            Some(k) => {
                let i = choose|i: int| 0 <= i < front.len() && front[i] == k;
                assert(rows[i] == k);
            },
            None => {
                assert(rows[rows.len() - 1] == rows.last());
            },
        }
    }
}

proof fn lemma_constraint_renamed(c: CatalogView, stmt: RenameStmt)
    requires
        consistent(c),
    ensures
        follows(c, constraint_renamed(c, stmt).1),
{
    match stmt.relation {
        Some(rv) => match placed_relation(c, range_names(c, rv)) {
            Some((ns, relid)) => {
                lemma_constraint_named(c.pg_constraint, relid, stmt.subname@);
                match constraint_named(c.pg_constraint, relid, stmt.subname@) {
                    Some(k) => {
                        let i = choose|i: int|
                            0 <= i < c.pg_constraint.len() && c.pg_constraint[i] == k;
                        let row = PgConstraintView { conname: stmt.newname@, ..k };
                        lemma_constraint_changed(c, row, i);
                        let c1 = c.with_constraint(row);
                        match index_at(c1, ns, k.conname) {
                            Some(oid) => {
                                lemma_renamed_class(c1, oid, stmt.newname@, ns);
                            },
                            None => {},
                        }
                    },
                    None => {},
                }
            },
            None => {},
        },
        None => {},
    }
}

proof fn lemma_column_position(attrs: Seq<PgAttributeView>, name: Seq<char>)
    ensures
        0 <= column_position(attrs, name) <= attrs.len(),
    decreases attrs.len(),
{
    if attrs.len() > 0 {
        lemma_column_position(attrs.drop_first(), name);
    }
}

/// A column of a relation changes but for what it belongs to.
proof fn lemma_column_replaced(c: CatalogView, relid: u32, i: int, a: PgAttributeView)
    requires
        consistent(c),
        0 <= i < c.attributes_of(relid).len(),
        a.attrelid == c.attributes_of(relid)[i].attrelid,
    ensures
        follows(c, c.with_attributes(relid, c.attributes_of(relid).update(i, a))),
{
    lemma_owned(c, relid);
    let attrs = c.attributes_of(relid);
    let after = attrs.update(i, a);
    assert forall|k: int| 0 <= k < after.len() implies (#[trigger] after[k]).attrelid == relid by {
        assert(RelAttrsView { relid, attrs }.attrs[k].attrelid == relid);
    }
    lemma_with_attributes(c, relid, after);
}

proof fn lemma_column_renamed(c: CatalogView, stmt: RenameStmt)
    requires
        consistent(c),
    ensures
        follows(c, column_renamed(c, stmt).1),
{
    match stmt.relation {
        Some(rv) => match placed_relation(c, range_names(c, rv)) {
            Some((_, relid)) => {
                let attrs = c.attributes_of(relid);
                let i = column_position(attrs, stmt.subname@);
                lemma_column_position(attrs, stmt.subname@);
                if i < attrs.len() {
                    lemma_column_replaced(
                        c,
                        relid,
                        i,
                        PgAttributeView { attname: stmt.newname@, ..attrs[i] },
                    );
                }
            },
            None => {},
        },
        None => {},
    }
}

proof fn lemma_routine_moved(
    c: CatalogView,
    obj: ObjectRef,
    t: ObjectType,
    new_name: Option<Seq<char>>,
    new_ns: Option<u32>,
    missing_ok: bool,
)
    requires
        consistent(c),
    ensures
        follows(c, routine_moved(c, obj, t, new_name, new_ns, missing_ok).1),
{
    match routine_target(c, obj) {
        Some((schema, name, args)) => match routine_on_path(
            c,
            c.routine_path(schema),
            name,
            wanted_kind(t),
            Some(args),
        ) {
            Some((ns, oid)) => {
                lemma_renamed_proc(
                    c,
                    oid,
                    match new_name {
                        Some(n) => n,
                        None => name,
                    },
                    match new_ns {
                        Some(n) => n,
                        None => ns,
                    },
                );
            },
            None => {},
        },
        None => {},
    }
}

proof fn lemma_type_moved(
    c: CatalogView,
    obj: ObjectRef,
    new_name: Option<Seq<char>>,
    new_ns: Option<u32>,
    missing_ok: bool,
)
    requires
        consistent(c),
    ensures
        follows(c, type_moved(c, obj, new_name, new_ns, missing_ok).1),
{
    match type_names(c, obj) {
        Some(names) => {
            let ns = c.namespace_oid(names.0).unwrap();
            lemma_with_types_moved(
                c,
                ns,
                names.1,
                match new_name {
                    Some(n) => n,
                    None => names.1,
                },
                match new_ns {
                    Some(n) => n,
                    None => ns,
                },
            );
        },
        None => {},
    }
}

proof fn lemma_renamed(c: CatalogView, stmt: RenameStmt)
    requires
        consistent(c),
    ensures
        follows(c, renamed(c, stmt).1),
{
    lemma_relation_renamed(c, stmt);
    lemma_routine_moved(
        c,
        stmt.object,
        stmt.rename_type,
        Some(stmt.newname@),
        None,
        stmt.missing_ok,
    );
    lemma_type_moved(c, stmt.object, Some(stmt.newname@), None, stmt.missing_ok);
    lemma_column_renamed(c, stmt);
    lemma_constraint_renamed(c, stmt);
    match c.namespace_oid(stmt.subname@) {
        Some(ns) => {
            lemma_renamed_namespace(c, ns, stmt.newname@);
        },
        None => {},
    }
}

proof fn lemma_schema_set(c: CatalogView, stmt: AlterObjectSchemaStmt)
    requires
        consistent(c),
    ensures
        follows(c, schema_set(c, stmt).1),
{
    lemma_ensured_namespace(c, stmt.newschema@);
    match ensured_namespace(c, stmt.newschema@) {
        (Ok(ns), c1) => {
            lemma_relation_moved(c1, stmt, ns);
            lemma_routine_moved(
                c1,
                stmt.object,
                stmt.object_type,
                None,
                Some(ns),
                stmt.missing_ok,
            );
            lemma_type_moved(c1, stmt.object, None, Some(ns), stmt.missing_ok);
        },
        _ => {},
    }
}

// ── Constraints ─────────────────────────────────────────────────────────────

proof fn lemma_with_constraint_row(c: CatalogView, relid: u32, p: PendingView)
    requires
        consistent(c),
    ensures
        follows(c, with_constraint_row(c, relid, p).1),
{
    lemma_allocated(c);
    match c.allocated() {
        (Ok(oid), c1) => {
            lemma_new_constraint(c1, constraint_row(oid, relid, p));
        },
        _ => {},
    }
}

proof fn lemma_with_backed_constraint(c: CatalogView, relid: u32, p: PendingView)
    requires
        consistent(c),
    ensures
        follows(c, with_backed_constraint(c, relid, p).1),
{
    lemma_with_constraint_row(c, relid, p);
    let c1 = with_constraint_row(c, relid, p).1;
    lemma_allocated(c1);
    match (c1.get_class(relid), c1.allocated()) {
        (Some(table), (Ok(indexrelid), c2)) => {
            let class = PgClassView {
                oid: indexrelid,
                relname: p.conname,
                relnamespace: table.relnamespace,
                relkind: RelKind::Index,
                reltype: None,
            };
            lemma_new_class(c2, class);
            lemma_with_index(
                c2.with_class(class),
                PgIndexView {
                    indexrelid,
                    indrelid: relid,
                    indnatts: column_count(p.conkey),
                    indnkeyatts: column_count(p.conkey),
                    indisunique: true,
                    indisprimary: p.contype == ConType::PrimaryKey,
                    indkey: p.conkey,
                    indexprs: Seq::empty(),
                    indpred: None,
                },
            );
        },
        _ => {},
    }
}

proof fn lemma_with_backed_constraints(
    c: CatalogView,
    relid: u32,
    list: Seq<PendingView>,
    i: int,
)
    requires
        consistent(c),
    ensures
        follows(c, with_backed_constraints(c, relid, list, i).1),
    decreases list.len() - i,
{
    if 0 <= i < list.len() {
        lemma_with_backed_constraint(c, relid, list[i]);
        lemma_with_backed_constraints(
            with_backed_constraint(c, relid, list[i]).1,
            relid,
            list,
            i + 1,
        );
    }
}

// ── Tables ──────────────────────────────────────────────────────────────────

proof fn lemma_with_columns(c: CatalogView, relid: u32, columns: Seq<ParsedColumnView>, n: int)
    requires
        consistent(c),
    ensures
        follows(c, with_columns(c, relid, columns, n)),
    decreases n,
{
    if n > 0 {
        lemma_with_columns(c, relid, columns, n - 1);
        lemma_with_attribute(
            with_columns(c, relid, columns, n - 1),
            column_row(relid, columns[n - 1], n as i16),
        );
    }
}

proof fn lemma_with_relation(
    c: CatalogView,
    ns: u32,
    name: Seq<char>,
    columns: Seq<ParsedColumnView>,
)
    requires
        consistent(c),
    ensures
        follows(c, with_relation(c, ns, name, columns).1),
{
    lemma_allocated(c);
    match c.allocated() {
        (Ok(relid), c1) => {
            lemma_allocated(c1);
            match c1.allocated() {
                (Ok(composite), c2) => {
                    lemma_allocated(c2);
                    match c2.allocated() {
                        (Ok(array), c3) => {
                            let class = PgClassView {
                                oid: relid,
                                relname: name,
                                relnamespace: ns,
                                relkind: RelKind::Table,
                                reltype: Some(composite),
                            };
                            lemma_new_class(c3, class);
                            let d1 = c3.with_class(class);
                            lemma_with_columns(d1, relid, columns, columns.len() as int);
                            let d2 = with_columns(d1, relid, columns, columns.len() as int);
                            let row = row_type_row(composite, name, ns, relid, Some(array));
                            lemma_new_type(d2, row);
                            let c4 = d2.with_type(row);
                            lemma_with_record_cast(c4, composite);
                            let c5 = with_record_cast(c4, composite).1;
                            lemma_new_type(c5, array_type_row(array, name, ns, composite));
                        },
                        _ => {},
                    }
                },
                _ => {},
            }
        },
        _ => {},
    }
}

proof fn lemma_with_inherited_columns(
    c: CatalogView,
    child: u32,
    existing: Seq<PgAttributeView>,
    parent: Seq<PgAttributeView>,
    i: int,
    attnum: i16,
)
    requires
        consistent(c),
    ensures
        follows(c, with_inherited_columns(c, child, existing, parent, i, attnum).1),
    decreases parent.len() - i,
{
    if 0 <= i < parent.len() {
        if find_attribute(existing, parent[i].attname) is Some {
            lemma_with_inherited_columns(c, child, existing, parent, i + 1, attnum);
        } else if attnum < MAX_ATTNUM {
            let next = (attnum + 1) as i16;
            let row = inherited_row(child, parent[i], next);
            lemma_with_attribute(c, row);
            lemma_with_inherited_columns(
                c.with_attribute(row),
                child,
                existing,
                parent,
                i + 1,
                next,
            );
        }
    }
}

proof fn lemma_with_parents(c: CatalogView, child: u32, parents: Seq<RangeVar>, i: int)
    requires
        consistent(c),
    ensures
        follows(c, with_parents(c, child, parents, i).1),
    decreases parents.len() - i,
{
    if 0 <= i < parents.len() {
        match parent_relation(c, parents[i]) {
            Ok(parent) => {
                let existing = c.attributes_of(child);
                lemma_with_inherited_columns(
                    c,
                    child,
                    existing,
                    c.attributes_of(parent),
                    0,
                    last_attnum(existing),
                );
                let c1 = with_inherited_columns(
                    c,
                    child,
                    existing,
                    c.attributes_of(parent),
                    0,
                    last_attnum(existing),
                ).1;
                let c2 = with_parent(c, child, parent, (i + 1) as i32).1;
                if c2 != c1 {
                    lemma_rest(c1, c2);
                }
                lemma_with_parents(c2, child, parents, i + 1);
            },
            Err(_) => {},
        }
    }
}

proof fn lemma_new_table(c: CatalogView, ns: u32, name: Seq<char>, stmt: CreateStmt)
    requires
        consistent(c),
    ensures
        follows(c, new_table(c, ns, name, stmt).1),
{
    match statement_columns(c, stmt) {
        Ok(columns) => {
            lemma_with_relation(c, ns, name, columns);
            match with_relation(c, ns, name, columns) {
                (Ok(relid), c1) => {
                    lemma_with_parents(c1, relid, stmt.inh_relations@, 0);
                    let c2 = if stmt.partbound {
                        c1
                    } else {
                        with_parents(c1, relid, stmt.inh_relations@, 0).1
                    };
                    match statement_pendings(c2, name, c2.attributes_of(relid), stmt) {
                        Ok(list) => {
                            lemma_with_backed_constraints(c2, relid, list, 0);
                        },
                        Err(_) => {},
                    }
                },
                _ => {},
            }
        },
        Err(_) => {},
    }
}

proof fn lemma_table_created(c: CatalogView, stmt: CreateStmt)
    requires
        consistent(c),
    ensures
        follows(c, table_created(c, stmt).1),
{
    match stmt.relation {
        Some(rv) => {
            lemma_ensured_range(c, rv);
            match ensured_range(c, rv) {
                (Ok((ns, name)), c1) => {
                    lemma_new_table(c1, ns, name, stmt);
                },
                _ => {},
            }
        },
        None => {},
    }
}

// ── Views ───────────────────────────────────────────────────────────────────

proof fn lemma_with_resolved_columns(
    c: CatalogView,
    relid: u32,
    columns: Seq<ResolvedColumnView>,
    n: int,
)
    requires
        consistent(c),
    ensures
        follows(c, with_resolved_columns(c, relid, columns, n)),
    decreases n,
{
    if n > 0 {
        lemma_with_resolved_columns(c, relid, columns, n - 1);
        lemma_with_attribute(
            with_resolved_columns(c, relid, columns, n - 1),
            resolved_row(relid, columns[n - 1], n as i16),
        );
    }
}

proof fn lemma_with_body(
    c: CatalogView,
    relid: u32,
    kind: RelKind,
    body: Option<SerializedAstView>,
)
    requires
        consistent(c),
    ensures
        follows(c, with_body(c, relid, kind, body).1),
{
    lemma_allocated(c);
    match (body, c.allocated()) {
        (Some(b), (Ok(oid), c1)) => {
            lemma_new_rewrite(c1, return_rule(oid, relid, b));
        },
        _ => {},
    }
}

proof fn lemma_relation_installed(
    c: CatalogView,
    ns: u32,
    name: Seq<char>,
    kind: RelKind,
    resolved: Option<ResolvedViewView>,
)
    requires
        consistent(c),
    ensures
        follows(c, relation_installed(c, ns, name, kind, resolved).1),
{
    let columns = match resolved {
        Some(v) => v.columns,
        None => Seq::empty(),
    };
    let body = match resolved {
        Some(v) => Some(v.body),
        None => None,
    };
    lemma_allocated(c);
    match c.allocated() {
        (Ok(relid), c1) => {
            lemma_allocated(c1);
            match c1.allocated() {
                (Ok(composite), c2) => {
                    lemma_allocated(c2);
                    match c2.allocated() {
                        (Ok(array), c3) => {
                            let class = PgClassView {
                                oid: relid,
                                relname: name,
                                relnamespace: ns,
                                relkind: kind,
                                reltype: Some(composite),
                            };
                            lemma_new_class(c3, class);
                            let d1 = c3.with_class(class);
                            lemma_with_resolved_columns(
                                d1,
                                relid,
                                columns,
                                columns.len() as int,
                            );
                            let d2 = with_resolved_columns(
                                d1,
                                relid,
                                columns,
                                columns.len() as int,
                            );
                            let row = row_type_row(composite, name, ns, relid, Some(array));
                            lemma_new_type(d2, row);
                            let d3 = d2.with_type(row);
                            let array_row = array_type_row(array, name, ns, composite);
                            lemma_new_type(d3, array_row);
                            let c4 = d3.with_type(array_row);
                            lemma_with_body(c4, relid, kind, body);
                            let c5 = with_body(c4, relid, kind, body).1;
                            let d4 = relation_installed(c, ns, name, kind, resolved).1;
                            if columns.len() <= MAX_ATTNUM && d4 != c5 {
                                lemma_rest(c5, d4);
                            }
                        },
                        _ => {},
                    }
                },
                _ => {},
            }
        },
        _ => {},
    }
}

proof fn lemma_view_created(c: CatalogView, stmt: ViewStmt)
    requires
        consistent(c),
    ensures
        follows(c, view_created(c, stmt).1),
{
    match stmt.view {
        Some(rv) => {
            lemma_ensured_range(c, rv);
            match ensured_range(c, rv) {
                (Ok((ns, name)), c1) => match opt_resolved_query(
                    c1,
                    stmt.query,
                    node_texts(stmt.aliases@),
                    relation_label(c1, ns, name),
                ) {
                    Ok(resolved) => {
                        let c2 = match c1.class_named(ns, name) {
                            Some(oid) => if stmt.replace {
                                lemma_relation_dropped(c1, oid);
                                relation_dropped(c1, oid)
                            } else {
                                c1
                            },
                            None => c1,
                        };
                        lemma_relation_installed(c2, ns, name, RelKind::View, resolved);
                    },
                    Err(_) => {},
                },
                _ => {},
            }
        },
        None => {},
    }
}

proof fn lemma_table_as_created(c: CatalogView, stmt: CreateTableAsStmt)
    requires
        consistent(c),
    ensures
        follows(c, table_as_created(c, stmt).1),
{
    match stmt.rel {
        Some(rv) => {
            lemma_ensured_range(c, rv);
            match ensured_range(c, rv) {
                (Ok((ns, name)), c1) => match opt_resolved_query(
                    c1,
                    stmt.query,
                    Seq::empty(),
                    relation_label(c1, ns, name),
                ) {
                    Ok(resolved) => {
                        lemma_relation_installed(
                            c1,
                            ns,
                            name,
                            RelKind::MaterializedView,
                            resolved,
                        );
                        lemma_relation_installed(c1, ns, name, RelKind::Table, resolved);
                    },
                    Err(_) => {},
                },
                _ => {},
            }
        },
        None => {},
    }
}

/// A catalog stays consistent when the columns of a view are read from its query again.
pub proof fn law_view_read_again_keeps_the_catalog_consistent(
    c: CatalogView,
    view: u32,
    analysis: Result<Vec<RawColumn>, AnalyzeError>,
)
    requires
        consistent(c),
    ensures
        follows(c, view_refreshed(c, view, analysis).1),
{
    match analysis {
        Ok(cols) => {
            lemma_owned(c, view);
            let attrs = c.attributes_of(view);
            let after = refreshed(attrs, cols@);
            assert forall|k: int| 0 <= k < after.len() implies (#[trigger] after[k]).attrelid
                == view by {
                assert(RelAttrsView { relid: view, attrs }.attrs[k].attrelid == view);
            }
            lemma_with_attributes(c, view, after);
        },
        Err(_) => {},
    }
}

// ── ALTER TABLE ─────────────────────────────────────────────────────────────

proof fn lemma_with_column_changed(
    c: CatalogView,
    relid: u32,
    name: Seq<char>,
    change: ColumnChange,
)
    requires
        consistent(c),
    ensures
        follows(c, with_column_changed(c, relid, name, change)),
{
    let attrs = c.attributes_of(relid);
    let i = column_position(attrs, name);
    lemma_column_position(attrs, name);
    if i < attrs.len() {
        lemma_column_replaced(c, relid, i, changed(attrs[i], change));
    }
}

proof fn lemma_column_altered(
    c: CatalogView,
    relid: u32,
    name: Seq<char>,
    change: ColumnChange,
    missing_ok: bool,
)
    requires
        consistent(c),
    ensures
        follows(c, column_altered(c, relid, name, change, missing_ok).1),
{
    lemma_with_column_changed(c, relid, name, change);
}

proof fn lemma_identity_set(c: CatalogView, relid: u32, cmd: AlterTableCmd)
    requires
        consistent(c),
    ensures
        follows(c, identity_set(c, relid, cmd).1),
{
    match cmd.def {
        AlterDef::Constraint(con) => {
            lemma_column_altered(
                c,
                relid,
                cmd.name@,
                ColumnChange::Identity(sure_identity_kind(con.generated_when@)),
                false,
            );
        },
        AlterDef::Options(options) => {
            lemma_column_altered(c, relid, cmd.name@, option_identity(options@, 0), false);
        },
        _ => {},
    }
}

proof fn lemma_column_added(c: CatalogView, relid: u32, cmd: AlterTableCmd)
    requires
        consistent(c),
    ensures
        follows(c, column_added(c, relid, cmd).1),
{
    match cmd.def {
        AlterDef::Column(cd) => match parsed_column(c, cd, Seq::empty()) {
            Ok(p) => {
                let last = last_attnum(c.attributes_of(relid));
                lemma_with_attribute(c, column_row(relid, p, (last + 1) as i16));
            },
            Err(_) => {},
        },
        _ => {},
    }
}

proof fn lemma_without_column(c: CatalogView, relid: u32, name: Seq<char>)
    requires
        consistent(c),
    ensures
        follows(c, without_column(c, relid, name)),
{
    lemma_with_fewer_attributes(c, relid, unlike(name));
}

proof fn lemma_children_stripped(c: CatalogView, pending: Seq<u32>, name: Seq<char>)
    requires
        consistent(c),
    ensures
        follows(c, children_stripped(c, pending, name)),
    decreases holders(c.pg_attribute, name), pending.len(),
{
    if pending.len() > 0 {
        let child = pending[0];
        let rest = pending.skip(1);
        if find_attribute(c.attributes_of(child), name) is Some {
            let c1 = without_column(c, child, name);
            lemma_fewer_holders(c, child, name);
            lemma_without_column(c, child, name);
            lemma_children_stripped(c1, children_of(c1.pg_inherits, child) + rest, name);
        } else {
            lemma_children_stripped(c, rest, name);
        }
    }
}

proof fn lemma_without_indexes(c: CatalogView, oids: Seq<u32>, n: int)
    requires
        consistent(c),
    ensures
        follows(c, without_indexes(c, oids, n)),
    decreases n,
{
    if n > 0 {
        lemma_without_indexes(c, oids, n - 1);
        let c1 = without_indexes(c, oids, n - 1);
        lemma_without_index(c1, oids[n - 1]);
        let c2 = c1.without_index(oids[n - 1]);
        lemma_without_class(c2, oids[n - 1]);
        lemma_without_dependencies(c2.without_class(oids[n - 1]), PG_CLASS_RELID, oids[n - 1]);
    }
}

proof fn lemma_column_dropped(c: CatalogView, relid: u32, cmd: AlterTableCmd)
    requires
        consistent(c),
    ensures
        follows(c, column_dropped(c, relid, cmd).1),
{
    let name = cmd.name@;
    let views = views_on_column(c, relid, name);
    match find_attribute(c.attributes_of(relid), name) {
        Some(a) => {
            let keys = column_constraints(c.pg_constraint, relid, a.attnum);
            let indexes = column_indexes(c.pg_index, relid, a.attnum);
            lemma_without_constraints(c, keys, keys.len() as int);
            lemma_without_indexes(
                without_constraints(c, keys, keys.len() as int),
                indexes,
                indexes.len() as int,
            );
            let c1 = unblocked(c, relid, a.attnum);
            lemma_listed_views_dropped(c1, views);
            let c2 = if views.len() > 0 {
                views_dropped(c1, views, Seq::empty())
            } else {
                c1
            };
            lemma_without_column(c2, relid, name);
            let c3 = without_column(c2, relid, name);
            lemma_children_stripped(c3, children_of(c3.pg_inherits, relid), name);
        },
        None => {},
    }
}

proof fn lemma_column_retyped(c: CatalogView, relid: u32, cmd: AlterTableCmd)
    requires
        consistent(c),
    ensures
        follows(c, column_retyped(c, relid, cmd).1),
{
    match cmd.def {
        AlterDef::Column(cd) => {
            let target = match opt_named_type(c, cd.target) {
                Some(t) => t,
                None => UNKNOWN,
            };
            let change = ColumnChange::Retyped(target, modifier_of(cd.target)->Ok_0);
            let views = views_on_column(c, relid, cmd.name@);
            lemma_listed_views_dropped(c, views);
            let c1 = if views.len() > 0 {
                views_dropped(c, views, Seq::empty())
            } else {
                c
            };
            lemma_with_column_changed(c1, relid, cmd.name@, change);
        },
        _ => {},
    }
}

proof fn lemma_constraint_dropped(c: CatalogView, relid: u32, cmd: AlterTableCmd)
    requires
        consistent(c),
    ensures
        follows(c, constraint_dropped(c, relid, cmd).1),
{
    let name = cmd.name@;
    match constraint_named(c.pg_constraint, relid, name) {
        Some(k) => {
            lemma_without_constraint(c, k.oid);
            let c1 = match backing_index(c, relid, name) {
                Some(oid) => {
                    lemma_without_index(c, oid);
                    let d = c.without_index(oid);
                    lemma_without_class(d, oid);
                    lemma_without_dependencies(d.without_class(oid), PG_CLASS_RELID, oid);
                    d.without_class(oid).without_dependencies(PG_CLASS_RELID, oid)
                },
                None => c,
            };
            lemma_without_constraint(c1, k.oid);
        },
        None => {},
    }
}

proof fn lemma_with_not_null(c: CatalogView, relid: u32, names: Seq<Seq<char>>)
    requires
        consistent(c),
    ensures
        follows(c, with_not_null(c, relid, names)),
{
    lemma_owned(c, relid);
    let attrs = c.attributes_of(relid);
    let after = not_null_where(attrs, names);
    assert forall|k: int| 0 <= k < after.len() implies (#[trigger] after[k]).attrelid == relid by {
        assert(RelAttrsView { relid, attrs }.attrs[k].attrelid == relid);
    }
    lemma_with_attributes(c, relid, after);
}

proof fn lemma_constraint_added(c: CatalogView, relid: u32, cmd: AlterTableCmd)
    requires
        consistent(c),
    ensures
        follows(c, constraint_added(c, relid, cmd).1),
{
    match cmd.def {
        AlterDef::Constraint(con) => {
            let names = texts(con.keys@);
            match con.contype {
                ConstrType::Primary => {
                    lemma_with_not_null(c, relid, names);
                    let c1 = with_not_null(c, relid, names);
                    lemma_with_backed_constraint(
                        c1,
                        relid,
                        local_pending(
                            chosen_name(con.conname@, plain_relname(c1, relid) + "_pkey"@),
                            ConType::PrimaryKey,
                            numbers_of(c1.attributes_of(relid), names),
                        ),
                    );
                },
                ConstrType::Unique => {
                    lemma_with_backed_constraint(
                        c,
                        relid,
                        local_pending(
                            chosen_name(
                                con.conname@,
                                plain_relname(c, relid) + "_"@ + joined(names, "_"@) + "_key"@,
                            ),
                            ConType::Unique,
                            numbers_of(c.attributes_of(relid), names),
                        ),
                    );
                },
                ConstrType::NotNull => {
                    lemma_with_column_changed(
                        c,
                        relid,
                        not_null_column(con, cmd.name@),
                        ColumnChange::NotNull(true),
                    );
                },
                ConstrType::Check => {
                    lemma_with_constraint_row(
                        c,
                        relid,
                        local_pending(
                            chosen_name(con.conname@, plain_relname(c, relid) + "_check"@),
                            ConType::Check,
                            Seq::empty(),
                        ),
                    );
                },
                ConstrType::Foreign => {
                    let relname = plain_relname(c, relid);
                    let attrs = c.attributes_of(relid);
                    let fk_names = texts(con.fk_attrs@);
                    match fk_pending(
                        c,
                        con,
                        relname,
                        relname + "_"@ + joined(fk_names, "_"@) + "_fkey"@,
                        numbers_of(attrs, fk_names),
                        types_of(attrs, fk_names),
                    ) {
                        Ok(p) => {
                            lemma_with_constraint_row(c, relid, p);
                        },
                        Err(_) => {},
                    }
                },
                _ => {},
            }
        },
        _ => {},
    }
}

proof fn lemma_command_applied(c: CatalogView, relid: u32, cmd: AlterTableCmd)
    requires
        consistent(c),
    ensures
        follows(c, command_applied(c, relid, cmd).1),
{
    let name = cmd.name@;
    match cmd.subtype {
        AlterTableType::AddColumn | AlterTableType::AddColumnToView => lemma_column_added(
            c,
            relid,
            cmd,
        ),
        AlterTableType::DropColumn => lemma_column_dropped(c, relid, cmd),
        AlterTableType::SetNotNull => lemma_column_altered(
            c,
            relid,
            name,
            ColumnChange::NotNull(true),
            false,
        ),
        AlterTableType::DropNotNull => lemma_column_altered(
            c,
            relid,
            name,
            ColumnChange::NotNull(false),
            false,
        ),
        AlterTableType::ColumnDefault => lemma_column_altered(
            c,
            relid,
            name,
            default_change(cmd),
            false,
        ),
        AlterTableType::AlterColumnType => lemma_column_retyped(c, relid, cmd),
        AlterTableType::AddConstraint => lemma_constraint_added(c, relid, cmd),
        AlterTableType::DropConstraint => lemma_constraint_dropped(c, relid, cmd),
        AlterTableType::AddIdentity | AlterTableType::SetIdentity => lemma_identity_set(
            c,
            relid,
            cmd,
        ),
        AlterTableType::DropIdentity => lemma_column_altered(
            c,
            relid,
            name,
            ColumnChange::NoIdentity,
            cmd.missing_ok,
        ),
        AlterTableType::Other => {},
    }
}

proof fn lemma_commands_applied(
    c: CatalogView,
    relid: u32,
    cmds: Seq<AlterTableCmd>,
    i: int,
)
    requires
        consistent(c),
    ensures
        follows(c, commands_applied(c, relid, cmds, i).1),
    decreases cmds.len() - i,
{
    if 0 <= i < cmds.len() {
        lemma_command_applied(c, relid, cmds[i]);
        lemma_commands_applied(command_applied(c, relid, cmds[i]).1, relid, cmds, i + 1);
    }
}

proof fn lemma_table_altered(c: CatalogView, stmt: AlterTableStmt)
    requires
        consistent(c),
    ensures
        follows(c, table_altered(c, stmt).1),
{
    match stmt.relation {
        Some(rv) => match class_at(c, range_names(c, rv)) {
            Some(relid) => {
                lemma_commands_applied(c, relid, stmt.cmds@, 0);
            },
            None => {},
        },
        None => {},
    }
}

proof fn lemma_index_created(c: CatalogView, stmt: IndexStmt)
    requires
        consistent(c),
    ensures
        follows(c, index_created(c, stmt).1),
{
    match stmt.relation {
        Some(rv) => {
            let names = range_names(c, rv);
            match class_at(c, names) {
                Some(relid) => match index_key(c.attributes_of(relid), stmt.index_params@) {
                    Some(nums) => {
                        lemma_with_constraint_row(
                            c,
                            relid,
                            local_pending(
                                chosen_name(
                                    stmt.idxname@,
                                    names.1 + "_"@ + joined(
                                        column_names(stmt.index_params@),
                                        "_"@,
                                    ) + "_key"@,
                                ),
                                ConType::Unique,
                                nums,
                            ),
                        );
                    },
                    None => {},
                },
                None => {},
            }
        },
        None => {},
    }
}

// ── Statements ──────────────────────────────────────────────────────────────

proof fn lemma_statements_applied(c: CatalogView, list: Seq<Statement>, i: int)
    requires
        consistent(c),
    ensures
        follows(c, statements_applied(c, list, i).1),
    decreases list, 0nat, list.len() - i,
{
    if 0 <= i < list.len() {
        lemma_statement_applied(c, list[i]);
        lemma_statements_applied(statement_applied(c, list[i]).1, list, i + 1);
    }
}

proof fn lemma_schema_created(c: CatalogView, stmt: CreateSchemaStmt)
    requires
        consistent(c),
    ensures
        follows(c, schema_created(c, stmt).1),
    decreases stmt, 0nat, 0int,
{
    lemma_ensured_namespace(c, stmt.schemaname@);
    lemma_statements_applied(c, stmt.schema_elts@, 0);
    lemma_statements_applied(ensured_namespace(c, stmt.schemaname@).1, stmt.schema_elts@, 0);
}

proof fn lemma_version_applied(c: CatalogView, v: ExtensionVersion)
    requires
        consistent(c),
    ensures
        follows(c, version_applied(c, v).1),
    decreases v, 0nat, 0int,
{
    lemma_statements_applied(c, v.script@, 0);
}

proof fn lemma_path_applied(
    c: CatalogView,
    vs: Seq<ExtensionVersion>,
    path: Seq<int>,
    k: int,
)
    requires
        consistent(c),
    ensures
        follows(c, path_applied(c, vs, path, k).1),
    decreases vs, 0nat, path.len() - k,
{
    if 0 <= k < path.len() && 0 <= path[k] < vs.len() {
        lemma_version_applied(c, vs[path[k]]);
        lemma_path_applied(version_applied(c, vs[path[k]]).1, vs, path, k + 1);
    }
}

proof fn lemma_scripts_applied(
    c: CatalogView,
    ext: ExtensionDef,
    schema: Seq<char>,
    path: Seq<int>,
)
    requires
        consistent(c),
    ensures
        follows(c, scripts_applied(c, ext, schema, path).1),
    decreases ext, 0nat, 0int,
{
    lemma_ensured_namespace(c, schema);
    match ensured_namespace(c, schema) {
        (Ok(ns), c1) => {
            let d = searched_first(c1, ns);
            lemma_rest(c1, d);
            lemma_path_applied(d, ext.versions@, path, 0);
            let c2 = path_applied(d, ext.versions@, path, 0).1;
            lemma_rest(c2, CatalogView { search_path: c.search_path, ..c2 });
        },
        _ => {},
    }
}

proof fn lemma_extension_created(c: CatalogView, stmt: CreateExtensionStmt)
    requires
        consistent(c),
    ensures
        follows(c, extension_created(c, stmt).1),
    decreases stmt, 0nat, 0int,
{
    let name = stmt.extname@;
    let k = extension_position(stmt.registry@, name, 0);
    if map_get(c.extension_by_name, (0, name)) is None && 0 <= k < stmt.registry@.len() {
        let ext = stmt.registry@[k];
        let version = text_or(
            text_option(stmt.options@, "new_version"@, 0),
            ext.default_version@,
        );
        let schema = text_or(text_option(stmt.options@, "schema"@, 0), "public"@);
        lemma_ensured_namespace(c, schema);
        match (
            install_path(ext.name@, version_views(ext.versions@), version),
            ensured_namespace(c, schema),
        ) {
            (Ok(path), (Ok(ns), c1)) => {
                lemma_allocated(c1);
                match c1.allocated() {
                    (Ok(oid), c2) => {
                        let row = PgExtensionView {
                            oid,
                            extname: name,
                            extnamespace: ns,
                            extversion: version,
                        };
                        lemma_new_extension(c2, row);
                        let c3 = c2.with_extension(row);
                        assert(decreases_to!(stmt => stmt.registry@[k]));
                        lemma_scripts_applied(c3, ext, schema, path);
                        let c4 = scripts_applied(c3, ext, schema, path).1;
                        lemma_rest(c4, with_members(c4, oid, c3));
                    },
                    _ => {},
                }
            },
            _ => {},
        }
    }
}

proof fn lemma_extension_altered(c: CatalogView, stmt: AlterExtensionStmt)
    requires
        consistent(c),
    ensures
        follows(c, extension_altered(c, stmt).1),
    decreases stmt, 0nat, 0int,
{
    let name = stmt.extname@;
    let k = extension_position(stmt.registry@, name, 0);
    match map_get(c.extension_by_name, (0, name)) {
        Some(oid) => {
            if 0 <= k < stmt.registry@.len() {
                let ext = stmt.registry@[k];
                let version = text_or(
                    text_option(stmt.options@, "new_version"@, 0),
                    ext.default_version@,
                );
                match upgrade_path(
                    ext.name@,
                    version_views(ext.versions@),
                    installed_version(c, oid),
                    version,
                ) {
                    Ok(path) => {
                        assert(decreases_to!(stmt => stmt.registry@[k]));
                        lemma_scripts_applied(c, ext, installed_schema(c, oid), path);
                        let c1 = scripts_applied(c, ext, installed_schema(c, oid), path).1;
                        let c2 = with_members(c1, oid, c);
                        lemma_rest(c1, c2);
                        lemma_row_position_meaning::<PgExtension>(c2.pg_extension, oid);
                        match row_get::<PgExtension>(c2.pg_extension, oid) {
                            Some(row) => {
                                lemma_extension_changed(
                                    c2,
                                    PgExtensionView { extversion: version, ..row },
                                );
                            },
                            None => {},
                        }
                    },
                    Err(_) => {},
                }
            }
        },
        None => {},
    }
}

proof fn lemma_statement_applied(c: CatalogView, s: Statement)
    requires
        consistent(c),
    ensures
        follows(c, statement_applied(c, s).1),
    decreases s, 0nat, 0int,
{
    match s {
        Statement::Create(x) => lemma_table_created(c, x),
        Statement::AlterTable(x) => lemma_table_altered(c, x),
        Statement::CreateDomain(x) => lemma_domain_created(c, x),
        Statement::CreateEnum(x) => lemma_enum_created(c, x),
        Statement::CompositeType(x) => lemma_composite_created(c, x),
        Statement::CreateRange(x) => lemma_range_created(c, x),
        Statement::AlterEnum(x) => lemma_enum_altered(c, x),
        Statement::Drop(x) => lemma_objects_dropped(c, x, 0),
        Statement::CreateSchema(x) => lemma_schema_created(c, x),
        Statement::CreateSeq(x) => lemma_sequence_created(c, x),
        Statement::CreateFunction(x) => lemma_function_created(c, x),
        Statement::View(x) => lemma_view_created(c, x),
        Statement::CreateTableAs(x) => lemma_table_as_created(c, x),
        Statement::CreateExtension(x) => lemma_extension_created(c, x),
        Statement::AlterExtension(x) => lemma_extension_altered(c, x),
        Statement::Define(x) => match x.kind {
            ObjectType::Type => lemma_type_defined(c, x),
            ObjectType::Operator => lemma_operator_created(c, x),
            ObjectType::Aggregate => lemma_aggregate_created(c, x),
            ObjectType::Collation => lemma_collation_created(c, x),
            _ => {},
        },
        Statement::CreateCast(x) => lemma_cast_created(c, x),
        Statement::Rename(x) => lemma_renamed(c, x),
        Statement::AlterObjectSchema(x) => lemma_schema_set(c, x),
        Statement::Index(x) => lemma_index_created(c, x),
        _ => {},
    }
}

// ── Laws ────────────────────────────────────────────────────────────────────

/// A catalog without rows is consistent.
pub proof fn law_empty_catalog_is_consistent()
    ensures
        consistent(empty_catalog()),
{
    reveal(consistent);
    law_empty_catalog_is_in_step();
}

/// Whatever statement is applied to a consistent catalog, and whether it succeeds or
/// not, the catalog stays consistent: no table has a key twice, every name leads to a
/// row that bears it, and every OID in use has been given out.
pub proof fn law_statement_keeps_the_catalog_consistent(c: CatalogView, s: Statement)
    requires
        consistent(c),
    ensures
        consistent(statement_applied(c, s).1),
{
    lemma_statement_applied(c, s);
}

/// The same holds of statements one after the other.
pub proof fn law_statements_keep_the_catalog_consistent(c: CatalogView, list: Seq<Statement>)
    requires
        consistent(c),
    ensures
        consistent(statements_applied(c, list, 0).1),
{
    lemma_statements_applied(c, list, 0);
}

/// No OID is given out twice: the next one only grows.
pub proof fn law_oids_only_grow(c: CatalogView, list: Seq<Statement>)
    requires
        consistent(c),
    ensures
        c.next_oid <= statements_applied(c, list, 0).1.next_oid,
{
    lemma_statements_applied(c, list, 0);
}

/// What statements make of a consistent catalog can be stored: its rows come back as
/// they were stored.
pub proof fn law_catalog_after_statements_comes_back(c: CatalogView, list: Seq<Statement>)
    requires
        consistent(c),
    ensures
        ({
            let d = statements_applied(c, list, 0).1;
            seed_of(loaded(seed_of(d))) == seed_of(d)
        }),
{
    lemma_statements_applied(c, list, 0);
    reveal(consistent);
    law_stored_catalog_comes_back(statements_applied(c, list, 0).1);
}

} // verus!
